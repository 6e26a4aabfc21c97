//! The Bluetooth USB transport daemon's logic: USB descriptor parsing, the
//! controller bring-up sequence, controller state and the command line.

use vstd::prelude::*;
use vstd::string::StringExecFns;
use crate::bytes::{le16, u16_from_le};
use crate::hci::{
    cmd_read_bd_addr, cmd_read_local_version, cmd_reset, parse_local_version, parse_read_bd_addr,
    spec_cc_params, HciCommand, HciEvent, EVT_COMMAND_COMPLETE, OP_READ_BD_ADDR, OP_READ_LOCAL_VERSION, OP_RESET,
};
use crate::text::{decimal, hex2, hex4_lower, lines_text, numbered, push_decimal, push_hex2, push_hex4_lower, push_str};
use crate::fat_report::{joined, lemma_joined_push};
use crate::textparse::{parse_unsigned, spec_parse_unsigned};
use vstd::string::StrSliceExecFns;
use vstd::utf8::encode_utf8;
use crate::usb_transport::UsbHciTransport;

verus! {

pub const STATUS_FRESHNESS_SECS: u64 = 90;
pub const BLUETOOTH_USB_CLASS: u8 = 0xE0;
pub const BLUETOOTH_USB_SUBCLASS: u8 = 0x01;
pub const BLUETOOTH_USB_PROTOCOL: u8 = 0x01;
pub const KNOWN_BLUETOOTH_USB_VENDORS: [u16; 4] = [0x8087, 0x0BDA, 0x0A5C, 0x0A12];

/// USB transfer type from bmAttributes bits 0-1
pub const USB_TRANSFER_INTERRUPT: u8 = 3;
pub const USB_TRANSFER_BULK: u8 = 2;

#[derive(Clone, Copy, Debug, PartialEq, Eq, Structural)]
pub struct UsbDeviceDescriptor {
    pub vendor_id: u16,
    pub device_id: u16,
    pub class: u8,
    pub subclass: u8,
    pub protocol: u8,
}

/// A device is taken for a Bluetooth controller when its class triple is
/// the Bluetooth one or its vendor is a known Bluetooth vendor.
pub open spec fn spec_looks_like_bluetooth(d: UsbDeviceDescriptor) -> bool {
    (d.class == BLUETOOTH_USB_CLASS && d.subclass == BLUETOOTH_USB_SUBCLASS && d.protocol
        == BLUETOOTH_USB_PROTOCOL) || d.vendor_id == 0x8087 || d.vendor_id == 0x0BDA || d.vendor_id
        == 0x0A5C || d.vendor_id == 0x0A12
}

impl UsbDeviceDescriptor {
    pub fn looks_like_bluetooth(self) -> (r: bool)
        ensures
            r == spec_looks_like_bluetooth(self),
    {
        (self.class == BLUETOOTH_USB_CLASS && self.subclass == BLUETOOTH_USB_SUBCLASS
            && self.protocol == BLUETOOTH_USB_PROTOCOL) || self.vendor_id == 0x8087
            || self.vendor_id == 0x0BDA || self.vendor_id == 0x0A5C || self.vendor_id == 0x0A12
    }
}

/// USB HCI transport endpoint addresses for a Bluetooth controller
#[derive(Clone, Copy, Debug, PartialEq, Eq, Structural)]
pub struct HciEndpoints {
    /// Interrupt IN endpoint for HCI events (required)
    pub event_endpoint: u8,
    /// Bulk IN endpoint for ACL data from controller (required)
    pub acl_in_endpoint: u8,
    /// Bulk OUT endpoint for ACL data to controller (required)
    pub acl_out_endpoint: u8,
    /// Maximum packet size for the event endpoint
    pub event_max_packet_size: u16,
    /// Maximum packet size for the bulk IN endpoint
    pub acl_in_max_packet_size: u16,
    /// Maximum packet size for the bulk OUT endpoint
    pub acl_out_max_packet_size: u16,
}

/// All endpoints and packet sizes zero.
pub open spec fn zero_endpoints() -> HciEndpoints {
    HciEndpoints {
        event_endpoint: 0,
        acl_in_endpoint: 0,
        acl_out_endpoint: 0,
        event_max_packet_size: 0,
        acl_in_max_packet_size: 0,
        acl_out_max_packet_size: 0,
    }
}

impl Default for HciEndpoints {
    fn default() -> (r: Self)
        ensures
            r == zero_endpoints(),
    {
        HciEndpoints {
            event_endpoint: 0,
            acl_in_endpoint: 0,
            acl_out_endpoint: 0,
            event_max_packet_size: 0,
            acl_in_max_packet_size: 0,
            acl_out_max_packet_size: 0,
        }
    }
}

/// Controller initialization state
#[derive(Clone, Copy, Debug, PartialEq, Eq, Structural)]
pub enum ControllerState {
    /// No communication with controller yet
    Closed,
    /// Sending HCI initialization commands
    Initializing,
    /// Controller is ready for use
    Active,
    /// Initialization or communication failed
    Error,
}

impl Default for ControllerState {
    fn default() -> (r: Self)
        ensures
            r == ControllerState::Closed,
    {
        ControllerState::Closed
    }
}

/// Information gathered from the controller during initialization
#[derive(Clone, Debug, PartialEq, Eq)]
pub struct ControllerInfo {
    pub state: ControllerState,
    pub bd_address: Option<[u8; 6]>,
    pub hci_version: Option<u8>,
    pub hci_revision: Option<u16>,
    pub manufacturer_name: Option<u16>,
    pub init_error: Option<String>,
}

impl Default for ControllerInfo {
    fn default() -> (r: Self)
        ensures
            r.state == ControllerState::Closed,
            r.bd_address is None,
            r.hci_version is None,
            r.hci_revision is None,
            r.manufacturer_name is None,
            r.init_error is None,
    {
        ControllerInfo {
            state: ControllerState::Closed,
            bd_address: None,
            hci_version: None,
            hci_revision: None,
            manufacturer_name: None,
            init_error: None,
        }
    }
}

/// USB endpoint descriptor fields extracted from raw descriptor data
#[derive(Clone, Copy, Debug, PartialEq, Eq, Structural)]
pub struct UsbEndpointDescriptor {
    pub endpoint_address: u8,
    pub attributes: u8,
    pub max_packet_size: u16,
    pub interval: u8,
}

/// The endpoint descriptor at the start of `raw`, if `raw` begins with a
/// complete one: `bLength` 7, `bDescriptorType` 5, then address,
/// attributes, little-endian max packet size and interval.
pub open spec fn spec_endpoint_descriptor(raw: Seq<u8>) -> Option<UsbEndpointDescriptor> {
    if raw.len() < 7 || raw[0] != 7 || raw[1] != 5 {
        None
    } else {
        Some(
            UsbEndpointDescriptor {
                endpoint_address: raw[2],
                attributes: raw[3],
                max_packet_size: le16(raw[4], raw[5]),
                interval: raw[6],
            },
        )
    }
}

/// Parse a single USB endpoint descriptor from raw bytes.
pub fn parse_usb_endpoint_descriptor(raw: &[u8]) -> (r: Option<UsbEndpointDescriptor>)
    ensures
        r == spec_endpoint_descriptor(raw@),
{
    if raw.len() < 7 {
        return None;
    }
    if raw[0] != 7 {
        return None;
    }
    if raw[1] != 5 {
        return None;
    }
    Some(
        UsbEndpointDescriptor {
            endpoint_address: raw[2],
            attributes: raw[3],
            max_packet_size: u16_from_le(raw[4], raw[5]),
            interval: raw[6],
        },
    )
}

/// What a descriptor walk has found so far: the endpoints and whether the
/// interrupt IN, bulk IN and bulk OUT endpoints have been seen.
pub struct EndpointScan {
    pub endpoints: HciEndpoints,
    pub found_interrupt_in: bool,
    pub found_bulk_in: bool,
    pub found_bulk_out: bool,
}

/// Records one endpoint descriptor: an interrupt IN endpoint carries events,
/// a bulk IN endpoint ACL data in, a bulk OUT endpoint ACL data out; any
/// other endpoint is ignored. A later endpoint of a kind replaces an earlier one.
pub open spec fn scan_endpoint(s: EndpointScan, ep: UsbEndpointDescriptor) -> EndpointScan {
    let direction_in = ep.endpoint_address & 0x80 != 0;
    let num = ep.endpoint_address & 0x0F;
    let tt = ep.attributes & 0x03;
    if tt == USB_TRANSFER_INTERRUPT && direction_in {
        EndpointScan {
            endpoints: HciEndpoints {
                event_endpoint: num,
                event_max_packet_size: ep.max_packet_size,
                ..s.endpoints
            },
            found_interrupt_in: true,
            ..s
        }
    } else if tt == USB_TRANSFER_BULK && direction_in {
        EndpointScan {
            endpoints: HciEndpoints {
                acl_in_endpoint: num,
                acl_in_max_packet_size: ep.max_packet_size,
                ..s.endpoints
            },
            found_bulk_in: true,
            ..s
        }
    } else if tt == USB_TRANSFER_BULK && !direction_in {
        EndpointScan {
            endpoints: HciEndpoints {
                acl_out_endpoint: num,
                acl_out_max_packet_size: ep.max_packet_size,
                ..s.endpoints
            },
            found_bulk_out: true,
            ..s
        }
    } else {
        s
    }
}

/// Walks the descriptors of `raw` from offset `o`: each starts with its
/// length and type; the walk stops at a length under 2 or a descriptor that
/// runs past the end.
pub open spec fn scan_descriptors(raw: Seq<u8>, o: int, s: EndpointScan) -> EndpointScan
    decreases raw.len() - o,
{
    if o < 0 || o + 2 > raw.len() || raw[o] < 2 || o + raw[o] > raw.len() {
        s
    } else {
        let next = if raw[o + 1] == 5 {
            match spec_endpoint_descriptor(raw.subrange(o, raw.len() as int)) {
                Some(ep) => scan_endpoint(s, ep),
                None => s,
            }
        } else {
            s
        };
        scan_descriptors(raw, o + raw[o], next)
    }
}

pub open spec fn empty_scan() -> EndpointScan {
    EndpointScan {
        endpoints: zero_endpoints(),
        found_interrupt_in: false,
        found_bulk_in: false,
        found_bulk_out: false,
    }
}

fn record_endpoint(s: EndpointScan, ep: UsbEndpointDescriptor) -> (r: EndpointScan)
    ensures
        r == scan_endpoint(s, ep),
{
    let direction_in = (ep.endpoint_address & 0x80) != 0;
    let num = ep.endpoint_address & 0x0F;
    let tt = ep.attributes & 0x03;
    let mut s = s;
    if tt == USB_TRANSFER_INTERRUPT && direction_in {
        s.endpoints.event_endpoint = num;
        s.endpoints.event_max_packet_size = ep.max_packet_size;
        s.found_interrupt_in = true;
    } else if tt == USB_TRANSFER_BULK && direction_in {
        s.endpoints.acl_in_endpoint = num;
        s.endpoints.acl_in_max_packet_size = ep.max_packet_size;
        s.found_bulk_in = true;
    } else if tt == USB_TRANSFER_BULK && !direction_in {
        s.endpoints.acl_out_endpoint = num;
        s.endpoints.acl_out_max_packet_size = ep.max_packet_size;
        s.found_bulk_out = true;
    }
    s
}

/// Parse HCI endpoints from raw USB descriptors blob.
///
/// Walks the descriptor blob looking for endpoint descriptors that match
/// the Bluetooth HCI interface (interrupt IN, bulk IN, bulk OUT).
pub fn parse_hci_endpoints_from_descriptors(raw: &[u8]) -> (r: Result<HciEndpoints, String>)
    ensures
        ({
            let s = scan_descriptors(raw@, 0, empty_scan());
            match r {
                Ok(e) => s.found_interrupt_in && s.found_bulk_in && s.found_bulk_out && e
                    == s.endpoints,
                Err(msg) => if !s.found_interrupt_in {
                    msg@ == "missing HCI interrupt IN endpoint in USB descriptors"@
                } else if !s.found_bulk_in {
                    msg@ == "missing HCI bulk IN endpoint in USB descriptors"@
                } else {
                    !s.found_bulk_out && msg@ == "missing HCI bulk OUT endpoint in USB descriptors"@
                },
            }
        }),
{
    let mut s = EndpointScan {
        endpoints: HciEndpoints::default(),
        found_interrupt_in: false,
        found_bulk_in: false,
        found_bulk_out: false,
    };
    let mut offset: usize = 0;
    while raw.len() >= 2 && offset <= raw.len() - 2
        invariant
            offset <= raw@.len(),
            scan_descriptors(raw@, 0, empty_scan()) == scan_descriptors(raw@, offset as int, s),
        ensures
            scan_descriptors(raw@, 0, empty_scan()) == s,
        decreases raw@.len() - offset,
    {
        let desc_len = raw[offset] as usize;
        let desc_type = raw[offset + 1];
        if desc_len < 2 || desc_len > raw.len() - offset {
            break;
        }
        if desc_type == 5 {
            let rest = vstd::slice::slice_subrange(raw, offset, raw.len());
            match parse_usb_endpoint_descriptor(rest) {
                Some(ep) => {
                    s = record_endpoint(s, ep);
                },
                None => {},
            }
        }
        offset = offset + desc_len;
    }
    if !s.found_interrupt_in {
        return Err(String::from_str("missing HCI interrupt IN endpoint in USB descriptors"));
    }
    if !s.found_bulk_in {
        return Err(String::from_str("missing HCI bulk IN endpoint in USB descriptors"));
    }
    if !s.found_bulk_out {
        return Err(String::from_str("missing HCI bulk OUT endpoint in USB descriptors"));
    }
    Ok(s.endpoints)
}

/// The message for a reset answered by an event other than Command Complete.
pub open spec fn unexpected_reset_event_text(code: u8) -> Seq<char> {
    "HCI Reset: unexpected event code 0x"@ + hex2(code)
}

/// Checks the controller's answer to HCI Reset: it must be a Command
/// Complete event.
pub fn check_reset_response(event: Option<HciEvent>) -> (r: Result<(), String>)
    ensures
        match event {
            None => r matches Err(msg) && msg@ == "HCI Reset: no response from controller"@,
            Some(e) => if e.event_code == EVT_COMMAND_COMPLETE {
                r is Ok
            } else {
                r matches Err(msg) && msg@ == unexpected_reset_event_text(e.event_code)
            },
        },
{
    match event {
        None => Err(String::from_str("HCI Reset: no response from controller")),
        Some(e) => {
            if e.is_command_complete() {
                Ok(())
            } else {
                let mut msg = String::new();
                push_str(&mut msg, "HCI Reset: unexpected event code 0x");
                push_hex2(&mut msg, e.event_code);
                assert(msg@ =~= unexpected_reset_event_text(e.event_code));
                Err(msg)
            }
        },
    }
}

/// The address that an answer to Read BD_ADDR reports: present when the
/// answer is a Command Complete for that command with status 0 and six
/// address bytes.
pub open spec fn reported_bd_address(event: Option<HciEvent>) -> Option<Seq<u8>> {
    match event {
        Some(e) => match spec_cc_params(e.event_code, e.parameters@) {
            Some((_, op, rp)) if op == OP_READ_BD_ADDR && rp.len() >= 6 && e.parameters@[3] == 0 => Some(
                rp.subrange(0, 6),
            ),
            _ => None,
        },
        None => None,
    }
}

/// Records the controller address from the answer to Read BD_ADDR; any
/// other answer leaves the information as it was.
pub fn apply_bd_addr_response(info: &mut ControllerInfo, event: Option<HciEvent>)
    ensures
        match reported_bd_address(event) {
            Some(a) => final(info).bd_address matches Some(b) && b@ == a,
            None => final(info).bd_address == old(info).bd_address,
        },
        final(info).state == old(info).state,
        final(info).hci_version == old(info).hci_version,
        final(info).hci_revision == old(info).hci_revision,
        final(info).manufacturer_name == old(info).manufacturer_name,
        final(info).init_error == old(info).init_error,
{
    if let Some(event) = event {
        if let Some(result) = parse_read_bd_addr(&event) {
            if result.status == 0x00 {
                info.bd_address = Some(result.address);
            }
        }
    }
}

/// The version fields (HCI version, HCI revision, manufacturer) that an
/// answer to Read Local Version reports, when it is a complete answer with
/// status 0.
pub open spec fn reported_local_version(event: Option<HciEvent>) -> Option<(u8, u16, u16)> {
    match event {
        Some(e) => match spec_cc_params(e.event_code, e.parameters@) {
            Some((_, op, rp)) if op == OP_READ_LOCAL_VERSION && rp.len() >= 8 && e.parameters@[3]
                == 0 => Some((rp[0], le16(rp[1], rp[2]), le16(rp[4], rp[5]))),
            _ => None,
        },
        None => None,
    }
}

/// Records the controller version from the answer to Read Local Version;
/// any other answer leaves the information as it was.
pub fn apply_local_version_response(info: &mut ControllerInfo, event: Option<HciEvent>)
    ensures
        match reported_local_version(event) {
            Some((v, rev, m)) => final(info).hci_version == Some(v) && final(info).hci_revision
                == Some(rev) && final(info).manufacturer_name == Some(m),
            None => final(info).hci_version == old(info).hci_version && final(info).hci_revision
                == old(info).hci_revision && final(info).manufacturer_name == old(
                info,
            ).manufacturer_name,
        },
        final(info).state == old(info).state,
        final(info).bd_address == old(info).bd_address,
        final(info).init_error == old(info).init_error,
{
    if let Some(event) = event {
        if let Some(result) = parse_local_version(&event) {
            if result.status == 0x00 {
                info.hci_version = Some(result.hci_version);
                info.hci_revision = Some(result.hci_revision);
                info.manufacturer_name = Some(result.manufacturer_name);
            }
        }
    }
}

/// Whether `m` begins with `prefix`.
pub open spec fn begins_with(m: Seq<char>, prefix: Seq<char>) -> bool {
    m.len() >= prefix.len() && m.subrange(0, prefix.len() as int) == prefix
}

/// The steps of bringing the controller up, in order.
#[derive(Clone, Copy, Debug, PartialEq, Eq, Structural)]
pub enum InitStage {
    /// HCI Reset.
    Reset,
    /// Read BD_ADDR.
    ReadAddress,
    /// Read Local Version.
    ReadVersion,
}

/// The command a step sends.
pub open spec fn stage_command(stage: InitStage) -> (u16, Seq<u8>) {
    match stage {
        InitStage::Reset => (OP_RESET, Seq::<u8>::empty()),
        InitStage::ReadAddress => (OP_READ_BD_ADDR, Seq::<u8>::empty()),
        InitStage::ReadVersion => (OP_READ_LOCAL_VERSION, Seq::<u8>::empty()),
    }
}

/// The command for a step of bringing the controller up.
pub fn init_command(stage: InitStage) -> (r: HciCommand)
    ensures
        (r.opcode, r.parameters@) == stage_command(stage),
{
    match stage {
        InitStage::Reset => cmd_reset(),
        InitStage::ReadAddress => cmd_read_bd_addr(),
        InitStage::ReadVersion => cmd_read_local_version(),
    }
}

/// The text that names a step whose send failed.
pub open spec fn send_failure_context(stage: InitStage) -> Seq<char> {
    match stage {
        InitStage::Reset => "HCI Reset send failed: "@,
        InitStage::ReadAddress => "HCI Read BD Addr send failed: "@,
        InitStage::ReadVersion => "HCI Read Local Version send failed: "@,
    }
}

/// The text that names a step whose answer could not be received.
pub open spec fn recv_failure_context(stage: InitStage) -> Seq<char> {
    match stage {
        InitStage::Reset => "HCI Reset response failed: "@,
        InitStage::ReadAddress => "HCI Read BD Addr response: "@,
        InitStage::ReadVersion => "HCI Read Local Version response: "@,
    }
}

fn send_failure_label(stage: InitStage) -> (r: &'static str)
    ensures
        r@ == send_failure_context(stage),
{
    proof {
        reveal_strlit("HCI Reset send failed: ");
        reveal_strlit("HCI Read BD Addr send failed: ");
        reveal_strlit("HCI Read Local Version send failed: ");
    }
    match stage {
        InitStage::Reset => "HCI Reset send failed: ",
        InitStage::ReadAddress => "HCI Read BD Addr send failed: ",
        InitStage::ReadVersion => "HCI Read Local Version send failed: ",
    }
}

fn recv_failure_label(stage: InitStage) -> (r: &'static str)
    ensures
        r@ == recv_failure_context(stage),
{
    proof {
        reveal_strlit("HCI Reset response failed: ");
        reveal_strlit("HCI Read BD Addr response: ");
        reveal_strlit("HCI Read Local Version response: ");
    }
    match stage {
        InitStage::Reset => "HCI Reset response failed: ",
        InitStage::ReadAddress => "HCI Read BD Addr response: ",
        InitStage::ReadVersion => "HCI Read Local Version response: ",
    }
}

/// The message a refused reset answer gives.
pub open spec fn reset_refusal_text(answer: Option<HciEvent>) -> Seq<char> {
    match answer {
        None => "HCI Reset: no response from controller"@,
        Some(e) => unexpected_reset_event_text(e.event_code),
    }
}

/// What bringing the controller up does next.
#[derive(Clone, Debug)]
pub enum InitAction {
    /// Send the step's command and wait for its answer.
    Exchange(InitStage),
    /// Stop with this error.
    Fail(String),
    /// Stop: the controller is up, with the information the step left.
    Finish,
}

/// The messages bringing the controller up fails with: a missing or wrong
/// answer to the reset, or a transport failure at one of the steps, named
/// by the step.
pub open spec fn init_failure_text(m: Seq<char>) -> bool {
    ||| exists|answer: Option<HciEvent>| m == #[trigger] reset_refusal_text(answer)
    ||| exists|stage: InitStage| begins_with(m, #[trigger] send_failure_context(stage))
    ||| exists|stage: InitStage| begins_with(m, #[trigger] recv_failure_context(stage))
}

/// The address and version fields after bringing the controller up, given
/// the answers to Read BD_ADDR and Read Local Version: what those answers
/// report, and nothing where they report nothing.
pub open spec fn init_fields(
    info: ControllerInfo,
    addr_answer: Option<HciEvent>,
    version_answer: Option<HciEvent>,
) -> bool {
    &&& match reported_bd_address(addr_answer) {
        Some(a) => info.bd_address matches Some(b) && b@ == a,
        None => info.bd_address is None,
    }
    &&& match reported_local_version(version_answer) {
        Some((v, rev, m)) => info.hci_version == Some(v) && info.hci_revision == Some(rev)
            && info.manufacturer_name == Some(m),
        None => info.hci_version is None && info.hci_revision is None && info.manufacturer_name
            is None,
    }
}

fn transport_failure(context: &str, err: std::io::Error) -> (r: String)
    ensures
        r@.len() >= context@.len(),
        r@.subrange(0, context@.len() as int) == context@,
{
    let mut msg = String::from_str(context);
    let detail = err.to_string();
    msg.append(detail.as_str());
    assert(msg@.subrange(0, context@.len() as int) =~= context@);
    msg
}

/// One step of bringing the controller up: given the step just taken, the
/// information so far and the answer its command got, the information
/// after it and what comes next. The reset must be answered by a Command
/// Complete, else bring-up fails with the refusal; the address answer is
/// recorded and Read Local Version follows; the version answer is recorded
/// and bring-up finishes with the controller active.
pub fn init_step(stage: InitStage, info: ControllerInfo, answer: Option<HciEvent>) -> (r: (
    ControllerInfo,
    InitAction,
))
    ensures
        match stage {
            InitStage::Reset => if answer matches Some(e) && e.event_code == EVT_COMMAND_COMPLETE {
                r.0 == info && (r.1 matches InitAction::Exchange(s) && s == InitStage::ReadAddress)
            } else {
                r.0 == info && (r.1 matches InitAction::Fail(m) && m@ == reset_refusal_text(answer))
            },
            InitStage::ReadAddress => {
                &&& r.1 matches InitAction::Exchange(s) && s == InitStage::ReadVersion
                &&& match reported_bd_address(answer) {
                    Some(a) => r.0.bd_address matches Some(b) && b@ == a,
                    None => r.0.bd_address == info.bd_address,
                }
                &&& r.0.state == info.state
                &&& r.0.hci_version == info.hci_version
                &&& r.0.hci_revision == info.hci_revision
                &&& r.0.manufacturer_name == info.manufacturer_name
                &&& r.0.init_error == info.init_error
            },
            InitStage::ReadVersion => {
                &&& r.1 is Finish
                &&& match reported_local_version(answer) {
                    Some((v, rev, m)) => r.0.hci_version == Some(v) && r.0.hci_revision == Some(rev)
                        && r.0.manufacturer_name == Some(m),
                    None => r.0.hci_version == info.hci_version && r.0.hci_revision
                        == info.hci_revision && r.0.manufacturer_name == info.manufacturer_name,
                }
                &&& r.0.state == ControllerState::Active
                &&& r.0.bd_address == info.bd_address
                &&& r.0.init_error == info.init_error
            },
        },
{
    let mut info = info;
    match stage {
        InitStage::Reset => {
            let ghost a = answer;
            match check_reset_response(answer) {
                Ok(()) => (info, InitAction::Exchange(InitStage::ReadAddress)),
                Err(msg) => {
                    proof {
                        if let Some(e) = a {
                            assert(msg@ == unexpected_reset_event_text(e.event_code));
                        }
                    }
                    (info, InitAction::Fail(msg))
                },
            }
        },
        InitStage::ReadAddress => {
            apply_bd_addr_response(&mut info, answer);
            (info, InitAction::Exchange(InitStage::ReadVersion))
        },
        InitStage::ReadVersion => {
            apply_local_version_response(&mut info, answer);
            info.state = ControllerState::Active;
            (info, InitAction::Finish)
        },
    }
}

/// The commands bringing the controller up, in order.
pub open spec fn init_commands() -> Seq<(u16, Seq<u8>)> {
    seq![
        stage_command(InitStage::Reset),
        stage_command(InitStage::ReadAddress),
        stage_command(InitStage::ReadVersion),
    ]
}

/// The step with a position (1 to 3) in bring-up.
pub open spec fn stage_at(k: int) -> InitStage {
    if k == 1 {
        InitStage::Reset
    } else if k == 2 {
        InitStage::ReadAddress
    } else {
        InitStage::ReadVersion
    }
}

/// Whether the answer to the reset lets bring-up go on: a Command Complete.
pub open spec fn reset_accepted(answer: Option<Option<HciEvent>>) -> bool {
    answer matches Some(Some(e)) && e.event_code == EVT_COMMAND_COMPLETE
}

/// What bringing the controller up did, given the commands it handed the
/// transport (`sent`) and the answers it received (`got`), and what it
/// returned: the commands are the first of reset, Read BD_ADDR and Read
/// Local Version, in that order; one answer follows each send that went
/// through; a step is taken only once the one before it went through (the
/// reset answered by a Command Complete); nothing follows a failure; and
/// the result is the fields the answers report, or the failure of the last
/// step taken.
pub open spec fn init_outcome(
    sent: Seq<(u16, Seq<u8>)>,
    got: Seq<Option<Option<HciEvent>>>,
    r: Result<ControllerInfo, String>,
) -> bool {
    let k = sent.len() as int;
    &&& 1 <= k <= 3
    &&& sent == init_commands().take(k)
    &&& (got.len() == k || got.len() + 1 == k)
    &&& forall|i: int| 0 <= i < k - 1 ==> #[trigger] got[i] is Some
    &&& k >= 2 ==> reset_accepted(got[0])
    &&& match r {
        Ok(info) => {
            &&& k == 3 && got.len() == 3
            &&& got[2] is Some
            &&& info.state == ControllerState::Active
            &&& info.init_error is None
            &&& init_fields(info, got[1]->0, got[2]->0)
        },
        Err(msg) => if got.len() + 1 == k {
            begins_with(msg@, send_failure_context(stage_at(k)))
        } else if got[k - 1] is None {
            begins_with(msg@, recv_failure_context(stage_at(k)))
        } else {
            k == 1 && !reset_accepted(got[0]) && msg@ == reset_refusal_text(got[0]->0)
        },
    }
}

/// One exchange of bring-up: sends the step's command and, where that went
/// through, receives one answer. A failure gives the message that names
/// the step and what the transport reported.
fn init_exchange<T: UsbHciTransport>(transport: &mut T, stage: InitStage) -> (r: Result<
    Option<HciEvent>,
    String,
>)
    ensures
        final(transport).keeps_records() == old(transport).keeps_records(),
        match r {
            Ok(_) => true,
            Err(m) => begins_with(m@, send_failure_context(stage)) || begins_with(
                m@,
                recv_failure_context(stage),
            ),
        },
        old(transport).keeps_records() ==> final(transport).commands_handed() == old(
            transport).commands_handed().push(stage_command(stage)),
        old(transport).keeps_records() ==> match r {
            Ok(a) => final(transport).events_received() == old(transport).events_received().push(
                Some(a)),
            Err(m) => (final(transport).events_received() == old(transport).events_received()
                && begins_with(m@, send_failure_context(stage))) || (final(transport).events_received()
                == old(transport).events_received().push(None) && begins_with(
                m@,
                recv_failure_context(stage),
            )),
        },
{
    let command = init_command(stage);
    if let Err(err) = transport.send_command(&command) {
        let msg = transport_failure(send_failure_label(stage), err);
        return Err(msg);
    }
    match transport.recv_event() {
        Ok(e) => Ok(e),
        Err(err) => Err(transport_failure(recv_failure_label(stage), err)),
    }
}

/// Brings the controller up: HCI Reset, then Read BD_ADDR, then Read Local
/// Version, each sent and answered once, with `init_step` deciding what
/// follows each answer.
///
/// A transport failure fails the sequence with a message that names the
/// step, a refused reset fails it with the refusal, and nothing is sent
/// after a failure. What the controller answers is the transport's: on
/// success the information is marked active with no error, and the address
/// and version hold what the answers reported, if they reported it. For a
/// transport that keeps records, the records show exactly the commands
/// handed and answers received, in order.
pub fn hci_init_sequence<T: UsbHciTransport>(transport: &mut T) -> (r: Result<ControllerInfo, String>)
    ensures
        match r {
            Ok(info) => info.state == ControllerState::Active && info.init_error is None && exists|
                addr_answer: Option<HciEvent>,
                version_answer: Option<HciEvent>,
            | init_fields(info, addr_answer, version_answer),
            Err(msg) => init_failure_text(msg@),
        },
        final(transport).keeps_records() == old(transport).keeps_records(),
        old(transport).keeps_records() ==> ({
            let h0 = old(transport).commands_handed();
            let e0 = old(transport).events_received();
            let h = final(transport).commands_handed();
            let e = final(transport).events_received();
            &&& h.len() >= h0.len() && h.subrange(0, h0.len() as int) == h0
            &&& e.len() >= e0.len() && e.subrange(0, e0.len() as int) == e0
            &&& init_outcome(
                h.subrange(h0.len() as int, h.len() as int),
                e.subrange(e0.len() as int, e.len() as int),
                r,
            )
        }),
{
    let ghost rec = transport.keeps_records();
    let ghost h0 = transport.commands_handed();
    let ghost e0 = transport.events_received();
    let mut info = ControllerInfo::default();
    info.state = ControllerState::Initializing;

    let a0 = match init_exchange(transport, InitStage::Reset) {
        Ok(a) => a,
        Err(msg) => {
            proof {
                if rec {
                    if transport.events_received() == e0 {
                        assert(transport.commands_handed() =~= h0 + init_commands().take(1));
                        assert(transport.events_received() =~= e0 + seq![]);
                        lemma_init_logs(h0, e0, transport.commands_handed(), transport.events_received(), 1, seq![]);
                    } else {
                        assert(transport.commands_handed() =~= h0 + init_commands().take(1));
                        assert(transport.events_received() =~= e0 + seq![None]);
                        lemma_init_logs(h0, e0, transport.commands_handed(), transport.events_received(), 1, seq![None]);
                    }
                }
            }
            return Err(msg);
        },
    };
    let ghost g0: Option<Option<HciEvent>> = Some(a0);
    proof {
        if rec {
            assert(transport.events_received() =~= e0 + seq![g0]);
        }
    }
    let (info, action) = init_step(InitStage::Reset, info, a0);
    if let InitAction::Fail(msg) = action {
        proof {
            if rec {
                assert(transport.commands_handed() =~= h0 + init_commands().take(1));
                assert(transport.events_received() =~= e0 + seq![g0]);
                lemma_init_logs(h0, e0, transport.commands_handed(), transport.events_received(), 1, seq![g0]);
            }
        }
        return Err(msg);
    }

    let a1 = match init_exchange(transport, InitStage::ReadAddress) {
        Ok(a) => a,
        Err(msg) => {
            proof {
                if rec {
                    if transport.events_received().len() == e0.len() + 1 {
                        assert(transport.commands_handed() =~= h0 + init_commands().take(2));
                        assert(transport.events_received() =~= e0 + seq![g0]);
                        lemma_init_logs(h0, e0, transport.commands_handed(), transport.events_received(), 2, seq![g0]);
                    } else {
                        assert(transport.commands_handed() =~= h0 + init_commands().take(2));
                        assert(transport.events_received() =~= e0 + seq![g0, None]);
                        lemma_init_logs(h0, e0, transport.commands_handed(), transport.events_received(), 2, seq![g0, None]);
                    }
                }
            }
            return Err(msg);
        },
    };
    let ghost g1: Option<Option<HciEvent>> = Some(a1);
    proof {
        if rec {
            assert(transport.events_received() =~= e0 + seq![g0, g1]);
        }
    }
    let ghost addr_answer = a1;
    let (info, _) = init_step(InitStage::ReadAddress, info, a1);

    let a2 = match init_exchange(transport, InitStage::ReadVersion) {
        Ok(a) => a,
        Err(msg) => {
            proof {
                if rec {
                    if transport.events_received().len() == e0.len() + 2 {
                        assert(transport.commands_handed() =~= h0 + init_commands().take(3));
                        assert(transport.events_received() =~= e0 + seq![g0, g1]);
                        lemma_init_logs(h0, e0, transport.commands_handed(), transport.events_received(), 3, seq![g0, g1]);
                    } else {
                        assert(transport.commands_handed() =~= h0 + init_commands().take(3));
                        assert(transport.events_received() =~= e0 + seq![g0, g1, None]);
                        lemma_init_logs(h0, e0, transport.commands_handed(), transport.events_received(), 3, seq![g0, g1, None]);
                    }
                }
            }
            return Err(msg);
        },
    };
    let ghost g2: Option<Option<HciEvent>> = Some(a2);
    let ghost version_answer = a2;
    let (info, _) = init_step(InitStage::ReadVersion, info, a2);
    proof {
        assert(init_fields(info, addr_answer, version_answer));
        if rec {
            assert(transport.commands_handed() =~= h0 + init_commands().take(3));
            assert(transport.events_received() =~= e0 + seq![g0, g1, g2]);
            lemma_init_logs(h0, e0, transport.commands_handed(), transport.events_received(), 3, seq![g0, g1, g2]);
        }
    }
    Ok(info)
}

proof fn lemma_init_logs(
    h0: Seq<(u16, Seq<u8>)>,
    e0: Seq<Option<Option<HciEvent>>>,
    h: Seq<(u16, Seq<u8>)>,
    e: Seq<Option<Option<HciEvent>>>,
    k: int,
    got: Seq<Option<Option<HciEvent>>>,
)
    requires
        1 <= k <= 3,
        h == h0 + init_commands().take(k),
        e == e0 + got,
    ensures
        h.len() >= h0.len() && h.subrange(0, h0.len() as int) == h0,
        e.len() >= e0.len() && e.subrange(0, e0.len() as int) == e0,
        h.subrange(h0.len() as int, h.len() as int) == init_commands().take(k),
        e.subrange(e0.len() as int, e.len() as int) == got,
{
    assert(h.subrange(0, h0.len() as int) =~= h0);
    assert(e.subrange(0, e0.len() as int) =~= e0);
    assert(h.subrange(h0.len() as int, h.len() as int) =~= init_commands().take(k));
    assert(e.subrange(e0.len() as int, e.len() as int) =~= got);
}

#[derive(Clone, Copy, Debug, PartialEq, Eq, Structural)]
pub enum Command {
    Probe,
    Status,
    Daemon,
}

#[derive(Clone, Debug, PartialEq, Eq)]
pub enum CommandOutcome {
    Print(String),
    RunDaemon,
}

/// Reads the command from the arguments after the program name: `--probe`,
/// `--status`, `--daemon` or nothing (the daemon); anything else is refused.
pub fn parse_command(args: &[String]) -> (r: Result<Command, String>)
    ensures
        args@.len() == 0 ==> r == Ok::<Command, String>(Command::Daemon),
        args@.len() > 0 ==> {
            let a = args@[0]@;
            if a == "--probe"@ {
                r == Ok::<Command, String>(Command::Probe)
            } else if a == "--status"@ {
                r == Ok::<Command, String>(Command::Status)
            } else if a == "--daemon"@ {
                r == Ok::<Command, String>(Command::Daemon)
            } else {
                r matches Err(msg) && msg@ == "unknown argument: "@ + a
            }
        },
{
    if args.len() == 0 {
        return Ok(Command::Daemon);
    }
    let first = &args[0];
    if *first == String::from_str("--probe") {
        Ok(Command::Probe)
    } else if *first == String::from_str("--status") {
        Ok(Command::Status)
    } else if *first == String::from_str("--daemon") {
        Ok(Command::Daemon)
    } else {
        let mut msg = String::from_str("unknown argument: ");
        msg.append(first.as_str());
        Err(msg)
    }
}

// ---- Adapters and the status report ----

/// A USB Bluetooth adapter found on the bus (its device path as text).
#[derive(Clone, Debug, PartialEq, Eq)]
pub struct UsbBluetoothAdapter {
    pub name: String,
    pub vendor_id: u16,
    pub device_id: u16,
    pub bus: String,
    pub device_path: String,
    pub endpoints: HciEndpoints,
}

/// The detail line of the adapter at `index`.
pub open spec fn detail_line_spec(a: &UsbBluetoothAdapter, index: nat) -> Seq<char> {
    "adapter_"@ + decimal(index) + "=name="@ + a.name@ + ";vendor_id="@ + hex4_lower(a.vendor_id)
        + ";device_id="@ + hex4_lower(a.device_id) + ";bus="@ + a.bus@ + ";device_path="@
        + a.device_path@ + ";event_ep="@ + decimal(a.endpoints.event_endpoint as nat)
        + ";acl_in_ep="@ + decimal(a.endpoints.acl_in_endpoint as nat) + ";acl_out_ep="@ + decimal(
        a.endpoints.acl_out_endpoint as nat,
    )
}

impl UsbBluetoothAdapter {
    /// A stand-in adapter with no device behind it.
    pub fn stub(name: String) -> (r: Self)
        ensures
            r.name@ == name@,
            r.vendor_id == 0,
            r.device_id == 0,
            r.bus@ == "stub"@,
            r.device_path@ == "/scheme/usb/stub/"@ + name@,
            r.endpoints == zero_endpoints(),
    {
        let mut device_path = String::from_str("/scheme/usb/stub/");
        device_path.append(name.as_str());
        UsbBluetoothAdapter {
            name,
            vendor_id: 0,
            device_id: 0,
            bus: String::from_str("stub"),
            device_path,
            endpoints: HciEndpoints::default(),
        }
    }

    /// The adapter's line in the probe report.
    pub fn detail_line(&self, index: usize) -> (r: String)
        ensures
            r@ == detail_line_spec(self, index as nat),
    {
        let mut s = numbered("adapter_", index as u64, "=name=");
        s.append(self.name.as_str());
        s.append(";vendor_id=");
        push_hex4_lower(&mut s, self.vendor_id);
        s.append(";device_id=");
        push_hex4_lower(&mut s, self.device_id);
        s.append(";bus=");
        s.append(self.bus.as_str());
        s.append(";device_path=");
        s.append(self.device_path.as_str());
        s.append(";event_ep=");
        push_decimal(&mut s, self.endpoints.event_endpoint as u64);
        s.append(";acl_in_ep=");
        push_decimal(&mut s, self.endpoints.acl_in_endpoint as u64);
        s.append(";acl_out_ep=");
        push_decimal(&mut s, self.endpoints.acl_out_endpoint as u64);
        proof {
            assert(s@ =~= detail_line_spec(self, index as nat));
        }
        s
    }
}

/// The transport daemon's configuration: the adapters, the controller
/// family it reports, where its status file lives, and what the
/// controller said at bring-up.
#[derive(Clone, Debug, PartialEq, Eq)]
pub struct TransportConfig {
    pub adapters: Vec<UsbBluetoothAdapter>,
    pub controller_family: String,
    pub status_file: String,
    pub controller_info: ControllerInfo,
}

/// The adapters' names.
pub open spec fn adapter_names_spec(adapters: Seq<UsbBluetoothAdapter>) -> Seq<Seq<char>> {
    adapters.map_values(|a: UsbBluetoothAdapter| a.name@)
}

/// The strings' views.
pub open spec fn string_views(v: Seq<String>) -> Seq<Seq<char>> {
    v.map_values(|s: String| s@)
}

/// The probe report: the adapters' names, the transport's fixed facts, the
/// controller family, the number of adapters, then each adapter's line.
pub open spec fn probe_lines_spec(c: &TransportConfig) -> Seq<Seq<char>> {
    seq![
        "adapters="@ + joined(adapter_names_spec(c.adapters@), ","@),
        "transport=usb"@,
        "startup=explicit"@,
        "mode=ble-first"@,
        "controller_family="@ + c.controller_family@,
        "adapter_count="@ + decimal(c.adapters@.len()),
    ] + Seq::new(c.adapters@.len(), |i: int| detail_line_spec(&c.adapters@[i], i as nat))
}

/// The text of a controller state.
pub open spec fn state_text(s: ControllerState) -> Seq<char> {
    match s {
        ControllerState::Closed => "closed"@,
        ControllerState::Initializing => "initializing"@,
        ControllerState::Active => "active"@,
        ControllerState::Error => "error"@,
    }
}

/// A controller address in its usual notation, most significant byte
/// first (the address is stored least significant byte first).
pub open spec fn bd_addr_text(a: Seq<u8>) -> Seq<char> {
    hex2(a[5]) + ":"@ + hex2(a[4]) + ":"@ + hex2(a[3]) + ":"@ + hex2(a[2]) + ":"@ + hex2(a[1])
        + ":"@ + hex2(a[0])
}

/// The controller's lines of the status report: its state, then what it
/// reported, then the bring-up error, each where there is one.
pub open spec fn controller_lines_spec(info: &ControllerInfo) -> Seq<Seq<char>> {
    seq!["controller_state="@ + state_text(info.state)] + match info.bd_address {
        Some(a) => seq!["bd_address="@ + bd_addr_text(a@)],
        None => Seq::empty(),
    } + match info.hci_version {
        Some(v) => seq!["hci_version="@ + decimal(v as nat)],
        None => Seq::empty(),
    } + match info.hci_revision {
        Some(v) => seq!["hci_revision="@ + decimal(v as nat)],
        None => Seq::empty(),
    } + match info.manufacturer_name {
        Some(v) => seq!["manufacturer="@ + decimal(v as nat)],
        None => Seq::empty(),
    } + match info.init_error {
        Some(e) => seq!["init_error="@ + e@],
        None => Seq::empty(),
    }
}

/// The status report at time `now` (seconds since the epoch).
pub open spec fn status_lines_spec(c: &TransportConfig, runtime_visible: bool, now: u64) -> Seq<
    Seq<char>,
> {
    probe_lines_spec(c) + seq![
        "updated_at_epoch="@ + decimal(now as nat),
        "runtime_visibility="@ + if runtime_visible {
            "runtime-visible"@
        } else {
            "installed-only"@
        },
        "daemon_status="@ + if runtime_visible {
            "running"@
        } else {
            "inactive"@
        },
        "status_file="@ + c.status_file@,
    ] + controller_lines_spec(&c.controller_info)
}

/// Pushes a line, keeping track of the lines' views.
fn push_line(lines: &mut Vec<String>, line: String)
    ensures
        string_views(final(lines)@) == string_views(old(lines)@).push(line@),
{
    proof {
        assert(string_views(lines@.push(line)) =~= string_views(lines@).push(line@));
    }
    lines.push(line);
}

fn join_names(adapters: &Vec<UsbBluetoothAdapter>) -> (r: String)
    ensures
        r@ == joined(adapter_names_spec(adapters@), ","@),
{
    let mut s = String::new();
    let mut i: usize = 0;
    while i < adapters.len()
        invariant
            i <= adapters@.len(),
            s@ == joined(adapter_names_spec(adapters@.subrange(0, i as int)), ","@),
        decreases adapters@.len() - i,
    {
        proof {
            assert(adapter_names_spec(adapters@.subrange(0, i + 1)) =~= adapter_names_spec(
                adapters@.subrange(0, i as int),
            ).push(adapters@[i as int].name@));
            lemma_joined_push(adapter_names_spec(adapters@.subrange(0, i as int)), ","@, adapters@[i as int].name@);
        }
        if i > 0 {
            s.append(",");
        }
        s.append(adapters[i].name.as_str());
        i = i + 1;
    }
    proof {
        assert(adapters@.subrange(0, adapters@.len() as int) =~= adapters@);
    }
    s
}

fn bd_addr_string(a: &[u8; 6]) -> (r: String)
    ensures
        r@ == bd_addr_text(a@),
{
    let mut s = String::new();
    push_hex2(&mut s, a[5]);
    s.append(":");
    push_hex2(&mut s, a[4]);
    s.append(":");
    push_hex2(&mut s, a[3]);
    s.append(":");
    push_hex2(&mut s, a[2]);
    s.append(":");
    push_hex2(&mut s, a[1]);
    s.append(":");
    push_hex2(&mut s, a[0]);
    proof {
        assert(s@ =~= bd_addr_text(a@));
    }
    s
}

/// Appends the controller's lines of the status report.
pub fn push_controller_lines(lines: &mut Vec<String>, info: &ControllerInfo)
    ensures
        string_views(final(lines)@) == string_views(old(lines)@) + controller_lines_spec(info),
{
    let ghost start = string_views(lines@);
    let state = match info.state {
        ControllerState::Closed => "closed",
        ControllerState::Initializing => "initializing",
        ControllerState::Active => "active",
        ControllerState::Error => "error",
    };
    let mut first = String::from_str("controller_state=");
    first.append(state);
    push_line(lines, first);
    if let Some(addr) = &info.bd_address {
        let mut l = String::from_str("bd_address=");
        l.append(bd_addr_string(addr).as_str());
        push_line(lines, l);
    }
    if let Some(version) = info.hci_version {
        push_line(lines, numbered("hci_version=", version as u64, ""));
    }
    if let Some(revision) = info.hci_revision {
        push_line(lines, numbered("hci_revision=", revision as u64, ""));
    }
    if let Some(manufacturer) = info.manufacturer_name {
        push_line(lines, numbered("manufacturer=", manufacturer as u64, ""));
    }
    if let Some(err) = &info.init_error {
        let mut l = String::from_str("init_error=");
        l.append(err.as_str());
        push_line(lines, l);
    }
    proof {
        reveal_strlit("");
        assert(string_views(lines@) =~= start + controller_lines_spec(info));
    }
}

impl TransportConfig {
    pub fn adapter_names(&self) -> (r: Vec<String>)
        ensures
            string_views(r@) == adapter_names_spec(self.adapters@),
    {
        let mut names: Vec<String> = Vec::new();
        let mut i: usize = 0;
        while i < self.adapters.len()
            invariant
                i <= self.adapters@.len(),
                string_views(names@) == adapter_names_spec(self.adapters@.subrange(0, i as int)),
            decreases self.adapters@.len() - i,
        {
            proof {
                assert(adapter_names_spec(self.adapters@.subrange(0, i + 1)) =~= adapter_names_spec(
                    self.adapters@.subrange(0, i as int),
                ).push(self.adapters@[i as int].name@));
            }
            push_line(&mut names, self.adapters[i].name.clone());
            i = i + 1;
        }
        proof {
            assert(self.adapters@.subrange(0, self.adapters@.len() as int) =~= self.adapters@);
        }
        names
    }

    /// The probe report.
    pub fn probe_lines(&self) -> (r: Vec<String>)
        ensures
            string_views(r@) == probe_lines_spec(self),
    {
        let mut lines: Vec<String> = Vec::new();
        let mut first = String::from_str("adapters=");
        first.append(join_names(&self.adapters).as_str());
        push_line(&mut lines, first);
        push_line(&mut lines, String::from_str("transport=usb"));
        push_line(&mut lines, String::from_str("startup=explicit"));
        push_line(&mut lines, String::from_str("mode=ble-first"));
        let mut family = String::from_str("controller_family=");
        family.append(self.controller_family.as_str());
        push_line(&mut lines, family);
        push_line(&mut lines, numbered("adapter_count=", self.adapters.len() as u64, ""));
        let ghost head = string_views(lines@);
        proof {
            reveal_strlit("");
        }
        let mut i: usize = 0;
        while i < self.adapters.len()
            invariant
                i <= self.adapters@.len(),
                string_views(lines@) == head + Seq::new(
                    i as nat,
                    |k: int| detail_line_spec(&self.adapters@[k], k as nat),
                ),
            decreases self.adapters@.len() - i,
        {
            let line = self.adapters[i].detail_line(i);
            push_line(&mut lines, line);
            proof {
                assert(Seq::new((i + 1) as nat, |k: int| detail_line_spec(&self.adapters@[k], k as nat))
                    =~= Seq::new(i as nat, |k: int| detail_line_spec(&self.adapters@[k], k as nat)).push(
                    detail_line_spec(&self.adapters@[i as int], i as nat),
                ));
            }
            i = i + 1;
        }
        proof {
            assert(string_views(lines@) =~= probe_lines_spec(self));
        }
        lines
    }

    /// The status report at time `now`.
    pub fn render_status_lines_at(&self, runtime_visible: bool, now: u64) -> (r: Vec<String>)
        ensures
            string_views(r@) == status_lines_spec(self, runtime_visible, now),
    {
        let mut lines = self.probe_lines();
        let ghost head = string_views(lines@);
        proof {
            reveal_strlit("");
        }
        push_line(&mut lines, numbered("updated_at_epoch=", now, ""));
        let mut vis = String::from_str("runtime_visibility=");
        vis.append(
            if runtime_visible {
                "runtime-visible"
            } else {
                "installed-only"
            },
        );
        push_line(&mut lines, vis);
        let mut daemon = String::from_str("daemon_status=");
        daemon.append(
            if runtime_visible {
                "running"
            } else {
                "inactive"
            },
        );
        push_line(&mut lines, daemon);
        let mut file = String::from_str("status_file=");
        file.append(self.status_file.as_str());
        push_line(&mut lines, file);
        let ghost mid = string_views(lines@);
        push_controller_lines(&mut lines, &self.controller_info);
        proof {
            assert(string_views(lines@) =~= status_lines_spec(self, runtime_visible, now));
        }
        lines
    }

    /// The status report now.
    pub fn render_status_lines(&self, runtime_visible: bool) -> (r: Vec<String>)
        ensures
            exists|now: u64| string_views(r@) == status_lines_spec(self, runtime_visible, now),
    {
        let now = current_epoch_seconds();
        self.render_status_lines_at(runtime_visible, now)
    }
}

/// `SystemTime::now` as whole seconds since the Unix epoch (0 for a clock
/// set before the epoch). What comes back depends on the clock, so nothing
/// is stated of it.
#[verifier::external_body]
fn current_epoch_seconds() -> u64 {
    std::time::SystemTime::now().duration_since(std::time::UNIX_EPOCH).unwrap_or_default().as_secs()
}

/// A file's text: each line followed by a newline; a lone newline for no
/// lines.
pub open spec fn format_lines_spec(lines: Seq<Seq<char>>) -> Seq<char> {
    if lines.len() == 0 {
        "\n"@
    } else {
        lines_text(lines)
    }
}

pub fn format_lines(lines: &[String]) -> (r: String)
    ensures
        r@ == format_lines_spec(string_views(lines@)),
{
    if lines.len() == 0 {
        return String::from_str("\n");
    }
    let mut s = String::new();
    proof {
        reveal_strlit("\n");
    }
    let mut i: usize = 0;
    while i < lines.len()
        invariant
            i <= lines@.len(),
            "\n"@ == seq!['\n'],
            s@ == lines_text(string_views(lines@.subrange(0, i as int))),
        decreases lines@.len() - i,
    {
        proof {
            let done = string_views(lines@.subrange(0, i as int));
            let more = string_views(lines@.subrange(0, i + 1));
            assert(more =~= done.push(lines@[i as int]@));
            assert(more.drop_last() =~= done);
        }
        s.append(lines[i].as_str());
        s.append("\n");
        i = i + 1;
    }
    proof {
        assert(lines@.subrange(0, lines@.len() as int) =~= lines@);
    }
    s
}

/// The time a status report records: the first line holding
/// `updated_at_epoch=` and a decimal number.
pub open spec fn recorded_time(lines: Seq<Seq<char>>) -> Option<u64>
    decreases lines.len(),
{
    if lines.len() == 0 {
        None
    } else {
        match epoch_of(lines[0]) {
            Some(t) => Some(t),
            None => recorded_time(lines.drop_first()),
        }
    }
}

/// The number a line `updated_at_epoch=N` records.
pub open spec fn epoch_of(line: Seq<char>) -> Option<u64> {
    let prefix = "updated_at_epoch="@;
    if line.len() >= prefix.len() && line.subrange(0, prefix.len() as int) == prefix {
        match spec_parse_unsigned(
            encode_utf8(line.subrange(prefix.len() as int, line.len() as int)),
            10,
            u64::MAX as int,
        ) {
            Some(v) => Some(v as u64),
            None => None,
        }
    } else {
        None
    }
}

/// A status report is fresh at `now` when it records a time no more than
/// `STATUS_FRESHNESS_SECS` before `now` (or after it).
pub open spec fn fresh_at(lines: Seq<Seq<char>>, now: u64) -> bool {
    match recorded_time(lines) {
        Some(t) => (if now >= t {
            now - t
        } else {
            0
        }) <= STATUS_FRESHNESS_SECS,
        None => false,
    }
}

/// The time a line `updated_at_epoch=N` records, if it is one.
fn line_epoch(line: &String) -> (r: Option<u64>)
    ensures
        r == epoch_of(line@),
{
    let prefix = "updated_at_epoch=";
    proof {
        reveal_strlit("updated_at_epoch=");
    }
    let text = line.as_str();
    let n = text.unicode_len();
    let plen = prefix.unicode_len();
    if n < plen {
        return None;
    }
    let mut k: usize = 0;
    while k < plen
        invariant
            prefix@ == "updated_at_epoch="@,
            plen == prefix@.len(),
            n == text@.len(),
            text@ == line@,
            plen <= n,
            k <= plen,
            forall|j: int| 0 <= j < k ==> text@[j] == prefix@[j],
        decreases plen - k,
    {
        if text.get_char(k) != prefix.get_char(k) {
            proof {
                assert(prefix@ == "updated_at_epoch="@);
                assert(line@.subrange(0, prefix@.len() as int)[k as int] != prefix@[k as int]);
                assert(line@.subrange(0, prefix@.len() as int) != prefix@);
            }
            return None;
        }
        k = k + 1;
    }
    proof {
        assert(text@.subrange(0, prefix@.len() as int) =~= prefix@);
    }
    let rest = text.substring_char(plen, n);
    let digits = rest.as_bytes();
    parse_unsigned(digits, 10, 0xFFFF_FFFF_FFFF_FFFF)
}

/// Whether a status report was written no more than
/// `STATUS_FRESHNESS_SECS` before `now`.
pub fn status_lines_fresh_at(lines: &[String], now: u64) -> (r: bool)
    ensures
        r == fresh_at(string_views(lines@), now),
{
    let mut i: usize = 0;
    proof {
        assert(lines@.subrange(0, lines@.len() as int) =~= lines@);
    }
    while i < lines.len()
        invariant
            i <= lines@.len(),
            recorded_time(string_views(lines@)) == recorded_time(
                string_views(lines@.subrange(i as int, lines@.len() as int)),
            ),
        decreases lines@.len() - i,
    {
        let ghost rest = string_views(lines@.subrange(i as int, lines@.len() as int));
        proof {
            assert(rest[0] == lines@[i as int]@);
            assert(rest.drop_first() =~= string_views(lines@.subrange(i + 1, lines@.len() as int)));
        }
        match line_epoch(&lines[i]) {
            Some(t) => {
                let age = now.saturating_sub(t);
                return age <= STATUS_FRESHNESS_SECS;
            },
            None => {},
        }
        i = i + 1;
    }
    proof {
        assert(string_views(lines@.subrange(i as int, lines@.len() as int)).len() == 0);
    }
    false
}

/// Whether a status report is fresh now.
pub fn status_lines_are_fresh(lines: &[String]) -> (r: bool)
    ensures
        exists|now: u64| r == fresh_at(string_views(lines@), now),
{
    let now = current_epoch_seconds();
    status_lines_fresh_at(lines, now)
}

} // verus!
