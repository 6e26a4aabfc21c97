//! The `hciN` scheme's logic: the nodes a client can open, what reading and
//! writing each node does with the controller, and the text forms of the
//! controller state.

use vstd::prelude::*;
use vstd::string::StringSliceAdditionalSpecFns;
use vstd::utf8::{encode_utf8, decode_utf8, valid_utf8};
use crate::bytes::{append_bytes, copy_range};
use vstd::string::{StrSliceExecFns, StringExecFns};
use crate::bytes::{le16, u16_from_le};
use crate::btusb::{
    bd_addr_text, format_lines, format_lines_spec, push_controller_lines, state_text,
    string_views, ControllerInfo, ControllerState,
};
use crate::fat_args::opt_text;
use crate::hci::acl_wire;
use crate::bytes::le16_bytes;
use crate::hci::{
    l2cap_att_payload, le_create_connection_params, ATT_READ_BY_GROUP_TYPE_REQ,
    ATT_READ_BY_TYPE_REQ, ATT_READ_REQ, OP_DISCONNECT, OP_LE_CREATE_CONNECTION,
    OP_LE_SET_SCAN_ENABLE, UUID_PRIMARY_SERVICE,
};
use crate::hci::{att_to_acl, cmd_disconnect, cmd_le_create_connection, cmd_le_set_scan_enable, AttPdu, UUID_CHARACTERISTIC};
use crate::hci::{
    acl_to_att, chars_error, chars_parsed, is_att_error, param_len_byte, parse_att_error,
    parse_read_by_group_type_rsp, parse_read_by_type_rsp, parse_read_rsp, services_error,
    services_parsed, spec_acl_parse, spec_command_parse, unexpected_opcode_text, GattCharacteristic,
    GattService, HciAcl, HciCommand, HciEvent, ATT_ERROR_RSP, ATT_READ_RSP, L2CAP_ATT_CID,
};
use crate::scheme_handles::{HandleKind, HandleTable, SCHEME_ROOT_ID};
use crate::text::{decimal, hex2, hex4, numbered, push_hex2, push_hex4, text_bytes};
use crate::usb_transport::UsbHciTransport;
use crate::textparse::{
    has_prefix, parse_unsigned, spec_parse_unsigned, lemma_parse_unsigned_range, split_from, split_on, split_ranges,
    starts_with, str_range, trim_whitespace, trimmed,
};

verus! {

/// The bytes of the text once leading and trailing white space is removed.
pub open spec fn trimmed_bytes(text: Seq<char>) -> Seq<u8> {
    encode_utf8(trimmed(text))
}

pub open spec fn addr_prefix() -> Seq<u8> {
    seq![0x61u8, 0x64, 0x64, 0x72, 0x3D]
}

pub open spec fn handle_prefix() -> Seq<u8> {
    seq![0x68u8, 0x61, 0x6E, 0x64, 0x6C, 0x65, 0x3D]
}

pub open spec fn hex_prefix() -> Seq<u8> {
    seq![0x30u8, 0x78]
}

/// The address that `addr=XX:XX:XX:XX:XX:XX` text names: exactly six
/// colon-separated parts, each a hexadecimal byte.
pub open spec fn spec_parse_addr(b: Seq<u8>) -> Option<Seq<u8>> {
    if !has_prefix(b, addr_prefix()) {
        None
    } else {
        let parts = split_on(b.subrange(5, b.len() as int), 0x3A);
        if parts.len() == 6 && forall|k: int|
            0 <= k < 6 ==> #[trigger] spec_parse_unsigned(parts[k], 16, 255) is Some {
            Some(Seq::new(6, |k: int| spec_parse_unsigned(parts[k], 16, 255)->0 as u8))
        } else {
            None
        }
    }
}

/// The handle that `handle=XXXX` or `handle=0xXXXX` text names, in hexadecimal.
pub open spec fn spec_parse_handle(b: Seq<u8>) -> Option<u16> {
    if !has_prefix(b, handle_prefix()) {
        None
    } else {
        let v = b.subrange(7, b.len() as int);
        let h = if has_prefix(v, hex_prefix()) {
            v.subrange(2, v.len() as int)
        } else {
            v
        };
        match spec_parse_unsigned(h, 16, 0xFFFF) {
            Some(x) => Some(x as u16),
            None => None,
        }
    }
}

fn hex_field(b: &[u8], start: usize, end: usize, max: u64) -> (r: Option<u64>)
    requires
        start <= end <= b@.len(),
        max == 255 || max == 0xFFFF,
    ensures
        match spec_parse_unsigned(b@.subrange(start as int, end as int), 16, max as int) {
            Some(v) => r == Some(v as u64) && 0 <= v <= max,
            None => r is None,
        },
{
    let part = vstd::slice::slice_subrange(b, start, end);
    proof {
        lemma_parse_unsigned_range(part@, 16, max as int);
    }
    parse_unsigned(part, 16, max)
}

/// The event's bytes as the events node hands them out: code, parameter
/// length and parameters.
pub fn event_to_bytes(event: &HciEvent) -> (r: Vec<u8>)
    ensures
        r@ == seq![event.event_code, param_len_byte(event.parameters@.len())] + event.parameters@,
{
    let param_len: u8 = if event.parameters.len() <= 255 {
        event.parameters.len() as u8
    } else {
        0xFF
    };
    let mut buf: Vec<u8> = Vec::with_capacity(2);
    buf.push(event.event_code);
    buf.push(param_len);
    append_bytes(&mut buf, event.parameters.as_slice());
    buf
}

/// Reads `addr=XX:XX:XX:XX:XX:XX` (after trimming white space).
fn read_addr(text: &str) -> (r: Option<[u8; 6]>)
    ensures
        match spec_parse_addr(trimmed_bytes(text@)) {
            Some(a) => r matches Some(x) && x@ == a,
            None => r is None,
        },
{
    let t = trim_whitespace(text);
    let b = t.as_bytes();
    let prefix: [u8; 5] = [0x61, 0x64, 0x64, 0x72, 0x3D];
    if !starts_with(b, prefix.as_slice()) {
        assert(prefix@ == addr_prefix());
        return None;
    }
    assert(prefix@ == addr_prefix());
    let rest = vstd::slice::slice_subrange(b, 5, b.len());
    let parts = split_ranges(rest, 0x3A);
    let ghost sp = split_on(rest@, 0x3A);
    if parts.len() != 6 {
        return None;
    }
    let v0 = hex_field(rest, parts[0].0, parts[0].1, 255);
    let v1 = hex_field(rest, parts[1].0, parts[1].1, 255);
    let v2 = hex_field(rest, parts[2].0, parts[2].1, 255);
    let v3 = hex_field(rest, parts[3].0, parts[3].1, 255);
    let v4 = hex_field(rest, parts[4].0, parts[4].1, 255);
    let v5 = hex_field(rest, parts[5].0, parts[5].1, 255);
    proof {
        assert(sp[0] == rest@.subrange(parts@[0].0 as int, parts@[0].1 as int));
        assert(sp[1] == rest@.subrange(parts@[1].0 as int, parts@[1].1 as int));
        assert(sp[2] == rest@.subrange(parts@[2].0 as int, parts@[2].1 as int));
        assert(sp[3] == rest@.subrange(parts@[3].0 as int, parts@[3].1 as int));
        assert(sp[4] == rest@.subrange(parts@[4].0 as int, parts@[4].1 as int));
        assert(sp[5] == rest@.subrange(parts@[5].0 as int, parts@[5].1 as int));
    }
    match (v0, v1, v2, v3, v4, v5) {
        (Some(a0), Some(a1), Some(a2), Some(a3), Some(a4), Some(a5)) => {
            let addr: [u8; 6] = [a0 as u8, a1 as u8, a2 as u8, a3 as u8, a4 as u8, a5 as u8];
            proof {
                let want = Seq::new(
                    6,
                    |k: int| spec_parse_unsigned(sp[k], 16, 255)->0 as u8,
                );
                assert(addr@ =~= want);
            }
            Some(addr)
        },
        _ => {
            proof {
                if v0 is None {
                    assert(spec_parse_unsigned(sp[0], 16, 255) is None);
                } else if v1 is None {
                    assert(spec_parse_unsigned(sp[1], 16, 255) is None);
                } else if v2 is None {
                    assert(spec_parse_unsigned(sp[2], 16, 255) is None);
                } else if v3 is None {
                    assert(spec_parse_unsigned(sp[3], 16, 255) is None);
                } else if v4 is None {
                    assert(spec_parse_unsigned(sp[4], 16, 255) is None);
                } else {
                    assert(spec_parse_unsigned(sp[5], 16, 255) is None);
                }
            }
            None
        },
    }
}

/// Reads `handle=XXXX` or `handle=0xXXXX` (after trimming white space).
fn read_handle_text(text: &str) -> (r: Option<u16>)
    ensures
        r == spec_parse_handle(trimmed_bytes(text@)),
{
    let t = trim_whitespace(text);
    let b = t.as_bytes();
    let prefix: [u8; 7] = [0x68, 0x61, 0x6E, 0x64, 0x6C, 0x65, 0x3D];
    assert(prefix@ == handle_prefix());
    if !starts_with(b, prefix.as_slice()) {
        return None;
    }
    let v = vstd::slice::slice_subrange(b, 7, b.len());
    let hx: [u8; 2] = [0x30, 0x78];
    assert(hx@ == hex_prefix());
    let start: usize = if starts_with(v, hx.as_slice()) {
        2
    } else {
        0
    };
    assert(v@.subrange(0, v@.len() as int) =~= v@);
    match hex_field(v, start, v.len(), 0xFFFF) {
        Some(x) => Some(x as u16),
        None => None,
    }
}

// ---- The scheme ----

/// Why a scheme request failed.
#[derive(Clone, Copy, Debug, PartialEq, Eq, Structural)]
pub enum SchemeError {
    /// The handle number names nothing.
    BadDescriptor,
    /// The request or what the transport answered cannot be used.
    Invalid,
    /// No node has that name.
    NotFound,
    /// The node cannot be written.
    ReadOnly,
    /// The handle is no directory to open a path from.
    AccessDenied,
}

/// The `hciN` scheme: a controller behind a transport, what it has
/// reported, and the open handles.
pub struct HciScheme {
    pub transport: Box<dyn UsbHciTransport>,
    pub controller_info: ControllerInfo,
    pub le_scan_active: bool,
    pub le_scan_results: Vec<String>,
    pub le_connections: Vec<(u16, [u8; 6])>,
    pub gatt_services: Vec<GattService>,
    pub gatt_characteristics: Vec<GattCharacteristic>,
    pub gatt_read_result: Option<Vec<u8>>,
    pub gatt_last_error: Option<String>,
    pub handles: HandleTable,
    pub handed: Ghost<Seq<SentPacket>>,
}

/// A packet the scheme handed to the transport, by contents.
pub enum SentPacket {
    /// A command: opcode and parameters.
    Command { opcode: u16, parameters: Seq<u8> },
    /// An ACL packet: handle, packet-boundary and broadcast flags, data.
    Acl { handle: u16, pb: u8, bc: u8, data: Seq<u8> },
}

/// A command as the record keeps it.
pub open spec fn sent_command(c: HciCommand) -> SentPacket {
    SentPacket::Command { opcode: c.opcode, parameters: c.parameters@ }
}

/// An ACL packet as the record keeps it.
pub open spec fn sent_acl(a: HciAcl) -> SentPacket {
    SentPacket::Acl { handle: a.handle, pb: a.pb_flag, bc: a.bc_flag, data: a.data@ }
}

/// `true` or `false`.
pub open spec fn bool_text(b: bool) -> Seq<char> {
    if b {
        "true"@
    } else {
        "false"@
    }
}

/// The controller's state and what it reported, each where there is one.
pub open spec fn status_head(info: &ControllerInfo) -> Seq<Seq<char>> {
    seq!["controller_state="@ + state_text(info.state)] + match info.bd_address {
        Some(a) => seq!["bd_address="@ + bd_addr_text(a@)],
        None => Seq::empty(),
    } + match info.hci_version {
        Some(v) => seq!["hci_version="@ + decimal(v as nat)],
        None => Seq::empty(),
    } + match info.hci_revision {
        Some(v) => seq!["hci_revision="@ + decimal(v as nat)],
        None => Seq::empty(),
    } + match info.manufacturer_name {
        Some(v) => seq!["manufacturer="@ + decimal(v as nat)],
        None => Seq::empty(),
    }
}

/// The lines of the status node: the controller's state and what it
/// reported, whether a scan runs, the number of connections, then the
/// bring-up error if there was one.
pub open spec fn scheme_status_lines(
    info: &ControllerInfo,
    scan_active: bool,
    connections: nat,
) -> Seq<Seq<char>> {
    status_head(info) + seq![
        "le_scan_active="@ + bool_text(scan_active),
        "le_connections="@ + decimal(connections),
    ] + match info.init_error {
        Some(e) => seq!["init_error="@ + e@],
        None => Seq::empty(),
    }
}

fn push_status_head(lines: &mut Vec<String>, info: &ControllerInfo)
    ensures
        string_views(final(lines)@) == string_views(old(lines)@) + status_head(info),
{
    let ghost start = string_views(lines@);
    let state = match info.state {
        ControllerState::Closed => "closed",
        ControllerState::Initializing => "initializing",
        ControllerState::Active => "active",
        ControllerState::Error => "error",
    };
    let mut first = String::from_str("controller_state=");
    first.append(state);
    push_view(lines, first);
    if let Some(addr) = &info.bd_address {
        let mut l = String::from_str("bd_address=");
        push_bd_addr(&mut l, addr);
        push_view(lines, l);
    }
    proof {
        reveal_strlit("");
    }
    if let Some(version) = info.hci_version {
        push_view(lines, numbered("hci_version=", version as u64, ""));
    }
    if let Some(revision) = info.hci_revision {
        push_view(lines, numbered("hci_revision=", revision as u64, ""));
    }
    if let Some(manufacturer) = info.manufacturer_name {
        push_view(lines, numbered("manufacturer=", manufacturer as u64, ""));
    }
    proof {
        assert(string_views(lines@) =~= start + status_head(info));
    }
}

/// The lines of the info node: address (zeros when unknown), version,
/// revision and manufacturer (0 when unknown).
pub open spec fn scheme_info_lines(info: &ControllerInfo) -> Seq<Seq<char>> {
    seq![
        "bd_address="@ + match info.bd_address {
            Some(a) => bd_addr_text(a@),
            None => "00:00:00:00:00:00"@,
        },
        "hci_version="@ + decimal(
            match info.hci_version {
                Some(v) => v as nat,
                None => 0,
            },
        ),
        "hci_revision="@ + decimal(
            match info.hci_revision {
                Some(v) => v as nat,
                None => 0,
            },
        ),
        "manufacturer="@ + decimal(
            match info.manufacturer_name {
                Some(v) => v as nat,
                None => 0,
            },
        ),
    ]
}

/// A connection's line: its handle and the peer's address.
pub open spec fn connection_line(c: (u16, [u8; 6])) -> Seq<char> {
    "handle="@ + hex4(c.0) + ";addr="@ + bd_addr_text(c.1@)
}

/// A UUID as text: a 16-bit one as four hexadecimal digits, any other as
/// its bytes from last to first.
pub open spec fn uuid_text(u: Seq<u8>) -> Seq<char> {
    if u.len() == 2 {
        hex4(le16(u[0], u[1]))
    } else {
        reversed_hex(u)
    }
}

/// Two hexadecimal digits a byte, from the last byte to the first.
pub open spec fn reversed_hex(u: Seq<u8>) -> Seq<char>
    decreases u.len(),
{
    if u.len() == 0 {
        Seq::empty()
    } else {
        hex2(u.last()) + reversed_hex(u.drop_last())
    }
}

pub open spec fn service_line(svc: GattService) -> Seq<char> {
    "service=start_handle="@ + hex4(svc.start_handle) + ";end_handle="@ + hex4(svc.end_handle)
        + ";uuid="@ + uuid_text(svc.uuid@)
}

pub open spec fn characteristic_line(ch: GattCharacteristic) -> Seq<char> {
    "char=handle="@ + hex4(ch.handle) + ";value_handle="@ + hex4(ch.value_handle)
        + ";properties="@ + hex2(ch.properties) + ";uuid="@ + uuid_text(ch.uuid@)
}

/// Text of a list of lines: each followed by a newline, a lone newline for
/// none.
pub open spec fn listing(lines: Seq<Seq<char>>) -> Seq<char> {
    format_lines_spec(lines)
}

fn push_view(lines: &mut Vec<String>, line: String)
    ensures
        string_views(final(lines)@) == string_views(old(lines)@).push(line@),
{
    proof {
        assert(string_views(lines@.push(line)) =~= string_views(lines@).push(line@));
    }
    lines.push(line);
}

fn uuid_string(u: &Vec<u8>) -> (r: String)
    ensures
        r@ == uuid_text(u@),
{
    let mut s = String::new();
    if u.len() == 2 {
        push_hex4(&mut s, u16_from_le(u[0], u[1]));
        return s;
    }
    let mut i = u.len();
    proof {
        lemma_reversed_hex_len(u@);
        assert(reversed_hex(u@).subrange(0, 0) =~= Seq::<char>::empty());
    }
    while i > 0
        invariant
            i <= u@.len(),
            u@.len() != 2,
            s@ == reversed_hex(u@).subrange(0, 2 * (u@.len() - i)),
            reversed_hex(u@).len() == 2 * u@.len(),
        decreases i,
    {
        i = i - 1;
        push_hex2(&mut s, u[i]);
        proof {
            lemma_reversed_hex_prefix(u@, i as int);
        }
    }
    proof {
        assert(s@ =~= reversed_hex(u@));
    }
    s
}

proof fn lemma_reversed_hex_len(u: Seq<u8>)
    ensures
        reversed_hex(u).len() == 2 * u.len(),
    decreases u.len(),
{
    if u.len() > 0 {
        lemma_reversed_hex_len(u.drop_last());
    }
}

/// The digits of the bytes after position `i` (taken last to first) are
/// the first digits of the whole text.
proof fn lemma_reversed_hex_prefix(u: Seq<u8>, i: int)
    requires
        0 <= i < u.len(),
    ensures
        reversed_hex(u).subrange(0, 2 * (u.len() - i)) == reversed_hex(u).subrange(
            0,
            2 * (u.len() - i - 1),
        ) + hex2(u[i]),
    decreases u.len(),
{
    lemma_reversed_hex_len(u);
    let r = u.drop_last();
    lemma_reversed_hex_len(r);
    if i == u.len() - 1 {
        assert(reversed_hex(u).subrange(0, 2) =~= hex2(u[i]));
        assert(reversed_hex(u).subrange(0, 0) =~= Seq::<char>::empty());
    } else {
        lemma_reversed_hex_prefix(r, i);
        assert(r[i] == u[i]);
        assert(reversed_hex(u) == hex2(u.last()) + reversed_hex(r));
        assert(reversed_hex(u).subrange(0, 2 * (u.len() - i)) =~= hex2(u.last())
            + reversed_hex(r).subrange(0, 2 * (r.len() - i)));
        assert(reversed_hex(u).subrange(0, 2 * (u.len() - i - 1)) =~= hex2(u.last())
            + reversed_hex(r).subrange(0, 2 * (r.len() - i - 1)));
    }
}

fn lines_string(lines: &Vec<String>) -> (r: String)
    ensures
        r@ == listing(string_views(lines@)),
{
    format_lines(lines.as_slice())
}

impl HciScheme {
    pub fn new(transport: Box<dyn UsbHciTransport>, controller_info: ControllerInfo) -> (r: Self)
        ensures
            r.packets_handed() == Seq::<SentPacket>::empty(),
            r.controller_info == controller_info,
            !r.le_scan_active,
            r.le_scan_results@.len() == 0,
            r.le_connections@.len() == 0,
            r.gatt_services@.len() == 0,
            r.gatt_characteristics@.len() == 0,
            r.gatt_read_result is None,
            r.gatt_last_error is None,
            r.open_handles() == Map::<usize, HandleKind>::empty(),
            r.next_handle() == SCHEME_ROOT_ID + 1,
    {
        HciScheme {
            transport,
            controller_info,
            le_scan_active: false,
            le_scan_results: Vec::new(),
            le_connections: Vec::new(),
            gatt_services: Vec::new(),
            gatt_characteristics: Vec::new(),
            gatt_read_result: None,
            gatt_last_error: None,
            handles: HandleTable::new(),
            handed: Ghost(Seq::empty()),
        }
    }

    pub fn new_for_test(transport: Box<dyn UsbHciTransport>, controller_info: ControllerInfo) -> (r: Self)
        ensures
            r.packets_handed() == Seq::<SentPacket>::empty(),
            r.controller_info == controller_info,
            !r.le_scan_active,
            r.le_scan_results@.len() == 0,
            r.le_connections@.len() == 0,
            r.gatt_services@.len() == 0,
            r.gatt_characteristics@.len() == 0,
            r.gatt_read_result is None,
            r.gatt_last_error is None,
            r.open_handles() == Map::<usize, HandleKind>::empty(),
            r.next_handle() == SCHEME_ROOT_ID + 1,
    {
        Self::new(transport, controller_info)
    }

    /// Every packet the scheme has handed to the transport, oldest first,
    /// whether or not the transport took it.
    pub closed spec fn packets_handed(&self) -> Seq<SentPacket> {
        self.handed@
    }

    /// The open handles (the root's number aside).
    pub closed spec fn open_handles(&self) -> Map<usize, HandleKind> {
        self.handles.open_handles()
    }

    /// The number the next handle gets.
    pub closed spec fn next_handle(&self) -> usize {
        self.handles.next()
    }

    /// What a handle number names.
    pub open spec fn lookup(&self, id: usize) -> Option<HandleKind> {
        if id == SCHEME_ROOT_ID {
            Some(HandleKind::Root)
        } else if self.open_handles().contains_key(id) {
            Some(self.open_handles()[id])
        } else {
            None
        }
    }

    /// Whether another handle can be numbered.
    pub fn can_open(&self) -> (r: bool)
        ensures
            r == (self.next_handle() < usize::MAX),
    {
        self.handles.next_number() < usize::MAX
    }

    /// Opens a handle on a node.
    pub fn alloc_handle(&mut self, kind: HandleKind) -> (id: usize)
        requires
            old(self).next_handle() < usize::MAX,
        ensures
            id == old(self).next_handle(),
            id != SCHEME_ROOT_ID,
            !old(self).open_handles().contains_key(id),
            final(self).open_handles() == old(self).open_handles().insert(id, kind),
            final(self).next_handle() == id + 1,
            final(self).le_scan_active == old(self).le_scan_active,
    {
        self.handles.open_handle(kind)
    }

    /// The node a handle number names.
    pub fn handle(&self, id: usize) -> (r: Result<HandleKind, SchemeError>)
        ensures
            match self.lookup(id) {
                Some(k) => r == Ok::<HandleKind, SchemeError>(k),
                None => r == Err::<HandleKind, SchemeError>(SchemeError::BadDescriptor),
            },
    {
        match self.handles.get(id) {
            Some(k) => Ok(k),
            None => Err(SchemeError::BadDescriptor),
        }
    }

    /// Closes a handle; the root stays open.
    pub fn on_close(&mut self, id: usize)
        ensures
            final(self).open_handles() == if id == SCHEME_ROOT_ID {
                old(self).open_handles()
            } else {
                old(self).open_handles().remove(id)
            },
            final(self).next_handle() == old(self).next_handle(),
    {
        self.handles.remove(id);
    }

    pub fn format_status(&self) -> (r: String)
        ensures
            r@ == listing(
                scheme_status_lines(
                    &self.controller_info,
                    self.le_scan_active,
                    self.le_connections@.len(),
                ),
            ),
    {
        let mut lines: Vec<String> = Vec::new();
        push_status_head(&mut lines, &self.controller_info);
        let ghost head = string_views(lines@);
        proof {
            reveal_strlit("");
        }
        let mut scan = String::from_str("le_scan_active=");
        scan.append(
            if self.le_scan_active {
                "true"
            } else {
                "false"
            },
        );
        push_view(&mut lines, scan);
        push_view(&mut lines, numbered("le_connections=", self.le_connections.len() as u64, ""));
        let ghost mid = string_views(lines@);
        if let Some(err) = &self.controller_info.init_error {
            let mut l = String::from_str("init_error=");
            l.append(err.as_str());
            push_view(&mut lines, l);
        }
        proof {
            assert(mid =~= head + seq![
                "le_scan_active="@ + bool_text(self.le_scan_active),
                "le_connections="@ + decimal(self.le_connections@.len()),
            ]);
            assert(string_views(lines@) =~= scheme_status_lines(
                &self.controller_info,
                self.le_scan_active,
                self.le_connections@.len(),
            ));
        }
        lines_string(&lines)
    }

    pub fn format_info(&self) -> (r: String)
        ensures
            r@ == listing(scheme_info_lines(&self.controller_info)),
    {
        let info = &self.controller_info;
        let mut lines: Vec<String> = Vec::new();
        let mut addr = String::from_str("bd_address=");
        match &info.bd_address {
            Some(a) => push_bd_addr(&mut addr, a),
            None => addr.append("00:00:00:00:00:00"),
        }
        push_view(&mut lines, addr);
        proof {
            reveal_strlit("");
        }
        let version: u64 = match info.hci_version {
            Some(v) => v as u64,
            None => 0,
        };
        push_view(&mut lines, numbered("hci_version=", version, ""));
        let revision: u64 = match info.hci_revision {
            Some(v) => v as u64,
            None => 0,
        };
        push_view(&mut lines, numbered("hci_revision=", revision, ""));
        let manufacturer: u64 = match info.manufacturer_name {
            Some(v) => v as u64,
            None => 0,
        };
        push_view(&mut lines, numbered("manufacturer=", manufacturer, ""));
        proof {
            assert(string_views(lines@) =~= scheme_info_lines(&self.controller_info));
        }
        lines_string(&lines)
    }

    pub fn format_scan_results(&self) -> (r: String)
        ensures
            r@ == listing(string_views(self.le_scan_results@)),
    {
        lines_string(&self.le_scan_results)
    }

    pub fn format_connections(&self) -> (r: String)
        ensures
            r@ == listing(self.le_connections@.map_values(|c: (u16, [u8; 6])| connection_line(c))),
    {
        let mut lines: Vec<String> = Vec::new();
        let mut i: usize = 0;
        while i < self.le_connections.len()
            invariant
                i <= self.le_connections@.len(),
                string_views(lines@) == self.le_connections@.subrange(0, i as int).map_values(
                    |c: (u16, [u8; 6])| connection_line(c),
                ),
            decreases self.le_connections@.len() - i,
        {
            let (handle, addr) = self.le_connections[i];
            let mut l = String::from_str("handle=");
            push_hex4(&mut l, handle);
            l.append(";addr=");
            push_bd_addr(&mut l, &addr);
            proof {
                assert(l@ =~= connection_line(self.le_connections@[i as int]));
            }
            push_view(&mut lines, l);
            proof {
                assert(self.le_connections@.subrange(0, i + 1).map_values(
                    |c: (u16, [u8; 6])| connection_line(c),
                ) =~= self.le_connections@.subrange(0, i as int).map_values(
                    |c: (u16, [u8; 6])| connection_line(c),
                ).push(connection_line(self.le_connections@[i as int])));
            }
            i = i + 1;
        }
        proof {
            assert(self.le_connections@.subrange(0, self.le_connections@.len() as int)
                =~= self.le_connections@);
        }
        lines_string(&lines)
    }

    pub fn format_gatt_services(&self) -> (r: String)
        ensures
            r@ == listing(self.gatt_services@.map_values(|s: GattService| service_line(s))),
    {
        let mut lines: Vec<String> = Vec::new();
        let mut i: usize = 0;
        while i < self.gatt_services.len()
            invariant
                i <= self.gatt_services@.len(),
                string_views(lines@) == self.gatt_services@.subrange(0, i as int).map_values(
                    |s: GattService| service_line(s),
                ),
            decreases self.gatt_services@.len() - i,
        {
            let svc = &self.gatt_services[i];
            let mut l = String::from_str("service=start_handle=");
            push_hex4(&mut l, svc.start_handle);
            l.append(";end_handle=");
            push_hex4(&mut l, svc.end_handle);
            l.append(";uuid=");
            l.append(uuid_string(&svc.uuid).as_str());
            proof {
                assert(l@ =~= service_line(self.gatt_services@[i as int]));
            }
            push_view(&mut lines, l);
            proof {
                assert(self.gatt_services@.subrange(0, i + 1).map_values(
                    |s: GattService| service_line(s),
                ) =~= self.gatt_services@.subrange(0, i as int).map_values(
                    |s: GattService| service_line(s),
                ).push(service_line(self.gatt_services@[i as int])));
            }
            i = i + 1;
        }
        proof {
            assert(self.gatt_services@.subrange(0, self.gatt_services@.len() as int)
                =~= self.gatt_services@);
        }
        lines_string(&lines)
    }

    pub fn format_gatt_characteristics(&self) -> (r: String)
        ensures
            r@ == listing(
                self.gatt_characteristics@.map_values(|c: GattCharacteristic| characteristic_line(c)),
            ),
    {
        let mut lines: Vec<String> = Vec::new();
        let mut i: usize = 0;
        while i < self.gatt_characteristics.len()
            invariant
                i <= self.gatt_characteristics@.len(),
                string_views(lines@) == self.gatt_characteristics@.subrange(0, i as int).map_values(
                    |c: GattCharacteristic| characteristic_line(c),
                ),
            decreases self.gatt_characteristics@.len() - i,
        {
            let ch = &self.gatt_characteristics[i];
            let mut l = String::from_str("char=handle=");
            push_hex4(&mut l, ch.handle);
            l.append(";value_handle=");
            push_hex4(&mut l, ch.value_handle);
            l.append(";properties=");
            push_hex2(&mut l, ch.properties);
            l.append(";uuid=");
            l.append(uuid_string(&ch.uuid).as_str());
            proof {
                assert(l@ =~= characteristic_line(self.gatt_characteristics@[i as int]));
            }
            push_view(&mut lines, l);
            proof {
                assert(self.gatt_characteristics@.subrange(0, i + 1).map_values(
                    |c: GattCharacteristic| characteristic_line(c),
                ) =~= self.gatt_characteristics@.subrange(0, i as int).map_values(
                    |c: GattCharacteristic| characteristic_line(c),
                ).push(characteristic_line(self.gatt_characteristics@[i as int])));
            }
            i = i + 1;
        }
        proof {
            assert(self.gatt_characteristics@.subrange(0, self.gatt_characteristics@.len() as int)
                =~= self.gatt_characteristics@);
        }
        lines_string(&lines)
    }

    /// Reads `addr=XX:XX:XX:XX:XX:XX` (after trimming white space).
    pub fn parse_addr(text: &str) -> (r: Option<[u8; 6]>)
        ensures
            match spec_parse_addr(trimmed_bytes(text@)) {
                Some(a) => r matches Some(x) && x@ == a,
                None => r is None,
            },
    {
        read_addr(text)
    }

    /// Reads `handle=XXXX` or `handle=0xXXXX` (after trimming white space).
    pub fn parse_handle(text: &str) -> (r: Option<u16>)
        ensures
            r == spec_parse_handle(trimmed_bytes(text@)),
    {
        read_handle_text(text)
    }
}

/// Appends an address in its usual notation.
fn push_bd_addr(s: &mut String, a: &[u8; 6])
    ensures
        final(s)@ == old(s)@ + bd_addr_text(a@),
{
    push_hex2(s, a[5]);
    s.append(":");
    push_hex2(s, a[4]);
    s.append(":");
    push_hex2(s, a[3]);
    s.append(":");
    push_hex2(s, a[2]);
    s.append(":");
    push_hex2(s, a[1]);
    s.append(":");
    push_hex2(s, a[0]);
    proof {
        assert(final(s)@ =~= old(s)@ + bd_addr_text(a@));
    }
}

// ---- Key-value text of the GATT nodes ----

/// Where the `;`-separated part of `s` that starts at `i` ends.
pub open spec fn part_end(s: Seq<char>, i: int) -> int
    decreases s.len() - i,
{
    if i < 0 || i >= s.len() || s[i] == ';' {
        i
    } else {
        part_end(s, i + 1)
    }
}

pub proof fn lemma_part_end(s: Seq<char>, i: int)
    requires
        0 <= i <= s.len(),
    ensures
        i <= part_end(s, i) <= s.len(),
        part_end(s, i) < s.len() ==> s[part_end(s, i)] == ';',
    decreases s.len() - i,
{
    if i < s.len() && s[i] != ';' {
        lemma_part_end(s, i + 1);
    }
}

/// The value `key` has in the `;`-separated parts of `s` from position
/// `from` on: the rest of the first part that, trimmed of white space,
/// starts with the key, less one `=` right after the key.
pub open spec fn kv_from(s: Seq<char>, key: Seq<u8>, from: int) -> Option<Seq<u8>>
    decreases s.len() - from,
{
    if from < 0 || from > s.len() {
        None
    } else {
        let end = part_end(s, from);
        let t = encode_utf8(trimmed(s.subrange(from, end)));
        if has_prefix(t, key) {
            let v = t.subrange(key.len() as int, t.len() as int);
            Some(
                if v.len() > 0 && v[0] == 0x3D {
                    v.drop_first()
                } else {
                    v
                },
            )
        } else if end >= s.len() {
            None
        } else {
            proof {
                lemma_part_end(s, from);
            }
            kv_from(s, key, end + 1)
        }
    }
}

/// A 16-bit value written in hexadecimal, with or without `0x`.
pub open spec fn hex_u16(v: Seq<u8>) -> Option<u16> {
    let h = if has_prefix(v, hex_prefix()) {
        v.subrange(2, v.len() as int)
    } else {
        v
    };
    match spec_parse_unsigned(h, 16, 0xFFFF) {
        Some(x) => Some(x as u16),
        None => None,
    }
}

/// The hexadecimal value of `key` in GATT node text.
pub open spec fn gatt_value(text: Seq<char>, key: Seq<char>) -> Option<u16> {
    match kv_from(text, encode_utf8(key), 0) {
        Some(v) => hex_u16(v),
        None => None,
    }
}

impl HciScheme {
    /// The value of `key` in `key=value` parts separated by `;`.
    pub fn parse_gatt_kv(text: &str, key: &str) -> (r: Option<Vec<u8>>)
        ensures
            match kv_from(text@, encode_utf8(key@), 0) {
                Some(v) => r matches Some(x) && x@ == v,
                None => r is None,
            },
    {
        let n = text.unicode_len();
        let k = key.as_bytes();
        let mut from: usize = 0;
        loop
            invariant
                from <= n,
                n == text@.len(),
                k@ == encode_utf8(key@),
                kv_from(text@, k@, from as int) == kv_from(text@, k@, 0),
            decreases n - from,
        {
            let mut end = from;
            while end < n && text.get_char(end) != ';'
                invariant
                    from <= end <= n,
                    n == text@.len(),
                    part_end(text@, from as int) == part_end(text@, end as int),
                decreases n - end,
            {
                end = end + 1;
            }
            proof {
                lemma_part_end(text@, from as int);
            }
            let part = text.substring_char(from, end);
            let t = trim_whitespace(part);
            let b = t.as_bytes();
            if starts_with(b, k) {
                let v = vstd::slice::slice_subrange(b, k.len(), b.len());
                if v.len() > 0 && v[0] == 0x3D {
                    return Some(copy_range(v, 1, v.len()));
                }
                return Some(copy_range(v, 0, v.len()));
            }
            if end >= n {
                return None;
            }
            from = end + 1;
        }
    }

    fn gatt_hex(text: &str, key: &str) -> (r: Option<u16>)
        ensures
            r == gatt_value(text@, key@),
    {
        match Self::parse_gatt_kv(text, key) {
            Some(v) => {
                let hx: [u8; 2] = [0x30, 0x78];
                assert(hx@ == hex_prefix());
                let start: usize = if starts_with(v.as_slice(), hx.as_slice()) {
                    2
                } else {
                    0
                };
                assert(v@.subrange(0, v@.len() as int) =~= v@);
                match hex_field(v.as_slice(), start, v.len(), 0xFFFF) {
                    Some(x) => Some(x as u16),
                    None => None,
                }
            },
            None => None,
        }
    }

    pub fn parse_gatt_handle(text: &str) -> (r: Option<u16>)
        ensures
            r == gatt_value(text@, "handle"@),
    {
        Self::gatt_hex(text, "handle")
    }

    pub fn parse_gatt_start(text: &str) -> (r: Option<u16>)
        ensures
            r == gatt_value(text@, "start"@),
    {
        Self::gatt_hex(text, "start")
    }

    pub fn parse_gatt_end(text: &str) -> (r: Option<u16>)
        ensures
            r == gatt_value(text@, "end"@),
    {
        Self::gatt_hex(text, "end")
    }

    pub fn parse_gatt_addr(text: &str) -> (r: Option<u16>)
        ensures
            r == gatt_value(text@, "addr"@),
    {
        Self::gatt_hex(text, "addr")
    }
}

// ---- Writing nodes ----

/// `std::str::from_utf8`: the text that the bytes spell, where they are
/// valid UTF-8.
#[verifier::external_body]
pub(crate) fn utf8_text(bytes: &[u8]) -> (r: Option<&str>)
    ensures
        r is Some <==> valid_utf8(bytes@),
        r matches Some(t) ==> t@ == decode_utf8(bytes@),
{
    std::str::from_utf8(bytes).ok()
}

/// The text that bytes spell, where they are valid UTF-8.
pub open spec fn text_of(buf: Seq<u8>) -> Option<Seq<char>> {
    if valid_utf8(buf) {
        Some(decode_utf8(buf))
    } else {
        None
    }
}

/// What a write asks the scheme to do.
pub enum WriteAction {
    SendCommand(HciCommand),
    SendAcl(HciAcl),
    StartScan,
    StopScan,
    Connect([u8; 6]),
    Disconnect(u16),
    DiscoverServices(u16),
    DiscoverChars(u16, u16, u16),
    ReadChar(u16, u16),
}

/// What a write to a node asks, as values.
pub enum WritePlan {
    SendCommand { opcode: u16, parameters: Seq<u8> },
    SendAcl { handle: u16, pb: u8, bc: u8, data: Seq<u8> },
    StartScan,
    StopScan,
    Connect(Seq<u8>),
    Disconnect(u16),
    DiscoverServices(u16),
    DiscoverChars(u16, u16, u16),
    ReadChar(u16, u16),
    Refuse(SchemeError),
}

pub open spec fn action_plan(a: WriteAction) -> WritePlan {
    match a {
        WriteAction::SendCommand(c) => WritePlan::SendCommand {
            opcode: c.opcode,
            parameters: c.parameters@,
        },
        WriteAction::SendAcl(a) => WritePlan::SendAcl {
            handle: a.handle,
            pb: a.pb_flag,
            bc: a.bc_flag,
            data: a.data@,
        },
        WriteAction::StartScan => WritePlan::StartScan,
        WriteAction::StopScan => WritePlan::StopScan,
        WriteAction::Connect(a) => WritePlan::Connect(a@),
        WriteAction::Disconnect(h) => WritePlan::Disconnect(h),
        WriteAction::DiscoverServices(h) => WritePlan::DiscoverServices(h),
        WriteAction::DiscoverChars(h, s, e) => WritePlan::DiscoverChars(h, s, e),
        WriteAction::ReadChar(h, a) => WritePlan::ReadChar(h, a),
    }
}

/// What writing `buf` to a node asks: a command or ACL packet in wire
/// form to send, `start` or `stop` for the scan, an address to connect
/// to, a handle to disconnect, the handle (and range, or attribute) of a
/// GATT request; writes to other nodes are refused as read-only, and a
/// write the node cannot read as invalid.
pub open spec fn write_plan(kind: HandleKind, buf: Seq<u8>) -> WritePlan {
    match kind {
        HandleKind::Command => match spec_command_parse(buf) {
            Ok((op, p)) => WritePlan::SendCommand { opcode: op, parameters: p },
            Err(_) => WritePlan::Refuse(SchemeError::Invalid),
        },
        HandleKind::AclOut => match spec_acl_parse(buf) {
            Ok((h, pb, bc, d)) => WritePlan::SendAcl { handle: h, pb, bc, data: d },
            Err(_) => WritePlan::Refuse(SchemeError::Invalid),
        },
        HandleKind::LeScan => match text_of(buf) {
            Some(t) => if trimmed(t) == "start"@ {
                WritePlan::StartScan
            } else if trimmed(t) == "stop"@ {
                WritePlan::StopScan
            } else {
                WritePlan::Refuse(SchemeError::Invalid)
            },
            None => WritePlan::Refuse(SchemeError::Invalid),
        },
        HandleKind::Connect => match text_of(buf) {
            Some(t) => match spec_parse_addr(trimmed_bytes(t)) {
                Some(a) => WritePlan::Connect(a),
                None => WritePlan::Refuse(SchemeError::Invalid),
            },
            None => WritePlan::Refuse(SchemeError::Invalid),
        },
        HandleKind::Disconnect => match text_of(buf) {
            Some(t) => match spec_parse_handle(trimmed_bytes(t)) {
                Some(h) => WritePlan::Disconnect(h),
                None => WritePlan::Refuse(SchemeError::Invalid),
            },
            None => WritePlan::Refuse(SchemeError::Invalid),
        },
        HandleKind::GattDiscoverServices => match text_of(buf) {
            Some(t) => match spec_parse_handle(trimmed_bytes(t)) {
                Some(h) => WritePlan::DiscoverServices(h),
                None => WritePlan::Refuse(SchemeError::Invalid),
            },
            None => WritePlan::Refuse(SchemeError::Invalid),
        },
        HandleKind::GattDiscoverChars => match text_of(buf) {
            Some(t) => match (
                gatt_value(t, "handle"@),
                gatt_value(t, "start"@),
                gatt_value(t, "end"@),
            ) {
                (Some(h), Some(st), Some(en)) => WritePlan::DiscoverChars(h, st, en),
                _ => WritePlan::Refuse(SchemeError::Invalid),
            },
            None => WritePlan::Refuse(SchemeError::Invalid),
        },
        HandleKind::GattReadChar => match text_of(buf) {
            Some(t) => match (gatt_value(t, "handle"@), gatt_value(t, "addr"@)) {
                (Some(h), Some(a)) => WritePlan::ReadChar(h, a),
                _ => WritePlan::Refuse(SchemeError::Invalid),
            },
            None => WritePlan::Refuse(SchemeError::Invalid),
        },
        _ => WritePlan::Refuse(SchemeError::ReadOnly),
    }
}

/// An ATT request on a connection, as the ACL packet that carries it.
pub open spec fn att_request(conn: u16, opcode: u8, params: Seq<u8>) -> SentPacket {
    SentPacket::Acl { handle: conn, pb: 0, bc: 0, data: l2cap_att_payload(seq![opcode] + params) }
}

/// The primary-service discovery request: Read By Group Type over all
/// handles.
pub open spec fn services_request(conn: u16) -> SentPacket {
    att_request(
        conn,
        ATT_READ_BY_GROUP_TYPE_REQ,
        le16_bytes(0x0001) + le16_bytes(0xFFFF) + le16_bytes(UUID_PRIMARY_SERVICE),
    )
}

/// The characteristic discovery request: Read By Type of the
/// characteristic declaration between two handles.
pub open spec fn chars_request(conn: u16, start: u16, end: u16) -> SentPacket {
    att_request(
        conn,
        ATT_READ_BY_TYPE_REQ,
        le16_bytes(start) + le16_bytes(end) + le16_bytes(UUID_CHARACTERISTIC),
    )
}

/// The read request for an attribute.
pub open spec fn read_request(conn: u16, attr: u16) -> SentPacket {
    att_request(conn, ATT_READ_REQ, le16_bytes(attr))
}

/// What a write hands the transport: the command or ACL packet written;
/// LE Set Scan Enable with scanning on or off (duplicates not filtered);
/// LE Create Connection to the address (scan interval 0x0060, window
/// 0x0030, public addresses, no filter, connection interval 0x0006 to
/// 0x000C, no latency, supervision timeout 0x00C8, CE length 1 to 2);
/// Disconnect with reason 0x13 (remote user terminated); or the GATT
/// request. Nothing for a refused write.
pub open spec fn write_request(p: WritePlan) -> Option<SentPacket> {
    match p {
        WritePlan::SendCommand { opcode, parameters } => Some(
            SentPacket::Command { opcode, parameters },
        ),
        WritePlan::SendAcl { handle, pb, bc, data } => Some(SentPacket::Acl { handle, pb, bc, data }),
        WritePlan::StartScan => Some(
            SentPacket::Command { opcode: OP_LE_SET_SCAN_ENABLE, parameters: seq![0x01u8, 0x00u8] },
        ),
        WritePlan::StopScan => Some(
            SentPacket::Command { opcode: OP_LE_SET_SCAN_ENABLE, parameters: seq![0x00u8, 0x00u8] },
        ),
        WritePlan::Connect(a) => Some(
            SentPacket::Command {
                opcode: OP_LE_CREATE_CONNECTION,
                parameters: le_create_connection_params(
                    0x0060,
                    0x0030,
                    0x00,
                    0x00,
                    a,
                    0x00,
                    0x0006,
                    0x000C,
                    0x0000,
                    0x00C8,
                    0x0001,
                    0x0002,
                ),
            },
        ),
        WritePlan::Disconnect(h) => Some(
            SentPacket::Command { opcode: OP_DISCONNECT, parameters: le16_bytes(h) + seq![0x13u8] },
        ),
        WritePlan::DiscoverServices(h) => Some(services_request(h)),
        WritePlan::DiscoverChars(h, st, en) => Some(chars_request(h, st, en)),
        WritePlan::ReadChar(h, a) => Some(read_request(h, a)),
        WritePlan::Refuse(_) => None,
    }
}

fn text_is(t: &str, lit: &str) -> (r: bool)
    ensures
        r == (t@ == lit@),
{
    String::from_str(t) == String::from_str(lit)
}

impl HciScheme {
    /// Reads what a write to a node asks.
    pub fn plan_write(kind: &HandleKind, buf: &[u8]) -> (r: Result<WriteAction, SchemeError>)
        ensures
            match r {
                Ok(a) => write_plan(*kind, buf@) == action_plan(a),
                Err(e) => write_plan(*kind, buf@) == WritePlan::Refuse(e),
            },
    {
        match kind {
            HandleKind::Command => match HciCommand::from_bytes(buf) {
                Ok(c) => Ok(WriteAction::SendCommand(c)),
                Err(_) => Err(SchemeError::Invalid),
            },
            HandleKind::AclOut => match HciAcl::from_bytes(buf) {
                Ok(a) => Ok(WriteAction::SendAcl(a)),
                Err(_) => Err(SchemeError::Invalid),
            },
            HandleKind::LeScan => {
                let text = match utf8_text(buf) {
                    Some(t) => t,
                    None => return Err(SchemeError::Invalid),
                };
                let t = trim_whitespace(text);
                if text_is(t, "start") {
                    Ok(WriteAction::StartScan)
                } else if text_is(t, "stop") {
                    Ok(WriteAction::StopScan)
                } else {
                    Err(SchemeError::Invalid)
                }
            },
            HandleKind::Connect => {
                let text = match utf8_text(buf) {
                    Some(t) => t,
                    None => return Err(SchemeError::Invalid),
                };
                match Self::parse_addr(text) {
                    Some(a) => Ok(WriteAction::Connect(a)),
                    None => Err(SchemeError::Invalid),
                }
            },
            HandleKind::Disconnect => {
                let text = match utf8_text(buf) {
                    Some(t) => t,
                    None => return Err(SchemeError::Invalid),
                };
                match Self::parse_handle(text) {
                    Some(h) => Ok(WriteAction::Disconnect(h)),
                    None => Err(SchemeError::Invalid),
                }
            },
            HandleKind::GattDiscoverServices => {
                let text = match utf8_text(buf) {
                    Some(t) => t,
                    None => return Err(SchemeError::Invalid),
                };
                match Self::parse_handle(text) {
                    Some(h) => Ok(WriteAction::DiscoverServices(h)),
                    None => Err(SchemeError::Invalid),
                }
            },
            HandleKind::GattDiscoverChars => {
                let text = match utf8_text(buf) {
                    Some(t) => t,
                    None => return Err(SchemeError::Invalid),
                };
                let h = Self::parse_gatt_handle(text);
                let st = Self::parse_gatt_start(text);
                let en = Self::parse_gatt_end(text);
                match (h, st, en) {
                    (Some(h), Some(st), Some(en)) => Ok(WriteAction::DiscoverChars(h, st, en)),
                    _ => Err(SchemeError::Invalid),
                }
            },
            HandleKind::GattReadChar => {
                let text = match utf8_text(buf) {
                    Some(t) => t,
                    None => return Err(SchemeError::Invalid),
                };
                let h = Self::parse_gatt_handle(text);
                let a = Self::parse_gatt_addr(text);
                match (h, a) {
                    (Some(h), Some(a)) => Ok(WriteAction::ReadChar(h, a)),
                    _ => Err(SchemeError::Invalid),
                }
            },
            _ => Err(SchemeError::ReadOnly),
        }
    }
}

// ---- GATT requests ----

/// The ATT PDU an ACL packet carries on the ATT channel: its opcode and
/// parameters.
pub open spec fn att_of(d: Seq<u8>) -> Option<(u8, Seq<u8>)> {
    if d.len() >= 5 && le16(d[2], d[3]) == L2CAP_ATT_CID {
        Some((d[4], d.subrange(5, d.len() as int)))
    } else {
        None
    }
}

/// The text kept for an ATT error response.
pub open spec fn att_error_text(op: u8, handle: u16, code: u8) -> Seq<char> {
    "ATT error: req_opcode=0x"@ + hex2(op) + " handle=0x"@ + hex4(handle) + " error_code=0x"@
        + hex2(code)
}

/// The last error that an ATT error response leaves: its text where the
/// response holds the fields, else the error kept before.
pub open spec fn att_error_kept(p: Seq<u8>, before: Option<Seq<char>>) -> Option<Seq<char>> {
    if p.len() >= 4 {
        Some(att_error_text(p[0], le16(p[1], p[2]), p[3]))
    } else {
        before
    }
}

/// How a response to a service discovery leaves the services and the last
/// error: no response, a packet off the ATT channel, or an ATT error clear
/// the services and keep an error; a Read By Group Type Response gives the
/// services it lists, and anything else an error.
pub open spec fn services_applied(
    rsp: Option<HciAcl>,
    before: Option<Seq<char>>,
    err: Option<Seq<char>>,
    svcs: Seq<GattService>,
) -> bool {
    match rsp {
        None => err == Some("no ACL response received"@) && svcs.len() == 0,
        Some(acl) => match att_of(acl.data@) {
            None => err == Some("ACL response not on ATT channel"@) && svcs.len() == 0,
            Some((op, p)) => if op == ATT_ERROR_RSP {
                svcs.len() == 0 && err == att_error_kept(p, before)
            } else {
                ||| (err is None && services_parsed(op, p, svcs))
                ||| (svcs.len() == 0 && (err matches Some(m) && services_error(op, p, m)))
            },
        },
    }
}

/// The same for a characteristic discovery.
pub open spec fn chars_applied(
    rsp: Option<HciAcl>,
    before: Option<Seq<char>>,
    err: Option<Seq<char>>,
    chars: Seq<GattCharacteristic>,
) -> bool {
    match rsp {
        None => err == Some("no ACL response received"@) && chars.len() == 0,
        Some(acl) => match att_of(acl.data@) {
            None => err == Some("ACL response not on ATT channel"@) && chars.len() == 0,
            Some((op, p)) => if op == ATT_ERROR_RSP {
                chars.len() == 0 && err == att_error_kept(p, before)
            } else {
                ||| (err is None && chars_parsed(op, p, chars))
                ||| (chars.len() == 0 && (err matches Some(m) && chars_error(op, p, m)))
            },
        },
    }
}

/// The same for a characteristic read: a Read Response gives its value.
pub open spec fn read_applied(
    rsp: Option<HciAcl>,
    before: Option<Seq<char>>,
    err: Option<Seq<char>>,
    value: Option<Seq<u8>>,
) -> bool {
    match rsp {
        None => err == Some("no ACL response received"@) && value is None,
        Some(acl) => match att_of(acl.data@) {
            None => err == Some("ACL response not on ATT channel"@) && value is None,
            Some((op, p)) => if op == ATT_ERROR_RSP {
                value is None && err == att_error_kept(p, before)
            } else if op == ATT_READ_RSP {
                err is None && value == Some(p)
            } else {
                value is None && err == Some(
                    unexpected_opcode_text("ATT_READ_RSP"@, ATT_READ_RSP, op),
                )
            },
        },
    }
}

pub open spec fn opt_bytes(o: Option<Vec<u8>>) -> Option<Seq<u8>> {
    match o {
        Some(v) => Some(v@),
        None => None,
    }
}

fn att_error_message(op: u8, handle: u16, code: u8) -> (r: String)
    ensures
        r@ == att_error_text(op, handle, code),
{
    let mut s = String::from_str("ATT error: req_opcode=0x");
    push_hex2(&mut s, op);
    s.append(" handle=0x");
    push_hex4(&mut s, handle);
    s.append(" error_code=0x");
    push_hex2(&mut s, code);
    s
}

impl HciScheme {
    /// Takes in the response to a service discovery.
    pub fn apply_services_response(&mut self, rsp: Option<HciAcl>)
        ensures
            final(self).packets_handed() == old(self).packets_handed(),
            services_applied(
                rsp,
                opt_text(old(self).gatt_last_error),
                opt_text(final(self).gatt_last_error),
                final(self).gatt_services@,
            ),
            final(self).gatt_characteristics@ == old(self).gatt_characteristics@,
            final(self).gatt_read_result == old(self).gatt_read_result,
            final(self).le_scan_active == old(self).le_scan_active,
            final(self).le_scan_results@ == old(self).le_scan_results@,
            final(self).le_connections@ == old(self).le_connections@,
            final(self).controller_info == old(self).controller_info,
            final(self).open_handles() == old(self).open_handles(),
            final(self).next_handle() == old(self).next_handle(),
    {
        match rsp {
            Some(acl_rsp) => match acl_to_att(&acl_rsp) {
                Some(att_rsp) => {
                    if is_att_error(&att_rsp) {
                        if let Some((op, handle, code)) = parse_att_error(&att_rsp) {
                            self.gatt_last_error = Some(att_error_message(op, handle, code));
                        }
                        self.gatt_services.clear();
                        return ;
                    }
                    match parse_read_by_group_type_rsp(&att_rsp) {
                        Ok(services) => {
                            self.gatt_services = services;
                            self.gatt_last_error = None;
                        },
                        Err(e) => {
                            self.gatt_last_error = Some(e);
                            self.gatt_services.clear();
                        },
                    }
                },
                None => {
                    self.gatt_last_error = Some(String::from_str("ACL response not on ATT channel"));
                    self.gatt_services.clear();
                },
            },
            None => {
                self.gatt_last_error = Some(String::from_str("no ACL response received"));
                self.gatt_services.clear();
            },
        }
    }

    /// Takes in the response to a characteristic discovery.
    pub fn apply_chars_response(&mut self, rsp: Option<HciAcl>)
        ensures
            final(self).packets_handed() == old(self).packets_handed(),
            chars_applied(
                rsp,
                opt_text(old(self).gatt_last_error),
                opt_text(final(self).gatt_last_error),
                final(self).gatt_characteristics@,
            ),
            final(self).gatt_services@ == old(self).gatt_services@,
            final(self).gatt_read_result == old(self).gatt_read_result,
            final(self).le_scan_active == old(self).le_scan_active,
            final(self).le_scan_results@ == old(self).le_scan_results@,
            final(self).le_connections@ == old(self).le_connections@,
            final(self).controller_info == old(self).controller_info,
            final(self).open_handles() == old(self).open_handles(),
            final(self).next_handle() == old(self).next_handle(),
    {
        match rsp {
            Some(acl_rsp) => match acl_to_att(&acl_rsp) {
                Some(att_rsp) => {
                    if is_att_error(&att_rsp) {
                        if let Some((op, handle, code)) = parse_att_error(&att_rsp) {
                            self.gatt_last_error = Some(att_error_message(op, handle, code));
                        }
                        self.gatt_characteristics.clear();
                        return ;
                    }
                    match parse_read_by_type_rsp(&att_rsp) {
                        Ok(chars) => {
                            self.gatt_characteristics = chars;
                            self.gatt_last_error = None;
                        },
                        Err(e) => {
                            self.gatt_last_error = Some(e);
                            self.gatt_characteristics.clear();
                        },
                    }
                },
                None => {
                    self.gatt_last_error = Some(String::from_str("ACL response not on ATT channel"));
                    self.gatt_characteristics.clear();
                },
            },
            None => {
                self.gatt_last_error = Some(String::from_str("no ACL response received"));
                self.gatt_characteristics.clear();
            },
        }
    }

    /// Takes in the response to a characteristic read.
    pub fn apply_read_response(&mut self, rsp: Option<HciAcl>)
        ensures
            final(self).packets_handed() == old(self).packets_handed(),
            read_applied(
                rsp,
                opt_text(old(self).gatt_last_error),
                opt_text(final(self).gatt_last_error),
                opt_bytes(final(self).gatt_read_result),
            ),
            final(self).gatt_services@ == old(self).gatt_services@,
            final(self).gatt_characteristics@ == old(self).gatt_characteristics@,
            final(self).le_scan_active == old(self).le_scan_active,
            final(self).le_scan_results@ == old(self).le_scan_results@,
            final(self).le_connections@ == old(self).le_connections@,
            final(self).controller_info == old(self).controller_info,
            final(self).open_handles() == old(self).open_handles(),
            final(self).next_handle() == old(self).next_handle(),
    {
        match rsp {
            Some(acl_rsp) => match acl_to_att(&acl_rsp) {
                Some(att_rsp) => {
                    if is_att_error(&att_rsp) {
                        if let Some((op, handle, code)) = parse_att_error(&att_rsp) {
                            self.gatt_last_error = Some(att_error_message(op, handle, code));
                        }
                        self.gatt_read_result = None;
                        return ;
                    }
                    match parse_read_rsp(&att_rsp) {
                        Ok(value) => {
                            self.gatt_read_result = Some(value);
                            self.gatt_last_error = None;
                        },
                        Err(e) => {
                            self.gatt_last_error = Some(e);
                            self.gatt_read_result = None;
                        },
                    }
                },
                None => {
                    self.gatt_last_error = Some(String::from_str("ACL response not on ATT channel"));
                    self.gatt_read_result = None;
                },
            },
            None => {
                self.gatt_last_error = Some(String::from_str("no ACL response received"));
                self.gatt_read_result = None;
            },
        }
    }
}

/// The scheme's data is as it was: controller, scan, connections, GATT
/// results and handles.
pub open spec fn scheme_unchanged(a: &HciScheme, b: &HciScheme) -> bool {
    &&& a.controller_info == b.controller_info
    &&& a.le_scan_active == b.le_scan_active
    &&& a.le_scan_results@ == b.le_scan_results@
    &&& a.le_connections@ == b.le_connections@
    &&& a.gatt_services@ == b.gatt_services@
    &&& a.gatt_characteristics@ == b.gatt_characteristics@
    &&& a.gatt_read_result == b.gatt_read_result
    &&& a.gatt_last_error == b.gatt_last_error
    &&& a.open_handles() == b.open_handles()
    &&& a.next_handle() == b.next_handle()
}

/// What a transport call's outcome becomes for the scheme: the value where
/// the call succeeded, `Invalid` where it failed.
fn scheme_io_result<T>(res: Result<T, std::io::Error>) -> (r: Result<T, SchemeError>)
    ensures
        match res {
            Ok(v) => r == Ok::<T, SchemeError>(v),
            Err(_) => r == Err::<T, SchemeError>(SchemeError::Invalid),
        },
{
    match res {
        Ok(v) => Ok(v),
        Err(_) => Err(SchemeError::Invalid),
    }
}

impl HciScheme {
    fn send_command_checked(&mut self, cmd: &HciCommand) -> (r: Result<(), SchemeError>)
        ensures
            r is Ok || r == Err::<(), SchemeError>(SchemeError::Invalid),
            scheme_unchanged(old(self), final(self)),
            final(self).packets_handed() == old(self).packets_handed().push(sent_command(*cmd)),
    {
        proof {
            self.handed@ = self.handed@.push(sent_command(*cmd));
        }
        scheme_io_result(self.transport.send_command(cmd))
    }

    fn send_acl_checked(&mut self, acl: &HciAcl) -> (r: Result<(), SchemeError>)
        ensures
            r is Ok || r == Err::<(), SchemeError>(SchemeError::Invalid),
            scheme_unchanged(old(self), final(self)),
            final(self).packets_handed() == old(self).packets_handed().push(sent_acl(*acl)),
    {
        proof {
            self.handed@ = self.handed@.push(sent_acl(*acl));
        }
        scheme_io_result(self.transport.send_acl(acl))
    }

    fn recv_acl_checked(&mut self) -> (r: Result<Option<HciAcl>, SchemeError>)
        ensures
            r is Ok || r == Err::<Option<HciAcl>, SchemeError>(SchemeError::Invalid),
            scheme_unchanged(old(self), final(self)),
            final(self).packets_handed() == old(self).packets_handed(),
    {
        scheme_io_result(self.transport.recv_acl())
    }

    /// Asks the peer on a connection for its primary services (Read By
    /// Group Type over all handles) and takes in the answer.
    pub fn perform_gatt_discover_services(&mut self, conn_handle: u16) -> (r: Result<(), SchemeError>)
        ensures
            final(self).packets_handed() == old(self).packets_handed().push(
                services_request(conn_handle),
            ),
            match r {
                Ok(()) => exists|rsp: Option<HciAcl>|
                    services_applied(
                        rsp,
                        opt_text(old(self).gatt_last_error),
                        opt_text(final(self).gatt_last_error),
                        final(self).gatt_services@,
                    ),
                Err(e) => e == SchemeError::Invalid && scheme_unchanged(old(self), final(self)),
            },
            final(self).le_scan_active == old(self).le_scan_active,
            final(self).le_scan_results@ == old(self).le_scan_results@,
            final(self).open_handles() == old(self).open_handles(),
            final(self).next_handle() == old(self).next_handle(),
    {
        let att_req = AttPdu::read_by_group_type_req(0x0001, 0xFFFF);
        let acl = att_to_acl(conn_handle, &att_req);
        self.send_acl_checked(&acl)?;
        let rsp = self.recv_acl_checked()?;
        self.apply_services_response(rsp);
        Ok(())
    }

    /// Asks for the characteristics between two handles (Read By Type of
    /// the characteristic declaration) and takes in the answer.
    pub fn perform_gatt_discover_chars(&mut self, conn_handle: u16, start: u16, end: u16) -> (r:
        Result<(), SchemeError>)
        ensures
            final(self).packets_handed() == old(self).packets_handed().push(
                chars_request(conn_handle, start, end),
            ),
            match r {
                Ok(()) => exists|rsp: Option<HciAcl>|
                    chars_applied(
                        rsp,
                        opt_text(old(self).gatt_last_error),
                        opt_text(final(self).gatt_last_error),
                        final(self).gatt_characteristics@,
                    ),
                Err(e) => e == SchemeError::Invalid && scheme_unchanged(old(self), final(self)),
            },
            final(self).le_scan_active == old(self).le_scan_active,
            final(self).le_scan_results@ == old(self).le_scan_results@,
            final(self).open_handles() == old(self).open_handles(),
            final(self).next_handle() == old(self).next_handle(),
    {
        let att_req = AttPdu::read_by_type_req(start, end, UUID_CHARACTERISTIC);
        let acl = att_to_acl(conn_handle, &att_req);
        self.send_acl_checked(&acl)?;
        let rsp = self.recv_acl_checked()?;
        self.apply_chars_response(rsp);
        Ok(())
    }

    /// Reads an attribute's value and takes in the answer.
    pub fn perform_gatt_read_char(&mut self, conn_handle: u16, attr_handle: u16) -> (r: Result<
        (),
        SchemeError,
    >)
        ensures
            final(self).packets_handed() == old(self).packets_handed().push(
                read_request(conn_handle, attr_handle),
            ),
            match r {
                Ok(()) => exists|rsp: Option<HciAcl>|
                    read_applied(
                        rsp,
                        opt_text(old(self).gatt_last_error),
                        opt_text(final(self).gatt_last_error),
                        opt_bytes(final(self).gatt_read_result),
                    ),
                Err(e) => e == SchemeError::Invalid && scheme_unchanged(old(self), final(self)),
            },
            final(self).le_scan_active == old(self).le_scan_active,
            final(self).le_scan_results@ == old(self).le_scan_results@,
            final(self).open_handles() == old(self).open_handles(),
            final(self).next_handle() == old(self).next_handle(),
    {
        let att_req = AttPdu::read_req(attr_handle);
        let acl = att_to_acl(conn_handle, &att_req);
        self.send_acl_checked(&acl)?;
        let rsp = self.recv_acl_checked()?;
        self.apply_read_response(rsp);
        Ok(())
    }

    /// Writes to a node: does what the write asks (see `write_plan`).
    pub fn write_handle(&mut self, kind: &HandleKind, buf: &[u8]) -> (r: Result<(), SchemeError>)
        ensures
            match write_request(write_plan(*kind, buf@)) {
                Some(p) => final(self).packets_handed() == old(self).packets_handed().push(p),
                None => final(self).packets_handed() == old(self).packets_handed(),
            },
            match write_plan(*kind, buf@) {
                WritePlan::Refuse(e) => r == Err::<(), SchemeError>(e) && scheme_unchanged(
                    old(self),
                    final(self),
                ),
                WritePlan::StartScan => match r {
                    Ok(()) => final(self).le_scan_active && final(self).le_scan_results@.len() == 0,
                    Err(e) => e == SchemeError::Invalid && scheme_unchanged(old(self), final(self)),
                },
                WritePlan::StopScan => match r {
                    Ok(()) => !final(self).le_scan_active && final(self).le_scan_results@
                        == old(self).le_scan_results@,
                    Err(e) => e == SchemeError::Invalid && scheme_unchanged(old(self), final(self)),
                },
                WritePlan::DiscoverServices(_) => match r {
                    Ok(()) => exists|rsp: Option<HciAcl>|
                        services_applied(
                            rsp,
                            opt_text(old(self).gatt_last_error),
                            opt_text(final(self).gatt_last_error),
                            final(self).gatt_services@,
                        ),
                    Err(e) => e == SchemeError::Invalid && scheme_unchanged(old(self), final(self)),
                },
                WritePlan::DiscoverChars(_, _, _) => match r {
                    Ok(()) => exists|rsp: Option<HciAcl>|
                        chars_applied(
                            rsp,
                            opt_text(old(self).gatt_last_error),
                            opt_text(final(self).gatt_last_error),
                            final(self).gatt_characteristics@,
                        ),
                    Err(e) => e == SchemeError::Invalid && scheme_unchanged(old(self), final(self)),
                },
                WritePlan::ReadChar(_, _) => match r {
                    Ok(()) => exists|rsp: Option<HciAcl>|
                        read_applied(
                            rsp,
                            opt_text(old(self).gatt_last_error),
                            opt_text(final(self).gatt_last_error),
                            opt_bytes(final(self).gatt_read_result),
                        ),
                    Err(e) => e == SchemeError::Invalid && scheme_unchanged(old(self), final(self)),
                },
                _ => (r is Ok || r == Err::<(), SchemeError>(SchemeError::Invalid))
                    && scheme_unchanged(old(self), final(self)),
            },
            final(self).open_handles() == old(self).open_handles(),
            final(self).next_handle() == old(self).next_handle(),
    {
        let action = Self::plan_write(kind, buf)?;
        match action {
            WriteAction::SendCommand(cmd) => self.send_command_checked(&cmd),
            WriteAction::SendAcl(acl) => self.send_acl_checked(&acl),
            WriteAction::StartScan => {
                let cmd = cmd_le_set_scan_enable(0x01, 0x00);
                self.send_command_checked(&cmd)?;
                self.le_scan_active = true;
                self.le_scan_results.clear();
                Ok(())
            },
            WriteAction::StopScan => {
                let cmd = cmd_le_set_scan_enable(0x00, 0x00);
                self.send_command_checked(&cmd)?;
                self.le_scan_active = false;
                Ok(())
            },
            WriteAction::Connect(addr) => {
                let cmd = cmd_le_create_connection(
                    0x0060,
                    0x0030,
                    0x00,
                    0x00,
                    &addr,
                    0x00,
                    0x0006,
                    0x000C,
                    0x0000,
                    0x00C8,
                    0x0001,
                    0x0002,
                );
                self.send_command_checked(&cmd)
            },
            WriteAction::Disconnect(handle) => {
                let cmd = cmd_disconnect(handle, 0x13);
                self.send_command_checked(&cmd)
            },
            WriteAction::DiscoverServices(conn) => self.perform_gatt_discover_services(conn),
            WriteAction::DiscoverChars(conn, start, end) => self.perform_gatt_discover_chars(
                conn,
                start,
                end,
            ),
            WriteAction::ReadChar(conn, attr) => self.perform_gatt_read_char(conn, attr),
        }
    }
}

// ---- Reading nodes, opening them by name ----

/// The listing of the root directory.
pub open spec fn root_listing() -> Seq<char> {
    "status\ninfo\ncommand\nevents\nacl-out\nacl-in\nle-scan\nle-scan-results\nconnect\ndisconnect\nconnections\ngatt-discover-services\ngatt-discover-chars\ngatt-read-char\ngatt-services\ngatt-characteristics\n"@
}

/// What reading a node gives, for the nodes whose content the scheme holds
/// itself (`None` for the events and incoming ACL nodes, which ask the
/// transport): the root's listing, the texts of the status, info, scan
/// result, connection and GATT nodes, the last value read, and nothing for
/// the nodes that are only written.
pub open spec fn node_bytes(s: &HciScheme, kind: HandleKind) -> Option<Seq<u8>> {
    match kind {
        HandleKind::Root => Some(encode_utf8(root_listing())),
        HandleKind::Status => Some(
            encode_utf8(
                listing(
                    scheme_status_lines(&s.controller_info, s.le_scan_active, s.le_connections@.len()),
                ),
            ),
        ),
        HandleKind::Info => Some(encode_utf8(listing(scheme_info_lines(&s.controller_info)))),
        HandleKind::LeScanResults => Some(encode_utf8(listing(string_views(s.le_scan_results@)))),
        HandleKind::Connections => Some(
            encode_utf8(
                listing(s.le_connections@.map_values(|c: (u16, [u8; 6])| connection_line(c))),
            ),
        ),
        HandleKind::GattDiscoverServices | HandleKind::GattServices => Some(
            encode_utf8(listing(s.gatt_services@.map_values(|v: GattService| service_line(v)))),
        ),
        HandleKind::GattDiscoverChars | HandleKind::GattCharacteristics => Some(
            encode_utf8(
                listing(
                    s.gatt_characteristics@.map_values(
                        |c: GattCharacteristic| characteristic_line(c),
                    ),
                ),
            ),
        ),
        HandleKind::GattReadChar => match s.gatt_read_result {
            Some(v) => Some(v@),
            None => Some(Seq::empty()),
        },
        HandleKind::Events | HandleKind::AclIn => None,
        _ => Some(Seq::empty()),
    }
}

impl HciScheme {
    /// Reads a node: the content the scheme holds, or for the events and
    /// incoming ACL nodes the next event or packet from the transport in
    /// wire form (nothing when none waits).
    pub fn read_handle(&mut self, kind: &HandleKind) -> (r: Result<Vec<u8>, SchemeError>)
        ensures
            match node_bytes(old(self), *kind) {
                Some(b) => r matches Ok(v) && v@ == b,
                None => match r {
                    Ok(v) => v@.len() == 0 || (*kind == HandleKind::Events && exists|e: HciEvent|
                        v@ == seq![e.event_code, param_len_byte(e.parameters@.len())]
                            + e.parameters@) || (*kind == HandleKind::AclIn && exists|a: HciAcl|
                        v@ == acl_wire(a.handle, a.pb_flag, a.bc_flag, a.data@)),
                    Err(e) => e == SchemeError::Invalid,
                },
            },
            scheme_unchanged(old(self), final(self)),
    {
        match kind {
            HandleKind::Root => {
                let listing_text = "status\ninfo\ncommand\nevents\nacl-out\nacl-in\nle-scan\nle-scan-results\nconnect\ndisconnect\nconnections\ngatt-discover-services\ngatt-discover-chars\ngatt-read-char\ngatt-services\ngatt-characteristics\n";
                Ok(listing_text.as_bytes_vec())
            },
            HandleKind::Status => Ok(text_bytes(self.format_status())),
            HandleKind::Info => Ok(text_bytes(self.format_info())),
            HandleKind::LeScanResults => Ok(text_bytes(self.format_scan_results())),
            HandleKind::Connections => Ok(text_bytes(self.format_connections())),
            HandleKind::Events => match self.transport.recv_event() {
                Ok(Some(event)) => Ok(event_to_bytes(&event)),
                Ok(None) => Ok(Vec::new()),
                Err(_) => Err(SchemeError::Invalid),
            },
            HandleKind::AclIn => match self.transport.recv_acl() {
                Ok(Some(acl)) => Ok(acl.to_bytes()),
                Ok(None) => Ok(Vec::new()),
                Err(_) => Err(SchemeError::Invalid),
            },
            HandleKind::GattDiscoverServices | HandleKind::GattServices => Ok(
                text_bytes(self.format_gatt_services()),
            ),
            HandleKind::GattDiscoverChars | HandleKind::GattCharacteristics => Ok(
                text_bytes(self.format_gatt_characteristics()),
            ),
            HandleKind::GattReadChar => match &self.gatt_read_result {
                Some(data) => Ok(copy_range(data.as_slice(), 0, data.len())),
                None => Ok(Vec::new()),
            },
            _ => Ok(Vec::new()),
        }
    }
}

/// A node's name below the root ("" for the root itself).
pub open spec fn node_name(kind: HandleKind) -> Seq<char> {
    match kind {
        HandleKind::Root => ""@,
        HandleKind::Status => "status"@,
        HandleKind::Info => "info"@,
        HandleKind::Command => "command"@,
        HandleKind::Events => "events"@,
        HandleKind::AclOut => "acl-out"@,
        HandleKind::AclIn => "acl-in"@,
        HandleKind::LeScan => "le-scan"@,
        HandleKind::LeScanResults => "le-scan-results"@,
        HandleKind::Connect => "connect"@,
        HandleKind::Disconnect => "disconnect"@,
        HandleKind::Connections => "connections"@,
        HandleKind::GattDiscoverServices => "gatt-discover-services"@,
        HandleKind::GattDiscoverChars => "gatt-discover-chars"@,
        HandleKind::GattReadChar => "gatt-read-char"@,
        HandleKind::GattServices => "gatt-services"@,
        HandleKind::GattCharacteristics => "gatt-characteristics"@,
    }
}

/// The node below the root with this name.
pub open spec fn node_named(name: Seq<char>) -> Option<HandleKind> {
    if name == "status"@ {
        Some(HandleKind::Status)
    } else if name == "info"@ {
        Some(HandleKind::Info)
    } else if name == "command"@ {
        Some(HandleKind::Command)
    } else if name == "events"@ {
        Some(HandleKind::Events)
    } else if name == "acl-out"@ {
        Some(HandleKind::AclOut)
    } else if name == "acl-in"@ {
        Some(HandleKind::AclIn)
    } else if name == "le-scan"@ {
        Some(HandleKind::LeScan)
    } else if name == "le-scan-results"@ {
        Some(HandleKind::LeScanResults)
    } else if name == "connect"@ {
        Some(HandleKind::Connect)
    } else if name == "disconnect"@ {
        Some(HandleKind::Disconnect)
    } else if name == "connections"@ {
        Some(HandleKind::Connections)
    } else if name == "gatt-discover-services"@ {
        Some(HandleKind::GattDiscoverServices)
    } else if name == "gatt-discover-chars"@ {
        Some(HandleKind::GattDiscoverChars)
    } else if name == "gatt-read-char"@ {
        Some(HandleKind::GattReadChar)
    } else if name == "gatt-services"@ {
        Some(HandleKind::GattServices)
    } else if name == "gatt-characteristics"@ {
        Some(HandleKind::GattCharacteristics)
    } else {
        None
    }
}

/// The first position from `i` on that holds no `/`.
pub open spec fn slashes_end(s: Seq<char>, i: int) -> int
    decreases s.len() - i,
{
    if i < 0 || i >= s.len() || s[i] != '/' {
        i
    } else {
        slashes_end(s, i + 1)
    }
}

/// The position after the last character before `j` (and from `lo` on)
/// that is not `/`.
pub open spec fn slashes_start(s: Seq<char>, j: int, lo: int) -> int
    decreases j - lo,
{
    if j <= lo || j > s.len() || s[j - 1] != '/' {
        j
    } else {
        slashes_start(s, j - 1, lo)
    }
}

/// A path without its leading and trailing slashes.
pub open spec fn trim_slashes(s: Seq<char>) -> Seq<char> {
    let a = slashes_end(s, 0);
    s.subrange(a, slashes_start(s, s.len() as int, a))
}

proof fn lemma_slashes_end(s: Seq<char>, i: int)
    requires
        0 <= i <= s.len(),
    ensures
        i <= slashes_end(s, i) <= s.len(),
    decreases s.len() - i,
{
    if i < s.len() && s[i] == '/' {
        lemma_slashes_end(s, i + 1);
    }
}

proof fn lemma_slashes_start(s: Seq<char>, j: int, lo: int)
    requires
        0 <= lo <= j <= s.len(),
    ensures
        lo <= slashes_start(s, j, lo) <= j,
    decreases j - lo,
{
    if j > lo && s[j - 1] == '/' {
        lemma_slashes_start(s, j - 1, lo);
    }
}

pub(crate) fn strip_slashes(path: &str) -> (r: &str)
    ensures
        r@ == trim_slashes(path@),
{
    let n = path.unicode_len();
    let mut a: usize = 0;
    while a < n && path.get_char(a) == '/'
        invariant
            a <= n,
            n == path@.len(),
            slashes_end(path@, a as int) == slashes_end(path@, 0),
        decreases n - a,
    {
        a = a + 1;
    }
    let mut b: usize = n;
    proof {
        lemma_slashes_end(path@, 0);
    }
    while b > a && path.get_char(b - 1) == '/'
        invariant
            a <= b <= n,
            n == path@.len(),
            a == slashes_end(path@, 0),
            slashes_start(path@, b as int, a as int) == slashes_start(path@, n as int, a as int),
        decreases b,
    {
        b = b - 1;
    }
    path.substring_char(a, b)
}

fn name_node(name: &str) -> (r: Option<HandleKind>)
    ensures
        r == node_named(name@),
{
    let n = String::from_str(name);
    if n == String::from_str("status") {
        Some(HandleKind::Status)
    } else if n == String::from_str("info") {
        Some(HandleKind::Info)
    } else if n == String::from_str("command") {
        Some(HandleKind::Command)
    } else if n == String::from_str("events") {
        Some(HandleKind::Events)
    } else if n == String::from_str("acl-out") {
        Some(HandleKind::AclOut)
    } else if n == String::from_str("acl-in") {
        Some(HandleKind::AclIn)
    } else if n == String::from_str("le-scan") {
        Some(HandleKind::LeScan)
    } else if n == String::from_str("le-scan-results") {
        Some(HandleKind::LeScanResults)
    } else if n == String::from_str("connect") {
        Some(HandleKind::Connect)
    } else if n == String::from_str("disconnect") {
        Some(HandleKind::Disconnect)
    } else if n == String::from_str("connections") {
        Some(HandleKind::Connections)
    } else if n == String::from_str("gatt-discover-services") {
        Some(HandleKind::GattDiscoverServices)
    } else if n == String::from_str("gatt-discover-chars") {
        Some(HandleKind::GattDiscoverChars)
    } else if n == String::from_str("gatt-read-char") {
        Some(HandleKind::GattReadChar)
    } else if n == String::from_str("gatt-services") {
        Some(HandleKind::GattServices)
    } else if n == String::from_str("gatt-characteristics") {
        Some(HandleKind::GattCharacteristics)
    } else {
        None
    }
}

/// The node a path names from a directory handle: from the root handle
/// the empty path names the root itself; from an open handle on the root
/// only a node below it; from any other handle nothing.
pub open spec fn open_target(s: &HciScheme, dirfd: usize, path: Seq<char>) -> Result<
    HandleKind,
    SchemeError,
> {
    let name = trim_slashes(path);
    if dirfd == SCHEME_ROOT_ID {
        if name.len() == 0 {
            Ok(HandleKind::Root)
        } else {
            match node_named(name) {
                Some(k) => Ok(k),
                None => Err(SchemeError::NotFound),
            }
        }
    } else {
        match s.lookup(dirfd) {
            None => Err(SchemeError::BadDescriptor),
            Some(HandleKind::Root) => match node_named(name) {
                Some(k) => Ok(k),
                None => Err(SchemeError::NotFound),
            },
            Some(_) => Err(SchemeError::Invalid),
        }
    }
}

impl HciScheme {
    /// Opens the node a path names from a directory handle, giving the new
    /// handle's number.
    pub fn open_at(&mut self, dirfd: usize, path: &str) -> (r: Result<usize, SchemeError>)
        requires
            old(self).next_handle() < usize::MAX,
        ensures
            match open_target(old(self), dirfd, path@) {
                Ok(kind) => r == Ok::<usize, SchemeError>(old(self).next_handle())
                    && final(self).open_handles() == old(self).open_handles().insert(
                    old(self).next_handle(),
                    kind,
                ) && final(self).next_handle() == old(self).next_handle() + 1,
                Err(e) => r == Err::<usize, SchemeError>(e) && final(self).open_handles()
                    == old(self).open_handles() && final(self).next_handle()
                    == old(self).next_handle(),
            },
    {
        let name = strip_slashes(path);
        let kind = if dirfd == SCHEME_ROOT_ID {
            if name.unicode_len() == 0 {
                HandleKind::Root
            } else {
                match name_node(name) {
                    Some(k) => k,
                    None => return Err(SchemeError::NotFound),
                }
            }
        } else {
            let parent = self.handle(dirfd)?;
            match parent {
                HandleKind::Root => match name_node(name) {
                    Some(k) => k,
                    None => return Err(SchemeError::NotFound),
                },
                _ => return Err(SchemeError::Invalid),
            }
        };
        Ok(self.alloc_handle(kind))
    }

    /// Whether a handle names a directory (only the root is one).
    pub fn is_directory(&self, id: usize) -> (r: Result<bool, SchemeError>)
        ensures
            match self.lookup(id) {
                Some(k) => r == Ok::<bool, SchemeError>(k == HandleKind::Root),
                None => r == Err::<bool, SchemeError>(SchemeError::BadDescriptor),
            },
    {
        let kind = self.handle(id)?;
        Ok(kind == HandleKind::Root)
    }

    /// The path of the node a handle names.
    pub fn path_of(&self, id: usize) -> (r: Result<String, SchemeError>)
        ensures
            match self.lookup(id) {
                Some(k) => r matches Ok(p) && p@ == "hci0:/"@ + node_name(k),
                None => r == Err::<String, SchemeError>(SchemeError::BadDescriptor),
            },
    {
        let kind = self.handle(id)?;
        let name = match kind {
            HandleKind::Root => "",
            HandleKind::Status => "status",
            HandleKind::Info => "info",
            HandleKind::Command => "command",
            HandleKind::Events => "events",
            HandleKind::AclOut => "acl-out",
            HandleKind::AclIn => "acl-in",
            HandleKind::LeScan => "le-scan",
            HandleKind::LeScanResults => "le-scan-results",
            HandleKind::Connect => "connect",
            HandleKind::Disconnect => "disconnect",
            HandleKind::Connections => "connections",
            HandleKind::GattDiscoverServices => "gatt-discover-services",
            HandleKind::GattDiscoverChars => "gatt-discover-chars",
            HandleKind::GattReadChar => "gatt-read-char",
            HandleKind::GattServices => "gatt-services",
            HandleKind::GattCharacteristics => "gatt-characteristics",
        };
        let mut p = String::from_str("hci0:/");
        p.append(name);
        Ok(p)
    }
}

/// Copies what a read at `offset` gives into `buf`: nothing past the end
/// of the data, else as much of the rest as `buf` holds; an offset past
/// the machine's address range is refused.
pub fn copy_at_offset(data: &[u8], offset: u64, buf: &mut [u8]) -> (r: Result<usize, SchemeError>)
    ensures
        if offset > usize::MAX {
            r == Err::<usize, SchemeError>(SchemeError::Invalid) && final(buf)@ == old(buf)@
        } else if offset >= data@.len() {
            r == Ok::<usize, SchemeError>(0) && final(buf)@ == old(buf)@
        } else {
            r matches Ok(n) && n as int == (if data@.len() - offset < old(buf)@.len() {
                data@.len() - offset
            } else {
                old(buf)@.len() as int
            }) && final(buf)@ == data@.subrange(offset as int, offset + n) + old(buf)@.subrange(
                n as int,
                old(buf)@.len() as int,
            )
        },
{
    if offset > usize::MAX as u64 {
        return Err(SchemeError::Invalid);
    }
    let offset = offset as usize;
    if offset >= data.len() {
        return Ok(0);
    }
    let remaining = data.len() - offset;
    let count = if remaining < buf.len() {
        remaining
    } else {
        buf.len()
    };
    let mut i: usize = 0;
    while i < count
        invariant
            count <= buf@.len(),
            offset + count <= data.len(),
            data.len() == data@.len(),
            buf@.len() == old(buf)@.len(),
            i <= count,
            forall|k: int| 0 <= k < i ==> buf@[k] == data@[offset + k],
            forall|k: int| count <= k < buf@.len() ==> buf@[k] == old(buf)@[k],
        decreases count - i,
    {
        buf[i] = data[offset + i];
        i = i + 1;
    }
    proof {
        assert(buf@ =~= data@.subrange(offset as int, offset + count) + old(buf)@.subrange(
            count as int,
            old(buf)@.len() as int,
        ));
    }
    Ok(count)
}

} // verus!
