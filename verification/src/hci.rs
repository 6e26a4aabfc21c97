//! HCI (Host Controller Interface) wire formats for the Bluetooth USB
//! transport: commands, events, ACL data, the packet indicator byte and the
//! parsers of the command-complete and LE-meta events.

use vstd::prelude::*;
use vstd::string::StringExecFns;
use crate::text::{hex2, decimal, push_str, push_hex2, push_decimal};
use crate::bytes::{le_lo, le_hi, le16, le16_bytes, lemma_le16_roundtrip, lemma_le16_split, u16_from_le, low_byte, high_byte, push_u16_le, append_bytes, copy_range};

verus! {

// Link Control
pub const OP_CREATE_CONNECTION: u16 = 0x0405;
pub const OP_DISCONNECT: u16 = 0x0406;

// Controller & Baseband
pub const OP_RESET: u16 = 0x0C03;
pub const OP_SET_EVENT_MASK: u16 = 0x0C01;
pub const OP_READ_LOCAL_VERSION: u16 = 0x1001;
pub const OP_READ_LOCAL_SUPPORTED_COMMANDS: u16 = 0x1002;
pub const OP_READ_BD_ADDR: u16 = 0x1009;
pub const OP_SET_EVENT_FILTER: u16 = 0x0C05;
pub const OP_WRITE_INQUIRY_MODE: u16 = 0x0C45;
pub const OP_WRITE_SCAN_ENABLE: u16 = 0x0C1A;

// LE Controller
pub const OP_LE_SET_EVENT_MASK: u16 = 0x2001;
pub const OP_LE_READ_BUFFER_SIZE: u16 = 0x2002;
pub const OP_LE_READ_LOCAL_SUPPORTED_FEATURES: u16 = 0x2003;
pub const OP_LE_SET_RANDOM_ADDRESS: u16 = 0x2005;
pub const OP_LE_SET_ADVERTISING_PARAMETERS: u16 = 0x2006;
pub const OP_LE_SET_ADVERTISING_DATA: u16 = 0x2008;
pub const OP_LE_SET_SCAN_PARAMETERS: u16 = 0x200B;
pub const OP_LE_SET_SCAN_ENABLE: u16 = 0x200C;
pub const OP_LE_CREATE_CONNECTION: u16 = 0x200D;
pub const OP_LE_CREATE_CONNECTION_CANCEL: u16 = 0x200E;
pub const OP_LE_CONNECTION_UPDATE: u16 = 0x2013;
pub const OP_LE_READ_REMOTE_FEATURES: u16 = 0x2016;

// Status codes
pub const STATUS_SUCCESS: u8 = 0x00;
pub const STATUS_UNKNOWN_COMMAND: u8 = 0x01;
pub const STATUS_UNKNOWN_CONNECTION_ID: u8 = 0x02;
pub const STATUS_HARDWARE_FAILURE: u8 = 0x03;
pub const STATUS_PAGE_TIMEOUT: u8 = 0x04;
pub const STATUS_AUTHENTICATION_FAILURE: u8 = 0x05;

// Event codes
pub const EVT_INQUIRY_COMPLETE: u8 = 0x01;
pub const EVT_INQUIRY_RESULT: u8 = 0x02;
pub const EVT_CONNECTION_COMPLETE: u8 = 0x03;
pub const EVT_DISCONNECTION_COMPLETE: u8 = 0x05;
pub const EVT_AUTHENTICATION_COMPLETE: u8 = 0x06;
pub const EVT_REMOTE_NAME_REQUEST_COMPLETE: u8 = 0x07;
pub const EVT_ENCRYPTION_CHANGE: u8 = 0x08;
pub const EVT_COMMAND_COMPLETE: u8 = 0x0E;
pub const EVT_COMMAND_STATUS: u8 = 0x0F;
pub const EVT_NUMBER_OF_COMPLETED_PACKETS: u8 = 0x13;
pub const EVT_LE_META: u8 = 0x3E;

// LE meta subevent codes
pub const LE_CONNECTION_COMPLETE: u8 = 0x01;
pub const LE_ADVERTISING_REPORT: u8 = 0x02;
pub const LE_CONNECTION_UPDATE_COMPLETE: u8 = 0x03;
pub const LE_READ_REMOTE_FEATURES_COMPLETE: u8 = 0x04;
pub const LE_LONG_TERM_KEY_REQUEST: u8 = 0x05;

/// USB HCI transport packet indicator byte.
#[derive(Clone, Copy, Debug, PartialEq, Eq, Structural)]
pub enum PacketIndicator {
    Command,
    Acl,
    Sco,
    Event,
    Iso,
}

/// The wire byte of each packet indicator.
pub open spec fn indicator_byte(p: PacketIndicator) -> u8 {
    match p {
        PacketIndicator::Command => 0x01,
        PacketIndicator::Acl => 0x02,
        PacketIndicator::Sco => 0x03,
        PacketIndicator::Event => 0x04,
        PacketIndicator::Iso => 0x05,
    }
}

impl PacketIndicator {
    pub fn from_u8(value: u8) -> (r: Option<Self>)
        ensures
            match r {
                Some(p) => indicator_byte(p) == value,
                None => !(1 <= value <= 5),
            },
    {
        match value {
            0x01 => Some(Self::Command),
            0x02 => Some(Self::Acl),
            0x03 => Some(Self::Sco),
            0x04 => Some(Self::Event),
            0x05 => Some(Self::Iso),
            _ => None,
        }
    }

    /// The wire byte of this indicator.
    pub fn to_u8(self) -> (r: u8)
        ensures
            r == indicator_byte(self),
    {
        match self {
            Self::Command => 0x01,
            Self::Acl => 0x02,
            Self::Sco => 0x03,
            Self::Event => 0x04,
            Self::Iso => 0x05,
        }
    }
}

#[derive(Clone, Debug, PartialEq, Eq, Structural)]
pub enum HciParseError {
    InsufficientData { expected: usize, actual: usize },
    InvalidPacketIndicator(u8),
    InvalidParameterLength { declared: usize, available: usize },
}

#[derive(Debug, PartialEq, Eq)]
pub struct HciCommand {
    pub opcode: u16,
    pub parameters: Vec<u8>,
}

impl Clone for HciCommand {
    fn clone(&self) -> (r: Self)
        ensures
            r.opcode == self.opcode,
            r.parameters@ == self.parameters@,
    {
        HciCommand {
            opcode: self.opcode,
            parameters: copy_range(self.parameters.as_slice(), 0, self.parameters.len()),
        }
    }
}

/// The parameter-length byte that a command header carries: the length,
/// or 0xFF when the parameters do not fit in one byte.
pub open spec fn param_len_byte(len: nat) -> u8 {
    if len <= 255 { len as u8 } else { 0xFF }
}

/// Wire format of a command: `[opcode_lo, opcode_hi, param_len, params...]`.
pub open spec fn command_wire(opcode: u16, params: Seq<u8>) -> Seq<u8> {
    seq![le_lo(opcode), le_hi(opcode), param_len_byte(params.len())] + params
}

/// What parsing a command from `d` yields: its opcode and parameters, or the error.
pub open spec fn spec_command_parse(d: Seq<u8>) -> Result<(u16, Seq<u8>), HciParseError> {
    if d.len() < 3 {
        Err(HciParseError::InsufficientData { expected: 3, actual: d.len() as usize })
    } else if d.len() < 3 + d[2] {
        Err(
            HciParseError::InvalidParameterLength {
                declared: d[2] as usize,
                available: (d.len() - 3) as usize,
            },
        )
    } else {
        Ok((le16(d[0], d[1]), d.subrange(3, 3 + d[2])))
    }
}

impl HciCommand {
    pub fn new(opcode: u16, parameters: Vec<u8>) -> (r: Self)
        ensures
            r.opcode == opcode,
            r.parameters@ == parameters@,
    {
        Self { opcode, parameters }
    }

    /// Build the wire format: `[opcode_lo, opcode_hi, param_length, params...]`
    pub fn to_bytes(&self) -> (r: Vec<u8>)
        ensures
            r@ == command_wire(self.opcode, self.parameters@),
    {
        let param_len: u8 = if self.parameters.len() <= 255 {
            self.parameters.len() as u8
        } else {
            0xFF
        };
        let mut buf: Vec<u8> = Vec::with_capacity(3);
        buf.push(low_byte(self.opcode));
        buf.push(high_byte(self.opcode));
        buf.push(param_len);
        append_bytes(&mut buf, self.parameters.as_slice());
        buf
    }

    /// Parse from wire format (without the packet indicator byte).
    pub fn from_bytes(data: &[u8]) -> (r: Result<Self, HciParseError>)
        ensures
            match (r, spec_command_parse(data@)) {
                (Ok(c), Ok((op, p))) => c.opcode == op && c.parameters@ == p,
                (Err(e), Err(e2)) => e == e2,
                _ => false,
            },
    {
        if data.len() < 3 {
            return Err(HciParseError::InsufficientData { expected: 3, actual: data.len() });
        }
        let opcode = u16_from_le(data[0], data[1]);
        let param_len = data[2] as usize;
        if data.len() < 3 + param_len {
            return Err(
                HciParseError::InvalidParameterLength {
                    declared: param_len,
                    available: data.len() - 3,
                },
            );
        }
        let parameters = copy_range(data, 3, 3 + param_len);
        Ok(Self { opcode, parameters })
    }

    /// Total wire length including 3-byte header.
    pub fn wire_length(&self) -> (r: usize)
        requires
            self.parameters@.len() + 3 <= usize::MAX,
        ensures
            r == 3 + self.parameters@.len(),
    {
        3 + self.parameters.len()
    }
}

/// A command whose parameters fit in one length byte reads back as itself.
pub proof fn lemma_command_roundtrip(opcode: u16, params: Seq<u8>)
    requires
        params.len() <= 255,
    ensures
        spec_command_parse(command_wire(opcode, params)) == Ok::<(u16, Seq<u8>), HciParseError>(
            (opcode, params),
        ),
{
    let w = command_wire(opcode, params);
    lemma_le16_roundtrip(opcode);
    assert(w.subrange(3, 3 + w[2]) =~= params);
}

#[derive(Debug, PartialEq, Eq)]
pub struct HciEvent {
    pub event_code: u8,
    pub parameters: Vec<u8>,
}

impl Clone for HciEvent {
    fn clone(&self) -> (r: Self)
        ensures
            r.event_code == self.event_code,
            r.parameters@ == self.parameters@,
    {
        HciEvent {
            event_code: self.event_code,
            parameters: copy_range(self.parameters.as_slice(), 0, self.parameters.len()),
        }
    }
}

/// What parsing an event from `d` yields: its code and parameters, or the error.
pub open spec fn spec_event_parse(d: Seq<u8>) -> Result<(u8, Seq<u8>), HciParseError> {
    if d.len() < 2 {
        Err(HciParseError::InsufficientData { expected: 2, actual: d.len() as usize })
    } else if d.len() < 2 + d[1] {
        Err(
            HciParseError::InvalidParameterLength {
                declared: d[1] as usize,
                available: (d.len() - 2) as usize,
            },
        )
    } else {
        Ok((d[0], d.subrange(2, 2 + d[1])))
    }
}

/// Wire format of an event: `[event_code, param_len, params...]`.
pub open spec fn event_wire(code: u8, params: Seq<u8>) -> Seq<u8> {
    seq![code, param_len_byte(params.len())] + params
}

/// The fields of a Command Complete event's parameters: number of packets,
/// opcode and the return parameters after the status byte.
pub open spec fn spec_cc_params(code: u8, p: Seq<u8>) -> Option<(u8, u16, Seq<u8>)> {
    if code != EVT_COMMAND_COMPLETE || p.len() < 4 {
        None
    } else {
        Some((p[0], le16(p[1], p[2]), p.subrange(4, p.len() as int)))
    }
}

/// The fields of a Command Status event's parameters: status, number of
/// packets and opcode.
pub open spec fn spec_cs_params(code: u8, p: Seq<u8>) -> Option<(u8, u8, u16)> {
    if code != EVT_COMMAND_STATUS || p.len() < 4 {
        None
    } else {
        Some((p[0], p[1], le16(p[2], p[3])))
    }
}

impl HciEvent {
    /// Parse from wire format (without the packet indicator byte).
    pub fn from_bytes(data: &[u8]) -> (r: Result<Self, HciParseError>)
        ensures
            match (r, spec_event_parse(data@)) {
                (Ok(e), Ok((code, p))) => e.event_code == code && e.parameters@ == p,
                (Err(e), Err(e2)) => e == e2,
                _ => false,
            },
    {
        if data.len() < 2 {
            return Err(HciParseError::InsufficientData { expected: 2, actual: data.len() });
        }
        let event_code = data[0];
        let param_len = data[1] as usize;
        if data.len() < 2 + param_len {
            return Err(
                HciParseError::InvalidParameterLength {
                    declared: param_len,
                    available: data.len() - 2,
                },
            );
        }
        let parameters = copy_range(data, 2, 2 + param_len);
        Ok(Self { event_code, parameters })
    }

    /// Total wire length including 2-byte header.
    pub fn wire_length(&self) -> (r: usize)
        requires
            self.parameters@.len() + 2 <= usize::MAX,
        ensures
            r == 2 + self.parameters@.len(),
    {
        2 + self.parameters.len()
    }

    /// Check if this is a Command Complete event.
    pub fn is_command_complete(&self) -> (r: bool)
        ensures
            r == (self.event_code == EVT_COMMAND_COMPLETE),
    {
        self.event_code == EVT_COMMAND_COMPLETE
    }

    /// Check if this is a Command Status event.
    pub fn is_command_status(&self) -> (r: bool)
        ensures
            r == (self.event_code == EVT_COMMAND_STATUS),
    {
        self.event_code == EVT_COMMAND_STATUS
    }

    /// Check if this is an LE Meta event.
    pub fn is_le_meta(&self) -> (r: bool)
        ensures
            r == (self.event_code == EVT_LE_META),
    {
        self.event_code == EVT_LE_META
    }

    /// Extract return parameters from Command Complete event.
    ///
    /// CC format: `[num_hci_command_packets, opcode_lo, opcode_hi, status, return_params...]`
    pub fn command_complete_params(&self) -> (r: Option<(u8, u16, &[u8])>)
        ensures
            match (r, spec_cc_params(self.event_code, self.parameters@)) {
                (Some((n, op, rp)), Some((n2, op2, rp2))) => n == n2 && op == op2 && rp@ == rp2,
                (None, None) => true,
                _ => false,
            },
    {
        if !self.is_command_complete() {
            return None;
        }
        if self.parameters.len() < 4 {
            return None;
        }
        let num_packets = self.parameters[0];
        let opcode = u16_from_le(self.parameters[1], self.parameters[2]);
        let return_params = vstd::slice::slice_subrange(
            self.parameters.as_slice(),
            4,
            self.parameters.len(),
        );
        Some((num_packets, opcode, return_params))
    }

    /// Extract fields from Command Status event.
    ///
    /// CS format: `[status, num_hci_command_packets, opcode_lo, opcode_hi]`
    pub fn command_status_params(&self) -> (r: Option<(u8, u8, u16)>)
        ensures
            r == spec_cs_params(self.event_code, self.parameters@),
    {
        if !self.is_command_status() {
            return None;
        }
        if self.parameters.len() < 4 {
            return None;
        }
        let status = self.parameters[0];
        let num_packets = self.parameters[1];
        let opcode = u16_from_le(self.parameters[2], self.parameters[3]);
        Some((status, num_packets, opcode))
    }
}

/// An event whose parameters fit in one length byte reads back as itself.
pub proof fn lemma_event_roundtrip(code: u8, params: Seq<u8>)
    requires
        params.len() <= 255,
    ensures
        spec_event_parse(event_wire(code, params)) == Ok::<(u8, Seq<u8>), HciParseError>(
            (code, params),
        ),
{
    let w = event_wire(code, params);
    assert(w.subrange(2, 2 + w[1]) =~= params);
}

#[derive(Debug, PartialEq, Eq)]
pub struct HciAcl {
    pub handle: u16,
    pub pb_flag: u8,
    pub bc_flag: u8,
    pub data: Vec<u8>,
}

impl Clone for HciAcl {
    fn clone(&self) -> (r: Self)
        ensures
            r.handle == self.handle,
            r.pb_flag == self.pb_flag,
            r.bc_flag == self.bc_flag,
            r.data@ == self.data@,
    {
        HciAcl {
            handle: self.handle,
            pb_flag: self.pb_flag,
            bc_flag: self.bc_flag,
            data: copy_range(self.data.as_slice(), 0, self.data.len()),
        }
    }
}

/// The first header word of an ACL packet: 12-bit handle, packet-boundary
/// flag in bits 12-13 and broadcast flag in bits 14-15.
pub open spec fn acl_handle_word(handle: u16, pb: u8, bc: u8) -> u16 {
    (handle & 0x0FFF) | (((pb as u16) & 0x03) << 12u16) | (((bc as u16) & 0x03) << 14u16)
}

/// Wire format of an ACL packet: `[word_lo, word_hi, len_lo, len_hi, data...]`;
/// the length is taken modulo 2^16.
pub open spec fn acl_wire(handle: u16, pb: u8, bc: u8, data: Seq<u8>) -> Seq<u8> {
    let w = acl_handle_word(handle, pb, bc);
    let n = (data.len() % 65536) as u16;
    seq![le_lo(w), le_hi(w), le_lo(n), le_hi(n)] + data
}

/// What parsing an ACL packet from `d` yields: handle, flags and data, or the error.
pub open spec fn spec_acl_parse(d: Seq<u8>) -> Result<(u16, u8, u8, Seq<u8>), HciParseError> {
    if d.len() < 4 {
        Err(HciParseError::InsufficientData { expected: 4, actual: d.len() as usize })
    } else {
        let w = le16(d[0], d[1]);
        let n = le16(d[2], d[3]);
        if d.len() < 4 + n {
            Err(
                HciParseError::InvalidParameterLength {
                    declared: n as usize,
                    available: (d.len() - 4) as usize,
                },
            )
        } else {
            Ok(
                (
                    w & 0x0FFF,
                    ((w >> 12u16) & 0x03) as u8,
                    ((w >> 14u16) & 0x03) as u8,
                    d.subrange(4, 4 + n),
                ),
            )
        }
    }
}

proof fn lemma_acl_word_fields(handle: u16, pb: u8, bc: u8)
    requires
        handle <= 0x0FFF,
        pb <= 3,
        bc <= 3,
    ensures
        acl_handle_word(handle, pb, bc) & 0x0FFF == handle,
        ((acl_handle_word(handle, pb, bc) >> 12u16) & 0x03) as u8 == pb,
        ((acl_handle_word(handle, pb, bc) >> 14u16) & 0x03) as u8 == bc,
{
    let w = acl_handle_word(handle, pb, bc);
    let p = pb as u16;
    let b = bc as u16;
    assert(w == (handle & 0x0FFF) | ((p & 0x03) << 12u16) | ((b & 0x03) << 14u16));
    assert(((handle & 0x0FFF) | ((p & 0x03) << 12u16) | ((b & 0x03) << 14u16)) & 0x0FFF == handle)
        by (bit_vector)
        requires
            handle <= 0x0FFF,
    ;
    assert(((((handle & 0x0FFF) | ((p & 0x03) << 12u16) | ((b & 0x03) << 14u16)) >> 12u16) & 0x03)
        == p) by (bit_vector)
        requires
            p <= 3,
    ;
    assert(((((handle & 0x0FFF) | ((p & 0x03) << 12u16) | ((b & 0x03) << 14u16)) >> 14u16) & 0x03)
        == b) by (bit_vector)
        requires
            b <= 3,
    ;
}

/// An ACL packet whose fields are in range and whose data fits the 16-bit
/// length reads back as itself.
pub proof fn lemma_acl_roundtrip(handle: u16, pb: u8, bc: u8, data: Seq<u8>)
    requires
        handle <= 0x0FFF,
        pb <= 3,
        bc <= 3,
        data.len() <= 0xFFFF,
    ensures
        spec_acl_parse(acl_wire(handle, pb, bc, data)) == Ok::<
            (u16, u8, u8, Seq<u8>),
            HciParseError,
        >((handle, pb, bc, data)),
{
    let w = acl_handle_word(handle, pb, bc);
    let n = (data.len() % 65536) as u16;
    let d = acl_wire(handle, pb, bc, data);
    lemma_le16_roundtrip(w);
    lemma_le16_roundtrip(n);
    lemma_acl_word_fields(handle, pb, bc);
    assert(d.subrange(4, 4 + n) =~= data);
}

impl HciAcl {
    pub fn new(handle: u16, pb_flag: u8, bc_flag: u8, data: Vec<u8>) -> (r: Self)
        ensures
            r.handle == handle,
            r.pb_flag == pb_flag,
            r.bc_flag == bc_flag,
            r.data@ == data@,
    {
        Self { handle, pb_flag, bc_flag, data }
    }

    /// Build wire format: `[handle_lo (with PB|BC), handle_hi, length_lo, length_hi, data...]`
    pub fn to_bytes(&self) -> (r: Vec<u8>)
        ensures
            r@ == acl_wire(self.handle, self.pb_flag, self.bc_flag, self.data@),
    {
        let handle_word: u16 = (self.handle & 0x0FFF) | (((self.pb_flag as u16) & 0x03) << 12u16)
            | (((self.bc_flag as u16) & 0x03) << 14u16);
        let data_len: u16 = (self.data.len() % 65536) as u16;
        let mut buf: Vec<u8> = Vec::with_capacity(4);
        push_u16_le(&mut buf, handle_word);
        push_u16_le(&mut buf, data_len);
        append_bytes(&mut buf, self.data.as_slice());
        buf
    }

    /// Parse from wire format (without the packet indicator byte).
    pub fn from_bytes(data: &[u8]) -> (r: Result<Self, HciParseError>)
        ensures
            match (r, spec_acl_parse(data@)) {
                (Ok(a), Ok((h, pb, bc, d))) => a.handle == h && a.pb_flag == pb && a.bc_flag == bc
                    && a.data@ == d,
                (Err(e), Err(e2)) => e == e2,
                _ => false,
            },
    {
        if data.len() < 4 {
            return Err(HciParseError::InsufficientData { expected: 4, actual: data.len() });
        }
        let handle_word = u16_from_le(data[0], data[1]);
        let data_len = u16_from_le(data[2], data[3]) as usize;
        if data.len() < 4 + data_len {
            return Err(
                HciParseError::InvalidParameterLength {
                    declared: data_len,
                    available: data.len() - 4,
                },
            );
        }
        let handle = handle_word & 0x0FFF;
        let pb_flag = ((handle_word >> 12u16) & 0x03) as u8;
        let bc_flag = ((handle_word >> 14u16) & 0x03) as u8;
        let payload = copy_range(data, 4, 4 + data_len);
        Ok(Self { handle, pb_flag, bc_flag, data: payload })
    }
}

#[derive(Clone, Debug, PartialEq, Eq)]
pub enum HciPacketData {
    Command(HciCommand),
    Event(HciEvent),
    Acl(HciAcl),
    Sco(Vec<u8>),
    Iso(Vec<u8>),
}

/// Build a complete USB HCI command packet with packet indicator.
///
/// Result: `[0x01, opcode_lo, opcode_hi, param_len, params...]`
pub fn build_usb_command(opcode: u16, parameters: Vec<u8>) -> (r: Vec<u8>)
    ensures
        r@ == seq![0x01u8] + command_wire(opcode, parameters@),
{
    let cmd = HciCommand::new(opcode, parameters);
    let mut buf: Vec<u8> = Vec::new();
    buf.push(PacketIndicator::Command.to_u8());
    let bytes = cmd.to_bytes();
    append_bytes(&mut buf, bytes.as_slice());
    buf
}

/// Whether `data` parsed as a USB HCI packet gives `(indicator, packet)`:
/// the indicator from the first byte, the payload parsed by its kind.
pub open spec fn usb_packet_matches(data: Seq<u8>, ind: PacketIndicator, pkt: HciPacketData) -> bool {
    let payload = data.subrange(1, data.len() as int);
    &&& data.len() >= 1
    &&& indicator_byte(ind) == data[0]
    &&& match pkt {
        HciPacketData::Command(c) => ind == PacketIndicator::Command && spec_command_parse(payload)
            == Ok::<(u16, Seq<u8>), HciParseError>((c.opcode, c.parameters@)),
        HciPacketData::Event(e) => ind == PacketIndicator::Event && spec_event_parse(payload)
            == Ok::<(u8, Seq<u8>), HciParseError>((e.event_code, e.parameters@)),
        HciPacketData::Acl(a) => ind == PacketIndicator::Acl && spec_acl_parse(payload) == Ok::<
            (u16, u8, u8, Seq<u8>),
            HciParseError,
        >((a.handle, a.pb_flag, a.bc_flag, a.data@)),
        HciPacketData::Sco(v) => ind == PacketIndicator::Sco && v@ == payload,
        HciPacketData::Iso(v) => ind == PacketIndicator::Iso && v@ == payload,
    }
}

/// The error, if any, that parsing `data` as a USB HCI packet gives.
pub open spec fn usb_packet_error(data: Seq<u8>) -> Option<HciParseError> {
    let payload = data.subrange(1, data.len() as int);
    if data.len() == 0 {
        Some(HciParseError::InsufficientData { expected: 1, actual: 0 })
    } else if !(1 <= data[0] <= 5) {
        Some(HciParseError::InvalidPacketIndicator(data[0]))
    } else if data[0] == 0x01 {
        match spec_command_parse(payload) {
            Err(e) => Some(e),
            Ok(_) => None,
        }
    } else if data[0] == 0x04 {
        match spec_event_parse(payload) {
            Err(e) => Some(e),
            Ok(_) => None,
        }
    } else if data[0] == 0x02 {
        match spec_acl_parse(payload) {
            Err(e) => Some(e),
            Ok(_) => None,
        }
    } else {
        None
    }
}

/// Parse any HCI packet from USB transport data.
///
/// Returns the packet indicator and the parsed payload data.
pub fn parse_usb_hci_packet(data: &[u8]) -> (r: Result<(PacketIndicator, HciPacketData), HciParseError>)
    ensures
        match r {
            Ok((ind, pkt)) => usb_packet_error(data@).is_none() && usb_packet_matches(
                data@,
                ind,
                pkt,
            ),
            Err(e) => usb_packet_error(data@) == Some(e),
        },
{
    if data.len() == 0 {
        return Err(HciParseError::InsufficientData { expected: 1, actual: 0 });
    }
    let indicator = match PacketIndicator::from_u8(data[0]) {
        Some(i) => i,
        None => return Err(HciParseError::InvalidPacketIndicator(data[0])),
    };
    let payload = vstd::slice::slice_subrange(data, 1, data.len());
    assert(payload@.subrange(0, payload@.len() as int) =~= payload@);
    let packet_data = match indicator {
        PacketIndicator::Command => match HciCommand::from_bytes(payload) {
            Ok(c) => HciPacketData::Command(c),
            Err(e) => return Err(e),
        },
        PacketIndicator::Event => match HciEvent::from_bytes(payload) {
            Ok(ev) => HciPacketData::Event(ev),
            Err(e) => return Err(e),
        },
        PacketIndicator::Acl => match HciAcl::from_bytes(payload) {
            Ok(a) => HciPacketData::Acl(a),
            Err(e) => return Err(e),
        },
        PacketIndicator::Sco => HciPacketData::Sco(copy_range(payload, 0, payload.len())),
        PacketIndicator::Iso => HciPacketData::Iso(copy_range(payload, 0, payload.len())),
    };
    Ok((indicator, packet_data))
}

/// HCI Reset command (opcode 0x0C03, no parameters).
pub fn cmd_reset() -> (r: HciCommand)
    ensures
        r.opcode == OP_RESET,
        r.parameters@ == Seq::<u8>::empty(),
{
    HciCommand::new(OP_RESET, Vec::new())
}

/// HCI Read BD_ADDR command (opcode 0x1009, no parameters).
pub fn cmd_read_bd_addr() -> (r: HciCommand)
    ensures
        r.opcode == OP_READ_BD_ADDR,
        r.parameters@ == Seq::<u8>::empty(),
{
    HciCommand::new(OP_READ_BD_ADDR, Vec::new())
}

/// HCI Read Local Version Information (opcode 0x1001, no parameters).
pub fn cmd_read_local_version() -> (r: HciCommand)
    ensures
        r.opcode == OP_READ_LOCAL_VERSION,
        r.parameters@ == Seq::<u8>::empty(),
{
    HciCommand::new(OP_READ_LOCAL_VERSION, Vec::new())
}

/// HCI Read Local Supported Commands (opcode 0x1002, no parameters).
pub fn cmd_read_local_supported_commands() -> (r: HciCommand)
    ensures
        r.opcode == OP_READ_LOCAL_SUPPORTED_COMMANDS,
        r.parameters@ == Seq::<u8>::empty(),
{
    HciCommand::new(OP_READ_LOCAL_SUPPORTED_COMMANDS, Vec::new())
}

/// HCI Set Event Mask (opcode 0x0C01); `mask` is the 8-byte event mask.
pub fn cmd_set_event_mask(mask: [u8; 8]) -> (r: HciCommand)
    ensures
        r.opcode == OP_SET_EVENT_MASK,
        r.parameters@ == mask@,
{
    let mut params: Vec<u8> = Vec::new();
    append_bytes(&mut params, mask.as_slice());
    HciCommand::new(OP_SET_EVENT_MASK, params)
}

/// HCI LE Set Event Mask (opcode 0x2001); `mask` is the 8-byte LE event mask.
pub fn cmd_le_set_event_mask(mask: [u8; 8]) -> (r: HciCommand)
    ensures
        r.opcode == OP_LE_SET_EVENT_MASK,
        r.parameters@ == mask@,
{
    let mut params: Vec<u8> = Vec::new();
    append_bytes(&mut params, mask.as_slice());
    HciCommand::new(OP_LE_SET_EVENT_MASK, params)
}

/// HCI LE Read Buffer Size (opcode 0x2002, no parameters).
pub fn cmd_le_read_buffer_size() -> (r: HciCommand)
    ensures
        r.opcode == OP_LE_READ_BUFFER_SIZE,
        r.parameters@ == Seq::<u8>::empty(),
{
    HciCommand::new(OP_LE_READ_BUFFER_SIZE, Vec::new())
}

/// HCI LE Set Scan Parameters (opcode 0x200B).
pub fn cmd_le_set_scan_parameters(
    scan_type: u8,
    interval: u16,
    window: u16,
    own_address_type: u8,
    filter_policy: u8,
) -> (r: HciCommand)
    ensures
        r.opcode == OP_LE_SET_SCAN_PARAMETERS,
        r.parameters@ == seq![scan_type] + le16_bytes(interval) + le16_bytes(window) + seq![
            own_address_type,
            filter_policy,
        ],
{
    let mut params: Vec<u8> = Vec::with_capacity(7);
    params.push(scan_type);
    push_u16_le(&mut params, interval);
    push_u16_le(&mut params, window);
    params.push(own_address_type);
    params.push(filter_policy);
    assert(params@ =~= seq![scan_type] + le16_bytes(interval) + le16_bytes(window) + seq![
        own_address_type,
        filter_policy,
    ]);
    HciCommand::new(OP_LE_SET_SCAN_PARAMETERS, params)
}

/// HCI LE Set Scan Enable (opcode 0x200C).
pub fn cmd_le_set_scan_enable(enable: u8, filter_duplicates: u8) -> (r: HciCommand)
    ensures
        r.opcode == OP_LE_SET_SCAN_ENABLE,
        r.parameters@ == seq![enable, filter_duplicates],
{
    let mut params: Vec<u8> = Vec::new();
    params.push(enable);
    params.push(filter_duplicates);
    assert(params@ =~= seq![enable, filter_duplicates]);
    HciCommand::new(OP_LE_SET_SCAN_ENABLE, params)
}

/// The 25 parameter bytes of an LE Create Connection command.
pub open spec fn le_create_connection_params(
    scan_interval: u16,
    scan_window: u16,
    initiator_filter_policy: u8,
    peer_address_type: u8,
    peer_address: Seq<u8>,
    own_address_type: u8,
    conn_interval_min: u16,
    conn_interval_max: u16,
    conn_latency: u16,
    supervision_timeout: u16,
    min_ce_length: u16,
    max_ce_length: u16,
) -> Seq<u8> {
    le16_bytes(scan_interval) + le16_bytes(scan_window) + seq![
        initiator_filter_policy,
        peer_address_type,
    ] + peer_address + seq![own_address_type] + le16_bytes(conn_interval_min) + le16_bytes(
        conn_interval_max,
    ) + le16_bytes(conn_latency) + le16_bytes(supervision_timeout) + le16_bytes(min_ce_length)
        + le16_bytes(max_ce_length)
}

/// HCI LE Create Connection (opcode 0x200D).
pub fn cmd_le_create_connection(
    scan_interval: u16,
    scan_window: u16,
    initiator_filter_policy: u8,
    peer_address_type: u8,
    peer_address: &[u8; 6],
    own_address_type: u8,
    conn_interval_min: u16,
    conn_interval_max: u16,
    conn_latency: u16,
    supervision_timeout: u16,
    min_ce_length: u16,
    max_ce_length: u16,
) -> (r: HciCommand)
    ensures
        r.opcode == OP_LE_CREATE_CONNECTION,
        r.parameters@ == le_create_connection_params(
            scan_interval,
            scan_window,
            initiator_filter_policy,
            peer_address_type,
            peer_address@,
            own_address_type,
            conn_interval_min,
            conn_interval_max,
            conn_latency,
            supervision_timeout,
            min_ce_length,
            max_ce_length,
        ),
        r.parameters@.len() == 25,
{
    let mut params: Vec<u8> = Vec::with_capacity(25);
    push_u16_le(&mut params, scan_interval);
    push_u16_le(&mut params, scan_window);
    params.push(initiator_filter_policy);
    params.push(peer_address_type);
    append_bytes(&mut params, peer_address.as_slice());
    params.push(own_address_type);
    push_u16_le(&mut params, conn_interval_min);
    push_u16_le(&mut params, conn_interval_max);
    push_u16_le(&mut params, conn_latency);
    push_u16_le(&mut params, supervision_timeout);
    push_u16_le(&mut params, min_ce_length);
    push_u16_le(&mut params, max_ce_length);
    assert(params@ =~= le_create_connection_params(
        scan_interval,
        scan_window,
        initiator_filter_policy,
        peer_address_type,
        peer_address@,
        own_address_type,
        conn_interval_min,
        conn_interval_max,
        conn_latency,
        supervision_timeout,
        min_ce_length,
        max_ce_length,
    ));
    HciCommand::new(OP_LE_CREATE_CONNECTION, params)
}

/// HCI LE Create Connection Cancel (opcode 0x200E, no parameters).
pub fn cmd_le_create_connection_cancel() -> (r: HciCommand)
    ensures
        r.opcode == OP_LE_CREATE_CONNECTION_CANCEL,
        r.parameters@ == Seq::<u8>::empty(),
{
    HciCommand::new(OP_LE_CREATE_CONNECTION_CANCEL, Vec::new())
}

/// HCI Disconnect (opcode 0x0406): connection handle and reason code.
pub fn cmd_disconnect(connection_handle: u16, reason: u8) -> (r: HciCommand)
    ensures
        r.opcode == OP_DISCONNECT,
        r.parameters@ == le16_bytes(connection_handle) + seq![reason],
{
    let mut params: Vec<u8> = Vec::with_capacity(3);
    push_u16_le(&mut params, connection_handle);
    params.push(reason);
    assert(params@ =~= le16_bytes(connection_handle) + seq![reason]);
    HciCommand::new(OP_DISCONNECT, params)
}

/// Result of HCI Read BD_ADDR Command Complete.
#[derive(Clone, Debug, PartialEq, Eq)]
pub struct BdAddrResult {
    pub status: u8,
    pub address: [u8; 6],
}

/// Result of HCI Read Local Version Command Complete.
#[derive(Clone, Debug, PartialEq, Eq)]
pub struct LocalVersionResult {
    pub status: u8,
    pub hci_version: u8,
    pub hci_revision: u16,
    pub lmp_version: u8,
    pub manufacturer_name: u16,
    pub lmp_subversion: u16,
}

/// Parsed LE Advertising Report entry.
#[derive(Clone, Debug, PartialEq, Eq)]
pub struct LeAdvertisingReport {
    /// 0 = ADV_IND, 1 = ADV_DIRECT_IND, 2 = ADV_SCAN_IND, 3 = SCAN_RSP, 4 = ADV_NONCONN_IND
    pub event_type: u8,
    /// 0 = public, 1 = random
    pub address_type: u8,
    pub address: [u8; 6],
    pub data: Vec<u8>,
    pub rssi: i8,
}

/// Parsed LE Connection Complete event.
#[derive(Clone, Debug, PartialEq, Eq)]
pub struct LeConnectionComplete {
    pub status: u8,
    pub connection_handle: u16,
    pub role: u8,
    pub peer_address_type: u8,
    pub peer_address: [u8; 6],
    pub conn_interval: u16,
    pub conn_latency: u16,
    pub supervision_timeout: u16,
    pub master_clock_accuracy: u8,
}

/// Result of HCI LE Read Buffer Size Command Complete.
#[derive(Clone, Debug, PartialEq, Eq)]
pub struct LeBufferSizeResult {
    pub status: u8,
    pub le_acl_data_packet_length: u16,
    pub total_num_le_acl_data_packets: u8,
}

fn six_bytes(s: &[u8], at: usize) -> (r: [u8; 6])
    requires
        at + 6 <= s@.len(),
    ensures
        r@ == s@.subrange(at as int, at + 6),
{
    let r = [s[at], s[at + 1], s[at + 2], s[at + 3], s[at + 4], s[at + 5]];
    assert(r@ =~= s@.subrange(at as int, at + 6));
    r
}

/// Parse Read BD_ADDR from Command Complete event return parameters.
///
/// `None` unless the event is a Command Complete for `OP_READ_BD_ADDR` with
/// at least six bytes after the status.
pub fn parse_read_bd_addr(event: &HciEvent) -> (r: Option<BdAddrResult>)
    ensures
        match spec_cc_params(event.event_code, event.parameters@) {
            Some((_, op, rp)) if op == OP_READ_BD_ADDR && rp.len() >= 6 => r matches Some(res)
                && res.status == event.parameters@[3] && res.address@ == rp.subrange(0, 6),
            _ => r is None,
        },
{
    let (_num_packets, opcode, return_params) = match event.command_complete_params() {
        Some(t) => t,
        None => return None,
    };
    if opcode != OP_READ_BD_ADDR {
        return None;
    }
    if return_params.len() < 6 {
        return None;
    }
    let address = six_bytes(return_params, 0);
    Some(BdAddrResult { status: event.parameters[3], address })
}

/// Parse Read Local Version from Command Complete event return parameters.
pub fn parse_local_version(event: &HciEvent) -> (r: Option<LocalVersionResult>)
    ensures
        match spec_cc_params(event.event_code, event.parameters@) {
            Some((_, op, rp)) if op == OP_READ_LOCAL_VERSION && rp.len() >= 8 => r matches Some(
                res,
            ) && res.status == event.parameters@[3] && res.hci_version == rp[0]
                && res.hci_revision == le16(rp[1], rp[2]) && res.lmp_version == rp[3]
                && res.manufacturer_name == le16(rp[4], rp[5]) && res.lmp_subversion == le16(
                rp[6],
                rp[7],
            ),
            _ => r is None,
        },
{
    let (_num_packets, opcode, rp) = match event.command_complete_params() {
        Some(t) => t,
        None => return None,
    };
    if opcode != OP_READ_LOCAL_VERSION {
        return None;
    }
    if rp.len() < 8 {
        return None;
    }
    Some(
        LocalVersionResult {
            status: event.parameters[3],
            hci_version: rp[0],
            hci_revision: u16_from_le(rp[1], rp[2]),
            lmp_version: rp[3],
            manufacturer_name: u16_from_le(rp[4], rp[5]),
            lmp_subversion: u16_from_le(rp[6], rp[7]),
        },
    )
}

/// An advertising report starting at offset `o` of `p` is complete: its
/// nine header bytes, its data and its RSSI byte all lie inside `p`.
pub open spec fn adv_report_fits(p: Seq<u8>, o: int) -> bool {
    o + 9 <= p.len() && o + 10 + p[o + 8] <= p.len()
}

/// The offsets of the reports that parsing reads, starting at `o`, with at
/// most `n` reports, stopping at the first one that does not fit.
pub open spec fn adv_report_offsets(p: Seq<u8>, o: int, n: nat) -> Seq<int>
    decreases n,
{
    if n == 0 || !adv_report_fits(p, o) {
        Seq::empty()
    } else {
        seq![o] + adv_report_offsets(p, o + 10 + p[o + 8], (n - 1) as nat)
    }
}

/// The report `r` is the one encoded at offset `o` of `p`.
pub open spec fn adv_report_at(r: LeAdvertisingReport, p: Seq<u8>, o: int) -> bool {
    &&& r.event_type == p[o]
    &&& r.address_type == p[o + 1]
    &&& r.address@ == p.subrange(o + 2, o + 8)
    &&& r.data@ == p.subrange(o + 9, o + 9 + p[o + 8])
    &&& r.rssi == p[o + 9 + p[o + 8]] as i8
}

/// Parse LE Advertising Report from LE Meta event.
///
/// `None` if the event is not LE Meta or the subevent is not
/// `LE_ADVERTISING_REPORT`; otherwise the reports in order, up to the
/// declared count or the first one that is cut short.
pub fn parse_le_advertising_reports(event: &HciEvent) -> (r: Option<Vec<LeAdvertisingReport>>)
    ensures
        match r {
            None => !(event.event_code == EVT_LE_META && event.parameters@.len() >= 2
                && event.parameters@[0] == LE_ADVERTISING_REPORT),
            Some(reports) => {
                let p = event.parameters@;
                let offs = adv_report_offsets(p, 2, p[1] as nat);
                &&& event.event_code == EVT_LE_META
                &&& p.len() >= 2
                &&& p[0] == LE_ADVERTISING_REPORT
                &&& reports@.len() == offs.len()
                &&& forall|i: int|
                    0 <= i < offs.len() ==> #[trigger] adv_report_at(reports@[i], p, offs[i])
            },
        },
{
    if !event.is_le_meta() {
        return None;
    }
    if event.parameters.len() == 0 || event.parameters[0] != LE_ADVERTISING_REPORT {
        return None;
    }
    if event.parameters.len() < 2 {
        return None;
    }
    let ghost p = event.parameters@;
    let num_reports = event.parameters[1] as usize;
    let mut reports: Vec<LeAdvertisingReport> = Vec::new();
    let mut offset: usize = 2;
    let mut k: usize = 0;
    let ghost mut done: Seq<int> = Seq::empty();
    while k < num_reports
        invariant
            p == event.parameters@,
            2 <= offset <= p.len(),
            k <= num_reports,
            num_reports == p[1],
            adv_report_offsets(p, 2, num_reports as nat) == done + adv_report_offsets(
                p,
                offset as int,
                (num_reports - k) as nat,
            ),
            reports@.len() == done.len(),
            forall|i: int| 0 <= i < done.len() ==> #[trigger] adv_report_at(reports@[i], p, done[i]),
        ensures
            adv_report_offsets(p, offset as int, (num_reports - k) as nat) =~= Seq::<int>::empty(),
        decreases num_reports - k,
    {
        if event.parameters.len() - offset < 9 {
            assert(adv_report_offsets(p, offset as int, (num_reports - k) as nat)
                =~= Seq::<int>::empty());
            break;
        }
        let event_type = event.parameters[offset];
        let address_type = event.parameters[offset + 1];
        let address = six_bytes(event.parameters.as_slice(), offset + 2);
        let data_len = event.parameters[offset + 8] as usize;
        if event.parameters.len() - offset - 9 < data_len + 1 {
            assert(adv_report_offsets(p, offset as int, (num_reports - k) as nat)
                =~= Seq::<int>::empty());
            break;
        }
        let data = copy_range(event.parameters.as_slice(), offset + 9, offset + 9 + data_len);
        let rssi = #[verifier::truncate] (event.parameters[offset + 9 + data_len] as i8);
        let report = LeAdvertisingReport { event_type, address_type, address, data, rssi };
        proof {
            assert(adv_report_at(report, p, offset as int));
            done = done.push(offset as int);
            assert(adv_report_offsets(p, offset as int, (num_reports - k) as nat) == seq![
                offset as int,
            ] + adv_report_offsets(p, offset + 10 + data_len, (num_reports - k - 1) as nat));
        }
        reports.push(report);
        offset = offset + 10 + data_len;
        k = k + 1;
    }
    proof {
        assert(adv_report_offsets(p, 2, num_reports as nat) =~= done);
    }
    Some(reports)
}

/// Parse LE Connection Complete from LE Meta event.
pub fn parse_le_connection_complete(event: &HciEvent) -> (r: Option<LeConnectionComplete>)
    ensures
        ({
            let p = event.parameters@;
            if event.event_code == EVT_LE_META && p.len() >= 19 && p[0] == LE_CONNECTION_COMPLETE {
                r matches Some(c) && c.status == p[1] && c.connection_handle == le16(p[2], p[3])
                    && c.role == p[4] && c.peer_address_type == p[5] && c.peer_address@
                    == p.subrange(6, 12) && c.conn_interval == le16(p[12], p[13])
                    && c.conn_latency == le16(p[14], p[15]) && c.supervision_timeout == le16(
                    p[16],
                    p[17],
                ) && c.master_clock_accuracy == p[18]
            } else {
                r is None
            }
        }),
{
    if !event.is_le_meta() {
        return None;
    }
    if event.parameters.len() == 0 || event.parameters[0] != LE_CONNECTION_COMPLETE {
        return None;
    }
    if event.parameters.len() < 19 {
        return None;
    }
    let p = event.parameters.as_slice();
    let address = six_bytes(p, 6);
    Some(
        LeConnectionComplete {
            status: p[1],
            connection_handle: u16_from_le(p[2], p[3]),
            role: p[4],
            peer_address_type: p[5],
            peer_address: address,
            conn_interval: u16_from_le(p[12], p[13]),
            conn_latency: u16_from_le(p[14], p[15]),
            supervision_timeout: u16_from_le(p[16], p[17]),
            master_clock_accuracy: p[18],
        },
    )
}

/// Parse LE Read Buffer Size from Command Complete event.
pub fn parse_le_buffer_size(event: &HciEvent) -> (r: Option<LeBufferSizeResult>)
    ensures
        match spec_cc_params(event.event_code, event.parameters@) {
            Some((_, op, rp)) if op == OP_LE_READ_BUFFER_SIZE && rp.len() >= 2 => r matches Some(
                res,
            ) && res.status == event.parameters@[3] && res.le_acl_data_packet_length == le16(
                rp[0],
                rp[1],
            ) && res.total_num_le_acl_data_packets == (if rp.len() >= 3 {
                rp[2]
            } else {
                0u8
            }),
            _ => r is None,
        },
{
    let (_num_packets, opcode, rp) = match event.command_complete_params() {
        Some(t) => t,
        None => return None,
    };
    if opcode != OP_LE_READ_BUFFER_SIZE {
        return None;
    }
    if rp.len() < 2 {
        return None;
    }
    let total: u8 = if rp.len() >= 3 {
        rp[2]
    } else {
        0
    };
    Some(
        LeBufferSizeResult {
            status: event.parameters[3],
            le_acl_data_packet_length: u16_from_le(rp[0], rp[1]),
            total_num_le_acl_data_packets: total,
        },
    )
}

// ATT opcodes
pub const ATT_ERROR_RSP: u8 = 0x01;
pub const ATT_EXCHANGE_MTU_REQ: u8 = 0x02;
pub const ATT_EXCHANGE_MTU_RSP: u8 = 0x03;
pub const ATT_FIND_INFORMATION_REQ: u8 = 0x04;
pub const ATT_FIND_INFORMATION_RSP: u8 = 0x05;
pub const ATT_FIND_BY_TYPE_VALUE_REQ: u8 = 0x06;
pub const ATT_FIND_BY_TYPE_VALUE_RSP: u8 = 0x07;
pub const ATT_READ_BY_TYPE_REQ: u8 = 0x08;
pub const ATT_READ_BY_TYPE_RSP: u8 = 0x09;
pub const ATT_READ_REQ: u8 = 0x0A;
pub const ATT_READ_RSP: u8 = 0x0B;
pub const ATT_READ_BLOB_REQ: u8 = 0x0C;
pub const ATT_READ_BLOB_RSP: u8 = 0x0D;
pub const ATT_READ_MULTIPLE_REQ: u8 = 0x0E;
pub const ATT_READ_MULTIPLE_RSP: u8 = 0x0F;
pub const ATT_READ_BY_GROUP_TYPE_REQ: u8 = 0x10;
pub const ATT_READ_BY_GROUP_TYPE_RSP: u8 = 0x11;
pub const ATT_WRITE_REQ: u8 = 0x12;
pub const ATT_WRITE_RSP: u8 = 0x13;
pub const ATT_WRITE_CMD: u8 = 0x52;
pub const ATT_SIGNED_WRITE_CMD: u8 = 0xD2;
pub const ATT_PREPARE_WRITE_REQ: u8 = 0x16;
pub const ATT_PREPARE_WRITE_RSP: u8 = 0x17;
pub const ATT_EXECUTE_WRITE_REQ: u8 = 0x18;
pub const ATT_EXECUTE_WRITE_RSP: u8 = 0x19;
pub const ATT_HANDLE_VALUE_NTF: u8 = 0x1B;
pub const ATT_HANDLE_VALUE_IND: u8 = 0x1D;
pub const ATT_HANDLE_VALUE_CFM: u8 = 0x1E;

// ATT error codes
pub const ATT_ERR_INVALID_HANDLE: u8 = 0x01;
pub const ATT_ERR_READ_NOT_PERMITTED: u8 = 0x02;
pub const ATT_ERR_WRITE_NOT_PERMITTED: u8 = 0x03;
pub const ATT_ERR_INVALID_PDU: u8 = 0x04;
pub const ATT_ERR_REQUEST_NOT_SUPPORTED: u8 = 0x06;
pub const ATT_ERR_INVALID_OFFSET: u8 = 0x07;
pub const ATT_ERR_ATTRIBUTE_NOT_FOUND: u8 = 0x0A;
pub const ATT_ERR_INVALID_ATTRIBUTE_LENGTH: u8 = 0x0D;
pub const ATT_ERR_UNLIKELY: u8 = 0x0E;
pub const ATT_ERR_UNSUPPORTED_GROUP_TYPE: u8 = 0x10;
pub const ATT_ERR_INSUFFICIENT_RESOURCES: u8 = 0x11;

// Default BLE ATT MTU
pub const ATT_DEFAULT_MTU: u16 = 23;

// Well-known GATT service UUIDs (16-bit)
pub const UUID_GAP_SERVICE: u16 = 0x1800;
pub const UUID_GATT_SERVICE: u16 = 0x1801;
pub const UUID_BATTERY_SERVICE: u16 = 0x180F;
pub const UUID_HEART_RATE_SERVICE: u16 = 0x180D;
pub const UUID_DEVICE_INFO_SERVICE: u16 = 0x180A;

// Characteristic UUIDs
pub const UUID_BATTERY_LEVEL: u16 = 0x2A19;
pub const UUID_HEART_RATE_MEASUREMENT: u16 = 0x2A37;
pub const UUID_SYSTEM_ID: u16 = 0x2A23;
pub const UUID_MODEL_NUMBER: u16 = 0x2A24;
pub const UUID_FIRMWARE_REVISION: u16 = 0x2A26;
pub const UUID_MANUFACTURER_NAME: u16 = 0x2A29;

// GATT declaration types
pub const UUID_PRIMARY_SERVICE: u16 = 0x2800;
pub const UUID_SECONDARY_SERVICE: u16 = 0x2801;
pub const UUID_CHARACTERISTIC: u16 = 0x2803;

// GATT client characteristic configuration
pub const UUID_CLIENT_CHAR_CONFIG: u16 = 0x2902;
pub const CCC_NOTIFICATIONS_ENABLED: [u8; 2] = [0x01, 0x00];
pub const CCC_INDICATIONS_ENABLED: [u8; 2] = [0x02, 0x00];

// Characteristic property flags
pub const CHAR_PROP_BROADCAST: u8 = 0x01;
pub const CHAR_PROP_READ: u8 = 0x02;
pub const CHAR_PROP_WRITE_NO_RSP: u8 = 0x04;
pub const CHAR_PROP_WRITE: u8 = 0x08;
pub const CHAR_PROP_NOTIFY: u8 = 0x10;
pub const CHAR_PROP_INDICATE: u8 = 0x20;
pub const CHAR_PROP_AUTHENTICATED_WRITE: u8 = 0x40;
pub const CHAR_PROP_EXTENDED_PROPERTIES: u8 = 0x80;

// L2CAP channel ID for ATT
pub const L2CAP_ATT_CID: u16 = 0x0004;

/// An ATT protocol data unit.
#[derive(Clone, Debug, PartialEq, Eq)]
pub struct AttPdu {
    pub opcode: u8,
    pub parameters: Vec<u8>,
}

impl AttPdu {
    pub fn new(opcode: u8, parameters: Vec<u8>) -> (r: Self)
        ensures
            r.opcode == opcode,
            r.parameters@ == parameters@,
    {
        Self { opcode, parameters }
    }

    /// Build an ATT Read By Type Request for a given 16-bit UUID.
    pub fn read_by_type_req(start_handle: u16, end_handle: u16, uuid: u16) -> (r: Self)
        ensures
            r.opcode == ATT_READ_BY_TYPE_REQ,
            r.parameters@ == le16_bytes(start_handle) + le16_bytes(end_handle) + le16_bytes(uuid),
    {
        let mut params: Vec<u8> = Vec::with_capacity(6);
        push_u16_le(&mut params, start_handle);
        push_u16_le(&mut params, end_handle);
        push_u16_le(&mut params, uuid);
        Self::new(ATT_READ_BY_TYPE_REQ, params)
    }

    /// Build an ATT Read By Type Request with 128-bit UUID.
    pub fn read_by_type_req_128(start_handle: u16, end_handle: u16, uuid: &[u8; 16]) -> (r: Self)
        ensures
            r.opcode == ATT_READ_BY_TYPE_REQ,
            r.parameters@ == le16_bytes(start_handle) + le16_bytes(end_handle) + uuid@,
    {
        let mut params: Vec<u8> = Vec::with_capacity(20);
        push_u16_le(&mut params, start_handle);
        push_u16_le(&mut params, end_handle);
        append_bytes(&mut params, uuid.as_slice());
        Self::new(ATT_READ_BY_TYPE_REQ, params)
    }

    /// Build an ATT Read Request for a given handle.
    pub fn read_req(handle: u16) -> (r: Self)
        ensures
            r.opcode == ATT_READ_REQ,
            r.parameters@ == le16_bytes(handle),
    {
        let mut params: Vec<u8> = Vec::with_capacity(2);
        push_u16_le(&mut params, handle);
        assert(params@ =~= le16_bytes(handle));
        Self::new(ATT_READ_REQ, params)
    }

    /// Build an ATT Write Request for a given handle.
    pub fn write_req(handle: u16, value: &[u8]) -> (r: Self)
        ensures
            r.opcode == ATT_WRITE_REQ,
            r.parameters@ == le16_bytes(handle) + value@,
    {
        let mut params: Vec<u8> = Vec::with_capacity(2);
        push_u16_le(&mut params, handle);
        append_bytes(&mut params, value);
        assert(params@ =~= le16_bytes(handle) + value@);
        Self::new(ATT_WRITE_REQ, params)
    }

    /// Build an ATT Read By Group Type Request (discover primary services).
    pub fn read_by_group_type_req(start_handle: u16, end_handle: u16) -> (r: Self)
        ensures
            r.opcode == ATT_READ_BY_GROUP_TYPE_REQ,
            r.parameters@ == le16_bytes(start_handle) + le16_bytes(end_handle) + le16_bytes(
                UUID_PRIMARY_SERVICE,
            ),
    {
        let mut params: Vec<u8> = Vec::with_capacity(6);
        push_u16_le(&mut params, start_handle);
        push_u16_le(&mut params, end_handle);
        push_u16_le(&mut params, UUID_PRIMARY_SERVICE);
        Self::new(ATT_READ_BY_GROUP_TYPE_REQ, params)
    }

    /// Build an ATT Find By Type Value Request.
    pub fn find_by_type_value_req(start_handle: u16, end_handle: u16, uuid: u16, value: &[u8]) -> (r:
        Self)
        ensures
            r.opcode == ATT_FIND_BY_TYPE_VALUE_REQ,
            r.parameters@ == le16_bytes(start_handle) + le16_bytes(end_handle) + le16_bytes(uuid)
                + value@,
    {
        let mut params: Vec<u8> = Vec::with_capacity(6);
        push_u16_le(&mut params, start_handle);
        push_u16_le(&mut params, end_handle);
        push_u16_le(&mut params, uuid);
        append_bytes(&mut params, value);
        Self::new(ATT_FIND_BY_TYPE_VALUE_REQ, params)
    }

    /// Build an ATT Exchange MTU Request.
    pub fn exchange_mtu_req(mtu: u16) -> (r: Self)
        ensures
            r.opcode == ATT_EXCHANGE_MTU_REQ,
            r.parameters@ == le16_bytes(mtu),
    {
        let mut params: Vec<u8> = Vec::with_capacity(2);
        push_u16_le(&mut params, mtu);
        assert(params@ =~= le16_bytes(mtu));
        Self::new(ATT_EXCHANGE_MTU_REQ, params)
    }

    /// Serialize ATT PDU to bytes: the opcode, then the parameters.
    pub fn to_bytes(&self) -> (r: Vec<u8>)
        ensures
            r@ == seq![self.opcode] + self.parameters@,
    {
        let mut buf: Vec<u8> = Vec::with_capacity(1);
        buf.push(self.opcode);
        append_bytes(&mut buf, self.parameters.as_slice());
        buf
    }

    /// Parse ATT PDU from bytes: `None` for no bytes, else the first byte as
    /// opcode and the rest as parameters.
    pub fn from_bytes(data: &[u8]) -> (r: Option<Self>)
        ensures
            match r {
                None => data@.len() == 0,
                Some(pdu) => data@.len() > 0 && pdu.opcode == data@[0] && pdu.parameters@
                    == data@.subrange(1, data@.len() as int),
            },
    {
        if data.len() == 0 {
            return None;
        }
        Some(Self::new(data[0], copy_range(data, 1, data.len())))
    }
}

/// A PDU read back from its own bytes is itself.
pub proof fn lemma_att_roundtrip(opcode: u8, params: Seq<u8>)
    ensures
        (seq![opcode] + params).len() > 0,
        (seq![opcode] + params)[0] == opcode,
        (seq![opcode] + params).subrange(1, (seq![opcode] + params).len() as int) == params,
{
    assert((seq![opcode] + params).subrange(1, (seq![opcode] + params).len() as int) =~= params);
}

/// A discovered GATT service (from Read By Group Type Response).
#[derive(Clone, Debug, PartialEq, Eq)]
pub struct GattService {
    pub start_handle: u16,
    pub end_handle: u16,
    /// 2 bytes for a 16-bit UUID, 16 bytes for a 128-bit one
    pub uuid: Vec<u8>,
}

/// A discovered GATT characteristic (from Read By Type Response).
#[derive(Clone, Debug, PartialEq, Eq)]
pub struct GattCharacteristic {
    pub handle: u16,
    pub properties: u8,
    pub value_handle: u16,
    pub uuid: Vec<u8>,
}

/// The message for a response whose opcode is not the expected one.
pub open spec fn unexpected_opcode_text(name: Seq<char>, expected: u8, got: u8) -> Seq<char> {
    "expected "@ + name + " (0x"@ + hex2(expected) + "), got 0x"@ + hex2(got)
}

/// The message for an entry length that the response cannot hold.
pub open spec fn invalid_entry_length_text(length: u8) -> Seq<char> {
    "invalid entry length "@ + decimal(length as nat)
}

fn unexpected_opcode_message(name: &str, expected: u8, got: u8) -> (r: String)
    ensures
        r@ == unexpected_opcode_text(name@, expected, got),
{
    let mut s = String::new();
    push_str(&mut s, "expected ");
    push_str(&mut s, name);
    push_str(&mut s, " (0x");
    push_hex2(&mut s, expected);
    push_str(&mut s, "), got 0x");
    push_hex2(&mut s, got);
    assert(s@ =~= unexpected_opcode_text(name@, expected, got));
    s
}

fn invalid_entry_length_message(length: u8) -> (r: String)
    ensures
        r@ == invalid_entry_length_text(length),
{
    let mut s = String::new();
    push_str(&mut s, "invalid entry length ");
    push_decimal(&mut s, length as u64);
    assert(s@ =~= invalid_entry_length_text(length));
    s
}

/// Entries of a list response: `count` entries of `length` bytes, the
/// first at offset 1, as many as fit in `plen` bytes.
pub open spec fn entry_count_fits(plen: int, length: int, count: int) -> bool {
    1 + count * length <= plen < 1 + (count + 1) * length
}

/// The characteristic `c` is the Read By Type entry of `length` bytes at offset `o` of `p`.
pub open spec fn char_entry_at(c: GattCharacteristic, p: Seq<u8>, o: int, length: int) -> bool {
    &&& c.properties == p[o]
    &&& c.value_handle == le16(p[o + 1], p[o + 2])
    &&& c.handle == handle_before(le16(p[o + 1], p[o + 2]))
    &&& c.uuid@ == p.subrange(o + 3, o + length)
}

/// The handle just before `v`, wrapping from 0 to 0xFFFF.
pub open spec fn handle_before(v: u16) -> u16 {
    if v == 0 {
        0xFFFF
    } else {
        (v - 1) as u16
    }
}

/// The service `s` is the Read By Group Type entry of `length` bytes at offset `o` of `p`.
pub open spec fn service_entry_at(s: GattService, p: Seq<u8>, o: int, length: int) -> bool {
    &&& s.start_handle == le16(p[o], p[o + 1])
    &&& s.end_handle == le16(p[o + 2], p[o + 3])
    &&& s.uuid@ == p.subrange(o + 4, o + length)
}

/// `chars` are the characteristics a Read By Type Response with this
/// opcode and these parameters lists: an entry length byte of at least 5
/// that the parameters hold, and as many entries of that length as fit.
pub open spec fn chars_parsed(opcode: u8, p: Seq<u8>, chars: Seq<GattCharacteristic>) -> bool {
    &&& opcode == ATT_READ_BY_TYPE_RSP
    &&& p.len() >= 2
    &&& p[0] >= 5
    &&& p.len() >= 1 + p[0]
    &&& entry_count_fits(p.len() as int, p[0] as int, chars.len() as int)
    &&& forall|i: int|
        0 <= i < chars.len() ==> #[trigger] char_entry_at(chars[i], p, 1 + i * p[0], p[0] as int)
}

/// `msg` is the complaint about a PDU that is no valid Read By Type Response.
pub open spec fn chars_error(opcode: u8, p: Seq<u8>, msg: Seq<char>) -> bool {
    if opcode != ATT_READ_BY_TYPE_RSP {
        msg == unexpected_opcode_text("ATT_READ_BY_TYPE_RSP"@, ATT_READ_BY_TYPE_RSP, opcode)
    } else if p.len() < 2 {
        msg == "response too short"@
    } else {
        (p[0] < 5 || p.len() < 1 + p[0]) && msg == invalid_entry_length_text(p[0])
    }
}

/// `services` are the services a Read By Group Type Response with this
/// opcode and these parameters lists: an entry length byte of at least 6
/// that the parameters hold, and as many entries of that length as fit.
pub open spec fn services_parsed(opcode: u8, p: Seq<u8>, services: Seq<GattService>) -> bool {
    &&& opcode == ATT_READ_BY_GROUP_TYPE_RSP
    &&& p.len() >= 2
    &&& p[0] >= 6
    &&& p.len() >= 1 + p[0]
    &&& entry_count_fits(p.len() as int, p[0] as int, services.len() as int)
    &&& forall|i: int|
        0 <= i < services.len() ==> #[trigger] service_entry_at(
            services[i],
            p,
            1 + i * p[0],
            p[0] as int,
        )
}

/// `msg` is the complaint about a PDU that is no valid Read By Group Type
/// Response.
pub open spec fn services_error(opcode: u8, p: Seq<u8>, msg: Seq<char>) -> bool {
    if opcode != ATT_READ_BY_GROUP_TYPE_RSP {
        msg == unexpected_opcode_text(
            "ATT_READ_BY_GROUP_TYPE_RSP"@,
            ATT_READ_BY_GROUP_TYPE_RSP,
            opcode,
        )
    } else if p.len() < 2 {
        msg == "response too short"@
    } else {
        (p[0] < 6 || p.len() < 1 + p[0]) && msg == invalid_entry_length_text(p[0])
    }
}

proof fn lemma_next_entry(count: int, length: int)
    ensures
        1 + (count + 1) * length == 1 + count * length + length,
{
    assert((count + 1) * length == count * length + length) by (nonlinear_arith);
}

/// Parse an ATT Read By Type Response to extract GATT characteristics.
///
/// The parameters are an entry length byte and as many entries of that
/// length as fit; an entry is properties, value handle and UUID, and the
/// declaration handle is the one just before the value handle.
pub fn parse_read_by_type_rsp(pdu: &AttPdu) -> (r: Result<Vec<GattCharacteristic>, String>)
    ensures
        match r {
            Ok(chars) => chars_parsed(pdu.opcode, pdu.parameters@, chars@),
            Err(msg) => chars_error(pdu.opcode, pdu.parameters@, msg@),
        },
{
    if pdu.opcode != ATT_READ_BY_TYPE_RSP {
        return Err(
            unexpected_opcode_message("ATT_READ_BY_TYPE_RSP", ATT_READ_BY_TYPE_RSP, pdu.opcode),
        );
    }
    if pdu.parameters.len() < 2 {
        return Err(String::from_str("response too short"));
    }
    let p = pdu.parameters.as_slice();
    let plen = p.len();
    let length = p[0] as usize;
    if length < 5 || plen < 1 + length {
        return Err(invalid_entry_length_message(p[0]));
    }
    let mut chars: Vec<GattCharacteristic> = Vec::new();
    let mut offset: usize = 1;
    let mut count: usize = 0;
    while length <= plen - offset
        invariant
            p@ == pdu.parameters@,
            plen == p@.len(),
            length == p@[0],
            length >= 5,
            1 <= offset <= plen,
            offset == 1 + count * length,
            count <= offset,
            chars@.len() == count,
            forall|i: int|
                0 <= i < count ==> #[trigger] char_entry_at(chars@[i], p@, 1 + i * length, length as int),
        decreases plen - offset,
    {
        let value_handle = u16_from_le(p[offset + 1], p[offset + 2]);
        let handle: u16 = if value_handle == 0 {
            0xFFFF
        } else {
            value_handle - 1
        };
        let c = GattCharacteristic {
            handle,
            properties: p[offset],
            value_handle,
            uuid: copy_range(p, offset + 3, offset + length),
        };
        chars.push(c);
        proof {
            lemma_next_entry(count as int, length as int);
        }
        offset = offset + length;
        count = count + 1;
    }
    proof {
        lemma_next_entry(count as int, length as int);
    }
    Ok(chars)
}

/// Parse an ATT Read By Group Type Response to extract services.
///
/// The parameters are an entry length byte and as many entries of that
/// length as fit; an entry is start handle, end handle and UUID.
pub fn parse_read_by_group_type_rsp(pdu: &AttPdu) -> (r: Result<Vec<GattService>, String>)
    ensures
        match r {
            Ok(services) => services_parsed(pdu.opcode, pdu.parameters@, services@),
            Err(msg) => services_error(pdu.opcode, pdu.parameters@, msg@),
        },
{
    if pdu.opcode != ATT_READ_BY_GROUP_TYPE_RSP {
        return Err(
            unexpected_opcode_message(
                "ATT_READ_BY_GROUP_TYPE_RSP",
                ATT_READ_BY_GROUP_TYPE_RSP,
                pdu.opcode,
            ),
        );
    }
    if pdu.parameters.len() < 2 {
        return Err(String::from_str("response too short"));
    }
    let p = pdu.parameters.as_slice();
    let plen = p.len();
    let length = p[0] as usize;
    if length < 6 || plen < 1 + length {
        return Err(invalid_entry_length_message(p[0]));
    }
    let mut services: Vec<GattService> = Vec::new();
    let mut offset: usize = 1;
    let mut count: usize = 0;
    while length <= plen - offset
        invariant
            p@ == pdu.parameters@,
            plen == p@.len(),
            length == p@[0],
            length >= 6,
            1 <= offset <= plen,
            offset == 1 + count * length,
            count <= offset,
            services@.len() == count,
            forall|i: int|
                0 <= i < count ==> #[trigger] service_entry_at(
                    services@[i],
                    p@,
                    1 + i * length,
                    length as int,
                ),
        decreases plen - offset,
    {
        let s = GattService {
            start_handle: u16_from_le(p[offset], p[offset + 1]),
            end_handle: u16_from_le(p[offset + 2], p[offset + 3]),
            uuid: copy_range(p, offset + 4, offset + length),
        };
        services.push(s);
        proof {
            lemma_next_entry(count as int, length as int);
        }
        offset = offset + length;
        count = count + 1;
    }
    proof {
        lemma_next_entry(count as int, length as int);
    }
    Ok(services)
}

/// Parse an ATT Read Response (returns raw value bytes).
pub fn parse_read_rsp(pdu: &AttPdu) -> (r: Result<Vec<u8>, String>)
    ensures
        match r {
            Ok(v) => pdu.opcode == ATT_READ_RSP && v@ == pdu.parameters@,
            Err(msg) => pdu.opcode != ATT_READ_RSP && msg@ == unexpected_opcode_text(
                "ATT_READ_RSP"@,
                ATT_READ_RSP,
                pdu.opcode,
            ),
        },
{
    if pdu.opcode != ATT_READ_RSP {
        return Err(unexpected_opcode_message("ATT_READ_RSP", ATT_READ_RSP, pdu.opcode));
    }
    Ok(copy_range(pdu.parameters.as_slice(), 0, pdu.parameters.len()))
}

/// Check if an ATT PDU is an error response.
pub fn is_att_error(pdu: &AttPdu) -> (r: bool)
    ensures
        r == (pdu.opcode == ATT_ERROR_RSP),
{
    pdu.opcode == ATT_ERROR_RSP
}

/// Parse ATT error response into (request_opcode, handle, error_code).
///
/// `None` unless the PDU is an error response with at least the four
/// parameter bytes those fields take.
pub fn parse_att_error(pdu: &AttPdu) -> (r: Option<(u8, u16, u8)>)
    ensures
        ({
            let p = pdu.parameters@;
            r == if pdu.opcode == ATT_ERROR_RSP && p.len() >= 4 {
                Some((p[0], le16(p[1], p[2]), p[3]))
            } else {
                None
            }
        }),
{
    if pdu.opcode != ATT_ERROR_RSP || pdu.parameters.len() < 4 {
        return None;
    }
    let req_opcode = pdu.parameters[0];
    let handle = u16_from_le(pdu.parameters[1], pdu.parameters[2]);
    let error_code = pdu.parameters[3];
    Some((req_opcode, handle, error_code))
}

/// The L2CAP payload that carries an ATT PDU: length, ATT channel id, PDU bytes.
pub open spec fn l2cap_att_payload(att_bytes: Seq<u8>) -> Seq<u8> {
    le16_bytes((att_bytes.len() % 65536) as u16) + le16_bytes(L2CAP_ATT_CID) + att_bytes
}

/// Wrap an ATT PDU in an L2CAP/ACL packet for sending.
pub fn att_to_acl(connection_handle: u16, att: &AttPdu) -> (r: HciAcl)
    ensures
        r.handle == connection_handle,
        r.pb_flag == 0,
        r.bc_flag == 0,
        r.data@ == l2cap_att_payload(seq![att.opcode] + att.parameters@),
{
    let att_bytes = att.to_bytes();
    let l2cap_len: u16 = (att_bytes.len() % 65536) as u16;
    let mut payload: Vec<u8> = Vec::with_capacity(4);
    push_u16_le(&mut payload, l2cap_len);
    push_u16_le(&mut payload, L2CAP_ATT_CID);
    append_bytes(&mut payload, att_bytes.as_slice());
    HciAcl::new(connection_handle, 0x00, 0x00, payload)
}

/// Extract ATT PDU from an incoming ACL/L2CAP packet.
///
/// `None` unless the data holds a four-byte L2CAP header on the ATT channel
/// followed by at least one byte.
pub fn acl_to_att(acl: &HciAcl) -> (r: Option<AttPdu>)
    ensures
        ({
            let d = acl.data@;
            if d.len() >= 5 && le16(d[2], d[3]) == L2CAP_ATT_CID {
                r matches Some(pdu) && pdu.opcode == d[4] && pdu.parameters@ == d.subrange(
                    5,
                    d.len() as int,
                )
            } else {
                r is None
            }
        }),
{
    if acl.data.len() < 4 {
        return None;
    }
    let cid = u16_from_le(acl.data[2], acl.data[3]);
    if cid != L2CAP_ATT_CID {
        return None;
    }
    let rest = vstd::slice::slice_subrange(acl.data.as_slice(), 4, acl.data.len());
    let r = AttPdu::from_bytes(rest);
    if rest.len() > 0 {
        assert(rest@.subrange(1, rest@.len() as int) =~= acl.data@.subrange(
            5,
            acl.data@.len() as int,
        ));
    }
    r
}

/// Reading back an ATT PDU wrapped for sending gives the PDU itself, for a
/// PDU whose bytes fit the 16-bit L2CAP length.
pub proof fn lemma_att_acl_roundtrip(opcode: u8, params: Seq<u8>)
    requires
        params.len() + 1 <= 0xFFFF,
    ensures
        ({
            let d = l2cap_att_payload(seq![opcode] + params);
            &&& d.len() >= 5
            &&& le16(d[2], d[3]) == L2CAP_ATT_CID
            &&& d[4] == opcode
            &&& d.subrange(5, d.len() as int) == params
        }),
{
    let d = l2cap_att_payload(seq![opcode] + params);
    lemma_le16_roundtrip(L2CAP_ATT_CID);
    assert(d.subrange(5, d.len() as int) =~= params);
}

} // verus!
