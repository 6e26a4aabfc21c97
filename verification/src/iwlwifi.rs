//! The Intel Wi-Fi bring-up tool: which PCI functions are Intel wireless
//! controllers, which firmware files each needs, which candidate a command
//! addresses, and the report lines of each bring-up stage.
use vstd::prelude::*;
use vstd::string::{StrSliceExecFns, StringExecFns};
use vstd::utf8::encode_utf8;
use crate::btusb_probe::{find_from, find_text, lemma_find_from};
use crate::text::{hex_digits, hex_lower, push_hex_digits, push_hex_lower};
use crate::textparse::{parse_unsigned, spec_parse_unsigned};

verus! {

/// Where a PCI function sits: segment, bus, device and function numbers.
#[derive(Clone, Copy, Debug, PartialEq, Eq, Structural)]
pub struct PciLocation {
    pub segment: u16,
    pub bus: u8,
    pub device: u8,
    pub function: u8,
}

/// Why a bring-up step failed.
#[derive(Debug)]
pub enum DriverError {
    /// The PCI scheme or a device on it could not be read.
    Pci(String),
    /// The device, its firmware or the request is not supported.
    Unsupported(String),
}

impl DriverError {
    pub open spec fn message_spec(&self) -> Seq<char> {
        match self {
            DriverError::Pci(m) => "PCI error: "@ + m@,
            DriverError::Unsupported(m) => "Unsupported device: "@ + m@,
        }
    }

    /// The error as it is reported.
    pub fn message(&self) -> (r: String)
        ensures
            r@ == self.message_spec(),
    {
        match self {
            DriverError::Pci(m) => {
                let mut s = String::from_str("PCI error: ");
                s.append(m.as_str());
                s
            },
            DriverError::Unsupported(m) => {
                let mut s = String::from_str("Unsupported device: ");
                s.append(m.as_str());
                s
            },
        }
    }
}

/// A location as it is written and matched on the command line:
/// `ssss:bb:dd.f` in lower-case hexadecimal.
pub open spec fn location_text(l: PciLocation) -> Seq<char> {
    hex_lower(l.segment as nat, 4) + ":"@ + hex_lower(l.bus as nat, 2) + ":"@ + hex_lower(
        l.device as nat,
        2,
    ) + "."@ + hex_digits(l.function as nat)
}

/// The written form of a location.
pub fn location_string(l: PciLocation) -> (r: String)
    ensures
        r@ == location_text(l),
{
    let mut s = String::new();
    push_hex_lower(&mut s, l.segment as u64, 4);
    s.append(":");
    push_hex_lower(&mut s, l.bus as u64, 2);
    s.append(":");
    push_hex_lower(&mut s, l.device as u64, 2);
    s.append(".");
    push_hex_digits(&mut s, l.function as u64);
    assert(s@ =~= location_text(l));
    s
}

/// A hexadecimal field of a PCI scheme entry's name, no larger than `max`.
pub open spec fn hex_field(t: Seq<char>, max: int) -> Option<int> {
    spec_parse_unsigned(encode_utf8(t), 16, max)
}

/// The location a PCI scheme entry's name (`ssss--bb--dd.f`, hexadecimal)
/// stands for, or the message of the error: the name is cut at its first
/// two `--`, the last part at its first `.`, and each of the four pieces
/// must be a hexadecimal number that fits its field.
pub open spec fn slot_location(name: Seq<char>) -> Result<PciLocation, Seq<char>> {
    let p1 = find_from(name, "--"@, 0);
    let p2 = if p1 < 0 {
        -1
    } else {
        find_from(name, "--"@, p1 + 2)
    };
    if p1 < 0 || p2 < 0 {
        Err("invalid PCI scheme entry "@ + name)
    } else {
        let seg = name.subrange(0, p1);
        let bus = name.subrange(p1 + 2, p2);
        let rest = name.subrange(p2 + 2, name.len() as int);
        let q = find_from(rest, "."@, 0);
        if hex_field(seg, 0xffff) is None {
            Err("invalid segment in "@ + name)
        } else if hex_field(bus, 0xff) is None {
            Err("invalid bus in "@ + name)
        } else if q < 0 {
            Err("invalid device/function in "@ + name)
        } else if hex_field(rest.subrange(0, q), 0xff) is None {
            Err("invalid device in "@ + name)
        } else if hex_field(rest.subrange(q + 1, rest.len() as int), 0xff) is None {
            Err("invalid function in "@ + name)
        } else {
            Ok(
                PciLocation {
                    segment: hex_field(seg, 0xffff)->0 as u16,
                    bus: hex_field(bus, 0xff)->0 as u8,
                    device: hex_field(rest.subrange(0, q), 0xff)->0 as u8,
                    function: hex_field(rest.subrange(q + 1, rest.len() as int), 0xff)->0 as u8,
                },
            )
        }
    }
}

fn hex_of(t: &str, max: u64) -> (r: Option<u64>)
    ensures
        match hex_field(t@, max as int) {
            Some(v) => r == Some(v as u64),
            None => r is None,
        },
{
    parse_unsigned(t.as_bytes(), 16, max)
}

fn pci_error(what: &str, name: &str) -> (r: DriverError)
    ensures
        r matches DriverError::Pci(m) && m@ == what@ + name@,
{
    let mut m = String::from_str(what);
    m.append(name);
    DriverError::Pci(m)
}

/// Reads the location out of a PCI scheme entry's name.
pub fn parse_slot_name(name: &str) -> (r: Result<PciLocation, DriverError>)
    ensures
        match slot_location(name@) {
            Ok(l) => r == Ok::<PciLocation, DriverError>(l),
            Err(m) => r matches Err(DriverError::Pci(e)) && e@ == m,
        },
{
    let n = name.unicode_len();
    let p1 = match find_text(name, "--", 0) {
        Some(p) => p,
        None => {
            return Err(pci_error("invalid PCI scheme entry ", name));
        },
    };
    proof {
        lemma_find_from(name@, "--"@, 0);
        reveal_strlit("--");
    }
    let p2 = match find_text(name, "--", p1 + 2) {
        Some(p) => p,
        None => {
            return Err(pci_error("invalid PCI scheme entry ", name));
        },
    };
    proof {
        lemma_find_from(name@, "--"@, p1 + 2);
    }
    let seg = name.substring_char(0, p1);
    let bus = name.substring_char(p1 + 2, p2);
    let rest = name.substring_char(p2 + 2, n);
    let q = find_text(rest, ".", 0);
    proof {
        lemma_find_from(rest@, "."@, 0);
        reveal_strlit(".");
    }
    let segment = match hex_of(seg, 0xffff) {
        Some(v) => v,
        None => {
            return Err(pci_error("invalid segment in ", name));
        },
    };
    let bus_no = match hex_of(bus, 0xff) {
        Some(v) => v,
        None => {
            return Err(pci_error("invalid bus in ", name));
        },
    };
    let q = match q {
        Some(q) => q,
        None => {
            return Err(pci_error("invalid device/function in ", name));
        },
    };
    let rn = rest.unicode_len();
    let dev = match hex_of(rest.substring_char(0, q), 0xff) {
        Some(v) => v,
        None => {
            return Err(pci_error("invalid device in ", name));
        },
    };
    let fun = match hex_of(rest.substring_char(q + 1, rn), 0xff) {
        Some(v) => v,
        None => {
            return Err(pci_error("invalid function in ", name));
        },
    };
    proof {
        crate::textparse::lemma_parse_unsigned_range(encode_utf8(seg@), 16, 0xffff);
        crate::textparse::lemma_parse_unsigned_range(encode_utf8(bus@), 16, 0xff);
        crate::textparse::lemma_parse_unsigned_range(encode_utf8(rest@.subrange(0, q as int)), 16, 0xff);
        crate::textparse::lemma_parse_unsigned_range(
            encode_utf8(rest@.subrange(q + 1, rest@.len() as int)),
            16,
            0xff,
        );
    }
    Ok(PciLocation { segment: segment as u16, bus: bus_no as u8, device: dev as u8, function: fun as u8 })
}

/// The Intel vendor number in PCI configuration space.
pub const PCI_VENDOR_ID_INTEL: u16 = 0x8086;

/// The device and subsystem numbers of an Intel network controller of the
/// "other" subclass (how Intel wireless controllers present themselves),
/// read from the first bytes of its PCI configuration space; `None` for
/// any other function or a configuration shorter than 48 bytes.
pub open spec fn wifi_ids(config: Seq<u8>) -> Option<(u16, u16)> {
    if config.len() < 48 {
        None
    } else if crate::bytes::le16(config[0x00], config[0x01]) != PCI_VENDOR_ID_INTEL || config[0x0B]
        != 0x02 || config[0x0A] != 0x80 {
        None
    } else {
        Some(
            (
                crate::bytes::le16(config[0x02], config[0x03]),
                crate::bytes::le16(config[0x2E], config[0x2F]),
            ),
        )
    }
}

/// Tells whether a PCI function is an Intel wireless controller, and if
/// so gives its device and subsystem numbers.
pub fn intel_wifi_ids(config: &[u8]) -> (r: Option<(u16, u16)>)
    ensures
        r == wifi_ids(config@),
{
    if config.len() < 48 {
        return None;
    }
    let vendor = crate::bytes::u16_from_le(config[0x00], config[0x01]);
    if vendor != PCI_VENDOR_ID_INTEL || config[0x0B] != 0x02 || config[0x0A] != 0x80 {
        return None;
    }
    Some(
        (
            crate::bytes::u16_from_le(config[0x02], config[0x03]),
            crate::bytes::u16_from_le(config[0x2E], config[0x2F]),
        ),
    )
}

/// The controller family of a device and subsystem.
pub open spec fn family_of(device_id: u16, subsystem_id: u16) -> Seq<char> {
    if device_id == 0x7740 {
        "intel-bz-arrow-lake"@
    } else if device_id == 0x2725 {
        "intel-ax210"@
    } else if device_id == 0x7af0 && subsystem_id == 0x4090 {
        "intel-ax211"@
    } else if device_id == 0x7af0 && subsystem_id == 0x4070 {
        "intel-ax201"@
    } else if device_id == 0x7af0 && (subsystem_id == 0x0aaa || subsystem_id == 0x0030) {
        "intel-9462-9560"@
    } else {
        "intel-unknown"@
    }
}

/// The microcode files a device may load, most preferred first.
pub open spec fn ucode_names(device_id: u16, subsystem_id: u16) -> Seq<Seq<char>> {
    if device_id == 0x7740 && subsystem_id == 0x4090 {
        seq![
            "iwlwifi-bz-b0-gf-a0-92.ucode"@,
            "iwlwifi-bz-b0-gf-a0-94.ucode"@,
            "iwlwifi-bz-b0-gf-a0-100.ucode"@,
        ]
    } else if device_id == 0x7740 {
        seq![
            "iwlwifi-bz-b0-fm-c0-92.ucode"@,
            "iwlwifi-bz-b0-fm-c0-94.ucode"@,
            "iwlwifi-bz-b0-fm-c0-100.ucode"@,
        ]
    } else if device_id == 0x2725 {
        seq!["iwlwifi-ty-a0-gf-a0-59.ucode"@, "iwlwifi-ty-a0-gf-a0-84.ucode"@]
    } else if device_id == 0x7af0 && subsystem_id == 0x4090 {
        seq!["iwlwifi-so-a0-gf-a0-64.ucode"@, "iwlwifi-so-a0-gf-a0-66.ucode"@]
    } else if device_id == 0x7af0 && subsystem_id == 0x4070 {
        seq!["iwlwifi-so-a0-hr-b0-64.ucode"@]
    } else if device_id == 0x7af0 && (subsystem_id == 0x0aaa || subsystem_id == 0x0030) {
        seq!["iwlwifi-so-a0-jf-b0-64.ucode"@, "iwlwifi-9000-pu-b0-jf-b0-46.ucode"@]
    } else {
        seq!["iwlwifi-unknown"@]
    }
}

/// The platform NVM file a device loads, if it has one.
pub open spec fn pnvm_name(device_id: u16, subsystem_id: u16) -> Option<Seq<char>> {
    if device_id == 0x7740 && subsystem_id == 0x4090 {
        Some("iwlwifi-bz-b0-gf-a0.pnvm"@)
    } else if device_id == 0x7740 {
        Some("iwlwifi-bz-b0-fm-c0.pnvm"@)
    } else if device_id == 0x2725 {
        Some("iwlwifi-ty-a0-gf-a0.pnvm"@)
    } else if device_id == 0x7af0 && subsystem_id == 0x4090 {
        Some("iwlwifi-so-a0-gf-a0.pnvm"@)
    } else if device_id == 0x7af0 && subsystem_id == 0x4070 {
        Some("iwlwifi-so-a0-hr-b0.pnvm"@)
    } else if device_id == 0x7af0 && (subsystem_id == 0x0aaa || subsystem_id == 0x0030) {
        Some("iwlwifi-so-a0-jf-b0.pnvm"@)
    } else {
        None
    }
}

/// Devices of different families never share firmware: their platform NVM
/// files differ, and no microcode file of one is a microcode file of the
/// other.
pub proof fn lemma_firmware_per_family(d1: u16, s1: u16, d2: u16, s2: u16)
    requires
        family_of(d1, s1) != family_of(d2, s2),
    ensures
        pnvm_name(d1, s1) is Some ==> pnvm_name(d1, s1) != pnvm_name(d2, s2),
        forall|i: int, j: int|
            0 <= i < ucode_names(d1, s1).len() && 0 <= j < ucode_names(d2, s2).len()
                ==> ucode_names(d1, s1)[i] != ucode_names(d2, s2)[j],
{
    reveal_strlit("intel-9462-9560");
    reveal_strlit("intel-ax201");
    reveal_strlit("intel-ax210");
    reveal_strlit("intel-ax211");
    reveal_strlit("intel-bz-arrow-lake");
    reveal_strlit("intel-unknown");
    reveal_strlit("iwlwifi-9000-pu-b0-jf-b0-46.ucode");
    reveal_strlit("iwlwifi-bz-b0-fm-c0-100.ucode");
    reveal_strlit("iwlwifi-bz-b0-fm-c0-92.ucode");
    reveal_strlit("iwlwifi-bz-b0-fm-c0-94.ucode");
    reveal_strlit("iwlwifi-bz-b0-fm-c0.pnvm");
    reveal_strlit("iwlwifi-bz-b0-gf-a0-100.ucode");
    reveal_strlit("iwlwifi-bz-b0-gf-a0-92.ucode");
    reveal_strlit("iwlwifi-bz-b0-gf-a0-94.ucode");
    reveal_strlit("iwlwifi-bz-b0-gf-a0.pnvm");
    reveal_strlit("iwlwifi-so-a0-gf-a0-64.ucode");
    reveal_strlit("iwlwifi-so-a0-gf-a0-66.ucode");
    reveal_strlit("iwlwifi-so-a0-gf-a0.pnvm");
    reveal_strlit("iwlwifi-so-a0-hr-b0-64.ucode");
    reveal_strlit("iwlwifi-so-a0-hr-b0.pnvm");
    reveal_strlit("iwlwifi-so-a0-jf-b0-64.ucode");
    reveal_strlit("iwlwifi-so-a0-jf-b0.pnvm");
    reveal_strlit("iwlwifi-ty-a0-gf-a0-59.ucode");
    reveal_strlit("iwlwifi-ty-a0-gf-a0-84.ucode");
    reveal_strlit("iwlwifi-ty-a0-gf-a0.pnvm");
    reveal_strlit("iwlwifi-unknown");
    assert("iwlwifi-9000-pu-b0-jf-b0-46.ucode"@[8] == '9' && "iwlwifi-9000-pu-b0-jf-b0-46.ucode"@[14] == 'u');
    assert("iwlwifi-bz-b0-fm-c0-100.ucode"@[8] == 'b' && "iwlwifi-bz-b0-fm-c0-100.ucode"@[14] == 'f');
    assert("iwlwifi-bz-b0-fm-c0-92.ucode"@[8] == 'b' && "iwlwifi-bz-b0-fm-c0-92.ucode"@[14] == 'f');
    assert("iwlwifi-bz-b0-fm-c0-94.ucode"@[8] == 'b' && "iwlwifi-bz-b0-fm-c0-94.ucode"@[14] == 'f');
    assert("iwlwifi-bz-b0-fm-c0.pnvm"@[8] == 'b' && "iwlwifi-bz-b0-fm-c0.pnvm"@[14] == 'f');
    assert("iwlwifi-bz-b0-gf-a0-100.ucode"@[8] == 'b' && "iwlwifi-bz-b0-gf-a0-100.ucode"@[14] == 'g');
    assert("iwlwifi-bz-b0-gf-a0-92.ucode"@[8] == 'b' && "iwlwifi-bz-b0-gf-a0-92.ucode"@[14] == 'g');
    assert("iwlwifi-bz-b0-gf-a0-94.ucode"@[8] == 'b' && "iwlwifi-bz-b0-gf-a0-94.ucode"@[14] == 'g');
    assert("iwlwifi-bz-b0-gf-a0.pnvm"@[8] == 'b' && "iwlwifi-bz-b0-gf-a0.pnvm"@[14] == 'g');
    assert("iwlwifi-so-a0-gf-a0-64.ucode"@[8] == 's' && "iwlwifi-so-a0-gf-a0-64.ucode"@[14] == 'g');
    assert("iwlwifi-so-a0-gf-a0-66.ucode"@[8] == 's' && "iwlwifi-so-a0-gf-a0-66.ucode"@[14] == 'g');
    assert("iwlwifi-so-a0-gf-a0.pnvm"@[8] == 's' && "iwlwifi-so-a0-gf-a0.pnvm"@[14] == 'g');
    assert("iwlwifi-so-a0-hr-b0-64.ucode"@[8] == 's' && "iwlwifi-so-a0-hr-b0-64.ucode"@[14] == 'h');
    assert("iwlwifi-so-a0-hr-b0.pnvm"@[8] == 's' && "iwlwifi-so-a0-hr-b0.pnvm"@[14] == 'h');
    assert("iwlwifi-so-a0-jf-b0-64.ucode"@[8] == 's' && "iwlwifi-so-a0-jf-b0-64.ucode"@[14] == 'j');
    assert("iwlwifi-so-a0-jf-b0.pnvm"@[8] == 's' && "iwlwifi-so-a0-jf-b0.pnvm"@[14] == 'j');
    assert("iwlwifi-ty-a0-gf-a0-59.ucode"@[8] == 't' && "iwlwifi-ty-a0-gf-a0-59.ucode"@[14] == 'g');
    assert("iwlwifi-ty-a0-gf-a0-84.ucode"@[8] == 't' && "iwlwifi-ty-a0-gf-a0-84.ucode"@[14] == 'g');
    assert("iwlwifi-ty-a0-gf-a0.pnvm"@[8] == 't' && "iwlwifi-ty-a0-gf-a0.pnvm"@[14] == 'g');
    assert("iwlwifi-unknown"@[8] == 'u' && "iwlwifi-unknown"@[14] == 'n');
}

/// A device's preferred microcode file is for the same part as its
/// platform NVM file: with the PNVM `iwlwifi-<part>.pnvm`, the first
/// microcode file is `iwlwifi-<part>-<version>.ucode`.
pub proof fn lemma_ucode_matches_pnvm(d: u16, s: u16)
    ensures
        pnvm_name(d, s) matches Some(p) ==> p.len() > 5 && ucode_names(d, s).len() > 0 && ucode_names(
            d,
            s,
        )[0].len() > p.len() - 5 && ucode_names(d, s)[0].subrange(0, p.len() - 5) == p.subrange(
            0,
            p.len() - 5,
        ) && ucode_names(d, s)[0][p.len() - 5] == '-' && p.subrange(p.len() - 5, p.len() as int)
            == ".pnvm"@,
{
    reveal_strlit("intel-9462-9560");
    reveal_strlit("intel-ax201");
    reveal_strlit("intel-ax210");
    reveal_strlit("intel-ax211");
    reveal_strlit("intel-bz-arrow-lake");
    reveal_strlit("intel-unknown");
    reveal_strlit("iwlwifi-9000-pu-b0-jf-b0-46.ucode");
    reveal_strlit("iwlwifi-bz-b0-fm-c0-100.ucode");
    reveal_strlit("iwlwifi-bz-b0-fm-c0-92.ucode");
    reveal_strlit("iwlwifi-bz-b0-fm-c0-94.ucode");
    reveal_strlit("iwlwifi-bz-b0-fm-c0.pnvm");
    reveal_strlit("iwlwifi-bz-b0-gf-a0-100.ucode");
    reveal_strlit("iwlwifi-bz-b0-gf-a0-92.ucode");
    reveal_strlit("iwlwifi-bz-b0-gf-a0-94.ucode");
    reveal_strlit("iwlwifi-bz-b0-gf-a0.pnvm");
    reveal_strlit("iwlwifi-so-a0-gf-a0-64.ucode");
    reveal_strlit("iwlwifi-so-a0-gf-a0-66.ucode");
    reveal_strlit("iwlwifi-so-a0-gf-a0.pnvm");
    reveal_strlit("iwlwifi-so-a0-hr-b0-64.ucode");
    reveal_strlit("iwlwifi-so-a0-hr-b0.pnvm");
    reveal_strlit("iwlwifi-so-a0-jf-b0-64.ucode");
    reveal_strlit("iwlwifi-so-a0-jf-b0.pnvm");
    reveal_strlit("iwlwifi-ty-a0-gf-a0-59.ucode");
    reveal_strlit("iwlwifi-ty-a0-gf-a0-84.ucode");
    reveal_strlit("iwlwifi-ty-a0-gf-a0.pnvm");
    reveal_strlit("iwlwifi-unknown");
    reveal_strlit(".pnvm");
}

/// The strings' views.
pub open spec fn texts(v: Seq<String>) -> Seq<Seq<char>> {
    v.map_values(|s: String| s@)
}

/// The view of an optional string.
pub open spec fn opt_text(o: Option<String>) -> Option<Seq<char>> {
    match o {
        Some(s) => Some(s@),
        None => None,
    }
}

fn owned(lits: &[&str]) -> (r: Vec<String>)
    ensures
        r@.len() == lits@.len(),
        forall|i: int| 0 <= i < lits@.len() ==> #[trigger] r@[i]@ == lits@[i]@,
{
    let mut v: Vec<String> = Vec::new();
    let mut i: usize = 0;
    while i < lits.len()
        invariant
            i <= lits@.len(),
            v@.len() == i,
            forall|j: int| 0 <= j < i ==> #[trigger] v@[j]@ == lits@[j]@,
        decreases lits@.len() - i,
    {
        v.push(String::from_str(lits[i]));
        i = i + 1;
    }
    v
}

/// The family, the microcode files (most preferred first) and the platform
/// NVM file of an Intel wireless device.
pub fn intel_firmware_candidates(device_id: u16, subsystem_id: u16) -> (r: (
    String,
    Vec<String>,
    Option<String>,
))
    ensures
        r.0@ == family_of(device_id, subsystem_id),
        texts(r.1@) == ucode_names(device_id, subsystem_id),
        opt_text(r.2) == pnvm_name(device_id, subsystem_id),
{
    let (stems, pnvm): (Vec<String>, Option<&str>) = if device_id == 0x7740 && subsystem_id
        == 0x4090 {
        (
            owned(
                &[
                    "iwlwifi-bz-b0-gf-a0-92.ucode",
                    "iwlwifi-bz-b0-gf-a0-94.ucode",
                    "iwlwifi-bz-b0-gf-a0-100.ucode",
                ],
            ),
            Some("iwlwifi-bz-b0-gf-a0.pnvm"),
        )
    } else if device_id == 0x7740 {
        (
            owned(
                &[
                    "iwlwifi-bz-b0-fm-c0-92.ucode",
                    "iwlwifi-bz-b0-fm-c0-94.ucode",
                    "iwlwifi-bz-b0-fm-c0-100.ucode",
                ],
            ),
            Some("iwlwifi-bz-b0-fm-c0.pnvm"),
        )
    } else if device_id == 0x2725 {
        (
            owned(&["iwlwifi-ty-a0-gf-a0-59.ucode", "iwlwifi-ty-a0-gf-a0-84.ucode"]),
            Some("iwlwifi-ty-a0-gf-a0.pnvm"),
        )
    } else if device_id == 0x7af0 && subsystem_id == 0x4090 {
        (
            owned(&["iwlwifi-so-a0-gf-a0-64.ucode", "iwlwifi-so-a0-gf-a0-66.ucode"]),
            Some("iwlwifi-so-a0-gf-a0.pnvm"),
        )
    } else if device_id == 0x7af0 && subsystem_id == 0x4070 {
        (owned(&["iwlwifi-so-a0-hr-b0-64.ucode"]), Some("iwlwifi-so-a0-hr-b0.pnvm"))
    } else if device_id == 0x7af0 && (subsystem_id == 0x0aaa || subsystem_id == 0x0030) {
        (
            owned(&["iwlwifi-so-a0-jf-b0-64.ucode", "iwlwifi-9000-pu-b0-jf-b0-46.ucode"]),
            Some("iwlwifi-so-a0-jf-b0.pnvm"),
        )
    } else {
        (owned(&["iwlwifi-unknown"]), None)
    };
    let family = if device_id == 0x7740 {
        "intel-bz-arrow-lake"
    } else if device_id == 0x2725 {
        "intel-ax210"
    } else if device_id == 0x7af0 && subsystem_id == 0x4090 {
        "intel-ax211"
    } else if device_id == 0x7af0 && subsystem_id == 0x4070 {
        "intel-ax201"
    } else if device_id == 0x7af0 && (subsystem_id == 0x0aaa || subsystem_id == 0x0030) {
        "intel-9462-9560"
    } else {
        "intel-unknown"
    };
    let pnvm = match pnvm {
        Some(p) => Some(String::from_str(p)),
        None => None,
    };
    assert(texts(stems@) =~= ucode_names(device_id, subsystem_id));
    (String::from_str(family), stems, pnvm)
}

/// An Intel wireless controller found on the PCI scheme, with the firmware
/// it would load and which of those files are present.
#[derive(Clone, Debug)]
pub struct Candidate {
    pub location: PciLocation,
    /// Where its configuration space was read, as written in reports.
    pub config_path: String,
    pub device_id: u16,
    pub subsystem_id: u16,
    pub family: String,
    pub ucode_candidates: Vec<String>,
    /// The first microcode file that is present.
    pub selected_ucode: Option<String>,
    pub pnvm_candidate: Option<String>,
    /// The platform NVM file, where it is present.
    pub pnvm_found: Option<String>,
}

/// The first name whose file is present.
pub open spec fn first_present(names: Seq<Seq<char>>, present: Seq<bool>, i: int) -> Option<
    Seq<char>,
>
    decreases names.len() - i,
{
    if i < 0 || i >= names.len() || i >= present.len() {
        None
    } else if present[i] {
        Some(names[i])
    } else {
        first_present(names, present, i + 1)
    }
}

fn pick_present(names: &Vec<String>, present: &[bool]) -> (r: Option<String>)
    requires
        present@.len() == names@.len(),
    ensures
        opt_text(r) == first_present(texts(names@), present@, 0),
{
    let mut i: usize = 0;
    while i < names.len()
        invariant
            i <= names@.len(),
            present@.len() == names@.len(),
            first_present(texts(names@), present@, 0) == first_present(
                texts(names@),
                present@,
                i as int,
            ),
        decreases names@.len() - i,
    {
        if present[i] {
            proof {
                assert(texts(names@)[i as int] == names@[i as int]@);
            }
            return Some(String::from_str(names[i].as_str()));
        }
        i = i + 1;
    }
    None
}

/// A candidate for a controller, given which of its microcode files
/// (`ucode_present`, in the order of `ucode_names`) and whether its
/// platform NVM file are present in the firmware directory.
pub fn candidate_for(
    location: PciLocation,
    config_path: String,
    device_id: u16,
    subsystem_id: u16,
    ucode_present: &[bool],
    pnvm_present: bool,
) -> (r: Candidate)
    requires
        ucode_present@.len() == ucode_names(device_id, subsystem_id).len(),
    ensures
        r.location == location,
        r.config_path@ == config_path@,
        r.device_id == device_id,
        r.subsystem_id == subsystem_id,
        r.family@ == family_of(device_id, subsystem_id),
        texts(r.ucode_candidates@) == ucode_names(device_id, subsystem_id),
        opt_text(r.selected_ucode) == first_present(
            ucode_names(device_id, subsystem_id),
            ucode_present@,
            0,
        ),
        opt_text(r.pnvm_candidate) == pnvm_name(device_id, subsystem_id),
        opt_text(r.pnvm_found) == (if pnvm_present {
            pnvm_name(device_id, subsystem_id)
        } else {
            None
        }),
{
    let (family, names, pnvm) = intel_firmware_candidates(device_id, subsystem_id);
    let selected = pick_present(&names, ucode_present);
    let pnvm_found = if pnvm_present {
        match &pnvm {
            Some(p) => Some(String::from_str(p.as_str())),
            None => None,
        }
    } else {
        None
    };
    Candidate {
        location,
        config_path,
        device_id,
        subsystem_id,
        family,
        ucode_candidates: names,
        selected_ucode: selected,
        pnvm_candidate: pnvm,
        pnvm_found,
    }
}

/// The first candidate at or after `i` whose location is written `target`,
/// or -1.
pub open spec fn matching_at(cs: Seq<Candidate>, target: Seq<char>, i: int) -> int
    decreases cs.len() - i,
{
    if i < 0 || i >= cs.len() {
        -1
    } else if location_text(cs[i].location) == target {
        i
    } else {
        matching_at(cs, target, i + 1)
    }
}

pub proof fn lemma_matching_at(cs: Seq<Candidate>, target: Seq<char>, i: int)
    requires
        0 <= i,
    ensures
        matching_at(cs, target, i) == -1 || (i <= matching_at(cs, target, i) < cs.len()
            && location_text(cs[matching_at(cs, target, i)].location) == target),
    decreases cs.len() - i,
{
    if i < cs.len() && location_text(cs[i].location) != target {
        lemma_matching_at(cs, target, i + 1);
    }
}

/// Picks the candidate a command addresses: the one at the location given,
/// or the first one found when none is given.
pub fn select_candidate(candidates: Vec<Candidate>, target: Option<&str>) -> (r: Result<
    Candidate,
    DriverError,
>)
    ensures
        match target {
            Some(t) => {
                let k = matching_at(candidates@, t@, 0);
                if k >= 0 {
                    r == Ok::<Candidate, DriverError>(candidates@[k])
                } else {
                    r matches Err(DriverError::Unsupported(m)) && m@
                        == "no Intel Wi-Fi candidate matches "@ + t@
                }
            },
            None => if candidates@.len() > 0 {
                r == Ok::<Candidate, DriverError>(candidates@[0])
            } else {
                r matches Err(DriverError::Unsupported(m)) && m@
                    == "no supported Intel Wi-Fi candidates detected"@
            },
        },
        target matches Some(t) ==> (r matches Ok(c) ==> location_text(c.location) == t@),
{
    let mut pool = candidates;
    match target {
        Some(t) => {
            proof {
                lemma_matching_at(candidates@, t@, 0);
            }
            let mut i: usize = 0;
            let ghost all = pool@;
            while i < pool.len()
                invariant
                    pool@ == all,
                    all == candidates@,
                    target == Some(t),
                    i <= all.len(),
                    matching_at(all, t@, 0) == matching_at(all, t@, i as int),
                decreases all.len() - i,
            {
                let text = location_string(pool[i].location);
                let wanted = String::from_str(t);
                if text == wanted {
                    proof {
                        assert(text@ == t@);
                        assert(matching_at(all, t@, i as int) == i);
                    }
                    let c = pool.remove(i);
                    return Ok(c);
                }
                i = i + 1;
            }
            let mut m = String::from_str("no Intel Wi-Fi candidate matches ");
            m.append(t);
            Err(DriverError::Unsupported(m))
        },
        None => {
            if pool.len() > 0 {
                Ok(pool.remove(0))
            } else {
                Err(DriverError::Unsupported(String::from_str("no supported Intel Wi-Fi candidates detected")))
            }
        },
    }
}

/// A string, or a default where there is none.
pub open spec fn or_text(o: Option<String>, dflt: Seq<char>) -> Seq<char> {
    match o {
        Some(s) => s@,
        None => dflt,
    }
}

fn or_default(o: &Option<String>, dflt: &str) -> (r: String)
    ensures
        r@ == or_text(*o, dflt@),
{
    match o {
        Some(s) => String::from_str(s.as_str()),
        None => String::from_str(dflt),
    }
}

/// The platform NVM file to name in reports: the one found, else the one
/// expected, else `none`.
pub open spec fn reported_pnvm(c: Candidate) -> Seq<char> {
    match c.pnvm_found {
        Some(f) => f@,
        None => or_text(c.pnvm_candidate, "none"@),
    }
}

fn pnvm_for_report(c: &Candidate) -> (r: String)
    ensures
        r@ == reported_pnvm(*c),
{
    match &c.pnvm_found {
        Some(f) => String::from_str(f.as_str()),
        None => or_default(&c.pnvm_candidate, "none"),
    }
}

fn line(key: &str, value: &str) -> (r: String)
    ensures
        r@ == key@ + value@,
{
    let mut s = String::from_str(key);
    s.append(value);
    s
}

fn push_line(lines: &mut Vec<String>, l: String)
    ensures
        texts(final(lines)@) == texts(old(lines)@).push(l@),
{
    proof {
        assert(texts(lines@.push(l)) =~= texts(lines@).push(l@));
    }
    lines.push(l);
}

/// The report of `--status` where the Linux driver port gives none: what
/// was found of the controller, and whether its firmware could be read.
pub open spec fn status_report(c: Candidate, firmware_ready: bool) -> Seq<Seq<char>> {
    seq![
        "device="@ + location_text(c.location),
        "config_path="@ + c.config_path@,
        "device_id=0x"@ + hex_lower(c.device_id as nat, 4),
        "subsystem_id=0x"@ + hex_lower(c.subsystem_id as nat, 4),
        "family="@ + c.family@,
        "selected_ucode="@ + or_text(c.selected_ucode, "missing"@),
        "selected_pnvm="@ + reported_pnvm(c),
        if firmware_ready {
            "status=firmware-ready"@
        } else {
            "status=device-detected"@
        },
    ]
}

/// Builds the `--status` report.
pub fn status_lines(c: &Candidate, firmware_ready: bool) -> (r: Vec<String>)
    ensures
        texts(r@) == status_report(*c, firmware_ready),
{
    let mut lines: Vec<String> = Vec::new();
    push_line(&mut lines, line("device=", location_string(c.location).as_str()));
    push_line(&mut lines, line("config_path=", c.config_path.as_str()));
    let mut d = String::from_str("device_id=0x");
    push_hex_lower(&mut d, c.device_id as u64, 4);
    push_line(&mut lines, d);
    let mut sub = String::from_str("subsystem_id=0x");
    push_hex_lower(&mut sub, c.subsystem_id as u64, 4);
    push_line(&mut lines, sub);
    push_line(&mut lines, line("family=", c.family.as_str()));
    push_line(&mut lines, line("selected_ucode=", or_default(&c.selected_ucode, "missing").as_str()));
    push_line(&mut lines, line("selected_pnvm=", pnvm_for_report(c).as_str()));
    if firmware_ready {
        push_line(&mut lines, String::from_str("status=firmware-ready"));
    } else {
        push_line(&mut lines, String::from_str("status=device-detected"));
    }
    assert(texts(lines@) =~= status_report(*c, firmware_ready));
    lines
}

/// The firmware files `--prepare` reads: the selected microcode and the
/// expected platform NVM file, or the message of the error when no
/// microcode file is present.
pub open spec fn firmware_plan(c: Candidate) -> Result<(Seq<char>, Option<Seq<char>>), Seq<char>> {
    match c.selected_ucode {
        Some(u) => Ok((u@, opt_text(c.pnvm_candidate))),
        None => Err(
            "missing firmware for "@ + c.family@ + " (expected one of: "@
                + crate::fat_report::joined(texts(c.ucode_candidates@), ", "@) + ")"@,
        ),
    }
}

/// Which firmware files to read before a controller can be brought up.
pub fn firmware_to_load(c: &Candidate) -> (r: Result<(String, Option<String>), DriverError>)
    ensures
        match firmware_plan(*c) {
            Ok((u, p)) => r matches Ok((ru, rp)) && ru@ == u && opt_text(rp) == p,
            Err(m) => r matches Err(DriverError::Unsupported(e)) && e@ == m,
        },
{
    match &c.selected_ucode {
        Some(u) => {
            let p = match &c.pnvm_candidate {
                Some(p) => Some(String::from_str(p.as_str())),
                None => None,
            };
            Ok((String::from_str(u.as_str()), p))
        },
        None => {
            let mut m = String::from_str("missing firmware for ");
            m.append(c.family.as_str());
            m.append(" (expected one of: ");
            let joined = crate::fat_report::join_strings(&c.ucode_candidates, ", ");
            proof {
                assert(crate::fat_report::texts(c.ucode_candidates@) =~= texts(c.ucode_candidates@));
            }
            m.append(joined.as_str());
            m.append(")");
            Err(DriverError::Unsupported(m))
        },
    }
}

/// The report of `--prepare` once the firmware files were read.
pub open spec fn prepared_report(c: Candidate, ucode: Seq<char>) -> Seq<Seq<char>> {
    seq![
        "device="@ + location_text(c.location),
        "family="@ + c.family@,
        "status=firmware-ready"@,
        "selected_ucode="@ + ucode,
        "selected_pnvm="@ + or_text(c.pnvm_candidate, "none"@),
    ]
}

/// Builds the `--prepare` report.
pub fn prepared_lines(c: &Candidate, ucode: &str) -> (r: Vec<String>)
    ensures
        texts(r@) == prepared_report(*c, ucode@),
{
    let mut lines: Vec<String> = Vec::new();
    push_line(&mut lines, line("device=", location_string(c.location).as_str()));
    push_line(&mut lines, line("family=", c.family.as_str()));
    push_line(&mut lines, String::from_str("status=firmware-ready"));
    push_line(&mut lines, line("selected_ucode=", ucode));
    push_line(&mut lines, line("selected_pnvm=", or_default(&c.pnvm_candidate, "none").as_str()));
    assert(texts(lines@) =~= prepared_report(*c, ucode@));
    lines
}

/// A bring-up stage as it ends on a host without the hardware path: the
/// stage reports that it ran and what it skipped.
#[derive(Clone, Copy, Debug, PartialEq, Eq, Structural)]
pub enum HostStage {
    Transport,
    Activate,
    Scan,
    Retry,
    Disconnect,
    FullInit,
    IrqTest,
    DmaTest,
}

/// The lines a stage adds to the report of the stage before it.
pub open spec fn stage_lines(stage: HostStage) -> Seq<Seq<char>> {
    match stage {
        HostStage::Transport => seq![
            "status=transport-ready"@,
            "bar0_addr=host-skipped"@,
            "bar0_size=host-skipped"@,
            "irq=host-skipped"@,
        ],
        HostStage::Activate => seq!["status=nic-activated"@, "activation=host-skipped"@],
        HostStage::Scan => seq![
            "status=scanning"@,
            "scan_result=linuxkpi-station-scan-ready"@,
            "scan_mode=bounded-host-fallback"@,
        ],
        HostStage::Retry => seq!["status=device-detected"@, "link_state=link=retrying"@],
        HostStage::Disconnect => seq![
            "status=device-detected"@,
            "disconnect_result=host-bounded disconnected"@,
        ],
        HostStage::FullInit => seq!["status=full-init-ready"@, "mac80211=host-skipped"@],
        HostStage::IrqTest => seq!["irq_test=host-skipped"@],
        HostStage::DmaTest => seq!["dma_test=host-skipped"@],
    }
}

fn push_all(lines: &mut Vec<String>, extra: &[&str])
    ensures
        texts(final(lines)@) == texts(old(lines)@) + extra@.map_values(|e: &str| e@),
{
    let ghost start = texts(lines@);
    let mut i: usize = 0;
    while i < extra.len()
        invariant
            i <= extra@.len(),
            texts(lines@) == start + extra@.subrange(0, i as int).map_values(|e: &str| e@),
        decreases extra@.len() - i,
    {
        push_line(lines, String::from_str(extra[i]));
        proof {
            assert(extra@.subrange(0, i + 1).map_values(|e: &str| e@) =~= extra@.subrange(
                0,
                i as int,
            ).map_values(|e: &str| e@).push(extra@[i as int]@));
        }
        i = i + 1;
    }
    assert(extra@.subrange(0, extra@.len() as int) =~= extra@);
}

/// Ends a stage on a host: the report of the stage before it, then the
/// stage's own lines.
pub fn host_stage(lines: Vec<String>, stage: HostStage) -> (r: Vec<String>)
    ensures
        texts(r@) == texts(lines@) + stage_lines(stage),
{
    let mut lines = lines;
    let ghost start = texts(lines@);
    match stage {
        HostStage::Transport => push_all(
            &mut lines,
            &[
                "status=transport-ready",
                "bar0_addr=host-skipped",
                "bar0_size=host-skipped",
                "irq=host-skipped",
            ],
        ),
        HostStage::Activate => push_all(
            &mut lines,
            &["status=nic-activated", "activation=host-skipped"],
        ),
        HostStage::Scan => push_all(
            &mut lines,
            &[
                "status=scanning",
                "scan_result=linuxkpi-station-scan-ready",
                "scan_mode=bounded-host-fallback",
            ],
        ),
        HostStage::Retry => push_all(
            &mut lines,
            &["status=device-detected", "link_state=link=retrying"],
        ),
        HostStage::Disconnect => push_all(
            &mut lines,
            &["status=device-detected", "disconnect_result=host-bounded disconnected"],
        ),
        HostStage::FullInit => push_all(
            &mut lines,
            &["status=full-init-ready", "mac80211=host-skipped"],
        ),
        HostStage::IrqTest => push_all(&mut lines, &["irq_test=host-skipped"]),
        HostStage::DmaTest => push_all(&mut lines, &["dma_test=host-skipped"]),
    }
    assert(texts(lines@) =~= start + stage_lines(stage));
    lines
}

/// Why a connect request is refused before anything is sent: no network
/// name, a security mode other than `open` and `wpa2-psk`, or `wpa2-psk`
/// without a key.
pub open spec fn connect_refusal(ssid: Seq<char>, security: Seq<char>, key: Option<Seq<char>>) -> Option<
    Seq<char>,
> {
    if ssid.len() == 0 {
        Some("missing ssid"@)
    } else if security != "open"@ && security != "wpa2-psk"@ {
        Some("unsupported security "@ + security)
    } else if security == "wpa2-psk"@ && (match key {
        Some(k) => k.len() == 0,
        None => true,
    }) {
        Some("missing key"@)
    } else {
        None
    }
}

/// The view of an optional string slice.
pub open spec fn opt_str(o: Option<&str>) -> Option<Seq<char>> {
    match o {
        Some(s) => Some(s@),
        None => None,
    }
}

/// Ends `--connect` on a host: checks the request, then adds to the
/// activation report that association is pending.
pub fn host_connect(lines: Vec<String>, ssid: &str, security: &str, key: Option<&str>) -> (r: Result<
    Vec<String>,
    DriverError,
>)
    ensures
        match connect_refusal(ssid@, security@, opt_str(key)) {
            Some(m) => r matches Err(DriverError::Unsupported(e)) && e@ == m,
            None => r matches Ok(v) && texts(v@) == texts(lines@) + seq![
                "status=associating"@,
                "connect_result=host-bounded-pending ssid="@ + ssid@ + " security="@ + security@,
            ],
        },
{
    if ssid.unicode_len() == 0 {
        return Err(DriverError::Unsupported(String::from_str("missing ssid")));
    }
    let sec = String::from_str(security);
    let open = sec == String::from_str("open");
    let wpa2 = sec == String::from_str("wpa2-psk");
    if !open && !wpa2 {
        return Err(DriverError::Unsupported(line("unsupported security ", security)));
    }
    let no_key = match key {
        Some(k) => k.unicode_len() == 0,
        None => true,
    };
    if wpa2 && no_key {
        return Err(DriverError::Unsupported(String::from_str("missing key")));
    }
    let mut lines = lines;
    let ghost start = texts(lines@);
    push_line(&mut lines, String::from_str("status=associating"));
    let mut l = String::from_str("connect_result=host-bounded-pending ssid=");
    l.append(ssid);
    l.append(" security=");
    l.append(security);
    push_line(&mut lines, l);
    assert(texts(lines@) =~= start + seq![
        "status=associating"@,
        "connect_result=host-bounded-pending ssid="@ + ssid@ + " security="@ + security@,
    ]);
    Ok(lines)
}

/// `s` begins with `p`.
pub open spec fn text_starts_with(s: Seq<char>, p: Seq<char>) -> bool {
    p.len() <= s.len() && s.subrange(0, p.len() as int) == p
}

/// Whether `s` begins with `p`.
pub fn starts_with_text(s: &str, p: &str) -> (r: bool)
    ensures
        r == text_starts_with(s@, p@),
{
    let n = s.unicode_len();
    let m = p.unicode_len();
    if m > n {
        return false;
    }
    let mut k: usize = 0;
    while k < m
        invariant
            k <= m <= n,
            n == s@.len(),
            m == p@.len(),
            forall|j: int| 0 <= j < k ==> s@[j] == p@[j],
        decreases m - k,
    {
        if s.get_char(k) != p.get_char(k) {
            assert(s@.subrange(0, m as int)[k as int] != p@[k as int]);
            return false;
        }
        k = k + 1;
    }
    assert(s@.subrange(0, m as int) =~= p@);
    true
}

/// The Bz family (Arrow Lake) addresses its MAC and resets through other
/// bits than the older families.
pub open spec fn bz_family(family: Seq<char>) -> bool {
    text_starts_with(family, "intel-bz-"@)
}

/// Whether a family is of the Bz generation.
pub fn is_bz_family(family: &str) -> (r: bool)
    ensures
        r == bz_family(family@),
{
    starts_with_text(family, "intel-bz-")
}

/// The general-purpose control register.
pub const IWL_CSR_GP_CNTRL: usize = 0x024;
/// The reset register.
pub const IWL_CSR_RESET: usize = 0x020;
/// The hardware interface configuration register.
pub const IWL_CSR_HW_IF_CONFIG_REG: usize = 0x000;
/// MAC access request, older families.
pub const IWL_CSR_GP_CNTRL_REG_FLAG_MAC_ACCESS_REQ: u32 = 0x00000008;
/// MAC access request, Bz family.
pub const IWL_CSR_GP_CNTRL_REG_FLAG_BZ_MAC_ACCESS_REQ: u32 = 0x00200000;
/// The MAC clock is ready.
pub const IWL_CSR_GP_CNTRL_REG_FLAG_MAC_CLOCK_READY: u32 = 0x00000001;
/// The NIC is ready.
pub const IWL_CSR_HW_IF_CONFIG_REG_BIT_NIC_READY: u32 = 0x00000004;
/// Software reset, Bz family (in the general-purpose control register).
pub const IWL_CSR_GP_CNTRL_REG_FLAG_SW_RESET_BZ: u32 = 0x80000000;
/// Software reset, older families (in the reset register).
pub const IWL_CSR_RESET_REG_FLAG_SW_RESET: u32 = 0x00000080;
/// Initialisation done.
pub const IWL_CSR_GP_CNTRL_REG_FLAG_INIT_DONE: u32 = 0x00000004;

/// The bit that requests MAC access for a family.
pub fn mac_access_request(family: &str) -> (r: u32)
    ensures
        r == (if bz_family(family@) {
            IWL_CSR_GP_CNTRL_REG_FLAG_BZ_MAC_ACCESS_REQ
        } else {
            IWL_CSR_GP_CNTRL_REG_FLAG_MAC_ACCESS_REQ
        }),
{
    if is_bz_family(family) {
        IWL_CSR_GP_CNTRL_REG_FLAG_BZ_MAC_ACCESS_REQ
    } else {
        IWL_CSR_GP_CNTRL_REG_FLAG_MAC_ACCESS_REQ
    }
}

/// `yes` or `no`.
pub open spec fn yes_no(b: bool) -> Seq<char> {
    if b {
        "yes"@
    } else {
        "no"@
    }
}

fn yes_no_str(b: bool) -> (r: &'static str)
    ensures
        r@ == yes_no(b),
{
    if b {
        "yes"
    } else {
        "no"
    }
}

/// The report lines of a transport bring-up on the hardware: the memory
/// window, the interrupt, the control register before and after the MAC
/// access request, the interface configuration, and the two ready bits.
pub open spec fn transport_report(
    bar0_addr: u64,
    bar0_size: u64,
    irq: Option<u32>,
    gp_before: u32,
    gp_after: u32,
    hw_if: u32,
) -> Seq<Seq<char>> {
    seq![
        "status=transport-ready"@,
        "bar0_addr=0x"@ + hex_digits(bar0_addr as nat),
        "bar0_size=0x"@ + hex_digits(bar0_size as nat),
        "irq="@ + match irq {
            Some(i) => crate::text::decimal(i as nat),
            None => "none"@,
        },
        "gp_cntrl_before=0x"@ + hex_lower(gp_before as nat, 8),
        "gp_cntrl_after=0x"@ + hex_lower(gp_after as nat, 8),
        "hw_if_config=0x"@ + hex_lower(hw_if as nat, 8),
        "mac_clock_ready="@ + yes_no(gp_after & IWL_CSR_GP_CNTRL_REG_FLAG_MAC_CLOCK_READY != 0),
        "nic_ready="@ + yes_no(hw_if & IWL_CSR_HW_IF_CONFIG_REG_BIT_NIC_READY != 0),
    ]
}

fn hex_line(key: &str, x: u64) -> (r: String)
    ensures
        r@ == key@ + hex_digits(x as nat),
{
    let mut s = String::from_str(key);
    push_hex_digits(&mut s, x);
    s
}

fn reg_line(key: &str, x: u32) -> (r: String)
    ensures
        r@ == key@ + hex_lower(x as nat, 8),
{
    let mut s = String::from_str(key);
    push_hex_lower(&mut s, x as u64, 8);
    s
}

/// Adds the hardware transport report to the prepare report.
pub fn transport_lines(
    lines: Vec<String>,
    bar0_addr: u64,
    bar0_size: u64,
    irq: Option<u32>,
    gp_before: u32,
    gp_after: u32,
    hw_if: u32,
) -> (r: Vec<String>)
    ensures
        texts(r@) == texts(lines@) + transport_report(
            bar0_addr,
            bar0_size,
            irq,
            gp_before,
            gp_after,
            hw_if,
        ),
{
    let mut lines = lines;
    let ghost start = texts(lines@);
    push_line(&mut lines, String::from_str("status=transport-ready"));
    push_line(&mut lines, hex_line("bar0_addr=0x", bar0_addr));
    push_line(&mut lines, hex_line("bar0_size=0x", bar0_size));
    let irq_line = match irq {
        Some(i) => {
            let mut t = String::from_str("irq=");
            crate::text::push_decimal(&mut t, i as u64);
            t
        },
        None => line("irq=", "none"),
    };
    push_line(&mut lines, irq_line);
    push_line(&mut lines, reg_line("gp_cntrl_before=0x", gp_before));
    push_line(&mut lines, reg_line("gp_cntrl_after=0x", gp_after));
    push_line(&mut lines, reg_line("hw_if_config=0x", hw_if));
    push_line(
        &mut lines,
        line(
            "mac_clock_ready=",
            yes_no_str(gp_after & IWL_CSR_GP_CNTRL_REG_FLAG_MAC_CLOCK_READY != 0),
        ),
    );
    push_line(
        &mut lines,
        line("nic_ready=", yes_no_str(hw_if & IWL_CSR_HW_IF_CONFIG_REG_BIT_NIC_READY != 0)),
    );
    assert(texts(lines@) =~= start + transport_report(
        bar0_addr,
        bar0_size,
        irq,
        gp_before,
        gp_after,
        hw_if,
    ));
    lines
}

/// How a NIC is activated: which register gets which reset bit set.
pub open spec fn activation_spec(bz: bool) -> (usize, u32) {
    if bz {
        (IWL_CSR_GP_CNTRL, IWL_CSR_GP_CNTRL_REG_FLAG_SW_RESET_BZ)
    } else {
        (IWL_CSR_RESET, IWL_CSR_RESET_REG_FLAG_SW_RESET)
    }
}

/// The register and the bit that activate a NIC of a family.
pub fn activation_target(family: &str) -> (r: (usize, u32))
    ensures
        r == activation_spec(bz_family(family@)),
{
    if is_bz_family(family) {
        (IWL_CSR_GP_CNTRL, IWL_CSR_GP_CNTRL_REG_FLAG_SW_RESET_BZ)
    } else {
        (IWL_CSR_RESET, IWL_CSR_RESET_REG_FLAG_SW_RESET)
    }
}

/// The lines of an activation on the hardware: the method, the register
/// before and after, and for the Bz family whether initialisation is done.
pub open spec fn activation_report(bz: bool, before: u32, after: u32) -> Seq<Seq<char>> {
    if bz {
        seq![
            "status=nic-activated"@,
            "activation_method=gp-cntrl-sw-reset"@,
            "activation_before=0x"@ + hex_lower(before as nat, 8),
            "activation_after=0x"@ + hex_lower(after as nat, 8),
            "init_done="@ + yes_no(after & IWL_CSR_GP_CNTRL_REG_FLAG_INIT_DONE != 0),
        ]
    } else {
        seq![
            "status=nic-activated"@,
            "activation_method=csr-reset-sw-reset"@,
            "activation_before=0x"@ + hex_lower(before as nat, 8),
            "activation_after=0x"@ + hex_lower(after as nat, 8),
        ]
    }
}

/// Adds the hardware activation report to the transport report.
pub fn activation_lines(lines: Vec<String>, family: &str, before: u32, after: u32) -> (r: Vec<
    String,
>)
    ensures
        texts(r@) == texts(lines@) + activation_report(bz_family(family@), before, after),
{
    let mut lines = lines;
    let ghost start = texts(lines@);
    let bz = is_bz_family(family);
    push_line(&mut lines, String::from_str("status=nic-activated"));
    if bz {
        push_line(&mut lines, String::from_str("activation_method=gp-cntrl-sw-reset"));
    } else {
        push_line(&mut lines, String::from_str("activation_method=csr-reset-sw-reset"));
    }
    push_line(&mut lines, reg_line("activation_before=0x", before));
    push_line(&mut lines, reg_line("activation_after=0x", after));
    if bz {
        push_line(
            &mut lines,
            line("init_done=", yes_no_str(after & IWL_CSR_GP_CNTRL_REG_FLAG_INIT_DONE != 0)),
        );
    }
    assert(texts(lines@) =~= start + activation_report(bz, before, after));
    lines
}

/// The `--probe` line of one candidate.
pub open spec fn summary_text(c: Candidate) -> Seq<char> {
    "device="@ + location_text(c.location) + " family="@ + c.family@ + " ucode_selected="@
        + or_text(c.selected_ucode, "missing"@) + " pnvm="@ + reported_pnvm(c)
        + " ucode_candidates="@ + crate::fat_report::joined(texts(c.ucode_candidates@), ","@)
}

/// The `--probe` report: how many candidates, then a line for each.
pub open spec fn probe_report(cs: Seq<Candidate>) -> Seq<Seq<char>> {
    seq!["candidates="@ + crate::text::decimal(cs.len())] + cs.map_values(
        |c: Candidate| summary_text(c),
    )
}

fn summary_line(c: &Candidate) -> (r: String)
    ensures
        r@ == summary_text(*c),
{
    let mut s = line("device=", location_string(c.location).as_str());
    s.append(" family=");
    s.append(c.family.as_str());
    s.append(" ucode_selected=");
    s.append(or_default(&c.selected_ucode, "missing").as_str());
    s.append(" pnvm=");
    s.append(pnvm_for_report(c).as_str());
    s.append(" ucode_candidates=");
    let joined = crate::fat_report::join_strings(&c.ucode_candidates, ",");
    proof {
        assert(crate::fat_report::texts(c.ucode_candidates@) =~= texts(c.ucode_candidates@));
    }
    s.append(joined.as_str());
    s
}

/// Builds the `--probe` report.
pub fn probe_lines(candidates: &Vec<Candidate>) -> (r: Vec<String>)
    ensures
        texts(r@) == probe_report(candidates@),
{
    let mut lines: Vec<String> = Vec::new();
    let count = crate::text::numbered("candidates=", candidates.len() as u64, "");
    proof {
        reveal_strlit("");
    }
    push_line(&mut lines, count);
    let mut i: usize = 0;
    while i < candidates.len()
        invariant
            i <= candidates@.len(),
            texts(lines@) == seq!["candidates="@ + crate::text::decimal(candidates@.len())]
                + candidates@.subrange(0, i as int).map_values(|c: Candidate| summary_text(c)),
        decreases candidates@.len() - i,
    {
        push_line(&mut lines, summary_line(&candidates[i]));
        proof {
            assert(candidates@.subrange(0, i + 1).map_values(|c: Candidate| summary_text(c))
                =~= candidates@.subrange(0, i as int).map_values(|c: Candidate| summary_text(c)).push(
                summary_text(candidates@[i as int]),
            ));
        }
        i = i + 1;
    }
    assert(candidates@.subrange(0, candidates@.len() as int) =~= candidates@);
    lines
}

/// Text without its leading NUL characters.
pub open spec fn without_leading_nuls(s: Seq<char>) -> Seq<char>
    decreases s.len(),
{
    if s.len() > 0 && s[0] == '\0' {
        without_leading_nuls(s.drop_first())
    } else {
        s
    }
}

/// Text without its trailing NUL characters.
pub open spec fn without_trailing_nuls(s: Seq<char>) -> Seq<char>
    decreases s.len(),
{
    if s.len() > 0 && s.last() == '\0' {
        without_trailing_nuls(s.drop_last())
    } else {
        s
    }
}

/// The line the Linux driver port leaves in its output buffer: the bytes
/// decoded (lossily) as UTF-8, NUL characters at either end removed, then
/// white space at either end.
pub open spec fn reply_text(out: Seq<u8>) -> Seq<char> {
    crate::textparse::trimmed(
        without_trailing_nuls(without_leading_nuls(crate::fat_label::lossy_utf8(out))),
    )
}

/// Reads the line the Linux driver port wrote into its output buffer.
pub fn reply_line(out: &[u8]) -> (r: String)
    ensures
        r@ == reply_text(out@),
{
    let s = crate::fat_label::decode_utf8_lossy(out);
    let n = s.as_str().unicode_len();
    let mut a: usize = 0;
    assert(s@.subrange(0, n as int) =~= s@);
    while a < n && s.as_str().get_char(a) == '\0'
        invariant
            a <= n,
            n == s@.len(),
            without_leading_nuls(s@) == without_leading_nuls(s@.subrange(a as int, n as int)),
        decreases n - a,
    {
        assert(s@.subrange(a as int, n as int).drop_first() =~= s@.subrange(a + 1, n as int));
        a = a + 1;
    }
    let mut b: usize = n;
    while b > a && s.as_str().get_char(b - 1) == '\0'
        invariant
            a <= b <= n,
            n == s@.len(),
            without_leading_nuls(s@) == s@.subrange(a as int, n as int),
            without_trailing_nuls(s@.subrange(a as int, n as int)) == without_trailing_nuls(
                s@.subrange(a as int, b as int),
            ),
        decreases b,
    {
        assert(s@.subrange(a as int, b as int).drop_last() =~= s@.subrange(a as int, b - 1));
        b = b - 1;
    }
    let t = s.as_str().substring_char(a, b);
    String::from_str(crate::textparse::trim_whitespace(t))
}

/// A stage of the Linux driver port path, which reports through the port.
#[derive(Clone, Copy, Debug, PartialEq, Eq, Structural)]
pub enum KpiStage {
    Prepare,
    TransportProbe,
    InitTransport,
    Activate,
    Scan,
    Connect,
    Disconnect,
    Status,
    FullInit,
}

/// The stage's name in reports.
pub open spec fn kpi_stage_name(stage: KpiStage) -> Seq<char> {
    match stage {
        KpiStage::Prepare => "prepare"@,
        KpiStage::TransportProbe => "transport-probe"@,
        KpiStage::InitTransport => "init-transport"@,
        KpiStage::Activate => "activate"@,
        KpiStage::Scan => "scan"@,
        KpiStage::Connect => "connect"@,
        KpiStage::Disconnect => "disconnect"@,
        KpiStage::Status => "status"@,
        KpiStage::FullInit => "full-init"@,
    }
}

fn kpi_stage_str(stage: KpiStage) -> (r: &'static str)
    ensures
        r@ == kpi_stage_name(stage),
{
    match stage {
        KpiStage::Prepare => "prepare",
        KpiStage::TransportProbe => "transport-probe",
        KpiStage::InitTransport => "init-transport",
        KpiStage::Activate => "activate",
        KpiStage::Scan => "scan",
        KpiStage::Connect => "connect",
        KpiStage::Disconnect => "disconnect",
        KpiStage::Status => "status",
        KpiStage::FullInit => "full-init",
    }
}

/// A signed number in decimal.
pub open spec fn signed_decimal(x: int) -> Seq<char> {
    if x < 0 {
        "-"@ + crate::text::decimal((-x) as nat)
    } else {
        crate::text::decimal(x as nat)
    }
}

/// The error of a port stage that returned a nonzero code.
pub fn kpi_unavailable(stage: KpiStage, rc: i32) -> (r: DriverError)
    ensures
        r matches DriverError::Unsupported(m) && m@ == "linux-kpi "@ + kpi_stage_name(stage)
            + " path unavailable ("@ + signed_decimal(rc as int) + ")"@,
{
    let mut m = String::from_str("linux-kpi ");
    m.append(kpi_stage_str(stage));
    m.append(" path unavailable (");
    if rc < 0 {
        m.append("-");
        let mag: i64 = -(rc as i64);
        crate::text::push_decimal(&mut m, mag as u64);
    } else {
        crate::text::push_decimal(&mut m, rc as u64);
    }
    m.append(")");
    DriverError::Unsupported(m)
}

/// The report of a port stage: the stages that start afresh name the
/// device (and some the family and the status) before the port's line;
/// the others add the port's line and their status to the report of the
/// stage before them (connect and disconnect put the status first).
pub open spec fn kpi_report(c: Candidate, before: Seq<Seq<char>>, stage: KpiStage, reply: Seq<char>) -> Seq<
    Seq<char>,
> {
    let dev = "device="@ + location_text(c.location);
    let fam = "family="@ + c.family@;
    match stage {
        KpiStage::Prepare => seq![dev, fam, "status=firmware-ready"@, reply],
        KpiStage::TransportProbe => seq![dev, reply],
        KpiStage::Scan => seq![dev, "status=scanning"@, reply],
        KpiStage::Status => seq![dev, fam, reply],
        KpiStage::FullInit => seq![dev, "status=full-init-ready"@, reply],
        KpiStage::InitTransport => before + seq![reply, "status=transport-ready"@],
        KpiStage::Activate => before + seq![reply, "status=nic-activated"@],
        KpiStage::Connect => before + seq!["status=associating"@, reply],
        KpiStage::Disconnect => before + seq!["status=device-detected"@, reply],
    }
}

/// Builds the report of a port stage from the port's line.
pub fn kpi_lines(c: &Candidate, before: Vec<String>, stage: KpiStage, reply: String) -> (r: Vec<
    String,
>)
    ensures
        texts(r@) == kpi_report(*c, texts(before@), stage, reply@),
{
    let dev = line("device=", location_string(c.location).as_str());
    let fam = line("family=", c.family.as_str());
    let ghost start = texts(before@);
    let mut lines: Vec<String> = Vec::new();
    match stage {
        KpiStage::Prepare => {
            push_line(&mut lines, dev);
            push_line(&mut lines, fam);
            push_line(&mut lines, String::from_str("status=firmware-ready"));
            push_line(&mut lines, reply);
        },
        KpiStage::TransportProbe => {
            push_line(&mut lines, dev);
            push_line(&mut lines, reply);
        },
        KpiStage::Scan => {
            push_line(&mut lines, dev);
            push_line(&mut lines, String::from_str("status=scanning"));
            push_line(&mut lines, reply);
        },
        KpiStage::Status => {
            push_line(&mut lines, dev);
            push_line(&mut lines, fam);
            push_line(&mut lines, reply);
        },
        KpiStage::FullInit => {
            push_line(&mut lines, dev);
            push_line(&mut lines, String::from_str("status=full-init-ready"));
            push_line(&mut lines, reply);
        },
        KpiStage::InitTransport => {
            lines = before;
            push_line(&mut lines, reply);
            push_line(&mut lines, String::from_str("status=transport-ready"));
        },
        KpiStage::Activate => {
            lines = before;
            push_line(&mut lines, reply);
            push_line(&mut lines, String::from_str("status=nic-activated"));
        },
        KpiStage::Connect => {
            lines = before;
            push_line(&mut lines, String::from_str("status=associating"));
            push_line(&mut lines, reply);
        },
        KpiStage::Disconnect => {
            lines = before;
            push_line(&mut lines, String::from_str("status=device-detected"));
            push_line(&mut lines, reply);
        },
    }
    assert(texts(lines@) =~= kpi_report(*c, start, stage, reply@));
    lines
}

/// The port's status lines among a report.
pub open spec fn kpi_status_only(lines: Seq<Seq<char>>) -> Seq<Seq<char>>
    decreases lines.len(),
{
    if lines.len() == 0 {
        Seq::empty()
    } else if text_starts_with(lines.last(), "linux_kpi_status="@) {
        kpi_status_only(lines.drop_last()).push(lines.last())
    } else {
        kpi_status_only(lines.drop_last())
    }
}

/// Ends an interrupt (`irq`) or DMA (`dma`) test that the port passed:
/// the full-init report, the port's status lines, and the verdict.
pub fn kpi_check_lines(lines: Vec<String>, status: &Vec<String>, irq: bool) -> (r: Vec<String>)
    ensures
        texts(r@) == texts(lines@) + kpi_status_only(texts(status@)) + seq![
            if irq {
                "irq_test=pass"@
            } else {
                "dma_test=pass"@
            },
        ],
{
    let mut lines = lines;
    let ghost start = texts(lines@);
    let mut i: usize = 0;
    while i < status.len()
        invariant
            i <= status@.len(),
            texts(lines@) == start + kpi_status_only(texts(status@.subrange(0, i as int))),
        decreases status@.len() - i,
    {
        let ghost prefix = texts(status@.subrange(0, i + 1));
        proof {
            assert(prefix.drop_last() =~= texts(status@.subrange(0, i as int)));
            assert(prefix.last() == status@[i as int]@);
        }
        if starts_with_text(status[i].as_str(), "linux_kpi_status=") {
            push_line(&mut lines, String::from_str(status[i].as_str()));
        }
        i = i + 1;
    }
    assert(status@.subrange(0, status@.len() as int) =~= status@);
    if irq {
        push_line(&mut lines, String::from_str("irq_test=pass"));
    } else {
        push_line(&mut lines, String::from_str("dma_test=pass"));
    }
    lines
}

/// A device command of the tool.
#[derive(Clone, Copy, Debug, PartialEq, Eq, Structural)]
pub enum Action {
    Status,
    Prepare,
    TransportProbe,
    InitTransport,
    ActivateNic,
    Scan,
    Disconnect,
    FullInit,
    IrqTest,
    DmaTest,
    Retry,
}

/// What the command line asks for.
#[derive(Debug)]
pub enum IwlCommand {
    /// List the candidates.
    Probe,
    /// Run a device command on the candidate at `target` (the first one
    /// where there is none).
    Device { action: Action, target: Option<String> },
    /// Join a network.
    Connect { target: Option<String>, ssid: String, security: String, key: Option<String> },
}

/// The device command a flag names.
pub open spec fn action_of(flag: Seq<char>) -> Option<Action> {
    if flag == "--status"@ {
        Some(Action::Status)
    } else if flag == "--prepare"@ {
        Some(Action::Prepare)
    } else if flag == "--transport-probe"@ {
        Some(Action::TransportProbe)
    } else if flag == "--init-transport"@ {
        Some(Action::InitTransport)
    } else if flag == "--activate-nic"@ {
        Some(Action::ActivateNic)
    } else if flag == "--scan"@ {
        Some(Action::Scan)
    } else if flag == "--disconnect"@ {
        Some(Action::Disconnect)
    } else if flag == "--full-init"@ {
        Some(Action::FullInit)
    } else if flag == "--irq-test"@ {
        Some(Action::IrqTest)
    } else if flag == "--dma-test"@ {
        Some(Action::DmaTest)
    } else if flag == "--retry"@ {
        Some(Action::Retry)
    } else {
        None
    }
}

/// The name of a device command in messages.
pub open spec fn action_name_spec(a: Action) -> Seq<char> {
    match a {
        Action::Status => "status"@,
        Action::Prepare => "prepare"@,
        Action::TransportProbe => "transport-probe"@,
        Action::InitTransport => "init-transport"@,
        Action::ActivateNic => "activate-nic"@,
        Action::Scan => "scan"@,
        Action::Disconnect => "disconnect"@,
        Action::FullInit => "full-init"@,
        Action::IrqTest => "irq-test"@,
        Action::DmaTest => "dma-test"@,
        Action::Retry => "retry"@,
    }
}

/// The name of a device command in messages.
pub fn action_name(a: Action) -> (r: &'static str)
    ensures
        r@ == action_name_spec(a),
{
    match a {
        Action::Status => "status",
        Action::Prepare => "prepare",
        Action::TransportProbe => "transport-probe",
        Action::InitTransport => "init-transport",
        Action::ActivateNic => "activate-nic",
        Action::Scan => "scan",
        Action::Disconnect => "disconnect",
        Action::FullInit => "full-init",
        Action::IrqTest => "irq-test",
        Action::DmaTest => "dma-test",
        Action::Retry => "retry",
    }
}

/// The argument at position `i`, if there is one.
pub open spec fn arg_at(args: Seq<String>, i: int) -> Option<Seq<char>> {
    if 0 <= i < args.len() {
        Some(args[i]@)
    } else {
        None
    }
}

fn arg_copy(args: &Vec<String>, i: usize) -> (r: Option<String>)
    ensures
        opt_text(r) == arg_at(args@, i as int),
{
    if i < args.len() {
        Some(String::from_str(args[i].as_str()))
    } else {
        None
    }
}

fn is_flag(arg: &String, flag: &str) -> (r: bool)
    ensures
        r == (arg@ == flag@),
{
    *arg == String::from_str(flag)
}

fn action_for(flag: &String) -> (r: Option<Action>)
    ensures
        r == action_of(flag@),
{
    if is_flag(flag, "--status") {
        Some(Action::Status)
    } else if is_flag(flag, "--prepare") {
        Some(Action::Prepare)
    } else if is_flag(flag, "--transport-probe") {
        Some(Action::TransportProbe)
    } else if is_flag(flag, "--init-transport") {
        Some(Action::InitTransport)
    } else if is_flag(flag, "--activate-nic") {
        Some(Action::ActivateNic)
    } else if is_flag(flag, "--scan") {
        Some(Action::Scan)
    } else if is_flag(flag, "--disconnect") {
        Some(Action::Disconnect)
    } else if is_flag(flag, "--full-init") {
        Some(Action::FullInit)
    } else if is_flag(flag, "--irq-test") {
        Some(Action::IrqTest)
    } else if is_flag(flag, "--dma-test") {
        Some(Action::DmaTest)
    } else if is_flag(flag, "--retry") {
        Some(Action::Retry)
    } else {
        None
    }
}

/// Reads the command line (the arguments after the program's name):
/// `--probe`; a device command with an optional location; or `--connect`
/// with an optional location, network name (empty where missing),
/// security mode (`open` where missing) and key. `None` is the usage
/// error: no argument, or a first one that is none of these.
pub fn parse_command(args: &Vec<String>) -> (r: Option<IwlCommand>)
    ensures
        args@.len() == 0 ==> r is None,
        args@.len() > 0 ==> match r {
            None => args@[0]@ != "--probe"@ && args@[0]@ != "--connect"@ && action_of(
                args@[0]@,
            ) is None,
            Some(IwlCommand::Probe) => args@[0]@ == "--probe"@,
            Some(IwlCommand::Device { action, target }) => args@[0]@ != "--probe"@ && action_of(
                args@[0]@,
            ) == Some(action) && opt_text(target) == arg_at(args@, 1),
            Some(IwlCommand::Connect { target, ssid, security, key }) => {
                &&& args@[0]@ == "--connect"@
                &&& action_of(args@[0]@) is None
                &&& opt_text(target) == arg_at(args@, 1)
                &&& ssid@ == (match arg_at(args@, 2) {
                    Some(t) => t,
                    None => Seq::<char>::empty(),
                })
                &&& security@ == (match arg_at(args@, 3) {
                    Some(t) => t,
                    None => "open"@,
                })
                &&& opt_text(key) == arg_at(args@, 4)
            },
        },
{
    if args.len() == 0 {
        return None;
    }
    let first = &args[0];
    if is_flag(first, "--probe") {
        return Some(IwlCommand::Probe);
    }
    if let Some(action) = action_for(first) {
        return Some(IwlCommand::Device { action, target: arg_copy(args, 1) });
    }
    if is_flag(first, "--connect") {
        let ssid = match arg_copy(args, 2) {
            Some(t) => t,
            None => String::new(),
        };
        let security = match arg_copy(args, 3) {
            Some(t) => t,
            None => String::from_str("open"),
        };
        return Some(
            IwlCommand::Connect { target: arg_copy(args, 1), ssid, security, key: arg_copy(args, 4) },
        );
    }
    None
}

/// Where a command failed: reading the PCI scheme, choosing the
/// candidate, or running the command.
#[derive(Clone, Copy, Debug, PartialEq, Eq, Structural)]
pub enum FailurePhase {
    Probe,
    Selection,
    Run,
}

/// The message a failed command prints.
pub open spec fn failure_text(name: Seq<char>, phase: FailurePhase, err: DriverError) -> Seq<char> {
    "redbear-iwlwifi: "@ + name + match phase {
        FailurePhase::Probe => " probe failed: "@,
        FailurePhase::Selection => " selection failed: "@,
        FailurePhase::Run => " failed: "@,
    } + err.message_spec()
}

/// Builds the message a failed command prints.
pub fn failure_message(name: &str, phase: FailurePhase, err: &DriverError) -> (r: String)
    ensures
        r@ == failure_text(name@, phase, *err),
{
    let mut m = String::from_str("redbear-iwlwifi: ");
    m.append(name);
    match phase {
        FailurePhase::Probe => m.append(" probe failed: "),
        FailurePhase::Selection => m.append(" selection failed: "),
        FailurePhase::Run => m.append(" failed: "),
    }
    m.append(err.message().as_str());
    m
}

} // verus!
