//! The `usb` scheme of the EHCI driver: a directory per root hub port with
//! `status`, `descriptor` and `control` nodes, and the text each shows.
use std::collections::BTreeMap;
use vstd::prelude::*;
use vstd::string::{StrSliceExecFns, StringExecFns};
use vstd::utf8::encode_utf8;
use crate::ehci_ctl::{bool_word, decode_port_status, port_status_of, PortDevice, PortRecord, PortStatus};
use crate::hci_scheme::{strip_slashes, trim_slashes, SchemeError};
use crate::scheme_handles::SCHEME_ROOT_ID;
use crate::text::{decimal, hex_lower, lines_text, push_decimal, push_hex_lower, text_bytes};
use crate::textparse::{parse_unsigned, spec_parse_unsigned};

verus! {

/// What an open handle names.
#[derive(Clone, Copy, Debug, PartialEq, Eq, Structural)]
pub enum HandleKind {
    PortDir { port: usize },
    Status { port: usize },
    Descriptor { port: usize },
    Control { port: usize },
}

/// An open handle: its node and, for a `control` node, the reply to the
/// last request written to it.
#[derive(Clone, Debug)]
pub struct HandleState {
    pub kind: HandleKind,
    pub response: Vec<u8>,
}

/// The open handles of the scheme.
pub struct EhciScheme {
    handles: BTreeMap<usize, HandleState>,
    next_id: usize,
}

/// Which mode `fstat` reports.
#[derive(Clone, Copy, Debug, PartialEq, Eq, Structural)]
pub enum NodeMode {
    /// A directory, mode 0755.
    Directory,
    /// A read-only file, mode 0444.
    ReadOnlyFile,
    /// A writable file, mode 0644.
    WritableFile,
}

// ---- Paths ----
/// The port a `portN` path component names (N counts from 1).
pub open spec fn port_component(c: Seq<char>, port_count: int) -> Option<int> {
    if c.len() >= 4 && c.subrange(0, 4) == "port"@ {
        match spec_parse_unsigned(encode_utf8(c.subrange(4, c.len() as int)), 10, usize::MAX as int) {
            Some(n) => if n == 0 || n - 1 >= port_count {
                None
            } else {
                Some(n - 1)
            },
            None => None,
        }
    } else {
        None
    }
}

/// The position of the first `/` at or after `i`, or the length.
pub open spec fn slash_at(s: Seq<char>, i: int) -> int
    decreases s.len() - i,
{
    if i < 0 || i >= s.len() || s[i] == '/' {
        i
    } else {
        slash_at(s, i + 1)
    }
}

pub proof fn lemma_slash_at(s: Seq<char>, i: int)
    requires
        0 <= i <= s.len(),
    ensures
        i <= slash_at(s, i) <= s.len(),
        slash_at(s, i) < s.len() ==> s[slash_at(s, i)] == '/',
    decreases s.len() - i,
{
    if i < s.len() && s[i] != '/' {
        lemma_slash_at(s, i + 1);
    }
}

/// The node a child name of a port directory names.
pub open spec fn child_node(port: usize, name: Seq<char>) -> Option<HandleKind> {
    if name == "status"@ {
        Some(HandleKind::Status { port })
    } else if name == "descriptor"@ {
        Some(HandleKind::Descriptor { port })
    } else if name == "control"@ {
        Some(HandleKind::Control { port })
    } else {
        None
    }
}

/// The node a path from the root names: `portN` or `portN/child`.
pub open spec fn root_path_node(path: Seq<char>, port_count: int) -> Option<HandleKind> {
    let a = slash_at(path, 0);
    match port_component(path.subrange(0, a), port_count) {
        None => None,
        Some(p) => if a >= path.len() {
            Some(HandleKind::PortDir { port: p as usize })
        } else {
            let rest = path.subrange(a + 1, path.len() as int);
            if slash_at(rest, 0) < rest.len() {
                None
            } else {
                child_node(p as usize, rest)
            }
        },
    }
}

fn port_of_component(c: &str, port_count: usize) -> (r: Option<usize>)
    ensures
        r matches Some(p) ==> p < usize::MAX,
        match port_component(c@, port_count as int) {
            Some(p) => r == Some(p as usize),
            None => r is None,
        },
{
    let n = c.unicode_len();
    if n < 4 {
        return None;
    }
    let head = String::from_str(c.substring_char(0, 4));
    if !(head == String::from_str("port")) {
        return None;
    }
    let digits = c.substring_char(4, n);
    proof {
        crate::textparse::lemma_parse_unsigned_range(encode_utf8(digits@), 10, usize::MAX as int);
    }
    let number = match parse_unsigned(digits.as_bytes(), 10, usize::MAX as u64) {
        Some(v) => v,
        None => return None,
    };
    if number == 0 || number - 1 >= port_count as u64 {
        return None;
    }
    Some((number - 1) as usize)
}

fn child_of(port: usize, name: &str) -> (r: Option<HandleKind>)
    ensures
        r == child_node(port, name@),
{
    let n = String::from_str(name);
    if n == String::from_str("status") {
        Some(HandleKind::Status { port })
    } else if n == String::from_str("descriptor") {
        Some(HandleKind::Descriptor { port })
    } else if n == String::from_str("control") {
        Some(HandleKind::Control { port })
    } else {
        None
    }
}

fn find_slash(s: &str, from: usize) -> (r: usize)
    requires
        from <= s@.len(),
    ensures
        r == slash_at(s@, from as int),
{
    let n = s.unicode_len();
    let mut i = from;
    while i < n && s.get_char(i) != '/'
        invariant
            from <= i <= n,
            n == s@.len(),
            slash_at(s@, from as int) == slash_at(s@, i as int),
        decreases n - i,
    {
        i = i + 1;
    }
    i
}

/// Resolves a path below the root.
pub fn resolve_root_path(path: &str, port_count: usize) -> (r: Result<HandleKind, SchemeError>)
    ensures
        r matches Ok(k) ==> node_port(k) < usize::MAX,
        match root_path_node(path@, port_count as int) {
            Some(k) => r == Ok::<HandleKind, SchemeError>(k),
            None => r == Err::<HandleKind, SchemeError>(SchemeError::NotFound),
        },
{
    let n = path.unicode_len();
    let a = find_slash(path, 0);
    proof {
        lemma_slash_at(path@, 0);
    }
    let port = match port_of_component(path.substring_char(0, a), port_count) {
        Some(p) => p,
        None => return Err(SchemeError::NotFound),
    };
    if a >= n {
        return Ok(HandleKind::PortDir { port });
    }
    let rest = path.substring_char(a + 1, n);
    proof {
        lemma_slash_at(rest@, 0);
    }
    if find_slash(rest, 0) < rest.unicode_len() {
        return Err(SchemeError::NotFound);
    }
    match child_of(port, rest) {
        Some(k) => Ok(k),
        None => Err(SchemeError::NotFound),
    }
}

/// Resolves a child name of a port directory.
pub fn resolve_port_child(port: usize, path: &str) -> (r: Result<HandleKind, SchemeError>)
    ensures
        match child_node(port, path@) {
            Some(k) => r == Ok::<HandleKind, SchemeError>(k),
            None => r == Err::<HandleKind, SchemeError>(SchemeError::NotFound),
        },
{
    match child_of(port, path) {
        Some(k) => Ok(k),
        None => Err(SchemeError::NotFound),
    }
}

// ---- Node text ----
/// `port1` to `portN`, a line each.
pub open spec fn root_lines(port_count: nat) -> Seq<Seq<char>>
    decreases port_count,
{
    if port_count == 0 {
        Seq::empty()
    } else {
        root_lines((port_count - 1) as nat).push("port"@ + decimal(port_count))
    }
}

pub fn root_listing(port_count: usize) -> (r: Vec<u8>)
    ensures
        r@ == encode_utf8(lines_text(root_lines(port_count as nat))),
{
    proof {
        reveal_strlit("\n");
        reveal_strlit("port");
    }
    let mut out = String::new();
    let mut i: usize = 0;
    while i < port_count
        invariant
            i <= port_count,
            out@ == lines_text(root_lines(i as nat)),
            "\n"@ == seq!['\n'],
        decreases port_count - i,
    {
        let ghost before = out@;
        out.append("port");
        push_decimal(&mut out, (i + 1) as u64);
        out.append("\n");
        proof {
            let l = root_lines((i + 1) as nat);
            assert(l.drop_last() =~= root_lines(i as nat));
            assert(l.last() == "port"@ + decimal((i + 1) as nat));
            assert(out@ =~= before + ("port"@ + decimal((i + 1) as nat)) + seq!['\n']);
            assert(lines_text(l) == lines_text(l.drop_last()) + l.last() + seq!['\n']);
            assert(out@ =~= lines_text(l));
        }
        i = i + 1;
    }
    text_bytes(out)
}

/// Lower-case hexadecimal bytes separated by spaces.
pub open spec fn hex_bytes_text(b: Seq<u8>) -> Seq<char>
    decreases b.len(),
{
    if b.len() == 0 {
        Seq::empty()
    } else if b.len() == 1 {
        hex_lower(b[0] as nat, 2)
    } else {
        hex_bytes_text(b.drop_last()) + " "@ + hex_lower(b.last() as nat, 2)
    }
}

pub fn hex_encode(bytes: &[u8]) -> (r: String)
    ensures
        r@ == hex_bytes_text(bytes@),
{
    let mut out = String::new();
    let mut i: usize = 0;
    while i < bytes.len()
        invariant
            i <= bytes@.len(),
            out@ == hex_bytes_text(bytes@.subrange(0, i as int)),
        decreases bytes@.len() - i,
    {
        if i != 0 {
            out.append(" ");
        }
        push_hex_lower(&mut out, bytes[i] as u64, 2);
        proof {
            let u = bytes@.subrange(0, i + 1);
            assert(u.drop_last() =~= bytes@.subrange(0, i as int));
            if i == 0 {
                assert(out@ =~= hex_bytes_text(u));
            }
        }
        i = i + 1;
    }
    assert(bytes@.subrange(0, bytes@.len() as int) =~= bytes@);
    out
}

pub open spec fn word(b: bool) -> Seq<char> {
    if b {
        "yes"@
    } else {
        "no"@
    }
}

/// The lines of a port's state flags.
pub open spec fn flag_lines(s: PortStatus) -> Seq<Seq<char>> {
    seq![
        "connected="@ + word(s.connected),
        "enabled="@ + word(s.enabled),
        "suspended="@ + word(s.suspended),
        "over_current="@ + word(s.over_current),
        "reset="@ + word(s.reset),
        "power="@ + word(s.power),
        "low_speed="@ + word(s.low_speed),
        "high_speed="@ + word(s.high_speed),
        "test_mode="@ + word(s.test_mode),
        "indicator="@ + word(s.indicator),
    ]
}

/// The lines of a port's `status` node.
pub open spec fn status_lines(port: usize, r: PortRecord) -> Seq<Seq<char>> {
    let s = match r.last_status {
        Some(s) => s,
        None => port_status_of(r.last_portsc),
    };
    let base = seq![
        "port="@ + decimal((port + 1) as nat),
        "portsc=0x"@ + hex_lower(r.last_portsc as nat, 8),
    ] + flag_lines(s) + seq!["companion_owned="@ + word(r.companion_owned)];
    let dev = match r.device {
        Some(d) => seq![
            "address="@ + decimal(d.address as nat),
            "vendor_id=0x"@ + hex_lower(d.vendor_id as nat, 4),
            "product_id=0x"@ + hex_lower(d.product_id as nat, 4),
        ],
        None => Seq::empty(),
    };
    let err = match r.last_error {
        Some(e) => seq!["last_error="@ + e@],
        None => Seq::empty(),
    };
    base + dev + err
}

/// The lines of a port's `descriptor` node once a device is enumerated.
pub open spec fn descriptor_lines(d: PortDevice) -> Seq<Seq<char>> {
    seq![
        "address="@ + decimal(d.address as nat),
        "vendor_id=0x"@ + hex_lower(d.vendor_id as nat, 4),
        "product_id=0x"@ + hex_lower(d.product_id as nat, 4),
        "device_class=0x"@ + hex_lower(d.device_class as nat, 2),
        "device_subclass=0x"@ + hex_lower(d.device_subclass as nat, 2),
        "device_protocol=0x"@ + hex_lower(d.device_protocol as nat, 2),
        "max_packet_size0="@ + decimal(d.max_packet_size0 as nat),
        "device_descriptor="@ + hex_bytes_text(d.device_descriptor@),
    ] + if d.config_descriptor@.len() > 0 {
        seq!["config_descriptor="@ + hex_bytes_text(d.config_descriptor@)]
    } else {
        Seq::empty()
    }
}

/// Appends a line: a literal, then a text, then a newline.
fn push_line(out: &mut String, key: &str, value: &str, Ghost(lines): Ghost<Seq<Seq<char>>>)
    requires
        old(out)@ == lines_text(lines),
    ensures
        final(out)@ == lines_text(lines.push(key@ + value@)),
{
    proof {
        reveal_strlit("\n");
    }
    out.append(key);
    out.append(value);
    out.append("\n");
    assert(lines.push(key@ + value@).drop_last() =~= lines);
    assert(final(out)@ =~= lines_text(lines.push(key@ + value@)));
}

fn hex_text(x: u64, width: usize) -> (r: String)
    ensures
        r@ == hex_lower(x as nat, width as nat),
{
    let mut s = String::new();
    push_hex_lower(&mut s, x, width);
    assert(s@ =~= hex_lower(x as nat, width as nat));
    s
}

fn decimal_text(n: u64) -> (r: String)
    ensures
        r@ == decimal(n as nat),
{
    crate::text::decimal_string(n)
}

/// Appends the lines of a port's state flags.
fn push_flag_lines(out: &mut String, status: PortStatus, Ghost(lines): Ghost<Seq<Seq<char>>>)
    requires
        old(out)@ == lines_text(lines),
    ensures
        final(out)@ == lines_text(lines + flag_lines(status)),
{
    let ghost mut l = lines;
    push_line(out, "connected=", bool_word(status.connected), Ghost(l));
    proof { l = l.push("connected="@ + word(status.connected)); }
    push_line(out, "enabled=", bool_word(status.enabled), Ghost(l));
    proof { l = l.push("enabled="@ + word(status.enabled)); }
    push_line(out, "suspended=", bool_word(status.suspended), Ghost(l));
    proof { l = l.push("suspended="@ + word(status.suspended)); }
    push_line(out, "over_current=", bool_word(status.over_current), Ghost(l));
    proof { l = l.push("over_current="@ + word(status.over_current)); }
    push_line(out, "reset=", bool_word(status.reset), Ghost(l));
    proof { l = l.push("reset="@ + word(status.reset)); }
    push_line(out, "power=", bool_word(status.power), Ghost(l));
    proof { l = l.push("power="@ + word(status.power)); }
    push_line(out, "low_speed=", bool_word(status.low_speed), Ghost(l));
    proof { l = l.push("low_speed="@ + word(status.low_speed)); }
    push_line(out, "high_speed=", bool_word(status.high_speed), Ghost(l));
    proof { l = l.push("high_speed="@ + word(status.high_speed)); }
    push_line(out, "test_mode=", bool_word(status.test_mode), Ghost(l));
    proof { l = l.push("test_mode="@ + word(status.test_mode)); }
    push_line(out, "indicator=", bool_word(status.indicator), Ghost(l));
    proof { l = l.push("indicator="@ + word(status.indicator)); }
    assert(l =~= lines + flag_lines(status));
}

/// The `status` node of a port.
pub fn status_bytes(ports: &Vec<PortRecord>, port: usize) -> (r: Result<Vec<u8>, SchemeError>)
    ensures
        port >= ports@.len() ==> r == Err::<Vec<u8>, SchemeError>(SchemeError::NotFound),
        port < ports@.len() ==> (r matches Ok(b) && b@ == encode_utf8(
            lines_text(status_lines(port, ports@[port as int])),
        )),
{
    if port >= ports.len() {
        return Err(SchemeError::NotFound);
    }
    let record = &ports[port];
    let status = match record.last_status {
        Some(s) => s,
        None => decode_port_status(record.last_portsc),
    };
    let ghost mut lines: Seq<Seq<char>> = Seq::empty();
    let mut out = String::new();
    push_line(&mut out, "port=", decimal_text((port as u64) + 1).as_str(), Ghost(lines));
    proof { lines = lines.push("port="@ + decimal((port + 1) as nat)); }
    push_line(&mut out, "portsc=0x", hex_text(record.last_portsc as u64, 8).as_str(), Ghost(lines));
    proof { lines = lines.push("portsc=0x"@ + hex_lower(record.last_portsc as nat, 8)); }
    push_flag_lines(&mut out, status, Ghost(lines));
    proof { lines = lines + flag_lines(status); }
    push_line(&mut out, "companion_owned=", bool_word(record.companion_owned), Ghost(lines));
    proof { lines = lines.push("companion_owned="@ + word(record.companion_owned)); }
    match &record.device {
        Some(d) => {
            push_line(&mut out, "address=", decimal_text(d.address as u64).as_str(), Ghost(lines));
            proof { lines = lines.push("address="@ + decimal(d.address as nat)); }
            push_line(&mut out, "vendor_id=0x", hex_text(d.vendor_id as u64, 4).as_str(), Ghost(lines));
            proof { lines = lines.push("vendor_id=0x"@ + hex_lower(d.vendor_id as nat, 4)); }
            push_line(&mut out, "product_id=0x", hex_text(d.product_id as u64, 4).as_str(), Ghost(lines));
            proof { lines = lines.push("product_id=0x"@ + hex_lower(d.product_id as nat, 4)); }
        },
        None => {},
    }
    match &record.last_error {
        Some(e) => {
            push_line(&mut out, "last_error=", e.as_str(), Ghost(lines));
            proof { lines = lines.push("last_error="@ + e@); }
        },
        None => {},
    }
    assert(lines =~= status_lines(port, ports@[port as int]));
    Ok(text_bytes(out))
}

/// The `descriptor` node of a port.
pub fn descriptor_bytes(ports: &Vec<PortRecord>, port: usize) -> (r: Result<Vec<u8>, SchemeError>)
    ensures
        port >= ports@.len() ==> r == Err::<Vec<u8>, SchemeError>(SchemeError::NotFound),
        port < ports@.len() ==> match ports@[port as int].device {
            None => r matches Ok(b) && b@ == encode_utf8("state=unenumerated\n"@),
            Some(d) => r matches Ok(b) && b@ == encode_utf8(lines_text(descriptor_lines(d))),
        },
{
    if port >= ports.len() {
        return Err(SchemeError::NotFound);
    }
    let d = match &ports[port].device {
        Some(d) => d,
        None => return Ok(text_bytes(String::from_str("state=unenumerated\n"))),
    };
    let ghost mut lines: Seq<Seq<char>> = Seq::empty();
    let mut out = String::new();
    push_line(&mut out, "address=", decimal_text(d.address as u64).as_str(), Ghost(lines));
    proof { lines = lines.push("address="@ + decimal(d.address as nat)); }
    push_line(&mut out, "vendor_id=0x", hex_text(d.vendor_id as u64, 4).as_str(), Ghost(lines));
    proof { lines = lines.push("vendor_id=0x"@ + hex_lower(d.vendor_id as nat, 4)); }
    push_line(&mut out, "product_id=0x", hex_text(d.product_id as u64, 4).as_str(), Ghost(lines));
    proof { lines = lines.push("product_id=0x"@ + hex_lower(d.product_id as nat, 4)); }
    push_line(&mut out, "device_class=0x", hex_text(d.device_class as u64, 2).as_str(), Ghost(lines));
    proof { lines = lines.push("device_class=0x"@ + hex_lower(d.device_class as nat, 2)); }
    push_line(&mut out, "device_subclass=0x", hex_text(d.device_subclass as u64, 2).as_str(), Ghost(lines));
    proof { lines = lines.push("device_subclass=0x"@ + hex_lower(d.device_subclass as nat, 2)); }
    push_line(&mut out, "device_protocol=0x", hex_text(d.device_protocol as u64, 2).as_str(), Ghost(lines));
    proof { lines = lines.push("device_protocol=0x"@ + hex_lower(d.device_protocol as nat, 2)); }
    push_line(&mut out, "max_packet_size0=", decimal_text(d.max_packet_size0 as u64).as_str(), Ghost(lines));
    proof { lines = lines.push("max_packet_size0="@ + decimal(d.max_packet_size0 as nat)); }
    push_line(&mut out, "device_descriptor=", hex_encode(d.device_descriptor.as_slice()).as_str(), Ghost(lines));
    proof { lines = lines.push("device_descriptor="@ + hex_bytes_text(d.device_descriptor@)); }
    if d.config_descriptor.len() > 0 {
        push_line(&mut out, "config_descriptor=", hex_encode(d.config_descriptor.as_slice()).as_str(), Ghost(lines));
        proof { lines = lines.push("config_descriptor="@ + hex_bytes_text(d.config_descriptor@)); }
    }
    assert(lines =~= descriptor_lines(*d));
    Ok(text_bytes(out))
}

/// The path a node has.
pub open spec fn node_path(kind: HandleKind) -> Seq<char> {
    match kind {
        HandleKind::PortDir { port } => "usb:/port"@ + decimal((port + 1) as nat),
        HandleKind::Status { port } => "usb:/port"@ + decimal((port + 1) as nat) + "/status"@,
        HandleKind::Descriptor { port } => "usb:/port"@ + decimal((port + 1) as nat)
            + "/descriptor"@,
        HandleKind::Control { port } => "usb:/port"@ + decimal((port + 1) as nat) + "/control"@,
    }
}

pub open spec fn node_port(kind: HandleKind) -> usize {
    match kind {
        HandleKind::PortDir { port } => port,
        HandleKind::Status { port } => port,
        HandleKind::Descriptor { port } => port,
        HandleKind::Control { port } => port,
    }
}

/// `after` is `before` with a new handle `id` on `kind` and no reply.
pub open spec fn opened(before: Map<usize, HandleState>, after: Map<usize, HandleState>, id: usize, kind: HandleKind) -> bool {
    &&& after.dom() == before.dom().insert(id)
    &&& after[id].kind == kind
    &&& after[id].response@ == Seq::<u8>::empty()
    &&& forall|k: usize| k != id && #[trigger] before.contains_key(k) ==> after[k] == before[k]
}

impl EhciScheme {
    /// The open handles and what each names (the root aside).
    pub closed spec fn open_handles(&self) -> Map<usize, HandleState> {
        self.handles@
    }

    /// The number the next handle gets.
    pub closed spec fn next_handle(&self) -> usize {
        self.next_id
    }

    /// Every open handle names a port with a number (its index plus one)
    /// that a `usize` holds.
    #[verifier::type_invariant]
    spec fn ports_numbered(&self) -> bool {
        forall|k: usize| #[trigger] self.handles@.contains_key(k) ==> node_port(self.handles@[k].kind) < usize::MAX
    }

    /// What a handle number names: `None` for the root, `Some` for an
    /// open handle (the caller tells the root apart by its number).
    pub open spec fn lookup(&self, id: usize) -> Option<HandleState> {
        if self.open_handles().contains_key(id) {
            Some(self.open_handles()[id])
        } else {
            None
        }
    }

    pub fn new() -> (r: Self)
        ensures
            r.open_handles() == Map::<usize, HandleState>::empty(),
            r.next_handle() == SCHEME_ROOT_ID + 1,
    {
        EhciScheme { handles: BTreeMap::new(), next_id: SCHEME_ROOT_ID + 1 }
    }

    /// Opens a handle on a node with no reply yet.
    pub fn alloc_handle(&mut self, kind: HandleKind) -> (id: usize)
        requires
            old(self).next_handle() < usize::MAX,
            node_port(kind) < usize::MAX,
        ensures
            id == old(self).next_handle(),
            final(self).next_handle() == id + 1,
            opened(old(self).open_handles(), final(self).open_handles(), id, kind),
    {
        proof {
            use_type_invariant(&*self);
        }
        let id = self.next_id;
        let mut handles = BTreeMap::new();
        std::mem::swap(&mut handles, &mut self.handles);
        handles.insert(id, HandleState { kind, response: Vec::new() });
        self.next_id = id + 1;
        self.handles = handles;
        id
    }

    /// The node an open handle names.
    pub fn handle(&self, id: usize) -> (r: Result<HandleKind, SchemeError>)
        ensures
            match self.lookup(id) {
                Some(h) => r == Ok::<HandleKind, SchemeError>(h.kind),
                None => r == Err::<HandleKind, SchemeError>(SchemeError::BadDescriptor),
            },
    {
        match self.handles.get(&id) {
            Some(h) => Ok(h.kind),
            None => Err(SchemeError::BadDescriptor),
        }
    }

    /// Opens the node a path names from a directory handle: the root
    /// itself for an empty path from the root, a new handle on the same
    /// node for an empty path from another handle, a port or port child
    /// from the root, a child from a port directory.
    pub fn openat(&mut self, dirfd: usize, path: &str, port_count: usize) -> (r: Result<usize, SchemeError>)
        requires
            old(self).next_handle() < usize::MAX,
        ensures
            ({
                let name = trim_slashes(path@);
                let target: Result<Option<HandleKind>, SchemeError> = if name.len() == 0 {
                    if dirfd == SCHEME_ROOT_ID {
                        Ok(None)
                    } else {
                        match old(self).lookup(dirfd) {
                            Some(h) => Ok(Some(h.kind)),
                            None => Err(SchemeError::BadDescriptor),
                        }
                    }
                } else if dirfd == SCHEME_ROOT_ID {
                    match root_path_node(name, port_count as int) {
                        Some(k) => Ok(Some(k)),
                        None => Err(SchemeError::NotFound),
                    }
                } else {
                    match old(self).lookup(dirfd) {
                        None => Err(SchemeError::BadDescriptor),
                        Some(h) => match h.kind {
                            HandleKind::PortDir { port } => match child_node(port, name) {
                                Some(k) => Ok(Some(k)),
                                None => Err(SchemeError::NotFound),
                            },
                            _ => Err(SchemeError::AccessDenied),
                        },
                    }
                };
                match target {
                    Ok(None) => r == Ok::<usize, SchemeError>(SCHEME_ROOT_ID) && final(self).open_handles()
                        == old(self).open_handles() && final(self).next_handle() == old(self).next_handle(),
                    Ok(Some(k)) => r == Ok::<usize, SchemeError>(old(self).next_handle())
                        && opened(old(self).open_handles(), final(self).open_handles(), old(self).next_handle(), k)
                        && final(self).next_handle() == old(self).next_handle() + 1,
                    Err(e) => r == Err::<usize, SchemeError>(e) && final(self).open_handles()
                        == old(self).open_handles() && final(self).next_handle() == old(self).next_handle(),
                }
            }),
    {
        proof {
            use_type_invariant(&*self);
        }
        let cleaned = strip_slashes(path);
        if cleaned.unicode_len() == 0 {
            if dirfd == SCHEME_ROOT_ID {
                return Ok(SCHEME_ROOT_ID);
            }
            let kind = self.handle(dirfd)?;
            return Ok(self.alloc_handle(kind));
        }
        let kind = if dirfd == SCHEME_ROOT_ID {
            match resolve_root_path(cleaned, port_count) {
                Ok(k) => k,
                Err(e) => return Err(e),
            }
        } else {
            match self.handle(dirfd) {
                Ok(HandleKind::PortDir { port }) => match resolve_port_child(port, cleaned) {
                    Ok(k) => k,
                    Err(e) => return Err(e),
                },
                Ok(_) => return Err(SchemeError::AccessDenied),
                Err(e) => return Err(e),
            }
        };
        Ok(self.alloc_handle(kind))
    }

    /// What reading a handle gives.
    pub fn handle_bytes(&self, id: usize, ports: &Vec<PortRecord>) -> (r: Result<Vec<u8>, SchemeError>)
        ensures
            id == SCHEME_ROOT_ID ==> (r matches Ok(b) && b@ == encode_utf8(
                lines_text(root_lines(ports@.len())),
            )),
            id != SCHEME_ROOT_ID ==> match self.lookup(id) {
                None => r == Err::<Vec<u8>, SchemeError>(SchemeError::BadDescriptor),
                Some(h) => match h.kind {
                    HandleKind::PortDir { .. } => r matches Ok(b) && b@ == encode_utf8(
                        "status\ndescriptor\ncontrol\n"@,
                    ),
                    HandleKind::Status { port } => if port >= ports@.len() {
                        r == Err::<Vec<u8>, SchemeError>(SchemeError::NotFound)
                    } else {
                        r matches Ok(b) && b@ == encode_utf8(
                            lines_text(status_lines(port, ports@[port as int])),
                        )
                    },
                    HandleKind::Descriptor { port } => if port >= ports@.len() {
                        r == Err::<Vec<u8>, SchemeError>(SchemeError::NotFound)
                    } else {
                        match ports@[port as int].device {
                            None => r matches Ok(b) && b@ == encode_utf8("state=unenumerated\n"@),
                            Some(d) => r matches Ok(b) && b@ == encode_utf8(
                                lines_text(descriptor_lines(d)),
                            ),
                        }
                    },
                    HandleKind::Control { .. } => r matches Ok(b) && b@ == h.response@,
                },
            },
    {
        if id == SCHEME_ROOT_ID {
            return Ok(root_listing(ports.len()));
        }
        let h = match self.handles.get(&id) {
            Some(h) => h,
            None => return Err(SchemeError::BadDescriptor),
        };
        match h.kind {
            HandleKind::PortDir { .. } => Ok(text_bytes(String::from_str("status\ndescriptor\ncontrol\n"))),
            HandleKind::Status { port } => status_bytes(ports, port),
            HandleKind::Descriptor { port } => descriptor_bytes(ports, port),
            HandleKind::Control { .. } => {
                let mut v: Vec<u8> = Vec::new();
                crate::bytes::append_bytes(&mut v, h.response.as_slice());
                assert(v@ =~= h.response@);
                Ok(v)
            },
        }
    }

    /// The path of a handle's node.
    pub fn handle_path(&self, id: usize) -> (r: Result<String, SchemeError>)
        ensures
            id == SCHEME_ROOT_ID ==> (r matches Ok(p) && p@ == "usb:/"@),
            id != SCHEME_ROOT_ID ==> match self.lookup(id) {
                None => r == Err::<String, SchemeError>(SchemeError::BadDescriptor),
                Some(h) => r matches Ok(p) && p@ == node_path(h.kind),
            },
    {
        proof {
            use_type_invariant(self);
        }
        if id == SCHEME_ROOT_ID {
            return Ok(String::from_str("usb:/"));
        }
        let kind = self.handle(id)?;
        let (port, suffix) = match kind {
            HandleKind::PortDir { port } => (port, ""),
            HandleKind::Status { port } => (port, "/status"),
            HandleKind::Descriptor { port } => (port, "/descriptor"),
            HandleKind::Control { port } => (port, "/control"),
        };
        proof {
            reveal_strlit("");
        }
        let mut p = String::from_str("usb:/port");
        push_decimal(&mut p, (port as u64) + 1);
        p.append(suffix);
        assert(p@ =~= node_path(kind));
        Ok(p)
    }

    /// The port whose `control` node a write goes to; the root and other
    /// nodes cannot be written.
    pub fn write_target(&self, id: usize) -> (r: Result<usize, SchemeError>)
        ensures
            id == SCHEME_ROOT_ID ==> r == Err::<usize, SchemeError>(SchemeError::ReadOnly),
            id != SCHEME_ROOT_ID ==> match self.lookup(id) {
                None => r == Err::<usize, SchemeError>(SchemeError::BadDescriptor),
                Some(h) => match h.kind {
                    HandleKind::Control { port } => r == Ok::<usize, SchemeError>(port),
                    _ => r == Err::<usize, SchemeError>(SchemeError::ReadOnly),
                },
            },
    {
        if id == SCHEME_ROOT_ID {
            return Err(SchemeError::ReadOnly);
        }
        match self.handle(id)? {
            HandleKind::Control { port } => Ok(port),
            _ => Err(SchemeError::ReadOnly),
        }
    }

    /// Keeps the reply to a control request for reads of its handle.
    pub fn store_response(&mut self, id: usize, response: Vec<u8>)
        ensures
            final(self).next_handle() == old(self).next_handle(),
            final(self).open_handles() == if old(self).open_handles().contains_key(id) {
                old(self).open_handles().insert(
                    id,
                    HandleState { kind: old(self).open_handles()[id].kind, response },
                )
            } else {
                old(self).open_handles()
            },
    {
        proof {
            use_type_invariant(&*self);
        }
        let kind = match self.handles.get(&id) {
            Some(h) => h.kind,
            None => return,
        };
        let mut handles = BTreeMap::new();
        std::mem::swap(&mut handles, &mut self.handles);
        handles.insert(id, HandleState { kind, response });
        self.handles = handles;
    }

    /// The mode `fstat` reports for a handle.
    pub fn node_mode(&self, id: usize) -> (r: Result<NodeMode, SchemeError>)
        ensures
            id == SCHEME_ROOT_ID ==> r == Ok::<NodeMode, SchemeError>(NodeMode::Directory),
            id != SCHEME_ROOT_ID ==> match self.lookup(id) {
                None => r == Err::<NodeMode, SchemeError>(SchemeError::BadDescriptor),
                Some(h) => r == Ok::<NodeMode, SchemeError>(match h.kind {
                    HandleKind::PortDir { .. } => NodeMode::Directory,
                    HandleKind::Status { .. } => NodeMode::ReadOnlyFile,
                    HandleKind::Descriptor { .. } => NodeMode::ReadOnlyFile,
                    HandleKind::Control { .. } => NodeMode::WritableFile,
                }),
            },
    {
        if id == SCHEME_ROOT_ID {
            return Ok(NodeMode::Directory);
        }
        match self.handle(id)? {
            HandleKind::PortDir { .. } => Ok(NodeMode::Directory),
            HandleKind::Status { .. } | HandleKind::Descriptor { .. } => Ok(NodeMode::ReadOnlyFile),
            HandleKind::Control { .. } => Ok(NodeMode::WritableFile),
        }
    }

    /// Whether a handle number is usable (`fsync`, `fcntl`, `fevent`).
    pub fn check_handle(&self, id: usize) -> (r: Result<(), SchemeError>)
        ensures
            r == if id == SCHEME_ROOT_ID || self.lookup(id) is Some {
                Ok::<(), SchemeError>(())
            } else {
                Err(SchemeError::BadDescriptor)
            },
    {
        if id != SCHEME_ROOT_ID {
            let _ = self.handle(id)?;
        }
        Ok(())
    }

    /// Closes a handle; the root stays.
    pub fn on_close(&mut self, id: usize)
        ensures
            final(self).next_handle() == old(self).next_handle(),
            final(self).open_handles() == if id == SCHEME_ROOT_ID {
                old(self).open_handles()
            } else {
                old(self).open_handles().remove(id)
            },
    {
        proof {
            use_type_invariant(&*self);
        }
        if id != SCHEME_ROOT_ID {
            let mut handles = BTreeMap::new();
            std::mem::swap(&mut handles, &mut self.handles);
            handles.remove(&id);
            self.handles = handles;
        }
    }
}

} // verus!
