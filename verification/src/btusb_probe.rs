//! Finding Bluetooth adapters among USB devices: the loose `"key": value`
//! device descriptors the USB scheme serves, and the adapter lists given on
//! the command line or in the environment.
use vstd::prelude::*;
use vstd::string::{StrSliceExecFns, StringExecFns};
use vstd::utf8::encode_utf8;
use crate::btusb::{UsbBluetoothAdapter, UsbDeviceDescriptor};
use crate::ehci_control::white_space;
use crate::fat_label::{decode_utf8_lossy, lossy_utf8};
use crate::text::decimal_string;
use crate::textparse::{parse_unsigned, spec_parse_unsigned, trim_whitespace, trimmed};

verus! {

/// A number in a descriptor: trimmed, then `0x`/`0X` and hexadecimal
/// digits or decimal digits, fitting a `u64`.
pub open spec fn numeric_value_of(v: Seq<char>) -> Option<int> {
    let t = trimmed(v);
    if t.len() >= 2 && t[0] == '0' && (t[1] == 'x' || t[1] == 'X') {
        spec_parse_unsigned(encode_utf8(t.subrange(2, t.len() as int)), 16, u64::MAX as int)
    } else {
        spec_parse_unsigned(encode_utf8(t), 10, u64::MAX as int)
    }
}

/// Reads a descriptor number; the error names the text (its wording is
/// not part of this contract).
pub fn parse_numeric_value(value: &str) -> (r: Result<u64, String>)
    ensures
        match numeric_value_of(value@) {
            Some(v) => r == Ok::<u64, String>(v as u64),
            None => r is Err,
        },
{
    let t = trim_whitespace(value);
    let n = t.unicode_len();
    if n >= 2 && t.get_char(0) == '0' && (t.get_char(1) == 'x' || t.get_char(1) == 'X') {
        let hex = t.substring_char(2, n);
        match parse_unsigned(hex.as_bytes(), 16, u64::MAX) {
            Some(v) => Ok(v),
            None => {
                let mut msg = String::from_str("invalid hex value \"");
                msg.append(t);
                msg.append("\"");
                Err(msg)
            },
        }
    } else {
        match parse_unsigned(t.as_bytes(), 10, u64::MAX) {
            Some(v) => Ok(v),
            None => {
                let mut msg = String::from_str("invalid numeric value \"");
                msg.append(t);
                msg.append("\"");
                Err(msg)
            },
        }
    }
}

/// The first position at or after `i` where `pat` occurs in `s`, or -1.
pub open spec fn find_from(s: Seq<char>, pat: Seq<char>, i: int) -> int
    decreases s.len() + 1 - i,
{
    if i < 0 || i > s.len() || i + pat.len() > s.len() {
        -1
    } else if s.subrange(i, i + pat.len()) == pat {
        i
    } else {
        find_from(s, pat, i + 1)
    }
}

pub proof fn lemma_find_from(s: Seq<char>, pat: Seq<char>, i: int)
    requires
        0 <= i,
    ensures
        find_from(s, pat, i) == -1 || (i <= find_from(s, pat, i) && find_from(s, pat, i)
            + pat.len() <= s.len()),
    decreases s.len() + 1 - i,
{
    if i <= s.len() && i + pat.len() <= s.len() && s.subrange(i, i + pat.len()) != pat {
        lemma_find_from(s, pat, i + 1);
    }
}

/// The first position at or after `i` holding a character `stop` accepts,
/// or the length.
pub open spec fn first_stop(s: Seq<char>, i: int) -> int
    decreases s.len() - i,
{
    if i < 0 || i >= s.len() || s[i] == ',' || s[i] == '}' || s[i] == '\n' || s[i] == '\r' {
        i
    } else {
        first_stop(s, i + 1)
    }
}

pub proof fn lemma_first_stop(s: Seq<char>, i: int)
    requires
        0 <= i <= s.len(),
    ensures
        i <= first_stop(s, i) <= s.len(),
    decreases s.len() - i,
{
    if i < s.len() && !(s[i] == ',' || s[i] == '}' || s[i] == '\n' || s[i] == '\r') {
        lemma_first_stop(s, i + 1);
    }
}

/// The first position at or after `i` that is not white space.
pub open spec fn space_end(s: Seq<char>, i: int) -> int
    decreases s.len() - i,
{
    if i < 0 || i >= s.len() || !white_space(s[i]) {
        i
    } else {
        space_end(s, i + 1)
    }
}

pub proof fn lemma_space_end(s: Seq<char>, i: int)
    requires
        0 <= i <= s.len(),
    ensures
        i <= space_end(s, i) <= s.len(),
    decreases s.len() - i,
{
    if i < s.len() && white_space(s[i]) {
        lemma_space_end(s, i + 1);
    }
}

/// The text of a key's value: after the first `"key"`, the first `:`,
/// and white space, either a quoted text or the text up to `,`, `}` or a
/// line end (trimmed); `None` where any of that is missing or empty.
pub open spec fn field_token(raw: Seq<char>, key: Seq<char>) -> Option<Seq<char>> {
    let needle = seq!['"'] + key + seq!['"'];
    let k = find_from(raw, needle, 0);
    if k < 0 {
        None
    } else {
        let after_key = raw.subrange(k + needle.len(), raw.len() as int);
        let c = find_from(after_key, seq![':'], 0);
        if c < 0 {
            None
        } else {
            let rest = after_key.subrange(c + 1, after_key.len() as int);
            let ac = rest.subrange(space_end(rest, 0), rest.len() as int);
            if ac.len() == 0 {
                None
            } else if ac[0] == '"' {
                let q = ac.drop_first();
                let e = find_from(q, seq!['"'], 0);
                if e < 0 || e == 0 {
                    None
                } else {
                    Some(q.subrange(0, e))
                }
            } else {
                let t = trimmed(ac.subrange(0, first_stop(ac, 0)));
                if t.len() == 0 {
                    None
                } else {
                    Some(t)
                }
            }
        }
    }
}

/// The value token of the first key (in order) that has one.
pub open spec fn first_field(raw: Seq<char>, keys: Seq<Seq<char>>, i: int) -> Option<Seq<char>>
    decreases keys.len() - i,
{
    if i < 0 || i >= keys.len() {
        None
    } else {
        match field_token(raw, keys[i]) {
            Some(t) => Some(t),
            None => first_field(raw, keys, i + 1),
        }
    }
}

pub(crate) fn find_text(s: &str, pat: &str, from: usize) -> (r: Option<usize>)
    requires
        from <= s@.len(),
    ensures
        match r {
            Some(p) => p == find_from(s@, pat@, from as int),
            None => find_from(s@, pat@, from as int) == -1,
        },
{
    let n = s.unicode_len();
    let m = pat.unicode_len();
    let mut i = from;
    if m > n {
        return None;
    }
    while i <= n - m
        invariant
            from <= i,
            n == s@.len(),
            m == pat@.len(),
            m <= n,
            find_from(s@, pat@, from as int) == find_from(s@, pat@, i as int),
        decreases n - i,
    {
        let mut k: usize = 0;
        let mut same = true;
        while k < m
            invariant
                k <= m,
                i <= n - m,
                m <= n,
                n == s@.len(),
                m == pat@.len(),
                same == (forall|j: int| 0 <= j < k ==> s@[i + j] == pat@[j]),
            decreases m - k,
        {
            if s.get_char(i + k) != pat.get_char(k) {
                same = false;
            }
            k = k + 1;
        }
        if same {
            assert(s@.subrange(i as int, i + m) =~= pat@);
            return Some(i);
        }
        proof {
            let j = choose|j: int| 0 <= j < m && s@[i + j] != pat@[j];
            assert(s@.subrange(i as int, i + m)[j] != pat@[j]);
        }
        i = i + 1;
    }
    None
}

fn field_text(raw: &str, key: &str) -> (r: Option<String>)
    ensures
        match field_token(raw@, key@) {
            Some(t) => r matches Some(x) && x@ == t,
            None => r is None,
        },
{
    let mut needle = String::from_str("\"");
    needle.append(key);
    needle.append("\"");
    proof {
        reveal_strlit("\"");
        reveal_strlit(":");
        assert(needle@ =~= seq!['"'] + key@ + seq!['"']);
    }
    let k = match find_text(raw, needle.as_str(), 0) {
        Some(k) => k,
        None => return None,
    };
    proof {
        lemma_find_from(raw@, needle@, 0);
    }
    let n = raw.unicode_len();
    let after_key = raw.substring_char(k + needle.unicode_len(), n);
    proof {
        assert(":"@ =~= seq![':']);
    }
    let c = match find_text(after_key, ":", 0) {
        Some(c) => c,
        None => return None,
    };
    proof {
        lemma_find_from(after_key@, seq![':'], 0);
    }
    let rest = after_key.substring_char(c + 1, after_key.unicode_len());
    let rn = rest.unicode_len();
    let mut a: usize = 0;
    while a < rn && crate::ehci_control::is_white_space(rest.get_char(a))
        invariant
            a <= rn,
            rn == rest@.len(),
            space_end(rest@, 0) == space_end(rest@, a as int),
        decreases rn - a,
    {
        a = a + 1;
    }
    proof {
        lemma_space_end(rest@, a as int);
    }
    let ac = rest.substring_char(a, rn);
    let an = ac.unicode_len();
    if an == 0 {
        return None;
    }
    if ac.get_char(0) == '"' {
        let q = ac.substring_char(1, an);
        proof {
            assert(q@ =~= ac@.drop_first());
            assert("\""@ =~= seq!['"']);
        }
        let e = match find_text(q, "\"", 0) {
            Some(e) => e,
            None => return None,
        };
        if e == 0 {
            return None;
        }
        proof {
            lemma_find_from(q@, seq!['"'], 0);
        }
        return Some(String::from_str(q.substring_char(0, e)));
    }
    let mut e: usize = 0;
    while e < an && !(ac.get_char(e) == ',' || ac.get_char(e) == '}' || ac.get_char(e) == '\n'
        || ac.get_char(e) == '\r')
        invariant
            e <= an,
            an == ac@.len(),
            first_stop(ac@, 0) == first_stop(ac@, e as int),
        decreases an - e,
    {
        e = e + 1;
    }
    proof {
        lemma_first_stop(ac@, e as int);
    }
    let t = trim_whitespace(ac.substring_char(0, e));
    if t.unicode_len() == 0 {
        None
    } else {
        Some(String::from_str(t))
    }
}

/// The number under the first key of `keys` that the descriptor text
/// gives a value; an error where none does or the value is no number
/// (its wording is not part of this contract).
pub fn extract_jsonish_u64(raw: &str, keys: &[&str]) -> (r: Result<u64, String>)
    ensures
        match first_field(raw@, keys@.map_values(|k: &str| k@), 0) {
            Some(t) => match numeric_value_of(t) {
                Some(v) => r == Ok::<u64, String>(v as u64),
                None => r is Err,
            },
            None => r is Err,
        },
{
    let ghost ks = keys@.map_values(|k: &str| k@);
    let mut i: usize = 0;
    while i < keys.len()
        invariant
            i <= keys@.len(),
            ks == keys@.map_values(|k: &str| k@),
            first_field(raw@, ks, 0) == first_field(raw@, ks, i as int),
        decreases keys@.len() - i,
    {
        let key = keys[i];
        assert(key@ == ks[i as int]);
        match field_text(raw, key) {
            Some(token) => {
                return parse_numeric_value(token.as_str());
            },
            None => {},
        }
        i = i + 1;
    }
    Err(String::from_str("missing descriptor field"))
}

pub proof fn lemma_numeric_range(t: Seq<char>)
    ensures
        numeric_value_of(t) matches Some(v) ==> 0 <= v <= u64::MAX,
{
    let u = trimmed(t);
    crate::textparse::lemma_parse_unsigned_range(encode_utf8(u), 10, u64::MAX as int);
    if u.len() >= 2 {
        crate::textparse::lemma_parse_unsigned_range(
            encode_utf8(u.subrange(2, u.len() as int)),
            16,
            u64::MAX as int,
        );
    }
}

/// The number under the first of `keys` with a value, if it is at most `max`.
#[verifier::opaque]
pub open spec fn field_value(text: Seq<char>, keys: Seq<Seq<char>>, max: int) -> Option<int> {
    match first_field(text, keys, 0) {
        Some(t) => match numeric_value_of(t) {
            Some(v) => if v <= max {
                Some(v)
            } else {
                None
            },
            None => None,
        },
        None => None,
    }
}

/// The descriptor fields a USB device's descriptor text gives, each in
/// range of its field.
pub open spec fn descriptor_of(text: Seq<char>) -> Option<UsbDeviceDescriptor> {
    let v = field_value(text, seq!["vendor"@, "vendor_id"@], 0xFFFF);
    let d = field_value(text, seq!["product"@, "device"@, "product_id"@, "device_id"@], 0xFFFF);
    let c = field_value(text, seq!["class"@, "device_class"@], 0xFF);
    let s = field_value(text, seq!["sub_class"@, "subclass"@, "device_subclass"@], 0xFF);
    let p = field_value(text, seq!["protocol"@, "device_protocol"@], 0xFF);
    if v is Some && d is Some && c is Some && s is Some && p is Some {
        Some(
            UsbDeviceDescriptor {
                vendor_id: v->0 as u16,
                device_id: d->0 as u16,
                class: c->0 as u8,
                subclass: s->0 as u8,
                protocol: p->0 as u8,
            },
        )
    } else {
        None
    }
}

/// The number under the first of `keys` with a value, where it is at most
/// `max`; an error naming `what` otherwise.
fn bounded_field(text: &str, keys: &[&str], max: u64, what: &str) -> (r: Result<u64, String>)
    ensures
        match field_value(text@, keys@.map_values(|k: &str| k@), max as int) {
            Some(v) => 0 <= v <= max && r == Ok::<u64, String>(v as u64),
            None => r is Err,
        },
{
    proof {
        reveal(field_value);
        let ghost f = first_field(text@, keys@.map_values(|k: &str| k@), 0);
        if f is Some {
            lemma_numeric_range(f->0);
        }
    }
    let v = extract_jsonish_u64(text, keys)?;
    if v > max {
        return Err(out_of_range(what, v));
    }
    Ok(v)
}

/// Reads the vendor, product, class, subclass and protocol from a USB
/// device's descriptor text (decoded from the bytes, invalid UTF-8 replaced);
/// an error where one is missing, no number, or out of its field's range
/// (the error's wording is not part of this contract).
pub fn parse_usb_device_descriptor(raw: &[u8]) -> (r: Result<UsbDeviceDescriptor, String>)
    ensures
        match descriptor_of(lossy_utf8(raw@)) {
            Some(d) => r == Ok::<UsbDeviceDescriptor, String>(d),
            None => r is Err,
        },
{
    let text = decode_utf8_lossy(raw);
    let t = text.as_str();
    let vk: [&str; 2] = ["vendor", "vendor_id"];
    let dk: [&str; 4] = ["product", "device", "product_id", "device_id"];
    let ck: [&str; 2] = ["class", "device_class"];
    let sk: [&str; 3] = ["sub_class", "subclass", "device_subclass"];
    let pk: [&str; 2] = ["protocol", "device_protocol"];
    assert(vk@.map_values(|k: &str| k@) =~= seq!["vendor"@, "vendor_id"@]);
    assert(dk@.map_values(|k: &str| k@) =~= seq!["product"@, "device"@, "product_id"@, "device_id"@]);
    assert(ck@.map_values(|k: &str| k@) =~= seq!["class"@, "device_class"@]);
    assert(sk@.map_values(|k: &str| k@) =~= seq!["sub_class"@, "subclass"@, "device_subclass"@]);
    assert(pk@.map_values(|k: &str| k@) =~= seq!["protocol"@, "device_protocol"@]);
    let vendor = bounded_field(t, vk.as_slice(), 0xFFFF, "vendor ID out of range: ")?;
    let device = bounded_field(t, dk.as_slice(), 0xFFFF, "device ID out of range: ")?;
    let class = bounded_field(t, ck.as_slice(), 0xFF, "USB class out of range: ")?;
    let subclass = bounded_field(t, sk.as_slice(), 0xFF, "USB subclass out of range: ")?;
    let protocol = bounded_field(t, pk.as_slice(), 0xFF, "USB protocol out of range: ")?;
    assert(t@ == lossy_utf8(raw@));
    Ok(UsbDeviceDescriptor {
        vendor_id: vendor as u16,
        device_id: device as u16,
        class: class as u8,
        subclass: subclass as u8,
        protocol: protocol as u8,
    })
}

fn out_of_range(what: &str, value: u64) -> (r: String) {
    let mut msg = String::from_str(what);
    msg.append(decimal_string(value).as_str());
    msg
}

// ---- Adapter lists ----
/// The non-empty trimmed parts of a text split at `sep`.
pub open spec fn list_parts(s: Seq<char>, sep: char, i: int, acc: Seq<Seq<char>>) -> Seq<Seq<char>>
    decreases s.len() - i,
{
    if i < 0 || i > s.len() {
        acc
    } else {
        let e = sep_at(s, sep, i);
        let t = trimmed(s.subrange(i, e));
        let next = if t.len() > 0 {
            acc.push(t)
        } else {
            acc
        };
        if e >= s.len() {
            next
        } else {
            proof {
                lemma_sep_at(s, sep, i);
            }
            list_parts(s, sep, e + 1, next)
        }
    }
}

/// The position of the first `sep` at or after `i`, or the length.
pub open spec fn sep_at(s: Seq<char>, sep: char, i: int) -> int
    decreases s.len() - i,
{
    if i < 0 || i >= s.len() || s[i] == sep {
        i
    } else {
        sep_at(s, sep, i + 1)
    }
}

pub proof fn lemma_sep_at(s: Seq<char>, sep: char, i: int)
    requires
        0 <= i <= s.len(),
    ensures
        i <= sep_at(s, sep, i) <= s.len(),
    decreases s.len() - i,
{
    if i < s.len() && s[i] != sep {
        lemma_sep_at(s, sep, i + 1);
    }
}

/// The non-empty trimmed parts of a text split at `sep`.
pub fn trimmed_parts(s: &str, sep: char) -> (r: Vec<String>)
    ensures
        views(r@) == list_parts(s@, sep, 0, Seq::empty()),
{
    let n = s.unicode_len();
    let mut out: Vec<String> = Vec::new();
    let mut i: usize = 0;
    assert(views(out@) =~= Seq::<Seq<char>>::empty());
    loop
        invariant_except_break
            i <= n,
            n == s@.len(),
            list_parts(s@, sep, 0, Seq::empty()) == list_parts(s@, sep, i as int, views(out@)),
        ensures
            views(out@) == list_parts(s@, sep, 0, Seq::empty()),
        decreases n - i,
    {
        let mut e = i;
        while e < n && s.get_char(e) != sep
            invariant
                i <= e <= n,
                n == s@.len(),
                sep_at(s@, sep, i as int) == sep_at(s@, sep, e as int),
            decreases n - e,
        {
            e = e + 1;
        }
        proof {
            lemma_sep_at(s@, sep, e as int);
            lemma_sep_at(s@, sep, i as int);
        }
        let t = trim_whitespace(s.substring_char(i, e));
        let ghost before = views(out@);
        if t.unicode_len() > 0 {
            out.push(String::from_str(t));
        }
        assert(views(out@) =~= if trimmed(s@.subrange(i as int, e as int)).len() > 0 {
            before.push(trimmed(s@.subrange(i as int, e as int)))
        } else {
            before
        });
        if e >= n {
            break;
        }
        i = e + 1;
    }
    out
}

/// The non-empty trimmed lines of a status file.
pub fn status_file_lines(content: &str) -> (r: Vec<String>)
    ensures
        views(r@) == list_parts(content@, '\n', 0, Seq::empty()),
{
    trimmed_parts(content, '\n')
}

pub open spec fn views(v: Seq<String>) -> Seq<Seq<char>> {
    v.map_values(|s: String| s@)
}

/// The names a list gives: its non-empty trimmed comma-separated parts,
/// or the defaults where it is absent or gives none.
pub fn parse_list(raw: Option<&str>, default: &[&str]) -> (r: Vec<String>)
    ensures
        views(r@) == match raw {
            Some(s) => if list_parts(s@, ',', 0, Seq::empty()).len() > 0 {
                list_parts(s@, ',', 0, Seq::empty())
            } else {
                default@.map_values(|d: &str| d@)
            },
            None => default@.map_values(|d: &str| d@),
        },
{
    if let Some(s) = raw {
        let out = trimmed_parts(s, ',');
        if out.len() > 0 {
            return out;
        }
    }
    let mut d: Vec<String> = Vec::new();
    let mut k: usize = 0;
    while k < default.len()
        invariant
            k <= default@.len(),
            views(d@) == default@.subrange(0, k as int).map_values(|x: &str| x@),
        decreases default@.len() - k,
    {
        d.push(String::from_str(default[k]));
        proof {
            assert(default@.subrange(0, k + 1).map_values(|x: &str| x@) =~= default@.subrange(
                0,
                k as int,
            ).map_values(|x: &str| x@).push(default@[k as int]@));
            assert(views(d@) =~= default@.subrange(0, k + 1).map_values(|x: &str| x@));
        }
        k = k + 1;
    }
    assert(default@.subrange(0, default@.len() as int) =~= default@);
    d
}

/// A stand-in adapter for each name.
pub fn default_adapters_from_names(names: Vec<String>) -> (r: Vec<UsbBluetoothAdapter>)
    ensures
        r@.len() == names@.len(),
        forall|i: int|
            0 <= i < r@.len() ==> (#[trigger] r@[i]).name@ == names@[i]@ && r@[i].vendor_id == 0
                && r@[i].device_id == 0 && r@[i].bus@ == "stub"@ && r@[i].device_path@
                == "/scheme/usb/stub/"@ + names@[i]@,
{
    let mut out: Vec<UsbBluetoothAdapter> = Vec::new();
    let mut i: usize = 0;
    while i < names.len()
        invariant
            i <= names@.len(),
            out@.len() == i,
            forall|j: int|
                0 <= j < i ==> (#[trigger] out@[j]).name@ == names@[j]@ && out@[j].vendor_id == 0
                    && out@[j].device_id == 0 && out@[j].bus@ == "stub"@ && out@[j].device_path@
                    == "/scheme/usb/stub/"@ + names@[j]@,
        decreases names@.len() - i,
    {
        let name = String::from_str(names[i].as_str());
        out.push(UsbBluetoothAdapter::stub(name));
        i = i + 1;
    }
    out
}

// ---- Adapter order ----
/// Lexicographic order of texts by character: -1, 0 or 1.
pub open spec fn text_order(a: Seq<char>, b: Seq<char>) -> int
    decreases a.len(),
{
    if a.len() == 0 && b.len() == 0 {
        0
    } else if a.len() == 0 {
        -1
    } else if b.len() == 0 {
        1
    } else if (a[0] as u32) < (b[0] as u32) {
        -1
    } else if (a[0] as u32) > (b[0] as u32) {
        1
    } else {
        text_order(a.drop_first(), b.drop_first())
    }
}

pub proof fn lemma_text_order_flip(a: Seq<char>, b: Seq<char>)
    ensures
        text_order(a, b) == -text_order(b, a),
        -1 <= text_order(a, b) <= 1,
    decreases a.len(),
{
    if a.len() > 0 && b.len() > 0 && (a[0] as u32) == (b[0] as u32) {
        lemma_text_order_flip(a.drop_first(), b.drop_first());
    }
}

/// How adapters are ordered: by bus, then device path, then vendor and
/// device IDs.
#[verifier::opaque]
pub open spec fn adapter_order(x: UsbBluetoothAdapter, y: UsbBluetoothAdapter) -> int {
    let c1 = text_order(x.bus@, y.bus@);
    let c2 = text_order(x.device_path@, y.device_path@);
    if c1 != 0 {
        c1
    } else if c2 != 0 {
        c2
    } else if x.vendor_id < y.vendor_id {
        -1
    } else if x.vendor_id > y.vendor_id {
        1
    } else if x.device_id < y.device_id {
        -1
    } else if x.device_id > y.device_id {
        1
    } else {
        0
    }
}

pub proof fn lemma_adapter_order_flip(x: UsbBluetoothAdapter, y: UsbBluetoothAdapter)
    ensures
        adapter_order(x, y) == -adapter_order(y, x),
{
    reveal(adapter_order);
    lemma_text_order_flip(x.bus@, y.bus@);
    lemma_text_order_flip(x.device_path@, y.device_path@);
}

/// Adapters that agree on everything but the name order alike.
pub proof fn lemma_adapter_order_same(
    a: UsbBluetoothAdapter,
    a2: UsbBluetoothAdapter,
    b: UsbBluetoothAdapter,
    b2: UsbBluetoothAdapter,
)
    requires
        same_device(a, a2),
        same_device(b, b2),
    ensures
        adapter_order(a, b) == adapter_order(a2, b2),
{
    reveal(adapter_order);
}

fn compare_text(a: &str, b: &str) -> (r: i8)
    ensures
        r == text_order(a@, b@),
{
    let n = a.unicode_len();
    let m = b.unicode_len();
    let mut i: usize = 0;
    assert(a@.subrange(0, n as int) =~= a@);
    assert(b@.subrange(0, m as int) =~= b@);
    while i < n && i < m
        invariant
            i <= n,
            i <= m,
            n == a@.len(),
            m == b@.len(),
            text_order(a@, b@) == text_order(a@.subrange(i as int, n as int), b@.subrange(i as int, m as int)),
        decreases n - i,
    {
        let x = a.get_char(i);
        let y = b.get_char(i);
        proof {
            assert(a@.subrange(i as int, n as int)[0] == x);
            assert(b@.subrange(i as int, m as int)[0] == y);
            assert(a@.subrange(i as int, n as int).drop_first() =~= a@.subrange(i + 1, n as int));
            assert(b@.subrange(i as int, m as int).drop_first() =~= b@.subrange(i + 1, m as int));
        }
        if (x as u32) < (y as u32) {
            return -1;
        }
        if (x as u32) > (y as u32) {
            return 1;
        }
        i = i + 1;
    }
    if i == n && i == m {
        0
    } else if i == n {
        -1
    } else {
        1
    }
}

fn compare_adapters(x: &UsbBluetoothAdapter, y: &UsbBluetoothAdapter) -> (r: i8)
    ensures
        r == adapter_order(*x, *y),
{
    reveal(adapter_order);
    let c1 = compare_text(x.bus.as_str(), y.bus.as_str());
    if c1 != 0 {
        return c1;
    }
    let c2 = compare_text(x.device_path.as_str(), y.device_path.as_str());
    if c2 != 0 {
        return c2;
    }
    if x.vendor_id < y.vendor_id {
        -1
    } else if x.vendor_id > y.vendor_id {
        1
    } else if x.device_id < y.device_id {
        -1
    } else if x.device_id > y.device_id {
        1
    } else {
        0
    }
}

/// Whether `order` lists each of `0..n` once.
pub open spec fn is_order(order: Seq<int>, n: int) -> bool {
    &&& order.len() == n
    &&& order.no_duplicates()
    &&& forall|k: int| 0 <= k < n ==> 0 <= #[trigger] order[k] < n
}

/// Whether two adapters agree on everything but the name.
pub open spec fn same_device(a: UsbBluetoothAdapter, b: UsbBluetoothAdapter) -> bool {
    a.vendor_id == b.vendor_id && a.device_id == b.device_id && a.bus@ == b.bus@
        && a.device_path@ == b.device_path@ && a.endpoints == b.endpoints
}

/// Inserting position `i` where the positions before it order no later and
/// those after it order later keeps the positions ordered and distinct.
proof fn lemma_insert_in_order(
    adapters: Seq<UsbBluetoothAdapter>,
    before: Seq<usize>,
    after: Seq<usize>,
    p: int,
    i: usize,
)
    requires
        0 <= p <= before.len(),
        before.len() == i,
        i < adapters.len(),
        after == before.insert(p, i),
        before.no_duplicates(),
        forall|k: int| 0 <= k < i ==> #[trigger] before[k] < i,
        forall|k: int|
            0 <= k < before.len() - 1 ==> adapter_order(adapters[#[trigger] before[k] as int], adapters[before[k + 1] as int]) <= 0,
        p > 0 ==> adapter_order(adapters[before[p - 1] as int], adapters[i as int]) <= 0,
        forall|k: int| p <= k < i ==> adapter_order(adapters[#[trigger] before[k] as int], adapters[i as int]) > 0,
    ensures
        after.no_duplicates(),
        forall|k: int| 0 <= k < i + 1 ==> #[trigger] after[k] < i + 1,
        forall|k: int|
            0 <= k < after.len() - 1 ==> adapter_order(adapters[#[trigger] after[k] as int], adapters[after[k + 1] as int]) <= 0,
{
    assert forall|k: int| 0 <= k < after.len() - 1 implies adapter_order(
        adapters[#[trigger] after[k] as int],
        adapters[after[k + 1] as int],
    ) <= 0 by {
        if k < p - 1 {
            assert(after[k] == before[k] && after[k + 1] == before[k + 1]);
        } else if k == p - 1 {
            assert(after[k] == before[k]);
        } else if k == p {
            assert(after[k + 1] == before[p]);
            lemma_adapter_order_flip(adapters[before[p] as int], adapters[i as int]);
        } else {
            assert(after[k] == before[k - 1] && after[k + 1] == before[k]);
        }
    }
    lemma_insert_distinct(before, after, p, i);
}

/// Inserting a position not yet listed keeps the positions distinct and
/// below the next one.
proof fn lemma_insert_distinct(before: Seq<usize>, after: Seq<usize>, p: int, i: usize)
    requires
        0 <= p <= before.len(),
        before.len() == i,
        after == before.insert(p, i),
        before.no_duplicates(),
        forall|k: int| 0 <= k < i ==> #[trigger] before[k] < i,
    ensures
        after.no_duplicates(),
        forall|k: int| 0 <= k < i + 1 ==> #[trigger] after[k] < i + 1,
{
    assert forall|a: int, b: int| 0 <= a < after.len() && 0 <= b < after.len() && a != b implies after[a] != after[b] by {
        if a != p && b != p {
            let a0 = if a < p { a } else { a - 1 };
            let b0 = if b < p { b } else { b - 1 };
            assert(after[a] == before[a0] && after[b] == before[b0]);
        } else if a == p {
            let b0 = if b < p { b } else { b - 1 };
            assert(after[b] == before[b0]);
        } else {
            let a0 = if a < p { a } else { a - 1 };
            assert(after[a] == before[a0]);
        }
    }
    assert forall|k: int| 0 <= k < i + 1 implies #[trigger] after[k] < i + 1 by {
        if k < p {
            assert(after[k] == before[k]);
        } else if k > p {
            assert(after[k] == before[k - 1]);
        }
    }
}

/// The positions of the adapters in the order they are listed in.
fn sorted_positions(adapters: &Vec<UsbBluetoothAdapter>) -> (r: Vec<usize>)
    ensures
        is_order(r@.map_values(|i: usize| i as int), adapters@.len() as int),
        forall|k: int|
            0 <= k < r@.len() - 1 ==> adapter_order(adapters@[#[trigger] r@[k] as int], adapters@[r@[k + 1] as int]) <= 0,
{
    let n = adapters.len();
    let mut order: Vec<usize> = Vec::new();
    let mut i: usize = 0;
    while i < n
        invariant
            i <= n,
            n == adapters@.len(),
            order@.len() == i,
            order@.no_duplicates(),
            forall|k: int| 0 <= k < i ==> #[trigger] order@[k] < i,
            forall|k: int|
                0 <= k < order@.len() - 1 ==> adapter_order(adapters@[#[trigger] order@[k] as int], adapters@[order@[k + 1] as int]) <= 0,
        decreases n - i,
    {
        let mut p = i;
        while p > 0 && compare_adapters(&adapters[order[p - 1]], &adapters[i]) > 0
            invariant
                p <= i,
                i < n,
                n == adapters@.len(),
                order@.len() == i,
                forall|k: int| 0 <= k < i ==> #[trigger] order@[k] < i,
                forall|k: int| p <= k < i ==> adapter_order(adapters@[#[trigger] order@[k] as int], adapters@[i as int]) > 0,
            decreases p,
        {
            p = p - 1;
        }
        let ghost before = order@;
        order.insert(p, i);
        proof {
            lemma_insert_in_order(adapters@, before, order@, p as int, i);
        }
        i = i + 1;
    }
    proof {
        let m = order@.map_values(|i: usize| i as int);
        assert forall|a: int, b: int| 0 <= a < m.len() && 0 <= b < m.len() && a != b implies m[a] != m[b] by {
            assert(order@[a] != order@[b]);
        }
        assert forall|k: int| 0 <= k < n implies 0 <= #[trigger] m[k] < n by {
            assert(order@[k] < n);
        }
    }
    order
}

/// A copy of an adapter under another name.
fn renamed(a: &UsbBluetoothAdapter, name: String) -> (r: UsbBluetoothAdapter)
    ensures
        same_device(r, *a),
        r.name@ == name@,
{
    UsbBluetoothAdapter {
        name,
        vendor_id: a.vendor_id,
        device_id: a.device_id,
        bus: String::from_str(a.bus.as_str()),
        device_path: String::from_str(a.device_path.as_str()),
        endpoints: a.endpoints,
    }
}

/// Orders the adapters by bus, device path, vendor and device, and names
/// them `hci0`, `hci1`, ... in that order.
pub fn order_adapters(adapters: &mut Vec<UsbBluetoothAdapter>)
    ensures
        final(adapters)@.len() == old(adapters)@.len(),
        exists|order: Seq<int>|
            is_order(order, old(adapters)@.len() as int) && forall|k: int|
                0 <= k < order.len() ==> same_device(
                    #[trigger] final(adapters)@[k],
                    old(adapters)@[order[k]],
                ),
        forall|k: int|
            0 <= k < final(adapters)@.len() - 1 ==> adapter_order(
                #[trigger] final(adapters)@[k],
                final(adapters)@[k + 1],
            ) <= 0,
        forall|k: int|
            0 <= k < final(adapters)@.len() ==> (#[trigger] final(adapters)@[k]).name@ == "hci"@
                + crate::text::decimal(k as nat),
{
    let order = sorted_positions(adapters);
    let ghost m = order@.map_values(|i: usize| i as int);
    let mut out: Vec<UsbBluetoothAdapter> = Vec::new();
    let mut k: usize = 0;
    while k < order.len()
        invariant
            k <= order@.len(),
            order@.len() == adapters@.len(),
            m == order@.map_values(|i: usize| i as int),
            is_order(m, adapters@.len() as int),
            out@.len() == k,
            forall|j: int| 0 <= j < k ==> same_device(#[trigger] out@[j], adapters@[m[j]]),
            forall|j: int| 0 <= j < k ==> (#[trigger] out@[j]).name@ == "hci"@ + crate::text::decimal(j as nat),
        decreases order@.len() - k,
    {
        assert(m[k as int] == order@[k as int] as int);
        let name = crate::text::numbered("hci", k as u64, "");
        proof {
            reveal_strlit("");
            assert(name@ =~= "hci"@ + crate::text::decimal(k as nat));
        }
        out.push(renamed(&adapters[order[k]], name));
        k = k + 1;
    }
    proof {
        assert forall|j: int| 0 <= j < out@.len() - 1 implies adapter_order(
            #[trigger] out@[j],
            out@[j + 1],
        ) <= 0 by {
            assert(adapter_order(adapters@[order@[j] as int], adapters@[order@[j + 1] as int]) <= 0);
            lemma_adapter_order_same(out@[j], adapters@[m[j]], out@[j + 1], adapters@[m[j + 1]]);
        }
    }
    *adapters = out;
}

} // verus!
