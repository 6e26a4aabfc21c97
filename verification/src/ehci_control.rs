//! The text form of a control request written to a port's `control` node:
//! white-space separated `key=value` tokens naming the fields of a USB setup
//! packet and, for an OUT request, its payload in hexadecimal.
use vstd::prelude::*;
use vstd::string::{StrSliceExecFns, StringExecFns};
use vstd::string::StringSliceAdditionalSpecFns;
use vstd::utf8::{decode_utf8, encode_utf8, valid_utf8};
use crate::hci_scheme::utf8_text;
use crate::textparse::{has_prefix, parse_unsigned, spec_parse_unsigned};

verus! {

/// The largest payload a control request written to the scheme may move.
pub const MAX_SCHEME_CONTROL_BYTES: usize = 4096;

/// Why a control request's text was refused.
#[derive(Clone, Copy, Debug, PartialEq, Eq, Structural)]
pub enum ControlRequestError {
    /// The bytes are not UTF-8.
    NotUtf8,
    /// A token has no `=`.
    MalformedToken,
    /// A token names no field of a control request.
    UnsupportedField,
    /// A number is not decimal or `0x`-hexadecimal, or does not fit its field.
    BadNumber,
    /// The payload has an odd number of hexadecimal digits.
    OddHexDigits,
    /// A pair of payload digits is not a hexadecimal byte.
    BadHexByte,
    MissingRequestType,
    MissingRequest,
    MissingValue,
    MissingIndex,
    MissingLength,
    /// The length is over what one qTD of the scheme moves.
    LengthTooLarge,
    /// A device-to-host request carries a payload.
    PayloadOnInRequest,
    /// A host-to-device payload's length is not the request's length.
    PayloadLengthMismatch,
}

/// A parsed control request: the setup packet fields and, for a
/// host-to-device request, the payload.
#[derive(Clone, Debug)]
pub struct ControlRequest {
    pub request_type: u8,
    pub request: u8,
    pub value: u16,
    pub index: u16,
    pub length: u16,
    pub data: Vec<u8>,
}

/// The characters with the Unicode White_Space property, which
/// `char::is_whitespace` and `str::split_whitespace` go by.
pub open spec fn white_space(c: char) -> bool {
    let u = c as u32;
    ||| 0x09 <= u <= 0x0D
    ||| u == 0x20
    ||| u == 0x85
    ||| u == 0xA0
    ||| u == 0x1680
    ||| 0x2000 <= u <= 0x200A
    ||| u == 0x2028
    ||| u == 0x2029
    ||| u == 0x202F
    ||| u == 0x205F
    ||| u == 0x3000
}

pub(crate) fn is_white_space(c: char) -> (r: bool)
    ensures
        r == white_space(c),
{
    let u = c as u32;
    (0x09 <= u && u <= 0x0D) || u == 0x20 || u == 0x85 || u == 0xA0 || u == 0x1680 || (0x2000
        <= u && u <= 0x200A) || u == 0x2028 || u == 0x2029 || u == 0x202F || u == 0x205F || u
        == 0x3000
}

/// The first position at or after `i` that is not white space.
pub open spec fn skip_space(s: Seq<char>, i: int) -> int
    decreases s.len() - i,
{
    if i < 0 || i >= s.len() || !white_space(s[i]) {
        i
    } else {
        skip_space(s, i + 1)
    }
}

/// The first position at or after `i` that is white space.
pub open spec fn token_end(s: Seq<char>, i: int) -> int
    decreases s.len() - i,
{
    if i < 0 || i >= s.len() || white_space(s[i]) {
        i
    } else {
        token_end(s, i + 1)
    }
}

pub proof fn lemma_skip_space(s: Seq<char>, i: int)
    requires
        0 <= i <= s.len(),
    ensures
        i <= skip_space(s, i) <= s.len(),
        skip_space(s, i) < s.len() ==> !white_space(s[skip_space(s, i)]),
    decreases s.len() - i,
{
    if i < s.len() && white_space(s[i]) {
        lemma_skip_space(s, i + 1);
    }
}

pub proof fn lemma_token_end(s: Seq<char>, i: int)
    requires
        0 <= i <= s.len(),
    ensures
        i <= token_end(s, i) <= s.len(),
        i < s.len() && !white_space(s[i]) ==> i < token_end(s, i),
    decreases s.len() - i,
{
    if i < s.len() && !white_space(s[i]) {
        lemma_token_end(s, i + 1);
    }
}

/// The position of the first `=` in a token, or its length.
pub open spec fn first_eq(t: Seq<char>, i: int) -> int
    decreases t.len() - i,
{
    if i < 0 || i >= t.len() || t[i] == '=' {
        i
    } else {
        first_eq(t, i + 1)
    }
}

pub proof fn lemma_first_eq(t: Seq<char>, i: int)
    requires
        0 <= i <= t.len(),
    ensures
        i <= first_eq(t, i) <= t.len(),
        first_eq(t, i) < t.len() ==> t[first_eq(t, i)] == '=',
    decreases t.len() - i,
{
    if i < t.len() && t[i] != '=' {
        lemma_first_eq(t, i + 1);
    }
}

/// The fields a request's tokens have given so far.
pub type FieldsModel = (Option<u8>, Option<u8>, Option<u16>, Option<u16>, Option<u16>, Option<
    Seq<u8>,
>);

pub open spec fn no_fields() -> FieldsModel {
    (None, None, None, None, None, None)
}

/// A number as `parse_numeric` reads it: `0x` or `0X` then hexadecimal
/// digits, or decimal digits, either way at most `max`.
pub open spec fn numeric_value(v: Seq<u8>, max: int) -> Option<int> {
    if has_prefix(v, seq![0x30u8, 0x78u8]) || has_prefix(v, seq![0x30u8, 0x58u8]) {
        spec_parse_unsigned(v.subrange(2, v.len() as int), 16, max)
    } else {
        spec_parse_unsigned(v, 10, max)
    }
}

/// A payload byte that `parse_hex_bytes` drops: ASCII white space, `:` or `-`.
pub open spec fn dropped_byte(b: u8) -> bool {
    b == 0x20 || b == 0x09 || b == 0x0A || b == 0x0C || b == 0x0D || b == 0x3A || b == 0x2D
}

/// The payload digits with the separators dropped.
pub open spec fn kept_digits(v: Seq<u8>) -> Seq<u8>
    decreases v.len(),
{
    if v.len() == 0 {
        Seq::empty()
    } else if dropped_byte(v.last()) {
        kept_digits(v.drop_last())
    } else {
        kept_digits(v.drop_last()).push(v.last())
    }
}

/// The bytes that the digit pairs from position `k` on spell.
pub open spec fn hex_pairs(c: Seq<u8>, k: int) -> Option<Seq<u8>>
    decreases c.len() - k,
{
    if k < 0 || k + 2 > c.len() {
        Some(Seq::empty())
    } else {
        match spec_parse_unsigned(c.subrange(k, k + 2), 16, 0xFF) {
            None => None,
            Some(b) => match hex_pairs(c, k + 2) {
                None => None,
                Some(rest) => Some(seq![b as u8] + rest),
            },
        }
    }
}

/// A payload as `parse_hex_bytes` reads it.
pub open spec fn hex_payload(v: Seq<u8>) -> Result<Seq<u8>, ControlRequestError> {
    let c = kept_digits(v);
    if c.len() == 0 {
        Ok(Seq::empty())
    } else if c.len() % 2 != 0 {
        Err(ControlRequestError::OddHexDigits)
    } else {
        match hex_pairs(c, 0) {
            Some(b) => Ok(b),
            None => Err(ControlRequestError::BadHexByte),
        }
    }
}

/// Which field a key names: 0 to 4 for the setup fields in order, 5 for
/// the payload, -1 for none.
pub open spec fn key_field(key: Seq<char>) -> int {
    if key == "request_type"@ || key == "bmRequestType"@ {
        0
    } else if key == "request"@ || key == "bRequest"@ {
        1
    } else if key == "value"@ || key == "wValue"@ {
        2
    } else if key == "index"@ || key == "wIndex"@ {
        3
    } else if key == "length"@ || key == "wLength"@ {
        4
    } else if key == "data"@ {
        5
    } else {
        -1
    }
}

/// The largest value of a setup field.
pub open spec fn field_max(k: int) -> int {
    if k < 2 {
        0xFF
    } else {
        0xFFFF
    }
}

/// The fields with setup field `k` set to `v`.
pub open spec fn with_number(st: FieldsModel, k: int, v: int) -> FieldsModel {
    if k == 0 {
        (Some(v as u8), st.1, st.2, st.3, st.4, st.5)
    } else if k == 1 {
        (st.0, Some(v as u8), st.2, st.3, st.4, st.5)
    } else if k == 2 {
        (st.0, st.1, Some(v as u16), st.3, st.4, st.5)
    } else if k == 3 {
        (st.0, st.1, st.2, Some(v as u16), st.4, st.5)
    } else {
        (st.0, st.1, st.2, st.3, Some(v as u16), st.5)
    }
}

/// What one `key=value` token does to the fields.
#[verifier::opaque]
pub open spec fn apply_token(t: Seq<char>, st: FieldsModel) -> Result<FieldsModel, ControlRequestError> {
    let e = first_eq(t, 0);
    if e >= t.len() {
        Err(ControlRequestError::MalformedToken)
    } else {
        let k = key_field(t.subrange(0, e));
        let raw = encode_utf8(t.subrange(e + 1, t.len() as int));
        if k < 0 {
            Err(ControlRequestError::UnsupportedField)
        } else if k == 5 {
            match hex_payload(raw) {
                Ok(b) => Ok((st.0, st.1, st.2, st.3, st.4, Some(b))),
                Err(err) => Err(err),
            }
        } else {
            match numeric_value(raw, field_max(k)) {
                Some(v) => Ok(with_number(st, k, v)),
                None => Err(ControlRequestError::BadNumber),
            }
        }
    }
}

/// The fields the tokens from position `i` on leave, starting from `st`;
/// the first refused token's error otherwise.
pub open spec fn fields_from(s: Seq<char>, i: int, st: FieldsModel) -> Result<
    FieldsModel,
    ControlRequestError,
>
    decreases s.len() - i,
{
    if i < 0 || i > s.len() {
        Ok(st)
    } else {
        let a = skip_space(s, i);
        if a >= s.len() {
            Ok(st)
        } else {
            let b = token_end(s, a);
            proof {
                lemma_skip_space(s, i);
                lemma_token_end(s, a);
            }
            match apply_token(s.subrange(a, b), st) {
                Ok(st2) => fields_from(s, b, st2),
                Err(err) => Err(err),
            }
        }
    }
}

/// The request the fields make, or why they make none.
pub open spec fn request_of(f: FieldsModel) -> Result<
    (u8, u8, u16, u16, u16, Seq<u8>),
    ControlRequestError,
> {
    if f.0 is None {
        Err(ControlRequestError::MissingRequestType)
    } else if f.1 is None {
        Err(ControlRequestError::MissingRequest)
    } else if f.2 is None {
        Err(ControlRequestError::MissingValue)
    } else if f.3 is None {
        Err(ControlRequestError::MissingIndex)
    } else if f.4 is None {
        Err(ControlRequestError::MissingLength)
    } else if f.4->0 > MAX_SCHEME_CONTROL_BYTES {
        Err(ControlRequestError::LengthTooLarge)
    } else if f.0->0 & 0x80 != 0 {
        if f.5 matches Some(d) && d.len() > 0 {
            Err(ControlRequestError::PayloadOnInRequest)
        } else {
            Ok((f.0->0, f.1->0, f.2->0, f.3->0, f.4->0, Seq::empty()))
        }
    } else {
        let d = match f.5 {
            Some(d) => d,
            None => Seq::empty(),
        };
        if d.len() != f.4->0 {
            Err(ControlRequestError::PayloadLengthMismatch)
        } else {
            Ok((f.0->0, f.1->0, f.2->0, f.3->0, f.4->0, d))
        }
    }
}

/// What the text written to a `control` node asks for.
pub open spec fn spec_control_request(buf: Seq<u8>) -> Result<
    (u8, u8, u16, u16, u16, Seq<u8>),
    ControlRequestError,
> {
    if !valid_utf8(buf) {
        Err(ControlRequestError::NotUtf8)
    } else {
        match fields_from(decode_utf8(buf), 0, no_fields()) {
            Ok(f) => request_of(f),
            Err(err) => Err(err),
        }
    }
}

pub open spec fn request_view(r: ControlRequest) -> (u8, u8, u16, u16, u16, Seq<u8>) {
    (r.request_type, r.request, r.value, r.index, r.length, r.data@)
}

/// Reads a field's number: `0x`/`0X` and hexadecimal digits, or decimal
/// digits, of at most `max`.
pub fn parse_numeric(value: &[u8], max: u64) -> (r: Option<u64>)
    ensures
        match numeric_value(value@, max as int) {
            Some(v) => r == Some(v as u64),
            None => r is None,
        },
{
    let hx: [u8; 2] = [0x30, 0x78];
    let hx_upper: [u8; 2] = [0x30, 0x58];
    assert(hx@ =~= seq![0x30u8, 0x78u8]);
    assert(hx_upper@ =~= seq![0x30u8, 0x58u8]);
    if crate::textparse::starts_with(value, hx.as_slice()) || crate::textparse::starts_with(
        value,
        hx_upper.as_slice(),
    ) {
        let digits = vstd::slice::slice_subrange(value, 2, value.len());
        parse_unsigned(digits, 16, max)
    } else {
        parse_unsigned(value, 10, max)
    }
}

/// Reads a payload written in hexadecimal, ignoring white space, `:` and `-`.
pub fn parse_hex_bytes(value: &[u8]) -> (r: Result<Vec<u8>, ControlRequestError>)
    ensures
        match hex_payload(value@) {
            Ok(b) => r matches Ok(x) && x@ == b,
            Err(err) => r == Err::<Vec<u8>, ControlRequestError>(err),
        },
{
    let mut cleaned: Vec<u8> = Vec::new();
    let mut i: usize = 0;
    while i < value.len()
        invariant
            i <= value@.len(),
            cleaned@ == kept_digits(value@.subrange(0, i as int)),
        decreases value@.len() - i,
    {
        let b = value[i];
        proof {
            assert(value@.subrange(0, i + 1).drop_last() =~= value@.subrange(0, i as int));
        }
        if !(b == 0x20 || b == 0x09 || b == 0x0A || b == 0x0C || b == 0x0D || b == 0x3A || b
            == 0x2D) {
            cleaned.push(b);
        }
        i = i + 1;
    }
    assert(value@.subrange(0, value@.len() as int) =~= value@);
    if cleaned.len() == 0 {
        return Ok(Vec::new());
    }
    if cleaned.len() % 2 != 0 {
        return Err(ControlRequestError::OddHexDigits);
    }
    let mut bytes: Vec<u8> = Vec::new();
    let mut k: usize = 0;
    while k < cleaned.len()
        invariant
            k <= cleaned@.len(),
            k % 2 == 0,
            cleaned@.len() % 2 == 0,
            cleaned@ == kept_digits(value@),
            cleaned@.len() > 0,
            hex_pairs(cleaned@, 0) == match hex_pairs(cleaned@, k as int) {
                Some(t) => Some(bytes@ + t),
                None => None::<Seq<u8>>,
            },
        decreases cleaned@.len() - k,
    {
        let pair = vstd::slice::slice_subrange(cleaned.as_slice(), k, k + 2);
        assert(pair@ == cleaned@.subrange(k as int, k + 2));
        proof {
            crate::textparse::lemma_parse_unsigned_range(pair@, 16, 0xFF);
        }
        match parse_unsigned(pair, 16, 0xFF) {
            Some(v) => {
                proof {
                    let ghost rest = hex_pairs(cleaned@, k + 2);
                    assert(hex_pairs(cleaned@, k as int) == match rest {
                        None => None::<Seq<u8>>,
                        Some(t) => Some(seq![v as u8] + t),
                    });
                    if rest is Some {
                        assert(bytes@.push(v as u8) + rest->0 =~= bytes@ + (seq![v as u8]
                            + rest->0));
                    }
                }
                bytes.push(v as u8);
            },
            None => {
                assert(hex_pairs(cleaned@, k as int) is None);
                return Err(ControlRequestError::BadHexByte);
            },
        }
        k = k + 2;
    }
    assert(hex_pairs(cleaned@, k as int) == Some(Seq::<u8>::empty()));
    assert(bytes@ + Seq::<u8>::empty() =~= bytes@);
    Ok(bytes)
}

/// The value of a number field, or the error that a bad number gives.
fn numeric_field(raw: &str, max: u64) -> (r: Result<u64, ControlRequestError>)
    ensures
        match numeric_value(encode_utf8(raw@), max as int) {
            Some(v) => r == Ok::<u64, ControlRequestError>(v as u64),
            None => r == Err::<u64, ControlRequestError>(ControlRequestError::BadNumber),
        },
{
    match parse_numeric(raw.as_bytes(), max) {
        Some(v) => Ok(v),
        None => Err(ControlRequestError::BadNumber),
    }
}

/// Which field a key names (see `key_field`).
fn field_of(key: &str) -> (r: i8)
    ensures
        r == key_field(key@),
{
    let k = String::from_str(key);
    if k == String::from_str("request_type") || k == String::from_str("bmRequestType") {
        0
    } else if k == String::from_str("request") || k == String::from_str("bRequest") {
        1
    } else if k == String::from_str("value") || k == String::from_str("wValue") {
        2
    } else if k == String::from_str("index") || k == String::from_str("wIndex") {
        3
    } else if k == String::from_str("length") || k == String::from_str("wLength") {
        4
    } else if k == String::from_str("data") {
        5
    } else {
        -1
    }
}

/// Sets setup field `k` (0 to 4) to `v`.
fn set_number(
    fields: &mut (Option<u8>, Option<u8>, Option<u16>, Option<u16>, Option<u16>, Option<Vec<u8>>),
    k: i8,
    v: u64,
)
    requires
        0 <= k < 5,
        v <= field_max(k as int),
    ensures
        fields_model(*final(fields)) == with_number(fields_model(*old(fields)), k as int, v as int),
{
    if k == 0 {
        fields.0 = Some(v as u8);
    } else if k == 1 {
        fields.1 = Some(v as u8);
    } else if k == 2 {
        fields.2 = Some(v as u16);
    } else if k == 3 {
        fields.3 = Some(v as u16);
    } else {
        fields.4 = Some(v as u16);
    }
}

/// Applies one `key=value` token to the fields gathered so far.
fn take_token(
    t: &str,
    fields: &mut (Option<u8>, Option<u8>, Option<u16>, Option<u16>, Option<u16>, Option<Vec<u8>>),
) -> (r: Result<(), ControlRequestError>)
    ensures
        match apply_token(t@, fields_model(*old(fields))) {
            Ok(st) => r is Ok && fields_model(*final(fields)) == st,
            Err(err) => r == Err::<(), ControlRequestError>(err),
        },
{
    reveal(apply_token);
    let n = t.unicode_len();
    let mut e: usize = 0;
    while e < n && t.get_char(e) != '='
        invariant
            e <= n,
            n == t@.len(),
            first_eq(t@, e as int) == first_eq(t@, 0),
        decreases n - e,
    {
        e = e + 1;
    }
    proof {
        lemma_first_eq(t@, e as int);
    }
    if e >= n {
        return Err(ControlRequestError::MalformedToken);
    }
    let k = field_of(t.substring_char(0, e));
    let raw = t.substring_char(e + 1, n).as_bytes();
    if k < 0 {
        return Err(ControlRequestError::UnsupportedField);
    }
    if k == 5 {
        match parse_hex_bytes(raw) {
            Ok(b) => {
                fields.5 = Some(b);
                Ok(())
            },
            Err(err) => Err(err),
        }
    } else {
        let max: u64 = if k < 2 {
            0xFF
        } else {
            0xFFFF
        };
        match parse_numeric(raw, max) {
            Some(v) => {
                proof {
                    let ghost d = if has_prefix(raw@, seq![0x30u8, 0x78u8]) || has_prefix(
                        raw@,
                        seq![0x30u8, 0x58u8],
                    ) {
                        raw@.subrange(2, raw@.len() as int)
                    } else {
                        raw@
                    };
                    crate::textparse::lemma_parse_unsigned_range(d, 16, max as int);
                    crate::textparse::lemma_parse_unsigned_range(d, 10, max as int);
                }
                set_number(fields, k, v);
                Ok(())
            },
            None => Err(ControlRequestError::BadNumber),
        }
    }
}

pub open spec fn fields_model(
    f: (Option<u8>, Option<u8>, Option<u16>, Option<u16>, Option<u16>, Option<Vec<u8>>),
) -> FieldsModel {
    (
        f.0,
        f.1,
        f.2,
        f.3,
        f.4,
        match f.5 {
            Some(v) => Some(v@),
            None => None,
        },
    )
}

/// The bounds of the next token at or after `i`: where it starts (the
/// length where none is left) and where it ends.
fn next_token(text: &str, i: usize) -> (r: (usize, usize))
    requires
        i <= text@.len(),
    ensures
        i <= r.0 <= text@.len(),
        r.0 == skip_space(text@, i as int),
        r.0 < text@.len() ==> r.1 == token_end(text@, r.0 as int) && r.0 < r.1 <= text@.len(),
{
    let n = text.unicode_len();
    let mut a = i;
    while a < n && is_white_space(text.get_char(a))
        invariant
            i <= a <= n,
            n == text@.len(),
            skip_space(text@, i as int) == skip_space(text@, a as int),
        decreases n - a,
    {
        a = a + 1;
    }
    proof {
        lemma_skip_space(text@, a as int);
    }
    if a >= n {
        return (a, a);
    }
    let mut b = a;
    while b < n && !is_white_space(text.get_char(b))
        invariant
            a <= b <= n,
            n == text@.len(),
            token_end(text@, a as int) == token_end(text@, b as int),
        decreases n - b,
    {
        b = b + 1;
    }
    proof {
        lemma_token_end(text@, b as int);
        lemma_token_end(text@, a as int);
    }
    (a, b)
}

/// Reads the text written to a port's `control` node: white-space
/// separated `key=value` tokens (a later token overrides an earlier one),
/// all five setup fields present, a length of at most
/// `MAX_SCHEME_CONTROL_BYTES`, and for a host-to-device request exactly
/// `length` payload bytes (none for device-to-host).
pub fn parse_control_request(buf: &[u8]) -> (r: Result<ControlRequest, ControlRequestError>)
    ensures
        match spec_control_request(buf@) {
            Ok(v) => r matches Ok(x) && request_view(x) == v,
            Err(err) => r matches Err(e) && e == err,
        },
{
    let text = match utf8_text(buf) {
        Some(t) => t,
        None => return Err(ControlRequestError::NotUtf8),
    };
    let n = text.unicode_len();
    let mut fields: (Option<u8>, Option<u8>, Option<u16>, Option<u16>, Option<u16>, Option<
        Vec<u8>,
    >) = (None, None, None, None, None, None);
    let mut i: usize = 0;
    while i < n
        invariant
            i <= n,
            n == text@.len(),
            valid_utf8(buf@),
            text@ == decode_utf8(buf@),
            fields_from(text@, 0, no_fields()) == fields_from(text@, i as int, fields_model(fields)),
        decreases n - i,
    {
        let (a, b) = next_token(text, i);
        if a >= n {
            i = n;
        } else {
            let token = text.substring_char(a, b);
            match take_token(token, &mut fields) {
                Ok(()) => {},
                Err(err) => {
                    return Err(err);
                },
            }
            i = b;
        }
    }
    proof {
        lemma_skip_space(text@, i as int);
    }
    let request_type = match fields.0 {
        Some(v) => v,
        None => return Err(ControlRequestError::MissingRequestType),
    };
    let request = match fields.1 {
        Some(v) => v,
        None => return Err(ControlRequestError::MissingRequest),
    };
    let value = match fields.2 {
        Some(v) => v,
        None => return Err(ControlRequestError::MissingValue),
    };
    let index = match fields.3 {
        Some(v) => v,
        None => return Err(ControlRequestError::MissingIndex),
    };
    let length = match fields.4 {
        Some(v) => v,
        None => return Err(ControlRequestError::MissingLength),
    };
    if length as usize > MAX_SCHEME_CONTROL_BYTES {
        return Err(ControlRequestError::LengthTooLarge);
    }
    let payload = if request_type & 0x80 != 0 {
        let given = match &fields.5 {
            Some(d) => d.len() > 0,
            None => false,
        };
        if given {
            return Err(ControlRequestError::PayloadOnInRequest);
        }
        Vec::new()
    } else {
        let d = match fields.5 {
            Some(d) => d,
            None => Vec::new(),
        };
        if d.len() != length as usize {
            return Err(ControlRequestError::PayloadLengthMismatch);
        }
        d
    };
    Ok(ControlRequest { request_type, request, value, index, length, data: payload })
}

} // verus!
