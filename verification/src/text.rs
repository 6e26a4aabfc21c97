//! ASCII text building: hexadecimal and decimal renderings of numbers,
//! appended to a `String` whose contents the contracts state.

use vstd::prelude::*;
use vstd::string::{StrSliceExecFns, StringExecFns};
use vstd::utf8::encode_utf8;

verus! {

/// The upper-case hexadecimal digit of `d` (`d < 16`).
pub open spec fn hex_char(d: int) -> char {
    if d < 10 {
        ((48 + d) as u8) as char
    } else {
        ((55 + d) as u8) as char
    }
}

/// Two upper-case hexadecimal digits of a byte.
pub open spec fn hex2(b: u8) -> Seq<char> {
    seq![hex_char(b as int / 16), hex_char(b as int % 16)]
}

/// Four upper-case hexadecimal digits of a 16-bit value.
pub open spec fn hex4(x: u16) -> Seq<char> {
    hex2((x / 256) as u8) + hex2((x % 256) as u8)
}

/// Lower-case hexadecimal digit of `d` (`d < 16`).
pub open spec fn hex_char_lower(d: int) -> char {
    if d < 10 {
        ((48 + d) as u8) as char
    } else {
        ((87 + d) as u8) as char
    }
}

/// Four lower-case hexadecimal digits of a 16-bit value.
pub open spec fn hex4_lower(x: u16) -> Seq<char> {
    seq![
        hex_char_lower(x as int / 4096),
        hex_char_lower((x as int / 256) % 16),
        hex_char_lower((x as int / 16) % 16),
        hex_char_lower(x as int % 16),
    ]
}

/// The decimal rendering of `n`, without leading zeros ("0" for zero).
pub open spec fn decimal(n: nat) -> Seq<char>
    decreases n,
{
    if n < 10 {
        seq![hex_char(n as int)]
    } else {
        decimal(n / 10) + seq![hex_char((n % 10) as int)]
    }
}

fn hex_digit_str(d: u8) -> (r: &'static str)
    requires
        d < 16,
    ensures
        r@ == seq![hex_char(d as int)],
{
    match d {
        0 => {
            proof { reveal_strlit("0"); }
            "0"
        },
        1 => {
            proof { reveal_strlit("1"); }
            "1"
        },
        2 => {
            proof { reveal_strlit("2"); }
            "2"
        },
        3 => {
            proof { reveal_strlit("3"); }
            "3"
        },
        4 => {
            proof { reveal_strlit("4"); }
            "4"
        },
        5 => {
            proof { reveal_strlit("5"); }
            "5"
        },
        6 => {
            proof { reveal_strlit("6"); }
            "6"
        },
        7 => {
            proof { reveal_strlit("7"); }
            "7"
        },
        8 => {
            proof { reveal_strlit("8"); }
            "8"
        },
        9 => {
            proof { reveal_strlit("9"); }
            "9"
        },
        10 => {
            proof { reveal_strlit("A"); }
            "A"
        },
        11 => {
            proof { reveal_strlit("B"); }
            "B"
        },
        12 => {
            proof { reveal_strlit("C"); }
            "C"
        },
        13 => {
            proof { reveal_strlit("D"); }
            "D"
        },
        14 => {
            proof { reveal_strlit("E"); }
            "E"
        },
        15 => {
            proof { reveal_strlit("F"); }
            "F"
        },
        _ => {
            proof { reveal_strlit("F"); }
            "F"
        },
    }
}

fn hex_digit_lower_str(d: u8) -> (r: &'static str)
    requires
        d < 16,
    ensures
        r@ == seq![hex_char_lower(d as int)],
{
    if d < 10 {
        hex_digit_str(d)
    } else {
        match d {
            10 => {
                proof { reveal_strlit("a"); }
                "a"
            },
            11 => {
                proof { reveal_strlit("b"); }
                "b"
            },
            12 => {
                proof { reveal_strlit("c"); }
                "c"
            },
            13 => {
                proof { reveal_strlit("d"); }
                "d"
            },
            14 => {
                proof { reveal_strlit("e"); }
                "e"
            },
            _ => {
                proof { reveal_strlit("f"); }
                "f"
            },
        }
    }
}

/// Appends a literal.
pub fn push_str(s: &mut String, lit: &str)
    ensures
        final(s)@ == old(s)@ + lit@,
{
    s.append(lit);
}

/// Appends the two upper-case hexadecimal digits of a byte.
pub fn push_hex2(s: &mut String, b: u8)
    ensures
        final(s)@ == old(s)@ + hex2(b),
{
    s.append(hex_digit_str(b / 16));
    s.append(hex_digit_str(b % 16));
    assert(final(s)@ =~= old(s)@ + hex2(b)) by {}
}

/// Appends the four upper-case hexadecimal digits of a 16-bit value.
pub fn push_hex4(s: &mut String, x: u16)
    ensures
        final(s)@ == old(s)@ + hex4(x),
{
    push_hex2(s, (x / 256) as u8);
    push_hex2(s, (x % 256) as u8);
    assert(final(s)@ =~= old(s)@ + hex4(x));
}

/// Appends the four lower-case hexadecimal digits of a 16-bit value.
pub fn push_hex4_lower(s: &mut String, x: u16)
    ensures
        final(s)@ == old(s)@ + hex4_lower(x),
{
    s.append(hex_digit_lower_str((x / 4096) as u8));
    s.append(hex_digit_lower_str(((x / 256) % 16) as u8));
    s.append(hex_digit_lower_str(((x / 16) % 16) as u8));
    s.append(hex_digit_lower_str((x % 16) as u8));
    assert(final(s)@ =~= old(s)@ + hex4_lower(x));
}

/// `width` lower-case hexadecimal digits of `x`, most significant first
/// (as `{:0width$x}` writes a value below `16^width`).
pub open spec fn hex_lower(x: nat, width: nat) -> Seq<char>
    decreases width,
{
    if width == 0 {
        Seq::empty()
    } else {
        hex_lower(x / 16, (width - 1) as nat).push(hex_char_lower((x % 16) as int))
    }
}

/// Appends `width` lower-case hexadecimal digits of `x`.
pub fn push_hex_lower(s: &mut String, x: u64, width: usize)
    ensures
        final(s)@ == old(s)@ + hex_lower(x as nat, width as nat),
    decreases width,
{
    if width > 0 {
        push_hex_lower(s, x / 16, width - 1);
        s.append(hex_digit_lower_str((x % 16) as u8));
        assert(final(s)@ =~= old(s)@ + hex_lower(x as nat, width as nat));
    }
}

/// The lower-case hexadecimal digits of `x` without leading zeros (as
/// `{:x}` writes it; `0` for zero).
pub open spec fn hex_digits(x: nat) -> Seq<char>
    decreases x,
{
    if x < 16 {
        seq![hex_char_lower(x as int)]
    } else {
        hex_digits(x / 16).push(hex_char_lower((x % 16) as int))
    }
}

/// Appends the lower-case hexadecimal digits of `x` without leading zeros.
pub fn push_hex_digits(s: &mut String, x: u64)
    ensures
        final(s)@ == old(s)@ + hex_digits(x as nat),
    decreases x,
{
    if x < 16 {
        s.append(hex_digit_lower_str(x as u8));
    } else {
        push_hex_digits(s, x / 16);
        s.append(hex_digit_lower_str((x % 16) as u8));
        assert(final(s)@ =~= old(s)@ + hex_digits(x as nat));
    }
}

/// The UTF-8 bytes of a string.
pub fn text_bytes(s: String) -> (r: Vec<u8>)
    ensures
        r@ == encode_utf8(s@),
{
    s.as_str().as_bytes_vec()
}

/// Appends the decimal rendering of `n`.
pub fn push_decimal(s: &mut String, n: u64)
    ensures
        final(s)@ == old(s)@ + decimal(n as nat),
    decreases n,
{
    if n < 10 {
        s.append(hex_digit_str(n as u8));
    } else {
        push_decimal(s, n / 10);
        s.append(hex_digit_str((n % 10) as u8));
        assert(final(s)@ =~= old(s)@ + decimal(n as nat));
    }
}

/// A string holding the decimal rendering of `n`.
pub fn decimal_string(n: u64) -> (r: String)
    ensures
        r@ == decimal(n as nat),
{
    let mut s = String::new();
    push_decimal(&mut s, n);
    assert(s@ =~= decimal(n as nat));
    s
}

/// Joins lines with a newline after each, the textual form of a list of
/// lines; an empty list gives a single newline.
pub open spec fn lines_text(lines: Seq<Seq<char>>) -> Seq<char>
    decreases lines.len(),
{
    if lines.len() == 0 {
        Seq::empty()
    } else {
        lines_text(lines.drop_last()) + lines.last() + seq!['\n']
    }
}

/// A literal, a number in decimal, and a literal.
pub fn numbered(prefix: &str, n: u64, suffix: &str) -> (r: String)
    ensures
        r@ == prefix@ + decimal(n as nat) + suffix@,
{
    let mut s = String::from_str(prefix);
    push_decimal(&mut s, n);
    s.append(suffix);
    s
}

/// `String::push`: appends one character to the string.
#[verifier::external_body]
pub(crate) fn push_char(s: &mut String, c: char)
    ensures
        final(s)@ == old(s)@.push(c),
{
    s.push(c);
}

} // verus!
