//! Parsing of short ASCII text fields: hexadecimal and decimal numbers,
//! prefixes and separators, on the UTF-8 bytes of a string.

use vstd::prelude::*;
use crate::ehci_control::{is_white_space, white_space};
use vstd::string::StrSliceExecFns;
use vstd::string::StringSliceAdditionalSpecFns;
use vstd::utf8::{decode_utf8, encode_utf8_decode_utf8, encode_utf8_valid_utf8, is_char_boundary_iff_not_is_continuation_byte, is_char_boundary_start_end_of_seq, is_continuation_byte};

verus! {

/// How many characters at the start of `s` are white space.
pub open spec fn leading_white(s: Seq<char>) -> nat
    decreases s.len(),
{
    if s.len() > 0 && white_space(s[0]) {
        1 + leading_white(s.drop_first())
    } else {
        0
    }
}

/// How many characters at the end of `s` are white space.
pub open spec fn trailing_white(s: Seq<char>) -> nat
    decreases s.len(),
{
    if s.len() > 0 && white_space(s.last()) {
        1 + trailing_white(s.drop_last())
    } else {
        0
    }
}

/// A string without its leading and trailing white space (Unicode's
/// White_Space property), as `str::trim` documents it.
#[verifier::opaque]
pub open spec fn trimmed(s: Seq<char>) -> Seq<char> {
    let a = leading_white(s);
    if a >= s.len() {
        Seq::empty()
    } else {
        s.subrange(a as int, s.len() - trailing_white(s))
    }
}

proof fn lemma_leading_white(s: Seq<char>, a: int)
    requires
        0 <= a <= s.len(),
        forall|j: int| 0 <= j < a ==> white_space(s[j]),
        a == s.len() || !white_space(s[a]),
    ensures
        leading_white(s) == a,
    decreases a,
{
    if a > 0 {
        let t = s.drop_first();
        assert forall|j: int| 0 <= j < a - 1 implies white_space(t[j]) by {
            assert(t[j] == s[j + 1]);
        }
        if a < s.len() {
            assert(t[a - 1] == s[a]);
        }
        lemma_leading_white(t, a - 1);
    }
}

proof fn lemma_trailing_white(s: Seq<char>, b: int)
    requires
        0 <= b <= s.len(),
        forall|j: int| b <= j < s.len() ==> white_space(s[j]),
        b == 0 || !white_space(s[b - 1]),
    ensures
        trailing_white(s) == s.len() - b,
    decreases s.len() - b,
{
    if b < s.len() {
        let t = s.drop_last();
        assert forall|j: int| b <= j < t.len() implies white_space(t[j]) by {
            assert(t[j] == s[j]);
        }
        if b > 0 {
            assert(t[b - 1] == s[b - 1]);
        }
        lemma_trailing_white(t, b);
    }
}

/// Removes leading and trailing white space (Unicode's White_Space
/// property), as `str::trim` does.
pub fn trim_whitespace(s: &str) -> (r: &str)
    ensures
        r@ == trimmed(s@),
{
    let n = s.unicode_len();
    let mut a: usize = 0;
    while a < n && is_white_space(s.get_char(a))
        invariant
            a <= n,
            n == s@.len(),
            forall|j: int| 0 <= j < a ==> white_space(s@[j]),
        decreases n - a,
    {
        a = a + 1;
    }
    proof {
        lemma_leading_white(s@, a as int);
        reveal(trimmed);
    }
    if a == n {
        return s.substring_char(n, n);
    }
    let mut b: usize = n;
    while b > a && is_white_space(s.get_char(b - 1))
        invariant
            a < n,
            a <= b <= n,
            n == s@.len(),
            !white_space(s@[a as int]),
            forall|j: int| b <= j < n ==> white_space(s@[j]),
        decreases b,
    {
        b = b - 1;
    }
    proof {
        lemma_trailing_white(s@, b as int);
    }
    s.substring_char(a, b)
}

/// The value of a hexadecimal digit byte (either case), or -1.
pub open spec fn hex_digit_value(b: u8) -> int {
    if 0x30 <= b <= 0x39 {
        b - 0x30
    } else if 0x41 <= b <= 0x46 {
        b - 0x41 + 10
    } else if 0x61 <= b <= 0x66 {
        b - 0x61 + 10
    } else {
        -1
    }
}

/// The value of a decimal digit byte, or -1.
pub open spec fn dec_digit_value(b: u8) -> int {
    if 0x30 <= b <= 0x39 {
        b - 0x30
    } else {
        -1
    }
}

/// The number that digits in base `radix` spell, most significant first.
pub open spec fn digits_value(s: Seq<u8>, radix: int) -> int
    decreases s.len(),
{
    if s.len() == 0 {
        0
    } else {
        radix * digits_value(s.drop_last(), radix) + digit_value(s.last(), radix)
    }
}

/// A digit's value in base 10 or 16, or -1.
pub open spec fn digit_value(b: u8, radix: int) -> int {
    if radix == 16 {
        hex_digit_value(b)
    } else {
        dec_digit_value(b)
    }
}

/// Every byte is a digit in base `radix`.
pub open spec fn all_digits(s: Seq<u8>, radix: int) -> bool {
    forall|i: int| 0 <= i < s.len() ==> #[trigger] digit_value(s[i], radix) >= 0
}

/// How `from_str_radix` reads an unsigned number in base 10 or 16 that may
/// be at most `max`: an optional leading `+` (not alone), then at least
/// one digit; `None` for anything else or a value over `max`.
pub open spec fn spec_parse_unsigned(s: Seq<u8>, radix: int, max: int) -> Option<int> {
    let d = if s.len() > 1 && s[0] == 0x2B {
        s.drop_first()
    } else {
        s
    };
    if d.len() == 0 || !all_digits(d, radix) || digits_value(d, radix) > max {
        None
    } else {
        Some(digits_value(d, radix))
    }
}

pub proof fn lemma_digits_nonneg(s: Seq<u8>, radix: int)
    requires
        all_digits(s, radix),
        radix == 10 || radix == 16,
    ensures
        digits_value(s, radix) >= 0,
    decreases s.len(),
{
    if s.len() > 0 {
        assert(all_digits(s.drop_last(), radix)) by {
            assert forall|i: int| 0 <= i < s.drop_last().len() implies #[trigger] digit_value(
                s.drop_last()[i],
                radix,
            ) >= 0 by {
                assert(s.drop_last()[i] == s[i]);
            }
        }
        lemma_digits_nonneg(s.drop_last(), radix);
        assert(digit_value(s[s.len() - 1], radix) >= 0);
    }
}

/// A number read this way lies between 0 and `max`.
pub proof fn lemma_parse_unsigned_range(s: Seq<u8>, radix: int, max: int)
    requires
        radix == 10 || radix == 16,
    ensures
        spec_parse_unsigned(s, radix, max) matches Some(v) ==> 0 <= v <= max,
{
    let d = if s.len() > 1 && s[0] == 0x2B {
        s.drop_first()
    } else {
        s
    };
    if spec_parse_unsigned(s, radix, max) is Some {
        lemma_digits_nonneg(d, radix);
    }
}

fn digit_of(b: u8, radix: u64) -> (r: Option<u64>)
    requires
        radix == 10 || radix == 16,
    ensures
        match r {
            Some(v) => v == digit_value(b, radix as int) && v < radix,
            None => digit_value(b, radix as int) < 0,
        },
{
    if 0x30 <= b && b <= 0x39 {
        Some((b - 0x30) as u64)
    } else if radix == 16 && 0x41 <= b && b <= 0x46 {
        Some((b - 0x41 + 10) as u64)
    } else if radix == 16 && 0x61 <= b && b <= 0x66 {
        Some((b - 0x61 + 10) as u64)
    } else {
        None
    }
}

/// Reads an unsigned number in base 10 or 16 of at most `max`, the way
/// `from_str_radix` does.
pub fn parse_unsigned(s: &[u8], radix: u64, max: u64) -> (r: Option<u64>)
    requires
        radix == 10 || radix == 16,
    ensures
        match spec_parse_unsigned(s@, radix as int, max as int) {
            Some(v) => r == Some(v as u64),
            None => r is None,
        },
{
    let start: usize = if s.len() > 1 && s[0] == 0x2B {
        1
    } else {
        0
    };
    let ghost d = if s@.len() > 1 && s@[0] == 0x2B {
        s@.drop_first()
    } else {
        s@
    };
    assert(d =~= s@.subrange(start as int, s@.len() as int));
    if start == s.len() {
        return None;
    }
    let mut acc: u128 = 0;
    let mut i: usize = start;
    while i < s.len()
        invariant
            start <= i <= s@.len(),
            d == s@.subrange(start as int, s@.len() as int),
            d == (if s@.len() > 1 && s@[0] == 0x2B {
                s@.drop_first()
            } else {
                s@
            }),
            radix == 10 || radix == 16,
            all_digits(s@.subrange(start as int, i as int), radix as int),
            acc <= max + 1,
            acc == (if digits_value(s@.subrange(start as int, i as int), radix as int) > max {
                max + 1
            } else {
                digits_value(s@.subrange(start as int, i as int), radix as int)
            }),
        decreases s@.len() - i,
    {
        let ghost pre = s@.subrange(start as int, i as int);
        let ghost next = s@.subrange(start as int, i + 1);
        assert(next.drop_last() =~= pre);
        assert(next.last() == s@[i as int]);
        match digit_of(s[i], radix) {
            None => {
                assert(!all_digits(d, radix as int)) by {
                    assert(d[i - start] == s@[i as int]);
                }
                return None;
            },
            Some(v) => {
                proof {
                    lemma_digits_nonneg(pre, radix as int);
                    assert forall|j: int| 0 <= j < next.len() implies #[trigger] digit_value(
                        next[j],
                        radix as int,
                    ) >= 0 by {
                        if j < pre.len() {
                            assert(next[j] == pre[j]);
                        }
                    }
                }
                if acc > max as u128 {
                    proof {
                        assert(digits_value(next, radix as int) == radix * digits_value(
                            pre,
                            radix as int,
                        ) + v);
                    }
                } else {
                    proof {
                        assert(acc * radix <= 0xFFFF_FFFF_FFFF_FFFFu128 * 16) by (nonlinear_arith)
                            requires
                                acc <= 0xFFFF_FFFF_FFFF_FFFFu128,
                                radix <= 16,
                        ;
                    }
                    let candidate = acc * (radix as u128) + (v as u128);
                    acc = if candidate > max as u128 {
                        max as u128 + 1
                    } else {
                        candidate
                    };
                }
                i = i + 1;
            },
        }
    }
    assert(s@.subrange(start as int, s@.len() as int) == d);
    if acc > max as u128 {
        None
    } else {
        Some(acc as u64)
    }
}

/// `s` begins with the bytes of `prefix`.
pub open spec fn has_prefix(s: Seq<u8>, prefix: Seq<u8>) -> bool {
    prefix.len() <= s.len() && s.subrange(0, prefix.len() as int) == prefix
}

pub fn starts_with(s: &[u8], prefix: &[u8]) -> (r: bool)
    ensures
        r == has_prefix(s@, prefix@),
{
    if prefix.len() > s.len() {
        return false;
    }
    let mut i: usize = 0;
    while i < prefix.len()
        invariant
            i <= prefix@.len() <= s@.len(),
            s@.subrange(0, i as int) == prefix@.subrange(0, i as int),
        decreases prefix@.len() - i,
    {
        if s[i] != prefix[i] {
            assert(s@.subrange(0, prefix@.len() as int)[i as int] != prefix@[i as int]);
            return false;
        }
        i = i + 1;
        assert(s@.subrange(0, i as int) =~= prefix@.subrange(0, i as int));
    }
    assert(prefix@.subrange(0, prefix@.len() as int) =~= prefix@);
    true
}

/// The position of the first `sep` byte at or after `i`, or the length
/// when there is none.
pub open spec fn next_sep(s: Seq<u8>, sep: u8, i: int) -> int
    decreases s.len() - i,
{
    if i >= s.len() || i < 0 {
        s.len() as int
    } else if s[i] == sep {
        i
    } else {
        next_sep(s, sep, i + 1)
    }
}

/// Pieces of `s[from..]` between `sep` bytes, as `str::split` gives them:
/// one more piece than there are separators.
pub open spec fn split_from(s: Seq<u8>, sep: u8, from: int) -> Seq<Seq<u8>>
    decreases s.len() - from,
{
    let i = next_sep(s, sep, from);
    if from < 0 || from > s.len() || i >= s.len() || i < from {
        seq![s.subrange(from, s.len() as int)]
    } else {
        seq![s.subrange(from, i)] + split_from(s, sep, i + 1)
    }
}

/// Pieces of `s` between `sep` bytes.
pub open spec fn split_on(s: Seq<u8>, sep: u8) -> Seq<Seq<u8>> {
    split_from(s, sep, 0)
}

proof fn lemma_next_sep(s: Seq<u8>, sep: u8, from: int, i: int)
    requires
        0 <= from <= i <= s.len(),
        i == s.len() || s[i] == sep,
        forall|j: int| from <= j < i ==> s[j] != sep,
    ensures
        next_sep(s, sep, from) == i,
    decreases i - from,
{
    if from < i {
        lemma_next_sep(s, sep, from + 1, i);
    }
}

/// Finds the first `sep` byte at or after `from`.
pub fn find_byte(s: &[u8], from: usize, sep: u8) -> (r: Option<usize>)
    requires
        from <= s@.len(),
    ensures
        match r {
            Some(i) => from <= i < s@.len() && s@[i as int] == sep && forall|j: int|
                from <= j < i ==> s@[j] != sep,
            None => forall|j: int| from <= j < s@.len() ==> s@[j] != sep,
        },
{
    let mut i = from;
    while i < s.len()
        invariant
            from <= i <= s@.len(),
            forall|j: int| from <= j < i ==> s@[j] != sep,
        decreases s@.len() - i,
    {
        if s[i] == sep {
            return Some(i);
        }
        i = i + 1;
    }
    None
}

/// Splits `s` on `sep`, as ranges of `s`.
pub fn split_ranges(s: &[u8], sep: u8) -> (r: Vec<(usize, usize)>)
    ensures
        r@.len() == split_on(s@, sep).len(),
        forall|k: int| 0 <= k < r@.len() ==> (#[trigger] r@[k]).0 <= r@[k].1 <= s@.len(),
        forall|k: int|
            0 <= k < r@.len() ==> #[trigger] split_on(s@, sep)[k] == s@.subrange(
                r@[k].0 as int,
                r@[k].1 as int,
            ),
{
    let mut r: Vec<(usize, usize)> = Vec::new();
    let mut from: usize = 0;
    let ghost mut pieces: Seq<Seq<u8>> = Seq::empty();
    loop
        invariant
            from <= s@.len(),
            split_on(s@, sep) == pieces + split_from(s@, sep, from as int),
            r@.len() == pieces.len(),
            forall|k: int| 0 <= k < r@.len() ==> (#[trigger] r@[k]).0 <= r@[k].1 <= s@.len(),
            forall|k: int|
                0 <= k < r@.len() ==> #[trigger] pieces[k] == s@.subrange(
                    r@[k].0 as int,
                    r@[k].1 as int,
                ),
        decreases s@.len() - from,
    {
        match find_byte(s, from, sep) {
            None => {
                proof {
                    lemma_next_sep(s@, sep, from as int, s@.len() as int);
                    pieces = pieces.push(s@.subrange(from as int, s@.len() as int));
                }
                r.push((from, s.len()));
                proof {
                    assert(split_on(s@, sep) =~= pieces);
                    assert forall|k: int| 0 <= k < r@.len() implies #[trigger] split_on(s@, sep)[k]
                        == s@.subrange(r@[k].0 as int, r@[k].1 as int) by {
                        assert(pieces[k] == split_on(s@, sep)[k]);
                    }
                }
                return r;
            },
            Some(i) => {
                proof {
                    lemma_next_sep(s@, sep, from as int, i as int);
                    pieces = pieces.push(s@.subrange(from as int, i as int));
                    assert(pieces + split_from(s@, sep, i + 1) =~= pieces.drop_last()
                        + split_from(s@, sep, from as int));
                }
                r.push((from, i));
                assert(i < s.len());
                from = i + 1;
            },
        }
    }
}

/// The sub-string of `s` between two byte positions that fall on character
/// boundaries (an end of the string, or a byte that does not continue a
/// multi-byte character).
pub fn str_range(s: &str, start: usize, end: usize) -> (r: &str)
    requires
        start <= end <= s.spec_bytes().len(),
        end == s.spec_bytes().len() || !is_continuation_byte(s.spec_bytes()[end as int]),
        start == end || !is_continuation_byte(s.spec_bytes()[start as int]),
    ensures
        r.spec_bytes() == s.spec_bytes().subrange(start as int, end as int),
        r@ == decode_utf8(s.spec_bytes().subrange(start as int, end as int)),
{
    proof {
        encode_utf8_valid_utf8(s@);
        is_char_boundary_start_end_of_seq(s.spec_bytes());
        if end < s.spec_bytes().len() {
            is_char_boundary_iff_not_is_continuation_byte(s.spec_bytes(), end as int);
        }
    }
    let (a, _b) = s.split_at(end);
    proof {
        encode_utf8_valid_utf8(a@);
        is_char_boundary_start_end_of_seq(a.spec_bytes());
        if start < end {
            assert(a.spec_bytes()[start as int] == s.spec_bytes()[start as int]);
            is_char_boundary_iff_not_is_continuation_byte(a.spec_bytes(), start as int);
        }
    }
    let (_c, d) = a.split_at(start);
    proof {
        encode_utf8_decode_utf8(d@);
        assert(d.spec_bytes() =~= s.spec_bytes().subrange(start as int, end as int));
    }
    d
}

} // verus!
