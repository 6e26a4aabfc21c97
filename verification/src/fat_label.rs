//! FAT volume labels: checking and normalizing a new label, reading one
//! back from its 11 bytes, and finding where the root directory holds the
//! label entry.

use vstd::prelude::*;
use vstd::string::{StringExecFns, StringSliceAdditionalSpecFns};
use crate::bytes::{copy_range, le16, le32, u16_from_le, u32_from_le};
use crate::text::{hex2, push_char, push_hex2};

verus! {

/// A label as shown to the user: "(no label)" for an empty one.
pub open spec fn spec_printable_label(label: Seq<char>) -> Seq<char> {
    if label.len() == 0 {
        "(no label)"@
    } else {
        label
    }
}

pub fn printable_label(label: &str) -> (r: String)
    ensures
        r@ == spec_printable_label(label@),
{
    if label.is_empty() {
        String::from_str("(no label)")
    } else {
        String::from_str(label)
    }
}

/// A byte a volume label may not hold: control characters, DEL, and
/// `" * + , . / : ; < = > ? [ \ ] |`.
pub open spec fn spec_invalid_label_byte(b: u8) -> bool {
    b <= 0x1F || b == 0x7F || b == 0x22 || b == 0x2A || b == 0x2B || b == 0x2C || b == 0x2E || b
        == 0x2F || b == 0x3A || b == 0x3B || b == 0x3C || b == 0x3D || b == 0x3E || b == 0x3F || b
        == 0x5B || b == 0x5C || b == 0x5D || b == 0x7C
}

pub fn invalid_volume_label_char(byte: u8) -> (r: bool)
    ensures
        r == spec_invalid_label_byte(byte),
{
    byte <= 0x1F || byte == 0x7F || byte == 0x22 || byte == 0x2A || byte == 0x2B || byte == 0x2C
        || byte == 0x2E || byte == 0x2F || byte == 0x3A || byte == 0x3B || byte == 0x3C || byte
        == 0x3D || byte == 0x3E || byte == 0x3F || byte == 0x5B || byte == 0x5C || byte == 0x5D
        || byte == 0x7C
}

/// Why a new label was refused.
#[derive(Clone, Copy, Debug, PartialEq, Eq, Structural)]
pub enum LabelError {
    NotAscii,
    TooLong,
    InvalidChar(u8),
}

impl LabelError {
    pub open spec fn message_spec(self) -> Seq<char> {
        match self {
            LabelError::NotAscii => "label must contain only ASCII characters"@,
            LabelError::TooLong => "label too long (max 11 chars)"@,
            LabelError::InvalidChar(b) => "invalid character '"@ + seq![b as char] + "' in label"@,
        }
    }

    /// The text that explains the refusal.
    pub fn message(&self) -> (r: String)
        ensures
            r@ == self.message_spec(),
    {
        match self {
            LabelError::NotAscii => String::from_str("label must contain only ASCII characters"),
            LabelError::TooLong => String::from_str("label too long (max 11 chars)"),
            LabelError::InvalidChar(b) => {
                let mut s = String::from_str("invalid character '");
                push_char(&mut s, *b as char);
                s.append("' in label");
                s
            },
        }
    }
}

/// ASCII upper case of a byte.
pub open spec fn ascii_upper(b: u8) -> u8 {
    if 0x61 <= b <= 0x7A {
        (b - 32) as u8
    } else {
        b
    }
}

/// The first byte of `s` a label may not hold, if any.
pub open spec fn first_invalid(s: Seq<u8>) -> Option<u8>
    decreases s.len(),
{
    if s.len() == 0 {
        None
    } else if spec_invalid_label_byte(s[0]) {
        Some(s[0])
    } else {
        first_invalid(s.drop_first())
    }
}

/// The 11 bytes a label is stored as: ASCII only, at most 11 characters,
/// upper-cased, none of them invalid, padded with spaces.
pub open spec fn spec_normalize_label(label: Seq<char>) -> Result<Seq<u8>, LabelError> {
    let upper = label.map_values(|c: char| ascii_upper(c as u8));
    if !vstd::utf8::is_ascii_chars(label) {
        Err(LabelError::NotAscii)
    } else if label.len() > 11 {
        Err(LabelError::TooLong)
    } else if first_invalid(upper) is Some {
        Err(LabelError::InvalidChar(first_invalid(upper)->0))
    } else {
        Ok(upper + Seq::new((11 - label.len()) as nat, |i: int| 0x20u8))
    }
}

proof fn lemma_first_invalid_step(s: Seq<u8>, i: int)
    requires
        0 <= i < s.len(),
        forall|j: int| 0 <= j < i ==> !spec_invalid_label_byte(#[trigger] s[j]),
    ensures
        first_invalid(s) == first_invalid(s.subrange(i, s.len() as int)),
    decreases i,
{
    if i > 0 {
        assert(!spec_invalid_label_byte(s[0]));
        assert(first_invalid(s) == first_invalid(s.drop_first()));
        assert(s.drop_first().subrange(i - 1, s.drop_first().len() as int) =~= s.subrange(
            i,
            s.len() as int,
        ));
        assert forall|j: int| 0 <= j < i - 1 implies !spec_invalid_label_byte(
            #[trigger] s.drop_first()[j],
        ) by {
            assert(s.drop_first()[j] == s[j + 1]);
        }
        lemma_first_invalid_step(s.drop_first(), i - 1);
    } else {
        assert(s.subrange(0, s.len() as int) =~= s);
    }
}

proof fn lemma_first_invalid_none(s: Seq<u8>)
    requires
        forall|j: int| 0 <= j < s.len() ==> !spec_invalid_label_byte(#[trigger] s[j]),
    ensures
        first_invalid(s) is None,
    decreases s.len(),
{
    if s.len() > 0 {
        assert(!spec_invalid_label_byte(s[0]));
        assert forall|j: int| 0 <= j < s.len() - 1 implies !spec_invalid_label_byte(
            #[trigger] s.drop_first()[j],
        ) by {
            assert(s.drop_first()[j] == s[j + 1]);
        }
        lemma_first_invalid_none(s.drop_first());
    }
}

/// Checks a new label and gives the 11 bytes it is stored as.
pub fn normalize_label(label: &str) -> (r: Result<[u8; 11], LabelError>)
    ensures
        match r {
            Ok(bytes) => spec_normalize_label(label@) == Ok::<Seq<u8>, LabelError>(bytes@),
            Err(e) => spec_normalize_label(label@) == Err::<Seq<u8>, LabelError>(e),
        },
{
    broadcast use vstd::string::is_ascii_spec_bytes;

    if !label.is_ascii() {
        return Err(LabelError::NotAscii);
    }
    let raw = label.as_bytes();
    if raw.len() > 11 {
        return Err(LabelError::TooLong);
    }
    let ghost upper = label@.map_values(|c: char| ascii_upper(c as u8));
    let mut bytes = [0x20u8; 11];
    let mut i: usize = 0;
    while i < raw.len()
        invariant
            vstd::utf8::is_ascii_chars(label@),
            label@.len() <= 11,
            raw@ == label.spec_bytes(),
            raw@.len() <= 11,
            raw@ =~= Seq::new(label@.len(), |k: int| label@[k] as u8),
            upper == label@.map_values(|c: char| ascii_upper(c as u8)),
            i <= raw@.len(),
            forall|k: int| 0 <= k < i ==> bytes@[k] == upper[k],
            forall|k: int| 0 <= k < i ==> !spec_invalid_label_byte(#[trigger] upper[k]),
            forall|k: int| raw@.len() <= k < 11 ==> bytes@[k] == 0x20,
        decreases raw@.len() - i,
    {
        let b = raw[i];
        let u: u8 = if 0x61 <= b && b <= 0x7A {
            b - 32
        } else {
            b
        };
        assert(u == upper[i as int]);
        if invalid_volume_label_char(u) {
            proof {
                lemma_first_invalid_step(upper, i as int);
                assert(upper.subrange(i as int, upper.len() as int)[0] == u);
            }
            return Err(LabelError::InvalidChar(u));
        }
        bytes[i] = u;
        i = i + 1;
    }
    proof {
        lemma_first_invalid_none(upper);
        assert(bytes@ =~= upper + Seq::new((11 - label@.len()) as nat, |k: int| 0x20u8));
    }
    Ok(bytes)
}

/// The length of `bytes` without its trailing spaces.
pub open spec fn trimmed_len(bytes: Seq<u8>) -> int
    decreases bytes.len(),
{
    if bytes.len() == 0 {
        0
    } else if bytes.last() == 0x20 {
        trimmed_len(bytes.drop_last())
    } else {
        bytes.len() as int
    }
}

proof fn lemma_trimmed_len_pad(s: Seq<u8>, k: nat)
    ensures
        trimmed_len(s + Seq::new(k, |i: int| 0x20u8)) == trimmed_len(s),
    decreases k,
{
    let t = s + Seq::new(k, |i: int| 0x20u8);
    if k == 0 {
        assert(t =~= s);
    } else {
        assert(t.drop_last() =~= s + Seq::new((k - 1) as nat, |i: int| 0x20u8));
        assert(t.last() == 0x20u8);
        lemma_trimmed_len_pad(s, (k - 1) as nat);
    }
}

/// A label written to disk reads back as the label upper-cased: the stored
/// bytes are ASCII, and trimming the padding leaves exactly the label (for
/// a label that does not itself end in a space).
pub proof fn lemma_label_round_trip(label: Seq<char>)
    requires
        spec_normalize_label(label) is Ok,
        label.len() == 0 || label.last() != ' ',
    ensures
        ({
            let bytes = spec_normalize_label(label)->Ok_0;
            &&& bytes.len() == 11
            &&& forall|i: int| 0 <= i < 11 ==> #[trigger] bytes[i] < 0x80
            &&& bytes.subrange(0, trimmed_len(bytes)).map_values(|b: u8| b as char)
                == label.map_values(|c: char| ascii_upper(c as u8) as char)
        }),
{
    let upper = label.map_values(|c: char| ascii_upper(c as u8));
    let n = label.len();
    let bytes = upper + Seq::new((11 - n) as nat, |i: int| 0x20u8);
    assert(spec_normalize_label(label)->Ok_0 == bytes);
    lemma_trimmed_len_pad(upper, (11 - n) as nat);
    if n > 0 {
        assert(upper =~= upper.drop_last().push(upper.last()));
        assert(label[n - 1] != ' ');
        assert('\0' <= label[n - 1] <= '\u{7f}');
        assert(upper.last() != 0x20);
    } else {
        assert(upper.len() == 0);
    }
    assert(trimmed_len(upper) == n);
    assert forall|i: int| 0 <= i < 11 implies #[trigger] bytes[i] < 0x80 by {
        if i < n {
            assert('\0' <= label[i] <= '\u{7f}');
        }
    }
    assert(bytes.subrange(0, n as int) =~= upper);
    assert(bytes.subrange(0, trimmed_len(bytes)).map_values(|b: u8| b as char) =~= label.map_values(
        |c: char| ascii_upper(c as u8) as char,
    ));
}

proof fn lemma_trimmed_len_bound(bytes: Seq<u8>)
    ensures
        0 <= trimmed_len(bytes) <= bytes.len(),
    decreases bytes.len(),
{
    if bytes.len() > 0 && bytes.last() == 0x20 {
        lemma_trimmed_len_bound(bytes.drop_last());
    }
}

/// What `String::from_utf8_lossy` makes of a byte string.
pub uninterp spec fn lossy_utf8(bytes: Seq<u8>) -> Seq<char>;

/// `String::from_utf8_lossy`, made an owned string: decodes the bytes as
/// UTF-8, each invalid sequence becoming U+FFFD. Of bytes that are all
/// ASCII (valid UTF-8, one byte a character) the result is those
/// characters; otherwise only the name says what it is.
#[verifier::external_body]
pub(crate) fn decode_utf8_lossy(bytes: &[u8]) -> (r: String)
    ensures
        r@ == lossy_utf8(bytes@),
        (forall|i: int| 0 <= i < bytes@.len() ==> #[trigger] bytes@[i] < 0x80) ==> r@
            == bytes@.map_values(|b: u8| b as char),
{
    String::from_utf8_lossy(bytes).into_owned()
}

/// The label 11 stored bytes hold: decoded as UTF-8 (lossily), trailing
/// spaces removed. The spaces are removed before decoding, which gives the
/// same text since a space is one byte and no other sequence decodes to one.
pub fn label_string(bytes: &[u8; 11]) -> (r: String)
    ensures
        r@ == lossy_utf8(bytes@.subrange(0, trimmed_len(bytes@))),
        (forall|i: int| 0 <= i < 11 ==> #[trigger] bytes@[i] < 0x80) ==> r@ == bytes@.subrange(
            0,
            trimmed_len(bytes@),
        ).map_values(|b: u8| b as char),
{
    let mut n: usize = 11;
    proof {
        assert(bytes@.subrange(0, 11) =~= bytes@);
    }
    while n > 0 && bytes[n - 1] == 0x20
        invariant
            n <= 11,
            trimmed_len(bytes@.subrange(0, n as int)) == trimmed_len(bytes@),
        decreases n,
    {
        proof {
            assert(bytes@.subrange(0, n as int).drop_last() =~= bytes@.subrange(0, n - 1));
        }
        n = n - 1;
    }
    proof {
        assert(bytes@.subrange(0, 11) =~= bytes@);
        if n > 0 {
            assert(bytes@.subrange(0, n as int).last() != 0x20);
        }
        assert(trimmed_len(bytes@.subrange(0, n as int)) == n);
    }
    let kept = copy_range(bytes, 0, n);
    decode_utf8_lossy(kept.as_slice())
}

// ---- Where the label is written ----

/// Byte offset of the label field in the boot sector: 71 on FAT32 (no
/// fixed root directory, a 32-bit FAT size), else 43.
pub open spec fn spec_label_offset(bs: Seq<u8>) -> u64 {
    if le16(bs[17], bs[18]) == 0 && le32(bs[36], bs[37], bs[38], bs[39]) != 0 {
        71
    } else {
        43
    }
}

pub fn label_offset(boot_sector: &[u8; 512]) -> (r: u64)
    ensures
        r == spec_label_offset(boot_sector@),
{
    let root_entry_count = u16_from_le(boot_sector[17], boot_sector[18]);
    let fat_size_32 = u32_from_le(boot_sector[36], boot_sector[37], boot_sector[38], boot_sector[39]);
    if root_entry_count == 0 && fat_size_32 != 0 {
        71
    } else {
        43
    }
}

pub open spec fn signature_error_spec(bs: Seq<u8>) -> Option<Seq<char>> {
    if bs[510] == 0x55 && bs[511] == 0xAA {
        None
    } else {
        Some("invalid boot sector signature "@ + hex2(bs[510]) + " "@ + hex2(bs[511]))
    }
}

/// The complaint about a boot sector without the 55 AA signature.
pub fn signature_error(boot_sector: &[u8; 512]) -> (r: Option<String>)
    ensures
        match r {
            Some(s) => signature_error_spec(boot_sector@) == Some(s@),
            None => signature_error_spec(boot_sector@) is None,
        },
{
    if boot_sector[510] == 0x55 && boot_sector[511] == 0xAA {
        return None;
    }
    let mut s = String::from_str("invalid boot sector signature ");
    push_hex2(&mut s, boot_sector[510]);
    s.append(" ");
    push_hex2(&mut s, boot_sector[511]);
    Some(s)
}

/// A root-directory entry holding a label: its 11 bytes, then the volume
/// label attribute 0x08, then zeros.
pub open spec fn spec_label_entry(label: Seq<u8>) -> Seq<u8> {
    label + seq![0x08u8] + Seq::new(20, |i: int| 0u8)
}

pub fn label_entry(label: &[u8; 11]) -> (r: [u8; 32])
    ensures
        r@ == spec_label_entry(label@),
{
    let mut entry = [0u8; 32];
    let mut i: usize = 0;
    while i < 11
        invariant
            i <= 11,
            forall|k: int| 0 <= k < i ==> entry@[k] == label@[k],
            forall|k: int| 11 <= k < 32 ==> entry@[k] == 0,
        decreases 11 - i,
    {
        entry[i] = label[i];
        i = i + 1;
    }
    entry[11] = 0x08;
    proof {
        assert(entry@ =~= spec_label_entry(label@));
    }
    entry
}

/// The root directory's place on the volume, from the boot sector.
#[derive(Clone, Copy)]
pub struct LabelLayout {
    pub is_fat32: bool,
    pub bytes_per_sector: u32,
    pub sectors_per_cluster: u32,
    pub reserved_sectors: u32,
    pub root_entry_count: u32,
    pub first_root_dir_sector: u32,
    pub first_data_sector: u32,
    pub root_cluster: u32,
}

pub open spec fn bs_fat32(bs: Seq<u8>) -> bool {
    le16(bs[17], bs[18]) == 0 && le32(bs[36], bs[37], bs[38], bs[39]) != 0
}

pub open spec fn bs_label_fat_size(bs: Seq<u8>) -> u32 {
    if bs_fat32(bs) {
        le32(bs[36], bs[37], bs[38], bs[39])
    } else {
        le16(bs[22], bs[23]) as u32
    }
}

/// The first sector after the FATs.
pub open spec fn bs_first_root(bs: Seq<u8>) -> int {
    le16(bs[14], bs[15]) + bs[16] * bs_label_fat_size(bs)
}

/// Sectors of the fixed root directory, rounded up.
pub open spec fn bs_root_sectors(bs: Seq<u8>) -> int {
    let bps = le16(bs[11], bs[12]) as int;
    (le16(bs[17], bs[18]) * 32 + bps - 1) / bps
}

/// The layout a boot sector gives, where its arithmetic works out: a
/// nonzero sector size, and a first root-directory sector (and on FAT32 a
/// first data sector) that fits 32 bits.
pub open spec fn spec_label_layout(bs: Seq<u8>) -> Option<LabelLayout> {
    let bps = le16(bs[11], bs[12]) as u32;
    if bps == 0 || bs_first_root(bs) > u32::MAX || (bs_fat32(bs) && bs_first_root(bs)
        + bs_root_sectors(bs) > u32::MAX) {
        None
    } else {
        Some(
            LabelLayout {
                is_fat32: bs_fat32(bs),
                bytes_per_sector: bps,
                sectors_per_cluster: bs[13] as u32,
                reserved_sectors: le16(bs[14], bs[15]) as u32,
                root_entry_count: le16(bs[17], bs[18]) as u32,
                first_root_dir_sector: bs_first_root(bs) as u32,
                first_data_sector: if bs_fat32(bs) {
                    (bs_first_root(bs) + bs_root_sectors(bs)) as u32
                } else {
                    0
                },
                root_cluster: le32(bs[44], bs[45], bs[46], bs[47]),
            },
        )
    }
}

/// The root directory starts after the reserved sectors and every copy of
/// the FAT: its first sector is the reserved-sector count (bytes 14..16)
/// plus the number of FATs (byte 16) times the sectors of one FAT, which
/// is the 16-bit count at bytes 22..24 on FAT12/16 and the 32-bit count at
/// bytes 36..40 on FAT32 (no fixed root entries, a nonzero 32-bit count).
pub proof fn lemma_label_root_after_fats(bs: Seq<u8>)
    requires
        bs.len() == 512,
        spec_label_layout(bs) is Some,
    ensures
        ({
            let l = spec_label_layout(bs)->0;
            let reserved = bs[14] as int + 256 * bs[15] as int;
            let fat32 = bs[17] as int + 256 * bs[18] as int == 0 && bs[36] as int + 256 * bs[37] as int
                + 65536 * bs[38] as int + 16777216 * bs[39] as int != 0;
            let fat_size = if fat32 {
                bs[36] as int + 256 * bs[37] as int + 65536 * bs[38] as int + 16777216 * bs[39] as int
            } else {
                bs[22] as int + 256 * bs[23] as int
            };
            &&& l.is_fat32 == fat32
            &&& l.reserved_sectors == reserved
            &&& l.first_root_dir_sector == reserved + bs[16] as int * fat_size
            &&& l.first_root_dir_sector >= reserved + fat_size * (if bs[16] > 0 { 1int } else { 0 })
            &&& l.bytes_per_sector == bs[11] as int + 256 * bs[12] as int
            &&& l.sectors_per_cluster == bs[13]
            &&& l.root_entry_count == bs[17] as int + 256 * bs[18] as int
            &&& l.root_cluster == bs[44] as int + 256 * bs[45] as int + 65536 * bs[46] as int
                + 16777216 * bs[47] as int
            &&& l.first_data_sector == if fat32 { l.first_root_dir_sector } else { 0 }
        }),
{
    let fat32 = bs[17] as int + 256 * bs[18] as int == 0 && bs[36] as int + 256 * bs[37] as int
        + 65536 * bs[38] as int + 16777216 * bs[39] as int != 0;
    let fat_size = if fat32 {
        bs[36] as int + 256 * bs[37] as int + 65536 * bs[38] as int + 16777216 * bs[39] as int
    } else {
        bs[22] as int + 256 * bs[23] as int
    };
    assert(bs_label_fat_size(bs) == fat_size);
    if fat32 {
        let bps = le16(bs[11], bs[12]) as int;
        assert(bs_root_sectors(bs) == (bps - 1) / bps);
        assert((bps - 1) / bps == 0) by (nonlinear_arith)
            requires
                bps > 0,
        ;
    }
    let n = bs[16] as int;
    assert(n * fat_size >= fat_size * (if n > 0 { 1int } else { 0 })) by (nonlinear_arith)
        requires
            0 <= n,
            0 <= fat_size,
    ;
}

proof fn lemma_label_fat_area(num_fats: u8, fat_size: u32)
    ensures
        num_fats * fat_size <= 255 * 0xFFFF_FFFFu64,
{
    assert(num_fats * fat_size <= 255 * 0xFFFF_FFFFu64) by (nonlinear_arith)
        requires
            num_fats <= 255,
            fat_size <= 0xFFFF_FFFFu64,
    ;
}

/// Reads the root directory's layout from a boot sector; `None` where the
/// sector size is zero or the sector numbers overflow 32 bits.
pub fn label_layout(boot_sector: &[u8; 512]) -> (r: Option<LabelLayout>)
    ensures
        r == spec_label_layout(boot_sector@),
{
    let bs = boot_sector;
    let root_entry_count = u16_from_le(bs[17], bs[18]) as u32;
    let bytes_per_sector = u16_from_le(bs[11], bs[12]) as u32;
    let sectors_per_cluster = bs[13] as u32;
    let reserved_sectors = u16_from_le(bs[14], bs[15]) as u32;
    let num_fats = bs[16] as u32;
    let fat_size_16 = u16_from_le(bs[22], bs[23]) as u32;
    let fat_size_32 = u32_from_le(bs[36], bs[37], bs[38], bs[39]);
    let is_fat32 = root_entry_count == 0 && fat_size_32 != 0;
    let fat_size = if is_fat32 {
        fat_size_32
    } else {
        fat_size_16
    };
    if bytes_per_sector == 0 {
        return None;
    }
    proof {
        lemma_label_fat_area(bs[16], fat_size);
    }
    let first_root = reserved_sectors as u64 + num_fats as u64 * fat_size as u64;
    if first_root > 0xFFFF_FFFF {
        return None;
    }
    let root_dir_sectors = (root_entry_count * 32 + bytes_per_sector - 1) / bytes_per_sector;
    let first_data = first_root + root_dir_sectors as u64;
    if is_fat32 && first_data > 0xFFFF_FFFF {
        return None;
    }
    Some(
        LabelLayout {
            is_fat32,
            bytes_per_sector,
            sectors_per_cluster,
            reserved_sectors,
            root_entry_count,
            first_root_dir_sector: first_root as u32,
            first_data_sector: if is_fat32 {
                first_data as u32
            } else {
                0
            },
            root_cluster: u32_from_le(bs[44], bs[45], bs[46], bs[47]),
        },
    )
}

impl LabelLayout {
    /// Byte offset of the fixed root directory.
    pub fn root_dir_offset(&self) -> (r: u64)
        ensures
            r == self.first_root_dir_sector * self.bytes_per_sector,
    {
        proof {
            assert(self.first_root_dir_sector * self.bytes_per_sector <= 0xFFFF_FFFFu64
                * 0xFFFF_FFFFu64) by (nonlinear_arith);
        }
        self.first_root_dir_sector as u64 * self.bytes_per_sector as u64
    }

    /// Bytes of the fixed root directory, 32 an entry.
    pub fn root_dir_size(&self) -> (r: usize)
        requires
            self.root_entry_count <= 0xFFFF,
        ensures
            r == self.root_entry_count * 32,
    {
        (self.root_entry_count * 32) as usize
    }

    /// Bytes in a cluster.
    pub fn cluster_size(&self) -> (r: usize)
        requires
            self.bytes_per_sector <= 0xFFFF,
            self.sectors_per_cluster <= 0xFF,
        ensures
            r == self.bytes_per_sector * self.sectors_per_cluster,
    {
        proof {
            assert(self.bytes_per_sector * self.sectors_per_cluster <= 0xFFFF * 0xFF)
                by (nonlinear_arith)
                requires
                    self.bytes_per_sector <= 0xFFFF,
                    self.sectors_per_cluster <= 0xFF,
            ;
        }
        (self.bytes_per_sector * self.sectors_per_cluster) as usize
    }

    /// Byte offset of a data cluster; `None` for a cluster below 2 or a
    /// sector number that overflows 32 bits.
    pub fn cluster_offset(&self, cluster: u32) -> (r: Option<u64>)
        ensures
            r == (if cluster < 2 || self.first_data_sector + (cluster - 2)
                * self.sectors_per_cluster > u32::MAX {
                None
            } else {
                Some(
                    ((self.first_data_sector + (cluster - 2) * self.sectors_per_cluster)
                        * self.bytes_per_sector) as u64,
                )
            }),
    {
        if cluster < 2 {
            return None;
        }
        proof {
            assert((cluster - 2) * self.sectors_per_cluster <= 0xFFFF_FFFFu64 * 0xFFFF_FFFFu64)
                by (nonlinear_arith);
        }
        let sector = self.first_data_sector as u64 + (cluster - 2) as u64
            * self.sectors_per_cluster as u64;
        if sector > 0xFFFF_FFFF {
            return None;
        }
        proof {
            assert(sector * self.bytes_per_sector <= 0xFFFF_FFFFu64 * 0xFFFF_FFFFu64)
                by (nonlinear_arith)
                requires
                    sector <= 0xFFFF_FFFFu64,
                    self.bytes_per_sector <= 0xFFFF_FFFFu64,
            ;
        }
        Some(sector * self.bytes_per_sector as u64)
    }

    /// Byte offset of a cluster's entry in the first FAT.
    pub fn fat_entry_offset(&self, cluster: u32) -> (r: u64)
        requires
            self.reserved_sectors <= 0xFFFF,
            self.bytes_per_sector <= 0xFFFF,
        ensures
            r == self.reserved_sectors * self.bytes_per_sector + cluster * 4,
    {
        proof {
            assert(self.reserved_sectors * self.bytes_per_sector <= 0xFFFF * 0xFFFF)
                by (nonlinear_arith)
                requires
                    self.reserved_sectors <= 0xFFFF,
                    self.bytes_per_sector <= 0xFFFF,
            ;
        }
        self.reserved_sectors as u64 * self.bytes_per_sector as u64 + cluster as u64 * 4
    }
}

/// The root directory's next cluster after one whose FAT32 entry holds
/// these bytes; `None` at the end of the chain.
pub open spec fn spec_next_root_cluster(entry: Seq<u8>) -> Option<u32> {
    let next = le32(entry[0], entry[1], entry[2], entry[3]) & 0x0FFF_FFFF;
    if next >= 0x0FFF_FFF8 {
        None
    } else {
        Some(next)
    }
}

pub fn next_root_cluster(entry: &[u8; 4]) -> (r: Option<u32>)
    ensures
        r == spec_next_root_cluster(entry@),
{
    let next = u32_from_le(entry[0], entry[1], entry[2], entry[3]) & 0x0FFF_FFFF;
    if next >= 0x0FFF_FFF8 {
        None
    } else {
        Some(next)
    }
}

/// Where a region of root-directory entries read from `base` can hold the
/// label: the first free or deleted slot (kept if one was found before),
/// and the offset of an existing label entry. An end-of-directory entry,
/// which is free too, ends the search of the region, as a label entry does.
pub open spec fn spec_slot_search(
    buf: Seq<u8>,
    base: u64,
    first_free: Option<u64>,
    i: int,
) -> (Option<u64>, Option<u64>)
    decreases buf.len() / 32 - i,
{
    if i < 0 || i >= buf.len() / 32 {
        (first_free, None)
    } else {
        let off = (base + i * 32) as u64;
        let keep = if first_free is Some {
            first_free
        } else {
            Some(off)
        };
        let b0 = buf[i * 32];
        if b0 == 0x00 {
            (keep, None)
        } else if b0 == 0xE5 {
            spec_slot_search(buf, base, keep, i + 1)
        } else if buf[i * 32 + 11] == 0x08 {
            (first_free, Some(off))
        } else {
            spec_slot_search(buf, base, first_free, i + 1)
        }
    }
}

/// Searches a region of root-directory entries for the label entry and
/// the first free slot.
pub fn search_label_slots(buf: &[u8], base: u64, first_free: Option<u64>) -> (r: (
    Option<u64>,
    Option<u64>,
))
    requires
        base + buf@.len() <= u64::MAX,
    ensures
        r == spec_slot_search(buf@, base, first_free, 0),
{
    let count = buf.len() / 32;
    let mut free = first_free;
    let mut i: usize = 0;
    while i < count
        invariant
            count == buf@.len() / 32,
            buf@.len() <= usize::MAX,
            base + buf@.len() <= u64::MAX,
            i <= count,
            spec_slot_search(buf@, base, free, i as int) == spec_slot_search(
                buf@,
                base,
                first_free,
                0,
            ),
        decreases count - i,
    {
        proof {
            assert(i * 32 + 32 <= buf@.len()) by (nonlinear_arith)
                requires
                    i < count,
                    count == buf@.len() / 32,
            ;
        }
        let at = i * 32;
        let off = base + at as u64;
        let keep = if free.is_some() {
            free
        } else {
            Some(off)
        };
        let b0 = buf[at];
        if b0 == 0x00 {
            return (keep, None);
        }
        if b0 == 0xE5 {
            free = keep;
        } else if buf[at + 11] == 0x08 {
            return (free, Some(off));
        }
        i = i + 1;
    }
    (free, None)
}

/// What is left to do once the search is over.
#[derive(Clone, Copy, Debug, PartialEq, Eq, Structural)]
pub enum LabelEntryPlan {
    /// The label entry was found and rewritten.
    Updated,
    /// A new label entry goes into the free slot at this offset.
    Create(u64),
    /// The root directory has no room for a label entry.
    DirectoryFull,
}

pub fn plan_label_entry(found: bool, first_free: Option<u64>) -> (r: LabelEntryPlan)
    ensures
        r == (if found {
            LabelEntryPlan::Updated
        } else {
            match first_free {
                Some(off) => LabelEntryPlan::Create(off),
                None => LabelEntryPlan::DirectoryFull,
            }
        }),
{
    if found {
        LabelEntryPlan::Updated
    } else {
        match first_free {
            Some(off) => LabelEntryPlan::Create(off),
            None => LabelEntryPlan::DirectoryFull,
        }
    }
}

} // verus!
