//! FAT12/16/32 consistency checking: the boot-sector layout, file
//! allocation table entries, cluster chains, long-file-name entries and the
//! repairs of what a scan finds.

use vstd::prelude::*;
use crate::bytes::{le16, le32, u16_from_le, u32_from_le};

verus! {

#[derive(Clone, Copy, Debug, Eq, PartialEq, Structural)]
pub enum FatKind {
    Fat12,
    Fat16,
    Fat32,
}

#[derive(Clone, Copy, Debug, Eq, PartialEq, Structural)]
pub enum ClusterState {
    Free,
    Next(u32),
    Eof,
    Bad,
    Reserved,
    Invalid,
}

/// Byte offset of a cluster's entry in the table.
pub open spec fn entry_offset(kind: FatKind, cluster: u32) -> int {
    match kind {
        FatKind::Fat12 => (cluster as int * 3) / 2,
        FatKind::Fat16 => cluster as int * 2,
        FatKind::Fat32 => cluster as int * 4,
    }
}

/// Number of bytes an entry's read touches from its offset.
pub open spec fn entry_span(kind: FatKind) -> int {
    match kind {
        FatKind::Fat12 => 2,
        FatKind::Fat16 => 2,
        FatKind::Fat32 => 4,
    }
}

/// The entry lies inside the table.
pub open spec fn entry_in_table(fat: Seq<u8>, kind: FatKind, cluster: u32) -> bool {
    entry_offset(kind, cluster) + entry_span(kind) <= fat.len()
}

/// The value of a cluster's table entry; 0 for an entry past the table's end.
/// FAT12 entries are 12 bits packed two to three bytes (even clusters in
/// the low bits), FAT16 entries 16 bits, FAT32 entries the low 28 bits of 32.
pub open spec fn spec_fat_entry(fat: Seq<u8>, kind: FatKind, cluster: u32) -> u32 {
    let off = entry_offset(kind, cluster);
    if !entry_in_table(fat, kind, cluster) {
        0
    } else {
        match kind {
            FatKind::Fat12 => {
                let w = le16(fat[off], fat[off + 1]);
                if cluster % 2 == 0 {
                    (w & 0x0FFF) as u32
                } else {
                    (w >> 4u16) as u32
                }
            },
            FatKind::Fat16 => le16(fat[off], fat[off + 1]) as u32,
            FatKind::Fat32 => le32(fat[off], fat[off + 1], fat[off + 2], fat[off + 3]) & 0x0FFF_FFFF,
        }
    }
}

/// The bits of a value that an entry of this kind can hold.
pub open spec fn entry_mask(kind: FatKind) -> u32 {
    match kind {
        FatKind::Fat12 => 0x0FFF,
        FatKind::Fat16 => 0xFFFF,
        FatKind::Fat32 => 0x0FFF_FFFF,
    }
}

fn table_offset(fat_len: usize, kind: FatKind, cluster: u32) -> (r: Option<usize>)
    ensures
        match r {
            Some(off) => off == entry_offset(kind, cluster) && entry_in_table_len(fat_len as int, kind, cluster),
            None => !entry_in_table_len(fat_len as int, kind, cluster),
        },
{
    let off: u64 = match kind {
        FatKind::Fat12 => (cluster as u64 * 3) / 2,
        FatKind::Fat16 => cluster as u64 * 2,
        FatKind::Fat32 => cluster as u64 * 4,
    };
    let span: u64 = match kind {
        FatKind::Fat32 => 4,
        _ => 2,
    };
    if off + span > fat_len as u64 {
        None
    } else {
        Some(off as usize)
    }
}

pub open spec fn entry_in_table_len(len: int, kind: FatKind, cluster: u32) -> bool {
    entry_offset(kind, cluster) + entry_span(kind) <= len
}

/// Reads the table entry of `cluster`.
pub fn fat_entry(fat: &[u8], fat_kind: FatKind, cluster: u32) -> (r: u32)
    ensures
        r == spec_fat_entry(fat@, fat_kind, cluster),
{
    let off = match table_offset(fat.len(), fat_kind, cluster) {
        Some(o) => o,
        None => return 0,
    };
    match fat_kind {
        FatKind::Fat12 => {
            let word = u16_from_le(fat[off], fat[off + 1]);
            if cluster % 2 == 0 {
                (word & 0x0FFF) as u32
            } else {
                (word >> 4u16) as u32
            }
        },
        FatKind::Fat16 => u16_from_le(fat[off], fat[off + 1]) as u32,
        FatKind::Fat32 => u32_from_le(fat[off], fat[off + 1], fat[off + 2], fat[off + 3])
            & 0x0FFF_FFFF,
    }
}

/// Little-endian bytes of a 32-bit value.
pub open spec fn le32_byte(x: u32, i: int) -> u8 {
    if i == 0 {
        (x % 256) as u8
    } else if i == 1 {
        ((x / 256) % 256) as u8
    } else if i == 2 {
        ((x / 65536) % 256) as u8
    } else {
        (x / 16777216) as u8
    }
}

/// The table after writing `value` into the entry of `cluster`; an entry
/// past the table's end leaves it unchanged. FAT12 keeps the other
/// cluster's nibble of the shared byte, FAT32 keeps the entry's top four
/// reserved bits.
pub open spec fn spec_set_fat_entry(fat: Seq<u8>, kind: FatKind, cluster: u32, value: u32) -> Seq<u8> {
    let off = entry_offset(kind, cluster);
    if !entry_in_table(fat, kind, cluster) {
        fat
    } else {
        match kind {
            FatKind::Fat12 => {
                let current = le16(fat[off], fat[off + 1]);
                let masked = (value & 0x0FFF) as u16;
                let updated: u16 = if cluster % 2 == 0 {
                    (current & 0xF000) | masked
                } else {
                    (current & 0x000F) | (masked << 4u16)
                };
                fat.update(off, (updated % 256) as u8).update(off + 1, (updated / 256) as u8)
            },
            FatKind::Fat16 => {
                let v = value as u16;
                fat.update(off, (v % 256) as u8).update(off + 1, (v / 256) as u8)
            },
            FatKind::Fat32 => {
                let current = le32(fat[off], fat[off + 1], fat[off + 2], fat[off + 3]);
                let updated = (current & 0xF000_0000) | (value & 0x0FFF_FFFF);
                fat.update(off, le32_byte(updated, 0)).update(off + 1, le32_byte(updated, 1)).update(
                    off + 2,
                    le32_byte(updated, 2),
                ).update(off + 3, le32_byte(updated, 3))
            },
        }
    }
}

/// Writes `value` into the table entry of `cluster`.
pub fn set_fat_entry(fat: &mut [u8], fat_kind: FatKind, cluster: u32, value: u32)
    ensures
        final(fat)@ == spec_set_fat_entry(old(fat)@, fat_kind, cluster, value),
{
    let off = match table_offset(fat.len(), fat_kind, cluster) {
        Some(o) => o,
        None => return ,
    };
    match fat_kind {
        FatKind::Fat12 => {
            let current = u16_from_le(fat[off], fat[off + 1]);
            let masked = (value & 0x0FFF) as u16;
            let updated: u16 = if cluster % 2 == 0 {
                (current & 0xF000) | masked
            } else {
                (current & 0x000F) | (masked << 4u16)
            };
            fat[off] = (updated % 256) as u8;
            fat[off + 1] = (updated / 256) as u8;
        },
        FatKind::Fat16 => {
            let v = value as u16;
            fat[off] = (v % 256) as u8;
            fat[off + 1] = (v / 256) as u8;
        },
        FatKind::Fat32 => {
            let current = u32_from_le(fat[off], fat[off + 1], fat[off + 2], fat[off + 3]);
            let updated = (current & 0xF000_0000) | (value & 0x0FFF_FFFF);
            fat[off] = (updated % 256) as u8;
            fat[off + 1] = ((updated / 256) % 256) as u8;
            fat[off + 2] = ((updated / 65536) % 256) as u8;
            fat[off + 3] = (updated / 16777216) as u8;
        },
    }
}

/// What an entry's value says of the cluster: free, the next cluster of a
/// chain (a cluster number up to `max_cluster`), end of chain, bad,
/// reserved, or a value that no entry of the kind may hold.
pub open spec fn spec_classify_cluster(kind: FatKind, value: u32, max_cluster: u32) -> ClusterState {
    match kind {
        FatKind::Fat12 => {
            let m = value & 0x0FFF;
            if m == 0 {
                ClusterState::Free
            } else if 0x002 <= m <= 0x0FEF && value <= max_cluster {
                ClusterState::Next(value)
            } else if m == 0x0FF7 {
                ClusterState::Bad
            } else if 0x0FF8 <= m <= 0x0FFF {
                ClusterState::Eof
            } else {
                ClusterState::Reserved
            }
        },
        FatKind::Fat16 => {
            if value == 0 {
                ClusterState::Free
            } else if 0x0002 <= value <= 0xFFEF && value <= max_cluster {
                ClusterState::Next(value)
            } else if value == 0xFFF7 {
                ClusterState::Bad
            } else if 0xFFF8 <= value <= 0xFFFF {
                ClusterState::Eof
            } else if (0xFFF0 <= value <= 0xFFF6) || value == 1 {
                ClusterState::Reserved
            } else {
                ClusterState::Invalid
            }
        },
        FatKind::Fat32 => {
            let m = value & 0x0FFF_FFFF;
            if m == 0 {
                ClusterState::Free
            } else if 0x0000_0002 <= m <= 0x0FFF_FFEF && value <= max_cluster {
                ClusterState::Next(value)
            } else if m == 0x0FFF_FFF7 {
                ClusterState::Bad
            } else if 0x0FFF_FFF8 <= m <= 0x0FFF_FFFF {
                ClusterState::Eof
            } else if (0x0FFF_FFF0 <= m <= 0x0FFF_FFF6) || m == 1 {
                ClusterState::Reserved
            } else {
                ClusterState::Invalid
            }
        },
    }
}

pub fn classify_cluster(fat_kind: FatKind, value: u32, max_cluster: u32) -> (r: ClusterState)
    ensures
        r == spec_classify_cluster(fat_kind, value, max_cluster),
{
    match fat_kind {
        FatKind::Fat12 => {
            let m = value & 0x0FFF;
            if m == 0 {
                ClusterState::Free
            } else if 0x002 <= m && m <= 0x0FEF && value <= max_cluster {
                ClusterState::Next(value)
            } else if m == 0x0FF7 {
                ClusterState::Bad
            } else if 0x0FF8 <= m && m <= 0x0FFF {
                ClusterState::Eof
            } else {
                ClusterState::Reserved
            }
        },
        FatKind::Fat16 => {
            if value == 0 {
                ClusterState::Free
            } else if 0x0002 <= value && value <= 0xFFEF && value <= max_cluster {
                ClusterState::Next(value)
            } else if value == 0xFFF7 {
                ClusterState::Bad
            } else if 0xFFF8 <= value && value <= 0xFFFF {
                ClusterState::Eof
            } else if (0xFFF0 <= value && value <= 0xFFF6) || value == 1 {
                ClusterState::Reserved
            } else {
                ClusterState::Invalid
            }
        },
        FatKind::Fat32 => {
            let m = value & 0x0FFF_FFFF;
            if m == 0 {
                ClusterState::Free
            } else if 0x0000_0002 <= m && m <= 0x0FFF_FFEF && value <= max_cluster {
                ClusterState::Next(value)
            } else if m == 0x0FFF_FFF7 {
                ClusterState::Bad
            } else if 0x0FFF_FFF8 <= m && m <= 0x0FFF_FFFF {
                ClusterState::Eof
            } else if (0x0FFF_FFF0 <= m && m <= 0x0FFF_FFF6) || m == 1 {
                ClusterState::Reserved
            } else {
                ClusterState::Invalid
            }
        },
    }
}

proof fn lemma_le16_word(x: u8, y: u8)
    ensures
        le16(x, y) == (x as u16) + (y as u16) * 256,
        (x as u16) + (y as u16) * 256 <= 0xFFFF,
{
}

/// Writing a FAT12 entry at an even cluster: the written word reads back
/// the value's 12 bits, and the high nibble of the second byte is kept.
proof fn lemma_fat12_even_write(b0: u8, b1: u8, m: u16)
    requires
        m <= 0x0FFF,
    ensures
        ({
            let cur: u16 = ((b0 as u16) + (b1 as u16) * 256) as u16;
            let upd: u16 = (cur & 0xF000) | m;
            let back: u16 = ((((upd % 256) as u8) as u16) + (((upd / 256) as u8) as u16) * 256) as u16;
            &&& back & 0x0FFF == m
            &&& ((upd / 256) as u8) >> 4u8 == b1 >> 4u8
        }),
{
    let cur: u16 = ((b0 as u16) + (b1 as u16) * 256) as u16;
    let upd: u16 = (cur & 0xF000) | m;
    assert(((((upd % 256) as u8) as u16) + (((upd / 256) as u8) as u16) * 256) as u16 == upd) by (bit_vector);
    assert(upd & 0x0FFF == m) by (bit_vector)
        requires
            upd == (cur & 0xF000) | m,
            m <= 0x0FFF,
    ;
    assert(((upd / 256) as u8) >> 4u8 == b1 >> 4u8) by (bit_vector)
        requires
            upd == (cur & 0xF000) | m,
            cur == ((b0 as u16) + (b1 as u16) * 256) as u16,
            m <= 0x0FFF,
    ;
}

/// Writing a FAT12 entry at an odd cluster: the written word reads back
/// the value's 12 bits, and the low nibble of the first byte is kept.
proof fn lemma_fat12_odd_write(b0: u8, b1: u8, m: u16)
    requires
        m <= 0x0FFF,
    ensures
        ({
            let cur: u16 = ((b0 as u16) + (b1 as u16) * 256) as u16;
            let upd: u16 = (cur & 0x000F) | (m << 4u16);
            let back: u16 = ((((upd % 256) as u8) as u16) + (((upd / 256) as u8) as u16) * 256) as u16;
            &&& back >> 4u16 == m
            &&& ((upd % 256) as u8) & 0x0F == b0 & 0x0F
        }),
{
    let cur: u16 = ((b0 as u16) + (b1 as u16) * 256) as u16;
    let upd: u16 = (cur & 0x000F) | (m << 4u16);
    assert(((((upd % 256) as u8) as u16) + (((upd / 256) as u8) as u16) * 256) as u16 == upd) by (bit_vector);
    assert(upd >> 4u16 == m) by (bit_vector)
        requires
            upd == (cur & 0x000F) | (m << 4u16),
            m <= 0x0FFF,
    ;
    assert(((upd % 256) as u8) & 0x0F == b0 & 0x0F) by (bit_vector)
        requires
            upd == (cur & 0x000F) | (m << 4u16),
            cur == ((b0 as u16) + (b1 as u16) * 256) as u16,
    ;
}

/// An odd FAT12 entry depends on its first byte only through the high nibble.
proof fn lemma_fat12_odd_read(x: u8, x2: u8, y: u8)
    requires
        x >> 4u8 == x2 >> 4u8,
    ensures
        (((x as u16) + (y as u16) * 256) as u16) >> 4u16 == (((x2 as u16) + (y as u16) * 256) as u16)
            >> 4u16,
{
    assert((((x as u16) + (y as u16) * 256) as u16) >> 4u16 == (((x2 as u16) + (y as u16) * 256) as u16)
        >> 4u16) by (bit_vector)
        requires
            x >> 4u8 == x2 >> 4u8,
    ;
}

/// An even FAT12 entry depends on its second byte only through the low nibble.
proof fn lemma_fat12_even_read(x: u8, y: u8, y2: u8)
    requires
        y & 0x0F == y2 & 0x0F,
    ensures
        (((x as u16) + (y as u16) * 256) as u16) & 0x0FFF == (((x as u16) + (y2 as u16) * 256) as u16)
            & 0x0FFF,
{
    assert((((x as u16) + (y as u16) * 256) as u16) & 0x0FFF == (((x as u16) + (y2 as u16) * 256) as u16)
        & 0x0FFF) by (bit_vector)
        requires
            y & 0x0F == y2 & 0x0F,
    ;
}

proof fn lemma_le32_bytes(x: u32)
    ensures
        le32(le32_byte(x, 0), le32_byte(x, 1), le32_byte(x, 2), le32_byte(x, 3)) == x,
{
}

/// Writing an entry and reading it back gives the value, cut to the bits
/// that an entry of the kind holds, for an entry inside the table.
pub proof fn lemma_fat_entry_write_read(fat: Seq<u8>, kind: FatKind, cluster: u32, value: u32)
    requires
        entry_in_table(fat, kind, cluster),
    ensures
        spec_fat_entry(spec_set_fat_entry(fat, kind, cluster, value), kind, cluster) == value
            & entry_mask(kind),
{
    let off = entry_offset(kind, cluster);
    let nf = spec_set_fat_entry(fat, kind, cluster, value);
    match kind {
        FatKind::Fat12 => {
            let m = (value & 0x0FFF) as u16;
            assert(m <= 0x0FFF && m as u32 == value & 0x0FFF) by (bit_vector)
                requires
                    m == (value & 0x0FFF) as u16,
            ;
            lemma_le16_word(fat[off], fat[off + 1]);
            lemma_le16_word(nf[off], nf[off + 1]);
            if cluster % 2 == 0 {
                lemma_fat12_even_write(fat[off], fat[off + 1], m);
            } else {
                lemma_fat12_odd_write(fat[off], fat[off + 1], m);
            }
        },
        FatKind::Fat16 => {
            let v = value as u16;
            assert(v as u32 == value & 0xFFFF) by (bit_vector)
                requires
                    v == value as u16,
            ;
        },
        FatKind::Fat32 => {
            let current = le32(fat[off], fat[off + 1], fat[off + 2], fat[off + 3]);
            let updated = (current & 0xF000_0000) | (value & 0x0FFF_FFFF);
            lemma_le32_bytes(updated);
            assert(updated & 0x0FFF_FFFF == value & 0x0FFF_FFFF) by (bit_vector)
                requires
                    updated == (current & 0xF000_0000) | (value & 0x0FFF_FFFF),
            ;
        },
    }
}

/// Writing one entry leaves every other entry of the table as it was,
/// FAT12 entries that share a byte with it included.
pub proof fn lemma_fat_entry_write_frame(
    fat: Seq<u8>,
    kind: FatKind,
    cluster: u32,
    value: u32,
    other: u32,
)
    requires
        other != cluster,
    ensures
        spec_fat_entry(spec_set_fat_entry(fat, kind, cluster, value), kind, other) == spec_fat_entry(
            fat,
            kind,
            other,
        ),
{
    let nf = spec_set_fat_entry(fat, kind, cluster, value);
    if !entry_in_table(fat, kind, cluster) {
        return ;
    }
    let off = entry_offset(kind, cluster);
    let od = entry_offset(kind, other);
    assert(nf.len() == fat.len());
    if !entry_in_table(fat, kind, other) {
        return ;
    }
    match kind {
        FatKind::Fat12 => {
            let m = (value & 0x0FFF) as u16;
            assert(m <= 0x0FFF) by (bit_vector)
                requires
                    m == (value & 0x0FFF) as u16,
            ;
            lemma_le16_word(fat[od], fat[od + 1]);
            lemma_le16_word(nf[od], nf[od + 1]);
            if cluster % 2 == 0 && other == cluster + 1 {
                assert(od == off + 1);
                lemma_fat12_even_write(fat[off], fat[off + 1], m);
                lemma_fat12_odd_read(nf[od], fat[od], fat[od + 1]);
                assert(nf[od + 1] == fat[od + 1]);
            } else if cluster % 2 == 1 && other + 1 == cluster {
                assert(od + 1 == off);
                lemma_fat12_odd_write(fat[off], fat[off + 1], m);
                lemma_fat12_even_read(fat[od], nf[od + 1], fat[od + 1]);
                assert(nf[od] == fat[od]);
            } else {
                assert(od + 1 < off || off + 1 < od);
                assert(nf[od] == fat[od]);
                assert(nf[od + 1] == fat[od + 1]);
            }
        },
        FatKind::Fat16 => {
            assert(od + 1 < off || off + 1 < od);
            assert(nf[od] == fat[od]);
            assert(nf[od + 1] == fat[od + 1]);
        },
        FatKind::Fat32 => {
            assert(od + 3 < off || off + 3 < od);
            assert(nf[od] == fat[od]);
            assert(nf[od + 1] == fat[od + 1]);
            assert(nf[od + 2] == fat[od + 2]);
            assert(nf[od + 3] == fat[od + 3]);
        },
    }
}

} // verus!
