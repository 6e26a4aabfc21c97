//! What a FAT check reports from a scan, and the repairs it makes: the
//! dirty flags, lost clusters, and the FSInfo counts.

use vstd::prelude::*;
use vstd::string::StringExecFns;
use crate::bytes::le32;
use crate::fat::{
    FatKind,
    entry_in_table,
    entry_mask,
    fat_entry,
    lemma_fat_entry_write_frame,
    lemma_fat_entry_write_read,
    set_fat_entry,
    spec_fat_entry,
    spec_set_fat_entry,
};
use crate::fat_report::{CheckResult, RepairStats};
use crate::fat_scan::{ScanState, clean_bits, spec_dirty_flag_set, spec_fsinfo};
use crate::fat_volume::VolumeInfo;
use crate::text::{decimal, numbered, push_decimal};

verus! {

// ---- Checks ----

pub open spec fn dirty_errors(scan: &ScanState) -> Seq<Seq<char>> {
    if scan.dirty_flag_set {
        seq!["filesystem has unclean shutdown flags set"@]
    } else {
        Seq::empty()
    }
}

/// Reports unclean shutdown flags as an error.
pub fn check_dirty_flags(result: &mut CheckResult, scan: &ScanState)
    ensures
        final(result).error_texts() == old(result).error_texts() + dirty_errors(scan),
        final(result).warnings@ == old(result).warnings@,
        final(result).info@ == old(result).info@,
{
    let ghost e0 = result.error_texts();
    if scan.dirty_flag_set {
        result.error(String::from_str("filesystem has unclean shutdown flags set"));
    }
    proof {
        assert(result.error_texts() =~= e0 + dirty_errors(scan));
    }
}

/// The FSInfo check's error, if any: on FAT32 a missing sector, bad
/// signatures, or a recorded free count (other than the unknown value
/// 0xFFFFFFFF) unlike the counted one.
pub open spec fn fsinfo_errors(info: VolumeInfo, scan: &ScanState) -> Seq<Seq<char>> {
    if info.fat_kind != FatKind::Fat32 {
        Seq::empty()
    } else {
        match scan.fsinfo {
            None => seq!["FAT32 FSInfo sector is missing"@],
            Some(f) => if !f.signatures_ok {
                seq![
                    "invalid FAT32 FSInfo signatures at sector "@ + decimal(f.sector as nat),
                ]
            } else if f.recorded_free_clusters != 0xFFFF_FFFF && f.recorded_free_clusters
                != scan.actual_free_clusters {
                seq![
                    "FSInfo free cluster count mismatch: recorded "@ + decimal(
                        f.recorded_free_clusters as nat,
                    ) + ", actual "@ + decimal(scan.actual_free_clusters as nat),
                ]
            } else {
                Seq::empty()
            },
        }
    }
}

/// The FSInfo check's note that the free count is unknown, if it is.
pub open spec fn fsinfo_infos(info: VolumeInfo, scan: &ScanState) -> Seq<Seq<char>> {
    match scan.fsinfo {
        Some(f) => if info.fat_kind == FatKind::Fat32 && f.signatures_ok && f.recorded_free_clusters
            == 0xFFFF_FFFF {
            seq!["FSInfo free cluster count is unknown (newly formatted)"@]
        } else {
            Seq::empty()
        },
        None => Seq::empty(),
    }
}

/// Checks the FAT32 FSInfo sector against the scan.
pub fn check_fsinfo(result: &mut CheckResult, info: VolumeInfo, scan: &ScanState)
    ensures
        final(result).error_texts() == old(result).error_texts() + fsinfo_errors(info, scan),
        final(result).info_texts() == old(result).info_texts() + fsinfo_infos(info, scan),
        final(result).warnings@ == old(result).warnings@,
{
    let ghost e0 = result.error_texts();
    let ghost i0 = result.info_texts();
    proof {
        reveal_strlit("");
    }
    if info.fat_kind != FatKind::Fat32 {
        proof {
            assert(result.error_texts() =~= e0 + fsinfo_errors(info, scan));
            assert(result.info_texts() =~= i0 + fsinfo_infos(info, scan));
        }
        return ;
    }
    match scan.fsinfo {
        None => {
            result.error(String::from_str("FAT32 FSInfo sector is missing"));
        },
        Some(fsinfo) => {
            if !fsinfo.signatures_ok {
                result.error(
                    numbered("invalid FAT32 FSInfo signatures at sector ", fsinfo.sector as u64, ""),
                );
            } else if fsinfo.recorded_free_clusters == 0xFFFF_FFFF {
                result.info(String::from_str("FSInfo free cluster count is unknown (newly formatted)"));
            } else if fsinfo.recorded_free_clusters != scan.actual_free_clusters {
                let mut msg = numbered(
                    "FSInfo free cluster count mismatch: recorded ",
                    fsinfo.recorded_free_clusters as u64,
                    ", actual ",
                );
                push_decimal(&mut msg, scan.actual_free_clusters as u64);
                result.error(msg);
            }
        },
    }
    proof {
        assert(result.error_texts() =~= e0 + fsinfo_errors(info, scan));
        assert(result.info_texts() =~= i0 + fsinfo_infos(info, scan));
    }
}

pub open spec fn lost_errors(scan: &ScanState) -> Seq<Seq<char>> {
    if scan.lost_clusters@.len() > 0 {
        seq!["lost clusters found: "@ + decimal(scan.lost_clusters@.len())]
    } else {
        Seq::empty()
    }
}

/// Reports lost clusters as an error.
pub fn check_lost_clusters(result: &mut CheckResult, scan: &ScanState)
    ensures
        final(result).error_texts() == old(result).error_texts() + lost_errors(scan),
        final(result).warnings@ == old(result).warnings@,
        final(result).info@ == old(result).info@,
{
    let ghost e0 = result.error_texts();
    proof {
        reveal_strlit("");
    }
    if scan.lost_clusters.len() > 0 {
        result.error(numbered("lost clusters found: ", scan.lost_clusters.len() as u64, ""));
    }
    proof {
        assert(result.error_texts() =~= e0 + lost_errors(scan));
    }
}

pub open spec fn orphan_errors(scan: &ScanState) -> Seq<Seq<char>> {
    if scan.orphaned_lfn_offsets@.len() > 0 {
        seq!["orphaned LFN entries found: "@ + decimal(scan.orphaned_lfn_offsets@.len())]
    } else {
        Seq::empty()
    }
}

/// Reports orphaned long-name entries as an error.
pub fn check_orphaned_lfns(result: &mut CheckResult, scan: &ScanState)
    ensures
        final(result).error_texts() == old(result).error_texts() + orphan_errors(scan),
        final(result).warnings@ == old(result).warnings@,
        final(result).info@ == old(result).info@,
{
    let ghost e0 = result.error_texts();
    proof {
        reveal_strlit("");
    }
    if scan.orphaned_lfn_offsets.len() > 0 {
        result.error(
            numbered("orphaned LFN entries found: ", scan.orphaned_lfn_offsets.len() as u64, ""),
        );
    }
    proof {
        assert(result.error_texts() =~= e0 + orphan_errors(scan));
    }
}

// ---- What a repair run reports before repairing ----

/// The notes a repair run makes of what the scan found.
pub open spec fn finding_infos(info: VolumeInfo, scan: &ScanState) -> Seq<Seq<char>> {
    let dirty: Seq<Seq<char>> = if scan.dirty_flag_set {
        seq!["found unclean shutdown flags"@]
    } else {
        Seq::empty()
    };
    let fsinfo: Seq<Seq<char>> = match scan.fsinfo {
        Some(f) => if info.fat_kind == FatKind::Fat32 && f.signatures_ok && f.recorded_free_clusters
            != scan.actual_free_clusters {
            seq![
                "found FSInfo free cluster count mismatch: recorded "@ + decimal(
                    f.recorded_free_clusters as nat,
                ) + ", actual "@ + decimal(scan.actual_free_clusters as nat),
            ]
        } else {
            Seq::empty()
        },
        None => Seq::empty(),
    };
    let lost: Seq<Seq<char>> = if scan.lost_clusters@.len() > 0 {
        seq!["found "@ + decimal(scan.lost_clusters@.len()) + " lost cluster(s)"@]
    } else {
        Seq::empty()
    };
    let orphans: Seq<Seq<char>> = if scan.orphaned_lfn_offsets@.len() > 0 {
        seq!["found "@ + decimal(scan.orphaned_lfn_offsets@.len()) + " orphaned LFN entr(ies)"@]
    } else {
        Seq::empty()
    };
    dirty + fsinfo + lost + orphans
}

/// The warning a repair run gives for an FSInfo sector it cannot repair.
pub open spec fn finding_warnings(info: VolumeInfo, scan: &ScanState) -> Seq<Seq<char>> {
    match scan.fsinfo {
        Some(f) => if info.fat_kind == FatKind::Fat32 && !f.signatures_ok {
            seq![
                "cannot repair FSInfo sector "@ + decimal(f.sector as nat)
                    + ": invalid signatures"@,
            ]
        } else {
            Seq::empty()
        },
        None => Seq::empty(),
    }
}

/// Notes what a repair run will act on.
pub fn report_repair_findings(result: &mut CheckResult, info: VolumeInfo, scan: &ScanState)
    ensures
        final(result).info_texts() == old(result).info_texts() + finding_infos(info, scan),
        final(result).warning_texts() == old(result).warning_texts() + finding_warnings(
            info,
            scan,
        ),
        final(result).errors@ == old(result).errors@,
{
    let ghost i0 = result.info_texts();
    let ghost w0 = result.warning_texts();
    if scan.dirty_flag_set {
        result.info(String::from_str("found unclean shutdown flags"));
    }
    let ghost i1 = result.info_texts();
    if info.fat_kind == FatKind::Fat32 {
        if let Some(fsinfo) = scan.fsinfo {
            if !fsinfo.signatures_ok {
                let msg = numbered(
                    "cannot repair FSInfo sector ",
                    fsinfo.sector as u64,
                    ": invalid signatures",
                );
                result.warn(msg);
            } else if fsinfo.recorded_free_clusters != scan.actual_free_clusters {
                let mut msg = numbered(
                    "found FSInfo free cluster count mismatch: recorded ",
                    fsinfo.recorded_free_clusters as u64,
                    ", actual ",
                );
                push_decimal(&mut msg, scan.actual_free_clusters as u64);
                result.info(msg);
            }
        }
    }
    let ghost i2 = result.info_texts();
    if scan.lost_clusters.len() > 0 {
        result.info(numbered("found ", scan.lost_clusters.len() as u64, " lost cluster(s)"));
    }
    let ghost i3 = result.info_texts();
    if scan.orphaned_lfn_offsets.len() > 0 {
        result.info(
            numbered("found ", scan.orphaned_lfn_offsets.len() as u64, " orphaned LFN entr(ies)"),
        );
    }
    proof {
        assert(result.warning_texts() =~= w0 + finding_warnings(info, scan));
        assert(result.info_texts() =~= i0 + finding_infos(info, scan));
    }
}

// ---- Repairs ----

/// The value of entry 1 with both flags set: clean shutdown, no error.
pub open spec fn flags_cleared(kind: FatKind, fat: Seq<u8>) -> u32 {
    let (clean, no_error) = clean_bits(kind);
    spec_fat_entry(fat, kind, 1) | clean | no_error
}

/// Sets both flags of entry 1 where the scan found either clear.
pub fn repair_dirty_flags(
    stats: &mut RepairStats,
    info: VolumeInfo,
    fat: &mut [u8],
    scan: &ScanState,
) -> (r: bool)
    ensures
        r == scan.dirty_flag_set,
        final(fat)@ == if scan.dirty_flag_set {
            spec_set_fat_entry(old(fat)@, info.fat_kind, 1, flags_cleared(info.fat_kind, old(fat)@))
        } else {
            old(fat)@
        },
        final(stats).dirty_flag_cleared == (old(stats).dirty_flag_cleared || scan.dirty_flag_set),
        final(stats).fsinfo_corrected == old(stats).fsinfo_corrected,
        final(stats).lost_clusters_reclaimed == old(stats).lost_clusters_reclaimed,
        final(stats).orphaned_lfn_entries_removed == old(stats).orphaned_lfn_entries_removed,
{
    if !scan.dirty_flag_set {
        return false;
    }
    let entry = fat_entry(fat, info.fat_kind, 1);
    let bits: u32 = match info.fat_kind {
        FatKind::Fat12 => 0x0C00,
        FatKind::Fat16 => 0xC000,
        FatKind::Fat32 => 0x0C00_0000,
    };
    proof {
        let (c, n) = clean_bits(info.fat_kind);
        assert(entry | bits == entry | c | n) by (bit_vector)
            requires
                (bits == 0x0C00u32 && c == 0x0800u32 && n == 0x0400u32) || (bits == 0xC000u32 && c
                    == 0x8000u32 && n == 0x4000u32) || (bits == 0x0C00_0000u32 && c
                    == 0x0800_0000u32 && n == 0x0400_0000u32),
        ;
    }
    set_fat_entry(fat, info.fat_kind, 1, entry | bits);
    stats.dirty_flag_cleared = true;
    true
}

/// Repairing the dirty flags of a table whose entry 1 lies inside it
/// leaves the volume clean.
pub proof fn lemma_repair_clears_dirty(kind: FatKind, fat: Seq<u8>)
    requires
        entry_in_table(fat, kind, 1),
    ensures
        !spec_dirty_flag_set(kind, spec_set_fat_entry(fat, kind, 1, flags_cleared(kind, fat))),
{
    let v = flags_cleared(kind, fat);
    lemma_fat_entry_write_read(fat, kind, 1, v);
    let e = spec_fat_entry(fat, kind, 1);
    let (c, n) = clean_bits(kind);
    let m = entry_mask(kind);
    assert(((e | c | n) & m) & c != 0 && ((e | c | n) & m) & n != 0) by (bit_vector)
        requires
            (m == 0x0FFFu32 && c == 0x0800u32 && n == 0x0400u32) || (m == 0xFFFFu32 && c
                == 0x8000u32 && n == 0x4000u32) || (m == 0x0FFF_FFFFu32 && c == 0x0800_0000u32 && n
                == 0x0400_0000u32),
    ;
}

/// The table after freeing each of `clusters` in turn.
pub open spec fn free_clusters(kind: FatKind, fat: Seq<u8>, clusters: Seq<u32>) -> Seq<u8>
    decreases clusters.len(),
{
    if clusters.len() == 0 {
        fat
    } else {
        spec_set_fat_entry(
            free_clusters(kind, fat, clusters.drop_last()),
            kind,
            clusters.last(),
            0,
        )
    }
}

/// Frees the lost clusters the scan found.
pub fn repair_lost_clusters(
    stats: &mut RepairStats,
    info: VolumeInfo,
    fat: &mut [u8],
    scan: &ScanState,
) -> (r: bool)
    ensures
        r == (scan.lost_clusters@.len() > 0),
        final(fat)@ == free_clusters(info.fat_kind, old(fat)@, scan.lost_clusters@),
        final(stats).lost_clusters_reclaimed == if scan.lost_clusters@.len() > 0 {
            scan.lost_clusters@.len() as usize
        } else {
            old(stats).lost_clusters_reclaimed
        },
        final(stats).dirty_flag_cleared == old(stats).dirty_flag_cleared,
        final(stats).fsinfo_corrected == old(stats).fsinfo_corrected,
        final(stats).orphaned_lfn_entries_removed == old(stats).orphaned_lfn_entries_removed,
{
    if scan.lost_clusters.len() == 0 {
        proof {
            assert(free_clusters(info.fat_kind, fat@, scan.lost_clusters@) == fat@);
        }
        return false;
    }
    let ghost fat0 = fat@;
    let mut i: usize = 0;
    while i < scan.lost_clusters.len()
        invariant
            i <= scan.lost_clusters@.len(),
            fat@ == free_clusters(info.fat_kind, fat0, scan.lost_clusters@.subrange(0, i as int)),
        decreases scan.lost_clusters@.len() - i,
    {
        proof {
            assert(scan.lost_clusters@.subrange(0, i + 1).drop_last() =~= scan.lost_clusters@.subrange(
                0,
                i as int,
            ));
        }
        set_fat_entry(fat, info.fat_kind, scan.lost_clusters[i], 0);
        i = i + 1;
    }
    proof {
        assert(scan.lost_clusters@.subrange(0, scan.lost_clusters@.len() as int)
            =~= scan.lost_clusters@);
    }
    stats.lost_clusters_reclaimed = scan.lost_clusters.len();
    true
}

proof fn lemma_free_clusters_len(kind: FatKind, fat: Seq<u8>, clusters: Seq<u32>)
    ensures
        free_clusters(kind, fat, clusters).len() == fat.len(),
    decreases clusters.len(),
{
    if clusters.len() > 0 {
        lemma_free_clusters_len(kind, fat, clusters.drop_last());
    }
}

/// Freeing a list of clusters leaves the entry of every cluster not in the
/// list as it was.
pub proof fn lemma_free_clusters_frame(kind: FatKind, fat: Seq<u8>, clusters: Seq<u32>, c: u32)
    requires
        !clusters.contains(c),
    ensures
        spec_fat_entry(free_clusters(kind, fat, clusters), kind, c) == spec_fat_entry(fat, kind, c),
    decreases clusters.len(),
{
    if clusters.len() > 0 {
        let rest = clusters.drop_last();
        assert(!rest.contains(c)) by {
            if rest.contains(c) {
                let k = choose|k: int| 0 <= k < rest.len() && rest[k] == c;
                assert(clusters[k] == c);
            }
        }
        lemma_free_clusters_frame(kind, fat, rest, c);
        lemma_fat_entry_write_frame(
            free_clusters(kind, fat, rest),
            kind,
            clusters.last(),
            0,
            c,
        );
    }
}

/// After freeing a list of clusters, each of them inside the table reads
/// as free.
pub proof fn lemma_free_clusters_frees(kind: FatKind, fat: Seq<u8>, clusters: Seq<u32>, c: u32)
    requires
        clusters.contains(c),
        entry_in_table(fat, kind, c),
    ensures
        spec_fat_entry(free_clusters(kind, fat, clusters), kind, c) == 0,
    decreases clusters.len(),
{
    let rest = clusters.drop_last();
    let before = free_clusters(kind, fat, rest);
    lemma_free_clusters_len(kind, fat, rest);
    if clusters.last() == c {
        lemma_fat_entry_write_read(before, kind, c, 0);
        assert(0u32 & entry_mask(kind) == 0) by (bit_vector);
    } else {
        assert(rest.contains(c)) by {
            let k = choose|k: int| 0 <= k < clusters.len() && clusters[k] == c;
            assert(k < clusters.len() - 1);
            assert(rest[k] == c);
        }
        lemma_free_clusters_frees(kind, fat, rest, c);
        lemma_fat_entry_write_frame(before, kind, clusters.last(), 0, c);
    }
}

/// The FSInfo values a repair writes.
#[derive(Clone, Copy)]
pub struct FsInfoUpdate {
    pub sector: u32,
    pub free_clusters: u32,
    pub next_free: u32,
}

/// The FSInfo values a repair writes, where it writes any: on FAT32, an
/// FSInfo sector with valid signatures whose counts differ from the scan's
/// (the next free cluster 0xFFFFFFFF where none is free).
pub open spec fn spec_fsinfo_update(info: VolumeInfo, scan: &ScanState) -> Option<FsInfoUpdate> {
    let next = match scan.first_free_cluster {
        Some(c) => c,
        None => 0xFFFF_FFFFu32,
    };
    match scan.fsinfo {
        Some(f) => if info.fat_kind == FatKind::Fat32 && f.signatures_ok && !(
        f.recorded_free_clusters == scan.actual_free_clusters && f.recorded_next_free == next) {
            Some(
                FsInfoUpdate {
                    sector: f.sector,
                    free_clusters: scan.actual_free_clusters,
                    next_free: next,
                },
            )
        } else {
            None
        },
        None => None,
    }
}

pub fn plan_fsinfo_repair(info: VolumeInfo, scan: &ScanState) -> (r: Option<FsInfoUpdate>)
    ensures
        r == spec_fsinfo_update(info, scan),
{
    if info.fat_kind != FatKind::Fat32 {
        return None;
    }
    let fsinfo_state = match scan.fsinfo {
        Some(f) => f,
        None => return None,
    };
    if !fsinfo_state.signatures_ok {
        return None;
    }
    let desired_free = scan.actual_free_clusters;
    let desired_next = match scan.first_free_cluster {
        Some(c) => c,
        None => 0xFFFF_FFFF,
    };
    if fsinfo_state.recorded_free_clusters == desired_free && fsinfo_state.recorded_next_free
        == desired_next {
        return None;
    }
    Some(
        FsInfoUpdate {
            sector: fsinfo_state.sector,
            free_clusters: desired_free,
            next_free: desired_next,
        },
    )
}

/// The FSInfo sector with the two counts written in, where it is long
/// enough to hold them.
pub open spec fn spec_patch_fsinfo(data: Seq<u8>, free: u32, next: u32) -> Seq<u8> {
    if data.len() < 496 {
        data
    } else {
        data.subrange(0, 488) + le32_bytes(free) + le32_bytes(next) + data.subrange(
            496,
            data.len() as int,
        )
    }
}

/// The four little-endian bytes of a 32-bit value.
pub open spec fn le32_bytes(x: u32) -> Seq<u8> {
    seq![(x % 256) as u8, ((x / 256) % 256) as u8, ((x / 65536) % 256) as u8, (x / 16777216) as u8]
}

/// Writes the free count and next free cluster into an FSInfo sector;
/// false, with nothing written, for a sector too short to hold them.
pub fn patch_fsinfo(data: &mut Vec<u8>, free_clusters: u32, next_free: u32) -> (r: bool)
    ensures
        r == (old(data)@.len() >= 496),
        final(data)@ == spec_patch_fsinfo(old(data)@, free_clusters, next_free),
{
    if data.len() < 496 {
        return false;
    }
    data.set(488, (free_clusters % 256) as u8);
    data.set(489, ((free_clusters / 256) % 256) as u8);
    data.set(490, ((free_clusters / 65536) % 256) as u8);
    data.set(491, (free_clusters / 16777216) as u8);
    data.set(492, (next_free % 256) as u8);
    data.set(493, ((next_free / 256) % 256) as u8);
    data.set(494, ((next_free / 65536) % 256) as u8);
    data.set(495, (next_free / 16777216) as u8);
    proof {
        assert(data@ =~= spec_patch_fsinfo(old(data)@, free_clusters, next_free));
    }
    true
}

/// Reading the FSInfo state back from a sector the counts were written
/// into gives those counts, and keeps the signatures as they were.
pub proof fn lemma_patch_fsinfo_read_back(sector: u32, data: Seq<u8>, free: u32, next: u32)
    requires
        data.len() >= 496,
    ensures
        spec_fsinfo(sector, spec_patch_fsinfo(data, free, next)).recorded_free_clusters == free,
        spec_fsinfo(sector, spec_patch_fsinfo(data, free, next)).recorded_next_free == next,
        spec_fsinfo(sector, spec_patch_fsinfo(data, free, next)).signatures_ok == spec_fsinfo(
            sector,
            data,
        ).signatures_ok,
{
    let p = spec_patch_fsinfo(data, free, next);
    assert(p[488] == le32_bytes(free)[0]);
    assert(p[492] == le32_bytes(next)[0]);
    assert(le32(le32_bytes(free)[0], le32_bytes(free)[1], le32_bytes(free)[2], le32_bytes(free)[3])
        == free);
    assert(le32(le32_bytes(next)[0], le32_bytes(next)[1], le32_bytes(next)[2], le32_bytes(next)[3])
        == next);
}

} // verus!
