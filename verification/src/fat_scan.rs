//! Walking a FAT volume's metadata: the FSInfo sector, the dirty flags,
//! cluster chains, and the clusters that directory entries reach.

use vstd::prelude::*;
use std::collections::HashSet;
use vstd::set_lib::{lemma_int_range, lemma_len_subset, set_int_range};
use crate::bytes::{le16, le32, u16_from_le, u32_from_le};
use crate::fat::{
    ClusterState,
    FatKind,
    classify_cluster,
    fat_entry,
    spec_classify_cluster,
    spec_fat_entry,
};
use crate::fat_volume::VolumeInfo;

verus! {

broadcast use vstd::std_specs::hash::group_hash_axioms;

// ---- FSInfo ----

/// What a FAT32 FSInfo sector records.
#[derive(Clone, Copy)]
pub struct FsInfoState {
    pub sector: u32,
    pub signatures_ok: bool,
    pub recorded_free_clusters: u32,
    pub recorded_next_free: u32,
}

/// The FSInfo sector's two signatures, "RRaA" at its start and "rrAa" at
/// byte 484.
pub open spec fn fsinfo_signatures_ok(data: Seq<u8>) -> bool {
    &&& data[0] == 0x52 && data[1] == 0x52 && data[2] == 0x61 && data[3] == 0x41
    &&& data[484] == 0x72 && data[485] == 0x72 && data[486] == 0x41 && data[487] == 0x61
}

/// The state of the FSInfo sector at `sector` whose bytes are `data`; a
/// sector too short to hold the counts has no valid signatures.
pub open spec fn spec_fsinfo(sector: u32, data: Seq<u8>) -> FsInfoState {
    if data.len() < 496 {
        FsInfoState {
            sector,
            signatures_ok: false,
            recorded_free_clusters: 0,
            recorded_next_free: 0,
        }
    } else {
        FsInfoState {
            sector,
            signatures_ok: fsinfo_signatures_ok(data),
            recorded_free_clusters: le32(data[488], data[489], data[490], data[491]),
            recorded_next_free: le32(data[492], data[493], data[494], data[495]),
        }
    }
}

/// Reads the FSInfo state from the sector's bytes.
pub fn parse_fsinfo(sector: u32, data: &[u8]) -> (r: FsInfoState)
    ensures
        r == spec_fsinfo(sector, data@),
{
    if data.len() < 496 {
        return FsInfoState {
            sector,
            signatures_ok: false,
            recorded_free_clusters: 0,
            recorded_next_free: 0,
        };
    }
    let sig1 = data[0] == 0x52 && data[1] == 0x52 && data[2] == 0x61 && data[3] == 0x41;
    let sig2 = data[484] == 0x72 && data[485] == 0x72 && data[486] == 0x41 && data[487] == 0x61;
    FsInfoState {
        sector,
        signatures_ok: sig1 && sig2,
        recorded_free_clusters: u32_from_le(data[488], data[489], data[490], data[491]),
        recorded_next_free: u32_from_le(data[492], data[493], data[494], data[495]),
    }
}

// ---- The dirty flags ----

/// The two flags of a table's entry 1: the clean-shutdown bit and the
/// no-error bit, the top two bits the entry holds.
pub open spec fn clean_bits(kind: FatKind) -> (u32, u32) {
    match kind {
        FatKind::Fat12 => (0x0800, 0x0400),
        FatKind::Fat16 => (0x8000, 0x4000),
        FatKind::Fat32 => (0x0800_0000, 0x0400_0000),
    }
}

/// A volume is dirty when either flag of entry 1 is clear.
pub open spec fn spec_dirty_flag_set(kind: FatKind, fat: Seq<u8>) -> bool {
    let entry = spec_fat_entry(fat, kind, 1);
    let (clean, no_error) = clean_bits(kind);
    entry & clean == 0 || entry & no_error == 0
}

pub fn dirty_flag_set(info: VolumeInfo, fat: &[u8]) -> (r: bool)
    ensures
        r == spec_dirty_flag_set(info.fat_kind, fat@),
{
    let entry = fat_entry(fat, info.fat_kind, 1);
    match info.fat_kind {
        FatKind::Fat12 => entry & 0x0800 == 0 || entry & 0x0400 == 0,
        FatKind::Fat16 => entry & 0x8000 == 0 || entry & 0x4000 == 0,
        FatKind::Fat32 => entry & 0x0800_0000 == 0 || entry & 0x0400_0000 == 0,
    }
}

// ---- Cluster chains ----

/// What the table says follows cluster `c`.
pub open spec fn cluster_link(info: VolumeInfo, fat: Seq<u8>, c: u32) -> ClusterState {
    spec_classify_cluster(
        info.fat_kind,
        spec_fat_entry(fat, info.fat_kind, c),
        (info.total_clusters + 1) as u32,
    )
}

/// Each cluster of `p` but the last is followed by the next one.
pub open spec fn chain_links(info: VolumeInfo, fat: Seq<u8>, p: Seq<u32>) -> bool {
    forall|i: int|
        0 <= i < p.len() - 1 ==> #[trigger] cluster_link(info, fat, p[i]) == ClusterState::Next(
            p[i + 1],
        )
}

/// Every cluster of `p` is a cluster of the data area.
pub open spec fn all_valid(info: VolumeInfo, p: Seq<u32>) -> bool {
    forall|i: int| 0 <= i < p.len() ==> info.spec_is_valid_cluster(#[trigger] p[i])
}

/// `p` is the chain from `start` as far as it goes: it begins at `start`
/// (empty if `start` is not a data cluster), holds no cluster twice, and
/// ends where the table gives no next cluster, an invalid one, or one the
/// chain already holds.
pub open spec fn is_chain_walk(info: VolumeInfo, fat: Seq<u8>, start: u32, p: Seq<u32>) -> bool {
    if !info.spec_is_valid_cluster(start) {
        p.len() == 0
    } else {
        &&& p.len() >= 1
        &&& p[0] == start
        &&& p.no_duplicates()
        &&& all_valid(info, p)
        &&& chain_links(info, fat, p)
        &&& match cluster_link(info, fat, p.last()) {
            ClusterState::Next(n) => !info.spec_is_valid_cluster(n) || p.contains(n),
            _ => true,
        }
    }
}

/// A sequence without repeats of values from `lo` to `hi - 1` is at most
/// `hi - lo` long.
proof fn lemma_distinct_in_range(s: Seq<u32>, lo: int, hi: int)
    requires
        s.no_duplicates(),
        lo <= hi,
        forall|i: int| 0 <= i < s.len() ==> lo <= #[trigger] s[i] < hi,
    ensures
        s.len() <= hi - lo,
{
    let t = s.map_values(|x: u32| x as int);
    assert(t.no_duplicates()) by {
        assert forall|i: int, j: int| 0 <= i < t.len() && 0 <= j < t.len() && i != j implies t[i]
            != t[j] by {
            assert(s[i] != s[j]);
        }
    }
    t.unique_seq_to_set();
    lemma_int_range(lo, hi);
    assert(t.to_set().subset_of(set_int_range(lo, hi))) by {
        assert forall|x: int| t.to_set().contains(x) implies set_int_range(lo, hi).contains(x) by {
            let k = choose|k: int| 0 <= k < t.len() && t[k] == x;
            assert(lo <= s[k] < hi);
        }
    }
    lemma_len_subset(t.to_set(), set_int_range(lo, hi));
}

/// The clusters of the chain from `start`.
pub fn collect_chain_clusters(info: VolumeInfo, fat: &[u8], start_cluster: u32) -> (r: Vec<u32>)
    requires
        info.wf(),
    ensures
        is_chain_walk(info, fat@, start_cluster, r@),
{
    let mut clusters: Vec<u32> = Vec::new();
    if !info.is_valid_cluster(start_cluster) {
        return clusters;
    }
    let max = info.max_cluster();
    let mut seen: HashSet<u32> = HashSet::new();
    let mut cluster = start_cluster;
    loop
        invariant_except_break
            clusters@.len() > 0 ==> cluster_link(info, fat@, clusters@.last()) == ClusterState::Next(
                cluster,
            ),
        invariant
            info.wf(),
            max == info.spec_max_cluster(),
            info.spec_is_valid_cluster(start_cluster),
            clusters@.len() == 0 ==> cluster == start_cluster,
            clusters@.len() > 0 ==> clusters@[0] == start_cluster,
            clusters@.no_duplicates(),
            all_valid(info, clusters@),
            chain_links(info, fat@, clusters@),
            forall|x: u32| seen@.contains(x) <==> clusters@.contains(x),
        ensures
            is_chain_walk(info, fat@, start_cluster, clusters@),
        decreases info.spec_max_cluster() - clusters@.len(),
    {
        if !info.is_valid_cluster(cluster) {
            break;
        }
        if !seen.insert(cluster) {
            break;
        }
        let ghost old_clusters = clusters@;
        clusters.push(cluster);
        proof {
            assert(clusters@.no_duplicates()) by {
                assert forall|i: int, j: int|
                    0 <= i < clusters@.len() && 0 <= j < clusters@.len() && i != j implies clusters@[i]
                    != clusters@[j] by {
                    if i < old_clusters.len() && j < old_clusters.len() {
                        assert(old_clusters[i] != old_clusters[j]);
                    } else if i < old_clusters.len() {
                        assert(old_clusters.contains(old_clusters[i]));
                    } else {
                        assert(old_clusters.contains(old_clusters[j]));
                    }
                }
            }
            assert(forall|x: u32| seen@.contains(x) <==> clusters@.contains(x)) by {
                assert forall|x: u32| seen@.contains(x) <==> clusters@.contains(x) by {
                    if clusters@.contains(x) && x != cluster {
                        let k = choose|k: int| 0 <= k < clusters@.len() && clusters@[k] == x;
                        assert(old_clusters[k] == x);
                    }
                    if old_clusters.contains(x) {
                        let k = choose|k: int| 0 <= k < old_clusters.len() && old_clusters[k] == x;
                        assert(clusters@[k] == x);
                    }
                }
            }
            assert(all_valid(info, clusters@));
            assert(chain_links(info, fat@, clusters@)) by {
                assert forall|i: int| 0 <= i < clusters@.len() - 1 implies #[trigger] cluster_link(
                    info,
                    fat@,
                    clusters@[i],
                ) == ClusterState::Next(clusters@[i + 1]) by {
                    if i < old_clusters.len() - 1 {
                        assert(old_clusters[i] == clusters@[i]);
                    }
                }
            }
            lemma_distinct_in_range(clusters@, 2, max + 1);
        }
        match classify_cluster(info.fat_kind, fat_entry(fat, info.fat_kind, cluster), max) {
            ClusterState::Next(next) => {
                cluster = next;
            },
            _ => {
                break;
            },
        }
    }
    clusters
}

// ---- Reachable clusters ----

/// `b` follows `a` in the table, both clusters of the data area.
pub open spec fn links_to(info: VolumeInfo, fat: Seq<u8>, a: u32, b: u32) -> bool {
    &&& info.spec_is_valid_cluster(a)
    &&& info.spec_is_valid_cluster(b)
    &&& cluster_link(info, fat, a) == ClusterState::Next(b)
}

/// A path along the table's links, starting at a data cluster.
pub open spec fn is_link_path(info: VolumeInfo, fat: Seq<u8>, q: Seq<u32>) -> bool {
    &&& q.len() >= 1
    &&& info.spec_is_valid_cluster(q[0])
    &&& forall|i: int| 0 <= i < q.len() - 1 ==> #[trigger] links_to(info, fat, q[i], q[i + 1])
}

/// Cluster `c` lies on the chain that starts at cluster `start`.
pub open spec fn chain_reaches(info: VolumeInfo, fat: Seq<u8>, start: u32, c: u32) -> bool {
    exists|q: Seq<u32>| #[trigger] is_link_path(info, fat, q) && q[0] == start && q.last() == c
}

/// A marking of clusters (indexed by cluster number) to which the table
/// adds nothing: every data cluster that a marked cluster links to is
/// marked.
pub open spec fn marks_closed(info: VolumeInfo, fat: Seq<u8>, marks: Seq<bool>) -> bool {
    forall|a: u32, b: u32|
        #[trigger] links_to(info, fat, a, b) && marks[a as int] ==> marks[b as int]
}

/// What a volume scan has found.
pub struct ScanState {
    pub dirty_flag_set: bool,
    pub fsinfo: Option<FsInfoState>,
    pub actual_free_clusters: u32,
    pub first_free_cluster: Option<u32>,
    pub reachable_clusters: Vec<bool>,
    pub lost_clusters: Vec<u32>,
    pub orphaned_lfn_offsets: Vec<u64>,
}

impl ScanState {
    /// The reachability marks cover every cluster number up to the
    /// volume's highest.
    pub open spec fn fits(&self, info: VolumeInfo) -> bool {
        self.reachable_clusters@.len() == info.spec_max_cluster() + 1
    }
}

/// The walk a marking pass takes: the chain from `start` up to the first
/// cluster already marked.
pub open spec fn mark_walk_stops(
    info: VolumeInfo,
    fat: Seq<u8>,
    marks: Seq<bool>,
    start: u32,
    p: Seq<u32>,
) -> bool {
    if p.len() == 0 {
        marks[start as int]
    } else {
        &&& p[0] == start
        &&& all_valid(info, p)
        &&& chain_links(info, fat, p)
        &&& match cluster_link(info, fat, p.last()) {
            ClusterState::Next(n) => !info.spec_is_valid_cluster(n) || p.contains(n)
                || marks[n as int],
            _ => true,
        }
    }
}

proof fn lemma_prefix_reaches(info: VolumeInfo, fat: Seq<u8>, p: Seq<u32>, i: int)
    requires
        p.len() >= 1,
        all_valid(info, p),
        chain_links(info, fat, p),
        0 <= i < p.len(),
    ensures
        chain_reaches(info, fat, p[0], p[i]),
{
    let q = p.subrange(0, i + 1);
    assert forall|j: int| 0 <= j < q.len() - 1 implies #[trigger] links_to(info, fat, q[j], q[j + 1]) by {
        assert(cluster_link(info, fat, p[j]) == ClusterState::Next(p[j + 1]));
        assert(q[j] == p[j]);
        assert(q[j + 1] == p[j + 1]);
        assert(info.spec_is_valid_cluster(p[j]));
        assert(info.spec_is_valid_cluster(p[j + 1]));
    }
    assert(is_link_path(info, fat, q));
}

/// Every cluster on the chain from `start` is either marked before the
/// pass or on the pass's walk.
proof fn lemma_chain_covered(
    info: VolumeInfo,
    fat: Seq<u8>,
    marks: Seq<bool>,
    start: u32,
    p: Seq<u32>,
    q: Seq<u32>,
)
    requires
        info.wf(),
        marks.len() == info.spec_max_cluster() + 1,
        marks_closed(info, fat, marks),
        mark_walk_stops(info, fat, marks, start, p),
        is_link_path(info, fat, q),
        q[0] == start,
    ensures
        marks[q.last() as int] || p.contains(q.last()),
    decreases q.len(),
{
    if q.len() == 1 {
        if p.len() > 0 {
            assert(p[0] == q.last());
        }
    } else {
        let r = q.drop_last();
        assert forall|i: int| 0 <= i < r.len() - 1 implies #[trigger] links_to(info, fat, r[i], r[i + 1]) by {
            assert(links_to(info, fat, q[i], q[i + 1]));
        }
        lemma_chain_covered(info, fat, marks, start, p, r);
        let a = r.last();
        let b = q.last();
        assert(links_to(info, fat, q[q.len() - 2], q[q.len() - 2 + 1]));
        assert(links_to(info, fat, a, b));
        if !marks[a as int] {
            let k = choose|k: int| 0 <= k < p.len() && p[k] == a;
            if k < p.len() - 1 {
                assert(cluster_link(info, fat, p[k]) == ClusterState::Next(p[k + 1]));
                assert(p.contains(p[k + 1]));
            }
        }
    }
}

/// After a pass, the marking is still closed.
proof fn lemma_marks_stay_closed(
    info: VolumeInfo,
    fat: Seq<u8>,
    marks: Seq<bool>,
    after: Seq<bool>,
    start: u32,
    p: Seq<u32>,
)
    requires
        info.wf(),
        marks.len() == info.spec_max_cluster() + 1,
        after.len() == marks.len(),
        marks_closed(info, fat, marks),
        mark_walk_stops(info, fat, marks, start, p),
        forall|k: int| 0 <= k < marks.len() ==> after[k] == (marks[k] || p.contains(k as u32)),
    ensures
        marks_closed(info, fat, after),
{
    assert forall|a: u32, b: u32| #[trigger] links_to(info, fat, a, b) && after[a as int] implies after[b as int] by {
        assert(0 <= a < marks.len() && 0 <= b < marks.len());
        if marks[a as int] {
            assert(marks[b as int]);
        } else {
            assert(p.contains(a));
            let k = choose|k: int| 0 <= k < p.len() && p[k] == a;
            if k < p.len() - 1 {
                assert(cluster_link(info, fat, p[k]) == ClusterState::Next(p[k + 1]));
                assert(p.contains(p[k + 1]));
            }
            assert(p.contains(b) || marks[b as int]);
            assert(after[b as int]);
        }
    }
}

/// Extending a walk by a data cluster it does not hold, which its last
/// cluster links to, keeps it a walk without repeats.
proof fn lemma_walk_push(info: VolumeInfo, fat: Seq<u8>, old_p: Seq<u32>, cluster: u32)
    requires
        info.wf(),
        old_p.no_duplicates(),
        all_valid(info, old_p),
        chain_links(info, fat, old_p),
        old_p.len() > 0 ==> cluster_link(info, fat, old_p.last()) == ClusterState::Next(cluster),
        info.spec_is_valid_cluster(cluster),
        !old_p.contains(cluster),
    ensures
        old_p.push(cluster).no_duplicates(),
        all_valid(info, old_p.push(cluster)),
        chain_links(info, fat, old_p.push(cluster)),
        old_p.push(cluster).len() <= info.spec_max_cluster() - 1,
        forall|x: u32| #[trigger] old_p.push(cluster).contains(x) <==> (old_p.contains(x) || x == cluster),
{
    let p = old_p.push(cluster);
    assert(p.no_duplicates()) by {
        assert forall|i: int, j: int| 0 <= i < p.len() && 0 <= j < p.len() && i != j implies p[i]
            != p[j] by {
            if i < old_p.len() && j < old_p.len() {
                assert(old_p[i] != old_p[j]);
            } else if i < old_p.len() {
                assert(old_p.contains(old_p[i]));
            } else {
                assert(old_p.contains(old_p[j]));
            }
        }
    }
    assert forall|x: u32| #[trigger] p.contains(x) <==> (old_p.contains(x) || x == cluster) by {
        if p.contains(x) && x != cluster {
            let k = choose|k: int| 0 <= k < p.len() && p[k] == x;
            assert(old_p[k] == x);
        }
        if old_p.contains(x) {
            let k = choose|k: int| 0 <= k < old_p.len() && old_p[k] == x;
            assert(p[k] == x);
        }
        if x == cluster {
            assert(p[p.len() - 1] == x);
        }
    }
    assert(all_valid(info, p));
    assert(chain_links(info, fat, p)) by {
        assert forall|i: int| 0 <= i < p.len() - 1 implies #[trigger] cluster_link(info, fat, p[i])
            == ClusterState::Next(p[i + 1]) by {
            if i < old_p.len() - 1 {
                assert(old_p[i] == p[i]);
            }
        }
    }
    lemma_distinct_in_range(p, 2, info.spec_max_cluster() + 1);
}

/// A cluster on a pass's walk lies on the chain from its start; one on
/// that chain was marked before or lies on the walk.
proof fn lemma_mark_one(
    info: VolumeInfo,
    fat: Seq<u8>,
    marks: Seq<bool>,
    start: u32,
    p: Seq<u32>,
    c: u32,
)
    requires
        info.wf(),
        info.spec_is_valid_cluster(start),
        marks.len() == info.spec_max_cluster() + 1,
        marks_closed(info, fat, marks),
        mark_walk_stops(info, fat, marks, start, p),
    ensures
        p.contains(c) ==> chain_reaches(info, fat, start, c),
        chain_reaches(info, fat, start, c) ==> marks[c as int] || p.contains(c),
{
    if p.contains(c) {
        let j = choose|j: int| 0 <= j < p.len() && p[j] == c;
        lemma_prefix_reaches(info, fat, p, j);
    }
    if chain_reaches(info, fat, start, c) {
        let q = choose|q: Seq<u32>|
            #[trigger] is_link_path(info, fat, q) && q[0] == start && q.last() == c;
        lemma_chain_covered(info, fat, marks, start, p, q);
    }
}

/// After a pass from a data cluster, a cluster is marked exactly when it
/// was marked before or lies on the chain from the pass's start.
#[verifier::spinoff_prover]
#[verifier::rlimit(40)]
proof fn lemma_mark_result(
    info: VolumeInfo,
    fat: Seq<u8>,
    marks: Seq<bool>,
    after: Seq<bool>,
    start: u32,
    p: Seq<u32>,
)
    requires
        info.wf(),
        info.spec_is_valid_cluster(start),
        marks.len() == info.spec_max_cluster() + 1,
        after.len() == marks.len(),
        marks_closed(info, fat, marks),
        mark_walk_stops(info, fat, marks, start, p),
        forall|k: int| 0 <= k < marks.len() ==> after[k] == (marks[k] || p.contains(k as u32)),
    ensures
        forall|k: int|
            0 <= k < marks.len() ==> after[k] == (marks[k] || chain_reaches(
                info,
                fat,
                start,
                k as u32,
            )),
{
    assert forall|k: int| 0 <= k < marks.len() implies after[k] == (marks[k] || chain_reaches(
        info,
        fat,
        start,
        k as u32,
    )) by {
        assert((k as u32) as int == k);
        lemma_mark_one(info, fat, marks, start, p, k as u32);
    }
}

/// Marks the clusters of the chain from `start_cluster` as reachable,
/// stopping at the first one already marked.
pub fn mark_chain_reachable(scan: &mut ScanState, info: VolumeInfo, fat: &[u8], start_cluster: u32)
    requires
        info.wf(),
        old(scan).fits(info),
        marks_closed(info, fat@, old(scan).reachable_clusters@),
    ensures
        final(scan).fits(info),
        marks_closed(info, fat@, final(scan).reachable_clusters@),
        forall|k: int|
            0 <= k < old(scan).reachable_clusters@.len() ==> final(scan).reachable_clusters@[k] == (
            old(scan).reachable_clusters@[k] || (info.spec_is_valid_cluster(start_cluster)
                && chain_reaches(info, fat@, start_cluster, k as u32))),
        final(scan).dirty_flag_set == old(scan).dirty_flag_set,
        final(scan).fsinfo == old(scan).fsinfo,
        final(scan).actual_free_clusters == old(scan).actual_free_clusters,
        final(scan).first_free_cluster == old(scan).first_free_cluster,
        final(scan).lost_clusters@ == old(scan).lost_clusters@,
        final(scan).orphaned_lfn_offsets@ == old(scan).orphaned_lfn_offsets@,
{
    if !info.is_valid_cluster(start_cluster) {
        return ;
    }
    let max = info.max_cluster();
    let ghost marks = scan.reachable_clusters@;
    let ghost mut p: Seq<u32> = Seq::empty();
    let mut seen: HashSet<u32> = HashSet::new();
    let mut cluster = start_cluster;
    loop
        invariant_except_break
            p.len() > 0 ==> cluster_link(info, fat@, p.last()) == ClusterState::Next(cluster),
            forall|x: u32| seen@.contains(x) <==> p.contains(x),
        invariant
            info.wf(),
            max == info.spec_max_cluster(),
            info.spec_is_valid_cluster(start_cluster),
            marks.len() == max + 1,
            scan.reachable_clusters@.len() == max + 1,
            p.len() == 0 ==> cluster == start_cluster,
            p.len() > 0 ==> p[0] == start_cluster,
            p.no_duplicates(),
            all_valid(info, p),
            chain_links(info, fat@, p),
            forall|i: int| 0 <= i < p.len() ==> !marks[#[trigger] p[i] as int],
            forall|k: int|
                0 <= k < marks.len() ==> scan.reachable_clusters@[k] == (marks[k] || p.contains(
                    k as u32,
                )),
            scan.dirty_flag_set == old(scan).dirty_flag_set,
            scan.fsinfo == old(scan).fsinfo,
            scan.actual_free_clusters == old(scan).actual_free_clusters,
            scan.first_free_cluster == old(scan).first_free_cluster,
            scan.lost_clusters@ == old(scan).lost_clusters@,
            scan.orphaned_lfn_offsets@ == old(scan).orphaned_lfn_offsets@,
            marks == old(scan).reachable_clusters@,
        ensures
            mark_walk_stops(info, fat@, marks, start_cluster, p),
        decreases info.spec_max_cluster() - p.len(),
    {
        if !info.is_valid_cluster(cluster) {
            break;
        }
        if !seen.insert(cluster) {
            break;
        }
        if scan.reachable_clusters[cluster as usize] {
            break;
        }
        let ghost old_p = p;
        scan.reachable_clusters.set(cluster as usize, true);
        proof {
            lemma_walk_push(info, fat@, old_p, cluster);
            p = old_p.push(cluster);
            assert forall|i: int| 0 <= i < p.len() implies !marks[#[trigger] p[i] as int] by {
                if i < old_p.len() {
                    assert(old_p[i] == p[i]);
                }
            }
        }
        match classify_cluster(info.fat_kind, fat_entry(fat, info.fat_kind, cluster), max) {
            ClusterState::Next(next) => {
                cluster = next;
            },
            _ => {
                break;
            },
        }
    }
    proof {
        lemma_marks_stay_closed(info, fat@, marks, scan.reachable_clusters@, start_cluster, p);
        lemma_mark_result(info, fat@, marks, scan.reachable_clusters@, start_cluster, p);
    }
}

// ---- Directory entries ----

/// A 32-byte directory entry and its byte offset on the volume.
#[derive(Clone, Copy)]
pub struct RawDirEntry {
    pub offset: u64,
    pub data: [u8; 32],
}

/// The entries that a directory region read from `base` holds: one per
/// whole 32 bytes.
pub open spec fn region_entries(base: u64, data: Seq<u8>) -> Seq<(u64, Seq<u8>)> {
    Seq::new(
        data.len() / 32,
        |i: int| ((base + i * 32) as u64, data.subrange(i * 32, i * 32 + 32)),
    )
}

pub open spec fn entry_view(e: RawDirEntry) -> (u64, Seq<u8>) {
    (e.offset, e.data@)
}

pub open spec fn entries_view(v: Seq<RawDirEntry>) -> Seq<(u64, Seq<u8>)> {
    v.map_values(|e: RawDirEntry| entry_view(e))
}

/// Appends the entries of a directory region read from `base_offset`.
pub fn push_directory_entries(entries: &mut Vec<RawDirEntry>, base_offset: u64, data: &[u8])
    requires
        base_offset + data@.len() <= u64::MAX,
    ensures
        entries_view(final(entries)@) == entries_view(old(entries)@) + region_entries(
            base_offset,
            data@,
        ),
{
    let ghost start = entries_view(entries@);
    let count = data.len() / 32;
    let mut index: usize = 0;
    while index < count
        invariant
            count == data@.len() / 32,
            data@.len() <= usize::MAX,
            index <= count,
            base_offset + data@.len() <= u64::MAX,
            entries_view(entries@) == start + region_entries(base_offset, data@).subrange(
                0,
                index as int,
            ),
        decreases count - index,
    {
        let mut entry = [0u8; 32];
        proof {
            assert(index * 32 + 32 <= data@.len()) by (nonlinear_arith)
                requires
                    index < count,
                    count == data@.len() / 32,
            ;
        }
        let at = index * 32;
        let mut j: usize = 0;
        while j < 32
            invariant
                index < count,
                count == data@.len() / 32,
                at == index * 32,
                at + 32 <= data@.len(),
                j <= 32,
                forall|k: int| 0 <= k < j ==> entry@[k] == data@[at + k],
            decreases 32 - j,
        {
            entry[j] = data[at + j];
            j = j + 1;
        }
        let e = RawDirEntry { offset: base_offset + (index as u64) * 32, data: entry };
        proof {
            assert(entry@ =~= data@.subrange(at as int, at + 32));
            assert(entries_view(entries@.push(e)) =~= entries_view(entries@).push(entry_view(e)));
            assert(region_entries(base_offset, data@).subrange(0, index + 1) =~= region_entries(
                base_offset,
                data@,
            ).subrange(0, index as int).push(entry_view(e)));
        }
        entries.push(e);
        index = index + 1;
    }
    proof {
        assert(region_entries(base_offset, data@).subrange(0, count as int) =~= region_entries(
            base_offset,
            data@,
        ));
    }
}

/// A long-file-name entry waiting for the short entry it belongs to.
#[derive(Clone, Copy)]
pub struct PendingLfnEntry {
    pub offset: u64,
    pub order: u8,
    pub checksum: u8,
}

/// One step of the short-name checksum: rotate right by one bit, add the
/// byte, modulo 256.
pub open spec fn lfn_step(c: u8, b: u8) -> u8 {
    (((c % 2) * 128 + c / 2 + b) % 256) as u8
}

/// The checksum of an 8.3 short name that its long-name entries record.
pub open spec fn spec_lfn_checksum(name: Seq<u8>) -> u8
    decreases name.len(),
{
    if name.len() == 0 {
        0
    } else {
        lfn_step(spec_lfn_checksum(name.drop_last()), name.last())
    }
}

pub fn lfn_checksum(short_name: &[u8; 11]) -> (r: u8)
    ensures
        r == spec_lfn_checksum(short_name@),
{
    let mut checksum: u8 = 0;
    let mut i: usize = 0;
    while i < 11
        invariant
            i <= 11,
            checksum == spec_lfn_checksum(short_name@.subrange(0, i as int)),
        decreases 11 - i,
    {
        let c = checksum;
        let b = short_name[i];
        proof {
            assert(short_name@.subrange(0, i + 1).drop_last() =~= short_name@.subrange(0, i as int));
            assert(((c & 1) << 7u8) as int == (c % 2) * 128) by (bit_vector);
            assert((c >> 1u8) as int == c / 2) by (bit_vector);
        }
        checksum = ((c & 1) << 7).wrapping_add(c >> 1).wrapping_add(b);
        i = i + 1;
    }
    proof {
        assert(short_name@.subrange(0, 11) =~= short_name@);
    }
    checksum
}

/// The entry at `index` of a run of `total` long-name entries (counted with
/// 8-bit wrap-around, as the entries record it) matches a short entry with
/// checksum `cs`: it records the checksum, its sequence number counts down
/// from `total` (never below zero), and only the first is marked last.
pub open spec fn lfn_entry_ok(e: PendingLfnEntry, index: int, total: u8, cs: u8) -> bool {
    let order = e.order & 0x1F;
    let i = index as u8;
    let expected: u8 = if total >= i {
        (total - i) as u8
    } else {
        0
    };
    &&& e.checksum == cs
    &&& order != 0
    &&& order == expected
    &&& if index == 0 {
        e.order & 0x40 != 0 && order == total
    } else {
        e.order & 0x40 == 0
    }
}

/// A run of long-name entries belongs to the short entry that follows it.
pub open spec fn spec_lfn_matches(pending: Seq<PendingLfnEntry>, short_entry: Seq<u8>) -> bool {
    forall|i: int|
        0 <= i < pending.len() ==> lfn_entry_ok(
            #[trigger] pending[i],
            i,
            pending.len() as u8,
            spec_lfn_checksum(short_entry.subrange(0, 11)),
        )
}

pub fn lfn_matches_short(pending: &[PendingLfnEntry], short_entry: &[u8; 32]) -> (r: bool)
    ensures
        r == spec_lfn_matches(pending@, short_entry@),
{
    if pending.len() == 0 {
        return true;
    }
    let mut short_name = [0u8; 11];
    let mut k: usize = 0;
    while k < 11
        invariant
            k <= 11,
            forall|j: int| 0 <= j < k ==> short_name@[j] == short_entry@[j],
        decreases 11 - k,
    {
        short_name[k] = short_entry[k];
        k = k + 1;
    }
    proof {
        assert(short_name@ =~= short_entry@.subrange(0, 11));
    }
    let checksum = lfn_checksum(&short_name);
    let total = pending.len() as u8;
    let mut index: usize = 0;
    while index < pending.len()
        invariant
            index <= pending@.len(),
            total == pending@.len() as u8,
            checksum == spec_lfn_checksum(short_entry@.subrange(0, 11)),
            forall|i: int|
                0 <= i < index ==> lfn_entry_ok(#[trigger] pending@[i], i, total, checksum),
        decreases pending@.len() - index,
    {
        let entry = pending[index];
        if entry.checksum != checksum {
            return false;
        }
        let order = entry.order & 0x1F;
        let expected = total.saturating_sub(index as u8);
        if order == 0 || order != expected {
            return false;
        }
        let last = entry.order & 0x40 != 0;
        if index == 0 {
            if !last || order != total {
                return false;
            }
        } else if last {
            return false;
        }
        index = index + 1;
    }
    true
}

/// The offsets of a run of long-name entries.
pub open spec fn pending_offsets(pending: Seq<PendingLfnEntry>) -> Seq<u64> {
    pending.map_values(|e: PendingLfnEntry| e.offset)
}

/// Records a run of long-name entries as orphaned.
pub fn mark_pending_lfns_orphaned(scan: &mut ScanState, pending: &[PendingLfnEntry])
    ensures
        final(scan).orphaned_lfn_offsets@ == old(scan).orphaned_lfn_offsets@ + pending_offsets(
            pending@,
        ),
        final(scan).dirty_flag_set == old(scan).dirty_flag_set,
        final(scan).fsinfo == old(scan).fsinfo,
        final(scan).actual_free_clusters == old(scan).actual_free_clusters,
        final(scan).first_free_cluster == old(scan).first_free_cluster,
        final(scan).reachable_clusters@ == old(scan).reachable_clusters@,
        final(scan).lost_clusters@ == old(scan).lost_clusters@,
{
    let ghost start = scan.orphaned_lfn_offsets@;
    let mut i: usize = 0;
    while i < pending.len()
        invariant
            i <= pending@.len(),
            scan.orphaned_lfn_offsets@ == start + pending_offsets(pending@).subrange(0, i as int),
            scan.dirty_flag_set == old(scan).dirty_flag_set,
            scan.fsinfo == old(scan).fsinfo,
            scan.actual_free_clusters == old(scan).actual_free_clusters,
            scan.first_free_cluster == old(scan).first_free_cluster,
            scan.reachable_clusters@ == old(scan).reachable_clusters@,
            scan.lost_clusters@ == old(scan).lost_clusters@,
            start == old(scan).orphaned_lfn_offsets@,
        decreases pending@.len() - i,
    {
        proof {
            assert(pending_offsets(pending@).subrange(0, i + 1) =~= pending_offsets(
                pending@,
            ).subrange(0, i as int).push(pending@[i as int].offset));
        }
        scan.orphaned_lfn_offsets.push(pending[i].offset);
        i = i + 1;
    }
    proof {
        assert(pending_offsets(pending@).subrange(0, pending@.len() as int) =~= pending_offsets(
            pending@,
        ));
    }
}

/// The first cluster a directory entry records: the low 16 bits, and on
/// FAT32 the high 16 bits too, cut to the 28 bits a FAT32 entry holds.
pub open spec fn spec_entry_start_cluster(kind: FatKind, entry: Seq<u8>) -> u32 {
    let low = le16(entry[26], entry[27]) as u32;
    if kind == FatKind::Fat32 {
        let high = le16(entry[20], entry[21]) as u32;
        ((high << 16u32) | low) & 0x0FFF_FFFF
    } else {
        low
    }
}

pub fn entry_start_cluster(info: VolumeInfo, entry: &[u8; 32]) -> (r: u32)
    ensures
        r == spec_entry_start_cluster(info.fat_kind, entry@),
{
    let low = u16_from_le(entry[26], entry[27]) as u32;
    if info.fat_kind == FatKind::Fat32 {
        let high = u16_from_le(entry[20], entry[21]) as u32;
        ((high << 16) | low) & 0x0FFF_FFFF
    } else {
        low
    }
}

/// The first cluster of a directory entry, from its bytes: on FAT12/16 the
/// little-endian word at bytes 26..28; on FAT32 that word plus 65536 times
/// the word at bytes 20..22, keeping the low 28 bits (the top nibble of
/// byte 21 is dropped). So on FAT32 a nonzero high word (below 0x1000)
/// gives a cluster of 65536 or more.
pub proof fn lemma_entry_start_cluster(kind: FatKind, entry: Seq<u8>)
    requires
        entry.len() >= 28,
    ensures
        kind != FatKind::Fat32 ==> spec_entry_start_cluster(kind, entry) == entry[26] as int + 256
            * entry[27] as int,
        kind == FatKind::Fat32 ==> spec_entry_start_cluster(kind, entry) == entry[26] as int + 256
            * entry[27] as int + 65536 * entry[20] as int + 16777216 * (entry[21] as int % 16),
        kind == FatKind::Fat32 && (entry[20] != 0 || entry[21] % 16 != 0)
            ==> spec_entry_start_cluster(kind, entry) >= 65536,
{
    let low = le16(entry[26], entry[27]) as u32;
    let high = le16(entry[20], entry[21]) as u32;
    assert(low == entry[26] as int + 256 * entry[27] as int);
    assert(high == entry[20] as int + 256 * entry[21] as int);
    let r = ((high << 16u32) | low) & 0x0FFF_FFFF;
    assert(r == low + 65536 * (high % 4096)) by (bit_vector)
        requires
            low < 65536,
            high < 65536,
            r == ((high << 16u32) | low) & 0x0FFF_FFFF,
    ;
    let b20 = entry[20] as int;
    let b21 = entry[21] as int;
    assert((b20 + 256 * b21) % 4096 == b20 + 256 * (b21 % 16)) by (nonlinear_arith)
        requires
            0 <= b20 < 256,
            0 <= b21 < 256,
    ;
}

/// What scanning a directory's entries gathers: the run of long-name
/// entries not yet matched, the offsets of orphaned ones, the first
/// clusters of the entries whose chains are in use, those of
/// subdirectories, and whether the end-of-directory entry was met.
pub struct DirScan {
    pub pending: Seq<PendingLfnEntry>,
    pub orphans: Seq<u64>,
    pub starts: Seq<u32>,
    pub subdirs: Seq<u32>,
    pub ended: bool,
}

pub open spec fn dir_scan_empty() -> DirScan {
    DirScan {
        pending: Seq::empty(),
        orphans: Seq::empty(),
        starts: Seq::empty(),
        subdirs: Seq::empty(),
        ended: false,
    }
}

/// One entry's effect. A zero first byte ends the directory, a 0xE5 one
/// marks a deleted entry, attribute 0x0F a long-name entry; any other
/// entry is a short entry, which ends the run of long-name entries before
/// it (orphaned unless they belong to it) and, unless it is a dot entry or
/// a volume label, puts its chain in use when its first cluster is 2 or
/// more, and is a subdirectory when its directory bit is set too.
pub open spec fn dir_step(kind: FatKind, m: DirScan, e: RawDirEntry) -> DirScan {
    let first = e.data@[0];
    let attr = e.data@[11];
    if m.ended {
        m
    } else if first == 0x00 {
        DirScan {
            pending: Seq::empty(),
            orphans: m.orphans + pending_offsets(m.pending),
            starts: m.starts,
            subdirs: m.subdirs,
            ended: true,
        }
    } else if first == 0xE5 {
        DirScan {
            pending: Seq::empty(),
            orphans: m.orphans + pending_offsets(m.pending),
            starts: m.starts,
            subdirs: m.subdirs,
            ended: false,
        }
    } else if attr == 0x0F {
        DirScan {
            pending: m.pending.push(
                PendingLfnEntry { offset: e.offset, order: first, checksum: e.data@[13] },
            ),
            orphans: m.orphans,
            starts: m.starts,
            subdirs: m.subdirs,
            ended: false,
        }
    } else {
        let orphans = if m.pending.len() > 0 && !spec_lfn_matches(m.pending, e.data@) {
            m.orphans + pending_offsets(m.pending)
        } else {
            m.orphans
        };
        let start = spec_entry_start_cluster(kind, e.data@);
        let in_use = !(first == 0x2E || attr & 0x08 != 0) && start >= 2;
        DirScan {
            pending: Seq::empty(),
            orphans,
            starts: if in_use {
                m.starts.push(start)
            } else {
                m.starts
            },
            subdirs: if in_use && attr & 0x10 != 0 {
                m.subdirs.push(start)
            } else {
                m.subdirs
            },
            ended: false,
        }
    }
}

/// The effect of the first `n` entries.
pub open spec fn dir_scan_prefix(kind: FatKind, entries: Seq<RawDirEntry>, n: nat) -> DirScan
    decreases n,
{
    if n == 0 {
        dir_scan_empty()
    } else {
        dir_step(kind, dir_scan_prefix(kind, entries, (n - 1) as nat), entries[n - 1])
    }
}

/// The effect of a directory's entries: a run of long-name entries still
/// open when the entries run out is orphaned.
pub open spec fn dir_scan(kind: FatKind, entries: Seq<RawDirEntry>) -> DirScan {
    let m = dir_scan_prefix(kind, entries, entries.len());
    if m.ended {
        m
    } else {
        DirScan {
            pending: Seq::empty(),
            orphans: m.orphans + pending_offsets(m.pending),
            starts: m.starts,
            subdirs: m.subdirs,
            ended: false,
        }
    }
}

/// Cluster `c` lies on the chain of one of the data clusters `starts`.
pub open spec fn reached_from(info: VolumeInfo, fat: Seq<u8>, starts: Seq<u32>, c: u32) -> bool {
    exists|j: int|
        0 <= j < starts.len() && info.spec_is_valid_cluster(#[trigger] starts[j])
            && chain_reaches(info, fat, starts[j], c)
}

proof fn lemma_reached_push(info: VolumeInfo, fat: Seq<u8>, starts: Seq<u32>, s: u32, c: u32)
    ensures
        reached_from(info, fat, starts.push(s), c) == (reached_from(info, fat, starts, c) || (
        info.spec_is_valid_cluster(s) && chain_reaches(info, fat, s, c))),
{
    let t = starts.push(s);
    if reached_from(info, fat, starts, c) {
        let j = choose|j: int|
            0 <= j < starts.len() && info.spec_is_valid_cluster(#[trigger] starts[j])
                && chain_reaches(info, fat, starts[j], c);
        assert(t[j] == starts[j]);
    }
    if info.spec_is_valid_cluster(s) && chain_reaches(info, fat, s, c) {
        assert(t[starts.len() as int] == s);
    }
    if reached_from(info, fat, t, c) {
        let j = choose|j: int|
            0 <= j < t.len() && info.spec_is_valid_cluster(#[trigger] t[j]) && chain_reaches(
                info,
                fat,
                t[j],
                c,
            );
        if j < starts.len() {
            assert(t[j] == starts[j]);
        }
    }
}

/// Once the end-of-directory entry is met, later entries change nothing.
proof fn lemma_dir_scan_ended(kind: FatKind, entries: Seq<RawDirEntry>, i: nat, n: nat)
    requires
        i <= n <= entries.len(),
        dir_scan_prefix(kind, entries, i).ended,
    ensures
        dir_scan_prefix(kind, entries, n) == dir_scan_prefix(kind, entries, i),
    decreases n - i,
{
    if n > i {
        lemma_dir_scan_ended(kind, entries, i, (n - 1) as nat);
    }
}

/// Scans a directory's entries: records orphaned long-name entries, marks
/// the chains of entries in use as reachable, and appends the first
/// clusters of subdirectories to `subdirs`.
pub fn scan_directory_entries(
    info: VolumeInfo,
    fat: &[u8],
    scan: &mut ScanState,
    entries: &[RawDirEntry],
    subdirs: &mut Vec<u32>,
)
    requires
        info.wf(),
        old(scan).fits(info),
        marks_closed(info, fat@, old(scan).reachable_clusters@),
    ensures
        final(scan).fits(info),
        marks_closed(info, fat@, final(scan).reachable_clusters@),
        final(scan).orphaned_lfn_offsets@ == old(scan).orphaned_lfn_offsets@ + dir_scan(
            info.fat_kind,
            entries@,
        ).orphans,
        final(subdirs)@ == old(subdirs)@ + dir_scan(info.fat_kind, entries@).subdirs,
        forall|k: int|
            0 <= k < old(scan).reachable_clusters@.len() ==> #[trigger] final(scan).reachable_clusters@[k]
                == (old(scan).reachable_clusters@[k] || reached_from(
                info,
                fat@,
                dir_scan(info.fat_kind, entries@).starts,
                k as u32,
            )),
        final(scan).dirty_flag_set == old(scan).dirty_flag_set,
        final(scan).fsinfo == old(scan).fsinfo,
        final(scan).actual_free_clusters == old(scan).actual_free_clusters,
        final(scan).first_free_cluster == old(scan).first_free_cluster,
        final(scan).lost_clusters@ == old(scan).lost_clusters@,
{
    let ghost kind = info.fat_kind;
    let ghost marks = scan.reachable_clusters@;
    let ghost orphans0 = scan.orphaned_lfn_offsets@;
    let ghost subdirs0 = subdirs@;
    let mut pending: Vec<PendingLfnEntry> = Vec::new();
    let mut i: usize = 0;
    while i < entries.len()
        invariant
            info.wf(),
            kind == info.fat_kind,
            marks == old(scan).reachable_clusters@,
            orphans0 == old(scan).orphaned_lfn_offsets@,
            subdirs0 == old(subdirs)@,
            i <= entries@.len(),
            scan.fits(info),
            marks.len() == scan.reachable_clusters@.len(),
            marks_closed(info, fat@, scan.reachable_clusters@),
            !dir_scan_prefix(kind, entries@, i as nat).ended,
            pending@ == dir_scan_prefix(kind, entries@, i as nat).pending,
            scan.orphaned_lfn_offsets@ == orphans0 + dir_scan_prefix(kind, entries@, i as nat).orphans,
            subdirs@ == subdirs0 + dir_scan_prefix(kind, entries@, i as nat).subdirs,
            forall|k: int|
                0 <= k < marks.len() ==> #[trigger] scan.reachable_clusters@[k] == (marks[k]
                    || reached_from(info, fat@, dir_scan_prefix(kind, entries@, i as nat).starts, k as u32)),
            scan.dirty_flag_set == old(scan).dirty_flag_set,
            scan.fsinfo == old(scan).fsinfo,
            scan.actual_free_clusters == old(scan).actual_free_clusters,
            scan.first_free_cluster == old(scan).first_free_cluster,
            scan.lost_clusters@ == old(scan).lost_clusters@,
        decreases entries@.len() - i,
    {
        let entry = entries[i];
        let ghost m = dir_scan_prefix(kind, entries@, i as nat);
        let ghost m1 = dir_scan_prefix(kind, entries@, (i + 1) as nat);
        assert(m1 == dir_step(kind, m, entries@[i as int]));
        let first = entry.data[0];
        if first == 0x00 {
            if pending.len() > 0 {
                mark_pending_lfns_orphaned(scan, pending.as_slice());
            }
            proof {
                assert(m1.ended);
                assert(m1.starts == m.starts);
                assert(m1.subdirs == m.subdirs);
                lemma_dir_scan_ended(kind, entries@, (i + 1) as nat, entries@.len());
                assert(dir_scan(kind, entries@) == m1);
                assert(pending_offsets(pending@).len() == 0 ==> pending_offsets(pending@) =~= Seq::<u64>::empty());
                assert(scan.orphaned_lfn_offsets@ =~= orphans0 + dir_scan(kind, entries@).orphans);
            }
            return ;
        }
        if first == 0xE5 {
            if pending.len() > 0 {
                mark_pending_lfns_orphaned(scan, pending.as_slice());
                pending.clear();
            }
            proof {
                assert(scan.orphaned_lfn_offsets@ =~= orphans0 + m1.orphans);
                assert(pending@ =~= m1.pending);
                assert(m1.starts == m.starts);
                assert(m1.subdirs == m.subdirs);
                assert(!m1.ended);
            }
            i = i + 1;
            continue;
        }
        let attr = entry.data[11];
        if attr == 0x0F {
            pending.push(PendingLfnEntry { offset: entry.offset, order: entry.data[0], checksum: entry.data[13] });
            proof {
                assert(m1.starts == m.starts);
                assert(m1.subdirs == m.subdirs);
                assert(m1.orphans == m.orphans);
                assert(!m1.ended);
            }
            i = i + 1;
            continue;
        }
        if pending.len() > 0 {
            if !lfn_matches_short(pending.as_slice(), &entry.data) {
                mark_pending_lfns_orphaned(scan, pending.as_slice());
            }
            pending.clear();
        }
        proof {
            assert(scan.orphaned_lfn_offsets@ =~= orphans0 + m1.orphans);
            assert(pending@ =~= m1.pending);
        }
        if first == 0x2E || attr & 0x08 != 0 {
            proof {
                assert(m1.starts == m.starts);
                assert(m1.subdirs == m.subdirs);
                assert(!m1.ended);
            }
            i = i + 1;
            continue;
        }
        let start_cluster = entry_start_cluster(info, &entry.data);
        if start_cluster >= 2 {
            let ghost before = scan.reachable_clusters@;
            mark_chain_reachable(scan, info, fat, start_cluster);
            proof {
                assert(m1.starts == m.starts.push(start_cluster));
                assert forall|k: int| 0 <= k < marks.len() implies scan.reachable_clusters@[k] == (
                marks[k] || reached_from(info, fat@, m1.starts, k as u32)) by {
                    assert(before[k] == (marks[k] || reached_from(info, fat@, m.starts, k as u32)));
                    lemma_reached_push(info, fat@, m.starts, start_cluster, k as u32);
                }
            }
        } else {
            proof {
                assert(m1.starts == m.starts);
            }
        }
        if attr & 0x10 != 0 && start_cluster >= 2 {
            subdirs.push(start_cluster);
            proof {
                assert(m1.subdirs == m.subdirs.push(start_cluster));
                assert(subdirs@ =~= subdirs0 + m1.subdirs);
            }
        } else {
            proof {
                assert(m1.subdirs == m.subdirs);
            }
        }
        proof {
            assert(!m1.ended);
        }
        i = i + 1;
    }
    proof {
        assert(i == entries@.len());
        let mf = dir_scan_prefix(kind, entries@, entries@.len());
        assert(dir_scan(kind, entries@).starts == mf.starts);
        assert(dir_scan(kind, entries@).subdirs == mf.subdirs);
    }
    if pending.len() > 0 {
        mark_pending_lfns_orphaned(scan, pending.as_slice());
    }
    proof {
        assert(pending_offsets(pending@).len() == 0 ==> pending_offsets(pending@) =~= Seq::<u64>::empty());
        assert(scan.orphaned_lfn_offsets@ =~= orphans0 + dir_scan(kind, entries@).orphans);
    }
}

// ---- Free and lost clusters ----

pub open spec fn is_free(info: VolumeInfo, fat: Seq<u8>, c: u32) -> bool {
    cluster_link(info, fat, c) == ClusterState::Free
}

/// The table holds a chain's link or its end for the cluster.
pub open spec fn is_allocated(info: VolumeInfo, fat: Seq<u8>, c: u32) -> bool {
    cluster_link(info, fat, c) is Next || cluster_link(info, fat, c) is Eof
}

/// Free data clusters numbered below `n`.
pub open spec fn free_below(info: VolumeInfo, fat: Seq<u8>, n: int) -> nat
    decreases n,
{
    if n <= 2 {
        0
    } else {
        free_below(info, fat, n - 1) + if is_free(info, fat, (n - 1) as u32) {
            1nat
        } else {
            0nat
        }
    }
}

/// Allocated data clusters numbered below `n` that no mark reaches, in
/// increasing order.
pub open spec fn lost_below(info: VolumeInfo, fat: Seq<u8>, marks: Seq<bool>, n: int) -> Seq<u32>
    decreases n,
{
    if n <= 2 {
        Seq::empty()
    } else {
        let c = (n - 1) as u32;
        lost_below(info, fat, marks, n - 1) + if is_allocated(info, fat, c) && !marks[c as int] {
            seq![c]
        } else {
            Seq::empty()
        }
    }
}

proof fn lemma_free_below_bound(info: VolumeInfo, fat: Seq<u8>, n: int)
    ensures
        free_below(info, fat, n) <= if n <= 2 {
            0
        } else {
            n - 2
        },
    decreases n,
{
    if n > 2 {
        lemma_free_below_bound(info, fat, n - 1);
    }
}

/// The state a scan starts from: the dirty flags and FSInfo state of the
/// volume, its free clusters counted and the first of them, no cluster
/// marked, nothing lost or orphaned yet.
pub fn begin_scan(info: VolumeInfo, fat: &[u8], fsinfo: Option<FsInfoState>) -> (r: ScanState)
    requires
        info.wf(),
    ensures
        r.dirty_flag_set == spec_dirty_flag_set(info.fat_kind, fat@),
        r.fsinfo == fsinfo,
        r.actual_free_clusters == free_below(info, fat@, info.spec_max_cluster() + 1),
        match r.first_free_cluster {
            Some(c) => info.spec_is_valid_cluster(c) && is_free(info, fat@, c) && forall|d: u32|
                2 <= d < c ==> !is_free(info, fat@, d),
            None => forall|d: u32| #[trigger]
                info.spec_is_valid_cluster(d) ==> !is_free(info, fat@, d),
        },
        r.fits(info),
        forall|k: int| 0 <= k < r.reachable_clusters@.len() ==> !r.reachable_clusters@[k],
        marks_closed(info, fat@, r.reachable_clusters@),
        r.lost_clusters@.len() == 0,
        r.orphaned_lfn_offsets@.len() == 0,
{
    let max = info.max_cluster();
    let mut free_count: u32 = 0;
    let mut first_free: Option<u32> = None;
    let mut c: u64 = 2;
    while c <= max as u64
        invariant
            info.wf(),
            max == info.spec_max_cluster(),
            2 <= c <= max as u64 + 1,
            free_count == free_below(info, fat@, c as int),
            match first_free {
                Some(f) => info.spec_is_valid_cluster(f) && f < c && is_free(info, fat@, f)
                    && forall|d: u32| 2 <= d < f ==> !is_free(info, fat@, d),
                None => forall|d: u32| 2 <= d < c ==> !is_free(info, fat@, d),
            },
        decreases max as u64 + 1 - c,
    {
        let cl = c as u32;
        proof {
            lemma_free_below_bound(info, fat@, c as int);
        }
        let link = classify_cluster(info.fat_kind, fat_entry(fat, info.fat_kind, cl), max);
        if link == ClusterState::Free {
            free_count = free_count + 1;
            if first_free.is_none() {
                first_free = Some(cl);
            }
        }
        c = c + 1;
    }
    let mut reachable: Vec<bool> = Vec::new();
    let mut k: u64 = 0;
    while k <= max as u64
        invariant
            k <= max as u64 + 1,
            reachable@.len() == k,
            forall|j: int| 0 <= j < reachable@.len() ==> !reachable@[j],
        decreases max as u64 + 1 - k,
    {
        reachable.push(false);
        k = k + 1;
    }
    ScanState {
        dirty_flag_set: dirty_flag_set(info, fat),
        fsinfo,
        actual_free_clusters: free_count,
        first_free_cluster: first_free,
        reachable_clusters: reachable,
        lost_clusters: Vec::new(),
        orphaned_lfn_offsets: Vec::new(),
    }
}

/// Records every allocated data cluster that no directory entry reaches.
pub fn find_lost_clusters(scan: &mut ScanState, info: VolumeInfo, fat: &[u8])
    requires
        info.wf(),
        old(scan).fits(info),
    ensures
        final(scan).lost_clusters@ == old(scan).lost_clusters@ + lost_below(
            info,
            fat@,
            old(scan).reachable_clusters@,
            info.spec_max_cluster() + 1,
        ),
        final(scan).reachable_clusters@ == old(scan).reachable_clusters@,
        final(scan).dirty_flag_set == old(scan).dirty_flag_set,
        final(scan).fsinfo == old(scan).fsinfo,
        final(scan).actual_free_clusters == old(scan).actual_free_clusters,
        final(scan).first_free_cluster == old(scan).first_free_cluster,
        final(scan).orphaned_lfn_offsets@ == old(scan).orphaned_lfn_offsets@,
{
    let max = info.max_cluster();
    let ghost lost0 = scan.lost_clusters@;
    let mut c: u64 = 2;
    while c <= max as u64
        invariant
            info.wf(),
            max == info.spec_max_cluster(),
            2 <= c <= max as u64 + 1,
            scan.fits(info),
            lost0 == old(scan).lost_clusters@,
            scan.lost_clusters@ == lost0 + lost_below(info, fat@, scan.reachable_clusters@, c as int),
            scan.reachable_clusters@ == old(scan).reachable_clusters@,
            scan.dirty_flag_set == old(scan).dirty_flag_set,
            scan.fsinfo == old(scan).fsinfo,
            scan.actual_free_clusters == old(scan).actual_free_clusters,
            scan.first_free_cluster == old(scan).first_free_cluster,
            scan.orphaned_lfn_offsets@ == old(scan).orphaned_lfn_offsets@,
        decreases max as u64 + 1 - c,
    {
        let cl = c as u32;
        let link = classify_cluster(info.fat_kind, fat_entry(fat, info.fat_kind, cl), max);
        let allocated = match link {
            ClusterState::Next(_) => true,
            ClusterState::Eof => true,
            _ => false,
        };
        if allocated && !scan.reachable_clusters[cl as usize] {
            scan.lost_clusters.push(cl);
            proof {
                assert(scan.lost_clusters@ =~= lost0 + lost_below(
                    info,
                    fat@,
                    scan.reachable_clusters@,
                    c + 1,
                ));
            }
        } else {
            proof {
                assert(lost_below(info, fat@, scan.reachable_clusters@, c + 1) =~= lost_below(
                    info,
                    fat@,
                    scan.reachable_clusters@,
                    c as int,
                ));
            }
        }
        c = c + 1;
    }
}

// ---- The order in which directories are scanned ----

/// The directories still to scan, depth first in the order their entries
/// list them, and the directories already taken up.
pub struct DirectoryWalk {
    visited: HashSet<u32>,
    stack: Vec<u32>,
}

impl DirectoryWalk {
    pub closed spec fn visited_set(&self) -> Set<u32> {
        self.visited@
    }

    /// The directories waiting, the next one last.
    pub closed spec fn waiting(&self) -> Seq<u32> {
        self.stack@
    }

    pub fn new() -> (r: Self)
        ensures
            r.visited_set() == Set::<u32>::empty(),
            r.waiting().len() == 0,
    {
        DirectoryWalk { visited: HashSet::new(), stack: Vec::new() }
    }

    /// Counts a directory as taken up without waiting for it.
    pub fn visit(&mut self, cluster: u32)
        ensures
            final(self).visited_set() == old(self).visited_set().insert(cluster),
            final(self).waiting() == old(self).waiting(),
    {
        self.visited.insert(cluster);
    }

    /// Queues the subdirectories a directory lists, to be taken up in
    /// their order before the directories queued earlier.
    pub fn push_subdirs(&mut self, subdirs: &Vec<u32>)
        ensures
            final(self).waiting() == old(self).waiting() + subdirs@.reverse(),
            final(self).visited_set() == old(self).visited_set(),
    {
        let ghost start = self.stack@;
        let mut i = subdirs.len();
        while i > 0
            invariant
                i <= subdirs@.len(),
                self.stack@ == start + subdirs@.subrange(i as int, subdirs@.len() as int).reverse(),
                self.visited@ == old(self).visited@,
            decreases i,
        {
            i = i - 1;
            proof {
                assert(subdirs@.subrange(i as int, subdirs@.len() as int).reverse() =~= subdirs@.subrange(
                    i + 1,
                    subdirs@.len() as int,
                ).reverse().push(subdirs@[i as int]));
            }
            self.stack.push(subdirs[i]);
        }
        proof {
            assert(subdirs@.subrange(0, subdirs@.len() as int) =~= subdirs@);
        }
    }

    /// The next directory to scan: the last one queued that was not taken
    /// up before, which is taken up now; those queued after it are dropped.
    pub fn next_dir(&mut self) -> (r: Option<u32>)
        ensures
            match r {
                Some(c) => {
                    let j = final(self).waiting().len() as int;
                    &&& j < old(self).waiting().len()
                    &&& final(self).waiting() == old(self).waiting().subrange(0, j)
                    &&& old(self).waiting()[j] == c
                    &&& !old(self).visited_set().contains(c)
                    &&& forall|k: int|
                        j < k < old(self).waiting().len() ==> old(self).visited_set().contains(
                            #[trigger] old(self).waiting()[k],
                        )
                    &&& final(self).visited_set() == old(self).visited_set().insert(c)
                },
                None => {
                    &&& final(self).waiting().len() == 0
                    &&& forall|k: int|
                        0 <= k < old(self).waiting().len() ==> old(self).visited_set().contains(
                            #[trigger] old(self).waiting()[k],
                        )
                    &&& final(self).visited_set() == old(self).visited_set()
                },
            },
    {
        let ghost s0 = self.stack@;
        let ghost v0 = self.visited@;
        while self.stack.len() > 0
            invariant
                s0 == old(self).stack@,
                v0 == old(self).visited@,
                self.visited@ == v0,
                self.stack@.len() <= s0.len(),
                self.stack@ == s0.subrange(0, self.stack@.len() as int),
                forall|k: int| self.stack@.len() <= k < s0.len() ==> v0.contains(#[trigger] s0[k]),
            decreases self.stack@.len(),
        {
            let c = self.stack.pop().unwrap();
            if self.visited.insert(c) {
                proof {
                    assert(self.stack@ =~= s0.subrange(0, self.stack@.len() as int));
                }
                return Some(c);
            }
            proof {
                assert(self.stack@ =~= s0.subrange(0, self.stack@.len() as int));
            }
        }
        None
    }
}

} // verus!
