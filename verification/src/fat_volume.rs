//! The FAT boot sector: its fields, the checks a volume's BIOS parameter
//! block must pass, and the layout of the volume that follows from it.

use vstd::prelude::*;
use vstd::string::StringExecFns;
use crate::bytes::{le16, le32, u16_from_le, u32_from_le};
use crate::fat::FatKind;
use crate::fat_report::CheckResult;
use crate::text::{decimal, hex2, numbered, push_hex2};

verus! {

/// The layout of a FAT volume, as its boot sector gives it.
#[derive(Clone, Copy)]
pub struct VolumeInfo {
    pub fat_kind: FatKind,
    pub bytes_per_sector: u32,
    pub sectors_per_cluster: u32,
    pub reserved_sectors: u32,
    pub num_fats: u32,
    pub root_entry_count: u32,
    pub fat_size_sectors: u32,
    pub total_sectors: u64,
    pub root_dir_sectors: u32,
    pub first_fat_sector: u32,
    pub first_root_dir_sector: u32,
    pub first_data_sector: u32,
    pub total_clusters: u32,
    pub root_cluster: u32,
    pub fsinfo_sector: Option<u32>,
}

impl VolumeInfo {
    /// What every volume that passed the boot-sector checks satisfies: a
    /// sector size of 512 to 4096 bytes, a nonzero cluster size of at most
    /// 255 sectors, and a data area of `total_clusters` whole clusters
    /// inside the volume's 32-bit sector count, after the reserved sectors.
    pub open spec fn wf(self) -> bool {
        &&& valid_bytes_per_sector(self.bytes_per_sector)
        &&& 1 <= self.sectors_per_cluster <= 255
        &&& self.total_sectors <= u32::MAX
        &&& self.reserved_sectors >= 1
        &&& self.first_data_sector >= self.reserved_sectors
        &&& self.first_data_sector + self.total_clusters * self.sectors_per_cluster
            <= self.total_sectors
        &&& self.total_clusters < u32::MAX
    }

    pub open spec fn spec_max_cluster(self) -> int {
        self.total_clusters + 1
    }

    pub open spec fn spec_is_valid_cluster(self, cluster: u32) -> bool {
        2 <= cluster <= self.spec_max_cluster()
    }

    /// Bytes in a cluster.
    pub fn cluster_size(self) -> (r: usize)
        requires
            self.wf(),
        ensures
            r == self.bytes_per_sector * self.sectors_per_cluster,
    {
        proof {
            lemma_cluster_bytes_bound(self.bytes_per_sector, self.sectors_per_cluster);
        }
        (self.bytes_per_sector * self.sectors_per_cluster) as usize
    }

    /// The highest cluster number of the data area.
    pub fn max_cluster(self) -> (r: u32)
        requires
            self.wf(),
        ensures
            r == self.spec_max_cluster(),
    {
        proof {
            lemma_total_clusters_bound(self);
        }
        self.total_clusters + 1
    }

    /// A cluster number of the data area, 2 to `max_cluster`.
    pub fn is_valid_cluster(self, cluster: u32) -> (r: bool)
        requires
            self.wf(),
        ensures
            r == self.spec_is_valid_cluster(cluster),
    {
        2 <= cluster && cluster <= self.max_cluster()
    }

    /// Byte offset of a sector.
    pub fn sector_offset(self, sector: u32) -> (r: u64)
        requires
            self.wf(),
        ensures
            r == sector * self.bytes_per_sector,
    {
        proof {
            lemma_sector_bytes_bound(sector, self.bytes_per_sector);
        }
        sector as u64 * self.bytes_per_sector as u64
    }

    /// Byte offset of a cluster of the data area.
    pub fn cluster_offset(self, cluster: u32) -> (r: u64)
        requires
            self.wf(),
            self.spec_is_valid_cluster(cluster),
        ensures
            r == (self.first_data_sector + (cluster - 2) * self.sectors_per_cluster)
                * self.bytes_per_sector,
    {
        proof {
            lemma_cluster_sector_bound(self, cluster);
        }
        let first_sector = self.first_data_sector + (cluster - 2) * self.sectors_per_cluster;
        self.sector_offset(first_sector)
    }
}

proof fn lemma_cluster_bytes_bound(bps: u32, spc: u32)
    requires
        bps <= 4096,
        spc <= 255,
    ensures
        bps * spc <= 4096 * 255,
{
    assert(bps * spc <= 4096 * 255) by (nonlinear_arith)
        requires
            bps <= 4096,
            spc <= 255,
    ;
}

proof fn lemma_sector_bytes_bound(sector: u32, bps: u32)
    requires
        bps <= 4096,
    ensures
        sector * bps <= u64::MAX,
{
    assert(sector * bps <= 0xFFFF_FFFFu64 * 4096) by (nonlinear_arith)
        requires
            bps <= 4096,
            sector <= 0xFFFF_FFFFu64,
    ;
}

proof fn lemma_total_clusters_bound(v: VolumeInfo)
    requires
        v.wf(),
    ensures
        v.total_clusters < u32::MAX,
{
    assert(v.total_clusters * v.sectors_per_cluster >= v.total_clusters) by (nonlinear_arith)
        requires
            v.sectors_per_cluster >= 1,
    ;
}

proof fn lemma_cluster_sector_bound(v: VolumeInfo, cluster: u32)
    requires
        v.wf(),
        v.spec_is_valid_cluster(cluster),
    ensures
        v.first_data_sector + (cluster - 2) * v.sectors_per_cluster < u32::MAX,
        (cluster - 2) * v.sectors_per_cluster <= u32::MAX,
{
    let c = cluster - 2;
    assert(c * v.sectors_per_cluster + v.sectors_per_cluster <= v.total_clusters
        * v.sectors_per_cluster) by (nonlinear_arith)
        requires
            0 <= c,
            c + 1 <= v.total_clusters,
            v.sectors_per_cluster >= 1,
    ;
}

// ---- The boot sector's fields ----

pub open spec fn valid_bytes_per_sector(bps: u32) -> bool {
    bps == 512 || bps == 1024 || bps == 2048 || bps == 4096
}

pub open spec fn bs_signature_ok(bs: Seq<u8>) -> bool {
    bs[510] == 0x55 && bs[511] == 0xAA
}

pub open spec fn bs_bytes_per_sector(bs: Seq<u8>) -> u32 {
    le16(bs[11], bs[12]) as u32
}

pub open spec fn bs_sectors_per_cluster(bs: Seq<u8>) -> u32 {
    bs[13] as u32
}

pub open spec fn bs_reserved_sectors(bs: Seq<u8>) -> u32 {
    le16(bs[14], bs[15]) as u32
}

pub open spec fn bs_num_fats(bs: Seq<u8>) -> u32 {
    bs[16] as u32
}

pub open spec fn bs_root_entry_count(bs: Seq<u8>) -> u32 {
    le16(bs[17], bs[18]) as u32
}

pub open spec fn bs_fat_size_32(bs: Seq<u8>) -> u32 {
    le32(bs[36], bs[37], bs[38], bs[39])
}

/// The sector count: the 32-bit field where it is nonzero, else the
/// 16-bit one.
pub open spec fn bs_total_sectors(bs: Seq<u8>) -> u64 {
    let t32 = le32(bs[32], bs[33], bs[34], bs[35]);
    if t32 != 0 {
        t32 as u64
    } else {
        le16(bs[19], bs[20]) as u64
    }
}

/// A FAT32 boot sector: a 32-bit FAT size and no fixed root directory.
pub open spec fn bs_is_fat32(bs: Seq<u8>) -> bool {
    bs_fat_size_32(bs) != 0 && bs_root_entry_count(bs) == 0
}

/// Sectors per FAT: the 32-bit field on FAT32, else the 16-bit one.
pub open spec fn bs_fat_size(bs: Seq<u8>) -> u32 {
    if bs_is_fat32(bs) {
        bs_fat_size_32(bs)
    } else {
        le16(bs[22], bs[23]) as u32
    }
}

/// Sectors of the fixed root directory, 32 bytes an entry, rounded up.
pub open spec fn bs_root_dir_sectors(bs: Seq<u8>) -> int {
    (bs_root_entry_count(bs) * 32 + bs_bytes_per_sector(bs) - 1) / (bs_bytes_per_sector(bs) as int)
}

/// Sectors before the data area: reserved, FATs, fixed root directory.
pub open spec fn bs_layout_sectors(bs: Seq<u8>) -> int {
    bs_reserved_sectors(bs) + bs_num_fats(bs) * bs_fat_size(bs) + bs_root_dir_sectors(bs)
}

pub open spec fn sectors_per_cluster_ok(spc: u32) -> bool {
    spc != 0 && spc & ((spc - 1) as u32) == 0
}

/// Which check a boot sector fails first, if any.
#[derive(Clone, Copy, Debug, PartialEq, Eq, Structural)]
pub enum BpbStatus {
    BadBytesPerSector,
    BadSectorsPerCluster,
    NoReservedSectors,
    NoFats,
    NoSectors,
    NoFatSize,
    NoDataArea,
    Valid,
}

/// The fields the checks read before the layout is computed all pass.
pub open spec fn bs_reaches_layout(bs: Seq<u8>) -> bool {
    &&& valid_bytes_per_sector(bs_bytes_per_sector(bs))
    &&& sectors_per_cluster_ok(bs_sectors_per_cluster(bs))
    &&& bs_reserved_sectors(bs) != 0
    &&& bs_num_fats(bs) != 0
    &&& bs_total_sectors(bs) != 0
    &&& bs_fat_size(bs) != 0
}

/// Where the layout is computed, its sector count fits 32 bits.
pub open spec fn bs_layout_fits(bs: Seq<u8>) -> bool {
    bs_reaches_layout(bs) ==> bs_layout_sectors(bs) <= u32::MAX
}

pub open spec fn bpb_status(bs: Seq<u8>) -> BpbStatus {
    if !valid_bytes_per_sector(bs_bytes_per_sector(bs)) {
        BpbStatus::BadBytesPerSector
    } else if !sectors_per_cluster_ok(bs_sectors_per_cluster(bs)) {
        BpbStatus::BadSectorsPerCluster
    } else if bs_reserved_sectors(bs) == 0 {
        BpbStatus::NoReservedSectors
    } else if bs_num_fats(bs) == 0 {
        BpbStatus::NoFats
    } else if bs_total_sectors(bs) == 0 {
        BpbStatus::NoSectors
    } else if bs_fat_size(bs) == 0 {
        BpbStatus::NoFatSize
    } else if bs_total_sectors(bs) <= bs_layout_sectors(bs) {
        BpbStatus::NoDataArea
    } else {
        BpbStatus::Valid
    }
}

/// Clusters of the data area.
pub open spec fn bs_total_clusters(bs: Seq<u8>) -> int {
    (bs_total_sectors(bs) - bs_layout_sectors(bs)) / (bs_sectors_per_cluster(bs) as int)
}

/// FAT32 by the boot sector's fields, else FAT12 below 4085 clusters, else
/// FAT16.
pub open spec fn bs_fat_kind(bs: Seq<u8>) -> FatKind {
    if bs_is_fat32(bs) {
        FatKind::Fat32
    } else if bs_total_clusters(bs) < 4085 {
        FatKind::Fat12
    } else {
        FatKind::Fat16
    }
}

/// The volume a valid boot sector describes.
pub open spec fn bs_volume(bs: Seq<u8>) -> VolumeInfo {
    let kind = bs_fat_kind(bs);
    let first_root = bs_reserved_sectors(bs) + bs_num_fats(bs) * bs_fat_size(bs);
    VolumeInfo {
        fat_kind: kind,
        bytes_per_sector: bs_bytes_per_sector(bs),
        sectors_per_cluster: bs_sectors_per_cluster(bs),
        reserved_sectors: bs_reserved_sectors(bs),
        num_fats: bs_num_fats(bs),
        root_entry_count: bs_root_entry_count(bs),
        fat_size_sectors: bs_fat_size(bs),
        total_sectors: bs_total_sectors(bs),
        root_dir_sectors: bs_root_dir_sectors(bs) as u32,
        first_fat_sector: bs_reserved_sectors(bs),
        first_root_dir_sector: first_root as u32,
        first_data_sector: (first_root + bs_root_dir_sectors(bs)) as u32,
        total_clusters: bs_total_clusters(bs) as u32,
        root_cluster: if kind == FatKind::Fat32 {
            le32(bs[44], bs[45], bs[46], bs[47])
        } else {
            0
        },
        fsinfo_sector: if kind == FatKind::Fat32 {
            Some(le16(bs[48], bs[49]) as u32)
        } else {
            None
        },
    }
}

pub open spec fn bpb_result(bs: Seq<u8>) -> Option<VolumeInfo> {
    if bpb_status(bs) == BpbStatus::Valid {
        Some(bs_volume(bs))
    } else {
        None
    }
}

/// The error that ends the checks, if one does.
pub open spec fn status_errors(bs: Seq<u8>) -> Seq<Seq<char>> {
    match bpb_status(bs) {
        BpbStatus::BadBytesPerSector => seq![
            "invalid bytes per sector: "@ + decimal(bs_bytes_per_sector(bs) as nat),
        ],
        BpbStatus::BadSectorsPerCluster => seq![
            "invalid sectors per cluster: "@ + decimal(bs_sectors_per_cluster(bs) as nat)
                + " (must be power of 2)"@,
        ],
        BpbStatus::NoReservedSectors => seq!["reserved sector count is 0"@],
        BpbStatus::NoFats => seq!["number of FATs is 0"@],
        BpbStatus::NoSectors => seq!["total sector count is 0"@],
        BpbStatus::NoFatSize => seq!["FAT size is 0 sectors"@],
        BpbStatus::NoDataArea => seq!["filesystem layout leaves no data area"@],
        BpbStatus::Valid => Seq::empty(),
    }
}

/// The errors the checks record: a bad signature, which does not stop them,
/// then the error that ends them.
pub open spec fn bpb_errors(bs: Seq<u8>) -> Seq<Seq<char>> {
    let sig: Seq<Seq<char>> = if bs_signature_ok(bs) {
        Seq::empty()
    } else {
        seq![
            "invalid boot sector signature: "@ + hex2(bs[510]) + " "@ + hex2(bs[511])
                + " (expected 55 AA)"@,
        ]
    };
    sig + status_errors(bs)
}

/// The information messages the checks record, as far as they get.
pub open spec fn bpb_infos(bs: Seq<u8>) -> Seq<Seq<char>> {
    let i1 = seq!["bytes per sector: "@ + decimal(bs_bytes_per_sector(bs) as nat)];
    let i2 = seq!["sectors per cluster: "@ + decimal(bs_sectors_per_cluster(bs) as nat)];
    let i3 = seq!["number of FATs: "@ + decimal(bs_num_fats(bs) as nat)];
    let i4 = seq!["total sectors: "@ + decimal(bs_total_sectors(bs) as nat)];
    let size = "FAT size: "@ + decimal(bs_fat_size(bs) as nat) + " sectors"@;
    match bpb_status(bs) {
        BpbStatus::BadBytesPerSector => Seq::empty(),
        BpbStatus::BadSectorsPerCluster => i1,
        BpbStatus::NoReservedSectors => i1 + i2,
        BpbStatus::NoFats => i1 + i2,
        BpbStatus::NoSectors => i1 + i2 + i3,
        BpbStatus::NoFatSize => i1 + i2 + i3 + i4,
        BpbStatus::NoDataArea => i1 + i2 + i3 + i4,
        BpbStatus::Valid => i1 + i2 + i3 + i4 + match bs_fat_kind(bs) {
            FatKind::Fat32 => seq!["filesystem type: FAT32"@, size],
            FatKind::Fat16 => seq!["filesystem type: FAT16"@, size],
            FatKind::Fat12 => seq!["filesystem type: FAT12"@],
        },
    }
}

/// Whether the layout of a boot sector whose earlier fields pass the checks
/// fits 32 bits, as `check_bpb` needs.
pub fn bpb_layout_fits(boot_sector: &[u8; 512]) -> (r: bool)
    ensures
        r == bs_layout_fits(boot_sector@),
{
    let bs = boot_sector;
    let bytes_per_sector = u16_from_le(bs[11], bs[12]) as u32;
    let sectors_per_cluster = bs[13] as u32;
    let reserved_sectors = u16_from_le(bs[14], bs[15]) as u32;
    let num_fats = bs[16] as u32;
    let root_entry_count = u16_from_le(bs[17], bs[18]) as u32;
    let total_sectors_16 = u16_from_le(bs[19], bs[20]) as u64;
    let fat_size_16 = u16_from_le(bs[22], bs[23]) as u32;
    let total_sectors_32 = u32_from_le(bs[32], bs[33], bs[34], bs[35]) as u64;
    let fat_size_32 = u32_from_le(bs[36], bs[37], bs[38], bs[39]);
    let total_sectors = if total_sectors_32 != 0 {
        total_sectors_32
    } else {
        total_sectors_16
    };
    let fat_size = if fat_size_32 != 0 && root_entry_count == 0 {
        fat_size_32
    } else {
        fat_size_16
    };
    let reaches = (bytes_per_sector == 512 || bytes_per_sector == 1024 || bytes_per_sector == 2048
        || bytes_per_sector == 4096) && sectors_per_cluster != 0 && (sectors_per_cluster & (
    sectors_per_cluster - 1)) == 0 && reserved_sectors != 0 && num_fats != 0 && total_sectors != 0
        && fat_size != 0;
    if !reaches {
        return true;
    }
    let root_dir_sectors = (root_entry_count * 32 + bytes_per_sector - 1) / bytes_per_sector;
    proof {
        lemma_fat_area_bound(num_fats, fat_size);
    }
    let layout = reserved_sectors as u64 + num_fats as u64 * fat_size as u64
        + root_dir_sectors as u64;
    layout <= 0xFFFF_FFFF
}

proof fn lemma_fat_area_bound(num_fats: u32, fat_size: u32)
    requires
        num_fats <= 255,
    ensures
        num_fats * fat_size <= 255 * 0xFFFF_FFFFu64,
{
    assert(num_fats * fat_size <= 255 * 0xFFFF_FFFFu64) by (nonlinear_arith)
        requires
            num_fats <= 255,
            fat_size <= 0xFFFF_FFFFu64,
    ;
}

proof fn lemma_clusters_fit(data: u32, spc: u32)
    requires
        spc >= 1,
    ensures
        (data / spc) * spc <= data,
        data / spc <= data,
{
    assert((data / spc) * spc <= data) by (nonlinear_arith)
        requires
            spc >= 1,
    ;
    assert(data / spc <= data) by (nonlinear_arith)
        requires
            spc >= 1,
    ;
}

/// The check a boot sector fails first, if any.
fn bpb_check_status(bs: &[u8; 512]) -> (r: BpbStatus)
    requires
        bs_layout_fits(bs@),
    ensures
        r == bpb_status(bs@),
{
    let bytes_per_sector = u16_from_le(bs[11], bs[12]) as u32;
    if !(bytes_per_sector == 512 || bytes_per_sector == 1024 || bytes_per_sector == 2048
        || bytes_per_sector == 4096) {
        return BpbStatus::BadBytesPerSector;
    }
    let sectors_per_cluster = bs[13] as u32;
    if sectors_per_cluster == 0 || (sectors_per_cluster & (sectors_per_cluster - 1)) != 0 {
        return BpbStatus::BadSectorsPerCluster;
    }
    let reserved_sectors = u16_from_le(bs[14], bs[15]) as u32;
    if reserved_sectors == 0 {
        return BpbStatus::NoReservedSectors;
    }
    let num_fats = bs[16] as u32;
    if num_fats == 0 {
        return BpbStatus::NoFats;
    }
    let total_sectors = total_sectors_of(bs);
    if total_sectors == 0 {
        return BpbStatus::NoSectors;
    }
    let fat_size_sectors = fat_size_of(bs);
    if fat_size_sectors == 0 {
        return BpbStatus::NoFatSize;
    }
    let layout_sectors = layout_sectors_of(bs);
    if (total_sectors as u32) <= layout_sectors {
        return BpbStatus::NoDataArea;
    }
    BpbStatus::Valid
}

fn total_sectors_of(bs: &[u8; 512]) -> (r: u64)
    ensures
        r == bs_total_sectors(bs@),
{
    let total_sectors_32 = u32_from_le(bs[32], bs[33], bs[34], bs[35]) as u64;
    if total_sectors_32 != 0 {
        total_sectors_32
    } else {
        u16_from_le(bs[19], bs[20]) as u64
    }
}

fn fat_size_of(bs: &[u8; 512]) -> (r: u32)
    ensures
        r == bs_fat_size(bs@),
{
    let root_entry_count = u16_from_le(bs[17], bs[18]) as u32;
    let fat_size_32 = u32_from_le(bs[36], bs[37], bs[38], bs[39]);
    if fat_size_32 != 0 && root_entry_count == 0 {
        fat_size_32
    } else {
        u16_from_le(bs[22], bs[23]) as u32
    }
}

fn root_dir_sectors_of(bs: &[u8; 512]) -> (r: u32)
    requires
        valid_bytes_per_sector(bs_bytes_per_sector(bs@)),
    ensures
        r == bs_root_dir_sectors(bs@),
{
    let bytes_per_sector = u16_from_le(bs[11], bs[12]) as u32;
    let root_entry_count = u16_from_le(bs[17], bs[18]) as u32;
    (root_entry_count * 32 + bytes_per_sector - 1) / bytes_per_sector
}

/// Sectors before the data area, for a boot sector whose earlier fields
/// pass the checks.
fn layout_sectors_of(bs: &[u8; 512]) -> (r: u32)
    requires
        bs_reaches_layout(bs@),
        bs_layout_fits(bs@),
    ensures
        r == bs_layout_sectors(bs@),
{
    let reserved_sectors = u16_from_le(bs[14], bs[15]) as u32;
    let num_fats = bs[16] as u32;
    let fat_size_sectors = fat_size_of(bs);
    let root_dir_sectors = root_dir_sectors_of(bs);
    proof {
        lemma_fat_area_bound(num_fats, fat_size_sectors);
    }
    reserved_sectors + num_fats * fat_size_sectors + root_dir_sectors
}

/// The volume a boot sector that passes every check describes.
fn volume_of(bs: &[u8; 512]) -> (r: VolumeInfo)
    requires
        bs_layout_fits(bs@),
        bpb_status(bs@) == BpbStatus::Valid,
    ensures
        r == bs_volume(bs@),
        r.wf(),
{
    let bytes_per_sector = u16_from_le(bs[11], bs[12]) as u32;
    let sectors_per_cluster = bs[13] as u32;
    let reserved_sectors = u16_from_le(bs[14], bs[15]) as u32;
    let num_fats = bs[16] as u32;
    let root_entry_count = u16_from_le(bs[17], bs[18]) as u32;
    let fat_size_32 = u32_from_le(bs[36], bs[37], bs[38], bs[39]);
    let is_fat32 = fat_size_32 != 0 && root_entry_count == 0;
    let total_sectors = total_sectors_of(bs);
    let fat_size_sectors = fat_size_of(bs);
    let root_dir_sectors = root_dir_sectors_of(bs);
    proof {
        lemma_fat_area_bound(num_fats, fat_size_sectors);
    }
    let first_root_dir_sector = reserved_sectors + num_fats * fat_size_sectors;
    let first_data_sector = first_root_dir_sector + root_dir_sectors;
    let data_sectors = total_sectors as u32 - first_data_sector;
    let total_clusters = data_sectors / sectors_per_cluster;
    proof {
        lemma_clusters_fit(data_sectors, sectors_per_cluster);
    }
    let fat_kind = if is_fat32 {
        FatKind::Fat32
    } else if total_clusters < 4085 {
        FatKind::Fat12
    } else {
        FatKind::Fat16
    };
    let root_cluster = if is_fat32 {
        u32_from_le(bs[44], bs[45], bs[46], bs[47])
    } else {
        0
    };
    let fsinfo_sector = if is_fat32 {
        Some(u16_from_le(bs[48], bs[49]) as u32)
    } else {
        None
    };
    VolumeInfo {
        fat_kind,
        bytes_per_sector,
        sectors_per_cluster,
        reserved_sectors,
        num_fats,
        root_entry_count,
        fat_size_sectors,
        total_sectors,
        root_dir_sectors,
        first_fat_sector: reserved_sectors,
        first_root_dir_sector,
        first_data_sector,
        total_clusters,
        root_cluster,
        fsinfo_sector,
    }
}

/// Records the information messages of the checks a boot sector gets
/// through, and the error that stops them.
fn record_status(result: &mut CheckResult, bs: &[u8; 512], status: BpbStatus)
    requires
        bs_layout_fits(bs@),
        status == bpb_status(bs@),
    ensures
        final(result).error_texts() == old(result).error_texts() + status_errors(bs@),
        final(result).info_texts() == old(result).info_texts() + bpb_infos(bs@),
        final(result).warnings@ == old(result).warnings@,
{
    let ghost e0 = result.error_texts();
    let ghost i0 = result.info_texts();
    proof {
        reveal_strlit("");
    }
    let bytes_per_sector = u16_from_le(bs[11], bs[12]) as u32;
    if status == BpbStatus::BadBytesPerSector {
        result.error(numbered("invalid bytes per sector: ", bytes_per_sector as u64, ""));
        proof {
            assert(result.error_texts() =~= e0 + status_errors(bs@));
            assert(result.info_texts() =~= i0 + bpb_infos(bs@));
        }
        return ;
    }
    result.info(numbered("bytes per sector: ", bytes_per_sector as u64, ""));
    let sectors_per_cluster = bs[13] as u32;
    if status == BpbStatus::BadSectorsPerCluster {
        result.error(
            numbered(
                "invalid sectors per cluster: ",
                sectors_per_cluster as u64,
                " (must be power of 2)",
            ),
        );
        proof {
            assert(result.error_texts() =~= e0 + status_errors(bs@));
            assert(result.info_texts() =~= i0 + bpb_infos(bs@));
        }
        return ;
    }
    result.info(numbered("sectors per cluster: ", sectors_per_cluster as u64, ""));
    if status == BpbStatus::NoReservedSectors {
        result.error(String::from_str("reserved sector count is 0"));
        proof {
            assert(result.error_texts() =~= e0 + status_errors(bs@));
            assert(result.info_texts() =~= i0 + bpb_infos(bs@));
        }
        return ;
    }
    if status == BpbStatus::NoFats {
        result.error(String::from_str("number of FATs is 0"));
        proof {
            assert(result.error_texts() =~= e0 + status_errors(bs@));
            assert(result.info_texts() =~= i0 + bpb_infos(bs@));
        }
        return ;
    }
    let num_fats = bs[16] as u32;
    result.info(numbered("number of FATs: ", num_fats as u64, ""));
    if status == BpbStatus::NoSectors {
        result.error(String::from_str("total sector count is 0"));
        proof {
            assert(result.error_texts() =~= e0 + status_errors(bs@));
            assert(result.info_texts() =~= i0 + bpb_infos(bs@));
        }
        return ;
    }
    let total_sectors = total_sectors_of(bs);
    result.info(numbered("total sectors: ", total_sectors, ""));
    if status == BpbStatus::NoFatSize {
        result.error(String::from_str("FAT size is 0 sectors"));
        proof {
            assert(result.error_texts() =~= e0 + status_errors(bs@));
            assert(result.info_texts() =~= i0 + bpb_infos(bs@));
        }
        return ;
    }
    if status == BpbStatus::NoDataArea {
        result.error(String::from_str("filesystem layout leaves no data area"));
        proof {
            assert(result.error_texts() =~= e0 + status_errors(bs@));
            assert(result.info_texts() =~= i0 + bpb_infos(bs@));
        }
        return ;
    }
    let fat_size_sectors = fat_size_of(bs);
    let kind = volume_of(bs).fat_kind;
    match kind {
        FatKind::Fat32 => {
            result.info(String::from_str("filesystem type: FAT32"));
            result.info(numbered("FAT size: ", fat_size_sectors as u64, " sectors"));
        },
        FatKind::Fat16 => {
            result.info(String::from_str("filesystem type: FAT16"));
            result.info(numbered("FAT size: ", fat_size_sectors as u64, " sectors"));
        },
        FatKind::Fat12 => {
            result.info(String::from_str("filesystem type: FAT12"));
        },
    }
    proof {
        assert(result.error_texts() =~= e0 + status_errors(bs@));
        assert(result.info_texts() =~= i0 + bpb_infos(bs@));
    }
}

/// Checks the BIOS parameter block of a boot sector, recording what it
/// finds, and gives the volume's layout where the block is valid.
pub fn check_bpb(result: &mut CheckResult, boot_sector: &[u8; 512]) -> (r: Option<VolumeInfo>)
    requires
        bs_layout_fits(boot_sector@),
    ensures
        final(result).error_texts() == old(result).error_texts() + bpb_errors(boot_sector@),
        final(result).info_texts() == old(result).info_texts() + bpb_infos(boot_sector@),
        final(result).warnings@ == old(result).warnings@,
        r == bpb_result(boot_sector@),
        r matches Some(v) ==> v.wf(),
{
    let bs = boot_sector;
    let ghost e0 = result.error_texts();
    if !(bs[510] == 0x55 && bs[511] == 0xAA) {
        let mut msg = String::from_str("invalid boot sector signature: ");
        push_hex2(&mut msg, bs[510]);
        msg.append(" ");
        push_hex2(&mut msg, bs[511]);
        msg.append(" (expected 55 AA)");
        result.error(msg);
    }
    let ghost e1 = result.error_texts();
    let status = bpb_check_status(bs);
    record_status(result, bs, status);
    proof {
        assert(result.error_texts() =~= e0 + bpb_errors(bs@));
    }
    if status == BpbStatus::Valid {
        Some(volume_of(bs))
    } else {
        None
    }
}

} // verus!
