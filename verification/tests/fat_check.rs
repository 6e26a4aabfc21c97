use redbear_drivers::fat::{classify_cluster, fat_entry, set_fat_entry, ClusterState, FatKind};
use redbear_drivers::fat_args::{parse_check_args, CheckArgsError};
use redbear_drivers::fat_repair::{
    check_dirty_flags, check_fsinfo, check_lost_clusters, check_orphaned_lfns, patch_fsinfo,
    plan_fsinfo_repair, repair_dirty_flags, repair_lost_clusters, report_repair_findings,
};
use redbear_drivers::fat_report::{exit_status, CheckResult, RepairStats};
use redbear_drivers::fat_scan::{
    begin_scan, collect_chain_clusters, dirty_flag_set, entry_start_cluster, find_lost_clusters,
    lfn_checksum, lfn_matches_short, mark_chain_reachable, parse_fsinfo, push_directory_entries,
    scan_directory_entries, DirectoryWalk, FsInfoState, PendingLfnEntry, RawDirEntry,
};
use redbear_drivers::fat_volume::{bpb_layout_fits, check_bpb, VolumeInfo};

// Test fat_entry encoding

#[test]
fn test_fat_entry_fat12_even_cluster() {
    // FAT12: cluster 0 at offset 0, word [0..1], masked with 0x0FFF
    // Entry at cluster 0: bytes [0xFF, 0xF0] -> word 0xF0FF -> & 0x0FFF = 0x0FF
    let fat = [0xFF, 0xF0, 0xFF, 0xFF, 0xFF, 0xFF];
    let entry = fat_entry(&fat, FatKind::Fat12, 0);
    assert_eq!(entry, 0x0FF);
}

#[test]
fn test_fat_entry_fat12_odd_cluster() {
    // FAT12: cluster 1 at offset (1*3)/2 = 1 (byte offset), word [1..2]
    // word = 0xFFFF, odd cluster -> entry = word >> 4 = 0x0FFF
    let fat = [0xFF, 0xFF, 0xFF, 0xFF, 0xFF, 0xFF];
    let entry = fat_entry(&fat, FatKind::Fat12, 1);
    assert_eq!(entry, 0x0FFF);
}

#[test]
fn test_fat_entry_fat12_cluster2() {
    // FAT12: cluster 2 at offset (2*3)/2 = 3, word [3..4]
    // word = 0xFFFF, even cluster -> entry = word & 0x0FFF = 0x0FFF
    let fat = [0x00, 0x00, 0x00, 0xFF, 0xFF, 0x00];
    let entry = fat_entry(&fat, FatKind::Fat12, 2);
    assert_eq!(entry, 0x0FFF);
}

#[test]
fn test_fat_entry_fat16_basic() {
    let fat = [0x00, 0x00, 0xFF, 0xFF, 0x00, 0x00, 0x00, 0x00];
    let entry = fat_entry(&fat, FatKind::Fat16, 0);
    assert_eq!(entry, 0x0000);

    let entry1 = fat_entry(&fat, FatKind::Fat16, 1);
    assert_eq!(entry1, 0xFFFF);

    let entry2 = fat_entry(&fat, FatKind::Fat16, 2);
    assert_eq!(entry2, 0x0000);
}

#[test]
fn test_fat_entry_fat32_basic() {
    let fat = [
        0x00, 0x00, 0x00, 0x00, 0xFF, 0xFF, 0xFF, 0xFF, 0x00, 0x00, 0x00, 0x00, 0x00, 0x00, 0x00,
        0x00,
    ];
    let entry = fat_entry(&fat, FatKind::Fat32, 0);
    assert_eq!(entry, 0x0000_0000);

    let entry1 = fat_entry(&fat, FatKind::Fat32, 1);
    assert_eq!(entry1, 0x0FFF_FFFF);
}

// Test set_fat_entry round-trip

#[test]
fn test_set_fat_entry_roundtrip_fat12() {
    let mut fat = [0u8; 6];
    let test_values = [0x001u32, 0x002u32, 0x0FFFu32, 0x0FEFu32];

    for (i, &val) in test_values.iter().enumerate() {
        let cluster = i as u32;
        set_fat_entry(&mut fat, FatKind::Fat12, cluster, val);
        let read = fat_entry(&fat, FatKind::Fat12, cluster);
        assert_eq!(read, val, "FAT12 cluster {} round-trip failed", cluster);
    }
}

#[test]
fn test_set_fat_entry_roundtrip_fat16() {
    let mut fat = [0u8; 8];
    set_fat_entry(&mut fat, FatKind::Fat16, 0, 0x0000);
    assert_eq!(fat_entry(&fat, FatKind::Fat16, 0), 0x0000);

    set_fat_entry(&mut fat, FatKind::Fat16, 1, 0x0001);
    assert_eq!(fat_entry(&fat, FatKind::Fat16, 1), 0x0001);

    set_fat_entry(&mut fat, FatKind::Fat16, 2, 0xFFEF);
    assert_eq!(fat_entry(&fat, FatKind::Fat16, 2), 0xFFEF);

    set_fat_entry(&mut fat, FatKind::Fat16, 3, 0xFFFF);
    assert_eq!(fat_entry(&fat, FatKind::Fat16, 3), 0xFFFF);
}

#[test]
fn test_set_fat_entry_roundtrip_fat32() {
    let mut fat = [0u8; 16];
    set_fat_entry(&mut fat, FatKind::Fat32, 0, 0x0000_0000);
    assert_eq!(fat_entry(&fat, FatKind::Fat32, 0), 0x0000_0000);

    set_fat_entry(&mut fat, FatKind::Fat32, 1, 0x0000_0001);
    assert_eq!(fat_entry(&fat, FatKind::Fat32, 1), 0x0000_0001);

    set_fat_entry(&mut fat, FatKind::Fat32, 2, 0x0FFF_FFEF);
    assert_eq!(fat_entry(&fat, FatKind::Fat32, 2), 0x0FFF_FFEF);

    set_fat_entry(&mut fat, FatKind::Fat32, 3, 0x0FFF_FFFF);
    assert_eq!(fat_entry(&fat, FatKind::Fat32, 3), 0x0FFF_FFFF);
}

// Test classify_cluster

#[test]
fn test_classify_cluster_fat12_free() {
    assert_eq!(classify_cluster(FatKind::Fat12, 0x000, 0x0FEF), ClusterState::Free);
}

#[test]
fn test_classify_cluster_fat12_next() {
    assert_eq!(classify_cluster(FatKind::Fat12, 0x002, 0x0FEF), ClusterState::Next(0x002));
    assert_eq!(classify_cluster(FatKind::Fat12, 0x0FEF, 0x0FEF), ClusterState::Next(0x0FEF));
}

#[test]
fn test_classify_cluster_fat12_bad() {
    assert_eq!(classify_cluster(FatKind::Fat12, 0x0FF7, 0x0FEF), ClusterState::Bad);
}

#[test]
fn test_classify_cluster_fat12_eof() {
    assert_eq!(classify_cluster(FatKind::Fat12, 0x0FF8, 0x0FEF), ClusterState::Eof);
    assert_eq!(classify_cluster(FatKind::Fat12, 0x0FFF, 0x0FEF), ClusterState::Eof);
}

#[test]
fn test_classify_cluster_fat12_reserved() {
    assert_eq!(classify_cluster(FatKind::Fat12, 0x001, 0x0FEF), ClusterState::Reserved);
}

#[test]
fn test_classify_cluster_fat16_free() {
    assert_eq!(classify_cluster(FatKind::Fat16, 0x0000, 0xFFEF), ClusterState::Free);
}

#[test]
fn test_classify_cluster_fat16_next() {
    assert_eq!(classify_cluster(FatKind::Fat16, 0x0002, 0xFFEF), ClusterState::Next(0x0002));
    assert_eq!(classify_cluster(FatKind::Fat16, 0xFFEF, 0xFFEF), ClusterState::Next(0xFFEF));
}

#[test]
fn test_classify_cluster_fat16_bad() {
    assert_eq!(classify_cluster(FatKind::Fat16, 0xFFF7, 0xFFEF), ClusterState::Bad);
}

#[test]
fn test_classify_cluster_fat16_eof() {
    assert_eq!(classify_cluster(FatKind::Fat16, 0xFFF8, 0xFFEF), ClusterState::Eof);
    assert_eq!(classify_cluster(FatKind::Fat16, 0xFFFF, 0xFFEF), ClusterState::Eof);
}

#[test]
fn test_classify_cluster_fat16_reserved() {
    assert_eq!(classify_cluster(FatKind::Fat16, 0x0001, 0xFFEF), ClusterState::Reserved);
    assert_eq!(classify_cluster(FatKind::Fat16, 0xFFF0, 0xFFEF), ClusterState::Reserved);
    assert_eq!(classify_cluster(FatKind::Fat16, 0xFFF6, 0xFFEF), ClusterState::Reserved);
}

#[test]
fn test_classify_cluster_fat16_invalid() {
    // Value > max_cluster
    assert_eq!(classify_cluster(FatKind::Fat16, 0xFFF8, 0xFFEF), ClusterState::Eof);
    assert_eq!(classify_cluster(FatKind::Fat16, 0xFFFF, 0xFFEF), ClusterState::Eof);
}

#[test]
fn test_classify_cluster_fat32_free() {
    assert_eq!(classify_cluster(FatKind::Fat32, 0x0000_0000, 0x0FFF_FFEF), ClusterState::Free);
}

#[test]
fn test_classify_cluster_fat32_next() {
    assert_eq!(
        classify_cluster(FatKind::Fat32, 0x0000_0002, 0x0FFF_FFEF),
        ClusterState::Next(0x0000_0002)
    );
    assert_eq!(
        classify_cluster(FatKind::Fat32, 0x0FFF_FFEF, 0x0FFF_FFEF),
        ClusterState::Next(0x0FFF_FFEF)
    );
}

#[test]
fn test_classify_cluster_fat32_bad() {
    assert_eq!(classify_cluster(FatKind::Fat32, 0x0FFF_FFF7, 0x0FFF_FFEF), ClusterState::Bad);
}

#[test]
fn test_classify_cluster_fat32_eof() {
    assert_eq!(classify_cluster(FatKind::Fat32, 0x0FFF_FFF8, 0x0FFF_FFEF), ClusterState::Eof);
    assert_eq!(classify_cluster(FatKind::Fat32, 0x0FFF_FFFF, 0x0FFF_FFEF), ClusterState::Eof);
}

#[test]
fn test_classify_cluster_fat32_reserved() {
    assert_eq!(classify_cluster(FatKind::Fat32, 0x0000_0001, 0x0FFF_FFEF), ClusterState::Reserved);
    assert_eq!(classify_cluster(FatKind::Fat32, 0x0FFF_FFF0, 0x0FFF_FFEF), ClusterState::Reserved);
    assert_eq!(classify_cluster(FatKind::Fat32, 0x0FFF_FFF6, 0x0FFF_FFEF), ClusterState::Reserved);
}

#[test]
fn test_lfn_checksum_known_vector() {
    let checksum = lfn_checksum(b"TEST    TXT");
    assert_eq!(checksum, 0x8F);
}

#[test]
fn test_lfn_checksum_deterministic() {
    let a = lfn_checksum(b"TEST    TXT");
    let b = lfn_checksum(b"TEST    TXT");
    assert_eq!(a, b);
}

#[test]
fn test_lfn_checksum_different_names() {
    let a = lfn_checksum(b"TEST    TXT");
    let b = lfn_checksum(b"README  TXT");
    assert_ne!(a, b);
}

#[test]
fn test_lfn_checksum_high_bytes_no_panic() {
    lfn_checksum(&[0xFF; 11]);
}

// ---- Further cases ----

/// A FAT16 boot sector: 512-byte sectors, 4 sectors a cluster, 1 reserved
/// sector, 2 FATs of 32 sectors, 512 root entries, 20000 sectors.
fn fat16_boot_sector() -> [u8; 512] {
    let mut bs = [0u8; 512];
    bs[11] = 0x00;
    bs[12] = 0x02;
    bs[13] = 4;
    bs[14] = 1;
    bs[16] = 2;
    bs[17] = 0x00;
    bs[18] = 0x02;
    bs[19] = 0x20;
    bs[20] = 0x4E;
    bs[22] = 32;
    bs[510] = 0x55;
    bs[511] = 0xAA;
    bs
}

#[test]
fn check_bpb_reads_fat16_layout() {
    let bs = fat16_boot_sector();
    assert!(bpb_layout_fits(&bs));
    let mut result = CheckResult::new();
    let info = check_bpb(&mut result, &bs).expect("valid boot sector");
    assert!(result.errors.is_empty());
    assert_eq!(info.fat_kind, FatKind::Fat16);
    assert_eq!(info.root_dir_sectors, 32);
    assert_eq!(info.first_root_dir_sector, 65);
    assert_eq!(info.first_data_sector, 97);
    // (20000 - 97) / 4
    assert_eq!(info.total_clusters, 4975);
    assert_eq!(info.max_cluster(), 4976);
    assert_eq!(info.cluster_size(), 2048);
    assert_eq!(info.cluster_offset(2), 97 * 512);
    assert_eq!(info.fsinfo_sector, None);
    assert_eq!(
        result.info,
        vec![
            "bytes per sector: 512".to_string(),
            "sectors per cluster: 4".to_string(),
            "number of FATs: 2".to_string(),
            "total sectors: 20000".to_string(),
            "filesystem type: FAT16".to_string(),
            "FAT size: 32 sectors".to_string(),
        ]
    );
}

#[test]
fn check_bpb_errors() {
    let mut bs = fat16_boot_sector();
    bs[510] = 0x12;
    bs[11] = 0x01;
    let mut result = CheckResult::new();
    assert!(check_bpb(&mut result, &bs).is_none());
    assert_eq!(
        result.errors,
        vec![
            "invalid boot sector signature: 12 AA (expected 55 AA)".to_string(),
            "invalid bytes per sector: 513".to_string(),
        ]
    );
    assert!(result.info.is_empty());

    let mut bs = fat16_boot_sector();
    bs[13] = 3;
    let mut result = CheckResult::new();
    assert!(check_bpb(&mut result, &bs).is_none());
    assert_eq!(result.errors, vec!["invalid sectors per cluster: 3 (must be power of 2)".to_string()]);

    let mut bs = fat16_boot_sector();
    bs[16] = 0;
    let mut result = CheckResult::new();
    assert!(check_bpb(&mut result, &bs).is_none());
    assert_eq!(result.errors, vec!["number of FATs is 0".to_string()]);

    let mut bs = fat16_boot_sector();
    bs[19] = 10;
    bs[20] = 0;
    let mut result = CheckResult::new();
    assert!(check_bpb(&mut result, &bs).is_none());
    assert_eq!(result.errors, vec!["filesystem layout leaves no data area".to_string()]);
}

#[test]
fn layout_overflow_is_detected() {
    let mut bs = fat16_boot_sector();
    bs[17] = 0;
    bs[18] = 0;
    bs[36] = 0xFF;
    bs[37] = 0xFF;
    bs[38] = 0xFF;
    bs[39] = 0xFF;
    assert!(!bpb_layout_fits(&bs));
}

fn small_fat16() -> VolumeInfo {
    let mut bs = fat16_boot_sector();
    // 200 sectors: data area of (200 - 97) / 4 = 25 clusters
    bs[19] = 200;
    bs[20] = 0;
    let mut result = CheckResult::new();
    check_bpb(&mut result, &bs).expect("valid boot sector")
}

#[test]
fn chain_stops_at_end_and_at_loop() {
    let info = small_fat16();
    assert_eq!(info.fat_kind, FatKind::Fat12);
    let mut fat = vec![0u8; 64];
    set_fat_entry(&mut fat, info.fat_kind, 2, 3);
    set_fat_entry(&mut fat, info.fat_kind, 3, 5);
    set_fat_entry(&mut fat, info.fat_kind, 5, 0xFFF);
    assert_eq!(collect_chain_clusters(info, &fat, 2), vec![2, 3, 5]);
    set_fat_entry(&mut fat, info.fat_kind, 5, 2);
    assert_eq!(collect_chain_clusters(info, &fat, 2), vec![2, 3, 5]);
    assert_eq!(collect_chain_clusters(info, &fat, 1), Vec::<u32>::new());
}

#[test]
fn scan_finds_lost_clusters_and_repair_frees_them() {
    let info = small_fat16();
    let kind = info.fat_kind;
    let mut fat = vec![0u8; 64];
    set_fat_entry(&mut fat, kind, 0, 0xFF8);
    set_fat_entry(&mut fat, kind, 1, 0xFFF);
    set_fat_entry(&mut fat, kind, 2, 3);
    set_fat_entry(&mut fat, kind, 3, 0xFFF);
    set_fat_entry(&mut fat, kind, 7, 0xFFF);
    let mut scan = begin_scan(info, &fat, None);
    assert!(!scan.dirty_flag_set);
    assert_eq!(scan.actual_free_clusters, 22);
    assert_eq!(scan.first_free_cluster, Some(4));

    let mut entry = [0u8; 32];
    entry[0..11].copy_from_slice(b"FILE    TXT");
    entry[26] = 2;
    let mut bytes = Vec::new();
    bytes.extend_from_slice(&entry);
    bytes.extend_from_slice(&[0u8; 32]);
    let mut entries = Vec::new();
    push_directory_entries(&mut entries, 1000, &bytes);
    assert_eq!(entries.len(), 2);
    assert_eq!(entries[1].offset, 1032);
    let mut subdirs = Vec::new();
    scan_directory_entries(info, &fat, &mut scan, &entries, &mut subdirs);
    assert!(subdirs.is_empty());
    assert!(scan.reachable_clusters[2] && scan.reachable_clusters[3]);
    assert!(!scan.reachable_clusters[7]);
    find_lost_clusters(&mut scan, info, &fat);
    assert_eq!(scan.lost_clusters, vec![7]);

    let mut result = CheckResult::new();
    check_lost_clusters(&mut result, &scan);
    assert_eq!(result.errors, vec!["lost clusters found: 1".to_string()]);

    let mut stats = RepairStats {
        dirty_flag_cleared: false,
        fsinfo_corrected: false,
        lost_clusters_reclaimed: 0,
        orphaned_lfn_entries_removed: 0,
    };
    assert!(repair_lost_clusters(&mut stats, info, &mut fat, &scan));
    assert_eq!(fat_entry(&fat, kind, 7), 0);
    assert_eq!(fat_entry(&fat, kind, 3), 0xFFF);
    assert_eq!(stats.summary(), "Repaired: 1 lost cluster(s)");
}

#[test]
fn mark_stops_at_marked_cluster() {
    let info = small_fat16();
    let kind = info.fat_kind;
    let mut fat = vec![0u8; 64];
    set_fat_entry(&mut fat, kind, 4, 5);
    set_fat_entry(&mut fat, kind, 5, 6);
    set_fat_entry(&mut fat, kind, 6, 0xFFF);
    let mut scan = begin_scan(info, &fat, None);
    mark_chain_reachable(&mut scan, info, &fat, 5);
    assert!(scan.reachable_clusters[5] && scan.reachable_clusters[6]);
    assert!(!scan.reachable_clusters[4]);
    mark_chain_reachable(&mut scan, info, &fat, 4);
    assert!(scan.reachable_clusters[4]);
}

#[test]
fn orphaned_and_matching_long_names() {
    let info = small_fat16();
    let fat = vec![0u8; 64];
    let short_name = *b"LONGNA~1TXT";
    let checksum = lfn_checksum(&short_name);
    let mut lfn = [0u8; 32];
    lfn[0] = 0x41;
    lfn[11] = 0x0F;
    lfn[13] = checksum;
    let mut short = [0u8; 32];
    short[0..11].copy_from_slice(&short_name);
    short[11] = 0x20;
    let pending = [PendingLfnEntry { offset: 0, order: 0x41, checksum }];
    assert!(lfn_matches_short(&pending, &short));
    let wrong = [PendingLfnEntry { offset: 0, order: 0x01, checksum }];
    assert!(!lfn_matches_short(&wrong, &short));

    let mut deleted = [0u8; 32];
    deleted[0] = 0xE5;
    let entries = vec![
        RawDirEntry { offset: 0, data: lfn },
        RawDirEntry { offset: 32, data: short },
        RawDirEntry { offset: 64, data: lfn },
        RawDirEntry { offset: 96, data: deleted },
        RawDirEntry { offset: 128, data: lfn },
    ];
    let mut scan = begin_scan(info, &fat, None);
    let mut subdirs = Vec::new();
    scan_directory_entries(info, &fat, &mut scan, &entries, &mut subdirs);
    assert_eq!(scan.orphaned_lfn_offsets, vec![64, 128]);
    let mut result = CheckResult::new();
    check_orphaned_lfns(&mut result, &scan);
    assert_eq!(result.errors, vec!["orphaned LFN entries found: 2".to_string()]);
}

#[test]
fn subdirectories_are_listed_and_walked_in_order() {
    let info = small_fat16();
    let fat = vec![0u8; 64];
    let mut dir = [0u8; 32];
    dir[0] = b'A';
    dir[11] = 0x10;
    dir[26] = 9;
    let mut dot = dir;
    dot[0] = b'.';
    let mut second = dir;
    second[0] = b'B';
    second[26] = 12;
    let entries = vec![
        RawDirEntry { offset: 0, data: dot },
        RawDirEntry { offset: 32, data: dir },
        RawDirEntry { offset: 64, data: second },
    ];
    let mut scan = begin_scan(info, &fat, None);
    let mut subdirs = Vec::new();
    scan_directory_entries(info, &fat, &mut scan, &entries, &mut subdirs);
    assert_eq!(subdirs, vec![9, 12]);
    assert_eq!(entry_start_cluster(info, &dir), 9);

    let mut walk = DirectoryWalk::new();
    walk.push_subdirs(&subdirs);
    assert_eq!(walk.next_dir(), Some(9));
    walk.push_subdirs(&vec![12, 15]);
    assert_eq!(walk.next_dir(), Some(12));
    assert_eq!(walk.next_dir(), Some(15));
    assert_eq!(walk.next_dir(), None);
}

#[test]
fn dirty_flags_are_found_and_cleared() {
    let info = small_fat16();
    let kind = info.fat_kind;
    let mut fat = vec![0u8; 64];
    set_fat_entry(&mut fat, kind, 1, 0x3FF);
    assert!(dirty_flag_set(info, &fat));
    let scan = begin_scan(info, &fat, None);
    let mut result = CheckResult::new();
    check_dirty_flags(&mut result, &scan);
    assert_eq!(result.errors, vec!["filesystem has unclean shutdown flags set".to_string()]);
    let mut stats = RepairStats {
        dirty_flag_cleared: false,
        fsinfo_corrected: false,
        lost_clusters_reclaimed: 0,
        orphaned_lfn_entries_removed: 0,
    };
    assert!(repair_dirty_flags(&mut stats, info, &mut fat, &scan));
    assert_eq!(fat_entry(&fat, kind, 1), 0xFFF);
    assert!(!dirty_flag_set(info, &fat));
    assert_eq!(stats.summary(), "Repaired: dirty flag cleared");
}

#[test]
fn fsinfo_is_parsed_checked_and_patched() {
    let mut sector = vec![0u8; 512];
    sector[0..4].copy_from_slice(&[0x52, 0x52, 0x61, 0x41]);
    sector[484..488].copy_from_slice(&[0x72, 0x72, 0x41, 0x61]);
    sector[488..492].copy_from_slice(&100u32.to_le_bytes());
    sector[492..496].copy_from_slice(&5u32.to_le_bytes());
    let state = parse_fsinfo(1, &sector);
    assert!(state.signatures_ok);
    assert_eq!(state.recorded_free_clusters, 100);
    assert_eq!(state.recorded_next_free, 5);
    let short = parse_fsinfo(1, &sector[0..100]);
    assert!(!short.signatures_ok);

    let mut bs = fat16_boot_sector();
    bs[17] = 0;
    bs[18] = 0;
    bs[22] = 0;
    bs[36] = 32;
    bs[44] = 2;
    bs[48] = 1;
    bs[19] = 0;
    bs[20] = 0;
    bs[32..36].copy_from_slice(&70000u32.to_le_bytes());
    let mut result = CheckResult::new();
    let info = check_bpb(&mut result, &bs).expect("valid FAT32 boot sector");
    assert_eq!(info.fat_kind, FatKind::Fat32);
    assert_eq!(info.fsinfo_sector, Some(1));
    assert_eq!(info.root_cluster, 2);

    let mut fat = vec![0u8; 32 * 512];
    set_fat_entry(&mut fat, FatKind::Fat32, 1, 0x0FFF_FFFF);
    let scan = begin_scan(info, &fat, Some(state));
    let mut result = CheckResult::new();
    check_fsinfo(&mut result, info, &scan);
    assert_eq!(
        result.errors,
        vec![format!(
            "FSInfo free cluster count mismatch: recorded 100, actual {}",
            scan.actual_free_clusters
        )]
    );
    let mut result = CheckResult::new();
    report_repair_findings(&mut result, info, &scan);
    assert_eq!(
        result.info,
        vec![format!(
            "found FSInfo free cluster count mismatch: recorded 100, actual {}",
            scan.actual_free_clusters
        )]
    );
    let plan = plan_fsinfo_repair(info, &scan).expect("counts differ");
    assert_eq!(plan.sector, 1);
    assert_eq!(plan.next_free, 2);
    assert!(patch_fsinfo(&mut sector, plan.free_clusters, plan.next_free));
    let reread = parse_fsinfo(1, &sector);
    assert_eq!(reread.recorded_free_clusters, scan.actual_free_clusters);
    assert_eq!(reread.recorded_next_free, 2);
    assert!(reread.signatures_ok);

    let bad = FsInfoState { sector: 1, signatures_ok: false, recorded_free_clusters: 0, recorded_next_free: 0 };
    let scan = begin_scan(info, &fat, Some(bad));
    let mut result = CheckResult::new();
    check_fsinfo(&mut result, info, &scan);
    assert_eq!(result.errors, vec!["invalid FAT32 FSInfo signatures at sector 1".to_string()]);
    assert!(plan_fsinfo_repair(info, &scan).is_none());
}

#[test]
fn report_lines_and_exit_status() {
    let mut result = CheckResult::new();
    assert_eq!(result.report_lines(), vec!["Filesystem is clean.".to_string()]);
    assert_eq!(exit_status(&result, false), 0);
    result.info("mounted".to_string());
    result.warn("careful".to_string());
    result.error("broken".to_string());
    assert_eq!(
        result.report_lines(),
        vec![
            "INFO: mounted".to_string(),
            "WARNING: careful".to_string(),
            "ERROR: broken".to_string(),
            "1 error(s), 1 warning(s), 1 info message(s)".to_string(),
        ]
    );
    assert_eq!(exit_status(&result, false), 1);
    assert_eq!(exit_status(&result, true), 2);
}

#[test]
fn repair_summary_lists_parts() {
    let stats = RepairStats {
        dirty_flag_cleared: true,
        fsinfo_corrected: true,
        lost_clusters_reclaimed: 3,
        orphaned_lfn_entries_removed: 2,
    };
    assert_eq!(
        stats.summary(),
        "Repaired: 3 lost cluster(s), 2 orphaned LFN entr(ies), dirty flag cleared, FSInfo updated"
    );
    let none = RepairStats {
        dirty_flag_cleared: false,
        fsinfo_corrected: false,
        lost_clusters_reclaimed: 0,
        orphaned_lfn_entries_removed: 0,
    };
    assert_eq!(none.summary(), "Repaired: nothing needed");
}

#[test]
fn check_arguments() {
    let args = vec!["-r".to_string(), "/dev/disk".to_string()];
    match parse_check_args(&args) {
        Ok((repair, device)) => {
            assert!(repair);
            assert_eq!(device, "/dev/disk");
        }
        Err(_) => panic!("arguments refused"),
    }
    let args = vec!["--bogus".to_string()];
    assert!(matches!(parse_check_args(&args), Err(CheckArgsError::UnknownOption(o)) if o == "--bogus"));
    let args = vec!["a".to_string(), "b".to_string()];
    assert!(matches!(parse_check_args(&args), Err(CheckArgsError::Usage)));
    assert!(matches!(parse_check_args(&Vec::new()), Err(CheckArgsError::Usage)));
}
