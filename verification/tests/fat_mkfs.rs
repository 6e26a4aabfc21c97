use redbear_drivers::fat_mkfs::{
    bytes_per_cluster, fill_chunk, formatted_message, label_bytes, parse_fat_type,
    parse_mkfs_args, FatKind, MkfsArgsError,
};

fn args(v: &[&str]) -> Vec<String> {
    v.iter().map(|s| s.to_string()).collect()
}

fn message(v: &[&str]) -> String {
    match parse_mkfs_args(&args(v)) {
        Err(MkfsArgsError::Message(m)) => m,
        other => panic!("message expected, got {other:?}"),
    }
}

#[test]
fn fat_types_by_number() {
    assert_eq!(parse_fat_type("12"), Some(FatKind::Fat12));
    assert_eq!(parse_fat_type("16"), Some(FatKind::Fat16));
    assert_eq!(parse_fat_type("32"), Some(FatKind::Fat32));
    assert_eq!(parse_fat_type("64"), None);
}

#[test]
fn a_full_command_line() {
    let plan = parse_mkfs_args(&args(&["-F", "32", "-n", "boot", "-s", "+1048576", "-c", "8", "disk.img", "ignored"]))
        .expect("a plan");
    assert_eq!(plan.fat_type, Some(FatKind::Fat32));
    assert_eq!(plan.label.as_deref(), Some("BOOT"));
    assert_eq!(plan.file_size, Some(1_048_576));
    assert_eq!(plan.cluster_sectors, Some(8));
    assert_eq!(plan.path, "disk.img");
}

#[test]
fn defaults_and_usage() {
    let plan = parse_mkfs_args(&args(&["/dev/disk"])).expect("a plan");
    assert_eq!(plan.fat_type, None);
    assert_eq!(plan.label, None);
    assert_eq!(plan.file_size, None);
    assert_eq!(plan.cluster_sectors, None);
    assert!(matches!(parse_mkfs_args(&args(&[])), Err(MkfsArgsError::Usage)));
    assert!(matches!(parse_mkfs_args(&args(&["-F", "16"])), Err(MkfsArgsError::Usage)));
    assert!(matches!(parse_mkfs_args(&args(&["-x", "d"])), Err(MkfsArgsError::UnknownOption(o)) if o == "-x"));
}

#[test]
fn refused_values() {
    assert_eq!(message(&["-F"]), "-F requires an argument (12, 16, or 32)");
    assert_eq!(message(&["-F", "8", "d"]), "invalid FAT type '8', use 12, 16, or 32");
    assert_eq!(message(&["-n"]), "-n requires a label argument");
    assert_eq!(message(&["-n", "TWELVE-CHARS", "d"]), "volume label too long (max 11 chars)");
    assert_eq!(message(&["-s"]), "-s requires a size argument");
    assert_eq!(message(&["-s", "1k", "d"]), "invalid size '1k'");
    assert_eq!(message(&["-c"]), "-c requires a sectors argument");
    assert_eq!(message(&["-c", "256", "d"]), "invalid sectors '256'");
    assert_eq!(message(&["-c", "0", "d"]), "sectors per cluster must be a power of 2 and greater than 0");
    assert_eq!(message(&["-c", "6", "d"]), "sectors per cluster must be a power of 2 and greater than 0");
}

#[test]
fn label_fields_and_sizes() {
    assert_eq!(&label_bytes("BOOT"), b"BOOT       ");
    assert_eq!(&label_bytes("ABCDEFGHIJK"), b"ABCDEFGHIJK");
    assert_eq!(bytes_per_cluster(8), 4096);
    assert_eq!(fill_chunk(100_000), 65536);
    assert_eq!(fill_chunk(10), 10);
}

#[test]
fn format_reports() {
    assert_eq!(
        formatted_message("disk.img", Some(FatKind::Fat16), Some(4)),
        "fat-mkfs: formatted disk.img as FAT16, cluster 4 sectors"
    );
    assert_eq!(formatted_message("d", None, None), "fat-mkfs: formatted d as auto-detected");
}
