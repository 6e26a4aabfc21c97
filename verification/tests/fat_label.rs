use redbear_drivers::fat_args::{parse_label_args, LabelArgsError};
use redbear_drivers::fat_label::{
    invalid_volume_label_char, label_entry, label_layout, label_offset, label_string,
    next_root_cluster, normalize_label, plan_label_entry, printable_label, search_label_slots,
    signature_error, LabelEntryPlan, LabelError,
};

// Test invalid_volume_label_char
#[test]
fn test_invalid_volume_label_char_valid_range() {
    // A-Z, 0-9 are valid
    assert!(!invalid_volume_label_char(b'A'));
    assert!(!invalid_volume_label_char(b'Z'));
    assert!(!invalid_volume_label_char(b'0'));
    assert!(!invalid_volume_label_char(b'9'));
}

#[test]
fn test_invalid_volume_label_char_invalid_chars() {
    // Control chars 0x00-0x1F
    assert!(invalid_volume_label_char(0x00));
    assert!(invalid_volume_label_char(0x1F));
    assert!(invalid_volume_label_char(0x7F));
    // Invalid symbols
    assert!(invalid_volume_label_char(b'"'));
    assert!(invalid_volume_label_char(b'*'));
    assert!(invalid_volume_label_char(b'+'));
    assert!(invalid_volume_label_char(b','));
    assert!(invalid_volume_label_char(b'.'));
    assert!(invalid_volume_label_char(b'/'));
    assert!(invalid_volume_label_char(b':'));
    assert!(invalid_volume_label_char(b';'));
    assert!(invalid_volume_label_char(b'<'));
    assert!(invalid_volume_label_char(b'='));
    assert!(invalid_volume_label_char(b'>'));
    assert!(invalid_volume_label_char(b'?'));
    assert!(invalid_volume_label_char(b'['));
    assert!(invalid_volume_label_char(b'\\'));
    assert!(invalid_volume_label_char(b']'));
    assert!(invalid_volume_label_char(b'|'));
}

// Test label_string
#[test]
fn test_label_string_trims_trailing_spaces() {
    let bytes = *b"TEST       ";
    let result = label_string(&bytes);
    assert_eq!(result, "TEST");
}

#[test]
fn test_label_string_no_trailing_spaces() {
    let bytes = *b"NOTRIMMED  ";
    let result = label_string(&bytes);
    assert_eq!(result, "NOTRIMMED");
}

#[test]
fn test_label_string_all_spaces() {
    let bytes = *b"           ";
    let result = label_string(&bytes);
    assert_eq!(result, "");
}

// Test printable_label
#[test]
fn test_printable_label_empty() {
    let result = printable_label("");
    assert_eq!(result, "(no label)");
}

#[test]
fn test_printable_label_non_empty() {
    let result = printable_label("MYDISK");
    assert_eq!(result, "MYDISK");
}

// ---- Further cases ----

#[test]
fn normalize_label_uppercases_and_pads() {
    assert_eq!(normalize_label("My Disk").unwrap(), *b"MY DISK    ");
    assert_eq!(normalize_label("").unwrap(), *b"           ");
    assert_eq!(normalize_label("ELEVENCHARS").unwrap(), *b"ELEVENCHARS");
}

#[test]
fn normalize_label_refusals() {
    assert_eq!(normalize_label("twelve chars"), Err(LabelError::TooLong));
    assert_eq!(normalize_label("caf\u{e9}"), Err(LabelError::NotAscii));
    assert_eq!(normalize_label("a.b"), Err(LabelError::InvalidChar(b'.')));
    assert_eq!(
        LabelError::InvalidChar(b'.').message(),
        "invalid character '.' in label"
    );
    assert_eq!(LabelError::TooLong.message(), "label too long (max 11 chars)");
}

#[test]
fn label_string_keeps_inner_spaces_and_decodes_bytes() {
    assert_eq!(label_string(b"MY DISK    "), "MY DISK");
    let mut bytes = *b"A          ";
    bytes[1] = 0xFF;
    assert_eq!(label_string(&bytes), "A\u{FFFD}");
}

#[test]
fn label_field_offset_and_signature() {
    let mut bs = [0u8; 512];
    bs[510] = 0x55;
    bs[511] = 0xAA;
    bs[17] = 0x00;
    bs[18] = 0x02;
    assert_eq!(label_offset(&bs), 43);
    assert!(signature_error(&bs).is_none());
    bs[17] = 0;
    bs[18] = 0;
    bs[36] = 1;
    assert_eq!(label_offset(&bs), 71);
    bs[511] = 0x00;
    assert_eq!(signature_error(&bs).unwrap(), "invalid boot sector signature 55 00");
}

#[test]
fn root_directory_layout_and_chain() {
    let mut bs = [0u8; 512];
    bs[11] = 0x00;
    bs[12] = 0x02;
    bs[13] = 8;
    bs[14] = 32;
    bs[16] = 2;
    bs[36] = 100;
    bs[44] = 2;
    let layout = label_layout(&bs).expect("layout");
    assert!(layout.is_fat32);
    assert_eq!(layout.first_root_dir_sector, 232);
    assert_eq!(layout.first_data_sector, 232);
    assert_eq!(layout.cluster_size(), 4096);
    assert_eq!(layout.cluster_offset(3), Some((232 + 8) * 512));
    assert_eq!(layout.cluster_offset(1), None);
    assert_eq!(layout.fat_entry_offset(3), 32 * 512 + 12);
    assert_eq!(next_root_cluster(&[5, 0, 0, 0]), Some(5));
    assert_eq!(next_root_cluster(&[0xF8, 0xFF, 0xFF, 0x0F]), None);
    bs[11] = 0;
    bs[12] = 0;
    assert!(label_layout(&bs).is_none());
}

#[test]
fn label_slot_search() {
    let mut buf = vec![0u8; 32 * 4];
    buf[0] = b'F';
    buf[32] = 0xE5;
    buf[64] = b'L';
    buf[64 + 11] = 0x08;
    assert_eq!(search_label_slots(&buf, 1000, None), (Some(1032), Some(1064)));
    buf[64 + 11] = 0x20;
    assert_eq!(search_label_slots(&buf, 1000, None), (Some(1032), None));
    assert_eq!(search_label_slots(&buf, 1000, Some(7)), (Some(7), None));
    assert_eq!(plan_label_entry(false, Some(1032)), LabelEntryPlan::Create(1032));
    assert_eq!(plan_label_entry(false, None), LabelEntryPlan::DirectoryFull);
    assert_eq!(plan_label_entry(true, None), LabelEntryPlan::Updated);
    let entry = label_entry(b"NEWLABEL   ");
    assert_eq!(&entry[0..11], b"NEWLABEL   ");
    assert_eq!(entry[11], 0x08);
    assert!(entry[12..].iter().all(|b| *b == 0));
}

#[test]
fn label_arguments() {
    let args = vec!["-s".to_string(), "new".to_string(), "/dev/d".to_string()];
    match parse_label_args(&args) {
        Ok((label, device)) => {
            assert_eq!(label.as_deref(), Some("new"));
            assert_eq!(device, "/dev/d");
        }
        Err(_) => panic!("arguments refused"),
    }
    let args = vec!["--set".to_string()];
    assert!(matches!(parse_label_args(&args), Err(LabelArgsError::MissingLabel(a)) if a == "--set"));
    let args = vec!["-s".to_string(), "a".to_string(), "-s".to_string(), "b".to_string()];
    assert!(matches!(parse_label_args(&args), Err(LabelArgsError::LabelTwice)));
    let args = vec!["x".to_string(), "y".to_string()];
    assert!(matches!(parse_label_args(&args), Err(LabelArgsError::ExtraArgument(a)) if a == "y"));
    let args = vec!["-q".to_string()];
    assert!(matches!(parse_label_args(&args), Err(LabelArgsError::UnknownOption(a)) if a == "-q"));
    assert!(matches!(parse_label_args(&Vec::new()), Err(LabelArgsError::Usage)));
}

#[test]
fn written_label_reads_back_upper_cased() {
    let bytes = normalize_label("Data 1").expect("valid label");
    assert_eq!(label_string(&bytes), "DATA 1");
    let empty = normalize_label("").expect("empty label");
    assert_eq!(label_string(&empty), "");
}
