use redbear_drivers::fatd::{
    days_from_civil, fat_name_eq, inode_usize, join_path, mode_bits, normalize_path,
    split_parent_child, synthetic_inode, PathSplitError,
};

#[test]
fn test_normalize_path_empty() {
    assert_eq!(normalize_path(""), "");
}

#[test]
fn test_normalize_path_root() {
    assert_eq!(normalize_path("/"), "");
}

#[test]
fn test_normalize_path_simple() {
    assert_eq!(normalize_path("/a/b"), "a/b");
}

#[test]
fn test_normalize_path_dot_dot() {
    assert_eq!(normalize_path("a/./b/../c"), "a/c");
}

#[test]
fn test_normalize_path_leading_slashes() {
    assert_eq!(normalize_path("///a//b///"), "a/b");
}

#[test]
fn test_normalize_path_dot_only() {
    assert_eq!(normalize_path("."), "");
}

#[test]
fn test_normalize_path_dot_dot_only() {
    assert_eq!(normalize_path(".."), "");
}

#[test]
fn test_normalize_path_up_from_root() {
    // ../.. from root pops both, leaving empty
    assert_eq!(normalize_path("../.."), "");
}

#[test]
fn test_split_parent_child_single() {
    let (parent, child) = split_parent_child("a").unwrap();
    assert_eq!(parent, "");
    assert_eq!(child, "a");
}

#[test]
fn test_split_parent_child_two_levels() {
    let (parent, child) = split_parent_child("a/b").unwrap();
    assert_eq!(parent, "a");
    assert_eq!(child, "b");
}

#[test]
fn test_split_parent_child_three_levels() {
    let (parent, child) = split_parent_child("a/b/c").unwrap();
    assert_eq!(parent, "a/b");
    assert_eq!(child, "c");
}

#[test]
fn test_split_parent_child_empty_error() {
    let result = split_parent_child("/");
    assert!(result.is_err());
    assert_eq!(result, Err(PathSplitError::Root));
}

#[test]
fn test_fat_name_eq_exact() {
    assert!(fat_name_eq("foo.txt", "foo.txt"));
}

#[test]
fn test_fat_name_eq_case_insensitive() {
    assert!(fat_name_eq("foo.txt", "FOO.TXT"));
    assert!(fat_name_eq("TEST", "test"));
    assert!(fat_name_eq("MixedCase", "mixedcase"));
}

#[test]
fn test_fat_name_eq_not_equal() {
    assert!(!fat_name_eq("foo.txt", "bar.txt"));
}

#[test]
fn test_fat_name_eq_different_lengths() {
    assert!(!fat_name_eq("foo", "foobar"));
}

#[test]
fn test_synthetic_inode_determinism() {
    let inode1 = synthetic_inode("test/path", false);
    let inode2 = synthetic_inode("test/path", false);
    assert_eq!(inode1, inode2);
}

#[test]
fn test_synthetic_inode_different_paths() {
    let inode1 = synthetic_inode("path/a", false);
    let inode2 = synthetic_inode("path/b", false);
    assert_ne!(inode1, inode2);
}

#[test]
fn test_synthetic_inode_dir_vs_file() {
    let inode_dir = synthetic_inode("test/path", true);
    let inode_file = synthetic_inode("test/path", false);
    assert_ne!(inode_dir, inode_file);
}

#[test]
fn test_synthetic_inode_non_zero() {
    // Empty path returns 2, non-empty should never return 0 due to fallback
    let inode = synthetic_inode("nonempty", false);
    assert_ne!(inode, 0);
}

#[test]
fn test_synthetic_inode_empty_returns_two() {
    let inode = synthetic_inode("", false);
    assert_eq!(inode, 2);
}

#[test]
fn test_days_from_civil_epoch() {
    // Unix epoch: 1970-01-01 should be day 0
    assert_eq!(days_from_civil(1970, 1, 1), 0);
}

#[test]
fn test_days_from_civil_dos_epoch() {
    assert_eq!(days_from_civil(1980, 1, 1), 3652);
}

#[test]
fn test_days_from_civil_negative() {
    // 1969-01-01 should be -365 (before epoch, no leap days in 1969)
    assert_eq!(days_from_civil(1969, 1, 1), -365);
}

#[test]
fn test_days_from_civil_2024_leap_year() {
    // 1970-2023: 54 years with 13 leap years: 54*365 + 13 = 19723
    assert_eq!(days_from_civil(2024, 1, 1), 19723);
}

#[test]
fn days_from_civil_counts_leap_days() {
    assert_eq!(days_from_civil(2024, 3, 1) - days_from_civil(2024, 2, 28), 2);
    assert_eq!(days_from_civil(2023, 3, 1) - days_from_civil(2023, 2, 28), 1);
    assert_eq!(days_from_civil(2000, 3, 1) - days_from_civil(2000, 2, 28), 2);
    assert_eq!(days_from_civil(1900, 3, 1) - days_from_civil(1900, 2, 28), 1);
    assert_eq!(days_from_civil(1, 1, 1), -719162);
}

#[test]
fn join_path_resolves_against_base() {
    assert_eq!(join_path("a/b", "c"), "a/b/c");
    assert_eq!(join_path("a/b", "../c"), "a/c");
    assert_eq!(join_path("a/b", "/x/y"), "x/y");
    assert_eq!(join_path("", "x/./y"), "x/y");
    assert_eq!(join_path("a", ""), "a");
}

#[test]
fn inode_and_mode_words() {
    assert_eq!(inode_usize("", true), 2);
    assert_eq!(inode_usize("x", false) as u64, synthetic_inode("x", false));
    assert_eq!(mode_bits(true, false), 0o40755);
    assert_eq!(mode_bits(false, false), 0o100644);
    assert_eq!(mode_bits(false, true), 0o100444);
    assert_eq!(mode_bits(true, true), 0o40555);
}
