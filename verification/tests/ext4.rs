use redbear_drivers::ext4::{block_span, ext4_mkfs_args, ext4_stat, image_bytes, total_blocks, MKFS_BLOCK_SIZE};

fn args(v: &[&str]) -> Vec<String> {
    v.iter().map(|s| s.to_string()).collect()
}

#[test]
fn block_transfers() {
    assert_eq!(block_span(3, 2, 4096, 8192), Some((12288, 8192)));
    assert_eq!(block_span(3, 2, 4096, 8191), None);
    assert_eq!(block_span(0, 0, 512, 0), Some((0, 0)));
    assert_eq!(total_blocks(10_000, 4096), 2);
}

#[test]
fn mkfs_command_line() {
    assert_eq!(ext4_mkfs_args(&args(&[])), None);
    assert_eq!(ext4_mkfs_args(&args(&["disk.img"])), Some(("disk.img".to_string(), 100)));
    assert_eq!(ext4_mkfs_args(&args(&["disk.img", "64"])), Some(("disk.img".to_string(), 64)));
    assert_eq!(ext4_mkfs_args(&args(&["disk.img", "big"])), Some(("disk.img".to_string(), 100)));
    assert_eq!(image_bytes(100), 104_857_600);
    assert_eq!(MKFS_BLOCK_SIZE, 4096);
}

#[test]
fn inode_stat_fields() {
    let s = ext4_stat(12, 0o100644, 1, 1000, 100, 5000, 4096, 16, (-5, 7), (1_700_000_000, 9), (0, 0));
    assert_eq!(s.ino, 12);
    assert_eq!(s.mode, 0o100644);
    assert_eq!(s.nlink, 1);
    assert_eq!((s.uid, s.gid), (1000, 100));
    assert_eq!(s.size, 5000);
    assert_eq!(s.blksize, 4096);
    assert_eq!(s.blocks, 16);
    assert_eq!((s.atime, s.atime_nsec), (0, 7));
    assert_eq!((s.mtime, s.mtime_nsec), (1_700_000_000, 9));
    let wide = ext4_stat(2, 0, 0, 0, 0, 0, 0x1_0000_1000, 0, (0, 0), (0, 0), (0, 0));
    assert_eq!(wide.blksize, 0x1000);
}
