use redbear_drivers::fs_scheme::{
    date_time_to_unix, date_to_unix, dirent_kind_from_byte, ext4_dirents_after, ext4_entry_kind,
    fat_cursor_after, fat_dirents, fat_kind_byte, fat_permission, fat_stat, inode_permission,
    io_errno, make_ext4_path, make_fat_path, next_opaque, open_existing, open_missing,
    parent_and_child, parent_check, require_empty, truncate_plan, unlink_plan, zero_chunk,
    CreateTarget, EntryKind, Ext4Listed, FatDateTime, FsHandle, FsHandles, IoErrorKind,
    ListedEntry, NodeRef, OpenTarget, TruncatePlan, EACCES, EBADF, EEXIST, EINVAL, EIO, EISDIR,
    ENOENT, ENOSPC, ENOTDIR, ENOTEMPTY, EOPNOTSUPP, EPERM, F_GETFD, F_GETFL, F_SETFL, O_CREAT,
    O_DIRECTORY, O_EXCL, O_RDONLY, O_RDWR, O_TRUNC, O_WRONLY, PERM_EXEC, PERM_READ, PERM_WRITE,
};

fn file(path: &str, flags: usize) -> FsHandle {
    FsHandle::File { path: path.to_string(), offset: 0, flags }
}

fn dir(path: &str, entries: Vec<ListedEntry>) -> FsHandle {
    FsHandle::Directory { path: path.to_string(), entries, cursor: 0, flags: O_RDONLY }
}

fn entry(inode: u64, name: &str, kind: u8) -> ListedEntry {
    ListedEntry { inode, name: name.to_string(), kind }
}

fn dt(year: u16, month: u16, day: u16, hour: u16, min: u16, sec: u16, millis: u16) -> FatDateTime {
    FatDateTime { year, month, day, hour, min, sec, millis }
}

#[test]
fn fat_permissions_follow_group_zero() {
    assert!(fat_permission(0o000, 0, 5, PERM_READ | PERM_WRITE));
    assert!(fat_permission(0o750, 7, 0, PERM_READ | PERM_EXEC));
    assert!(!fat_permission(0o750, 7, 0, PERM_WRITE));
    assert!(!fat_permission(0o750, 7, 3, PERM_READ));
    assert!(fat_permission(0o644, 7, 3, PERM_READ));
}

#[test]
fn inode_permissions_follow_owner_group_others() {
    assert!(inode_permission(0o700, 10, 20, 10, 99, PERM_WRITE));
    assert!(!inode_permission(0o070, 10, 20, 10, 20, PERM_READ));
    assert!(inode_permission(0o070, 10, 20, 11, 20, PERM_READ));
    assert!(inode_permission(0o004, 10, 20, 11, 21, PERM_READ));
    assert!(!inode_permission(0o004, 10, 20, 11, 21, PERM_EXEC));
    assert!(inode_permission(0o000, 10, 20, 0, 0, PERM_EXEC));
}

#[test]
fn opening_existing_nodes() {
    assert_eq!(open_existing(O_CREAT | O_EXCL | O_RDONLY, false, false, true, true), Err(EEXIST));
    assert_eq!(open_existing(O_RDWR, true, false, true, true), Err(EISDIR));
    assert_eq!(open_existing(O_RDONLY, true, false, false, true), Err(EACCES));
    assert_eq!(open_existing(O_RDONLY, true, false, true, false), Ok(OpenTarget::Directory));
    assert_eq!(open_existing(O_RDONLY | O_DIRECTORY, false, false, true, true), Err(ENOTDIR));
    assert_eq!(open_existing(O_WRONLY, false, true, true, true), Err(EACCES));
    assert_eq!(open_existing(O_RDONLY | O_TRUNC, false, true, true, true), Err(EACCES));
    assert_eq!(
        open_existing(O_RDONLY, false, true, true, false),
        Ok(OpenTarget::File { truncate: false })
    );
    assert_eq!(open_existing(O_WRONLY, false, false, false, true), Ok(OpenTarget::File { truncate: false }));
    assert_eq!(open_existing(O_RDWR, false, false, false, true), Err(EACCES));
    assert_eq!(open_existing(O_RDWR | O_TRUNC, false, false, true, false), Err(EACCES));
    assert_eq!(
        open_existing(O_RDWR | O_TRUNC, false, false, true, true),
        Ok(OpenTarget::File { truncate: true })
    );
}

#[test]
fn opening_missing_nodes() {
    assert_eq!(open_missing(O_RDONLY), Err(ENOENT));
    assert_eq!(open_missing(O_CREAT | O_RDWR), Ok(CreateTarget::File));
    assert_eq!(open_missing(O_CREAT | O_DIRECTORY), Ok(CreateTarget::Directory));
    assert_eq!(parent_check(false, true, true), Err(ENOENT));
    assert_eq!(parent_check(true, false, true), Err(ENOTDIR));
    assert_eq!(parent_check(true, true, false), Err(EACCES));
    assert_eq!(parent_check(true, true, true), Ok(()));
    assert_eq!(parent_and_child("/"), Err(EPERM));
    assert_eq!(parent_and_child("a/b/c"), Ok(("a/b".to_string(), "c".to_string())));
}

#[test]
fn removing_nodes() {
    assert_eq!(unlink_plan(true, false), Err(ENOTDIR));
    assert_eq!(unlink_plan(true, true), Ok(true));
    assert_eq!(unlink_plan(false, true), Err(EISDIR));
    assert_eq!(unlink_plan(false, false), Ok(false));
    let dots = vec![".".to_string(), "..".to_string()];
    assert_eq!(require_empty(&dots), Ok(()));
    let full = vec![".".to_string(), "x".to_string()];
    assert_eq!(require_empty(&full), Err(ENOTEMPTY));
}

#[test]
fn entry_kinds() {
    assert_eq!(fat_kind_byte(true, false), 1);
    assert_eq!(fat_kind_byte(false, true), 2);
    assert_eq!(fat_kind_byte(false, false), 0);
    assert_eq!(dirent_kind_from_byte(1), EntryKind::Directory);
    assert_eq!(dirent_kind_from_byte(2), EntryKind::Regular);
    assert_eq!(dirent_kind_from_byte(9), EntryKind::Unspecified);
    assert_eq!(ext4_entry_kind("..", 1), EntryKind::Directory);
    assert_eq!(ext4_entry_kind("f", 1), EntryKind::Regular);
    assert_eq!(ext4_entry_kind("l", 7), EntryKind::Symlink);
    assert_eq!(ext4_entry_kind("s", 6), EntryKind::Socket);
    assert_eq!(ext4_entry_kind("c", 3), EntryKind::CharDev);
    assert_eq!(ext4_entry_kind("b", 4), EntryKind::BlockDev);
    assert_eq!(ext4_entry_kind("p", 5), EntryKind::Unspecified);
}

#[test]
fn io_errors_map_to_numbers() {
    assert_eq!(io_errno(IoErrorKind::NotFound, ""), ENOENT);
    assert_eq!(io_errno(IoErrorKind::WriteZero, ""), ENOSPC);
    assert_eq!(io_errno(IoErrorKind::UnexpectedEof, ""), EIO);
    assert_eq!(io_errno(IoErrorKind::Other, "Is A Directory"), EISDIR);
    assert_eq!(io_errno(IoErrorKind::Other, "NOT a directory"), ENOTDIR);
    assert_eq!(io_errno(IoErrorKind::Other, "Directory not empty"), ENOTEMPTY);
    assert_eq!(io_errno(IoErrorKind::Other, "invalid File Name"), EINVAL);
    assert_eq!(io_errno(IoErrorKind::Other, "corrupt"), EIO);
}

#[test]
fn handles_are_numbered_from_one() {
    let mut handles = FsHandles::new();
    let root = handles.insert(FsHandle::SchemeRoot);
    let f = handles.insert(file("docs/a.txt", O_RDWR));
    let d = handles.insert(dir("docs", vec![entry(5, "a.txt", 2)]));
    assert_eq!((root, f, d), (1, 2, 3));
    assert!(handles.contains(f));
    handles.remove(f);
    assert!(!handles.contains(f));
    assert_eq!(handles.file_path(f), Err(EBADF));
}

#[test]
fn handle_requests() {
    let mut handles = FsHandles::new();
    let root = handles.insert(FsHandle::SchemeRoot);
    let ro = handles.insert(file("a.txt", O_RDONLY));
    let wo = handles.insert(file("b.txt", O_WRONLY));
    let d = handles.insert(dir("docs", vec![entry(5, "a.txt", 2), entry(6, "sub", 1)]));

    assert_eq!(handles.fcntl(ro, F_GETFL), Ok(O_RDONLY));
    assert_eq!(handles.fcntl(wo, F_GETFL), Ok(O_WRONLY));
    assert_eq!(handles.fcntl(root, F_GETFL), Ok(O_RDONLY));
    assert_eq!(handles.fcntl(root, F_GETFD), Ok(0));
    assert_eq!(handles.fcntl(root, F_SETFL), Ok(0));
    assert_eq!(handles.fcntl(root, 99), Err(EINVAL));
    assert_eq!(handles.fcntl(77, F_GETFL), Err(EBADF));
    assert_eq!(handles.fevent_errno(root), EPERM);
    assert_eq!(handles.fevent_errno(77), EBADF);

    assert_eq!(handles.full_path(root, "/scheme/fat"), Ok("/scheme/fat".to_string()));
    assert_eq!(handles.full_path(d, "/scheme/fat"), Ok("/scheme/fat/docs".to_string()));

    assert_eq!(handles.dirfd_base_path(77, "/x/../y"), Ok("y".to_string()));
    assert_eq!(handles.dirfd_base_path(root, "a/./b"), Ok("a/b".to_string()));
    assert_eq!(handles.dirfd_base_path(d, "c"), Ok("docs/c".to_string()));
    assert_eq!(handles.dirfd_base_path(ro, "c"), Err(ENOTDIR));
    assert_eq!(handles.dirfd_base_path(77, "c"), Err(EBADF));

    assert_eq!(handles.file_for_io(ro, false), Ok("a.txt".to_string()));
    assert_eq!(handles.file_for_io(ro, true), Err(EBADF));
    assert_eq!(handles.file_for_io(wo, false), Err(EBADF));
    assert_eq!(handles.file_for_io(d, false), Err(EISDIR));
    assert_eq!(handles.file_path(root), Err(EISDIR));

    assert!(matches!(handles.node(root), Ok(NodeRef::Root)));
    assert!(matches!(handles.node(d), Ok(NodeRef::Directory(p)) if p == "docs"));
    assert_eq!(handles.rename_source(root), Err(EOPNOTSUPP));
    assert_eq!(handles.rename_source(d), Ok("docs".to_string()));

    assert_eq!(handles.set_file_offset(ro, 42), Ok(()));
    assert_eq!(handles.set_file_offset(d, 42), Err(EBADF));
    handles.update_path(ro, "renamed.txt".to_string());
    assert_eq!(handles.file_path(ro), Ok("renamed.txt".to_string()));
    assert_eq!(handles.fat_inode(root), Ok(2));
    assert!(handles.fat_inode(ro).unwrap() != 0);

    let listing = handles.listing(d).unwrap().unwrap();
    assert_eq!(listing.len(), 2);
    assert!(handles.listing(root).unwrap().is_none());
    assert_eq!(handles.listing(ro).unwrap_err(), ENOTDIR);
}

#[test]
fn directory_readers() {
    let entries = vec![entry(5, "a", 2), entry(6, "b", 1), entry(7, "c", 0)];
    let out = fat_dirents(&entries, 1);
    assert_eq!(out.len(), 2);
    assert_eq!((out[0].inode, out[0].next_opaque_id, out[0].name.as_str()), (6, 2, "b"));
    assert_eq!(out[0].kind, EntryKind::Directory);
    assert_eq!(out[1].next_opaque_id, 3);
    assert!(fat_dirents(&entries, 3).is_empty());
    assert_eq!(fat_cursor_after(3, 1), 3);
    assert_eq!(fat_cursor_after(3, 5), 5);

    let ext4 = vec![
        Ext4Listed { inode: 2, opaque: 1, name: ".".to_string(), kind: EntryKind::Directory },
        Ext4Listed { inode: 2, opaque: 2, name: "..".to_string(), kind: EntryKind::Directory },
        Ext4Listed { inode: 12, opaque: 3, name: "f".to_string(), kind: EntryKind::Regular },
    ];
    let after = ext4_dirents_after(&ext4, 2);
    assert_eq!(after.len(), 1);
    assert_eq!(after[0].name, "f");
    assert_eq!(next_opaque(u64::MAX), u64::MAX);
    assert_eq!(next_opaque(4), 5);
}

#[test]
fn fat_times_and_stat() {
    assert_eq!(date_time_to_unix(dt(1980, 1, 1, 0, 0, 0, 0)), (315_532_800, 0));
    assert_eq!(date_time_to_unix(dt(2024, 1, 1, 12, 30, 15, 250)), (1_704_112_215, 250_000_000));
    assert_eq!(date_to_unix(1970, 1, 1), (0, 0));
    assert_eq!(date_to_unix(1969, 12, 31), (0, 0));

    let stat = fat_stat(
        "docs/a.txt",
        false,
        true,
        1000,
        4096,
        dt(2024, 1, 1, 9, 9, 9, 9),
        dt(1980, 1, 1, 0, 0, 1, 0),
        dt(1980, 1, 1, 0, 0, 2, 500),
    );
    assert_eq!(stat.mode, 0o100444);
    assert_eq!(stat.nlink, 1);
    assert_eq!(stat.size, 1000);
    assert_eq!(stat.blksize, 4096);
    assert_eq!(stat.blocks, 2);
    assert_eq!((stat.atime, stat.atime_nsec), (1_704_067_200, 0));
    assert_eq!(stat.mtime, 315_532_801);
    assert_eq!((stat.ctime, stat.ctime_nsec), (315_532_802, 500_000_000));
    let root = fat_stat("", true, false, 0, 512, dt(1980, 1, 1, 0, 0, 0, 0), dt(1980, 1, 1, 0, 0, 0, 0), dt(1980, 1, 1, 0, 0, 0, 0));
    assert_eq!(root.ino, 2);
    assert_eq!(root.mode, 0o40755);
    assert_eq!(root.nlink, 2);
    assert_eq!(root.blocks, 0);
}

#[test]
fn truncation_and_paths() {
    assert_eq!(truncate_plan(10, 20), TruncatePlan::Shrink);
    assert_eq!(truncate_plan(20, 10), TruncatePlan::Extend(10));
    assert_eq!(truncate_plan(5, 5), TruncatePlan::Keep);
    assert_eq!(zero_chunk(10_000), 4096);
    assert_eq!(zero_chunk(100), 100);
    assert_eq!(make_ext4_path(""), "/");
    assert_eq!(make_ext4_path("a/b"), "/a/b");
    assert_eq!(make_fat_path("/a//b/"), "a/b");
}
