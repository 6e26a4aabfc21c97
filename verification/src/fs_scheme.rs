//! The rules that the FAT and ext4 file-system schemes share: who may do
//! what to a node, what an open request does with a node that exists or
//! one that does not, what the handles of a mounted file system remember,
//! and how errors are reported.
use vstd::prelude::*;
use vstd::string::{StrSliceExecFns, StringExecFns};
use std::collections::BTreeMap;
use crate::btusb_probe::{find_from, find_text};
use crate::fatd::{
    inode_of, joined_path, normalize_path, normalized, parent_child, split_parent_child,
    PathSplitError,
};

verus! {

broadcast use {vstd::std_specs::btree::group_btree_axioms, vstd::laws_cmp::group_laws_cmp};

// ---- The numbers of the Redox system-call interface ----
/// Open for reading only.
pub const O_RDONLY: usize = 0x0001_0000;
/// Open for writing only.
pub const O_WRONLY: usize = 0x0002_0000;
/// Open for reading and writing.
pub const O_RDWR: usize = 0x0003_0000;
/// The bits that hold the access mode.
pub const O_ACCMODE: usize = 0x0003_0000;
/// Create the node where it does not exist.
pub const O_CREAT: usize = 0x0200_0000;
/// Truncate a file to length zero.
pub const O_TRUNC: usize = 0x0400_0000;
/// Together with `O_CREAT`: fail where the node exists.
pub const O_EXCL: usize = 0x0800_0000;
/// The node must be a directory.
pub const O_DIRECTORY: usize = 0x1000_0000;

/// `fcntl` commands.
pub const F_GETFD: usize = 1;
pub const F_SETFD: usize = 2;
pub const F_GETFL: usize = 3;
pub const F_SETFL: usize = 4;

/// Error numbers.
pub const EPERM: i32 = 1;
pub const ENOENT: i32 = 2;
pub const EIO: i32 = 5;
pub const EBADF: i32 = 9;
pub const EACCES: i32 = 13;
pub const EEXIST: i32 = 17;
pub const ENOTDIR: i32 = 20;
pub const EISDIR: i32 = 21;
pub const EINVAL: i32 = 22;
pub const ENOSPC: i32 = 28;
pub const ENOTEMPTY: i32 = 39;
pub const EOPNOTSUPP: i32 = 95;

/// Permission bits of one class (owner, group or others).
pub const PERM_EXEC: u16 = 0o1;
pub const PERM_WRITE: u16 = 0o2;
pub const PERM_READ: u16 = 0o4;

// ---- Permissions ----
/// On FAT, which keeps no owners: the superuser may do anything, members
/// of group 0 get the group bits of the mode, everyone else the bits of
/// others; all the bits asked for must be granted.
pub open spec fn fat_granted(mode: u16, uid: u32, gid: u32, perm: u16) -> bool {
    uid == 0 || ((if gid == 0 {
        (mode >> 3u16) & 7u16
    } else {
        mode & 7u16
    }) & perm) == perm
}

/// Whether a caller may act on a FAT node of the given mode.
pub fn fat_permission(mode: u16, uid: u32, gid: u32, perm: u16) -> (r: bool)
    ensures
        r == fat_granted(mode, uid, gid, perm),
{
    if uid == 0 {
        return true;
    }
    let granted = if gid == 0 {
        (mode >> 3u16) & 0o7
    } else {
        mode & 0o7
    };
    granted & perm == perm
}

/// On ext4: the superuser may do anything; the owner gets the owner bits,
/// members of the owning group the group bits, everyone else the bits of
/// others; all the bits asked for must be granted.
pub open spec fn inode_granted(
    mode: u16,
    owner_uid: u32,
    owner_gid: u32,
    uid: u32,
    gid: u32,
    perm: u16,
) -> bool {
    uid == 0 || ((if uid == owner_uid {
        (mode >> 6u16) & 7u16
    } else if gid == owner_gid {
        (mode >> 3u16) & 7u16
    } else {
        mode & 7u16
    }) & perm) == perm
}

/// Whether a caller may act on an ext4 inode.
pub fn inode_permission(mode: u16, owner_uid: u32, owner_gid: u32, uid: u32, gid: u32, perm: u16) -> (r:
    bool)
    ensures
        r == inode_granted(mode, owner_uid, owner_gid, uid, gid, perm),
{
    if uid == 0 {
        return true;
    }
    let granted = if uid == owner_uid {
        (mode >> 6u16) & 0o7
    } else if gid == owner_gid {
        (mode >> 3u16) & 0o7
    } else {
        mode & 0o7
    };
    granted & perm == perm
}

// ---- Opening ----
/// What an open request of a node that exists opens.
#[derive(Clone, Copy, Debug, PartialEq, Eq, Structural)]
pub enum OpenTarget {
    /// A directory handle.
    Directory,
    /// A file handle; the file is truncated first where asked.
    File { truncate: bool },
}

/// The outcome of an open request of a node that exists: creating it
/// exclusively fails; a directory opens only for reading, where the
/// caller may read it; a file does not open as a directory, nor, where it
/// is read-only, for writing or truncation; then the caller needs read
/// permission unless it only writes, and write permission unless it only
/// reads.
pub open spec fn open_existing_spec(
    flags: usize,
    is_dir: bool,
    read_only: bool,
    may_read: bool,
    may_write: bool,
) -> Result<OpenTarget, i32> {
    if flags & (O_CREAT | O_EXCL) == O_CREAT | O_EXCL {
        Err(EEXIST)
    } else if is_dir {
        if flags & O_ACCMODE != O_RDONLY {
            Err(EISDIR)
        } else if !may_read {
            Err(EACCES)
        } else {
            Ok(OpenTarget::Directory)
        }
    } else if flags & O_DIRECTORY == O_DIRECTORY {
        Err(ENOTDIR)
    } else if read_only && (flags & O_ACCMODE != O_RDONLY || flags & O_TRUNC == O_TRUNC) {
        Err(EACCES)
    } else if flags & O_ACCMODE != O_WRONLY && !may_read {
        Err(EACCES)
    } else if flags & O_ACCMODE != O_RDONLY && !may_write {
        Err(EACCES)
    } else {
        Ok(OpenTarget::File { truncate: flags & O_TRUNC == O_TRUNC })
    }
}

/// Decides an open request of a node that exists. `read_only` is the
/// node's read-only attribute (FAT; ext4 has none), `may_read` and
/// `may_write` whether the caller holds those permissions on it.
pub fn open_existing(flags: usize, is_dir: bool, read_only: bool, may_read: bool, may_write: bool) -> (r:
    Result<OpenTarget, i32>)
    ensures
        r == open_existing_spec(flags, is_dir, read_only, may_read, may_write),
{
    if flags & (O_CREAT | O_EXCL) == O_CREAT | O_EXCL {
        return Err(EEXIST);
    }
    if is_dir {
        if flags & O_ACCMODE != O_RDONLY {
            return Err(EISDIR);
        }
        if !may_read {
            return Err(EACCES);
        }
        return Ok(OpenTarget::Directory);
    }
    if flags & O_DIRECTORY == O_DIRECTORY {
        return Err(ENOTDIR);
    }
    if read_only && (flags & O_ACCMODE != O_RDONLY || flags & O_TRUNC == O_TRUNC) {
        return Err(EACCES);
    }
    if flags & O_ACCMODE != O_WRONLY && !may_read {
        return Err(EACCES);
    }
    if flags & O_ACCMODE != O_RDONLY && !may_write {
        return Err(EACCES);
    }
    Ok(OpenTarget::File { truncate: flags & O_TRUNC == O_TRUNC })
}

/// What an open request of a node that does not exist creates.
#[derive(Clone, Copy, Debug, PartialEq, Eq, Structural)]
pub enum CreateTarget {
    Directory,
    File,
}

/// A missing node is created only where asked, as a directory where asked.
pub open spec fn open_missing_spec(flags: usize) -> Result<CreateTarget, i32> {
    if flags & O_CREAT != O_CREAT {
        Err(ENOENT)
    } else if flags & O_DIRECTORY == O_DIRECTORY {
        Ok(CreateTarget::Directory)
    } else {
        Ok(CreateTarget::File)
    }
}

/// Decides an open request of a node that does not exist.
pub fn open_missing(flags: usize) -> (r: Result<CreateTarget, i32>)
    ensures
        r == open_missing_spec(flags),
{
    if flags & O_CREAT != O_CREAT {
        Err(ENOENT)
    } else if flags & O_DIRECTORY == O_DIRECTORY {
        Ok(CreateTarget::Directory)
    } else {
        Ok(CreateTarget::File)
    }
}

/// The error number of a path that names no child: `EPERM` for the root,
/// `EINVAL` for a path ending in a separator.
pub open spec fn split_errno(e: PathSplitError) -> i32 {
    match e {
        PathSplitError::Root => EPERM,
        PathSplitError::EmptyChild => EINVAL,
    }
}

/// A path's parent directory and last component, or its error number.
pub fn parent_and_child(path: &str) -> (r: Result<(String, String), i32>)
    ensures
        match parent_child(path@) {
            Ok((a, b)) => r matches Ok(x) && x.0@ == a && x.1@ == b,
            Err(e) => r == Err::<(String, String), i32>(split_errno(e)),
        },
{
    match split_parent_child(path) {
        Ok(pc) => Ok(pc),
        Err(PathSplitError::Root) => Err(EPERM),
        Err(PathSplitError::EmptyChild) => Err(EINVAL),
    }
}

/// The parent of a node to be created or removed must exist, be a
/// directory, and let the caller search and write it.
pub open spec fn parent_check_spec(exists: bool, is_dir: bool, may_exec_write: bool) -> Result<(), i32> {
    if !exists {
        Err(ENOENT)
    } else if !is_dir {
        Err(ENOTDIR)
    } else if !may_exec_write {
        Err(EACCES)
    } else {
        Ok(())
    }
}

/// Checks the parent of a node to be created or removed.
pub fn parent_check(exists: bool, is_dir: bool, may_exec_write: bool) -> (r: Result<(), i32>)
    ensures
        r == parent_check_spec(exists, is_dir, may_exec_write),
{
    if !exists {
        Err(ENOENT)
    } else if !is_dir {
        Err(ENOTDIR)
    } else if !may_exec_write {
        Err(EACCES)
    } else {
        Ok(())
    }
}

/// What removing a node does: a directory is removed only as one (and only
/// where it is empty), anything else only as a file. `Ok(true)` where the
/// directory's emptiness must be checked first.
pub open spec fn unlink_spec(remove_dir: bool, is_dir: bool) -> Result<bool, i32> {
    if remove_dir {
        if !is_dir {
            Err(ENOTDIR)
        } else {
            Ok(true)
        }
    } else if is_dir {
        Err(EISDIR)
    } else {
        Ok(false)
    }
}

/// Decides a remove request.
pub fn unlink_plan(remove_dir: bool, is_dir: bool) -> (r: Result<bool, i32>)
    ensures
        r == unlink_spec(remove_dir, is_dir),
{
    if remove_dir {
        if !is_dir {
            Err(ENOTDIR)
        } else {
            Ok(true)
        }
    } else if is_dir {
        Err(EISDIR)
    } else {
        Ok(false)
    }
}

/// A directory is empty when it holds nothing but `.` and `..`.
pub open spec fn only_dots(names: Seq<Seq<char>>) -> bool {
    forall|i: int| 0 <= i < names.len() ==> #[trigger] names[i] == "."@ || names[i] == ".."@
}

/// Whether a directory's names leave it empty; `ENOTEMPTY` where not.
pub fn require_empty(names: &Vec<String>) -> (r: Result<(), i32>)
    ensures
        r == (if only_dots(names@.map_values(|s: String| s@)) {
            Ok::<(), i32>(())
        } else {
            Err(ENOTEMPTY)
        }),
{
    let mut i: usize = 0;
    while i < names.len()
        invariant
            i <= names@.len(),
            forall|j: int| 0 <= j < i ==> #[trigger] names@[j]@ == "."@ || names@[j]@ == ".."@,
        decreases names@.len() - i,
    {
        let n = String::from_str(names[i].as_str());
        if n != String::from_str(".") && n != String::from_str("..") {
            assert(names@.map_values(|s: String| s@)[i as int] == names@[i as int]@);
            return Err(ENOTEMPTY);
        }
        i = i + 1;
    }
    Ok(())
}

// ---- Directory entries ----
/// The kind of a directory entry as the scheme reports it.
#[derive(Clone, Copy, Debug, PartialEq, Eq, Structural)]
pub enum EntryKind {
    Unspecified,
    Regular,
    Directory,
    Symlink,
    BlockDev,
    CharDev,
    Socket,
}

/// The FAT scheme's kind bytes.
pub const KIND_UNSPECIFIED: u8 = 0;
pub const KIND_DIRECTORY: u8 = 1;
pub const KIND_REGULAR: u8 = 2;

/// The kind byte a FAT entry gets: directory, regular file, or neither.
pub fn fat_kind_byte(is_dir: bool, is_file: bool) -> (r: u8)
    ensures
        r == (if is_dir {
            KIND_DIRECTORY
        } else if is_file {
            KIND_REGULAR
        } else {
            KIND_UNSPECIFIED
        }),
{
    if is_dir {
        KIND_DIRECTORY
    } else if is_file {
        KIND_REGULAR
    } else {
        KIND_UNSPECIFIED
    }
}

/// The kind a FAT kind byte stands for.
pub open spec fn fat_kind_spec(kind: u8) -> EntryKind {
    if kind == KIND_DIRECTORY {
        EntryKind::Directory
    } else if kind == KIND_REGULAR {
        EntryKind::Regular
    } else {
        EntryKind::Unspecified
    }
}

/// Reads a FAT kind byte.
pub fn dirent_kind_from_byte(kind: u8) -> (r: EntryKind)
    ensures
        r == fat_kind_spec(kind),
{
    if kind == KIND_DIRECTORY {
        EntryKind::Directory
    } else if kind == KIND_REGULAR {
        EntryKind::Regular
    } else {
        EntryKind::Unspecified
    }
}

/// ext4 directory entry file types.
pub const EXT4_FT_REG_FILE: u8 = 1;
pub const EXT4_FT_DIR: u8 = 2;
pub const EXT4_FT_CHRDEV: u8 = 3;
pub const EXT4_FT_BLKDEV: u8 = 4;
pub const EXT4_FT_SOCK: u8 = 6;
pub const EXT4_FT_SYMLINK: u8 = 7;

/// The kind of an ext4 entry: `.` and `..` are directories, anything else
/// goes by its file type (FIFOs and unknown types are unspecified).
pub open spec fn ext4_kind_spec(name: Seq<char>, file_type: u8) -> EntryKind {
    if name == "."@ || name == ".."@ {
        EntryKind::Directory
    } else if file_type == EXT4_FT_DIR {
        EntryKind::Directory
    } else if file_type == EXT4_FT_REG_FILE {
        EntryKind::Regular
    } else if file_type == EXT4_FT_CHRDEV {
        EntryKind::CharDev
    } else if file_type == EXT4_FT_BLKDEV {
        EntryKind::BlockDev
    } else if file_type == EXT4_FT_SYMLINK {
        EntryKind::Symlink
    } else if file_type == EXT4_FT_SOCK {
        EntryKind::Socket
    } else {
        EntryKind::Unspecified
    }
}

/// The kind of an ext4 directory entry.
pub fn ext4_entry_kind(name: &str, file_type: u8) -> (r: EntryKind)
    ensures
        r == ext4_kind_spec(name@, file_type),
{
    let n = String::from_str(name);
    if n == String::from_str(".") || n == String::from_str("..") {
        EntryKind::Directory
    } else if file_type == EXT4_FT_DIR {
        EntryKind::Directory
    } else if file_type == EXT4_FT_REG_FILE {
        EntryKind::Regular
    } else if file_type == EXT4_FT_CHRDEV {
        EntryKind::CharDev
    } else if file_type == EXT4_FT_BLKDEV {
        EntryKind::BlockDev
    } else if file_type == EXT4_FT_SYMLINK {
        EntryKind::Symlink
    } else if file_type == EXT4_FT_SOCK {
        EntryKind::Socket
    } else {
        EntryKind::Unspecified
    }
}

// ---- Errors ----
/// The kinds of I/O error the FAT scheme tells apart.
#[derive(Clone, Copy, Debug, PartialEq, Eq, Structural)]
pub enum IoErrorKind {
    NotFound,
    AlreadyExists,
    InvalidInput,
    PermissionDenied,
    WriteZero,
    UnexpectedEof,
    Other,
}

/// A character in lower case, for ASCII letters.
pub open spec fn ascii_lower(c: char) -> char {
    if 'A' <= c <= 'Z' {
        ((c as u32) + 32) as char
    } else {
        c
    }
}

/// Text with its ASCII letters in lower case.
pub open spec fn ascii_lowercase(s: Seq<char>) -> Seq<char> {
    s.map_values(|c: char| ascii_lower(c))
}

/// `pat` occurs in `s`.
pub open spec fn contains_text(s: Seq<char>, pat: Seq<char>) -> bool {
    find_from(s, pat, 0) >= 0
}

/// The error number of an I/O error: by its kind where the kind says
/// enough, else by its message (in lower case).
pub open spec fn io_errno_spec(kind: IoErrorKind, message: Seq<char>) -> i32 {
    match kind {
        IoErrorKind::NotFound => ENOENT,
        IoErrorKind::AlreadyExists => EEXIST,
        IoErrorKind::InvalidInput => EINVAL,
        IoErrorKind::PermissionDenied => EACCES,
        IoErrorKind::WriteZero => ENOSPC,
        IoErrorKind::UnexpectedEof => EIO,
        IoErrorKind::Other => {
            let m = ascii_lowercase(message);
            if contains_text(m, "is a directory"@) {
                EISDIR
            } else if contains_text(m, "not a directory"@) {
                ENOTDIR
            } else if contains_text(m, "directory not empty"@) {
                ENOTEMPTY
            } else if contains_text(m, "file name"@) {
                EINVAL
            } else {
                EIO
            }
        },
    }
}

fn lowercase_ascii(s: &str) -> (r: String)
    ensures
        r@ == ascii_lowercase(s@),
{
    let n = s.unicode_len();
    let mut out = String::new();
    let mut i: usize = 0;
    while i < n
        invariant
            i <= n,
            n == s@.len(),
            out@ == ascii_lowercase(s@.subrange(0, i as int)),
        decreases n - i,
    {
        let c = s.get_char(i);
        let l = if 'A' <= c && c <= 'Z' {
            let code: u8 = (c as u32 + 32) as u8;
            code as char
        } else {
            c
        };
        crate::text::push_char(&mut out, l);
        assert(ascii_lowercase(s@.subrange(0, i + 1)) =~= ascii_lowercase(
            s@.subrange(0, i as int),
        ).push(ascii_lower(c)));
        i = i + 1;
    }
    assert(s@.subrange(0, n as int) =~= s@);
    out
}

/// The error number the scheme reports for an I/O error.
pub fn io_errno(kind: IoErrorKind, message: &str) -> (r: i32)
    ensures
        r == io_errno_spec(kind, message@),
{
    match kind {
        IoErrorKind::NotFound => ENOENT,
        IoErrorKind::AlreadyExists => EEXIST,
        IoErrorKind::InvalidInput => EINVAL,
        IoErrorKind::PermissionDenied => EACCES,
        IoErrorKind::WriteZero => ENOSPC,
        IoErrorKind::UnexpectedEof => EIO,
        IoErrorKind::Other => {
            let lower = lowercase_ascii(message);
            let m = lower.as_str();
            if find_text(m, "is a directory", 0).is_some() {
                EISDIR
            } else if find_text(m, "not a directory", 0).is_some() {
                ENOTDIR
            } else if find_text(m, "directory not empty", 0).is_some() {
                ENOTEMPTY
            } else if find_text(m, "file name", 0).is_some() {
                EINVAL
            } else {
                EIO
            }
        },
    }
}

// ---- Handles ----
/// An entry of a FAT directory as its handle lists it.
#[derive(Clone, Debug)]
pub struct ListedEntry {
    pub inode: u64,
    pub name: String,
    pub kind: u8,
}

/// What an open handle of a mounted file system refers to.
#[derive(Debug)]
pub enum FsHandle {
    /// A file, with the offset reached and the open flags.
    File { path: String, offset: u64, flags: usize },
    /// A directory, with its listing (FAT), the listing cursor and the
    /// open flags.
    Directory { path: String, entries: Vec<ListedEntry>, cursor: usize, flags: usize },
    /// The scheme's root.
    SchemeRoot,
}

/// The path a handle refers to (the root's is empty).
pub open spec fn handle_path(h: FsHandle) -> Seq<char> {
    match h {
        FsHandle::File { path, .. } => path@,
        FsHandle::Directory { path, .. } => path@,
        FsHandle::SchemeRoot => Seq::empty(),
    }
}

/// The open flags of a handle (the root has none).
pub open spec fn handle_flags(h: FsHandle) -> Option<usize> {
    match h {
        FsHandle::File { flags, .. } => Some(flags),
        FsHandle::Directory { flags, .. } => Some(flags),
        FsHandle::SchemeRoot => None,
    }
}

/// A file opened for reading (alone or with writing).
pub open spec fn readable(flags: usize) -> bool {
    flags & O_ACCMODE == O_RDONLY || flags & O_ACCMODE == O_RDWR
}

/// A file opened for writing (alone or with reading).
pub open spec fn writable(flags: usize) -> bool {
    flags & O_ACCMODE == O_WRONLY || flags & O_ACCMODE == O_RDWR
}

/// What a handle number refers to, for the operations that go by kind.
#[derive(Debug)]
pub enum NodeRef {
    Root,
    Directory(String),
    File(String),
}

/// The handles of a mounted file system: numbers are handed out in turn
/// from 1, as an atomic counter does (wrapping around after the largest).
pub struct FsHandles {
    next_id: usize,
    handles: BTreeMap<usize, FsHandle>,
}

impl FsHandles {
    /// The open handles by number.
    pub closed spec fn open_handles(&self) -> Map<usize, FsHandle> {
        self.handles@
    }

    /// The number the next handle gets.
    pub closed spec fn next(&self) -> usize {
        self.next_id
    }

    /// No handle open yet; the first gets number 1.
    pub fn new() -> (r: Self)
        ensures
            r.open_handles() == Map::<usize, FsHandle>::empty(),
            r.next() == 1,
    {
        FsHandles { next_id: 1, handles: BTreeMap::new() }
    }

    /// Opens a handle: it gets the next number (and replaces a handle that
    /// number named, after the counter wrapped).
    pub fn insert(&mut self, handle: FsHandle) -> (id: usize)
        ensures
            id == old(self).next(),
            final(self).open_handles() == old(self).open_handles().insert(id, handle),
            final(self).next() == (if old(self).next() == usize::MAX {
                0
            } else {
                old(self).next() + 1
            }),
    {
        let id = self.next_id;
        self.next_id = if id == usize::MAX {
            0
        } else {
            id + 1
        };
        self.handles.insert(id, handle);
        id
    }

    /// Closes a handle.
    pub fn remove(&mut self, id: usize)
        ensures
            final(self).open_handles() == old(self).open_handles().remove(id),
            final(self).next() == old(self).next(),
    {
        self.handles.remove(&id);
    }

    /// Whether a handle number is open.
    pub fn contains(&self, id: usize) -> (r: bool)
        ensures
            r == self.open_handles().contains_key(id),
    {
        self.handles.contains_key(&id)
    }

    /// `fcntl`: the open flags (read-only for the root), the descriptor
    /// flags (none), accepted sets; any other command is invalid.
    pub fn fcntl(&self, id: usize, cmd: usize) -> (r: Result<usize, i32>)
        ensures
            !self.open_handles().contains_key(id) ==> r == Err::<usize, i32>(EBADF),
            self.open_handles().contains_key(id) ==> r == (if cmd == F_GETFL {
                Ok::<usize, i32>(
                    match handle_flags(self.open_handles()[id]) {
                        Some(f) => f,
                        None => O_RDONLY,
                    },
                )
            } else if cmd == F_GETFD || cmd == F_SETFL || cmd == F_SETFD {
                Ok(0)
            } else {
                Err(EINVAL)
            }),
    {
        match self.handles.get(&id) {
            None => Err(EBADF),
            Some(h) => {
                if cmd == F_GETFL {
                    Ok(
                        match h {
                            FsHandle::File { flags, .. } => *flags,
                            FsHandle::Directory { flags, .. } => *flags,
                            FsHandle::SchemeRoot => O_RDONLY,
                        },
                    )
                } else if cmd == F_GETFD || cmd == F_SETFL || cmd == F_SETFD {
                    Ok(0)
                } else {
                    Err(EINVAL)
                }
            },
        }
    }

    /// Events are not supported: `EPERM` for an open handle, else `EBADF`.
    pub fn fevent_errno(&self, id: usize) -> (r: i32)
        ensures
            r == (if self.open_handles().contains_key(id) {
                EPERM
            } else {
                EBADF
            }),
    {
        if self.handles.contains_key(&id) {
            EPERM
        } else {
            EBADF
        }
    }

    /// The full path of a handle below the mount point.
    pub fn full_path(&self, id: usize, mounted: &str) -> (r: Result<String, i32>)
        ensures
            !self.open_handles().contains_key(id) ==> r == Err::<String, i32>(EBADF),
            self.open_handles().contains_key(id) ==> (r matches Ok(p) && p@ == (if handle_path(
                self.open_handles()[id],
            ).len() == 0 {
                mounted@
            } else {
                mounted@ + "/"@ + handle_path(self.open_handles()[id])
            })),
    {
        match self.handles.get(&id) {
            None => Err(EBADF),
            Some(h) => {
                let path = match h {
                    FsHandle::File { path, .. } => path.as_str(),
                    FsHandle::Directory { path, .. } => path.as_str(),
                    FsHandle::SchemeRoot => "",
                };
                proof {
                    reveal_strlit("");
                }
                if path.unicode_len() == 0 {
                    Ok(String::from_str(mounted))
                } else {
                    let mut full = String::from_str(mounted);
                    full.append("/");
                    full.append(path);
                    Ok(full)
                }
            },
        }
    }

    /// The path a request relative to a directory handle resolves to: an
    /// absolute path on its own; else below the root or the directory; a
    /// file handle is no directory.
    pub fn dirfd_base_path(&self, dirfd: usize, path: &str) -> (r: Result<String, i32>)
        ensures
            path@.len() > 0 && path@[0] == '/' ==> (r matches Ok(p) && p@ == normalized(path@)),
            !(path@.len() > 0 && path@[0] == '/') ==> match self.open_handles().get(dirfd) {
                None => r == Err::<String, i32>(EBADF),
                Some(FsHandle::SchemeRoot) => r matches Ok(p) && p@ == normalized(path@),
                Some(FsHandle::Directory { path: base, .. }) => r matches Ok(p) && p@
                    == joined_path(base@, path@),
                Some(FsHandle::File { .. }) => r == Err::<String, i32>(ENOTDIR),
            },
    {
        if path.unicode_len() > 0 && path.get_char(0) == '/' {
            return Ok(normalize_path(path));
        }
        match self.handles.get(&dirfd) {
            None => Err(EBADF),
            Some(FsHandle::SchemeRoot) => Ok(normalize_path(path)),
            Some(FsHandle::Directory { path: base, .. }) => Ok(
                crate::fatd::join_path(base.as_str(), path),
            ),
            Some(FsHandle::File { .. }) => Err(ENOTDIR),
        }
    }

    /// The file a read or write goes to: only a file handle opened for it.
    pub fn file_for_io(&self, id: usize, write: bool) -> (r: Result<String, i32>)
        ensures
            match self.open_handles().get(id) {
                None => r == Err::<String, i32>(EBADF),
                Some(FsHandle::File { path, flags, .. }) => if (write && !writable(flags)) || (
                !write && !readable(flags)) {
                    r == Err::<String, i32>(EBADF)
                } else {
                    r matches Ok(p) && p@ == path@
                },
                Some(_) => r == Err::<String, i32>(EISDIR),
            },
    {
        match self.handles.get(&id) {
            None => Err(EBADF),
            Some(FsHandle::File { path, flags, .. }) => {
                let mode = *flags & O_ACCMODE;
                let can_write = mode == O_WRONLY || mode == O_RDWR;
                let can_read = mode == O_RDONLY || mode == O_RDWR;
                if (write && !can_write) || (!write && !can_read) {
                    Err(EBADF)
                } else {
                    Ok(String::from_str(path.as_str()))
                }
            },
            Some(_) => Err(EISDIR),
        }
    }

    /// The file a handle refers to, for operations on files only.
    pub fn file_path(&self, id: usize) -> (r: Result<String, i32>)
        ensures
            match self.open_handles().get(id) {
                None => r == Err::<String, i32>(EBADF),
                Some(FsHandle::File { path, .. }) => r matches Ok(p) && p@ == path@,
                Some(_) => r == Err::<String, i32>(EISDIR),
            },
    {
        match self.handles.get(&id) {
            None => Err(EBADF),
            Some(FsHandle::File { path, .. }) => Ok(String::from_str(path.as_str())),
            Some(_) => Err(EISDIR),
        }
    }

    /// What a handle refers to.
    pub fn node(&self, id: usize) -> (r: Result<NodeRef, i32>)
        ensures
            match self.open_handles().get(id) {
                None => r matches Err(e) && e == EBADF,
                Some(FsHandle::File { path, .. }) => r matches Ok(NodeRef::File(p)) && p@ == path@,
                Some(FsHandle::Directory { path, .. }) => r matches Ok(NodeRef::Directory(p)) && p@
                    == path@,
                Some(FsHandle::SchemeRoot) => r matches Ok(NodeRef::Root),
            },
    {
        match self.handles.get(&id) {
            None => Err(EBADF),
            Some(FsHandle::File { path, .. }) => Ok(NodeRef::File(String::from_str(path.as_str()))),
            Some(FsHandle::Directory { path, .. }) => Ok(
                NodeRef::Directory(String::from_str(path.as_str())),
            ),
            Some(FsHandle::SchemeRoot) => Ok(NodeRef::Root),
        }
    }

    /// The node a rename moves: a file or a directory, not the root.
    pub fn rename_source(&self, id: usize) -> (r: Result<String, i32>)
        ensures
            match self.open_handles().get(id) {
                None => r == Err::<String, i32>(EBADF),
                Some(FsHandle::SchemeRoot) => r == Err::<String, i32>(EOPNOTSUPP),
                Some(h) => r matches Ok(p) && p@ == handle_path(h),
            },
    {
        match self.handles.get(&id) {
            None => Err(EBADF),
            Some(FsHandle::SchemeRoot) => Err(EOPNOTSUPP),
            Some(FsHandle::File { path, .. }) => Ok(String::from_str(path.as_str())),
            Some(FsHandle::Directory { path, .. }) => Ok(String::from_str(path.as_str())),
        }
    }

    /// Records the offset a file handle reached; `EBADF` for anything but
    /// a file handle.
    pub fn set_file_offset(&mut self, id: usize, offset: u64) -> (r: Result<(), i32>)
        ensures
            final(self).next() == old(self).next(),
            match old(self).open_handles().get(id) {
                Some(FsHandle::File { path, flags, .. }) => {
                    &&& r is Ok
                    &&& final(self).open_handles().dom() == old(self).open_handles().dom()
                    &&& forall|k: usize|
                        k != id && #[trigger] old(self).open_handles().contains_key(k)
                            ==> final(self).open_handles()[k] == old(self).open_handles()[k]
                    &&& final(self).open_handles()[id] matches FsHandle::File {
                        path: p,
                        offset: o,
                        flags: f,
                    } && p@ == path@ && o == offset && f == flags
                },
                _ => r == Err::<(), i32>(EBADF) && final(self).open_handles() == old(self).open_handles(),
            },
    {
        match self.handles.remove(&id) {
            Some(FsHandle::File { path, flags, .. }) => {
                self.handles.insert(id, FsHandle::File { path, offset, flags });
                proof {
                    assert(self.handles@.dom() =~= old(self).handles@.dom());
                }
                Ok(())
            },
            Some(other) => {
                self.handles.insert(id, other);
                proof {
                    assert(self.handles@ =~= old(self).handles@);
                }
                Err(EBADF)
            },
            None => {
                proof {
                    assert(self.handles@ =~= old(self).handles@);
                }
                Err(EBADF)
            },
        }
    }

    /// Records the listing cursor of a directory handle; other handles
    /// stay as they are.
    pub fn set_cursor(&mut self, id: usize, cursor: usize)
        ensures
            final(self).next() == old(self).next(),
            final(self).open_handles().dom() == old(self).open_handles().dom(),
            forall|k: usize|
                k != id && #[trigger] old(self).open_handles().contains_key(k)
                    ==> final(self).open_handles()[k] == old(self).open_handles()[k],
            match old(self).open_handles().get(id) {
                Some(FsHandle::Directory { path, entries, flags, .. }) => final(self).open_handles()[id] matches FsHandle::Directory {
                    path: p,
                    entries: e,
                    cursor: c,
                    flags: f,
                } && p@ == path@ && e@ == entries@ && c == cursor && f == flags,
                _ => final(self).open_handles() == old(self).open_handles(),
            },
    {
        match self.handles.remove(&id) {
            Some(FsHandle::Directory { path, entries, flags, .. }) => {
                self.handles.insert(id, FsHandle::Directory { path, entries, cursor, flags });
                proof {
                    assert(self.handles@.dom() =~= old(self).handles@.dom());
                }
            },
            Some(other) => {
                self.handles.insert(id, other);
                proof {
                    assert(self.handles@ =~= old(self).handles@);
                }
            },
            None => {
                proof {
                    assert(self.handles@ =~= old(self).handles@);
                }
            },
        }
    }

    /// Points a file or directory handle at the path its node was renamed
    /// to; the root's handle stays as it is.
    pub fn update_path(&mut self, id: usize, new_path: String)
        ensures
            final(self).next() == old(self).next(),
            final(self).open_handles().dom() == old(self).open_handles().dom(),
            forall|k: usize|
                k != id && #[trigger] old(self).open_handles().contains_key(k)
                    ==> final(self).open_handles()[k] == old(self).open_handles()[k],
            match old(self).open_handles().get(id) {
                Some(FsHandle::File { offset, flags, .. }) => final(self).open_handles()[id] matches FsHandle::File { path: p, offset: o, flags: f } && p@
                    == new_path@ && o == offset && f == flags,
                Some(FsHandle::Directory { entries, cursor, flags, .. }) => final(self).open_handles()[id] matches FsHandle::Directory {
                    path: p,
                    entries: e,
                    cursor: c,
                    flags: f,
                } && p@ == new_path@ && e@ == entries@ && c == cursor && f == flags,
                _ => final(self).open_handles() == old(self).open_handles(),
            },
    {
        match self.handles.remove(&id) {
            Some(FsHandle::File { offset, flags, .. }) => {
                self.handles.insert(id, FsHandle::File { path: new_path, offset, flags });
                proof {
                    assert(self.handles@.dom() =~= old(self).handles@.dom());
                }
            },
            Some(FsHandle::Directory { entries, cursor, flags, .. }) => {
                self.handles.insert(id, FsHandle::Directory { path: new_path, entries, cursor, flags });
                proof {
                    assert(self.handles@.dom() =~= old(self).handles@.dom());
                }
            },
            Some(other) => {
                self.handles.insert(id, other);
                proof {
                    assert(self.handles@ =~= old(self).handles@);
                }
            },
            None => {
                proof {
                    assert(self.handles@ =~= old(self).handles@);
                }
            },
        }
    }

    /// The listing to read from a handle: a directory's own (FAT keeps
    /// it in the handle), `None` for the root (listed afresh); a file is
    /// no directory.
    pub fn listing(&self, id: usize) -> (r: Result<Option<Vec<ListedEntry>>, i32>)
        ensures
            match self.open_handles().get(id) {
                None => r matches Err(e) && e == EBADF,
                Some(FsHandle::Directory { entries, .. }) => r matches Ok(Some(v)) && entry_views(v@)
                    == entry_views(entries@),
                Some(FsHandle::SchemeRoot) => r matches Ok(None),
                Some(FsHandle::File { .. }) => r matches Err(e) && e == ENOTDIR,
            },
    {
        match self.handles.get(&id) {
            None => Err(EBADF),
            Some(FsHandle::Directory { entries, .. }) => Ok(Some(copy_entries(entries))),
            Some(FsHandle::SchemeRoot) => Ok(None),
            Some(FsHandle::File { .. }) => Err(ENOTDIR),
        }
    }

    /// The inode number the FAT scheme reports for a handle: the root's is
    /// 2, a file's or directory's is made from its path.
    pub fn fat_inode(&self, id: usize) -> (r: Result<usize, i32>)
        ensures
            match self.open_handles().get(id) {
                None => r == Err::<usize, i32>(EBADF),
                Some(FsHandle::SchemeRoot) => r == Ok::<usize, i32>(2),
                Some(h) => r == Ok::<usize, i32>(
                    usize_or_max(inode_of(handle_path(h), h is Directory)),
                ),
            },
    {
        match self.handles.get(&id) {
            None => Err(EBADF),
            Some(FsHandle::SchemeRoot) => Ok(2),
            Some(FsHandle::File { path, .. }) => Ok(crate::fatd::inode_usize(path.as_str(), false)),
            Some(FsHandle::Directory { path, .. }) => Ok(
                crate::fatd::inode_usize(path.as_str(), true),
            ),
        }
    }
}

/// The view of listed entries.
pub open spec fn entry_views(v: Seq<ListedEntry>) -> Seq<(u64, Seq<char>, u8)> {
    v.map_values(|e: ListedEntry| (e.inode, e.name@, e.kind))
}

fn copy_entries(entries: &Vec<ListedEntry>) -> (r: Vec<ListedEntry>)
    ensures
        entry_views(r@) == entry_views(entries@),
{
    let mut out: Vec<ListedEntry> = Vec::new();
    let mut i: usize = 0;
    while i < entries.len()
        invariant
            i <= entries@.len(),
            entry_views(out@) == entry_views(entries@.subrange(0, i as int)),
        decreases entries@.len() - i,
    {
        let e = &entries[i];
        let ghost before = out@;
        out.push(ListedEntry { inode: e.inode, name: String::from_str(e.name.as_str()), kind: e.kind });
        proof {
            assert(entries@.subrange(0, i + 1) =~= entries@.subrange(0, i as int).push(entries@[i as int]));
            assert(entry_views(out@) =~= entry_views(before).push((e.inode, e.name@, e.kind)));
            assert(entry_views(entries@.subrange(0, i + 1)) =~= entry_views(entries@.subrange(0, i as int)).push((e.inode, e.name@, e.kind)));
        }
        i = i + 1;
    }
    assert(entries@.subrange(0, entries@.len() as int) =~= entries@);
    out
}

/// A number as a `usize`, or the largest where it does not fit.
pub open spec fn usize_or_max(x: u64) -> usize {
    if x <= usize::MAX {
        x as usize
    } else {
        usize::MAX
    }
}

/// An entry handed to a directory reader, with the position to continue
/// after it.
#[derive(Clone, Debug)]
pub struct Dirent {
    pub inode: u64,
    pub next_opaque_id: u64,
    pub name: String,
    pub kind: EntryKind,
}

/// The FAT entries from position `start` on, each continuing at the
/// position after it.
pub open spec fn fat_dirents_spec(entries: Seq<ListedEntry>, start: int) -> Seq<(u64, u64, Seq<char>, EntryKind)> {
    if start >= entries.len() {
        Seq::empty()
    } else {
        Seq::new(
            (entries.len() - start) as nat,
            |i: int|
                (
                    entries[start + i].inode,
                    (start + i + 1) as u64,
                    entries[start + i].name@,
                    fat_kind_spec(entries[start + i].kind),
                ),
        )
    }
}

/// The view of handed-out entries.
pub open spec fn dirent_views(v: Seq<Dirent>) -> Seq<(u64, u64, Seq<char>, EntryKind)> {
    v.map_values(|d: Dirent| (d.inode, d.next_opaque_id, d.name@, d.kind))
}

/// The entries of a FAT listing from position `start` on.
pub fn fat_dirents(entries: &Vec<ListedEntry>, start: usize) -> (r: Vec<Dirent>)
    ensures
        dirent_views(r@) == fat_dirents_spec(entries@, start as int),
{
    let mut out: Vec<Dirent> = Vec::new();
    if start >= entries.len() {
        assert(dirent_views(out@) =~= fat_dirents_spec(entries@, start as int));
        return out;
    }
    let mut i: usize = start;
    while i < entries.len()
        invariant
            start <= i <= entries@.len(),
            start < entries@.len(),
            dirent_views(out@) =~= fat_dirents_spec(entries@, start as int).subrange(
                0,
                i - start,
            ),
        decreases entries@.len() - i,
    {
        let e = &entries[i];
        let ghost before = out@;
        out.push(
            Dirent {
                inode: e.inode,
                next_opaque_id: (i + 1) as u64,
                name: String::from_str(e.name.as_str()),
                kind: dirent_kind_from_byte(e.kind),
            },
        );
        proof {
            assert(dirent_views(out@) =~= dirent_views(before).push(
                fat_dirents_spec(entries@, start as int)[i - start],
            ));
        }
        i = i + 1;
    }
    out
}

/// Where a FAT directory reader's cursor ends after reading from `start`:
/// past the last entry where any was read, else at `start`.
pub open spec fn cursor_after(len: int, start: int) -> int {
    if start < len {
        len
    } else {
        start
    }
}

/// The cursor after reading a listing of `len` entries from `start`.
pub fn fat_cursor_after(len: usize, start: usize) -> (r: usize)
    ensures
        r == cursor_after(len as int, start as int),
{
    if start < len {
        len
    } else {
        start
    }
}

/// An ext4 entry as read from its directory blocks, with its position.
#[derive(Clone, Debug)]
pub struct Ext4Listed {
    pub inode: u64,
    pub opaque: u64,
    pub name: String,
    pub kind: EntryKind,
}

/// The ext4 entries a reader gets after position `offset`: those whose
/// position lies beyond it, in order.
pub open spec fn ext4_after_spec(entries: Seq<Ext4Listed>, offset: u64) -> Seq<(u64, u64, Seq<char>, EntryKind)>
    decreases entries.len(),
{
    if entries.len() == 0 {
        Seq::empty()
    } else {
        let e = entries.last();
        let rest = ext4_after_spec(entries.drop_last(), offset);
        if e.opaque <= offset {
            rest
        } else {
            rest.push((e.inode, e.opaque, e.name@, e.kind))
        }
    }
}

/// The ext4 entries a reader gets after position `offset`.
pub fn ext4_dirents_after(entries: &Vec<Ext4Listed>, offset: u64) -> (r: Vec<Dirent>)
    ensures
        dirent_views(r@) == ext4_after_spec(entries@, offset),
{
    let mut out: Vec<Dirent> = Vec::new();
    let mut i: usize = 0;
    while i < entries.len()
        invariant
            i <= entries@.len(),
            dirent_views(out@) == ext4_after_spec(entries@.subrange(0, i as int), offset),
        decreases entries@.len() - i,
    {
        let e = &entries[i];
        proof {
            assert(entries@.subrange(0, i + 1).drop_last() =~= entries@.subrange(0, i as int));
        }
        if e.opaque > offset {
            let ghost before = out@;
            out.push(
                Dirent {
                    inode: e.inode,
                    next_opaque_id: e.opaque,
                    name: String::from_str(e.name.as_str()),
                    kind: e.kind,
                },
            );
            proof {
                assert(dirent_views(out@) =~= dirent_views(before).push(
                    (e.inode, e.opaque, e.name@, e.kind),
                ));
            }
        }
        i = i + 1;
    }
    assert(entries@.subrange(0, entries@.len() as int) =~= entries@);
    out
}

/// The position the next ext4 entry gets: one more, stopping at the
/// largest.
pub fn next_opaque(opaque: u64) -> (r: u64)
    ensures
        r == (if opaque == u64::MAX {
            u64::MAX
        } else {
            (opaque + 1) as u64
        }),
{
    opaque.saturating_add(1)
}

// ---- FAT times and stat ----
/// A FAT timestamp, with the fields of the on-disk date and time.
#[derive(Clone, Copy, Debug, PartialEq, Eq, Structural)]
pub struct FatDateTime {
    pub year: u16,
    pub month: u16,
    pub day: u16,
    pub hour: u16,
    pub min: u16,
    pub sec: u16,
    pub millis: u16,
}

/// Seconds since the Unix epoch of a timestamp, with its fraction in
/// nanoseconds; `(0, 0)` for any moment up to the epoch.
pub open spec fn unix_time_spec(t: FatDateTime) -> (u64, u32) {
    let secs = crate::fatd::civil_days(t.year as int, t.month as int, t.day as int) * 86400
        + t.hour * 3600 + t.min * 60 + t.sec;
    if secs <= 0 {
        (0, 0)
    } else {
        (secs as u64, (t.millis * 1_000_000) as u32)
    }
}

/// Converts a FAT timestamp to Unix time. The milliseconds of a FAT time
/// stay below 1000; the nanosecond product must fit 32 bits.
pub fn date_time_to_unix(t: FatDateTime) -> (r: (u64, u32))
    requires
        t.millis <= 4294,
    ensures
        r == unix_time_spec(t),
{
    let days = crate::fatd::days_from_civil(t.year as i64, t.month as i64, t.day as i64);
    proof {
        lemma_civil_days_range(t.year as int, t.month as int, t.day as int);
    }
    let seconds = days * 86_400 + (t.hour as i64) * 3_600 + (t.min as i64) * 60 + (t.sec as i64);
    if seconds <= 0 {
        (0, 0)
    } else {
        (seconds as u64, (t.millis as u32) * 1_000_000)
    }
}

/// A date at midnight.
pub fn date_to_unix(year: u16, month: u16, day: u16) -> (r: (u64, u32))
    ensures
        r == unix_time_spec(
            FatDateTime { year, month, day, hour: 0, min: 0, sec: 0, millis: 0 },
        ),
{
    date_time_to_unix(FatDateTime { year, month, day, hour: 0, min: 0, sec: 0, millis: 0 })
}

proof fn lemma_civil_days_range(year: int, month: int, day: int)
    requires
        0 <= year <= 0xffff,
        0 <= month <= 0xffff,
        0 <= day <= 0xffff,
    ensures
        -0x1_0000_0000 <= crate::fatd::civil_days(year, month, day) <= 0x1_0000_0000,
{
    let y = year - (if month <= 2 {
        1int
    } else {
        0
    });
    let era = if y >= 0 {
        crate::fatd::tdiv(y, 400)
    } else {
        crate::fatd::tdiv(y - 399, 400)
    };
    assert(-1 <= era <= 164) by (nonlinear_arith)
        requires
            -1 <= y <= 0xffff,
            y >= 0 ==> era == y / 400,
            y < 0 ==> era == -((-(y - 399)) / 400),
    ;
    let yoe = y - era * 400;
    assert(-0x20000 <= yoe <= 0x20000);
    let m = month + (if month > 2 {
        -3int
    } else {
        9
    });
    let doy = crate::fatd::tdiv(153 * m + 2, 5) + day - 1;
    assert(-0x100_0000 <= doy <= 0x100_0000) by (nonlinear_arith)
        requires
            -3 <= m <= 0xffff + 9,
            0 <= day <= 0xffff,
            doy == crate::fatd::tdiv(153 * m + 2, 5) + day - 1,
            153 * m + 2 >= 0 ==> crate::fatd::tdiv(153 * m + 2, 5) == (153 * m + 2) / 5,
            153 * m + 2 < 0 ==> crate::fatd::tdiv(153 * m + 2, 5) == -((-(153 * m + 2)) / 5),
    ;
    let doe = yoe * 365 + crate::fatd::tdiv(yoe, 4) - crate::fatd::tdiv(yoe, 100) + doy;
    assert(-0x1000_0000 <= doe <= 0x1000_0000) by (nonlinear_arith)
        requires
            -0x20000 <= yoe <= 0x20000,
            -0x100_0000 <= doy <= 0x100_0000,
            doe == yoe * 365 + crate::fatd::tdiv(yoe, 4) - crate::fatd::tdiv(yoe, 100) + doy,
            yoe >= 0 ==> crate::fatd::tdiv(yoe, 4) == yoe / 4 && crate::fatd::tdiv(yoe, 100)
                == yoe / 100,
            yoe < 0 ==> crate::fatd::tdiv(yoe, 4) == -((-yoe) / 4) && crate::fatd::tdiv(yoe, 100)
                == -((-yoe) / 100),
    ;
}

/// What the FAT scheme reports of a node.
#[derive(Clone, Copy, Debug, PartialEq, Eq, Structural)]
pub struct FatStat {
    pub ino: u64,
    pub mode: u16,
    pub nlink: u32,
    pub size: u64,
    pub blksize: u32,
    pub blocks: u64,
    pub atime: u64,
    pub atime_nsec: u32,
    pub mtime: u64,
    pub mtime_nsec: u32,
    pub ctime: u64,
    pub ctime_nsec: u32,
}

/// Blocks of 512 bytes a length takes, rounded up.
pub open spec fn blocks_of(len: u64) -> u64 {
    (len / 512 + (if len % 512 == 0 {
        0int
    } else {
        1
    })) as u64
}

/// The FAT scheme's stat of a node: its synthetic inode, its mode, two
/// links for a directory and one for a file, its length, the cluster size
/// as block size, its length in 512-byte blocks, and its times.
pub open spec fn fat_stat_spec(
    path: Seq<char>,
    is_dir: bool,
    read_only: bool,
    len: u64,
    cluster_size: u32,
    accessed: FatDateTime,
    modified: FatDateTime,
    created: FatDateTime,
) -> FatStat {
    let mode = if read_only {
        (if is_dir {
            0x41EDu16
        } else {
            0x81A4u16
        }) & !0o222u16
    } else if is_dir {
        0x41EDu16
    } else {
        0x81A4u16
    };
    let a = unix_time_spec(
        FatDateTime {
            year: accessed.year,
            month: accessed.month,
            day: accessed.day,
            hour: 0,
            min: 0,
            sec: 0,
            millis: 0,
        },
    );
    let m = unix_time_spec(modified);
    let c = unix_time_spec(created);
    FatStat {
        ino: inode_of(path, is_dir),
        mode,
        nlink: if is_dir {
            2
        } else {
            1
        },
        size: len,
        blksize: cluster_size,
        blocks: blocks_of(len),
        atime: a.0,
        atime_nsec: a.1,
        mtime: m.0,
        mtime_nsec: m.1,
        ctime: c.0,
        ctime_nsec: c.1,
    }
}

/// Builds the FAT scheme's stat of a node (only the date of the access
/// time is kept on disk).
pub fn fat_stat(
    path: &str,
    is_dir: bool,
    read_only: bool,
    len: u64,
    cluster_size: u32,
    accessed: FatDateTime,
    modified: FatDateTime,
    created: FatDateTime,
) -> (r: FatStat)
    requires
        modified.millis <= 4294,
        created.millis <= 4294,
    ensures
        r == fat_stat_spec(path@, is_dir, read_only, len, cluster_size, accessed, modified, created),
{
    let (atime, atime_nsec) = date_to_unix(accessed.year, accessed.month, accessed.day);
    let (mtime, mtime_nsec) = date_time_to_unix(modified);
    let (ctime, ctime_nsec) = date_time_to_unix(created);
    FatStat {
        ino: crate::fatd::synthetic_inode(path, is_dir),
        mode: crate::fatd::mode_bits(is_dir, read_only),
        nlink: if is_dir {
            2
        } else {
            1
        },
        size: len,
        blksize: cluster_size,
        blocks: len / 512 + if len % 512 == 0 {
            0
        } else {
            1
        },
        atime,
        atime_nsec,
        mtime,
        mtime_nsec,
        ctime,
        ctime_nsec,
    }
}

/// How a FAT file of length `current` is brought to length `len`.
#[derive(Clone, Copy, Debug, PartialEq, Eq, Structural)]
pub enum TruncatePlan {
    /// Cut at `len`.
    Shrink,
    /// Append this many zero bytes.
    Extend(u64),
    /// Already that long.
    Keep,
}

/// Decides how a file is brought to a new length.
pub fn truncate_plan(len: u64, current: u64) -> (r: TruncatePlan)
    ensures
        r == (if len < current {
            TruncatePlan::Shrink
        } else if len > current {
            TruncatePlan::Extend((len - current) as u64)
        } else {
            TruncatePlan::Keep
        }),
{
    if len < current {
        TruncatePlan::Shrink
    } else if len > current {
        TruncatePlan::Extend(len - current)
    } else {
        TruncatePlan::Keep
    }
}

/// The size of the next block of zeros written while extending: at most
/// 4096 bytes.
pub fn zero_chunk(remaining: u64) -> (r: usize)
    ensures
        r == (if remaining < 4096 {
            remaining as usize
        } else {
            4096usize
        }),
{
    if remaining < 4096 {
        remaining as usize
    } else {
        4096
    }
}

/// A path as the ext4 library takes it: rooted at `/`.
pub open spec fn ext4_path_spec(path: Seq<char>) -> Seq<char> {
    if path.len() == 0 {
        "/"@
    } else {
        "/"@ + path
    }
}

/// Roots a scheme path for the ext4 library.
pub fn make_ext4_path(path: &str) -> (r: String)
    ensures
        r@ == ext4_path_spec(path@),
{
    if path.unicode_len() == 0 {
        String::from_str("/")
    } else {
        let mut p = String::from_str("/");
        p.append(path);
        p
    }
}

/// A path as the FAT library takes it: normalized, without a leading `/`.
pub open spec fn fat_path_spec(path: Seq<char>) -> Seq<char> {
    crate::fatd::normalized(path)
}

/// The FAT library's form of a scheme path (normalizing already drops
/// every leading separator).
pub fn make_fat_path(path: &str) -> (r: String)
    ensures
        r@ == fat_path_spec(path@),
{
    normalize_path(path)
}

/// What a path walk does with one component.
#[derive(Clone, Copy, Debug, PartialEq, Eq, Structural)]
pub enum WalkStep {
    /// No entry has that name: the path does not exist.
    Missing,
    /// A component before the last is not a directory: `ENOTDIR`.
    NotDirectory,
    /// A directory before the last component: go into it.
    Descend,
    /// The last component: the entry found.
    Found,
}

/// The walk's decision for a component, given whether an entry matched it
/// (and if so, whether that entry is a directory) and whether it is the
/// path's last component.
pub fn walk_step(found_dir: Option<bool>, is_last: bool) -> (r: WalkStep)
    ensures
        r == match found_dir {
            None => WalkStep::Missing,
            Some(d) => if is_last {
                WalkStep::Found
            } else if d {
                WalkStep::Descend
            } else {
                WalkStep::NotDirectory
            },
        },
{
    match found_dir {
        None => WalkStep::Missing,
        Some(d) => {
            if is_last {
                WalkStep::Found
            } else if d {
                WalkStep::Descend
            } else {
                WalkStep::NotDirectory
            }
        },
    }
}


} // verus!
