//! The ext4 tools' own arithmetic: where a run of blocks lies on a disk,
//! how big a new image is, and what the scheme reports of an inode.
use vstd::prelude::*;
use vstd::string::{StrSliceExecFns, StringExecFns};
use vstd::utf8::encode_utf8;
use crate::textparse::{parse_unsigned, spec_parse_unsigned};

verus! {

/// The byte offset and length of `count` blocks from block `block_id`, or
/// `None` where the buffer is too small to hold them.
pub open spec fn block_span_spec(block_id: u64, count: u32, block_size: u32, buf_len: usize) -> Option<
    (u64, usize),
> {
    if buf_len < count * block_size {
        None
    } else {
        Some(((block_id * block_size) as u64, (count * block_size) as usize))
    }
}

/// Where a block transfer lies on the disk and how many bytes it moves;
/// `None` where the buffer cannot hold them.
pub fn block_span(block_id: u64, count: u32, block_size: u32, buf_len: usize) -> (r: Option<(u64, usize)>)
    requires
        block_id * block_size <= u64::MAX,
        count * block_size <= usize::MAX,
    ensures
        r == block_span_spec(block_id, count, block_size, buf_len),
{
    let total = count as usize * block_size as usize;
    if buf_len < total {
        return None;
    }
    Some((block_id * block_size as u64, total))
}

/// The whole blocks a disk of `len` bytes holds.
pub fn total_blocks(len: u64, block_size: u32) -> (r: u64)
    requires
        block_size > 0,
    ensures
        r == len / (block_size as u64),
{
    len / block_size as u64
}

/// The size in megabytes `ext4-mkfs` formats: the second argument read as
/// a number, 100 where it is missing or is no number.
pub open spec fn mkfs_size_mb(arg: Option<Seq<char>>) -> u64 {
    match arg {
        Some(a) => match spec_parse_unsigned(encode_utf8(a), 10, u64::MAX as int) {
            Some(n) => n as u64,
            None => 100,
        },
        None => 100,
    }
}

/// `ext4-mkfs`'s command line (without the program's name): the image
/// path and its size in megabytes; `None` without a path (the usage text).
pub fn ext4_mkfs_args(args: &Vec<String>) -> (r: Option<(String, u64)>)
    ensures
        args@.len() == 0 ==> r is None,
        args@.len() > 0 ==> (r matches Some((p, mb)) && p@ == args@[0]@ && mb == mkfs_size_mb(
            if args@.len() > 1 {
                Some(args@[1]@)
            } else {
                None
            },
        )),
{
    if args.len() == 0 {
        return None;
    }
    let path = String::from_str(args[0].as_str());
    let mb = if args.len() > 1 {
        match parse_unsigned(args[1].as_str().as_bytes(), 10, u64::MAX) {
            Some(n) => n,
            None => 100,
        }
    } else {
        100
    };
    Some((path, mb))
}

/// The block size `ext4-mkfs` formats with.
pub const MKFS_BLOCK_SIZE: u32 = 4096;

/// The bytes of an image of `size_mb` megabytes.
pub fn image_bytes(size_mb: u64) -> (r: u64)
    requires
        size_mb * 1048576 <= u64::MAX,
    ensures
        r == size_mb * 1048576,
{
    size_mb * 1024 * 1024
}

/// A timestamp's seconds, with moments before the epoch reported as 0.
pub open spec fn clamp_secs(sec: i64) -> u64 {
    if sec < 0 {
        0
    } else {
        sec as u64
    }
}

/// What the ext4 scheme reports of an inode.
#[derive(Clone, Copy, Debug, PartialEq, Eq, Structural)]
pub struct Ext4Stat {
    pub ino: u64,
    pub mode: u16,
    pub nlink: u32,
    pub uid: u32,
    pub gid: u32,
    pub size: u64,
    pub blksize: u32,
    pub blocks: u64,
    pub atime: u64,
    pub atime_nsec: u32,
    pub mtime: u64,
    pub mtime_nsec: u32,
    pub ctime: u64,
    pub ctime_nsec: u32,
}

/// An inode's fields as the scheme reports them: the block size cut to 32
/// bits, and times before the epoch as 0.
pub open spec fn ext4_stat_spec(
    ino: u32,
    mode: u16,
    links: u16,
    uid: u32,
    gid: u32,
    size: u64,
    block_size: u64,
    blocks: u64,
    atime: (i64, u32),
    mtime: (i64, u32),
    ctime: (i64, u32),
) -> Ext4Stat {
    Ext4Stat {
        ino: ino as u64,
        mode,
        nlink: links as u32,
        uid,
        gid,
        size,
        blksize: block_size as u32,
        blocks,
        atime: clamp_secs(atime.0),
        atime_nsec: atime.1,
        mtime: clamp_secs(mtime.0),
        mtime_nsec: mtime.1,
        ctime: clamp_secs(ctime.0),
        ctime_nsec: ctime.1,
    }
}

/// Each reported time is its own inode time: the access, modification and
/// change times each give their seconds (0 for a moment before the epoch)
/// and their nanoseconds unchanged, and the reported change time does not
/// depend on the modification or access time.
pub proof fn lemma_ext4_stat_times(
    ino: u32,
    mode: u16,
    links: u16,
    uid: u32,
    gid: u32,
    size: u64,
    block_size: u64,
    blocks: u64,
    atime: (i64, u32),
    mtime: (i64, u32),
    ctime: (i64, u32),
    other_atime: (i64, u32),
    other_mtime: (i64, u32),
)
    ensures
        ({
            let s = ext4_stat_spec(ino, mode, links, uid, gid, size, block_size, blocks, atime, mtime, ctime);
            &&& s.atime as int == if atime.0 < 0 { 0 } else { atime.0 as int }
            &&& s.atime_nsec == atime.1
            &&& s.mtime as int == if mtime.0 < 0 { 0 } else { mtime.0 as int }
            &&& s.mtime_nsec == mtime.1
            &&& s.ctime as int == if ctime.0 < 0 { 0 } else { ctime.0 as int }
            &&& s.ctime_nsec == ctime.1
            &&& s.ino == ino && s.mode == mode && s.nlink == links && s.uid == uid && s.gid == gid
            &&& s.size == size && s.blocks == blocks
            &&& s.blksize == block_size % 0x1_0000_0000
        }),
        ({
            let s = ext4_stat_spec(ino, mode, links, uid, gid, size, block_size, blocks, atime, mtime, ctime);
            let t = ext4_stat_spec(
                ino,
                mode,
                links,
                uid,
                gid,
                size,
                block_size,
                blocks,
                other_atime,
                other_mtime,
                ctime,
            );
            s.ctime == t.ctime && s.ctime_nsec == t.ctime_nsec
        }),
{
    let b = (block_size as u32);
    assert(b == block_size % 0x1_0000_0000) by (bit_vector)
        requires
            b == block_size as u32,
    ;
}

fn clamp(sec: i64) -> (r: u64)
    ensures
        r == clamp_secs(sec),
{
    if sec < 0 {
        0
    } else {
        sec as u64
    }
}

/// Builds the ext4 scheme's stat of an inode.
pub fn ext4_stat(
    ino: u32,
    mode: u16,
    links: u16,
    uid: u32,
    gid: u32,
    size: u64,
    block_size: u64,
    blocks: u64,
    atime: (i64, u32),
    mtime: (i64, u32),
    ctime: (i64, u32),
) -> (r: Ext4Stat)
    ensures
        r == ext4_stat_spec(
            ino,
            mode,
            links,
            uid,
            gid,
            size,
            block_size,
            blocks,
            atime,
            mtime,
            ctime,
        ),
{
    Ext4Stat {
        ino: ino as u64,
        mode,
        nlink: links as u32,
        uid,
        gid,
        size,
        blksize: block_size as u32,
        blocks,
        atime: clamp(atime.0),
        atime_nsec: atime.1,
        mtime: clamp(mtime.0),
        mtime_nsec: mtime.1,
        ctime: clamp(ctime.0),
        ctime_nsec: ctime.1,
    }
}

} // verus!
