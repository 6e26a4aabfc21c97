//! Path handling and file metadata of the FAT scheme daemon: normalized
//! paths, parent/child splits, case-insensitive name matching, synthetic
//! inode numbers and calendar days.
use std::collections::hash_map::DefaultHasher;
use std::hash::{Hash, Hasher};
use vstd::prelude::*;
use vstd::string::{StrSliceExecFns, StringExecFns};
use crate::ehci_scheme::{lemma_slash_at, slash_at};

verus! {

// ---- Paths ----
/// What one path component does to the components kept so far: empty and
/// `.` components do nothing, `..` drops the last one, any other is kept.
pub open spec fn apply_component(stack: Seq<Seq<char>>, c: Seq<char>) -> Seq<Seq<char>> {
    if c.len() == 0 || c == "."@ {
        stack
    } else if c == ".."@ {
        if stack.len() > 0 {
            stack.drop_last()
        } else {
            stack
        }
    } else {
        stack.push(c)
    }
}

/// The components kept after the `/`-separated parts of `s` from `i` on.
pub open spec fn kept_components(s: Seq<char>, i: int, stack: Seq<Seq<char>>) -> Seq<Seq<char>>
    decreases s.len() - i,
{
    if i < 0 || i > s.len() {
        stack
    } else {
        let e = slash_at(s, i);
        let next = apply_component(stack, s.subrange(i, e));
        if e >= s.len() {
            next
        } else {
            proof {
                lemma_slash_at(s, i);
            }
            kept_components(s, e + 1, next)
        }
    }
}

/// Parts joined with a separator between them.
pub open spec fn joined_with(parts: Seq<Seq<char>>, sep: Seq<char>) -> Seq<char>
    decreases parts.len(),
{
    if parts.len() == 0 {
        Seq::empty()
    } else if parts.len() == 1 {
        parts[0]
    } else {
        joined_with(parts.drop_last(), sep) + sep + parts.last()
    }
}

/// A path with empty and `.` components dropped and `..` resolved (never
/// above the root), its components joined by `/`.
pub open spec fn normalized(path: Seq<char>) -> Seq<char> {
    joined_with(kept_components(path, 0, Seq::empty()), "/"@)
}

fn component_action(c: &str) -> (r: u8)
    ensures
        r == 0 <==> (c@.len() == 0 || c@ == "."@),
        r == 1 <==> (c@.len() != 0 && c@ != "."@ && c@ == ".."@),
        r == 2 <==> (c@.len() != 0 && c@ != "."@ && c@ != ".."@),
{
    let s = String::from_str(c);
    if c.unicode_len() == 0 || s == String::from_str(".") {
        0
    } else if s == String::from_str("..") {
        1
    } else {
        2
    }
}

spec fn string_views(v: Seq<String>) -> Seq<Seq<char>> {
    v.map_values(|s: String| s@)
}

pub fn normalize_path(path: &str) -> (r: String)
    ensures
        r@ == normalized(path@),
{
    let n = path.unicode_len();
    let mut components: Vec<String> = Vec::new();
    let mut i: usize = 0;
    assert(string_views(components@) =~= Seq::<Seq<char>>::empty());
    loop
        invariant_except_break
            i <= n,
            n == path@.len(),
            kept_components(path@, 0, Seq::empty()) == kept_components(
                path@,
                i as int,
                string_views(components@),
            ),
        ensures
            string_views(components@) == kept_components(path@, 0, Seq::empty()),
        decreases n - i,
    {
        let mut e = i;
        while e < n && path.get_char(e) != '/'
            invariant
                i <= e <= n,
                n == path@.len(),
                slash_at(path@, i as int) == slash_at(path@, e as int),
            decreases n - e,
        {
            e = e + 1;
        }
        proof {
            lemma_slash_at(path@, e as int);
            lemma_slash_at(path@, i as int);
        }
        let part = path.substring_char(i, e);
        let action = component_action(part);
        let ghost before = string_views(components@);
        if action == 1 {
            if components.len() > 0 {
                components.pop();
            }
        } else if action == 2 {
            components.push(String::from_str(part));
        }
        proof {
            assert(string_views(components@) =~= apply_component(before, part@));
        }
        if e >= n {
            break;
        }
        i = e + 1;
    }
    join_slash(&components)
}

fn join_slash(parts: &Vec<String>) -> (r: String)
    ensures
        r@ == joined_with(string_views(parts@), "/"@),
{
    let mut out = String::new();
    let mut i: usize = 0;
    while i < parts.len()
        invariant
            i <= parts@.len(),
            out@ == joined_with(string_views(parts@.subrange(0, i as int)), "/"@),
        decreases parts@.len() - i,
    {
        if i > 0 {
            out.append("/");
        }
        out.append(parts[i].as_str());
        proof {
            let u = string_views(parts@.subrange(0, i + 1));
            assert(u.drop_last() =~= string_views(parts@.subrange(0, i as int)));
            if i == 0 {
                assert(out@ =~= joined_with(u, "/"@));
            } else {
                assert(out@ =~= joined_with(u, "/"@));
            }
        }
        i = i + 1;
    }
    assert(parts@.subrange(0, parts@.len() as int) =~= parts@);
    out
}

/// The position of the last `/` in `s`, or -1.
pub open spec fn last_slash(s: Seq<char>, j: int) -> int
    decreases j,
{
    if j <= 0 {
        -1
    } else if s[j - 1] == '/' {
        j - 1
    } else {
        last_slash(s, j - 1)
    }
}

proof fn lemma_last_slash(s: Seq<char>, j: int)
    requires
        0 <= j <= s.len(),
    ensures
        -1 <= last_slash(s, j) < j,
        last_slash(s, j) >= 0 ==> s[last_slash(s, j)] == '/',
    decreases j,
{
    if j > 0 && s[j - 1] != '/' {
        lemma_last_slash(s, j - 1);
    }
}

/// Why a path cannot be split into a parent and a child.
#[derive(Clone, Copy, Debug, PartialEq, Eq, Structural)]
pub enum PathSplitError {
    /// The path names the root.
    Root,
    /// The path ends in a separator.
    EmptyChild,
}

/// A path's parent directory and last component, after normalizing.
pub open spec fn parent_child(path: Seq<char>) -> Result<(Seq<char>, Seq<char>), PathSplitError> {
    let p = normalized(path);
    if p.len() == 0 {
        Err(PathSplitError::Root)
    } else {
        let k = last_slash(p, p.len() as int);
        if k < 0 {
            Ok((Seq::empty(), p))
        } else if k + 1 < p.len() {
            Ok((p.subrange(0, k), p.subrange(k + 1, p.len() as int)))
        } else {
            Err(PathSplitError::EmptyChild)
        }
    }
}

pub fn split_parent_child(path: &str) -> (r: Result<(String, String), PathSplitError>)
    ensures
        match parent_child(path@) {
            Ok((a, b)) => r matches Ok(x) && x.0@ == a && x.1@ == b,
            Err(e) => r == Err::<(String, String), PathSplitError>(e),
        },
{
    let normalized = normalize_path(path);
    let p = normalized.as_str();
    let n = p.unicode_len();
    if n == 0 {
        return Err(PathSplitError::Root);
    }
    let mut j = n;
    while j > 0 && p.get_char(j - 1) != '/'
        invariant
            j <= n,
            n == p@.len(),
            last_slash(p@, n as int) == last_slash(p@, j as int),
        decreases j,
    {
        j = j - 1;
    }
    proof {
        lemma_last_slash(p@, j as int);
    }
    if j == 0 {
        return Ok((String::new(), String::from_str(p)));
    }
    let k = j - 1;
    if k + 1 < n {
        Ok((String::from_str(p.substring_char(0, k)), String::from_str(p.substring_char(k + 1, n))))
    } else {
        Err(PathSplitError::EmptyChild)
    }
}

/// A path relative to a directory: an absolute path on its own, else
/// joined below the directory, normalized.
pub open spec fn joined_path(base: Seq<char>, path: Seq<char>) -> Seq<char> {
    if path.len() > 0 && path[0] == '/' {
        normalized(path)
    } else if base.len() == 0 {
        normalized(path)
    } else if path.len() == 0 {
        base
    } else {
        normalized(base + "/"@ + path)
    }
}

pub fn join_path(base: &str, path: &str) -> (r: String)
    ensures
        r@ == joined_path(base@, path@),
{
    if path.unicode_len() > 0 && path.get_char(0) == '/' {
        return normalize_path(path);
    }
    if base.unicode_len() == 0 {
        normalize_path(path)
    } else if path.unicode_len() == 0 {
        String::from_str(base)
    } else {
        let mut joined = String::from_str(base);
        joined.append("/");
        joined.append(path);
        normalize_path(joined.as_str())
    }
}

// ---- Names ----
/// `char::to_uppercase`: the characters of a character's uppercase
/// mapping (the character itself where it has none).
pub uninterp spec fn uppercase(c: char) -> Seq<char>;

/// `char::to_uppercase`, collected.
#[verifier::external_body]
fn char_uppercase(c: char) -> (r: Vec<char>)
    ensures
        r@ == uppercase(c),
{
    c.to_uppercase().collect()
}

/// The uppercase mappings of a text's characters, one after another.
pub open spec fn upper_text(s: Seq<char>) -> Seq<char>
    decreases s.len(),
{
    if s.len() == 0 {
        Seq::empty()
    } else {
        upper_text(s.drop_last()) + uppercase(s.last())
    }
}

pub(crate) fn upper_chars(s: &str) -> (r: Vec<char>)
    ensures
        r@ == upper_text(s@),
{
    let n = s.unicode_len();
    let mut out: Vec<char> = Vec::new();
    let mut i: usize = 0;
    while i < n
        invariant
            i <= n,
            n == s@.len(),
            out@ == upper_text(s@.subrange(0, i as int)),
        decreases n - i,
    {
        let up = char_uppercase(s.get_char(i));
        let mut k: usize = 0;
        let ghost start = out@;
        while k < up.len()
            invariant
                k <= up@.len(),
                out@ == start + up@.subrange(0, k as int),
            decreases up@.len() - k,
        {
            out.push(up[k]);
            k = k + 1;
            assert(out@ =~= start + up@.subrange(0, k as int));
        }
        proof {
            let u = s@.subrange(0, i + 1);
            assert(u.drop_last() =~= s@.subrange(0, i as int));
            assert(up@.subrange(0, up@.len() as int) =~= up@);
        }
        i = i + 1;
    }
    assert(s@.subrange(0, n as int) =~= s@);
    out
}

/// Whether two names are equal ignoring case, the way FAT compares them:
/// their uppercase mappings are the same characters.
pub fn fat_name_eq(lhs: &str, rhs: &str) -> (r: bool)
    ensures
        r == (upper_text(lhs@) == upper_text(rhs@)),
{
    let a = upper_chars(lhs);
    let b = upper_chars(rhs);
    if a.len() != b.len() {
        assert(a@.len() != b@.len());
        assert(!(a@ =~= b@));
        return false;
    }
    let mut i: usize = 0;
    while i < a.len()
        invariant
            i <= a@.len(),
            a@.len() == b@.len(),
            a@ == upper_text(lhs@),
            b@ == upper_text(rhs@),
            forall|k: int| 0 <= k < i ==> a@[k] == b@[k],
        decreases a@.len() - i,
    {
        if a[i] != b[i] {
            assert(a@[i as int] != b@[i as int]);
            assert(a@ != b@);
            return false;
        }
        i = i + 1;
    }
    assert(a@ =~= b@);
    true
}

// ---- Inodes ----
/// The writes a `DefaultHasher` has seen after `Hash::hash` of a `bool`,
/// given the writes it had seen before.
pub uninterp spec fn hashed_bool(writes: Seq<Seq<u8>>, b: bool) -> Seq<Seq<u8>>;

/// The writes a `DefaultHasher` has seen after `Hash::hash` of a `str`,
/// given the writes it had seen before.
pub uninterp spec fn hashed_str(writes: Seq<Seq<u8>>, s: Seq<char>) -> Seq<Seq<u8>>;

/// `<bool as Hash>::hash` into a `DefaultHasher`: what the hasher has seen
/// afterwards depends on what it had seen and on the flag alone.
#[verifier::external_body]
fn hash_flag(b: bool, h: &mut DefaultHasher)
    ensures
        final(h)@ == hashed_bool(old(h)@, b),
{
    b.hash(h)
}

/// `<str as Hash>::hash` into a `DefaultHasher`: what the hasher has seen
/// afterwards depends on what it had seen and on the text alone.
#[verifier::external_body]
fn hash_text(s: &str, h: &mut DefaultHasher)
    ensures
        final(h)@ == hashed_str(old(h)@, s@),
{
    s.hash(h)
}

/// The hash of an entry: a fresh `DefaultHasher` fed the directory flag,
/// then the path, then finished.
pub open spec fn entry_hash(is_dir: bool, path: Seq<char>) -> u64 {
    <DefaultHasher as vstd::std_specs::hash::DefaultHasherAdditionalSpecFns>::spec_finish(
        hashed_str(hashed_bool(Seq::<Seq<u8>>::empty(), is_dir), path))
}

fn hash_entry(path: &str, is_dir: bool) -> (r: u64)
    ensures
        r == entry_hash(is_dir, path@),
{
    let mut hasher = DefaultHasher::new();
    hash_flag(is_dir, &mut hasher);
    hash_text(path, &mut hasher);
    hasher.finish()
}

/// The inode number of an entry: 2 for the root (the empty path), else its
/// hash, with 0 moved to 1.
pub open spec fn inode_of(path: Seq<char>, is_dir: bool) -> u64 {
    if path.len() == 0 {
        2
    } else if entry_hash(is_dir, path) == 0 {
        1
    } else {
        entry_hash(is_dir, path)
    }
}

pub fn synthetic_inode(path: &str, is_dir: bool) -> (r: u64)
    ensures
        r == inode_of(path@, is_dir),
        r != 0,
{
    if path.unicode_len() == 0 {
        return 2;
    }
    let inode = hash_entry(path, is_dir);
    if inode == 0 {
        1
    } else {
        inode
    }
}

/// The inode number as a `usize`, saturating.
pub fn inode_usize(path: &str, is_dir: bool) -> (r: usize)
    ensures
        r == if inode_of(path@, is_dir) <= usize::MAX {
            inode_of(path@, is_dir) as usize
        } else {
            usize::MAX
        },
{
    let inode = synthetic_inode(path, is_dir);
    if inode <= usize::MAX as u64 {
        inode as usize
    } else {
        usize::MAX
    }
}

// ---- File modes ----
pub const MODE_DIR: u16 = 0x4000;

pub const MODE_FILE: u16 = 0x8000;

/// The mode of an entry: a directory 0755, a file 0644, without the write
/// bits when the entry is read-only.
pub fn mode_bits(is_dir: bool, read_only: bool) -> (r: u16)
    ensures
        r == if read_only {
            (if is_dir {
                0x41EDu16
            } else {
                0x81A4u16
            }) & !0o222u16
        } else if is_dir {
            0x41EDu16
        } else {
            0x81A4u16
        },
{
    let base: u16 = if is_dir {
        MODE_DIR | 0o755
    } else {
        MODE_FILE | 0o644
    };
    assert(MODE_DIR | 0o755 == 0x41EDu16) by (bit_vector);
    assert(MODE_FILE | 0o644 == 0x81A4u16) by (bit_vector);
    if read_only {
        base & !0o222
    } else {
        base
    }
}

// ---- Calendar ----
/// Division rounding toward zero, as Rust's `/` on integers does.
pub open spec fn tdiv(a: int, b: int) -> int {
    if a >= 0 {
        a / b
    } else {
        -((-a) / b)
    }
}

/// Days from 1970-01-01 to a proleptic Gregorian date (the civil-from-days
/// inverse of H. Hinnant), month 1 to 12.
pub open spec fn civil_days(year: int, month: int, day: int) -> int {
    let y = year - (if month <= 2 {
        1int
    } else {
        0
    });
    let era = if y >= 0 {
        tdiv(y, 400)
    } else {
        tdiv(y - 399, 400)
    };
    let yoe = y - era * 400;
    let m = month + (if month > 2 {
        -3int
    } else {
        9
    });
    let doy = tdiv(153 * m + 2, 5) + day - 1;
    let doe = yoe * 365 + tdiv(yoe, 4) - tdiv(yoe, 100) + doy;
    era * 146097 + doe - 719468
}

pub fn days_from_civil(year: i64, month: i64, day: i64) -> (r: i64)
    requires
        -0x1_0000_0000_0000 <= year <= 0x1_0000_0000_0000,
        -0x1_0000_0000_0000 <= month <= 0x1_0000_0000_0000,
        -0x1_0000_0000_0000 <= day <= 0x1_0000_0000_0000,
    ensures
        r == civil_days(year as int, month as int, day as int),
{
    let adjusted_year = year - if month <= 2 {
        1
    } else {
        0
    };
    let era = if adjusted_year >= 0 {
        adjusted_year / 400
    } else {
        (adjusted_year - 399) / 400
    };
    assert(era * 400 <= 0x2_0000_0000_0000 && era * 400 >= -0x2_0000_0000_0000) by (nonlinear_arith)
        requires
            adjusted_year >= 0 ==> era == adjusted_year / 400,
            adjusted_year < 0 ==> era == -((-(adjusted_year - 399)) / 400),
            -0x1_0000_0000_0001 <= adjusted_year <= 0x1_0000_0000_0000,
    ;
    let yoe = adjusted_year - era * 400;
    let adjusted_month = month + if month > 2 {
        -3
    } else {
        9
    };
    let doy = (153 * adjusted_month + 2) / 5 + day - 1;
    assert(-0x40_0000_0000_0000 <= yoe <= 0x40_0000_0000_0000);
    let doe = yoe * 365 + yoe / 4 - yoe / 100 + doy;
    era * 146_097 + doe - 719_468
}

// ---- Command line ----
/// What the daemon is asked to serve.
#[derive(Debug)]
pub struct FatdArgs {
    /// Fork and serve in the background (the default).
    pub daemonize: bool,
    pub disk_path: String,
    pub mountpoint: String,
}

/// Why the command line was refused.
#[derive(Clone, Copy, Debug, PartialEq, Eq, Structural)]
pub enum FatdArgsError {
    TooManyArguments,
    NoDiskPath,
    NoMountpoint,
}

impl FatdArgsError {
    pub open spec fn text(&self) -> Seq<char> {
        match self {
            FatdArgsError::TooManyArguments => "too many arguments provided"@,
            FatdArgsError::NoDiskPath => "no disk path provided"@,
            FatdArgsError::NoMountpoint => "no mountpoint provided"@,
        }
    }

    /// The message printed before the usage line.
    pub fn message(&self) -> (r: &'static str)
        ensures
            r@ == self.text(),
    {
        match self {
            FatdArgsError::TooManyArguments => "too many arguments provided",
            FatdArgsError::NoDiskPath => "no disk path provided",
            FatdArgsError::NoMountpoint => "no mountpoint provided",
        }
    }
}

/// Reads the arguments from position `i` on, given what was read before:
/// `--no-daemon` or `-d` keeps the daemon in the foreground, the first
/// other argument is the disk, the second the mount point, and a third
/// one is an error.
pub open spec fn fatd_scan(
    args: Seq<Seq<char>>,
    i: int,
    daemonize: bool,
    disk: Option<Seq<char>>,
    mount: Option<Seq<char>>,
) -> Result<(bool, Option<Seq<char>>, Option<Seq<char>>), FatdArgsError>
    decreases args.len() - i,
{
    if i < 0 || i >= args.len() {
        Ok((daemonize, disk, mount))
    } else if args[i] == "--no-daemon"@ || args[i] == "-d"@ {
        fatd_scan(args, i + 1, false, disk, mount)
    } else if disk is None {
        fatd_scan(args, i + 1, daemonize, Some(args[i]), mount)
    } else if mount is None {
        fatd_scan(args, i + 1, daemonize, disk, Some(args[i]))
    } else {
        Err(FatdArgsError::TooManyArguments)
    }
}

/// The daemon's command line (without the program's name): whether it
/// daemonizes, the disk and the mount point, or why it is refused.
pub open spec fn fatd_args_spec(args: Seq<Seq<char>>) -> Result<(bool, Seq<char>, Seq<char>), FatdArgsError> {
    match fatd_scan(args, 0, true, None, None) {
        Err(e) => Err(e),
        Ok((d, disk, mount)) => match disk {
            None => Err(FatdArgsError::NoDiskPath),
            Some(p) => match mount {
                None => Err(FatdArgsError::NoMountpoint),
                Some(m) => Ok((d, p, m)),
            },
        },
    }
}

/// Reads the daemon's command line (without the program's name).
pub fn parse_fatd_args(args: &Vec<String>) -> (r: Result<FatdArgs, FatdArgsError>)
    ensures
        match fatd_args_spec(args@.map_values(|s: String| s@)) {
            Ok((d, p, m)) => r matches Ok(a) && a.daemonize == d && a.disk_path@ == p
                && a.mountpoint@ == m,
            Err(e) => r matches Err(x) && x == e,
        },
{
    let ghost all = args@.map_values(|s: String| s@);
    let mut daemonize = true;
    let mut disk: Option<String> = None;
    let mut mount: Option<String> = None;
    let mut i: usize = 0;
    while i < args.len()
        invariant
            i <= args@.len(),
            all == args@.map_values(|s: String| s@),
            fatd_scan(all, 0, true, None, None) == fatd_scan(
                all,
                i as int,
                daemonize,
                match disk {
                    Some(s) => Some(s@),
                    None => None,
                },
                match mount {
                    Some(s) => Some(s@),
                    None => None,
                },
            ),
        decreases args@.len() - i,
    {
        let a = String::from_str(args[i].as_str());
        proof {
            assert(all[i as int] == a@);
        }
        if a == String::from_str("--no-daemon") || a == String::from_str("-d") {
            daemonize = false;
        } else if disk.is_none() {
            disk = Some(a);
        } else if mount.is_none() {
            mount = Some(a);
        } else {
            return Err(FatdArgsError::TooManyArguments);
        }
        i = i + 1;
    }
    match disk {
        None => Err(FatdArgsError::NoDiskPath),
        Some(disk_path) => match mount {
            None => Err(FatdArgsError::NoMountpoint),
            Some(mountpoint) => Ok(FatdArgs { daemonize, disk_path, mountpoint }),
        },
    }
}

} // verus!
