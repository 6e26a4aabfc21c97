//! `fat-mkfs`: the command line that says how to format a device or an
//! image file, the volume label's bytes and the report of a format.
use vstd::prelude::*;
use vstd::string::{StrSliceExecFns, StringExecFns};
use vstd::utf8::encode_utf8;
use crate::fat_args::{arg_texts, is_option};
use crate::fatd::upper_text;
use crate::textparse::{parse_unsigned, spec_parse_unsigned};

verus! {

/// A FAT variant to format with.
#[derive(Clone, Copy, Debug, PartialEq, Eq, Structural)]
pub enum FatKind {
    Fat12,
    Fat16,
    Fat32,
}

/// The FAT variant an `-F` value names.
pub open spec fn fat_kind_of(s: Seq<char>) -> Option<FatKind> {
    if s == "12"@ {
        Some(FatKind::Fat12)
    } else if s == "16"@ {
        Some(FatKind::Fat16)
    } else if s == "32"@ {
        Some(FatKind::Fat32)
    } else {
        None
    }
}

/// Reads an `-F` value.
pub fn parse_fat_type(s: &str) -> (r: Option<FatKind>)
    ensures
        r == fat_kind_of(s@),
{
    let t = String::from_str(s);
    if t == String::from_str("12") {
        Some(FatKind::Fat12)
    } else if t == String::from_str("16") {
        Some(FatKind::Fat16)
    } else if t == String::from_str("32") {
        Some(FatKind::Fat32)
    } else {
        None
    }
}

/// What the command line asks for.
#[derive(Debug)]
pub struct MkfsPlan {
    pub fat_type: Option<FatKind>,
    /// The volume label, in upper case.
    pub label: Option<String>,
    /// Create the image file first, zero-filled to this many bytes.
    pub file_size: Option<u64>,
    pub cluster_sectors: Option<u8>,
    pub path: String,
}

/// Why the command line was refused: a message, an unknown option (the
/// usage text follows it), or the usage text alone.
#[derive(Debug)]
pub enum MkfsArgsError {
    Message(String),
    UnknownOption(String),
    Usage,
}

/// The plan or refusal a command line comes to, over views.
pub enum MkfsOutcome {
    Format {
        fat_type: Option<FatKind>,
        label: Option<Seq<char>>,
        file_size: Option<u64>,
        cluster_sectors: Option<u8>,
        path: Seq<char>,
    },
    Message(Seq<char>),
    UnknownOption(Seq<char>),
    Usage,
}

/// A number of sectors per cluster must be a power of two above zero.
pub open spec fn power_of_two(sc: u8) -> bool {
    sc != 0 && sc & ((sc - 1) as u8) == 0
}

/// The settings read so far.
pub struct MkfsSettings {
    pub fat_type: Option<FatKind>,
    pub label: Option<Seq<char>>,
    pub file_size: Option<u64>,
    pub cluster_sectors: Option<u8>,
}

/// One step of reading: an option and its value change the settings, or
/// the reading stops with an outcome.
pub enum MkfsStep {
    Continue(MkfsSettings),
    Stop(MkfsOutcome),
}

/// The step at argument `i` (which exists): `-F`, `-n`, `-s` and `-c`
/// take the next argument; another option is unknown; any other argument
/// is the device, and formatting starts there.
pub open spec fn mkfs_step(args: Seq<Seq<char>>, i: int, st: MkfsSettings) -> MkfsStep {
    let a = args[i];
    let has_value = i + 1 < args.len();
    let v = if has_value {
        args[i + 1]
    } else {
        Seq::empty()
    };
    if a == "-F"@ {
        if !has_value {
            MkfsStep::Stop(MkfsOutcome::Message("-F requires an argument (12, 16, or 32)"@))
        } else {
            match fat_kind_of(v) {
                None => MkfsStep::Stop(
                    MkfsOutcome::Message("invalid FAT type '"@ + v + "', use 12, 16, or 32"@),
                ),
                Some(k) => MkfsStep::Continue(MkfsSettings { fat_type: Some(k), ..st }),
            }
        }
    } else if a == "-n"@ {
        if !has_value {
            MkfsStep::Stop(MkfsOutcome::Message("-n requires a label argument"@))
        } else if encode_utf8(v).len() > 11 {
            MkfsStep::Stop(MkfsOutcome::Message("volume label too long (max 11 chars)"@))
        } else {
            MkfsStep::Continue(MkfsSettings { label: Some(upper_text(v)), ..st })
        }
    } else if a == "-s"@ {
        if !has_value {
            MkfsStep::Stop(MkfsOutcome::Message("-s requires a size argument"@))
        } else {
            match spec_parse_unsigned(encode_utf8(v), 10, u64::MAX as int) {
                None => MkfsStep::Stop(MkfsOutcome::Message("invalid size '"@ + v + "'"@)),
                Some(n) => MkfsStep::Continue(MkfsSettings { file_size: Some(n as u64), ..st }),
            }
        }
    } else if a == "-c"@ {
        if !has_value {
            MkfsStep::Stop(MkfsOutcome::Message("-c requires a sectors argument"@))
        } else {
            match spec_parse_unsigned(encode_utf8(v), 10, 255) {
                None => MkfsStep::Stop(MkfsOutcome::Message("invalid sectors '"@ + v + "'"@)),
                Some(n) => if !power_of_two(n as u8) {
                    MkfsStep::Stop(
                        MkfsOutcome::Message(
                            "sectors per cluster must be a power of 2 and greater than 0"@,
                        ),
                    )
                } else {
                    MkfsStep::Continue(MkfsSettings { cluster_sectors: Some(n as u8), ..st })
                },
            }
        }
    } else if is_option(a) {
        MkfsStep::Stop(MkfsOutcome::UnknownOption(a))
    } else {
        MkfsStep::Stop(
            MkfsOutcome::Format {
                fat_type: st.fat_type,
                label: st.label,
                file_size: st.file_size,
                cluster_sectors: st.cluster_sectors,
                path: a,
            },
        )
    }
}

/// Reading the arguments from `i` on, step by step; running out of
/// arguments before a device calls for the usage text.
pub open spec fn mkfs_args_from(args: Seq<Seq<char>>, i: int, st: MkfsSettings) -> MkfsOutcome
    decreases args.len() - i,
{
    if i < 0 || i >= args.len() {
        MkfsOutcome::Usage
    } else {
        match mkfs_step(args, i, st) {
            MkfsStep::Continue(next) => if i + 2 <= args.len() {
                mkfs_args_from(args, i + 2, next)
            } else {
                MkfsOutcome::Usage
            },
            MkfsStep::Stop(o) => o,
        }
    }
}

/// The command line as it starts: nothing set.
pub open spec fn no_settings() -> MkfsSettings {
    MkfsSettings { fat_type: None, label: None, file_size: None, cluster_sectors: None }
}

fn is_flag(arg: &String, flag: &str) -> (r: bool)
    ensures
        r == (arg@ == flag@),
{
    *arg == String::from_str(flag)
}

fn message3(head: &str, value: &str, tail: &str) -> (r: MkfsArgsError)
    ensures
        r matches MkfsArgsError::Message(m) && m@ == head@ + value@ + tail@,
{
    let mut m = String::from_str(head);
    m.append(value);
    m.append(tail);
    MkfsArgsError::Message(m)
}

fn upper_string(s: &str) -> (r: String)
    ensures
        r@ == upper_text(s@),
{
    let chars = crate::fatd::upper_chars(s);
    let mut out = String::new();
    let mut i: usize = 0;
    while i < chars.len()
        invariant
            i <= chars@.len(),
            out@ == chars@.subrange(0, i as int),
        decreases chars@.len() - i,
    {
        crate::text::push_char(&mut out, chars[i]);
        assert(chars@.subrange(0, i + 1) =~= chars@.subrange(0, i as int).push(chars@[i as int]));
        i = i + 1;
    }
    assert(chars@.subrange(0, chars@.len() as int) =~= chars@);
    out
}

/// The outcome as it reads over views.
pub open spec fn outcome_of(r: Result<MkfsPlan, MkfsArgsError>) -> MkfsOutcome {
    match r {
        Ok(p) => MkfsOutcome::Format {
            fat_type: p.fat_type,
            label: match p.label {
                Some(l) => Some(l@),
                None => None,
            },
            file_size: p.file_size,
            cluster_sectors: p.cluster_sectors,
            path: p.path@,
        },
        Err(MkfsArgsError::Message(m)) => MkfsOutcome::Message(m@),
        Err(MkfsArgsError::UnknownOption(o)) => MkfsOutcome::UnknownOption(o@),
        Err(MkfsArgsError::Usage) => MkfsOutcome::Usage,
    }
}

/// The settings as they read over views.
pub open spec fn settings_of(
    fat_type: Option<FatKind>,
    label: Option<String>,
    file_size: Option<u64>,
    cluster_sectors: Option<u8>,
) -> MkfsSettings {
    MkfsSettings {
        fat_type,
        label: match label {
            Some(l) => Some(l@),
            None => None,
        },
        file_size,
        cluster_sectors,
    }
}

fn mkfs_step_exec(
    args: &Vec<String>,
    i: usize,
    fat_type: Option<FatKind>,
    label: Option<String>,
    file_size: Option<u64>,
    cluster_sectors: Option<u8>,
) -> (r: Result<
    (Option<FatKind>, Option<String>, Option<u64>, Option<u8>),
    Result<MkfsPlan, MkfsArgsError>,
>)
    requires
        i < args@.len(),
    ensures
        match mkfs_step(
            arg_texts(args@),
            i as int,
            settings_of(fat_type, label, file_size, cluster_sectors),
        ) {
            MkfsStep::Continue(next) => r matches Ok(s) && settings_of(s.0, s.1, s.2, s.3) == next
                && i + 2 <= args@.len(),
            MkfsStep::Stop(o) => r matches Err(res) && outcome_of(res) == o,
        },
{
    let ghost all = arg_texts(args@);
    let a = &args[i];
    let has_value = args.len() - i > 1;
    proof {
        assert(all[i as int] == a@);
        if has_value {
            assert(all[i + 1] == args@[i + 1]@);
        }
    }
    if is_flag(a, "-F") {
        if !has_value {
            return Err(Err(MkfsArgsError::Message(String::from_str("-F requires an argument (12, 16, or 32)"))));
        }
        let v = args[i + 1].as_str();
        match parse_fat_type(v) {
            None => Err(Err(message3("invalid FAT type '", v, "', use 12, 16, or 32"))),
            Some(k) => Ok((Some(k), label, file_size, cluster_sectors)),
        }
    } else if is_flag(a, "-n") {
        if !has_value {
            return Err(Err(MkfsArgsError::Message(String::from_str("-n requires a label argument"))));
        }
        let v = args[i + 1].as_str();
        if v.as_bytes().len() > 11 {
            return Err(Err(MkfsArgsError::Message(String::from_str("volume label too long (max 11 chars)"))));
        }
        Ok((fat_type, Some(upper_string(v)), file_size, cluster_sectors))
    } else if is_flag(a, "-s") {
        if !has_value {
            return Err(Err(MkfsArgsError::Message(String::from_str("-s requires a size argument"))));
        }
        let v = args[i + 1].as_str();
        match parse_unsigned(v.as_bytes(), 10, u64::MAX) {
            None => Err(Err(message3("invalid size '", v, "'"))),
            Some(n) => Ok((fat_type, label, Some(n), cluster_sectors)),
        }
    } else if is_flag(a, "-c") {
        if !has_value {
            return Err(Err(MkfsArgsError::Message(String::from_str("-c requires a sectors argument"))));
        }
        let v = args[i + 1].as_str();
        match parse_unsigned(v.as_bytes(), 10, 255) {
            None => Err(Err(message3("invalid sectors '", v, "'"))),
            Some(n) => {
                proof {
                    crate::textparse::lemma_parse_unsigned_range(encode_utf8(v@), 10, 255);
                }
                let sc = n as u8;
                if sc == 0 || (sc & (sc - 1)) != 0 {
                    return Err(
                        Err(MkfsArgsError::Message(String::from_str("sectors per cluster must be a power of 2 and greater than 0"))),
                    );
                }
                Ok((fat_type, label, file_size, Some(sc)))
            },
        }
    } else {
        let s = a.as_str();
        if s.unicode_len() > 0 && s.get_char(0) == '-' {
            return Err(Err(MkfsArgsError::UnknownOption(String::from_str(s))));
        }
        Err(Ok(MkfsPlan { fat_type, label, file_size, cluster_sectors, path: String::from_str(s) }))
    }
}

/// Reads `fat-mkfs`'s command line (without the program's name).
pub fn parse_mkfs_args(args: &Vec<String>) -> (r: Result<MkfsPlan, MkfsArgsError>)
    ensures
        outcome_of(r) == mkfs_args_from(arg_texts(args@), 0, no_settings()),
{
    let ghost all = arg_texts(args@);
    let mut fat_type: Option<FatKind> = None;
    let mut label: Option<String> = None;
    let mut file_size: Option<u64> = None;
    let mut cluster_sectors: Option<u8> = None;
    let mut i: usize = 0;
    while i < args.len()
        invariant
            i <= args@.len(),
            all == arg_texts(args@),
            mkfs_args_from(all, 0, no_settings()) == mkfs_args_from(
                all,
                i as int,
                settings_of(fat_type, label, file_size, cluster_sectors),
            ),
        decreases args@.len() - i,
    {
        match mkfs_step_exec(args, i, fat_type, label, file_size, cluster_sectors) {
            Ok((f, l, s, c)) => {
                fat_type = f;
                label = l;
                file_size = s;
                cluster_sectors = c;
            },
            Err(done) => {
                return done;
            },
        }
        i = i + 2;
    }
    Err(MkfsArgsError::Usage)
}

/// The eleven bytes a label takes on disk: its UTF-8 bytes, cut after
/// eleven, padded with spaces.
pub open spec fn label_field(label: Seq<char>) -> Seq<u8> {
    let b = encode_utf8(label);
    Seq::new(11, |i: int| if i < b.len() { b[i] } else { 0x20u8 })
}

/// The on-disk bytes of a volume label.
pub fn label_bytes(label: &str) -> (r: [u8; 11])
    ensures
        r@ == label_field(label@),
{
    let b = label.as_bytes();
    let mut out = [0x20u8; 11];
    let mut i: usize = 0;
    while i < 11 && i < b.len()
        invariant
            i <= 11,
            i <= b@.len(),
            b@ == encode_utf8(label@),
            forall|j: int| 0 <= j < i ==> out@[j] == b@[j],
            forall|j: int| i <= j < 11 ==> out@[j] == 0x20u8,
        decreases 11 - i,
    {
        out[i] = b[i];
        i = i + 1;
    }
    assert(out@ =~= label_field(label@));
    out
}

/// The bytes per cluster of a number of 512-byte sectors.
pub fn bytes_per_cluster(sectors: u8) -> (r: u32)
    ensures
        r == sectors as u32 * 512,
{
    sectors as u32 * 512
}

/// The size of the next block of zeros written to a new image file: at
/// most 65536 bytes.
pub fn fill_chunk(remaining: usize) -> (r: usize)
    ensures
        r == (if remaining < 65536 {
            remaining
        } else {
            65536usize
        }),
{
    if remaining < 65536 {
        remaining
    } else {
        65536
    }
}

/// The name of the variant a format used.
pub open spec fn kind_name(k: Option<FatKind>) -> Seq<char> {
    match k {
        Some(FatKind::Fat12) => "FAT12"@,
        Some(FatKind::Fat16) => "FAT16"@,
        Some(FatKind::Fat32) => "FAT32"@,
        None => "auto-detected"@,
    }
}

/// The report of a format: the path, the variant and, where given, the
/// sectors per cluster.
pub open spec fn formatted_text(path: Seq<char>, k: Option<FatKind>, sectors: Option<u8>) -> Seq<
    char,
> {
    "fat-mkfs: formatted "@ + path + " as "@ + kind_name(k) + match sectors {
        Some(sc) => ", cluster "@ + crate::text::decimal(sc as nat) + " sectors"@,
        None => Seq::empty(),
    }
}

/// Builds the report of a format.
pub fn formatted_message(path: &str, k: Option<FatKind>, sectors: Option<u8>) -> (r: String)
    ensures
        r@ == formatted_text(path@, k, sectors),
{
    let mut m = String::from_str("fat-mkfs: formatted ");
    m.append(path);
    m.append(" as ");
    match k {
        Some(FatKind::Fat12) => m.append("FAT12"),
        Some(FatKind::Fat16) => m.append("FAT16"),
        Some(FatKind::Fat32) => m.append("FAT32"),
        None => m.append("auto-detected"),
    }
    match sectors {
        Some(sc) => {
            m.append(", cluster ");
            crate::text::push_decimal(&mut m, sc as u64);
            m.append(" sectors");
        },
        None => {},
    }
    m
}

} // verus!
