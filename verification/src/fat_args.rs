//! The command lines of the FAT tools: `fat-check [--repair|-r] <device>`
//! and `fat-label [-s <label>|--set <label>] <device>`.

use vstd::prelude::*;
use vstd::string::{StrSliceExecFns, StringExecFns};

verus! {

/// The views of a list of strings.
pub open spec fn arg_texts(args: Seq<String>) -> Seq<Seq<char>> {
    args.map_values(|s: String| s@)
}

/// The view of an optional string.
pub open spec fn opt_text(o: Option<String>) -> Option<Seq<char>> {
    match o {
        Some(s) => Some(s@),
        None => None,
    }
}

/// An option: a nonempty argument that starts with `-`.
pub open spec fn is_option(a: Seq<char>) -> bool {
    a.len() > 0 && a[0] == '-'
}

fn starts_with_dash(arg: &String) -> (r: bool)
    ensures
        r == is_option(arg@),
{
    let s = arg.as_str();
    if s.unicode_len() == 0 {
        false
    } else {
        s.get_char(0) == '-'
    }
}

/// How a `fat-check` command line reads.
pub enum CheckArgsOutcome {
    Run { repair: bool, device: Seq<char> },
    UnknownOption(Seq<char>),
    Usage,
}

/// Reading `fat-check`'s arguments from `i` on, with what was read
/// before: `--repair` or `-r` asks for repairs, another option is
/// unknown, the first other argument names the device, and a second one,
/// or none at all, calls for the usage text.
pub open spec fn check_args_from(
    args: Seq<Seq<char>>,
    i: int,
    repair: bool,
    device: Option<Seq<char>>,
) -> CheckArgsOutcome
    decreases args.len() - i,
{
    if i < 0 || i >= args.len() {
        match device {
            Some(d) => CheckArgsOutcome::Run { repair, device: d },
            None => CheckArgsOutcome::Usage,
        }
    } else {
        let a = args[i];
        if a == "--repair"@ || a == "-r"@ {
            check_args_from(args, i + 1, true, device)
        } else if is_option(a) {
            CheckArgsOutcome::UnknownOption(a)
        } else if device is None {
            check_args_from(args, i + 1, repair, Some(a))
        } else {
            CheckArgsOutcome::Usage
        }
    }
}

/// Why a `fat-check` command line was refused.
pub enum CheckArgsError {
    UnknownOption(String),
    Usage,
}

/// Reads `fat-check`'s arguments (those after the program name): whether
/// to repair, and the device.
pub fn parse_check_args(args: &Vec<String>) -> (r: Result<(bool, String), CheckArgsError>)
    ensures
        match r {
            Ok((repair, device)) => check_args_from(arg_texts(args@), 0, false, None)
                == CheckArgsOutcome::Run { repair, device: device@ },
            Err(CheckArgsError::UnknownOption(a)) => check_args_from(
                arg_texts(args@),
                0,
                false,
                None,
            ) == CheckArgsOutcome::UnknownOption(a@),
            Err(CheckArgsError::Usage) => check_args_from(arg_texts(args@), 0, false, None)
                == CheckArgsOutcome::Usage,
        },
{
    let ghost texts = arg_texts(args@);
    let mut repair = false;
    let mut device: Option<String> = None;
    let mut i: usize = 0;
    while i < args.len()
        invariant
            i <= args@.len(),
            texts == arg_texts(args@),
            check_args_from(texts, i as int, repair, opt_text(device))
                == check_args_from(texts, 0, false, None),
        decreases args@.len() - i,
    {
        let arg = &args[i];
        assert(texts[i as int] == arg@);
        if *arg == String::from_str("--repair") || *arg == String::from_str("-r") {
            repair = true;
        } else if starts_with_dash(arg) {
            return Err(CheckArgsError::UnknownOption(arg.clone()));
        } else if device.is_none() {
            device = Some(arg.clone());
        } else {
            return Err(CheckArgsError::Usage);
        }
        i = i + 1;
    }
    match device {
        Some(d) => Ok((repair, d)),
        None => Err(CheckArgsError::Usage),
    }
}

/// How a `fat-label` command line reads.
pub enum LabelArgsOutcome {
    Run { label: Option<Seq<char>>, device: Seq<char> },
    LabelTwice,
    MissingLabel(Seq<char>),
    UnknownOption(Seq<char>),
    ExtraArgument(Seq<char>),
    Usage,
}

/// Reading `fat-label`'s arguments from `i` on: `-s` or `--set` takes the
/// next argument as the new label (once only), another option is unknown,
/// the first other argument names the device and a second one is one too
/// many; without a device the usage text is called for.
pub open spec fn label_args_from(
    args: Seq<Seq<char>>,
    i: int,
    label: Option<Seq<char>>,
    device: Option<Seq<char>>,
) -> LabelArgsOutcome
    decreases args.len() - i,
{
    if i < 0 || i >= args.len() {
        match device {
            Some(d) => LabelArgsOutcome::Run { label, device: d },
            None => LabelArgsOutcome::Usage,
        }
    } else {
        let a = args[i];
        if a == "-s"@ || a == "--set"@ {
            if label is Some {
                LabelArgsOutcome::LabelTwice
            } else if i + 1 >= args.len() {
                LabelArgsOutcome::MissingLabel(a)
            } else {
                label_args_from(args, i + 2, Some(args[i + 1]), device)
            }
        } else if is_option(a) {
            LabelArgsOutcome::UnknownOption(a)
        } else if device is Some {
            LabelArgsOutcome::ExtraArgument(a)
        } else {
            label_args_from(args, i + 1, label, Some(a))
        }
    }
}

/// Why a `fat-label` command line was refused.
pub enum LabelArgsError {
    LabelTwice,
    MissingLabel(String),
    UnknownOption(String),
    ExtraArgument(String),
    Usage,
}

/// Reads `fat-label`'s arguments (those after the program name): the new
/// label, if one is to be set, and the device.
pub fn parse_label_args(args: &Vec<String>) -> (r: Result<(Option<String>, String), LabelArgsError>)
    ensures
        ({
            let expect = label_args_from(arg_texts(args@), 0, None, None);
            match r {
                Ok((label, device)) => expect == LabelArgsOutcome::Run {
                    label: opt_text(label),
                    device: device@,
                },
                Err(LabelArgsError::LabelTwice) => expect == LabelArgsOutcome::LabelTwice,
                Err(LabelArgsError::MissingLabel(a)) => expect == LabelArgsOutcome::MissingLabel(a@),
                Err(LabelArgsError::UnknownOption(a)) => expect == LabelArgsOutcome::UnknownOption(
                    a@,
                ),
                Err(LabelArgsError::ExtraArgument(a)) => expect == LabelArgsOutcome::ExtraArgument(
                    a@,
                ),
                Err(LabelArgsError::Usage) => expect == LabelArgsOutcome::Usage,
            }
        }),
{
    let ghost texts = arg_texts(args@);
    let mut label: Option<String> = None;
    let mut device: Option<String> = None;
    let mut i: usize = 0;
    while i < args.len()
        invariant
            i <= args@.len(),
            texts == arg_texts(args@),
            label_args_from(
                texts,
                i as int,
                opt_text(label),
                opt_text(device),
            ) == label_args_from(texts, 0, None, None),
        decreases args@.len() - i,
    {
        let arg = &args[i];
        assert(texts[i as int] == arg@);
        if *arg == String::from_str("-s") || *arg == String::from_str("--set") {
            if label.is_some() {
                return Err(LabelArgsError::LabelTwice);
            }
            if i + 1 >= args.len() {
                return Err(LabelArgsError::MissingLabel(arg.clone()));
            }
            assert(texts[i + 1] == args@[i + 1]@);
            label = Some(args[i + 1].clone());
            i = i + 2;
        } else if starts_with_dash(arg) {
            return Err(LabelArgsError::UnknownOption(arg.clone()));
        } else if device.is_some() {
            return Err(LabelArgsError::ExtraArgument(arg.clone()));
        } else {
            device = Some(arg.clone());
            i = i + 1;
        }
    }
    match device {
        Some(d) => Ok((label, d)),
        None => Err(LabelArgsError::Usage),
    }
}

} // verus!
