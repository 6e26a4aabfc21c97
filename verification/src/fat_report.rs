//! What a FAT check reports: error, warning and information messages, the
//! lines that present them, the exit status, and the summary of repairs.

use vstd::prelude::*;
use vstd::string::StringExecFns;
use crate::text::{decimal, push_decimal};

verus! {

/// The characters of each string of a list.
pub open spec fn texts(v: Seq<String>) -> Seq<Seq<char>> {
    v.map_values(|s: String| s@)
}

proof fn lemma_texts_push(v: Seq<String>, s: String)
    ensures
        texts(v.push(s)) == texts(v).push(s@),
{
    assert(texts(v.push(s)) =~= texts(v).push(s@));
}

/// Messages gathered while checking a volume, by severity.
pub struct CheckResult {
    pub errors: Vec<String>,
    pub warnings: Vec<String>,
    pub info: Vec<String>,
}

impl CheckResult {
    pub open spec fn error_texts(&self) -> Seq<Seq<char>> {
        texts(self.errors@)
    }

    pub open spec fn warning_texts(&self) -> Seq<Seq<char>> {
        texts(self.warnings@)
    }

    pub open spec fn info_texts(&self) -> Seq<Seq<char>> {
        texts(self.info@)
    }

    pub fn new() -> (r: Self)
        ensures
            r.errors@.len() == 0,
            r.warnings@.len() == 0,
            r.info@.len() == 0,
    {
        CheckResult { errors: Vec::new(), warnings: Vec::new(), info: Vec::new() }
    }

    /// Records an error.
    pub fn error(&mut self, msg: String)
        ensures
            final(self).error_texts() == old(self).error_texts().push(msg@),
            final(self).errors@ == old(self).errors@.push(msg),
            final(self).warnings@ == old(self).warnings@,
            final(self).info@ == old(self).info@,
    {
        proof {
            lemma_texts_push(self.errors@, msg);
        }
        self.errors.push(msg);
    }

    /// Records a warning.
    pub fn warn(&mut self, msg: String)
        ensures
            final(self).warning_texts() == old(self).warning_texts().push(msg@),
            final(self).warnings@ == old(self).warnings@.push(msg),
            final(self).errors@ == old(self).errors@,
            final(self).info@ == old(self).info@,
    {
        proof {
            lemma_texts_push(self.warnings@, msg);
        }
        self.warnings.push(msg);
    }

    /// Records an information message.
    pub fn info(&mut self, msg: String)
        ensures
            final(self).info_texts() == old(self).info_texts().push(msg@),
            final(self).info@ == old(self).info@.push(msg),
            final(self).errors@ == old(self).errors@,
            final(self).warnings@ == old(self).warnings@,
    {
        proof {
            lemma_texts_push(self.info@, msg);
        }
        self.info.push(msg);
    }

    /// The lines that present the result: every information message, then
    /// every warning, then every error, each behind its tag, and last a
    /// closing line.
    pub fn report_lines(&self) -> (r: Vec<String>)
        ensures
            texts(r@) == report_lines_spec(
                self.error_texts(),
                self.warning_texts(),
                self.info_texts(),
            ),
    {
        let mut lines: Vec<String> = Vec::new();
        push_tagged(&mut lines, "INFO: ", &self.info);
        push_tagged(&mut lines, "WARNING: ", &self.warnings);
        push_tagged(&mut lines, "ERROR: ", &self.errors);
        let last = closing_line(self.errors.len(), self.warnings.len(), self.info.len());
        proof {
            lemma_texts_push(lines@, last);
        }
        lines.push(last);
        proof {
            assert(texts(lines@) =~= report_lines_spec(
                self.error_texts(),
                self.warning_texts(),
                self.info_texts(),
            ));
        }
        lines
    }
}

/// Each message behind a tag.
pub open spec fn tagged(tag: Seq<char>, msgs: Seq<Seq<char>>) -> Seq<Seq<char>> {
    msgs.map_values(|m: Seq<char>| tag + m)
}

/// The closing line: clean when there is neither error nor warning, else the
/// three counts.
pub open spec fn closing_line_spec(errors: nat, warnings: nat, infos: nat) -> Seq<char> {
    if errors == 0 && warnings == 0 {
        "Filesystem is clean."@
    } else {
        decimal(errors) + " error(s), "@ + decimal(warnings) + " warning(s), "@ + decimal(infos)
            + " info message(s)"@
    }
}

pub open spec fn report_lines_spec(
    errors: Seq<Seq<char>>,
    warnings: Seq<Seq<char>>,
    infos: Seq<Seq<char>>,
) -> Seq<Seq<char>> {
    tagged("INFO: "@, infos) + tagged("WARNING: "@, warnings) + tagged("ERROR: "@, errors)
        + seq![closing_line_spec(errors.len(), warnings.len(), infos.len())]
}

fn push_tagged(lines: &mut Vec<String>, tag: &str, msgs: &Vec<String>)
    ensures
        texts(final(lines)@) == texts(old(lines)@) + tagged(tag@, texts(msgs@)),
{
    let ghost start = texts(lines@);
    let mut i: usize = 0;
    while i < msgs.len()
        invariant
            i <= msgs.len(),
            texts(lines@) == start + tagged(tag@, texts(msgs@.subrange(0, i as int))),
        decreases msgs.len() - i,
    {
        let mut line = String::from_str(tag);
        line.append(msgs[i].as_str());
        proof {
            lemma_texts_push(lines@, line);
            assert(texts(msgs@.subrange(0, i + 1)) =~= texts(msgs@.subrange(0, i as int)).push(
                msgs@[i as int]@,
            ));
            assert(tagged(tag@, texts(msgs@.subrange(0, i + 1))) =~= tagged(
                tag@,
                texts(msgs@.subrange(0, i as int)),
            ).push(tag@ + msgs@[i as int]@));
        }
        lines.push(line);
        i = i + 1;
    }
    proof {
        assert(msgs@.subrange(0, msgs@.len() as int) =~= msgs@);
    }
}

fn closing_line(errors: usize, warnings: usize, infos: usize) -> (r: String)
    ensures
        r@ == closing_line_spec(errors as nat, warnings as nat, infos as nat),
{
    if errors == 0 && warnings == 0 {
        String::from_str("Filesystem is clean.")
    } else {
        let mut s = String::new();
        push_decimal(&mut s, errors as u64);
        s.append(" error(s), ");
        push_decimal(&mut s, warnings as u64);
        s.append(" warning(s), ");
        push_decimal(&mut s, infos as u64);
        s.append(" info message(s)");
        proof {
            assert(s@ =~= closing_line_spec(errors as nat, warnings as nat, infos as nat));
        }
        s
    }
}

/// The process status after a check: 2 when repairs were made, else 1 when
/// an error was found, else 0.
pub fn exit_status(result: &CheckResult, repairs_made: bool) -> (r: i32)
    ensures
        r == (if repairs_made {
            2i32
        } else if result.errors@.len() > 0 {
            1i32
        } else {
            0i32
        }),
{
    if repairs_made {
        2
    } else if result.errors.len() > 0 {
        1
    } else {
        0
    }
}

/// What a repair run changed.
pub struct RepairStats {
    pub dirty_flag_cleared: bool,
    pub fsinfo_corrected: bool,
    pub lost_clusters_reclaimed: usize,
    pub orphaned_lfn_entries_removed: usize,
}

/// Parts joined with a separator between each two.
pub open spec fn joined(parts: Seq<Seq<char>>, sep: Seq<char>) -> Seq<char>
    decreases parts.len(),
{
    if parts.len() == 0 {
        Seq::empty()
    } else if parts.len() == 1 {
        parts[0]
    } else {
        joined(parts.drop_last(), sep) + sep + parts.last()
    }
}

/// An item when the condition holds, else nothing.
pub open spec fn part_if(cond: bool, part: Seq<char>) -> Seq<Seq<char>> {
    if cond {
        seq![part]
    } else {
        Seq::empty()
    }
}

impl RepairStats {
    /// Whether any repair was made: the dirty flag cleared, FSInfo
    /// corrected, or any lost cluster or orphaned long-name entry handled.
    pub fn repairs_made(&self) -> (r: bool)
        ensures
            r == (self.dirty_flag_cleared || self.fsinfo_corrected || self.lost_clusters_reclaimed
                > 0 || self.orphaned_lfn_entries_removed > 0),
    {
        self.dirty_flag_cleared || self.fsinfo_corrected || self.lost_clusters_reclaimed > 0
            || self.orphaned_lfn_entries_removed > 0
    }

    /// The parts of the summary, in the order they are listed.
    pub open spec fn summary_parts(&self) -> Seq<Seq<char>> {
        part_if(
            self.lost_clusters_reclaimed != 0,
            decimal(self.lost_clusters_reclaimed as nat) + " lost cluster(s)"@,
        ) + part_if(
            self.orphaned_lfn_entries_removed != 0,
            decimal(self.orphaned_lfn_entries_removed as nat) + " orphaned LFN entr(ies)"@,
        ) + part_if(self.dirty_flag_cleared, "dirty flag cleared"@) + part_if(
            self.fsinfo_corrected,
            "FSInfo updated"@,
        )
    }

    pub open spec fn summary_spec(&self) -> Seq<char> {
        let parts = self.summary_parts();
        if parts.len() == 0 {
            "Repaired: nothing needed"@
        } else {
            "Repaired: "@ + joined(parts, ", "@)
        }
    }

    /// One line that lists what was repaired.
    pub fn summary(&self) -> (r: String)
        ensures
            r@ == self.summary_spec(),
    {
        let mut parts: Vec<String> = Vec::new();
        if self.lost_clusters_reclaimed != 0 {
            let mut p = String::new();
            push_decimal(&mut p, self.lost_clusters_reclaimed as u64);
            p.append(" lost cluster(s)");
            proof {
                lemma_texts_push(parts@, p);
            }
            parts.push(p);
        }
        let ghost after_lost = texts(parts@);
        if self.orphaned_lfn_entries_removed != 0 {
            let mut p = String::new();
            push_decimal(&mut p, self.orphaned_lfn_entries_removed as u64);
            p.append(" orphaned LFN entr(ies)");
            proof {
                lemma_texts_push(parts@, p);
            }
            parts.push(p);
        }
        let ghost after_lfn = texts(parts@);
        if self.dirty_flag_cleared {
            let p = String::from_str("dirty flag cleared");
            proof {
                lemma_texts_push(parts@, p);
            }
            parts.push(p);
        }
        let ghost after_dirty = texts(parts@);
        if self.fsinfo_corrected {
            let p = String::from_str("FSInfo updated");
            proof {
                lemma_texts_push(parts@, p);
            }
            parts.push(p);
        }
        proof {
            assert(after_lost =~= part_if(
                self.lost_clusters_reclaimed != 0,
                decimal(self.lost_clusters_reclaimed as nat) + " lost cluster(s)"@,
            ));
            assert(after_lfn =~= after_lost + part_if(
                self.orphaned_lfn_entries_removed != 0,
                decimal(self.orphaned_lfn_entries_removed as nat) + " orphaned LFN entr(ies)"@,
            ));
            assert(after_dirty =~= after_lfn + part_if(
                self.dirty_flag_cleared,
                "dirty flag cleared"@,
            ));
            assert(texts(parts@) =~= after_dirty + part_if(self.fsinfo_corrected, "FSInfo updated"@));
            assert(texts(parts@) =~= self.summary_parts());
        }
        if parts.len() == 0 {
            String::from_str("Repaired: nothing needed")
        } else {
            let mut s = String::from_str("Repaired: ");
            let joined_parts = join_strings(&parts, ", ");
            s.append(joined_parts.as_str());
            s
        }
    }
}

pub proof fn lemma_joined_push(parts: Seq<Seq<char>>, sep: Seq<char>, p: Seq<char>)
    ensures
        joined(parts.push(p), sep) == (if parts.len() == 0 {
            p
        } else {
            joined(parts, sep) + sep + p
        }),
{
    let q = parts.push(p);
    assert(q.drop_last() =~= parts);
    if parts.len() == 0 {
        assert(q.len() == 1);
    }
}

/// Joins strings with a separator between each two.
pub(crate) fn join_strings(parts: &Vec<String>, sep: &str) -> (r: String)
    ensures
        r@ == joined(texts(parts@), sep@),
{
    let mut s = String::new();
    let mut i: usize = 0;
    while i < parts.len()
        invariant
            i <= parts.len(),
            s@ == joined(texts(parts@.subrange(0, i as int)), sep@),
        decreases parts.len() - i,
    {
        proof {
            assert(texts(parts@.subrange(0, i + 1)) =~= texts(parts@.subrange(0, i as int)).push(
                parts@[i as int]@,
            ));
            lemma_joined_push(texts(parts@.subrange(0, i as int)), sep@, parts@[i as int]@);
        }
        if i > 0 {
            s.append(sep);
        }
        s.append(parts[i].as_str());
        i = i + 1;
    }
    proof {
        assert(parts@.subrange(0, parts@.len() as int) =~= parts@);
    }
    s
}

} // verus!
