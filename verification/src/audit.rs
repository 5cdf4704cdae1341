//! The audit subcommand: how much of the log is shown.

use vstd::prelude::*;
use vstd::string::*;
use crate::text::{
    add_lines, decimal, decimal_string, fill, name_or_mark, opt_view, repeat, shown_name,
};

verus! {

/// The number of entries shown of a log of `total` entries: all of them,
/// or the first `limit` where a limit is given.
pub open spec fn entries_shown(total: nat, limit: Option<usize>) -> nat {
    match limit {
        Some(n) => if n < total {
            n as nat
        } else {
            total
        },
        None => total,
    }
}

/// Decides how many entries of the audit log are shown.
pub fn handle_audit_command(total: usize, limit: Option<usize>) -> (r: usize)
    ensures
        r == entries_shown(total as nat, limit),
{
    match limit {
        Some(n) => if n < total {
            n
        } else {
            total
        },
        None => total,
    }
}

/// A rename of the audit log: the names of the file before and after.
#[derive(Debug)]
pub struct AuditRename {
    pub old_name: Option<String>,
    pub new_name: Option<String>,
}

/// What a rename of the audit log is, in the terms of the contracts.
pub struct AuditRenameModel {
    pub old_name: Option<Seq<char>>,
    pub new_name: Option<Seq<char>>,
}

impl View for AuditRename {
    type V = AuditRenameModel;

    open spec fn view(&self) -> AuditRenameModel {
        AuditRenameModel { old_name: opt_view(self.old_name), new_name: opt_view(self.new_name) }
    }
}

impl DeepView for AuditRename {
    type V = AuditRenameModel;

    open spec fn deep_view(&self) -> AuditRenameModel {
        self@
    }
}

/// A file of the audit log that was skipped or failed, with the reason.
#[derive(Debug)]
pub struct AuditNote {
    pub file_name: Option<String>,
    pub reason: String,
}

/// What a note of the audit log is, in the terms of the contracts.
pub struct AuditNoteModel {
    pub file_name: Option<Seq<char>>,
    pub reason: Seq<char>,
}

impl View for AuditNote {
    type V = AuditNoteModel;

    open spec fn view(&self) -> AuditNoteModel {
        AuditNoteModel { file_name: opt_view(self.file_name), reason: self.reason@ }
    }
}

impl DeepView for AuditNote {
    type V = AuditNoteModel;

    open spec fn deep_view(&self) -> AuditNoteModel {
        self@
    }
}

/// One entry of the audit log, as it is shown.
#[derive(Debug)]
pub struct AuditRecord {
    pub timestamp: String,
    pub user: Option<String>,
    pub directory: String,
    pub command: String,
    pub pattern: Option<String>,
    pub successful_count: usize,
    pub skipped_count: usize,
    pub error_count: usize,
    pub successful: Vec<AuditRename>,
    pub skipped: Vec<AuditNote>,
    pub errors: Vec<AuditNote>,
}

/// What an entry of the audit log is, in the terms of the contracts.
pub struct AuditRecordModel {
    pub timestamp: Seq<char>,
    pub user: Option<Seq<char>>,
    pub directory: Seq<char>,
    pub command: Seq<char>,
    pub pattern: Option<Seq<char>>,
    pub successful_count: usize,
    pub skipped_count: usize,
    pub error_count: usize,
    pub successful: Seq<AuditRenameModel>,
    pub skipped: Seq<AuditNoteModel>,
    pub errors: Seq<AuditNoteModel>,
}

impl View for AuditRecord {
    type V = AuditRecordModel;

    open spec fn view(&self) -> AuditRecordModel {
        AuditRecordModel {
            timestamp: self.timestamp@,
            user: opt_view(self.user),
            directory: self.directory@,
            command: self.command@,
            pattern: opt_view(self.pattern),
            successful_count: self.successful_count,
            skipped_count: self.skipped_count,
            error_count: self.error_count,
            successful: self.successful.deep_view(),
            skipped: self.skipped.deep_view(),
            errors: self.errors.deep_view(),
        }
    }
}

impl DeepView for AuditRecord {
    type V = AuditRecordModel;

    open spec fn deep_view(&self) -> AuditRecordModel {
        self@
    }
}

/// A line with a label in front, where there is something to show.
pub open spec fn optional_line(label: Seq<char>, value: Option<Seq<char>>) -> Seq<Seq<char>> {
    match value {
        Some(v) => seq![label + v],
        None => Seq::empty(),
    }
}

/// The lines on the renames that succeeded: none where there are none.
pub open spec fn rename_lines(renames: Seq<AuditRenameModel>) -> Seq<Seq<char>> {
    if renames.len() == 0 {
        Seq::empty()
    } else {
        seq!["  Successful renames:"@] + Seq::new(
            renames.len(),
            |i: int| "    "@ + shown_name(renames[i].old_name) + " -> "@ + shown_name(renames[i].new_name),
        )
    }
}

/// The lines on files with a reason, under a heading: none where there
/// are none.
pub open spec fn note_lines(heading: Seq<char>, notes: Seq<AuditNoteModel>) -> Seq<Seq<char>> {
    if notes.len() == 0 {
        Seq::empty()
    } else {
        seq![heading] + Seq::new(
            notes.len(),
            |i: int| "    "@ + shown_name(notes[i].file_name) + ": "@ + notes[i].reason,
        )
    }
}

/// The line of the counts.
pub open spec fn counts_line(e: AuditRecordModel) -> Seq<char> {
    "  Results:        "@ + decimal(e.successful_count as nat) + " successful, "@ + decimal(
        e.skipped_count as nat,
    ) + " skipped, "@ + decimal(e.error_count as nat) + " errors"@
}

/// The lines of one entry, which is shown as number `number`.
pub open spec fn record_lines(e: AuditRecordModel, number: nat) -> Seq<Seq<char>> {
    seq![Seq::empty(), "Entry #"@ + decimal(number), "  Timestamp:      "@ + e.timestamp]
        + optional_line("  User:           "@, e.user) + seq![
        "  Directory:      "@ + e.directory,
        "  Command:        "@ + e.command,
    ] + optional_line("  Pattern:        "@, e.pattern) + seq![counts_line(e)] + rename_lines(
        e.successful,
    ) + note_lines("  Skipped files:"@, e.skipped) + note_lines("  Errors:"@, e.errors)
}

/// The lines of the first `n` entries, a rule of 120 dashes behind each
/// but the last of all.
pub open spec fn records_lines(entries: Seq<AuditRecordModel>, n: int) -> Seq<Seq<char>>
    decreases n,
{
    if n <= 0 || n > entries.len() {
        Seq::empty()
    } else {
        records_lines(entries, n - 1) + record_lines(entries[n - 1], n as nat) + (if n
            < entries.len() {
            seq![fill('-', 120)]
        } else {
            Seq::empty()
        })
    }
}

/// The lines that show entries of the audit log: a heading with their
/// number, a blank line, a rule, and the entries.
pub open spec fn audit_lines(entries: Seq<AuditRecordModel>) -> Seq<Seq<char>> {
    seq![
        "Audit Log Entries (showing "@ + decimal(entries.len()) + " of "@ + decimal(entries.len())
            + "):"@,
        Seq::empty(),
        fill('-', 120),
    ] + records_lines(entries, entries.len() as int)
}

fn add_optional(lines: &mut Vec<String>, label: &str, value: &Option<String>)
    ensures
        final(lines).deep_view() == old(lines).deep_view() + optional_line(label@, opt_view(*value)),
{
    let ghost before = lines.deep_view();
    match value {
        Some(v) => {
            lines.push(String::from_str(label).concat(v.as_str()));
            assert(lines.deep_view() =~= before + seq![label@ + v@]);
        },
        None => {
            assert(lines.deep_view() =~= before + Seq::<Seq<char>>::empty());
        },
    }
}

fn add_renames(lines: &mut Vec<String>, renames: &Vec<AuditRename>)
    ensures
        final(lines).deep_view() == old(lines).deep_view() + rename_lines(renames.deep_view()),
{
    let ghost before = lines.deep_view();
    let ghost rs = renames.deep_view();
    if renames.len() == 0 {
        assert(lines.deep_view() =~= before + Seq::<Seq<char>>::empty());
        return ;
    }
    let mut block: Vec<String> = Vec::new();
    block.push(String::from_str("  Successful renames:"));
    let mut i: usize = 0;
    while i < renames.len()
        invariant
            i <= renames.len(),
            rs == renames.deep_view(),
            block.len() == i + 1,
            block[0]@ == "  Successful renames:"@,
            forall|k: int|
                0 <= k < i ==> (#[trigger] block[k + 1])@ == "    "@ + shown_name(rs[k].old_name)
                    + " -> "@ + shown_name(rs[k].new_name),
        decreases renames.len() - i,
    {
        assert(rs[i as int] == renames[i as int]@);
        block.push(
            String::from_str("    ").concat(name_or_mark(&renames[i].old_name)).concat(" -> ").concat(
                name_or_mark(&renames[i].new_name),
            ),
        );
        i += 1;
    }
    proof {
        let want = rename_lines(rs);
        assert forall|j: int| 0 <= j < block.len() implies block.deep_view()[j] == want[j] by {
            if j >= 1 {
                assert(block[(j - 1) + 1]@ == "    "@ + shown_name(rs[j - 1].old_name) + " -> "@
                    + shown_name(rs[j - 1].new_name));
            }
        }
        assert(block.deep_view() =~= want);
    }
    add_lines(lines, block);
}

fn add_notes(lines: &mut Vec<String>, heading: &str, notes: &Vec<AuditNote>)
    ensures
        final(lines).deep_view() == old(lines).deep_view() + note_lines(heading@, notes.deep_view()),
{
    let ghost before = lines.deep_view();
    let ghost ns = notes.deep_view();
    if notes.len() == 0 {
        assert(lines.deep_view() =~= before + Seq::<Seq<char>>::empty());
        return ;
    }
    let mut block: Vec<String> = Vec::new();
    block.push(String::from_str(heading));
    let mut i: usize = 0;
    while i < notes.len()
        invariant
            i <= notes.len(),
            ns == notes.deep_view(),
            block.len() == i + 1,
            block[0]@ == heading@,
            forall|k: int|
                0 <= k < i ==> (#[trigger] block[k + 1])@ == "    "@ + shown_name(ns[k].file_name)
                    + ": "@ + ns[k].reason,
        decreases notes.len() - i,
    {
        assert(ns[i as int] == notes[i as int]@);
        block.push(
            String::from_str("    ").concat(name_or_mark(&notes[i].file_name)).concat(": ").concat(
                notes[i].reason.as_str(),
            ),
        );
        i += 1;
    }
    proof {
        let want = note_lines(heading@, ns);
        assert forall|j: int| 0 <= j < block.len() implies block.deep_view()[j] == want[j] by {
            if j >= 1 {
                assert(block[(j - 1) + 1]@ == "    "@ + shown_name(ns[j - 1].file_name) + ": "@
                    + ns[j - 1].reason);
            }
        }
        assert(block.deep_view() =~= want);
    }
    add_lines(lines, block);
}

/// The lines of one entry.
fn record_rows(entry: &AuditRecord, number: usize) -> (r: Vec<String>)
    ensures
        r.deep_view() == record_lines(entry@, number as nat),
{
    let mut lines: Vec<String> = Vec::new();
    lines.push(String::new());
    lines.push(String::from_str("Entry #").concat(decimal_string(number).as_str()));
    lines.push(String::from_str("  Timestamp:      ").concat(entry.timestamp.as_str()));
    assert(lines.deep_view() =~= seq![
        Seq::<char>::empty(),
        "Entry #"@ + decimal(number as nat),
        "  Timestamp:      "@ + entry.timestamp@,
    ]);
    add_optional(&mut lines, "  User:           ", &entry.user);
    let ghost a = lines.deep_view();
    lines.push(String::from_str("  Directory:      ").concat(entry.directory.as_str()));
    lines.push(String::from_str("  Command:        ").concat(entry.command.as_str()));
    assert(lines.deep_view() =~= a + seq![
        "  Directory:      "@ + entry.directory@,
        "  Command:        "@ + entry.command@,
    ]);
    add_optional(&mut lines, "  Pattern:        ", &entry.pattern);
    let ghost b = lines.deep_view();
    lines.push(
        String::from_str("  Results:        ").concat(
            decimal_string(entry.successful_count).as_str(),
        ).concat(" successful, ").concat(decimal_string(entry.skipped_count).as_str()).concat(
            " skipped, ",
        ).concat(decimal_string(entry.error_count).as_str()).concat(" errors"),
    );
    assert(lines.deep_view() =~= b + seq![counts_line(entry@)]);
    add_renames(&mut lines, &entry.successful);
    add_notes(&mut lines, "  Skipped files:", &entry.skipped);
    add_notes(&mut lines, "  Errors:", &entry.errors);
    lines
}

/// The lines that show entries of the audit log, for the caller to print.
pub fn display_audit_entries(entries: &Vec<AuditRecord>) -> (r: Vec<String>)
    ensures
        r.deep_view() == audit_lines(entries.deep_view()),
{
    let ghost es = entries.deep_view();
    proof {
        reveal_strlit("-");
        assert("-"@ =~= seq!['-']);
    }
    let mut lines: Vec<String> = Vec::new();
    lines.push(
        String::from_str("Audit Log Entries (showing ").concat(
            decimal_string(entries.len()).as_str(),
        ).concat(" of ").concat(decimal_string(entries.len()).as_str()).concat("):"),
    );
    lines.push(String::new());
    lines.push(repeat("-", '-', 120));
    let ghost head = lines.deep_view();
    assert(head =~= seq![
        "Audit Log Entries (showing "@ + decimal(es.len()) + " of "@ + decimal(es.len()) + "):"@,
        Seq::<char>::empty(),
        fill('-', 120),
    ]);
    let mut i: usize = 0;
    assert(lines.deep_view() =~= head + records_lines(es, 0));
    while i < entries.len()
        invariant
            i <= entries.len(),
            es == entries.deep_view(),
            "-"@ == seq!['-'],
            lines.deep_view() == head + records_lines(es, i as int),
        decreases entries.len() - i,
    {
        assert(es[i as int] == entries[i as int]@);
        let ghost so_far = lines.deep_view();
        add_lines(&mut lines, record_rows(&entries[i], i + 1));
        let ghost with_entry = lines.deep_view();
        if i + 1 < entries.len() {
            lines.push(repeat("-", '-', 120));
            assert(lines.deep_view() =~= with_entry + seq![fill('-', 120)]);
        } else {
            assert(lines.deep_view() =~= with_entry + Seq::<Seq<char>>::empty());
        }
        assert(lines.deep_view() =~= head + (records_lines(es, i as int) + record_lines(
            es[i as int],
            (i + 1) as nat,
        ) + (if i + 1 < es.len() {
            seq![fill('-', 120)]
        } else {
            Seq::empty()
        })));
        i += 1;
    }
    lines
}

} // verus!
