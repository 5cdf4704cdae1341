//! The validate stage: the report of what validation found.

use vstd::prelude::*;
use vstd::string::*;
use crate::text::{add_lines, decimal, decimal_string, name_or_mark, opt_view, shown_name};
use crate::ui::{PreviewRow, PreviewRowModel};

verus! {

/// The types of issue that validation can find with a proposed rename.
#[derive(Debug, Clone, Copy, PartialEq, Eq, Structural)]
pub enum IssueKind {
    InvalidCharacters,
    ReservedFilename,
    PathTooLong,
    SourceNotFound,
    SourceNotReadable,
    ParentNotWritable,
    TargetExists,
    CircularRename,
    InvalidFormat,
    EmptyFilename,
}

/// An issue found with a proposed rename, with what is shown of it.
#[derive(Debug)]
pub enum ValidationIssue {
    /// The name holds characters that the system does not take.
    InvalidCharacters(String),
    /// The name is reserved by the system.
    ReservedFilename(String),
    /// The path has `length` characters and may have `max_length`.
    PathTooLong { length: usize, max_length: usize },
    SourceNotFound,
    SourceNotReadable,
    ParentNotWritable,
    TargetExists,
    /// Two files would take each other's names.
    CircularRename { file1: String, file2: String },
    /// The name has a form that the system does not take.
    InvalidFormat(String),
    EmptyFilename,
}

/// What an issue is, in the terms of the contracts.
pub enum IssueModel {
    InvalidCharacters(Seq<char>),
    ReservedFilename(Seq<char>),
    PathTooLong { length: usize, max_length: usize },
    SourceNotFound,
    SourceNotReadable,
    ParentNotWritable,
    TargetExists,
    CircularRename { file1: Seq<char>, file2: Seq<char> },
    InvalidFormat(Seq<char>),
    EmptyFilename,
}

impl View for ValidationIssue {
    type V = IssueModel;

    open spec fn view(&self) -> IssueModel {
        match self {
            ValidationIssue::InvalidCharacters(m) => IssueModel::InvalidCharacters(m@),
            ValidationIssue::ReservedFilename(m) => IssueModel::ReservedFilename(m@),
            ValidationIssue::PathTooLong { length, max_length } => IssueModel::PathTooLong {
                length: *length,
                max_length: *max_length,
            },
            ValidationIssue::SourceNotFound => IssueModel::SourceNotFound,
            ValidationIssue::SourceNotReadable => IssueModel::SourceNotReadable,
            ValidationIssue::ParentNotWritable => IssueModel::ParentNotWritable,
            ValidationIssue::TargetExists => IssueModel::TargetExists,
            ValidationIssue::CircularRename { file1, file2 } => IssueModel::CircularRename {
                file1: file1@,
                file2: file2@,
            },
            ValidationIssue::InvalidFormat(m) => IssueModel::InvalidFormat(m@),
            ValidationIssue::EmptyFilename => IssueModel::EmptyFilename,
        }
    }
}

/// A file with the issue found for it. The name is the last component of
/// its path, where it has one.
#[derive(Debug)]
pub struct IssueEntry {
    pub file_name: Option<String>,
    pub issue: ValidationIssue,
}

/// What an issue entry is, in the terms of the contracts.
pub struct IssueEntryModel {
    pub file_name: Option<Seq<char>>,
    pub issue: IssueModel,
}

impl View for IssueEntry {
    type V = IssueEntryModel;

    open spec fn view(&self) -> IssueEntryModel {
        IssueEntryModel { file_name: opt_view(self.file_name), issue: self.issue@ }
    }
}

impl DeepView for IssueEntry {
    type V = IssueEntryModel;

    open spec fn deep_view(&self) -> IssueEntryModel {
        self@
    }
}

/// The type of an issue.
pub open spec fn kind_of(issue: IssueModel) -> IssueKind {
    match issue {
        IssueModel::InvalidCharacters(_) => IssueKind::InvalidCharacters,
        IssueModel::ReservedFilename(_) => IssueKind::ReservedFilename,
        IssueModel::PathTooLong { .. } => IssueKind::PathTooLong,
        IssueModel::SourceNotFound => IssueKind::SourceNotFound,
        IssueModel::SourceNotReadable => IssueKind::SourceNotReadable,
        IssueModel::ParentNotWritable => IssueKind::ParentNotWritable,
        IssueModel::TargetExists => IssueKind::TargetExists,
        IssueModel::CircularRename { .. } => IssueKind::CircularRename,
        IssueModel::InvalidFormat(_) => IssueKind::InvalidFormat,
        IssueModel::EmptyFilename => IssueKind::EmptyFilename,
    }
}

/// The heading under which issues of a type are shown.
pub open spec fn kind_label(kind: IssueKind) -> Seq<char> {
    match kind {
        IssueKind::InvalidCharacters => "Invalid Characters"@,
        IssueKind::ReservedFilename => "Reserved Filename"@,
        IssueKind::PathTooLong => "Path Too Long"@,
        IssueKind::SourceNotFound => "Source Not Found"@,
        IssueKind::SourceNotReadable => "Source Not Readable"@,
        IssueKind::ParentNotWritable => "Parent Not Writable"@,
        IssueKind::TargetExists => "Target Exists"@,
        IssueKind::CircularRename => "Circular Rename"@,
        IssueKind::InvalidFormat => "Invalid Format"@,
        IssueKind::EmptyFilename => "Empty Filename"@,
    }
}

/// What is said of an issue. An existing target is no obstacle where
/// targets are overwritten, and is said to be none.
pub open spec fn issue_details(issue: IssueModel, overwrite: bool) -> Seq<char> {
    match issue {
        IssueModel::InvalidCharacters(m) => m,
        IssueModel::ReservedFilename(m) => m,
        IssueModel::PathTooLong { length, max_length } => "Path length "@ + decimal(length as nat)
            + " exceeds maximum "@ + decimal(max_length as nat) + " characters"@,
        IssueModel::SourceNotFound => "Source file does not exist"@,
        IssueModel::SourceNotReadable => "Source file is not readable"@,
        IssueModel::ParentNotWritable => "Parent directory is not writable"@,
        IssueModel::TargetExists => if overwrite {
            "Target exists (will be overwritten)"@
        } else {
            "Target file already exists"@
        },
        IssueModel::CircularRename { file1, file2 } => "Circular dependency: "@ + file1 + " ↔ "@ + file2,
        IssueModel::InvalidFormat(m) => m,
        IssueModel::EmptyFilename => "Generated filename is empty"@,
    }
}

/// The line of one issue.
pub open spec fn issue_line(entry: IssueEntryModel, overwrite: bool) -> Seq<char> {
    "    "@ + shown_name(entry.file_name) + ": "@ + issue_details(entry.issue, overwrite)
}

/// The types of the issues, each once, in the order in which they first
/// occur.
pub open spec fn kinds_found(issues: Seq<IssueEntryModel>) -> Seq<IssueKind>
    decreases issues.len(),
{
    if issues.len() == 0 {
        Seq::empty()
    } else {
        let before = kinds_found(issues.drop_last());
        if before.contains(kind_of(issues.last().issue)) {
            before
        } else {
            before.push(kind_of(issues.last().issue))
        }
    }
}

/// The lines of the issues of one type, in their order.
pub open spec fn lines_of_kind(issues: Seq<IssueEntryModel>, kind: IssueKind, overwrite: bool) -> Seq<
    Seq<char>,
>
    decreases issues.len(),
{
    if issues.len() == 0 {
        Seq::empty()
    } else {
        let before = lines_of_kind(issues.drop_last(), kind, overwrite);
        if kind_of(issues.last().issue) == kind {
            before.push(issue_line(issues.last(), overwrite))
        } else {
            before
        }
    }
}

/// The group of one type: a blank line, the heading with the number of
/// files, and the lines of its issues.
pub open spec fn group_lines(issues: Seq<IssueEntryModel>, kind: IssueKind, overwrite: bool) -> Seq<
    Seq<char>,
> {
    let items = lines_of_kind(issues, kind, overwrite);
    seq![Seq::empty(), "  "@ + kind_label(kind) + " ("@ + decimal(items.len()) + " file(s)):"@] + items
}

/// The groups of the given types, one after another.
pub open spec fn groups_lines(
    issues: Seq<IssueEntryModel>,
    kinds: Seq<IssueKind>,
    overwrite: bool,
) -> Seq<Seq<char>>
    decreases kinds.len(),
{
    if kinds.len() == 0 {
        Seq::empty()
    } else {
        groups_lines(issues, kinds.drop_last(), overwrite) + group_lines(issues, kinds.last(), overwrite)
    }
}

/// The line of one valid rename.
pub open spec fn valid_line(row: PreviewRowModel) -> Seq<char> {
    "  "@ + shown_name(row.old_name) + " → "@ + row.new_name
}

/// The lines on the valid renames: none where there are none.
pub open spec fn valid_lines(valid: Seq<PreviewRowModel>) -> Seq<Seq<char>> {
    if valid.len() == 0 {
        Seq::empty()
    } else {
        seq![Seq::empty(), "✓ Valid Renames ("@ + decimal(valid.len()) + "):"@] + Seq::new(
            valid.len(),
            |i: int| valid_line(valid[i]),
        )
    }
}

/// The lines on the issues: none where there are none, else a heading and
/// the issues in groups, one group for each type found.
pub open spec fn issues_lines(issues: Seq<IssueEntryModel>, overwrite: bool) -> Seq<Seq<char>> {
    if issues.len() == 0 {
        Seq::empty()
    } else {
        seq![Seq::empty(), "✗ Validation Issues ("@ + decimal(issues.len()) + "):"@] + groups_lines(
            issues,
            kinds_found(issues),
            overwrite,
        )
    }
}

/// The lines that show what validation found.
pub open spec fn result_lines(
    valid: Seq<PreviewRowModel>,
    issues: Seq<IssueEntryModel>,
    overwrite: bool,
) -> Seq<Seq<char>> {
    if valid.len() == 0 && issues.len() == 0 {
        seq![Seq::empty(), "No files to validate."@]
    } else {
        valid_lines(valid) + issues_lines(issues, overwrite)
    }
}

/// The type of an issue.
pub fn issue_kind(issue: &ValidationIssue) -> (r: IssueKind)
    ensures
        r == kind_of(issue@),
{
    match issue {
        ValidationIssue::InvalidCharacters(_) => IssueKind::InvalidCharacters,
        ValidationIssue::ReservedFilename(_) => IssueKind::ReservedFilename,
        ValidationIssue::PathTooLong { .. } => IssueKind::PathTooLong,
        ValidationIssue::SourceNotFound => IssueKind::SourceNotFound,
        ValidationIssue::SourceNotReadable => IssueKind::SourceNotReadable,
        ValidationIssue::ParentNotWritable => IssueKind::ParentNotWritable,
        ValidationIssue::TargetExists => IssueKind::TargetExists,
        ValidationIssue::CircularRename { .. } => IssueKind::CircularRename,
        ValidationIssue::InvalidFormat(_) => IssueKind::InvalidFormat,
        ValidationIssue::EmptyFilename => IssueKind::EmptyFilename,
    }
}

/// The heading of a type of issue.
pub fn issue_type(kind: IssueKind) -> (r: &'static str)
    ensures
        r@ == kind_label(kind),
{
    match kind {
        IssueKind::InvalidCharacters => "Invalid Characters",
        IssueKind::ReservedFilename => "Reserved Filename",
        IssueKind::PathTooLong => "Path Too Long",
        IssueKind::SourceNotFound => "Source Not Found",
        IssueKind::SourceNotReadable => "Source Not Readable",
        IssueKind::ParentNotWritable => "Parent Not Writable",
        IssueKind::TargetExists => "Target Exists",
        IssueKind::CircularRename => "Circular Rename",
        IssueKind::InvalidFormat => "Invalid Format",
        IssueKind::EmptyFilename => "Empty Filename",
    }
}

/// What is said of an issue.
pub fn details_of(issue: &ValidationIssue, overwrite: bool) -> (r: String)
    ensures
        r@ == issue_details(issue@, overwrite),
{
    match issue {
        ValidationIssue::InvalidCharacters(m) => m.clone(),
        ValidationIssue::ReservedFilename(m) => m.clone(),
        ValidationIssue::PathTooLong { length, max_length } => String::from_str("Path length ").concat(
            decimal_string(*length).as_str(),
        ).concat(" exceeds maximum ").concat(decimal_string(*max_length).as_str()).concat(
            " characters",
        ),
        ValidationIssue::SourceNotFound => String::from_str("Source file does not exist"),
        ValidationIssue::SourceNotReadable => String::from_str("Source file is not readable"),
        ValidationIssue::ParentNotWritable => String::from_str("Parent directory is not writable"),
        ValidationIssue::TargetExists => if overwrite {
            String::from_str("Target exists (will be overwritten)")
        } else {
            String::from_str("Target file already exists")
        },
        ValidationIssue::CircularRename { file1, file2 } => String::from_str(
            "Circular dependency: ",
        ).concat(file1.as_str()).concat(" ↔ ").concat(file2.as_str()),
        ValidationIssue::InvalidFormat(m) => m.clone(),
        ValidationIssue::EmptyFilename => String::from_str("Generated filename is empty"),
    }
}

fn holds_kind(kinds: &Vec<IssueKind>, kind: IssueKind) -> (r: bool)
    ensures
        r == kinds@.contains(kind),
{
    let mut i: usize = 0;
    while i < kinds.len()
        invariant
            i <= kinds.len(),
            forall|j: int| 0 <= j < i ==> kinds[j] != kind,
        decreases kinds.len() - i,
    {
        if kinds[i] == kind {
            return true;
        }
        i += 1;
    }
    false
}

/// The types of the issues in the order in which they first occur.
fn find_kinds(issues: &Vec<IssueEntry>) -> (r: Vec<IssueKind>)
    ensures
        r@ == kinds_found(issues.deep_view()),
{
    let ghost es = issues.deep_view();
    let mut kinds: Vec<IssueKind> = Vec::new();
    let mut i: usize = 0;
    assert(es.subrange(0, 0) =~= Seq::<IssueEntryModel>::empty());
    while i < issues.len()
        invariant
            i <= issues.len(),
            es == issues.deep_view(),
            kinds@ == kinds_found(es.subrange(0, i as int)),
        decreases issues.len() - i,
    {
        proof {
            let next = es.subrange(0, i + 1);
            assert(next.drop_last() =~= es.subrange(0, i as int));
            assert(next.last() == issues[i as int]@);
        }
        let kind = issue_kind(&issues[i].issue);
        if !holds_kind(&kinds, kind) {
            kinds.push(kind);
        }
        i += 1;
    }
    assert(es.subrange(0, issues.len() as int) =~= es);
    kinds
}

/// The lines of the issues of one type.
fn items_of_kind(issues: &Vec<IssueEntry>, kind: IssueKind, overwrite: bool) -> (r: Vec<String>)
    ensures
        r.deep_view() == lines_of_kind(issues.deep_view(), kind, overwrite),
{
    let ghost es = issues.deep_view();
    let mut items: Vec<String> = Vec::new();
    let mut i: usize = 0;
    assert(es.subrange(0, 0) =~= Seq::<IssueEntryModel>::empty());
    assert(items.deep_view() =~= Seq::<Seq<char>>::empty());
    while i < issues.len()
        invariant
            i <= issues.len(),
            es == issues.deep_view(),
            items.deep_view() == lines_of_kind(es.subrange(0, i as int), kind, overwrite),
        decreases issues.len() - i,
    {
        proof {
            let next = es.subrange(0, i + 1);
            assert(next.drop_last() =~= es.subrange(0, i as int));
            assert(next.last() == issues[i as int]@);
        }
        if issue_kind(&issues[i].issue) == kind {
            let ghost so_far = items.deep_view();
            let line = String::from_str("    ").concat(name_or_mark(&issues[i].file_name)).concat(
                ": ",
            ).concat(details_of(&issues[i].issue, overwrite).as_str());
            items.push(line);
            assert(items.deep_view() =~= so_far.push(issue_line(issues[i as int]@, overwrite)));
        }
        i += 1;
    }
    assert(es.subrange(0, issues.len() as int) =~= es);
    items
}

/// The lines that show what validation found: the valid renames, then the
/// issues in groups by their type, the types in the order in which they
/// first occur.
pub fn display_validation_results(
    valid: &Vec<PreviewRow>,
    issues: &Vec<IssueEntry>,
    overwrite: bool,
) -> (r: Vec<String>)
    ensures
        r.deep_view() == result_lines(valid.deep_view(), issues.deep_view(), overwrite),
{
    let ghost vs = valid.deep_view();
    let ghost es = issues.deep_view();
    let mut lines: Vec<String> = Vec::new();
    if valid.len() == 0 && issues.len() == 0 {
        lines.push(String::new());
        lines.push(String::from_str("No files to validate."));
        assert(lines.deep_view() =~= result_lines(vs, es, overwrite));
        return lines;
    }
    if valid.len() > 0 {
        lines.push(String::new());
        lines.push(
            String::from_str("✓ Valid Renames (").concat(decimal_string(valid.len()).as_str()).concat(
                "):",
            ),
        );
        let mut i: usize = 0;
        while i < valid.len()
            invariant
                i <= valid.len(),
                vs == valid.deep_view(),
                lines.len() == i + 2,
                lines[0]@ == Seq::<char>::empty(),
                lines[1]@ == "✓ Valid Renames ("@ + decimal(vs.len()) + "):"@,
                forall|k: int| 0 <= k < i ==> (#[trigger] lines[k + 2])@ == valid_line(vs[k]),
            decreases valid.len() - i,
        {
            assert(vs[i as int] == valid[i as int]@);
            lines.push(
                String::from_str("  ").concat(name_or_mark(&valid[i].old_name)).concat(" → ").concat(
                    valid[i].new_name.as_str(),
                ),
            );
            i += 1;
        }
        proof {
            let want = valid_lines(vs);
            assert forall|j: int| 0 <= j < lines.len() implies lines.deep_view()[j] == want[j] by {
                if j >= 2 {
                    assert(lines[(j - 2) + 2]@ == valid_line(vs[j - 2]));
                }
            }
            assert(lines.deep_view() =~= want);
        }
    } else {
        assert(lines.deep_view() =~= valid_lines(vs));
    }
    if issues.len() > 0 {
        let ghost head = lines.deep_view();
        lines.push(String::new());
        lines.push(
            String::from_str("✗ Validation Issues (").concat(
                decimal_string(issues.len()).as_str(),
            ).concat("):"),
        );
        let ghost top = lines.deep_view();
        assert(top =~= head + seq![
            Seq::<char>::empty(),
            "✗ Validation Issues ("@ + decimal(es.len()) + "):"@,
        ]);
        let kinds = find_kinds(issues);
        let mut g: usize = 0;
        assert(kinds@.subrange(0, 0) =~= Seq::<IssueKind>::empty());
        assert(lines.deep_view() =~= top + groups_lines(es, kinds@.subrange(0, 0), overwrite));
        while g < kinds.len()
            invariant
                g <= kinds.len(),
                es == issues.deep_view(),
                lines.deep_view() == top + groups_lines(es, kinds@.subrange(0, g as int), overwrite),
            decreases kinds.len() - g,
        {
            proof {
                let next = kinds@.subrange(0, g + 1);
                assert(next.drop_last() =~= kinds@.subrange(0, g as int));
                assert(next.last() == kinds[g as int]);
            }
            let ghost so_far = lines.deep_view();
            let items = items_of_kind(issues, kinds[g], overwrite);
            lines.push(String::new());
            lines.push(
                String::from_str("  ").concat(issue_type(kinds[g])).concat(" (").concat(
                    decimal_string(items.len()).as_str(),
                ).concat(" file(s)):"),
            );
            assert(lines.deep_view() =~= so_far + seq![
                Seq::<char>::empty(),
                "  "@ + kind_label(kinds[g as int]) + " ("@ + decimal(items.deep_view().len())
                    + " file(s)):"@,
            ]);
            add_lines(&mut lines, items);
            assert(lines.deep_view() =~= so_far + group_lines(es, kinds[g as int], overwrite));
            assert(lines.deep_view() =~= top + (groups_lines(
                es,
                kinds@.subrange(0, g as int),
                overwrite,
            ) + group_lines(es, kinds[g as int], overwrite)));
            g += 1;
        }
        assert(kinds@.subrange(0, kinds.len() as int) =~= kinds@);
        assert(lines.deep_view() =~= head + issues_lines(es, overwrite));
    } else {
        assert(lines.deep_view() =~= lines.deep_view() + issues_lines(es, overwrite));
    }
    lines
}

/// The lines on the warnings of the pattern: none where there are none,
/// else a heading, the warnings, and a hint unless issues are skipped.
pub open spec fn warning_lines(warnings: Seq<Seq<char>>, skip_invalid: bool) -> Seq<Seq<char>> {
    if warnings.len() == 0 {
        Seq::empty()
    } else {
        seq![Seq::empty(), "⚠ Pattern Warnings:"@] + Seq::new(
            warnings.len(),
            |i: int| "  - "@ + warnings[i],
        ) + (if skip_invalid {
            Seq::empty()
        } else {
            seq![Seq::empty(), "Use --skip-invalid to continue despite warnings."@]
        })
    }
}

/// The summary: the counts, and a note where nothing is wrong.
pub open spec fn summary_lines(total: nat, valid: nat, issues: nat) -> Seq<Seq<char>> {
    seq![
        Seq::empty(),
        "📊 Validation Summary:"@,
        "  Total files: "@ + decimal(total),
        "  ✓ Valid: "@ + decimal(valid),
        "  ✗ Issues: "@ + decimal(issues),
    ] + (if issues == 0 {
        seq![Seq::empty(), "✓ All files passed validation!"@]
    } else {
        Seq::empty()
    })
}

/// The report of the validate stage: the warnings of the pattern, what
/// validation found, and the summary.
pub open spec fn validation_report(
    total: nat,
    warnings: Seq<Seq<char>>,
    valid: Seq<PreviewRowModel>,
    issues: Seq<IssueEntryModel>,
    overwrite: bool,
    skip_invalid: bool,
) -> Seq<Seq<char>> {
    warning_lines(warnings, skip_invalid) + result_lines(valid, issues, overwrite) + summary_lines(
        total,
        valid.len(),
        issues.len(),
    )
}

/// The lines of the validate stage, for the caller to print. Whether the
/// run goes on is for the pipeline to say, from the number of issues.
pub fn handle_validate_command(
    total: usize,
    warnings: &Vec<String>,
    valid: &Vec<PreviewRow>,
    issues: &Vec<IssueEntry>,
    overwrite: bool,
    skip_invalid: bool,
) -> (r: Vec<String>)
    ensures
        r.deep_view() == validation_report(
            total as nat,
            warnings.deep_view(),
            valid.deep_view(),
            issues.deep_view(),
            overwrite,
            skip_invalid,
        ),
{
    let ghost ws = warnings.deep_view();
    let mut lines: Vec<String> = Vec::new();
    if warnings.len() > 0 {
        lines.push(String::new());
        lines.push(String::from_str("⚠ Pattern Warnings:"));
        let mut i: usize = 0;
        while i < warnings.len()
            invariant
                i <= warnings.len(),
                ws == warnings.deep_view(),
                lines.len() == i + 2,
                lines[0]@ == Seq::<char>::empty(),
                lines[1]@ == "⚠ Pattern Warnings:"@,
                forall|k: int| 0 <= k < i ==> (#[trigger] lines[k + 2])@ == "  - "@ + ws[k],
            decreases warnings.len() - i,
        {
            assert(ws[i as int] == warnings[i as int]@);
            lines.push(String::from_str("  - ").concat(warnings[i].as_str()));
            i += 1;
        }
        let ghost listed = lines.deep_view();
        proof {
            let want = seq![Seq::<char>::empty(), "⚠ Pattern Warnings:"@] + Seq::new(
                ws.len(),
                |i: int| "  - "@ + ws[i],
            );
            assert forall|j: int| 0 <= j < lines.len() implies lines.deep_view()[j] == want[j] by {
                if j >= 2 {
                    assert(lines[(j - 2) + 2]@ == "  - "@ + ws[j - 2]);
                }
            }
            assert(listed =~= want);
        }
        if !skip_invalid {
            lines.push(String::new());
            lines.push(String::from_str("Use --skip-invalid to continue despite warnings."));
            assert(lines.deep_view() =~= listed + seq![
                Seq::<char>::empty(),
                "Use --skip-invalid to continue despite warnings."@,
            ]);
        } else {
            assert(lines.deep_view() =~= listed + Seq::<Seq<char>>::empty());
        }
    } else {
        assert(lines.deep_view() =~= warning_lines(ws, skip_invalid));
    }
    add_lines(&mut lines, display_validation_results(valid, issues, overwrite));
    let ghost body = lines.deep_view();
    lines.push(String::new());
    lines.push(String::from_str("📊 Validation Summary:"));
    lines.push(String::from_str("  Total files: ").concat(decimal_string(total).as_str()));
    lines.push(String::from_str("  ✓ Valid: ").concat(decimal_string(valid.len()).as_str()));
    lines.push(String::from_str("  ✗ Issues: ").concat(decimal_string(issues.len()).as_str()));
    if issues.len() == 0 {
        lines.push(String::new());
        lines.push(String::from_str("✓ All files passed validation!"));
    }
    assert(lines.deep_view() =~= body + summary_lines(
        total as nat,
        valid.deep_view().len(),
        issues.deep_view().len(),
    ));
    lines
}

} // verus!
