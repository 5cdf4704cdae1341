//! What the user's answers at a prompt mean.

use vstd::prelude::*;
use vstd::string::*;
use crate::text::{
    fill, name_or_mark, opt_view, repeat, shown_name, str_eq, trim_line, trimmed,
};

verus! {

/// Whether a trimmed answer says yes: it is the letter `y`, in either case.
pub open spec fn says_yes(answer: Seq<char>) -> bool {
    answer == "y"@ || answer == "Y"@
}

/// Whether an answer confirms: it says yes, with or without white space
/// around it.
pub open spec fn confirms(answer: Seq<char>) -> bool {
    says_yes(trimmed(answer))
}

/// Whether a trimmed answer says yes.
pub fn answer_says_yes(answer: &str) -> (r: bool)
    ensures
        r == says_yes(answer@),
{
    str_eq(answer, "y") || str_eq(answer, "Y")
}

/// Whether the answer to the undo prompt confirms.
pub fn confirm_undo_conflicts(answer: &str) -> (r: bool)
    ensures
        r == confirms(answer@),
{
    answer_says_yes(trim_line(answer))
}

/// What an answer in the interactive edit asks for.
#[derive(Debug)]
pub enum EditCommand {
    /// Keep the proposed name and go on.
    Keep,
    /// Cancel the whole edit.
    Quit,
    /// Leave this file under its old name.
    Skip,
    /// Keep the proposed names of this and all remaining files.
    ApplyAll,
    /// Use this name.
    Rename(String),
}

/// What an edit command is, in the terms of the contracts.
pub enum EditCommandModel {
    Keep,
    Quit,
    Skip,
    ApplyAll,
    Rename(Seq<char>),
}

impl View for EditCommand {
    type V = EditCommandModel;

    open spec fn view(&self) -> EditCommandModel {
        match self {
            EditCommand::Keep => EditCommandModel::Keep,
            EditCommand::Quit => EditCommandModel::Quit,
            EditCommand::Skip => EditCommandModel::Skip,
            EditCommand::ApplyAll => EditCommandModel::ApplyAll,
            EditCommand::Rename(name) => EditCommandModel::Rename(name@),
        }
    }
}

/// The command that a trimmed answer stands for: nothing keeps the name,
/// `q` or `quit` cancels, `s` or `skip` skips the file, `a` or `apply`
/// accepts all that remain, anything else is the new name.
pub open spec fn edit_command(t: Seq<char>) -> EditCommandModel {
    if t.len() == 0 {
        EditCommandModel::Keep
    } else if t == "q"@ || t == "quit"@ {
        EditCommandModel::Quit
    } else if t == "s"@ || t == "skip"@ {
        EditCommandModel::Skip
    } else if t == "a"@ || t == "apply"@ {
        EditCommandModel::ApplyAll
    } else {
        EditCommandModel::Rename(t)
    }
}

/// Reads an answer of the interactive edit, white space around it aside.
pub fn interactive_edit(answer: &str) -> (r: EditCommand)
    ensures
        r@ == edit_command(trimmed(answer@)),
{
    read_edit_command(trim_line(answer))
}

/// Reads a trimmed answer of the interactive edit.
pub fn read_edit_command(t: &str) -> (r: EditCommand)
    ensures
        r@ == edit_command(t@),
{
    if t.unicode_len() == 0 {
        EditCommand::Keep
    } else if str_eq(t, "q") || str_eq(t, "quit") {
        EditCommand::Quit
    } else if str_eq(t, "s") || str_eq(t, "skip") {
        EditCommand::Skip
    } else if str_eq(t, "a") || str_eq(t, "apply") {
        EditCommand::ApplyAll
    } else {
        EditCommand::Rename(String::from_str(t))
    }
}

/// One row of a preview: the old name, where the path has one, and the name
/// proposed for it.
#[derive(Debug)]
pub struct PreviewRow {
    pub old_name: Option<String>,
    pub new_name: String,
}

/// What a row of the preview is, in the terms of the contracts.
pub struct PreviewRowModel {
    pub old_name: Option<Seq<char>>,
    pub new_name: Seq<char>,
}

impl View for PreviewRow {
    type V = PreviewRowModel;

    open spec fn view(&self) -> PreviewRowModel {
        PreviewRowModel { old_name: opt_view(self.old_name), new_name: self.new_name@ }
    }
}

impl DeepView for PreviewRow {
    type V = PreviewRowModel;

    open spec fn deep_view(&self) -> PreviewRowModel {
        self@
    }
}

/// A text filled up with spaces at its end to 40 characters; a longer
/// text stays as it is.
pub open spec fn column(text: Seq<char>) -> Seq<char> {
    text + fill(' ', 40 - text.len())
}

/// A line of the preview table: two columns with an arrow between.
pub open spec fn table_line(left: Seq<char>, right: Seq<char>) -> Seq<char> {
    column(left) + " -> "@ + column(right)
}

/// The line of a row: the old name, `?` where there is none, and the new
/// name, or a mark where the new name is blank.
pub open spec fn row_line(row: PreviewRowModel) -> Seq<char> {
    table_line(
        shown_name(row.old_name),
        if trimmed(row.new_name).len() == 0 {
            "[ERROR: EMPTY NAME]"@
        } else {
            row.new_name
        },
    )
}

/// The lines of the preview table: a heading, a rule of 84 dashes, and one
/// line for each row.
pub open spec fn preview_lines(rows: Seq<PreviewRowModel>) -> Seq<Seq<char>> {
    seq![table_line("Old Name"@, "New Name"@), fill('-', 84)] + Seq::new(
        rows.len(),
        |i: int| row_line(rows[i]),
    )
}

fn table_row(left: &str, right: &str) -> (r: String)
    ensures
        r@ == table_line(left@, right@),
{
    proof {
        reveal_strlit(" ");
        assert(" "@ =~= seq![' ']);
    }
    let l: usize = left.unicode_len();
    let r: usize = right.unicode_len();
    let left_fill = repeat(
        " ",
        ' ',
        if l < 40 {
            40 - l
        } else {
            0
        },
    );
    let right_fill = repeat(
        " ",
        ' ',
        if r < 40 {
            40 - r
        } else {
            0
        },
    );
    assert(left_fill@ =~= fill(' ', 40 - left@.len()));
    assert(right_fill@ =~= fill(' ', 40 - right@.len()));
    String::from_str(left).concat(left_fill.as_str()).concat(" -> ").concat(right).concat(
        right_fill.as_str(),
    )
}

/// The lines of the preview table, for the caller to print.
pub fn display_preview(rows: &Vec<PreviewRow>) -> (r: Vec<String>)
    ensures
        r.deep_view() == preview_lines(rows.deep_view()),
{
    let ghost rs = rows.deep_view();
    let mut lines: Vec<String> = Vec::new();
    lines.push(table_row("Old Name", "New Name"));
    proof {
        reveal_strlit("-");
        assert("-"@ =~= seq!['-']);
    }
    lines.push(repeat("-", '-', 84));
    let mut i: usize = 0;
    while i < rows.len()
        invariant
            i <= rows.len(),
            rs == rows.deep_view(),
            lines.len() == i + 2,
            lines[0]@ == table_line("Old Name"@, "New Name"@),
            lines[1]@ == fill('-', 84),
            forall|k: int| 0 <= k < i ==> (#[trigger] lines[k + 2])@ == row_line(rs[k]),
        decreases rows.len() - i,
    {
        assert(rs[i as int] == rows[i as int]@);
        let old: &str = name_or_mark(&rows[i].old_name);
        let new: &str = if trim_line(rows[i].new_name.as_str()).unicode_len() == 0 {
            "[ERROR: EMPTY NAME]"
        } else {
            rows[i].new_name.as_str()
        };
        lines.push(table_row(old, new));
        i += 1;
    }
    proof {
        let head = seq![table_line("Old Name"@, "New Name"@), fill('-', 84)];
        let body = Seq::new(rs.len(), |i: int| row_line(rs[i]));
        assert forall|j: int| 0 <= j < lines.len() implies lines.deep_view()[j] == (head + body)[j] by {
            if j >= 2 {
                assert(lines[(j - 2) + 2]@ == row_line(rs[j - 2]));
            }
        }
        assert(lines.deep_view() =~= head + body);
    }
    lines
}

} // verus!
