//! The preview stage: the report of the names proposed.

use vstd::prelude::*;
use vstd::string::*;
use crate::text::add_lines;
use crate::ui::{display_preview, preview_lines, PreviewRow, PreviewRowModel};

verus! {

/// The lines on the warnings of the pattern: none where there are none.
pub open spec fn preview_warning_lines(warnings: Seq<Seq<char>>) -> Seq<Seq<char>> {
    if warnings.len() == 0 {
        Seq::empty()
    } else {
        seq![Seq::empty(), "WARNINGS:"@] + Seq::new(warnings.len(), |i: int| "  - "@ + warnings[i])
    }
}

/// The last lines of the report: where no name is empty, the hint that
/// nothing was renamed yet.
pub open spec fn preview_hint_lines(has_empty_names: bool) -> Seq<Seq<char>> {
    if has_empty_names {
        Seq::empty()
    } else {
        seq![Seq::empty(), "Preview mode. Use 'apply' subcommand to perform the renaming."@]
    }
}

/// The report of the preview stage: the table, the warnings, the hint.
pub open spec fn preview_report(
    rows: Seq<PreviewRowModel>,
    warnings: Seq<Seq<char>>,
    has_empty_names: bool,
) -> Seq<Seq<char>> {
    preview_lines(rows) + preview_warning_lines(warnings) + preview_hint_lines(has_empty_names)
}

/// The lines of the preview stage, for the caller to print. That a preview
/// with an empty name ends the run is for the pipeline to say.
pub fn handle_rename_command(rows: &Vec<PreviewRow>, warnings: &Vec<String>, has_empty_names: bool) -> (r:
    Vec<String>)
    ensures
        r.deep_view() == preview_report(rows.deep_view(), warnings.deep_view(), has_empty_names),
{
    let ghost ws = warnings.deep_view();
    let mut lines = display_preview(rows);
    let ghost table = lines.deep_view();
    if warnings.len() > 0 {
        let mut block: Vec<String> = Vec::new();
        block.push(String::new());
        block.push(String::from_str("WARNINGS:"));
        let mut i: usize = 0;
        while i < warnings.len()
            invariant
                i <= warnings.len(),
                ws == warnings.deep_view(),
                block.len() == i + 2,
                block[0]@ == Seq::<char>::empty(),
                block[1]@ == "WARNINGS:"@,
                forall|k: int| 0 <= k < i ==> (#[trigger] block[k + 2])@ == "  - "@ + ws[k],
            decreases warnings.len() - i,
        {
            assert(ws[i as int] == warnings[i as int]@);
            block.push(String::from_str("  - ").concat(warnings[i].as_str()));
            i += 1;
        }
        proof {
            let want = preview_warning_lines(ws);
            assert forall|j: int| 0 <= j < block.len() implies block.deep_view()[j] == want[j] by {
                if j >= 2 {
                    assert(block[(j - 2) + 2]@ == "  - "@ + ws[j - 2]);
                }
            }
            assert(block.deep_view() =~= want);
        }
        add_lines(&mut lines, block);
    } else {
        assert(lines.deep_view() =~= table + preview_warning_lines(ws));
    }
    let ghost body = lines.deep_view();
    if !has_empty_names {
        lines.push(String::new());
        lines.push(String::from_str("Preview mode. Use 'apply' subcommand to perform the renaming."));
    }
    assert(lines.deep_view() =~= body + preview_hint_lines(has_empty_names));
    lines
}

} // verus!
