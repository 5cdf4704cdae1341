//! The undo subcommand: what to report and whether to go ahead.

use vstd::prelude::*;
use vstd::string::*;
use crate::text::{decimal, decimal_string};

verus! {

/// How an undo is to proceed once the history was checked.
#[derive(Debug, Clone, Copy, PartialEq, Eq, Structural)]
pub enum UndoPlan {
    /// Reverse the renames that are safe to reverse.
    Apply,
    /// Ask the user first: some renames cannot be reversed.
    Confirm,
    /// Give up with an error: no rename can be reversed.
    Blocked,
}

/// The plan of an undo with that many conflicts and that many renames safe
/// to reverse. Without conflicts it goes ahead. With conflicts it is
/// blocked where nothing is safe, and else asks unless `yes` was given.
pub open spec fn undo_plan(conflicts: nat, safe_count: nat, yes: bool) -> UndoPlan {
    if conflicts == 0 {
        UndoPlan::Apply
    } else if safe_count == 0 {
        UndoPlan::Blocked
    } else if yes {
        UndoPlan::Apply
    } else {
        UndoPlan::Confirm
    }
}

/// Decides how an undo is to proceed.
pub fn handle_undo_apply(conflicts: usize, safe_count: usize, yes: bool) -> (r: UndoPlan)
    ensures
        r == undo_plan(conflicts as nat, safe_count as nat, yes),
{
    if conflicts == 0 {
        UndoPlan::Apply
    } else if safe_count == 0 {
        UndoPlan::Blocked
    } else if yes {
        UndoPlan::Apply
    } else {
        UndoPlan::Confirm
    }
}

/// The lines that name the conflicts: none where there are none, else a
/// blank line, a heading with their number and one line for each.
pub open spec fn conflict_lines(conflicts: Seq<Seq<char>>) -> Seq<Seq<char>> {
    if conflicts.len() == 0 {
        Seq::empty()
    } else {
        seq![
            Seq::empty(),
            "Found "@ + decimal(conflicts.len()) + " conflict(s) that prevent a full undo:"@,
        ] + Seq::new(conflicts.len(), |i: int| "  - "@ + conflicts[i])
    }
}

/// The last lines of the report: a blank line, then what can be undone.
pub open spec fn summary_lines(safe_count: nat) -> Seq<Seq<char>> {
    if safe_count == 0 {
        seq![Seq::empty(), "All files in this batch have conflicts. Cannot proceed with undo."@]
    } else {
        seq![Seq::empty(), decimal(safe_count) + " file(s) can be safely undone."@]
    }
}

/// The report of an undo check: what is checked, the conflicts, and what
/// can be undone.
pub open spec fn undo_report(
    action_count: nat,
    timestamp: Seq<char>,
    conflicts: Seq<Seq<char>>,
    safe_count: nat,
) -> Seq<Seq<char>> {
    seq![
        "Checking undo state for "@ + decimal(action_count) + " renames from "@ + timestamp + "..."@,
    ] + conflict_lines(conflicts) + summary_lines(safe_count)
}

/// The lines of an undo check, for the caller to print.
pub fn handle_undo_check(
    action_count: usize,
    timestamp: &str,
    conflicts: &Vec<String>,
    safe_count: usize,
) -> (r: Vec<String>)
    ensures
        r.deep_view() == undo_report(
            action_count as nat,
            timestamp@,
            conflicts.deep_view(),
            safe_count as nat,
        ),
{
    let ghost cs = conflicts.deep_view();
    let mut lines: Vec<String> = Vec::new();
    lines.push(
        String::from_str("Checking undo state for ").concat(
            decimal_string(action_count).as_str(),
        ).concat(" renames from ").concat(timestamp).concat("..."),
    );
    let ghost head = lines.deep_view();
    assert(head =~= seq![
        "Checking undo state for "@ + decimal(action_count as nat) + " renames from "@ + timestamp@
            + "..."@,
    ]);
    if conflicts.len() > 0 {
        let blank = String::new();
        lines.push(blank);
        lines.push(
            String::from_str("Found ").concat(decimal_string(conflicts.len()).as_str()).concat(
                " conflict(s) that prevent a full undo:",
            ),
        );
        let mut i: usize = 0;
        while i < conflicts.len()
            invariant
                i <= conflicts.len(),
                cs == conflicts.deep_view(),
                lines.len() == i + 3,
                lines[0]@ == head[0],
                lines[1]@ == Seq::<char>::empty(),
                lines[2]@ == "Found "@ + decimal(cs.len()) + " conflict(s) that prevent a full undo:"@,
                forall|k: int| 0 <= k < i ==> (#[trigger] lines[k + 3])@ == "  - "@ + cs[k],
            decreases conflicts.len() - i,
        {
            assert(cs[i as int] == conflicts[i as int]@);
            lines.push(String::from_str("  - ").concat(conflicts[i].as_str()));
            i += 1;
        }
        proof {
            let want = head + conflict_lines(cs);
            assert forall|j: int| 0 <= j < lines.len() implies lines.deep_view()[j] == want[j] by {
                if j >= 3 {
                    assert(lines[(j - 3) + 3]@ == "  - "@ + cs[j - 3]);
                }
            }
            assert(lines.deep_view() =~= want);
        }
    } else {
        assert(lines.deep_view() =~= head + conflict_lines(cs));
    }
    let ghost body = lines.deep_view();
    lines.push(String::new());
    if safe_count == 0 {
        lines.push(
            String::from_str("All files in this batch have conflicts. Cannot proceed with undo."),
        );
    } else {
        lines.push(decimal_string(safe_count).concat(" file(s) can be safely undone."));
    }
    assert(lines.deep_view() =~= body + summary_lines(safe_count as nat));
    lines
}

} // verus!
