//! Tests for the decisions of the undo and audit subcommands.

use frencli::audit::handle_audit_command;
use frencli::undo::{handle_undo_apply, handle_undo_check, UndoPlan};

#[test]
fn undo_goes_ahead_without_conflicts() {
    assert_eq!(handle_undo_apply(0, 3, false), UndoPlan::Apply);
    assert_eq!(handle_undo_apply(0, 3, true), UndoPlan::Apply);
    assert_eq!(handle_undo_apply(0, 0, false), UndoPlan::Apply);
}

#[test]
fn undo_with_conflicts_asks_or_is_blocked() {
    assert_eq!(handle_undo_apply(2, 0, false), UndoPlan::Blocked);
    assert_eq!(handle_undo_apply(2, 0, true), UndoPlan::Blocked);
    assert_eq!(handle_undo_apply(1, 4, false), UndoPlan::Confirm);
    assert_eq!(handle_undo_apply(1, 4, true), UndoPlan::Apply);
}

#[test]
fn undo_check_report_lines() {
    let none: Vec<String> = vec![];
    assert_eq!(
        handle_undo_check(3, "2024-01-02 03:04:05", &none, 3),
        vec![
            "Checking undo state for 3 renames from 2024-01-02 03:04:05...",
            "",
            "3 file(s) can be safely undone.",
        ]
    );
    let conflicts =
        vec!["File no longer exists: a.txt".to_string(), "Original location occupied: b".to_string()];
    assert_eq!(
        handle_undo_check(12, "now", &conflicts, 10),
        vec![
            "Checking undo state for 12 renames from now...",
            "",
            "Found 2 conflict(s) that prevent a full undo:",
            "  - File no longer exists: a.txt",
            "  - Original location occupied: b",
            "",
            "10 file(s) can be safely undone.",
        ]
    );
    assert_eq!(
        handle_undo_check(1, "t", &conflicts[..1].to_vec(), 0),
        vec![
            "Checking undo state for 1 renames from t...",
            "",
            "Found 1 conflict(s) that prevent a full undo:",
            "  - File no longer exists: a.txt",
            "",
            "All files in this batch have conflicts. Cannot proceed with undo.",
        ]
    );
}

#[test]
fn audit_shows_all_or_the_first_entries() {
    assert_eq!(handle_audit_command(7, None), 7);
    assert_eq!(handle_audit_command(7, Some(3)), 3);
    assert_eq!(handle_audit_command(7, Some(7)), 7);
    assert_eq!(handle_audit_command(7, Some(100)), 7);
    assert_eq!(handle_audit_command(7, Some(0)), 0);
    assert_eq!(handle_audit_command(0, Some(5)), 0);
    for (total, limit) in [(5usize, 2usize), (2, 5), (0, 0), (3, 3)] {
        let entries: Vec<usize> = (0..total).collect();
        assert_eq!(handle_audit_command(total, Some(limit)), entries.iter().take(limit).count());
    }
}
