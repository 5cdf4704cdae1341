//! Tests for the report of the validate stage and for the audit listing.

use frencli::audit::{display_audit_entries, AuditNote, AuditRecord, AuditRename};
use frencli::ui::PreviewRow;
use frencli::validate::{
    details_of, display_validation_results, handle_validate_command, issue_kind, issue_type,
    IssueEntry, IssueKind, ValidationIssue,
};

fn entry(name: &str, issue: ValidationIssue) -> IssueEntry {
    IssueEntry { file_name: Some(name.to_string()), issue }
}

fn row(old: &str, new: &str) -> PreviewRow {
    PreviewRow { old_name: Some(old.to_string()), new_name: new.to_string() }
}

#[test]
fn every_issue_has_its_heading_and_its_words() {
    let cases = vec![
        (ValidationIssue::InvalidCharacters("bad: <".into()), "Invalid Characters", "bad: <", "bad: <"),
        (ValidationIssue::ReservedFilename("CON".into()), "Reserved Filename", "CON", "CON"),
        (
            ValidationIssue::PathTooLong { length: 300, max_length: 255 },
            "Path Too Long",
            "Path length 300 exceeds maximum 255 characters",
            "Path length 300 exceeds maximum 255 characters",
        ),
        (
            ValidationIssue::SourceNotFound,
            "Source Not Found",
            "Source file does not exist",
            "Source file does not exist",
        ),
        (
            ValidationIssue::SourceNotReadable,
            "Source Not Readable",
            "Source file is not readable",
            "Source file is not readable",
        ),
        (
            ValidationIssue::ParentNotWritable,
            "Parent Not Writable",
            "Parent directory is not writable",
            "Parent directory is not writable",
        ),
        (
            ValidationIssue::TargetExists,
            "Target Exists",
            "Target file already exists",
            "Target exists (will be overwritten)",
        ),
        (
            ValidationIssue::CircularRename { file1: "a".into(), file2: "b".into() },
            "Circular Rename",
            "Circular dependency: a ↔ b",
            "Circular dependency: a ↔ b",
        ),
        (ValidationIssue::InvalidFormat("ends in a dot".into()), "Invalid Format", "ends in a dot", "ends in a dot"),
        (
            ValidationIssue::EmptyFilename,
            "Empty Filename",
            "Generated filename is empty",
            "Generated filename is empty",
        ),
    ];
    for (issue, heading, plain, overwriting) in cases {
        assert_eq!(issue_type(issue_kind(&issue)), heading);
        assert_eq!(details_of(&issue, false), plain);
        assert_eq!(details_of(&issue, true), overwriting);
    }
    assert_eq!(issue_kind(&ValidationIssue::TargetExists), IssueKind::TargetExists);
}

#[test]
fn nothing_to_validate() {
    assert_eq!(display_validation_results(&vec![], &vec![], false), vec!["", "No files to validate."]);
}

#[test]
fn issues_are_grouped_by_type_in_order_of_first_occurrence() {
    let valid = vec![row("a.txt", "A.txt"), PreviewRow { old_name: None, new_name: "x".into() }];
    let issues = vec![
        entry("t1", ValidationIssue::TargetExists),
        entry("e1", ValidationIssue::EmptyFilename),
        entry("t2", ValidationIssue::TargetExists),
        IssueEntry { file_name: None, issue: ValidationIssue::SourceNotFound },
        entry("e2", ValidationIssue::EmptyFilename),
        entry("t3", ValidationIssue::TargetExists),
    ];
    assert_eq!(
        display_validation_results(&valid, &issues, true),
        vec![
            "",
            "✓ Valid Renames (2):",
            "  a.txt → A.txt",
            "  ? → x",
            "",
            "✗ Validation Issues (6):",
            "",
            "  Target Exists (3 file(s)):",
            "    t1: Target exists (will be overwritten)",
            "    t2: Target exists (will be overwritten)",
            "    t3: Target exists (will be overwritten)",
            "",
            "  Empty Filename (2 file(s)):",
            "    e1: Generated filename is empty",
            "    e2: Generated filename is empty",
            "",
            "  Source Not Found (1 file(s)):",
            "    ?: Source file does not exist",
        ]
    );
    assert_eq!(
        display_validation_results(&vec![], &vec![entry("t1", ValidationIssue::TargetExists)], false),
        vec!["", "✗ Validation Issues (1):", "", "  Target Exists (1 file(s)):", "    t1: Target file already exists"]
    );
    assert_eq!(
        display_validation_results(&vec![row("a.txt", "A.txt")], &vec![], false),
        vec!["", "✓ Valid Renames (1):", "  a.txt → A.txt"]
    );
}

#[test]
fn the_whole_report_of_the_validate_stage() {
    let warnings = vec!["Unknown token: %X".to_string()];
    let valid = vec![row("a.txt", "b.txt")];
    assert_eq!(
        handle_validate_command(1, &warnings, &valid, &vec![], false, false),
        vec![
            "",
            "⚠ Pattern Warnings:",
            "  - Unknown token: %X",
            "",
            "Use --skip-invalid to continue despite warnings.",
            "",
            "✓ Valid Renames (1):",
            "  a.txt → b.txt",
            "",
            "📊 Validation Summary:",
            "  Total files: 1",
            "  ✓ Valid: 1",
            "  ✗ Issues: 0",
            "",
            "✓ All files passed validation!",
        ]
    );
    let issues = vec![entry("a.txt", ValidationIssue::SourceNotFound)];
    assert_eq!(
        handle_validate_command(12, &warnings, &vec![], &issues, false, true),
        vec![
            "",
            "⚠ Pattern Warnings:",
            "  - Unknown token: %X",
            "",
            "✗ Validation Issues (1):",
            "",
            "  Source Not Found (1 file(s)):",
            "    a.txt: Source file does not exist",
            "",
            "📊 Validation Summary:",
            "  Total files: 12",
            "  ✓ Valid: 0",
            "  ✗ Issues: 1",
        ]
    );
    assert_eq!(
        handle_validate_command(0, &vec![], &vec![], &vec![], true, false),
        vec![
            "",
            "No files to validate.",
            "",
            "📊 Validation Summary:",
            "  Total files: 0",
            "  ✓ Valid: 0",
            "  ✗ Issues: 0",
            "",
            "✓ All files passed validation!",
        ]
    );
}

fn record(command: &str) -> AuditRecord {
    AuditRecord {
        timestamp: "2024-05-06 07:08:09".into(),
        user: None,
        directory: "/work".into(),
        command: command.into(),
        pattern: None,
        successful_count: 0,
        skipped_count: 0,
        error_count: 0,
        successful: vec![],
        skipped: vec![],
        errors: vec![],
    }
}

#[test]
fn audit_listing_of_no_entries() {
    assert_eq!(
        display_audit_entries(&vec![]),
        vec!["Audit Log Entries (showing 0 of 0):".to_string(), "".to_string(), "-".repeat(120)]
    );
}

#[test]
fn audit_listing_shows_each_entry_and_a_rule_between() {
    let mut first = record("fren list *.txt rename %N.%E apply --yes");
    first.user = Some("alice".into());
    first.pattern = Some("%N.%E".into());
    first.successful_count = 2;
    first.skipped_count = 1;
    first.error_count = 1;
    first.successful = vec![
        AuditRename { old_name: Some("a".into()), new_name: Some("b".into()) },
        AuditRename { old_name: None, new_name: Some("c".into()) },
    ];
    first.skipped = vec![AuditNote { file_name: Some("s".into()), reason: "Target file already exists".into() }];
    first.errors = vec![AuditNote { file_name: None, reason: "denied".into() }];
    let second = record("fren apply");

    let rule = "-".repeat(120);
    let expected: Vec<String> = vec![
        "Audit Log Entries (showing 2 of 2):",
        "",
        &rule,
        "",
        "Entry #1",
        "  Timestamp:      2024-05-06 07:08:09",
        "  User:           alice",
        "  Directory:      /work",
        "  Command:        fren list *.txt rename %N.%E apply --yes",
        "  Pattern:        %N.%E",
        "  Results:        2 successful, 1 skipped, 1 errors",
        "  Successful renames:",
        "    a -> b",
        "    ? -> c",
        "  Skipped files:",
        "    s: Target file already exists",
        "  Errors:",
        "    ?: denied",
        &rule,
        "",
        "Entry #2",
        "  Timestamp:      2024-05-06 07:08:09",
        "  Directory:      /work",
        "  Command:        fren apply",
        "  Results:        0 successful, 0 skipped, 0 errors",
    ]
    .into_iter()
    .map(|s| s.to_string())
    .collect();
    assert_eq!(display_audit_entries(&vec![first, second]), expected);
}
