//! Tests for the preview table and for the answers at the prompts.

use frencli::rename::handle_rename_command;
use frencli::ui::{
    answer_says_yes, confirm_undo_conflicts, display_preview, interactive_edit, read_edit_command,
    EditCommand, PreviewRow,
};
use freneng::FileRename;
use std::path::PathBuf;

fn rows(renames: &[FileRename]) -> Vec<PreviewRow> {
    renames
        .iter()
        .map(|r| PreviewRow {
            old_name: r.old_path.file_name().and_then(|n| n.to_str()).map(|n| n.to_string()),
            new_name: r.new_name.clone(),
        })
        .collect()
}

const HEADING: &str =
    "Old Name                                 -> New Name                                ";

fn rule() -> String {
    "-".repeat(84)
}

#[test]
fn test_display_preview_empty() {
    let renames: Vec<FileRename> = vec![];

    // Should not panic
    let lines = display_preview(&rows(&renames));
    assert_eq!(lines, vec![HEADING.to_string(), rule()]);
    assert_eq!(HEADING, format!("{:<40} -> {:<40}", "Old Name", "New Name"));
    assert_eq!(rule(), format!("{:-<40}----{:-<40}", "", ""));
}

#[test]
fn test_display_preview_single() {
    let renames = vec![FileRename {
        old_path: PathBuf::from("old.txt"),
        new_path: PathBuf::from("new.txt"),
        new_name: "new.txt".to_string(),
    }];

    // Should not panic
    let lines = display_preview(&rows(&renames));
    assert_eq!(lines.len(), 3);
    assert_eq!(lines[2], format!("{:<40} -> {:<40}", "old.txt", "new.txt"));
}

#[test]
fn test_display_preview_multiple() {
    let renames = vec![
        FileRename {
            old_path: PathBuf::from("file1.txt"),
            new_path: PathBuf::from("renamed1.txt"),
            new_name: "renamed1.txt".to_string(),
        },
        FileRename {
            old_path: PathBuf::from("file2.jpg"),
            new_path: PathBuf::from("renamed2.jpg"),
            new_name: "renamed2.jpg".to_string(),
        },
    ];

    // Should not panic
    let lines = display_preview(&rows(&renames));
    assert_eq!(lines.len(), 4);
    assert_eq!(lines[0], HEADING);
    assert_eq!(lines[1], rule());
    assert_eq!(lines[2], format!("{:<40} -> {:<40}", "file1.txt", "renamed1.txt"));
    assert_eq!(lines[3], format!("{:<40} -> {:<40}", "file2.jpg", "renamed2.jpg"));
}

#[test]
fn test_display_preview_with_empty_name() {
    let renames = vec![
        FileRename {
            old_path: PathBuf::from("file.txt"),
            new_path: PathBuf::from(""),
            new_name: "".to_string(),
        },
    ];

    // Should not panic and should show error indicator
    let lines = display_preview(&rows(&renames));
    assert_eq!(lines[2], format!("{:<40} -> {:<40}", "file.txt", "[ERROR: EMPTY NAME]"));
}

#[test]
fn test_display_preview_with_path_without_filename() {
    // Test edge case where file_name() might return None
    let renames = vec![FileRename {
        old_path: PathBuf::from("/"),
        new_path: PathBuf::from("/new"),
        new_name: "new".to_string(),
    }];

    // Should not panic (should show "?" for old name)
    let lines = display_preview(&rows(&renames));
    assert_eq!(lines[2], format!("{:<40} -> {:<40}", "?", "new"));
}

#[test]
fn test_display_preview_long_names() {
    let long_name = "a".repeat(100);
    let renames = vec![FileRename {
        old_path: PathBuf::from("short.txt"),
        new_path: PathBuf::from(&long_name),
        new_name: long_name.clone(),
    }];

    // Should not panic with long names
    let lines = display_preview(&rows(&renames));
    assert_eq!(lines[2], format!("{:<40} -> {:<40}", "short.txt", long_name));
    assert_eq!(lines[2].len(), 40 + 4 + 100);
}

#[test]
fn preview_columns_count_characters_and_blank_names_are_marked() {
    let row = |old: &str, new: &str| PreviewRow {
        old_name: Some(old.to_string()),
        new_name: new.to_string(),
    };
    let wide = "é".repeat(40);
    let lines = display_preview(&vec![
        row("été.txt", "x"),
        row(&wide, " \t "),
        row("", "  padded  "),
        row(&"b".repeat(41), &"c".repeat(40)),
    ]);
    assert_eq!(lines[2], format!("{:<40} -> {:<40}", "été.txt", "x"));
    assert_eq!(lines[3], format!("{:<40} -> {:<40}", wide, "[ERROR: EMPTY NAME]"));
    assert_eq!(lines[4], format!("{:<40} -> {:<40}", "", "  padded  "));
    assert_eq!(lines[5], format!("{} -> {}", "b".repeat(41), "c".repeat(40)));
}

#[test]
fn answers_that_confirm() {
    for answer in ["y", "Y", "y\n", " Y \r\n", "\ty"] {
        assert!(confirm_undo_conflicts(answer), "{:?}", answer);
        assert_eq!(confirm_undo_conflicts(answer), answer.trim().to_lowercase() == "y");
    }
    for answer in ["", "\n", "n", "N", "yes", "yy", "y y", "no", "ý"] {
        assert!(!confirm_undo_conflicts(answer), "{:?}", answer);
        assert_eq!(confirm_undo_conflicts(answer), answer.trim().to_lowercase() == "y");
    }
}

#[test]
fn answers_of_the_interactive_edit() {
    assert!(matches!(interactive_edit(""), EditCommand::Keep));
    assert!(matches!(interactive_edit("  \n"), EditCommand::Keep));
    assert!(matches!(interactive_edit("q\n"), EditCommand::Quit));
    assert!(matches!(interactive_edit(" quit "), EditCommand::Quit));
    assert!(matches!(interactive_edit("s\n"), EditCommand::Skip));
    assert!(matches!(interactive_edit("skip\n"), EditCommand::Skip));
    assert!(matches!(interactive_edit("a\n"), EditCommand::ApplyAll));
    assert!(matches!(interactive_edit("apply\n"), EditCommand::ApplyAll));
    for (answer, name) in [
        ("new name.txt\n", "new name.txt"),
        ("Q\n", "Q"),
        ("quit!\n", "quit!"),
        ("  sk  \n", "sk"),
        ("A", "A"),
    ] {
        match interactive_edit(answer) {
            EditCommand::Rename(n) => assert_eq!(n, name),
            other => panic!("{:?}", other),
        }
    }
}

#[test]
fn trimmed_answers_are_read_as_they_stand() {
    assert!(answer_says_yes("y") && answer_says_yes("Y"));
    assert!(!answer_says_yes(" y") && !answer_says_yes("y\n") && !answer_says_yes(""));
    assert!(matches!(read_edit_command(""), EditCommand::Keep));
    assert!(matches!(read_edit_command("q"), EditCommand::Quit));
    match read_edit_command(" q") {
        EditCommand::Rename(n) => assert_eq!(n, " q"),
        other => panic!("{:?}", other),
    }
}

#[test]
fn report_of_the_preview_stage() {
    let rows = vec![PreviewRow { old_name: Some("a.txt".into()), new_name: "b.txt".into() }];
    let table = display_preview(&rows);
    let mut expected = table.clone();
    expected.extend(
        ["", "Preview mode. Use 'apply' subcommand to perform the renaming."].map(String::from),
    );
    assert_eq!(handle_rename_command(&rows, &vec![], false), expected);

    let warnings = vec!["Unknown token: %X".to_string(), "Unknown token: %Z".to_string()];
    let mut expected = table.clone();
    expected.extend(
        [
            "",
            "WARNINGS:",
            "  - Unknown token: %X",
            "  - Unknown token: %Z",
            "",
            "Preview mode. Use 'apply' subcommand to perform the renaming.",
        ]
        .map(String::from),
    );
    assert_eq!(handle_rename_command(&rows, &warnings, false), expected);

    let mut expected = table;
    expected.extend(["", "WARNINGS:", "  - Unknown token: %X"].map(String::from));
    assert_eq!(handle_rename_command(&rows, &warnings[..1].to_vec(), true), expected);
}
