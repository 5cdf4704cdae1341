//! Tests for the file set: merging what was found, exclusions, path lists
//! and the lines that show a file set.

use frencli::list::{clone_files, display_files, find_files, read_path_list, FileEntry};

fn file(path: &str) -> FileEntry {
    let (dir, name) = match path.rfind('/') {
        Some(i) => (&path[..i], &path[i + 1..]),
        None => ("", path),
    };
    FileEntry {
        path: path.to_string(),
        file_name: if name.is_empty() { None } else { Some(name.to_string()) },
        parents: dir.split('/').filter(|c| !c.is_empty()).map(|c| c.to_string()).collect(),
    }
}

fn strings(items: &[&str]) -> Vec<String> {
    items.iter().map(|s| s.to_string()).collect()
}

fn kept(found: Vec<Vec<FileEntry>>, exclude: &[&str]) -> Vec<String> {
    find_files(&found, &strings(exclude)).into_iter().map(|f| f.path).collect()
}

#[test]
fn merge_keeps_first_occurrence_and_order() {
    let found = vec![
        vec![file("b.txt"), file("a.txt"), file("b.txt")],
        vec![],
        vec![file("c.txt"), file("a.txt"), file("d/a.txt")],
    ];
    assert_eq!(kept(found, &[]), vec!["b.txt", "a.txt", "c.txt", "d/a.txt"]);
    assert!(kept(vec![], &[]).is_empty());
    assert!(kept(vec![vec![], vec![]], &["x"]).is_empty());
}

#[test]
fn merge_goes_by_the_path_alone() {
    let mut other = file("a.txt");
    other.file_name = Some("other".to_string());
    other.parents = vec!["p".to_string()];
    let found = vec![vec![file("a.txt")], vec![other]];
    let files = find_files(&found, &vec![]);
    assert_eq!(files.len(), 1);
    assert_eq!(files[0].file_name, Some("a.txt".to_string()));
    assert!(files[0].parents.is_empty());
}

#[test]
fn glob_exclusion_is_held_against_the_name() {
    let found = vec![vec![file("d/a.txt"), file("d/a.tmp"), file("d/b.tmp.txt"), file("tmp/c.txt")]];
    assert_eq!(kept(found, &["*.tmp"]), vec!["d/a.txt", "d/b.tmp.txt", "tmp/c.txt"]);
    let found = vec![vec![file("cat"), file("cut"), file("coat"), file("ct")]];
    assert_eq!(kept(found, &["c?t"]), vec!["coat", "ct"]);
    let found = vec![vec![file("a1"), file("a2"), file("a9"), file("ab")]];
    assert_eq!(kept(found, &["a[1-2]"]), vec!["a9", "ab"]);
    let found = vec![vec![file("a1"), file("a2"), file("ab")]];
    assert_eq!(kept(found, &["a[!1]"]), vec!["a1"]);
}

#[test]
fn plain_text_exclusion_is_looked_for_in_the_name() {
    let found = vec![vec![file("d/backup.txt"), file("d/my_backup_2.txt"), file("backup/c.txt")]];
    assert_eq!(kept(found, &["backup"]), vec!["backup/c.txt"]);
    // A malformed glob still counts as plain text.
    let found = vec![vec![file("a[b.txt"), file("ab.txt")]];
    assert_eq!(kept(found, &["a[b"]), vec!["ab.txt"]);
    let found = vec![vec![file("x***y"), file("xy")]];
    assert_eq!(kept(found, &["***"]), vec!["xy"]);
}

#[test]
fn the_empty_exclusion_takes_every_file_out() {
    let found = vec![vec![file("a.txt"), file("d/b.txt")]];
    assert!(kept(found, &[""]).is_empty());
}

#[test]
fn directory_patterns_look_at_parent_components() {
    // An upper-case letter makes a pattern one for directories.
    let found = vec![vec![file("OldArchive/a.txt"), file("old/Archive.txt"), file("src/b.txt")]];
    assert_eq!(kept(found, &["*Archive*"]), vec!["src/b.txt"]);
    // Without one, the parents are not looked at.
    let found = vec![vec![file("oldarchive/a.txt"), file("old/archive.txt"), file("src/b.txt")]];
    assert_eq!(kept(found, &["*archive*"]), vec!["oldarchive/a.txt", "src/b.txt"]);
    let found = vec![vec![file("oldarchive/a.txt"), file("src/b.txt")]];
    assert_eq!(kept(found, &["archive"]), vec!["oldarchive/a.txt", "src/b.txt"]);
    // Plain text with an upper-case letter is looked for in the parents too.
    let found = vec![vec![file("MyArchive2/a.txt"), file("src/b.txt")]];
    assert_eq!(kept(found, &["Archive"]), vec!["src/b.txt"]);
    // Two leading stars make a directory pattern.
    let found = vec![vec![file("x/y/a.txt"), file("b.txt")]];
    assert!(kept(found, &["**"]).is_empty());
    // A slash makes a directory pattern; as text it occurs in no component.
    let found = vec![vec![file("x/y/a.txt"), file("b.txt")]];
    assert_eq!(kept(found, &["x/y"]), vec!["x/y/a.txt", "b.txt"]);
}

#[test]
fn upper_case_is_the_unicode_property() {
    // "É" is upper case, "é" is not: only the first pattern reaches the parents.
    let found = vec![vec![file("École/a.txt")]];
    assert!(kept(found, &["É*"]).is_empty());
    let found = vec![vec![file("école/a.txt")]];
    assert_eq!(kept(found, &["é*"]), vec!["école/a.txt"]);
}

#[test]
fn a_file_without_a_name_matches_as_the_empty_name() {
    let mut root = file("/");
    root.file_name = None;
    assert_eq!(kept(vec![vec![root.clone()]], &["a"]), vec!["/"]);
    assert!(kept(vec![vec![root.clone()]], &["*"]).is_empty());
    assert!(kept(vec![vec![root]], &[""]).is_empty());
}

#[test]
fn any_exclusion_suffices() {
    let found = vec![vec![file("a.txt"), file("b.jpg"), file("c.png"), file("d.txt")]];
    assert_eq!(kept(found, &["*.jpg", "nothing", "c"]), vec!["a.txt", "d.txt"]);
}

#[test]
fn path_list_skips_blank_lines_and_comments() {
    let lines = strings(&[
        "a.txt",
        "",
        "   ",
        "# a comment",
        "  # an indented comment",
        "  dir/b.txt  ",
        "\tc d.txt\r",
        "e#f.txt",
        "#",
        "a.txt",
    ]);
    assert_eq!(read_path_list(&lines), vec!["a.txt", "dir/b.txt", "c d.txt", "e#f.txt", "a.txt"]);
    assert!(read_path_list(&vec![]).is_empty());
    // White space is the Unicode property: a no-break space is trimmed too.
    assert_eq!(read_path_list(&strings(&["\u{a0}x\u{2003}"])), vec!["x"]);
    assert_eq!(read_path_list(&strings(&[" x y "])), vec!["x y"]);
}

#[test]
fn lines_that_show_a_file_set() {
    assert_eq!(display_files(&vec![], false), vec!["No matching files found."]);
    assert_eq!(display_files(&vec![], true), vec!["No matching files found."]);
    let mut nameless = file("..");
    nameless.file_name = None;
    let files = vec![file("d/a.txt"), file("b.txt"), nameless];
    assert_eq!(
        display_files(&files, false),
        vec!["Found 3 matching file(s):", "  a.txt", "  b.txt", "  ?"]
    );
    assert_eq!(
        display_files(&files, true),
        vec!["Found 3 matching file(s):", "  d/a.txt", "  b.txt", "  .."]
    );
    let many: Vec<FileEntry> = (0..120).map(|i| file(&format!("f{}", i))).collect();
    let lines = display_files(&many, false);
    assert_eq!(lines.len(), 121);
    assert_eq!(lines[0], "Found 120 matching file(s):");
    assert_eq!(lines[120], "  f119");
}

#[test]
fn copies_hold_the_same_files() {
    let files = vec![file("d/a.txt"), file("b.txt")];
    let copy = clone_files(&files);
    assert_eq!(copy.len(), 2);
    assert_eq!(copy[0].path, "d/a.txt");
    assert_eq!(copy[0].file_name, Some("a.txt".to_string()));
    assert_eq!(copy[0].parents, vec!["d"]);
    assert_eq!(copy[1].path, "b.txt");
}
