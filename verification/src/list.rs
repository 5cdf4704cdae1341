//! The file set: what the discovered files are merged and filtered into.

use vstd::prelude::*;
use vstd::string::*;
use crate::text::{
    char_is_uppercase, chars_of, clone_strings, contains_text, decimal, decimal_string,
    is_uppercase_char, name_or_mark, opt_view, shown_name, str_contains, string_eq, trim_line,
    trimmed,
};

verus! {

/// `glob::Pattern`, a compiled glob pattern. Nothing is known of what is
/// inside but what `glob_source` names.
#[verifier::external_type_specification]
#[verifier::external_body]
pub struct ExGlobPattern(glob::Pattern);

/// `glob::PatternError`, the error of a text that is no glob pattern.
/// Nothing is read from it.
#[verifier::external_type_specification]
#[verifier::external_body]
pub struct ExGlobPatternError(glob::PatternError);

/// The text that a compiled glob pattern was compiled from, as
/// `glob::Pattern::as_str` gives it back.
pub uninterp spec fn glob_source(pattern: glob::Pattern) -> Seq<char>;

/// Whether a text is a well-formed glob pattern. Which characters part the
/// components of a path is fixed by the platform that the library is built
/// for.
pub uninterp spec fn glob_compiles(pattern: Seq<char>) -> bool;

/// Whether the glob pattern compiled from `pattern` matches `text`, with
/// the default match options: letters match in their own case only, and a
/// wildcard may match a separator or a leading dot.
pub uninterp spec fn glob_matches(pattern: Seq<char>, text: Seq<char>) -> bool;

/// `glob::Pattern::new` compiles a pattern or refuses it as malformed. Which
/// of the two depends on the text alone, and a compiled pattern keeps the
/// text it came from.
pub assume_specification[ glob::Pattern::new ](pattern: &str) -> (r: Result<
    glob::Pattern,
    glob::PatternError,
>)
    ensures
        r is Ok == glob_compiles(pattern@),
        r is Ok ==> glob_source(r->Ok_0) == pattern@,
;

/// `glob::Pattern::matches` says whether a compiled pattern matches a text,
/// with the default match options. The answer depends on the pattern's
/// source and the text alone.
pub assume_specification[ glob::Pattern::matches ](pattern: &glob::Pattern, str: &str) -> (b: bool)
    ensures
        b == glob_matches(glob_source(*pattern), str@),
;

/// A file as the selection sees it. The path identifies the file; the last
/// component and the components of the parent directory are what the
/// exclusions look at. A component that is not valid Unicode is left out.
#[derive(Debug)]
pub struct FileEntry {
    pub path: String,
    pub file_name: Option<String>,
    pub parents: Vec<String>,
}

/// What a file entry is, in the terms of the contracts.
pub struct FileModel {
    pub path: Seq<char>,
    pub file_name: Option<Seq<char>>,
    pub parents: Seq<Seq<char>>,
}

impl View for FileEntry {
    type V = FileModel;

    open spec fn view(&self) -> FileModel {
        FileModel {
            path: self.path@,
            file_name: opt_view(self.file_name),
            parents: self.parents.deep_view(),
        }
    }
}

impl DeepView for FileEntry {
    type V = FileModel;

    open spec fn deep_view(&self) -> FileModel {
        self@
    }
}

impl Clone for FileEntry {
    fn clone(&self) -> (r: FileEntry)
        ensures
            r@ == self@,
    {
        let file_name = match &self.file_name {
            Some(n) => Some(n.clone()),
            None => None,
        };
        FileEntry { path: self.path.clone(), file_name, parents: clone_strings(&self.parents) }
    }
}

/// The name that the exclusions look at: the last component, or the empty
/// text where the path has none.
pub open spec fn match_name(f: FileModel) -> Seq<char> {
    match f.file_name {
        Some(n) => n,
        None => Seq::empty(),
    }
}

/// Whether an exclusion is meant for directories too: it holds a slash,
/// begins with two stars or holds an upper-case letter.
pub open spec fn is_directory_pattern(p: Seq<char>) -> bool {
    p.contains('/') || (p.len() >= 2 && p[0] == '*' && p[1] == '*') || exists|i: int|
        0 <= i < p.len() && char_is_uppercase(#[trigger] p[i])
}

/// Whether the glob pattern matches a component of the parent directory.
pub open spec fn glob_matches_parent(p: Seq<char>, parents: Seq<Seq<char>>) -> bool {
    exists|k: int| 0 <= k < parents.len() && glob_matches(p, #[trigger] parents[k])
}

/// Whether the text occurs in a component of the parent directory.
pub open spec fn text_in_parent(p: Seq<char>, parents: Seq<Seq<char>>) -> bool {
    exists|k: int| 0 <= k < parents.len() && contains_text(#[trigger] parents[k], p)
}

/// Whether an exclusion takes a file out, from what is known of the two:
/// whether the exclusion compiles as a glob pattern, whether that pattern
/// matches the file's name or a component of its parent directory, whether
/// the exclusion is meant for directories, and whether its text occurs in
/// the name or in a component of the parent directory. The parent
/// directory counts only for an exclusion that is meant for directories.
pub open spec fn excluded_by(
    compiles: bool,
    matches_name: bool,
    matches_parent: bool,
    for_directories: bool,
    in_name: bool,
    in_parent: bool,
) -> bool {
    (compiles && (matches_name || (for_directories && matches_parent))) || in_name || (for_directories
        && in_parent)
}

/// Whether one exclusion takes a file out. As a glob pattern it is held
/// against the file's name and, where it is meant for directories, against
/// each component of the parent directory. As plain text it is looked for
/// in the same places.
pub open spec fn pattern_excludes(p: Seq<char>, f: FileModel) -> bool {
    excluded_by(
        glob_compiles(p),
        glob_matches(p, match_name(f)),
        glob_matches_parent(p, f.parents),
        is_directory_pattern(p),
        contains_text(match_name(f), p),
        text_in_parent(p, f.parents),
    )
}

/// Whether some exclusion takes a file out.
pub open spec fn is_excluded(f: FileModel, exclude: Seq<Seq<char>>) -> bool {
    exists|j: int| 0 <= j < exclude.len() && pattern_excludes(#[trigger] exclude[j], f)
}

/// Whether a file of that path is in the list.
pub open spec fn has_path(files: Seq<FileModel>, path: Seq<char>) -> bool {
    exists|i: int| 0 <= i < files.len() && (#[trigger] files[i]).path == path
}

/// The list `acc` with the files of `more` added in their order, each
/// unless a file of its path is there already.
pub open spec fn merge_unique(acc: Seq<FileModel>, more: Seq<FileModel>) -> Seq<FileModel>
    decreases more.len(),
{
    if more.len() == 0 {
        acc
    } else {
        let merged = merge_unique(acc, more.drop_last());
        if has_path(merged, more.last().path) {
            merged
        } else {
            merged.push(more.last())
        }
    }
}

/// The files of all groups in the order found, each path once.
pub open spec fn merge_groups(groups: Seq<Seq<FileModel>>) -> Seq<FileModel>
    decreases groups.len(),
{
    if groups.len() == 0 {
        Seq::empty()
    } else {
        merge_unique(merge_groups(groups.drop_last()), groups.last())
    }
}

/// The files that no exclusion takes out, in their order.
pub open spec fn without_excluded(files: Seq<FileModel>, exclude: Seq<Seq<char>>) -> Seq<FileModel>
    decreases files.len(),
{
    if files.len() == 0 {
        Seq::empty()
    } else {
        let kept = without_excluded(files.drop_last(), exclude);
        if is_excluded(files.last(), exclude) {
            kept
        } else {
            kept.push(files.last())
        }
    }
}

/// The file set: the files found for all patterns, each path once, without
/// those that an exclusion takes out.
pub open spec fn select_files(groups: Seq<Seq<FileModel>>, exclude: Seq<Seq<char>>) -> Seq<FileModel> {
    without_excluded(merge_groups(groups), exclude)
}

/// Whether no two files of a list have the same path.
pub open spec fn distinct_paths(files: Seq<FileModel>) -> bool {
    forall|i: int, j: int| 0 <= i < j < files.len() ==> (#[trigger] files[i]).path != (#[trigger] files[j]).path
}

/// Whether every file of `part` is a file of `whole`.
pub open spec fn drawn_from(part: Seq<FileModel>, whole: Seq<FileModel>) -> bool {
    forall|i: int| 0 <= i < part.len() ==> whole.contains(#[trigger] part[i])
}

/// All files of all groups, in the order found.
pub open spec fn all_found(groups: Seq<Seq<FileModel>>) -> Seq<FileModel>
    decreases groups.len(),
{
    if groups.len() == 0 {
        Seq::empty()
    } else {
        all_found(groups.drop_last()) + groups.last()
    }
}

proof fn lemma_merge_unique(acc: Seq<FileModel>, more: Seq<FileModel>)
    requires
        distinct_paths(acc),
    ensures
        distinct_paths(merge_unique(acc, more)),
        drawn_from(merge_unique(acc, more), acc + more),
        forall|i: int| 0 <= i < acc.len() ==> has_path(merge_unique(acc, more), (#[trigger] acc[i]).path),
        forall|i: int|
            0 <= i < more.len() ==> has_path(merge_unique(acc, more), (#[trigger] more[i]).path),
    decreases more.len(),
{
    if more.len() == 0 {
        assert(acc + more =~= acc);
        assert forall|i: int| 0 <= i < acc.len() implies (acc + more).contains(#[trigger] acc[i]) by {
            assert((acc + more)[i] == acc[i]);
        }
    } else {
        let init = more.drop_last();
        let merged = merge_unique(acc, init);
        lemma_merge_unique(acc, init);
        let out = merge_unique(acc, more);
        assert forall|i: int| 0 <= i < out.len() implies (acc + more).contains(#[trigger] out[i]) by {
            if i < merged.len() {
                assert(out[i] == merged[i]);
                assert((acc + init).contains(merged[i]));
                let k = choose|k: int| 0 <= k < (acc + init).len() && (acc + init)[k] == merged[i];
                assert((acc + more)[k] == merged[i]);
            } else {
                assert(out[i] == more.last());
                assert((acc + more)[acc.len() + more.len() - 1] == more.last());
            }
        }
        assert forall|i: int| 0 <= i < acc.len() implies has_path(out, (#[trigger] acc[i]).path) by {
            let k = choose|k: int| 0 <= k < merged.len() && (#[trigger] merged[k]).path == acc[i].path;
            assert(out[k].path == acc[i].path);
        }
        assert forall|i: int| 0 <= i < more.len() implies has_path(out, (#[trigger] more[i]).path) by {
            if i < init.len() {
                assert(init[i] == more[i]);
                let k = choose|k: int| 0 <= k < merged.len() && (#[trigger] merged[k]).path == init[i].path;
                assert(out[k].path == more[i].path);
            } else if has_path(merged, more.last().path) {
            } else {
                assert(out[out.len() - 1].path == more[i].path);
            }
        }
    }
}

proof fn lemma_merge_groups(groups: Seq<Seq<FileModel>>)
    ensures
        distinct_paths(merge_groups(groups)),
        drawn_from(merge_groups(groups), all_found(groups)),
        forall|i: int|
            0 <= i < all_found(groups).len() ==> has_path(
                merge_groups(groups),
                (#[trigger] all_found(groups)[i]).path,
            ),
    decreases groups.len(),
{
    if groups.len() > 0 {
        let init = groups.drop_last();
        let acc = merge_groups(init);
        let more = groups.last();
        lemma_merge_groups(init);
        lemma_merge_unique(acc, more);
        let out = merge_groups(groups);
        let all = all_found(groups);
        assert forall|i: int| 0 <= i < out.len() implies all.contains(#[trigger] out[i]) by {
            assert((acc + more).contains(out[i]));
            let k = choose|k: int| 0 <= k < (acc + more).len() && (acc + more)[k] == out[i];
            if k < acc.len() {
                assert(all_found(init).contains(acc[k]));
                let q = choose|q: int| 0 <= q < all_found(init).len() && all_found(init)[q] == acc[k];
                assert(all[q] == out[i]);
            } else {
                assert(all[all_found(init).len() + (k - acc.len())] == out[i]);
            }
        }
        assert forall|i: int| 0 <= i < all.len() implies has_path(out, (#[trigger] all[i]).path) by {
            if i < all_found(init).len() {
                assert(all[i] == all_found(init)[i]);
                let k = choose|k: int| 0 <= k < acc.len() && (#[trigger] acc[k]).path == all[i].path;
                assert(has_path(out, acc[k].path));
            } else {
                assert(all[i] == more[i - all_found(init).len()]);
                assert(has_path(out, more[i - all_found(init).len()].path));
            }
        }
    }
}

proof fn lemma_without_excluded(files: Seq<FileModel>, exclude: Seq<Seq<char>>)
    ensures
        drawn_from(without_excluded(files, exclude), files),
        forall|i: int|
            0 <= i < without_excluded(files, exclude).len() ==> !is_excluded(
                #[trigger] without_excluded(files, exclude)[i],
                exclude,
            ),
        forall|i: int|
            0 <= i < files.len() && !is_excluded(#[trigger] files[i], exclude) ==> without_excluded(
                files,
                exclude,
            ).contains(files[i]),
        distinct_paths(files) ==> distinct_paths(without_excluded(files, exclude)),
        without_excluded(files, exclude).len() <= files.len(),
    decreases files.len(),
{
    if files.len() > 0 {
        let init = files.drop_last();
        let kept = without_excluded(init, exclude);
        lemma_without_excluded(init, exclude);
        let out = without_excluded(files, exclude);
        assert forall|i: int| 0 <= i < out.len() implies files.contains(#[trigger] out[i]) by {
            if i < kept.len() {
                assert(out[i] == kept[i]);
                let k = choose|k: int| 0 <= k < init.len() && init[k] == kept[i];
                assert(files[k] == out[i]);
            } else {
                assert(files[files.len() - 1] == out[i]);
            }
        }
        assert forall|i: int| 0 <= i < files.len() && !is_excluded(
            #[trigger] files[i],
            exclude,
        ) implies out.contains(files[i]) by {
            if i < init.len() {
                assert(init[i] == files[i]);
                let k = choose|k: int| 0 <= k < kept.len() && kept[k] == init[i];
                assert(out[k] == files[i]);
            } else {
                assert(out[out.len() - 1] == files[i]);
            }
        }
        if distinct_paths(files) {
            assert(distinct_paths(init)) by {
                assert forall|i: int, j: int| 0 <= i < j < init.len() implies (#[trigger] init[i]).path != (
                #[trigger] init[j]).path by {
                    assert(files[i].path != files[j].path);
                }
            }
            assert forall|i: int, j: int| 0 <= i < j < out.len() implies (#[trigger] out[i]).path != (
            #[trigger] out[j]).path by {
                if j < kept.len() {
                    assert(kept[i].path != kept[j].path);
                } else {
                    let k = choose|k: int| 0 <= k < init.len() && init[k] == kept[i];
                    assert(files[k].path != files[files.len() - 1].path);
                }
            }
        }
    }
}

/// The file set holds each path once. Each of its files was found and is
/// taken out by no exclusion, and it has a file for every path whose first
/// finding no exclusion takes out.
pub proof fn lemma_file_set(groups: Seq<Seq<FileModel>>, exclude: Seq<Seq<char>>)
    ensures
        distinct_paths(select_files(groups, exclude)),
        drawn_from(select_files(groups, exclude), all_found(groups)),
        forall|i: int|
            0 <= i < select_files(groups, exclude).len() ==> !is_excluded(
                #[trigger] select_files(groups, exclude)[i],
                exclude,
            ),
        forall|i: int|
            0 <= i < merge_groups(groups).len() && !is_excluded(
                #[trigger] merge_groups(groups)[i],
                exclude,
            ) ==> select_files(groups, exclude).contains(merge_groups(groups)[i]),
{
    lemma_merge_groups(groups);
    let merged = merge_groups(groups);
    lemma_without_excluded(merged, exclude);
    let out = select_files(groups, exclude);
    assert forall|i: int| 0 <= i < out.len() implies all_found(groups).contains(#[trigger] out[i]) by {
        let k = choose|k: int| 0 <= k < merged.len() && merged[k] == out[i];
        assert(all_found(groups).contains(merged[k]));
    }
}

/// Whether an exclusion is meant for directories too.
pub fn pattern_is_for_directories(p: &str) -> (r: bool)
    ensures
        r == is_directory_pattern(p@),
{
    let chars = chars_of(p);
    let n: usize = chars.len();
    if n >= 2 && chars[0] == '*' && chars[1] == '*' {
        return true;
    }
    let mut i: usize = 0;
    while i < n
        invariant
            i <= n,
            n == chars.len(),
            chars@ == p@,
            forall|k: int| 0 <= k < i ==> !char_is_uppercase(#[trigger] p@[k]) && p@[k] != '/',
        decreases n - i,
    {
        if chars[i] == '/' || is_uppercase_char(chars[i]) {
            return true;
        }
        i += 1;
    }
    false
}

fn compiled_matches_parent(compiled: &glob::Pattern, parents: &Vec<String>) -> (r: bool)
    ensures
        r == glob_matches_parent(glob_source(*compiled), parents.deep_view()),
{
    let ghost ps = parents.deep_view();
    let mut k: usize = 0;
    while k < parents.len()
        invariant
            k <= parents.len(),
            ps == parents.deep_view(),
            forall|q: int| 0 <= q < k ==> !glob_matches(glob_source(*compiled), #[trigger] ps[q]),
        decreases parents.len() - k,
    {
        assert(ps[k as int] == parents[k as int]@);
        if compiled.matches(parents[k].as_str()) {
            return true;
        }
        k += 1;
    }
    false
}

fn parent_holds_text(p: &str, parents: &Vec<String>) -> (r: bool)
    ensures
        r == text_in_parent(p@, parents.deep_view()),
{
    let ghost ps = parents.deep_view();
    let mut k: usize = 0;
    while k < parents.len()
        invariant
            k <= parents.len(),
            ps == parents.deep_view(),
            forall|q: int| 0 <= q < k ==> !contains_text(#[trigger] ps[q], p@),
        decreases parents.len() - k,
    {
        assert(ps[k as int] == parents[k as int]@);
        if str_contains(parents[k].as_str(), p) {
            return true;
        }
        k += 1;
    }
    false
}

/// Decides whether an exclusion takes a file out, from what is known of
/// the two.
pub fn exclusion_verdict(
    compiles: bool,
    matches_name: bool,
    matches_parent: bool,
    for_directories: bool,
    in_name: bool,
    in_parent: bool,
) -> (r: bool)
    ensures
        r == excluded_by(compiles, matches_name, matches_parent, for_directories, in_name, in_parent),
{
    (compiles && (matches_name || (for_directories && matches_parent))) || in_name || (for_directories
        && in_parent)
}

/// Whether one exclusion takes the file out.
pub fn exclusion_applies(p: &str, f: &FileEntry) -> (r: bool)
    ensures
        r == pattern_excludes(p@, f@),
{
    let name: &str = match &f.file_name {
        Some(n) => n.as_str(),
        None => {
            proof {
                reveal_strlit("");
                assert(""@ =~= Seq::<char>::empty());
            }
            ""
        },
    };
    assert(name@ == match_name(f@));
    let for_directories = pattern_is_for_directories(p);
    let in_name = str_contains(name, p);
    let in_parent = parent_holds_text(p, &f.parents);
    match glob::Pattern::new(p) {
        Ok(compiled) => {
            let matches_name = compiled.matches(name);
            let matches_parent = compiled_matches_parent(&compiled, &f.parents);
            exclusion_verdict(true, matches_name, matches_parent, for_directories, in_name, in_parent)
        },
        Err(_) => exclusion_verdict(false, false, false, for_directories, in_name, in_parent),
    }
}

/// Whether some exclusion takes the file out.
fn file_is_excluded(f: &FileEntry, exclude: &Vec<String>) -> (r: bool)
    ensures
        r == is_excluded(f@, exclude.deep_view()),
{
    let ghost ex = exclude.deep_view();
    let mut j: usize = 0;
    while j < exclude.len()
        invariant
            j <= exclude.len(),
            ex == exclude.deep_view(),
            forall|q: int| 0 <= q < j ==> !pattern_excludes(#[trigger] ex[q], f@),
        decreases exclude.len() - j,
    {
        assert(ex[j as int] == exclude[j as int]@);
        if exclusion_applies(exclude[j].as_str(), f) {
            return true;
        }
        j += 1;
    }
    false
}

fn holds_path(files: &Vec<FileEntry>, path: &String) -> (r: bool)
    ensures
        r == has_path(files.deep_view(), path@),
{
    let ghost fs = files.deep_view();
    let mut i: usize = 0;
    while i < files.len()
        invariant
            i <= files.len(),
            fs == files.deep_view(),
            forall|q: int| 0 <= q < i ==> (#[trigger] fs[q]).path != path@,
        decreases files.len() - i,
    {
        assert(fs[i as int] == files[i as int]@);
        if string_eq(&files[i].path, path) {
            return true;
        }
        i += 1;
    }
    false
}

/// Forms the file set from what was found for each pattern.
///
/// `found` holds one group per pattern, in the order of the patterns. The
/// result keeps the order found, holds each path once, and holds no file
/// that an exclusion takes out.
pub fn find_files(found: &Vec<Vec<FileEntry>>, exclude: &Vec<String>) -> (r: Vec<FileEntry>)
    ensures
        r.deep_view() == select_files(found.deep_view(), exclude.deep_view()),
        distinct_paths(r.deep_view()),
{
    proof {
        lemma_file_set(found.deep_view(), exclude.deep_view());
    }
    let ghost groups = found.deep_view();
    let mut all_files: Vec<FileEntry> = Vec::new();
    let mut g: usize = 0;
    assert(groups.subrange(0, 0) =~= Seq::<Seq<FileModel>>::empty());
    assert(all_files.deep_view() =~= Seq::<FileModel>::empty());
    while g < found.len()
        invariant
            g <= found.len(),
            groups == found.deep_view(),
            all_files.deep_view() == merge_groups(groups.subrange(0, g as int)),
        decreases found.len() - g,
    {
        let group = &found[g];
        let ghost files = group.deep_view();
        let ghost before = all_files.deep_view();
        proof {
            let next = groups.subrange(0, g + 1);
            assert(next.drop_last() =~= groups.subrange(0, g as int));
            assert(next.last() == files);
            assert(files.subrange(0, 0) =~= Seq::<FileModel>::empty());
        }
        let mut i: usize = 0;
        while i < group.len()
            invariant
                i <= group.len(),
                files == group.deep_view(),
                all_files.deep_view() == merge_unique(before, files.subrange(0, i as int)),
            decreases group.len() - i,
        {
            proof {
                let next = files.subrange(0, i + 1);
                assert(next.drop_last() =~= files.subrange(0, i as int));
                assert(next.last() == group[i as int]@);
            }
            if !holds_path(&all_files, &group[i].path) {
                let ghost merged = all_files.deep_view();
                all_files.push(group[i].clone());
                assert(all_files.deep_view() =~= merged.push(group[i as int]@));
            }
            i += 1;
        }
        assert(files.subrange(0, group.len() as int) =~= files);
        g += 1;
    }
    assert(groups.subrange(0, found.len() as int) =~= groups);
    let ghost merged = all_files.deep_view();
    let mut kept: Vec<FileEntry> = Vec::new();
    let mut i: usize = 0;
    assert(merged.subrange(0, 0) =~= Seq::<FileModel>::empty());
    assert(kept.deep_view() =~= Seq::<FileModel>::empty());
    while i < all_files.len()
        invariant
            i <= all_files.len(),
            merged == all_files.deep_view(),
            kept.deep_view() == without_excluded(merged.subrange(0, i as int), exclude.deep_view()),
        decreases all_files.len() - i,
    {
        proof {
            let next = merged.subrange(0, i + 1);
            assert(next.drop_last() =~= merged.subrange(0, i as int));
            assert(next.last() == all_files[i as int]@);
        }
        if !file_is_excluded(&all_files[i], exclude) {
            let ghost so_far = kept.deep_view();
            kept.push(all_files[i].clone());
            assert(kept.deep_view() =~= so_far.push(all_files[i as int]@));
        }
        i += 1;
    }
    assert(merged.subrange(0, all_files.len() as int) =~= merged);
    kept
}

/// Whether a trimmed line of a path list names a path: it is not blank and
/// does not begin with the comment marker `#`.
pub open spec fn names_path(line: Seq<char>) -> bool {
    line.len() > 0 && line[0] != '#'
}

/// The paths that the lines of a path list name, in their order: each line
/// trimmed, blank lines and comments left out.
pub open spec fn path_list(lines: Seq<Seq<char>>) -> Seq<Seq<char>>
    decreases lines.len(),
{
    if lines.len() == 0 {
        Seq::empty()
    } else {
        let paths = path_list(lines.drop_last());
        if names_path(trimmed(lines.last())) {
            paths.push(trimmed(lines.last()))
        } else {
            paths
        }
    }
}

/// Whether a trimmed line of a path list names a path.
pub fn line_names_path(line: &str) -> (r: bool)
    ensures
        r == names_path(line@),
{
    line.unicode_len() > 0 && line.get_char(0) != '#'
}

/// Reads the lines of a path list: each line is trimmed, and blank lines
/// and lines that begin with `#` are skipped.
pub fn read_path_list(lines: &Vec<String>) -> (r: Vec<String>)
    ensures
        r.deep_view() == path_list(lines.deep_view()),
{
    let ghost ls = lines.deep_view();
    let mut paths: Vec<String> = Vec::new();
    let mut i: usize = 0;
    assert(ls.subrange(0, 0) =~= Seq::<Seq<char>>::empty());
    assert(paths.deep_view() =~= Seq::<Seq<char>>::empty());
    while i < lines.len()
        invariant
            i <= lines.len(),
            ls == lines.deep_view(),
            paths.deep_view() == path_list(ls.subrange(0, i as int)),
        decreases lines.len() - i,
    {
        proof {
            let next = ls.subrange(0, i + 1);
            assert(next.drop_last() =~= ls.subrange(0, i as int));
            assert(next.last() == lines[i as int]@);
        }
        let line = trim_line(lines[i].as_str());
        if line_names_path(line) {
            let ghost so_far = paths.deep_view();
            paths.push(String::from_str(line));
            assert(paths.deep_view() =~= so_far.push(line@));
        }
        i += 1;
    }
    assert(ls.subrange(0, lines.len() as int) =~= ls);
    paths
}

/// How a file is shown: by its path, or by its name, `?` where it has none.
pub open spec fn shown_file(f: FileModel, fullpath: bool) -> Seq<char> {
    if fullpath {
        f.path
    } else {
        shown_name(f.file_name)
    }
}

/// The lines that show a file set: a note where it is empty, else a heading
/// with the count and one indented line for each file.
pub open spec fn file_lines(files: Seq<FileModel>, fullpath: bool) -> Seq<Seq<char>> {
    if files.len() == 0 {
        seq!["No matching files found."@]
    } else {
        seq!["Found "@ + decimal(files.len()) + " matching file(s):"@] + Seq::new(
            files.len(),
            |i: int| "  "@ + shown_file(files[i], fullpath),
        )
    }
}

/// The lines that show a file set, for the caller to print.
pub fn display_files(files: &Vec<FileEntry>, fullpath: bool) -> (r: Vec<String>)
    ensures
        r.deep_view() == file_lines(files.deep_view(), fullpath),
{
    let ghost fs = files.deep_view();
    let mut lines: Vec<String> = Vec::new();
    if files.len() == 0 {
        lines.push(String::from_str("No matching files found."));
        assert(lines.deep_view() =~= file_lines(fs, fullpath));
        return lines;
    }
    lines.push(
        String::from_str("Found ").concat(decimal_string(files.len()).as_str()).concat(
            " matching file(s):",
        ),
    );
    let mut i: usize = 0;
    while i < files.len()
        invariant
            i <= files.len(),
            fs == files.deep_view(),
            lines.len() == i + 1,
            lines[0]@ == "Found "@ + decimal(fs.len()) + " matching file(s):"@,
            forall|k: int| 0 <= k < i ==> (#[trigger] lines[k + 1])@ == "  "@ + shown_file(fs[k], fullpath),
        decreases files.len() - i,
    {
        assert(fs[i as int] == files[i as int]@);
        let shown: &str = if fullpath {
            files[i].path.as_str()
        } else {
            name_or_mark(&files[i].file_name)
        };
        lines.push(String::from_str("  ").concat(shown));
        i += 1;
    }
    proof {
        let head = seq!["Found "@ + decimal(fs.len()) + " matching file(s):"@];
        let body = Seq::new(fs.len(), |i: int| "  "@ + shown_file(fs[i], fullpath));
        assert forall|j: int| 0 <= j < lines.len() implies lines.deep_view()[j] == (head + body)[j] by {
            if j > 0 {
                assert(lines[(j - 1) + 1]@ == "  "@ + shown_file(fs[j - 1], fullpath));
                assert((head + body)[j] == body[j - 1]);
            }
        }
        assert(lines.deep_view() =~= head + body);
    }
    lines
}

/// A copy of a list of files.
pub fn clone_files(files: &Vec<FileEntry>) -> (r: Vec<FileEntry>)
    ensures
        r.deep_view() == files.deep_view(),
{
    let mut out: Vec<FileEntry> = Vec::new();
    let mut i: usize = 0;
    while i < files.len()
        invariant
            i <= files.len(),
            out.len() == i,
            forall|j: int| 0 <= j < i ==> out[j]@ == files[j]@,
        decreases files.len() - i,
    {
        out.push(files[i].clone());
        i += 1;
    }
    assert(out.deep_view() =~= files.deep_view());
    out
}

} // verus!
