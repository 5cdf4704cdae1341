//! From subcommand units to a run of the pipeline.
//!
//! The units are checked for illegal combinations and folded into one
//! configuration record. A standalone request is answered at once. Anything
//! else runs the stages in their fixed order: resolve the files, compute the
//! preview, validate it, apply it.

use vstd::prelude::*;
use vstd::string::*;
use crate::error::{CliError, ErrorKind};
use crate::list::{clone_files, find_files, FileEntry};
use crate::pipeline::{
    abort, after_resolve, begin, enter_apply, enter_preview, enter_validate, finish,
    no_preview_message, step, unexpected_event_message, Awaiting, FileSource, PipelineAction,
    PipelineEvent, PipelineStage, PipelineState,
};
use crate::subcommands::{
    all_flag_values, first_flag_value, get_flag_value, get_flag_values, has_flag,
    lemma_keywords_distinct, ParsedSubcommand, Unit,
};
use crate::templates::{pairs_view, TemplateRegistry};
use crate::text::{
    clone_strings, contains_text, decimal, decimal_string, occurs_at, opt_view, parse_index,
    parse_usize, str_eq,
};

verus! {

/// The units of a list of parsed subcommands.
pub open spec fn units_of(s: Seq<ParsedSubcommand>) -> Seq<Unit> {
    Seq::new(s.len(), |i: int| s[i]@)
}

/// The configuration of one run, gathered from all units.
#[derive(Debug)]
pub struct CommandConfig {
    pub list_patterns: Option<Vec<String>>,
    pub list_files_from: Option<String>,
    pub list_recursive: bool,
    pub list_exclude: Vec<String>,
    pub list_fullpath: bool,
    pub list_json: bool,
    pub rename_pattern: Option<String>,
    pub rename_json: bool,
    pub template_use: Option<String>,
    pub validate_requested: bool,
    pub validate_skip_invalid: bool,
    pub apply_requested: bool,
    pub apply_overwrite: bool,
    pub apply_yes: bool,
    pub apply_interactive: bool,
    pub apply_json: bool,
    pub apply_no_audit: bool,
}

/// What a configuration is, in the terms of the contracts.
pub struct Config {
    pub list_patterns: Option<Seq<Seq<char>>>,
    pub list_files_from: Option<Seq<char>>,
    pub list_recursive: bool,
    pub list_exclude: Seq<Seq<char>>,
    pub list_fullpath: bool,
    pub list_json: bool,
    pub rename_pattern: Option<Seq<char>>,
    pub rename_json: bool,
    pub template_use: Option<Seq<char>>,
    pub validate_requested: bool,
    pub validate_skip_invalid: bool,
    pub apply_requested: bool,
    pub apply_overwrite: bool,
    pub apply_yes: bool,
    pub apply_interactive: bool,
    pub apply_json: bool,
    pub apply_no_audit: bool,
}

/// The character sequences of an optional list of strings.
pub open spec fn opt_list_view(o: Option<Vec<String>>) -> Option<Seq<Seq<char>>> {
    match o {
        Some(v) => Some(v.deep_view()),
        None => None,
    }
}

impl View for CommandConfig {
    type V = Config;

    open spec fn view(&self) -> Config {
        Config {
            list_patterns: opt_list_view(self.list_patterns),
            list_files_from: opt_view(self.list_files_from),
            list_recursive: self.list_recursive,
            list_exclude: self.list_exclude.deep_view(),
            list_fullpath: self.list_fullpath,
            list_json: self.list_json,
            rename_pattern: opt_view(self.rename_pattern),
            rename_json: self.rename_json,
            template_use: opt_view(self.template_use),
            validate_requested: self.validate_requested,
            validate_skip_invalid: self.validate_skip_invalid,
            apply_requested: self.apply_requested,
            apply_overwrite: self.apply_overwrite,
            apply_yes: self.apply_yes,
            apply_interactive: self.apply_interactive,
            apply_json: self.apply_json,
            apply_no_audit: self.apply_no_audit,
        }
    }
}

/// The configuration of an invocation without units: nothing is asked for.
pub open spec fn empty_config() -> Config {
    Config {
        list_patterns: None,
        list_files_from: None,
        list_recursive: false,
        list_exclude: Seq::empty(),
        list_fullpath: false,
        list_json: false,
        rename_pattern: None,
        rename_json: false,
        template_use: None,
        validate_requested: false,
        validate_skip_invalid: false,
        apply_requested: false,
        apply_overwrite: false,
        apply_yes: false,
        apply_interactive: false,
        apply_json: false,
        apply_no_audit: false,
    }
}

impl Default for CommandConfig {
    fn default() -> (r: CommandConfig)
        ensures
            r@ == empty_config(),
    {
        let list_exclude: Vec<String> = Vec::new();
        assert(list_exclude.deep_view() =~= Seq::<Seq<char>>::empty());
        CommandConfig {
            list_patterns: None,
            list_files_from: None,
            list_recursive: false,
            list_exclude,
            list_fullpath: false,
            list_json: false,
            rename_pattern: None,
            rename_json: false,
            template_use: None,
            validate_requested: false,
            validate_skip_invalid: false,
            apply_requested: false,
            apply_overwrite: false,
            apply_yes: false,
            apply_interactive: false,
            apply_json: false,
            apply_no_audit: false,
        }
    }
}

/// The text shown where the file-selection unit names no files.
pub open spec fn no_search_pattern_message() -> Seq<char> {
    "No search pattern provided for 'list'."@
}

/// The text shown where the rename unit has no pattern.
pub open spec fn rename_pattern_required_message() -> Seq<char> {
    "Rename pattern required."@
}

/// What is wrong with a unit taken alone: a file-selection unit needs a
/// file list or at least one pattern, a rename unit a pattern that is not
/// empty.
pub open spec fn unit_error(u: Unit) -> Option<Seq<char>> {
    if u.name == "list"@ && first_flag_value(u.flags, "files-from"@) is None && u.args.len() == 0 {
        Some(no_search_pattern_message())
    } else if u.name == "rename"@ && (u.args.len() == 0 || u.args[0].len() == 0) {
        Some(rename_pattern_required_message())
    } else {
        None
    }
}

/// The configuration after one more unit. A unit overwrites the fields of
/// its own subcommand and leaves the others. Where a file list is named the
/// patterns are dropped.
pub open spec fn with_unit(c: Config, u: Unit) -> Config {
    if u.name == "list"@ {
        let from = first_flag_value(u.flags, "files-from"@);
        Config {
            list_patterns: if from is Some {
                None
            } else {
                Some(u.args)
            },
            list_files_from: from,
            list_recursive: u.flags.contains_key("recursive"@),
            list_exclude: all_flag_values(u.flags, "exclude"@),
            list_fullpath: u.flags.contains_key("fullpath"@),
            list_json: u.flags.contains_key("json"@),
            ..c
        }
    } else if u.name == "rename"@ {
        Config {
            rename_pattern: if u.args.len() > 0 {
                Some(u.args[0])
            } else {
                Some(Seq::empty())
            },
            rename_json: u.flags.contains_key("json"@),
            ..c
        }
    } else if u.name == "template"@ {
        match first_flag_value(u.flags, "use"@) {
            Some(t) => Config { template_use: Some(t), ..c },
            None => c,
        }
    } else if u.name == "validate"@ {
        Config {
            validate_requested: true,
            validate_skip_invalid: u.flags.contains_key("skip-invalid"@),
            ..c
        }
    } else if u.name == "apply"@ {
        Config {
            apply_requested: true,
            apply_overwrite: u.flags.contains_key("overwrite"@),
            apply_yes: u.flags.contains_key("yes"@),
            apply_interactive: u.flags.contains_key("interactive"@),
            apply_json: u.flags.contains_key("json"@),
            apply_no_audit: u.flags.contains_key("no-audit"@),
            ..c
        }
    } else {
        c
    }
}

/// The configuration that a command sequence folds into: unit after unit,
/// a later unit of a subcommand overwriting an earlier one.
pub open spec fn fold_units(units: Seq<Unit>) -> Config
    decreases units.len(),
{
    if units.len() == 0 {
        empty_config()
    } else {
        with_unit(fold_units(units.drop_last()), units.last())
    }
}

/// The error of the first unit that is wrong taken alone.
pub open spec fn first_unit_error(units: Seq<Unit>) -> Option<Seq<char>>
    decreases units.len(),
{
    if units.len() == 0 {
        None
    } else {
        match first_unit_error(units.drop_last()) {
            Some(e) => Some(e),
            None => unit_error(units.last()),
        }
    }
}

/// The configuration of a command sequence, or the error of its first
/// wrong unit.
pub open spec fn extract(units: Seq<Unit>) -> Result<Config, Seq<char>> {
    match first_unit_error(units) {
        Some(e) => Err(e),
        None => Ok(fold_units(units)),
    }
}

/// Takes the fields of a file-selection unit.
fn take_list_unit(config: &mut CommandConfig, subcmd: &ParsedSubcommand) -> (r: Result<(), String>)
    requires
        subcmd.name@ == "list"@,
    ensures
        match unit_error(subcmd@) {
            Some(e) => r is Err && r->Err_0@ == e && *final(config) == *old(config),
            None => r is Ok && final(config)@ == with_unit(old(config)@, subcmd@),
        },
{
    proof {
        lemma_keywords_distinct();
    }
    let files_from = get_flag_value(&subcmd.flags, "files-from");
    if files_from.is_some() {
        config.list_files_from = files_from;
        config.list_patterns = None;
    } else {
        if subcmd.args.len() == 0 {
            return Err(String::from_str("No search pattern provided for 'list'."));
        }
        config.list_patterns = Some(clone_strings(&subcmd.args));
        config.list_files_from = None;
    }
    config.list_recursive = has_flag(&subcmd.flags, "recursive");
    config.list_exclude = get_flag_values(&subcmd.flags, "exclude");
    config.list_fullpath = has_flag(&subcmd.flags, "fullpath");
    config.list_json = has_flag(&subcmd.flags, "json");
    Ok(())
}

/// Takes the fields of a rename unit.
fn take_rename_unit(config: &mut CommandConfig, subcmd: &ParsedSubcommand) -> (r: Result<(), String>)
    requires
        subcmd.name@ == "rename"@,
    ensures
        match unit_error(subcmd@) {
            Some(e) => r is Err && r->Err_0@ == e && *final(config) == *old(config),
            None => r is Ok && final(config)@ == with_unit(old(config)@, subcmd@),
        },
{
    proof {
        lemma_keywords_distinct();
    }
    if subcmd.args.len() == 0 || subcmd.args[0].as_str().is_empty() {
        proof {
            if subcmd.args.len() > 0 {
                assert(subcmd@.args[0] == subcmd.args[0]@);
            }
        }
        return Err(String::from_str("Rename pattern required."));
    }
    assert(subcmd@.args[0] == subcmd.args[0]@);
    config.rename_pattern = Some(subcmd.args[0].clone());
    config.rename_json = has_flag(&subcmd.flags, "json");
    Ok(())
}

/// Takes the fields of a unit that cannot be wrong taken alone.
fn take_other_unit(config: &mut CommandConfig, subcmd: &ParsedSubcommand)
    requires
        subcmd.name@ != "list"@,
        subcmd.name@ != "rename"@,
    ensures
        final(config)@ == with_unit(old(config)@, subcmd@),
{
    if str_eq(subcmd.name.as_str(), "template") {
        let use_template = get_flag_value(&subcmd.flags, "use");
        if use_template.is_some() {
            config.template_use = use_template;
        }
    } else if str_eq(subcmd.name.as_str(), "validate") {
        config.validate_requested = true;
        config.validate_skip_invalid = has_flag(&subcmd.flags, "skip-invalid");
    } else if str_eq(subcmd.name.as_str(), "apply") {
        config.apply_requested = true;
        config.apply_overwrite = has_flag(&subcmd.flags, "overwrite");
        config.apply_yes = has_flag(&subcmd.flags, "yes");
        config.apply_interactive = has_flag(&subcmd.flags, "interactive");
        config.apply_json = has_flag(&subcmd.flags, "json");
        config.apply_no_audit = has_flag(&subcmd.flags, "no-audit");
    }
}

/// Takes the fields of one unit into the configuration.
fn take_unit(config: &mut CommandConfig, subcmd: &ParsedSubcommand) -> (r: Result<(), String>)
    ensures
        match unit_error(subcmd@) {
            Some(e) => r is Err && r->Err_0@ == e && *final(config) == *old(config),
            None => r is Ok && final(config)@ == with_unit(old(config)@, subcmd@),
        },
{
    if str_eq(subcmd.name.as_str(), "list") {
        take_list_unit(config, subcmd)
    } else if str_eq(subcmd.name.as_str(), "rename") {
        take_rename_unit(config, subcmd)
    } else {
        take_other_unit(config, subcmd);
        Ok(())
    }
}

/// Folds the units into one configuration record.
///
/// Fails on the first file-selection unit without files and on the first
/// rename unit without a pattern.
pub fn extract_config(subcommands: &[ParsedSubcommand]) -> (r: Result<CommandConfig, String>)
    ensures
        match extract(units_of(subcommands@)) {
            Ok(c) => r is Ok && r->Ok_0@ == c,
            Err(e) => r is Err && r->Err_0@ == e,
        },
{
    let ghost units = units_of(subcommands@);
    let mut config = CommandConfig::default();
    let mut i: usize = 0;
    assert(units.subrange(0, 0) =~= Seq::<Unit>::empty());
    while i < subcommands.len()
        invariant
            i <= subcommands.len(),
            units == units_of(subcommands@),
            first_unit_error(units.subrange(0, i as int)) is None,
            config@ == fold_units(units.subrange(0, i as int)),
        decreases subcommands.len() - i,
    {
        proof {
            let next = units.subrange(0, i + 1);
            assert(next.drop_last() =~= units.subrange(0, i as int));
            assert(next.last() == subcommands[i as int]@);
        }
        match take_unit(&mut config, &subcommands[i]) {
            Ok(()) => {},
            Err(e) => {
                proof {
                    lemma_first_error_stays(units, i + 1);
                }
                return Err(e);
            },
        }
        i += 1;
    }
    assert(units.subrange(0, subcommands.len() as int) =~= units);
    Ok(config)
}

/// An error found in a prefix of the units is the error of the whole.
proof fn lemma_first_error_stays(units: Seq<Unit>, n: int)
    requires
        0 <= n <= units.len(),
        first_unit_error(units.subrange(0, n)) is Some,
    ensures
        first_unit_error(units) == first_unit_error(units.subrange(0, n)),
    decreases units.len() - n,
{
    if n < units.len() {
        let next = units.subrange(0, n + 1);
        assert(next.drop_last() =~= units.subrange(0, n));
        lemma_first_error_stays(units, n + 1);
    } else {
        assert(units.subrange(0, n) =~= units);
    }
}

/// Whether a unit of the given keyword is there.
pub open spec fn has_named(units: Seq<Unit>, name: Seq<char>) -> bool {
    exists|i: int| 0 <= i < units.len() && (#[trigger] units[i]).name == name
}

/// Whether a template unit carries the given flag.
pub open spec fn has_template_flag(units: Seq<Unit>, flag: Seq<char>) -> bool {
    exists|i: int|
        0 <= i < units.len() && (#[trigger] units[i]).name == "template"@ && units[i].flags.contains_key(
            flag,
        )
}

/// The text shown where the listing of templates is asked for among other
/// units.
pub open spec fn template_list_alone_message() -> Seq<char> {
    "'template --list' cannot be used with other subcommands.\nThe 'template --list' request is standalone and must be used alone.\n\nExamples:\n  fren template --list"@
}

/// The text shown where an undo stands among other units.
pub open spec fn undo_alone_message() -> Seq<char> {
    "'undo' cannot be used with other subcommands.\nThe 'undo' subcommand is very important and must be used alone.\n\nExamples:\n  fren undo --check\n  fren undo --apply\n  fren undo --apply --yes"@
}

/// The text shown where an undo names both of its modes.
pub open spec fn undo_both_modes_message() -> Seq<char> {
    "Cannot use both 'undo --check' and 'undo --apply' together.\nUse either:\n  - 'undo --check' to check what can be undone\n  - 'undo --apply' to actually perform the undo"@
}

/// The text shown where an undo names none of its modes.
pub open spec fn undo_no_mode_message() -> Seq<char> {
    "'undo' requires either '--check' or '--apply' flag.\nUse:\n  - 'undo --check' to check what can be undone\n  - 'undo --apply' to actually perform the undo"@
}

/// The text shown where an audit stands among other units.
pub open spec fn audit_alone_message() -> Seq<char> {
    "'audit' cannot be used with other subcommands.\nThe 'audit' subcommand is standalone and must be used alone.\n\nExamples:\n  fren audit\n  fren audit --limit 10\n  fren audit --json"@
}

/// The text shown where the interactive guide stands among other units.
pub open spec fn interactive_alone_message() -> Seq<char> {
    "'interactive' cannot be used with other subcommands.\nThe 'interactive' subcommand is standalone and must be used alone.\n\nExamples:\n  fren interactive"@
}

/// The text shown where a rename pattern and a template in use stand
/// together.
pub open spec fn rename_and_template_message() -> Seq<char> {
    "Cannot use both 'rename' and 'template --use' in the same command.\nUse either:\n  - 'rename <PATTERN>' to specify a pattern directly\n  - 'template --use <NAME|NUMBER>' to use a template pattern"@
}

/// What is wrong with the mode flags of an undo unit: it needs exactly one
/// of `--check` and `--apply`.
pub open spec fn undo_mode_error(u: Unit) -> Option<Seq<char>> {
    if u.flags.contains_key("check"@) && u.flags.contains_key("apply"@) {
        Some(undo_both_modes_message())
    } else if !u.flags.contains_key("check"@) && !u.flags.contains_key("apply"@) {
        Some(undo_no_mode_message())
    } else {
        None
    }
}

/// The first rule on standalone requests that a command sequence breaks.
/// A request to list the templates, an undo, an audit and the interactive
/// guide each stand alone, looked at in this order; an undo names one mode.
pub open spec fn standalone_error(units: Seq<Unit>) -> Option<Seq<char>> {
    if has_template_flag(units, "list"@) {
        if units.len() > 1 {
            Some(template_list_alone_message())
        } else {
            None
        }
    } else if has_named(units, "undo"@) {
        if units.len() > 1 {
            Some(undo_alone_message())
        } else {
            undo_mode_error(units[0])
        }
    } else if has_named(units, "audit"@) {
        if units.len() > 1 {
            Some(audit_alone_message())
        } else {
            None
        }
    } else if has_named(units, "interactive"@) {
        if units.len() > 1 {
            Some(interactive_alone_message())
        } else {
            None
        }
    } else {
        None
    }
}

/// The first rule on combinations that a command sequence breaks: the rules
/// on standalone requests, then the rule that a rename pattern and a
/// template in use exclude each other.
pub open spec fn combination_error(units: Seq<Unit>) -> Option<Seq<char>> {
    match standalone_error(units) {
        Some(e) => Some(e),
        None => if has_named(units, "rename"@) && has_template_flag(units, "use"@) {
            Some(rename_and_template_message())
        } else {
            None
        },
    }
}

fn has_subcommand(subcommands: &[ParsedSubcommand], name: &str) -> (r: bool)
    ensures
        r == has_named(units_of(subcommands@), name@),
{
    let ghost units = units_of(subcommands@);
    let mut i: usize = 0;
    while i < subcommands.len()
        invariant
            i <= subcommands.len(),
            units == units_of(subcommands@),
            forall|j: int| 0 <= j < i ==> (#[trigger] units[j]).name != name@,
        decreases subcommands.len() - i,
    {
        if str_eq(subcommands[i].name.as_str(), name) {
            assert(units[i as int].name == name@);
            return true;
        }
        i += 1;
    }
    false
}

fn has_template_with(subcommands: &[ParsedSubcommand], flag: &str) -> (r: bool)
    ensures
        r == has_template_flag(units_of(subcommands@), flag@),
{
    let ghost units = units_of(subcommands@);
    let mut i: usize = 0;
    while i < subcommands.len()
        invariant
            i <= subcommands.len(),
            units == units_of(subcommands@),
            forall|j: int|
                0 <= j < i ==> !((#[trigger] units[j]).name == "template"@ && units[j].flags.contains_key(
                    flag@,
                )),
        decreases subcommands.len() - i,
    {
        if str_eq(subcommands[i].name.as_str(), "template") && has_flag(&subcommands[i].flags, flag) {
            assert(units[i as int].name == "template"@ && units[i as int].flags.contains_key(flag@));
            return true;
        }
        i += 1;
    }
    false
}

/// Checks the rules on standalone requests.
fn check_standalone(subcommands: &[ParsedSubcommand]) -> (r: Result<(), String>)
    ensures
        match standalone_error(units_of(subcommands@)) {
            Some(e) => r is Err && r->Err_0@ == e,
            None => r is Ok,
        },
{
    let ghost units = units_of(subcommands@);
    if has_template_with(subcommands, "list") {
        if subcommands.len() > 1 {
            return Err(
                String::from_str(
                    "'template --list' cannot be used with other subcommands.\nThe 'template --list' request is standalone and must be used alone.\n\nExamples:\n  fren template --list",
                ),
            );
        }
    } else if has_subcommand(subcommands, "undo") {
        if subcommands.len() > 1 {
            return Err(
                String::from_str(
                    "'undo' cannot be used with other subcommands.\nThe 'undo' subcommand is very important and must be used alone.\n\nExamples:\n  fren undo --check\n  fren undo --apply\n  fren undo --apply --yes",
                ),
            );
        }
        assert(units[0] == subcommands[0]@);
        let has_check = has_flag(&subcommands[0].flags, "check");
        let has_apply = has_flag(&subcommands[0].flags, "apply");
        if has_check && has_apply {
            return Err(
                String::from_str(
                    "Cannot use both 'undo --check' and 'undo --apply' together.\nUse either:\n  - 'undo --check' to check what can be undone\n  - 'undo --apply' to actually perform the undo",
                ),
            );
        }
        if !has_check && !has_apply {
            return Err(
                String::from_str(
                    "'undo' requires either '--check' or '--apply' flag.\nUse:\n  - 'undo --check' to check what can be undone\n  - 'undo --apply' to actually perform the undo",
                ),
            );
        }
    } else if has_subcommand(subcommands, "audit") {
        if subcommands.len() > 1 {
            return Err(
                String::from_str(
                    "'audit' cannot be used with other subcommands.\nThe 'audit' subcommand is standalone and must be used alone.\n\nExamples:\n  fren audit\n  fren audit --limit 10\n  fren audit --json",
                ),
            );
        }
    } else if has_subcommand(subcommands, "interactive") {
        if subcommands.len() > 1 {
            return Err(
                String::from_str(
                    "'interactive' cannot be used with other subcommands.\nThe 'interactive' subcommand is standalone and must be used alone.\n\nExamples:\n  fren interactive",
                ),
            );
        }
    }
    Ok(())
}

/// Checks a command sequence for illegal combinations.
///
/// The rules are looked at in a fixed order and the first one broken gives
/// the error.
pub fn validate_subcommand_combinations(subcommands: &[ParsedSubcommand]) -> (r: Result<
    (),
    String,
>)
    ensures
        match combination_error(units_of(subcommands@)) {
            Some(e) => r is Err && r->Err_0@ == e,
            None => r is Ok,
        },
{
    match check_standalone(subcommands) {
        Err(e) => {
            return Err(e);
        },
        Ok(()) => {},
    }
    if has_subcommand(subcommands, "rename") && has_template_with(subcommands, "use") {
        return Err(
            String::from_str(
                "Cannot use both 'rename' and 'template --use' in the same command.\nUse either:\n  - 'rename <PATTERN>' to specify a pattern directly\n  - 'template --use <NAME|NUMBER>' to use a template pattern",
            ),
        );
    }
    Ok(())
}

/// What a standalone request asks for.
#[derive(Debug, Clone, Copy, PartialEq, Eq)]
pub enum StandaloneAction {
    /// List the templates.
    ListTemplates,
    /// Report what an undo would do.
    UndoCheck,
    /// Undo the last batch; `yes` skips the confirmation.
    UndoApply { yes: bool },
    /// Show the audit log: at most `limit` entries, as JSON where asked.
    Audit { limit: Option<usize>, json: bool },
    /// Run the interactive guide.
    Interactive,
}

/// The limit that an audit unit names: the first value of `--limit` where
/// it is an index.
pub open spec fn audit_limit(u: Unit) -> Option<usize> {
    match first_flag_value(u.flags, "limit"@) {
        Some(text) => parse_index(text),
        None => None,
    }
}

/// The standalone request of a command sequence that breaks no rule on
/// standalone requests, if it holds one.
pub open spec fn standalone_action(units: Seq<Unit>) -> Option<StandaloneAction> {
    if has_template_flag(units, "list"@) {
        Some(StandaloneAction::ListTemplates)
    } else if has_named(units, "undo"@) {
        if units[0].flags.contains_key("check"@) {
            Some(StandaloneAction::UndoCheck)
        } else {
            Some(StandaloneAction::UndoApply { yes: units[0].flags.contains_key("yes"@) })
        }
    } else if has_named(units, "audit"@) {
        Some(
            StandaloneAction::Audit {
                limit: audit_limit(units[0]),
                json: units[0].flags.contains_key("json"@),
            },
        )
    } else if has_named(units, "interactive"@) {
        Some(StandaloneAction::Interactive)
    } else {
        None
    }
}

/// Finds the request that must run alone, if the command sequence holds one.
///
/// A sequence that breaks a rule on standalone requests gives that rule's
/// error. Otherwise the result names the one action to perform, or is `None`
/// where the pipeline is to run.
pub fn handle_standalone_commands(subcommands: &[ParsedSubcommand]) -> (r: Result<
    Option<StandaloneAction>,
    String,
>)
    ensures
        match standalone_error(units_of(subcommands@)) {
            Some(e) => r is Err && r->Err_0@ == e,
            None => r == Ok::<Option<StandaloneAction>, String>(
                standalone_action(units_of(subcommands@)),
            ),
        },
{
    let ghost units = units_of(subcommands@);
    match check_standalone(subcommands) {
        Err(e) => {
            return Err(e);
        },
        Ok(()) => {},
    }
    if has_template_with(subcommands, "list") {
        Ok(Some(StandaloneAction::ListTemplates))
    } else if has_subcommand(subcommands, "undo") {
        assert(units[0] == subcommands[0]@);
        if has_flag(&subcommands[0].flags, "check") {
            Ok(Some(StandaloneAction::UndoCheck))
        } else {
            Ok(Some(StandaloneAction::UndoApply { yes: has_flag(&subcommands[0].flags, "yes") }))
        }
    } else if has_subcommand(subcommands, "audit") {
        assert(units[0] == subcommands[0]@);
        let limit = match get_flag_value(&subcommands[0].flags, "limit") {
            Some(text) => parse_usize(text.as_str()),
            None => None,
        };
        Ok(Some(StandaloneAction::Audit { limit, json: has_flag(&subcommands[0].flags, "json") }))
    } else if has_subcommand(subcommands, "interactive") {
        Ok(Some(StandaloneAction::Interactive))
    } else {
        Ok(None)
    }
}

/// The text shown for a template index outside the listing.
pub open spec fn index_out_of_range_message(index: nat, count: nat) -> Seq<char> {
    "Template index "@ + decimal(index) + " out of range (1-"@ + decimal(count) + ")"@
}

/// The text shown for a template name that is not registered.
pub open spec fn unknown_template_message(name: Seq<char>) -> Seq<char> {
    "Unknown template '"@ + name + "'. Use 'template --list' to see all available templates."@
}

/// The pattern that a template request stands for. A request that reads as
/// an index counts from 1 into the listing; any other request is a name.
pub open spec fn resolve_template(
    listing: Seq<(Seq<char>, Seq<char>)>,
    templates: Map<Seq<char>, Seq<char>>,
    request: Seq<char>,
) -> Result<Seq<char>, Seq<char>> {
    match parse_index(request) {
        Some(index) => if index == 0 || index > listing.len() {
            Err(index_out_of_range_message(index as nat, listing.len()))
        } else {
            Ok(listing[index - 1].1)
        },
        None => if templates.contains_key(request) {
            Ok(templates[request])
        } else {
            Err(unknown_template_message(request))
        },
    }
}

/// Resolves a template request, a name or an index from 1 into the listing,
/// to its pattern.
pub fn resolve_template_pattern(template_registry: &TemplateRegistry, template_name: &str) -> (r:
    Result<String, String>)
    ensures
        match resolve_template(template_registry.listing(), template_registry@, template_name@) {
            Ok(pattern) => r is Ok && r->Ok_0@ == pattern,
            Err(e) => r is Err && r->Err_0@ == e,
        },
{
    match parse_usize(template_name) {
        Some(index) => {
            let templates = template_registry.list();
            if index == 0 || index > templates.len() {
                let message = String::from_str("Template index ").concat(
                    decimal_string(index).as_str(),
                ).concat(" out of range (1-").concat(decimal_string(templates.len()).as_str()).concat(
                    ")",
                );
                return Err(message);
            }
            assert(pairs_view(templates@)[index - 1] == template_registry.listing()[index - 1]);
            Ok(templates[index - 1].1.clone())
        },
        None => {
            match template_registry.get(template_name) {
                Some(pattern) => Ok(pattern.clone()),
                None => {
                    let message = String::from_str("Unknown template '").concat(template_name).concat(
                        "'. Use 'template --list' to see all available templates.",
                    );
                    Err(message)
                },
            }
        },
    }
}

/// The pattern to write into the audit log: the rename pattern where one
/// was given, else the pattern of the template in use where it resolves.
pub open spec fn audit_pattern(
    rename_pattern: Option<Seq<char>>,
    template_use: Option<Seq<char>>,
    listing: Seq<(Seq<char>, Seq<char>)>,
    templates: Map<Seq<char>, Seq<char>>,
) -> Option<Seq<char>> {
    match rename_pattern {
        Some(p) => Some(p),
        None => match template_use {
            Some(t) => match resolve_template(listing, templates, t) {
                Ok(p) => Some(p),
                Err(_) => None,
            },
            None => None,
        },
    }
}

/// The pattern for the audit log, from the rename pattern or the template.
pub fn get_audit_pattern(
    rename_pattern: &Option<String>,
    template_use: &Option<String>,
    template_registry: &TemplateRegistry,
) -> (r: Option<String>)
    ensures
        opt_view(r) == audit_pattern(
            opt_view(*rename_pattern),
            opt_view(*template_use),
            template_registry.listing(),
            template_registry@,
        ),
{
    match rename_pattern {
        Some(p) => Some(p.clone()),
        None => match template_use {
            Some(t) => match resolve_template_pattern(template_registry, t.as_str()) {
                Ok(p) => Some(p),
                Err(_) => None,
            },
            None => None,
        },
    }
}

/// Ends the run with an error.
fn stop_with(mut state: PipelineState, kind: ErrorKind, message: String) -> (r: (
    PipelineState,
    PipelineAction,
))
    ensures
        (r.0@, r.1@) == abort(state@, kind, message@),
{
    state.stage = PipelineStage::Aborted;
    state.awaiting = Awaiting::Nothing;
    (state, PipelineAction::Abort(CliError { kind, message }))
}

/// Ends the run with success.
fn stop_done(mut state: PipelineState) -> (r: (PipelineState, PipelineAction))
    ensures
        (r.0@, r.1@) == finish(state@),
{
    state.awaiting = Awaiting::Nothing;
    (state, PipelineAction::Finish)
}

fn unexpected_event(state: PipelineState) -> (r: (PipelineState, PipelineAction))
    ensures
        (r.0@, r.1@) == abort(state@, ErrorKind::PipelineDependency, unexpected_event_message()),
{
    stop_with(
        state,
        ErrorKind::PipelineDependency,
        String::from_str("Internal error: the pipeline received an event it was not waiting for."),
    )
}

fn no_preview(state: PipelineState) -> (r: (PipelineState, PipelineAction))
    ensures
        (r.0@, r.1@) == abort(state@, ErrorKind::PipelineDependency, no_preview_message()),
{
    stop_with(
        state,
        ErrorKind::PipelineDependency,
        String::from_str(
            "No preview available. 'rename' or 'template --use' subcommand is required to generate preview.",
        ),
    )
}

fn start_apply(
    config: &CommandConfig,
    template_registry: &TemplateRegistry,
    full_command: &str,
    mut state: PipelineState,
) -> (r: (PipelineState, PipelineAction))
    ensures
        (r.0@, r.1@) == enter_apply(
            config@,
            template_registry.listing(),
            template_registry@,
            full_command@,
            state@,
        ),
{
    if !config.apply_requested {
        stop_done(state)
    } else if !state.preview_available {
        no_preview(state)
    } else {
        state.preview_available = false;
        state.awaiting = Awaiting::Applied;
        let action = PipelineAction::Apply {
            overwrite: config.apply_overwrite,
            yes: config.apply_yes,
            interactive: config.apply_interactive,
            json: config.apply_json,
            command: String::from_str("fren ").concat(full_command),
            audit_pattern: get_audit_pattern(
                &config.rename_pattern,
                &config.template_use,
                template_registry,
            ),
            enable_audit: !config.apply_no_audit,
        };
        (state, action)
    }
}

fn start_validate(
    config: &CommandConfig,
    template_registry: &TemplateRegistry,
    full_command: &str,
    mut state: PipelineState,
) -> (r: (PipelineState, PipelineAction))
    ensures
        (r.0@, r.1@) == enter_validate(
            config@,
            template_registry.listing(),
            template_registry@,
            full_command@,
            state@,
        ),
{
    if !config.validate_requested {
        start_apply(config, template_registry, full_command, state)
    } else if !state.preview_available {
        no_preview(state)
    } else {
        state.awaiting = Awaiting::Validation;
        let action = PipelineAction::Validate {
            overwrite: config.apply_overwrite,
            skip_invalid: config.validate_skip_invalid,
        };
        (state, action)
    }
}

fn start_preview(
    config: &CommandConfig,
    template_registry: &TemplateRegistry,
    full_command: &str,
    mut state: PipelineState,
) -> (r: (PipelineState, PipelineAction))
    ensures
        (r.0@, r.1@) == enter_preview(
            config@,
            template_registry.listing(),
            template_registry@,
            full_command@,
            state@,
        ),
{
    match &config.rename_pattern {
        Some(pattern) => {
            if state.files.len() == 0 {
                stop_with(
                    state,
                    ErrorKind::PipelineDependency,
                    String::from_str(
                        "No files to process. 'list' subcommand is required to select files.",
                    ),
                )
            } else {
                state.awaiting = Awaiting::Preview;
                let action = PipelineAction::GeneratePreview {
                    files: clone_files(&state.files),
                    pattern: pattern.clone(),
                    json: config.rename_json,
                };
                (state, action)
            }
        },
        None => match &config.template_use {
            Some(request) => {
                if state.files.len() == 0 {
                    stop_with(
                        state,
                        ErrorKind::PipelineDependency,
                        String::from_str("'template --use' requires 'list' subcommand to select files."),
                    )
                } else {
                    match resolve_template_pattern(template_registry, request.as_str()) {
                        Ok(pattern) => {
                            state.awaiting = Awaiting::Preview;
                            let action = PipelineAction::GeneratePreview {
                                files: clone_files(&state.files),
                                pattern,
                                json: config.rename_json,
                            };
                            (state, action)
                        },
                        Err(e) => stop_with(state, ErrorKind::Collaborator, e),
                    }
                }
            },
            None => start_validate(config, template_registry, full_command, state),
        },
    }
}

fn resolved(
    config: &CommandConfig,
    template_registry: &TemplateRegistry,
    full_command: &str,
    mut state: PipelineState,
    files: Vec<FileEntry>,
) -> (r: (PipelineState, PipelineAction))
    ensures
        (r.0@, r.1@) == after_resolve(
            config@,
            template_registry.listing(),
            template_registry@,
            full_command@,
            state@,
            files.deep_view(),
        ),
{
    state.stage = PipelineStage::FilesResolved;
    if config.rename_pattern.is_some() || config.template_use.is_some() || config.validate_requested
        || config.apply_requested {
        state.files = files;
        start_preview(config, template_registry, full_command, state)
    } else {
        state.files = clone_files(&files);
        state.awaiting = Awaiting::Shown;
        let action = PipelineAction::ShowFiles {
            files,
            fullpath: config.list_fullpath,
            json: config.list_json,
        };
        (state, action)
    }
}

fn start_run(
    config: &CommandConfig,
    template_registry: &TemplateRegistry,
    full_command: &str,
    mut state: PipelineState,
) -> (r: (PipelineState, PipelineAction))
    ensures
        (r.0@, r.1@) == begin(
            config@,
            template_registry.listing(),
            template_registry@,
            full_command@,
            state@,
        ),
{
    match &config.list_files_from {
        Some(source) => {
            state.awaiting = Awaiting::Files;
            (state, PipelineAction::ResolveFiles(FileSource::PathList { source: source.clone() }))
        },
        None => match &config.list_patterns {
            Some(patterns) => {
                state.awaiting = Awaiting::Files;
                (
                    state,
                    PipelineAction::ResolveFiles(
                        FileSource::Patterns {
                            patterns: clone_strings(patterns),
                            recursive: config.list_recursive,
                        },
                    ),
                )
            },
            None => start_preview(config, template_registry, full_command, state),
        },
    }
}

/// Runs the pipeline by one step: takes the event that came of the last
/// action and names the next action.
///
/// The caller starts with a new state and the event `Start`, performs each
/// action that comes back and reports its outcome as the next event, until
/// the action is `Finish` or `Abort`. The stages run in the order resolve,
/// preview, validate, apply, whatever the order of the subcommands was.
pub fn execute_command_pipeline(
    config: &CommandConfig,
    template_registry: &TemplateRegistry,
    full_command: &str,
    state: PipelineState,
    event: PipelineEvent,
) -> (r: (PipelineState, PipelineAction))
    ensures
        (r.0@, r.1@) == step(
            config@,
            template_registry.listing(),
            template_registry@,
            full_command@,
            state@,
            event@,
        ),
{
    let mut state = state;
    match event {
        PipelineEvent::Start => {
            if state.awaiting == Awaiting::Start {
                start_run(config, template_registry, full_command, state)
            } else {
                unexpected_event(state)
            }
        },
        PipelineEvent::FilesFound(groups) => {
            if state.awaiting == Awaiting::Files {
                let files = find_files(&groups, &config.list_exclude);
                resolved(config, template_registry, full_command, state, files)
            } else {
                unexpected_event(state)
            }
        },
        PipelineEvent::FilesShown => {
            if state.awaiting == Awaiting::Shown {
                stop_done(state)
            } else {
                unexpected_event(state)
            }
        },
        PipelineEvent::PreviewReady { has_empty_names } => {
            if state.awaiting == Awaiting::Preview {
                if has_empty_names {
                    stop_with(
                        state,
                        ErrorKind::Stage,
                        String::from_str(
                            "ERROR: One or more files would have an empty name. Operation aborted.\nPlease check your pattern and ensure it generates valid filenames.",
                        ),
                    )
                } else {
                    state.stage = PipelineStage::PreviewComputed;
                    state.preview_available = true;
                    start_validate(config, template_registry, full_command, state)
                }
            } else {
                unexpected_event(state)
            }
        },
        PipelineEvent::ValidationDone { issues } => {
            if state.awaiting == Awaiting::Validation {
                if issues > 0 && !config.validate_skip_invalid {
                    stop_with(
                        state,
                        ErrorKind::Stage,
                        String::from_str(
                            "Validation failed. Use --skip-invalid to continue despite issues.",
                        ),
                    )
                } else {
                    state.stage = PipelineStage::Validated;
                    start_apply(config, template_registry, full_command, state)
                }
            } else {
                unexpected_event(state)
            }
        },
        PipelineEvent::ApplyDone => {
            if state.awaiting == Awaiting::Applied {
                state.stage = PipelineStage::Applied;
                stop_done(state)
            } else {
                unexpected_event(state)
            }
        },
        PipelineEvent::Failed(text) => {
            if state.awaiting == Awaiting::Start || state.awaiting == Awaiting::Nothing {
                unexpected_event(state)
            } else {
                let message = if state.awaiting == Awaiting::Files {
                    String::from_str("Error finding files: ").concat(text.as_str())
                } else {
                    String::from_str("Error: ").concat(text.as_str())
                };
                stop_with(state, ErrorKind::Collaborator, message)
            }
        },
    }
}

/// Whether a unit is a request that must stand alone: an undo, an audit,
/// the interactive guide, or a template unit that asks for the listing.
pub open spec fn is_standalone_unit(u: Unit) -> bool {
    u.name == "undo"@ || u.name == "audit"@ || u.name == "interactive"@ || (u.name == "template"@
        && u.flags.contains_key("list"@))
}

/// A command sequence that holds a standalone request and at least one
/// other unit breaks a rule on combinations.
pub proof fn lemma_standalone_excludes_others(units: Seq<Unit>, i: int)
    requires
        0 <= i < units.len(),
        is_standalone_unit(units[i]),
        units.len() >= 2,
    ensures
        standalone_error(units) is Some,
        combination_error(units) is Some,
{
    if units[i].name == "template"@ && units[i].flags.contains_key("list"@) {
        assert(has_template_flag(units, "list"@));
    } else if units[i].name == "undo"@ {
        assert(has_named(units, "undo"@));
    } else if units[i].name == "audit"@ {
        assert(has_named(units, "audit"@));
    } else {
        assert(has_named(units, "interactive"@));
    }
}

/// A command sequence with a rename unit and a template unit that names a
/// template to use breaks a rule on combinations. Where no rule on
/// standalone requests is broken, the error is the one that names both.
pub proof fn lemma_rename_excludes_template_use(units: Seq<Unit>, i: int, j: int)
    requires
        0 <= i < units.len(),
        0 <= j < units.len(),
        units[i].name == "rename"@,
        units[j].name == "template"@,
        units[j].flags.contains_key("use"@),
    ensures
        combination_error(units) is Some,
        standalone_error(units) is None ==> combination_error(units) == Some(
            rename_and_template_message(),
        ),
{
    assert(has_named(units, "rename"@));
    assert(has_template_flag(units, "use"@));
}

/// A template request that reads as an index resolves only within the
/// listing, counted from 1: index 0 and any index beyond the last entry give
/// the out-of-range error. A request that is no index and no registered
/// name gives the unknown-template error, which points to the listing.
pub proof fn lemma_template_resolution_bounds(
    listing: Seq<(Seq<char>, Seq<char>)>,
    templates: Map<Seq<char>, Seq<char>>,
    request: Seq<char>,
)
    ensures
        parse_index(request) is Some && (parse_index(request)->Some_0 == 0 || parse_index(
            request,
        )->Some_0 > listing.len()) ==> resolve_template(listing, templates, request) == Err::<
            Seq<char>,
            Seq<char>,
        >(index_out_of_range_message(parse_index(request)->Some_0 as nat, listing.len())),
        parse_index(request) is Some && 1 <= parse_index(request)->Some_0 <= listing.len()
            ==> resolve_template(listing, templates, request) == Ok::<Seq<char>, Seq<char>>(
            listing[parse_index(request)->Some_0 - 1].1,
        ),
        parse_index(request) is None && !templates.contains_key(request) ==> resolve_template(
            listing,
            templates,
            request,
        ) == Err::<Seq<char>, Seq<char>>(unknown_template_message(request)),
        contains_text(unknown_template_message(request), "template --list"@),
{
    let tail = "'. Use 'template --list' to see all available templates."@;
    let head = "Unknown template '"@ + request;
    reveal_strlit("'. Use 'template --list' to see all available templates.");
    reveal_strlit("template --list");
    let at: int = (head.len() + 8) as int;
    assert(tail.subrange(8, 23) =~= "template --list"@);
    assert((head + tail).subrange(at, at + 15) =~= tail.subrange(8, 23));
    assert(occurs_at(unknown_template_message(request), "template --list"@, at));
}

/// The units of one keyword, in their order.
pub open spec fn units_named(units: Seq<Unit>, name: Seq<char>) -> Seq<Unit>
    decreases units.len(),
{
    if units.len() == 0 {
        Seq::empty()
    } else {
        let before = units_named(units.drop_last(), name);
        if units.last().name == name {
            before.push(units.last())
        } else {
            before
        }
    }
}

/// Whether two command sequences hold, for each keyword that the
/// configuration reads, the same units in the same order. One is then the
/// other with its blocks in another order, the blocks of one keyword
/// keeping their order among themselves.
pub open spec fn same_units_by_keyword(a: Seq<Unit>, b: Seq<Unit>) -> bool {
    &&& units_named(a, "list"@) == units_named(b, "list"@)
    &&& units_named(a, "rename"@) == units_named(b, "rename"@)
    &&& units_named(a, "template"@) == units_named(b, "template"@)
    &&& units_named(a, "validate"@) == units_named(b, "validate"@)
    &&& units_named(a, "apply"@) == units_named(b, "apply"@)
}

/// The configuration that takes the fields of each subcommand from the
/// configuration given for it.
pub open spec fn merged_config(
    list: Config,
    rename: Config,
    template: Config,
    validate: Config,
    apply: Config,
) -> Config {
    Config {
        list_patterns: list.list_patterns,
        list_files_from: list.list_files_from,
        list_recursive: list.list_recursive,
        list_exclude: list.list_exclude,
        list_fullpath: list.list_fullpath,
        list_json: list.list_json,
        rename_pattern: rename.rename_pattern,
        rename_json: rename.rename_json,
        template_use: template.template_use,
        validate_requested: validate.validate_requested,
        validate_skip_invalid: validate.validate_skip_invalid,
        apply_requested: apply.apply_requested,
        apply_overwrite: apply.apply_overwrite,
        apply_yes: apply.apply_yes,
        apply_interactive: apply.apply_interactive,
        apply_json: apply.apply_json,
        apply_no_audit: apply.apply_no_audit,
    }
}

proof fn lemma_fold_push(units: Seq<Unit>, u: Unit)
    ensures
        fold_units(units.push(u)) == with_unit(fold_units(units), u),
        first_unit_error(units.push(u)) == match first_unit_error(units) {
            Some(e) => Some(e),
            None => unit_error(u),
        },
{
    assert(units.push(u).drop_last() =~= units);
}

/// The units of keyword `name` after one more unit `u` of keyword `other`.
proof fn lemma_named_push(units: Seq<Unit>, name: Seq<char>)
    requires
        units.len() > 0,
    ensures
        units.last().name == name ==> units_named(units, name) == units_named(
            units.drop_last(),
            name,
        ).push(units.last()),
        units.last().name != name ==> units_named(units, name) == units_named(units.drop_last(), name),
{
}

/// A unit changes only the part of a merged configuration that belongs to
/// its own subcommand.
proof fn lemma_with_unit_merged(l: Config, r: Config, t: Config, v: Config, a: Config, u: Unit)
    ensures
        u.name == "list"@ ==> with_unit(merged_config(l, r, t, v, a), u) == merged_config(
            with_unit(l, u),
            r,
            t,
            v,
            a,
        ),
        u.name == "rename"@ ==> with_unit(merged_config(l, r, t, v, a), u) == merged_config(
            l,
            with_unit(r, u),
            t,
            v,
            a,
        ),
        u.name == "template"@ ==> with_unit(merged_config(l, r, t, v, a), u) == merged_config(
            l,
            r,
            with_unit(t, u),
            v,
            a,
        ),
        u.name == "validate"@ ==> with_unit(merged_config(l, r, t, v, a), u) == merged_config(
            l,
            r,
            t,
            with_unit(v, u),
            a,
        ),
        u.name == "apply"@ ==> with_unit(merged_config(l, r, t, v, a), u) == merged_config(
            l,
            r,
            t,
            v,
            with_unit(a, u),
        ),
        u.name != "list"@ && u.name != "rename"@ && u.name != "template"@ && u.name != "validate"@
            && u.name != "apply"@ ==> with_unit(merged_config(l, r, t, v, a), u) == merged_config(
            l,
            r,
            t,
            v,
            a,
        ),
{
    lemma_keywords_distinct();
}

/// The configuration of a command sequence takes the fields of each
/// subcommand from the units of that subcommand alone.
proof fn lemma_fold_by_keyword(units: Seq<Unit>)
    ensures
        fold_units(units) == merged_config(
            fold_units(units_named(units, "list"@)),
            fold_units(units_named(units, "rename"@)),
            fold_units(units_named(units, "template"@)),
            fold_units(units_named(units, "validate"@)),
            fold_units(units_named(units, "apply"@)),
        ),
    decreases units.len(),
{
    if units.len() > 0 {
        let init = units.drop_last();
        let u = units.last();
        lemma_fold_by_keyword(init);
        lemma_named_push(units, "list"@);
        lemma_named_push(units, "rename"@);
        lemma_named_push(units, "template"@);
        lemma_named_push(units, "validate"@);
        lemma_named_push(units, "apply"@);
        let l = units_named(init, "list"@);
        let r = units_named(init, "rename"@);
        let t = units_named(init, "template"@);
        let v = units_named(init, "validate"@);
        let a = units_named(init, "apply"@);
        lemma_with_unit_merged(fold_units(l), fold_units(r), fold_units(t), fold_units(v), fold_units(a), u);
        lemma_fold_push(l, u);
        lemma_fold_push(r, u);
        lemma_fold_push(t, u);
        lemma_fold_push(v, u);
        lemma_fold_push(a, u);
        lemma_keywords_distinct();
    } else {
        assert(units_named(units, "list"@) =~= Seq::<Unit>::empty());
    }
}

/// A command sequence is free of errors exactly if its file-selection
/// units and its rename units are.
proof fn lemma_errors_by_keyword(units: Seq<Unit>)
    ensures
        first_unit_error(units) is None <==> first_unit_error(units_named(units, "list"@)) is None
            && first_unit_error(units_named(units, "rename"@)) is None,
    decreases units.len(),
{
    if units.len() > 0 {
        let init = units.drop_last();
        let u = units.last();
        lemma_errors_by_keyword(init);
        lemma_keywords_distinct();
        lemma_named_push(units, "list"@);
        lemma_named_push(units, "rename"@);
        if u.name == "list"@ {
            lemma_fold_push(units_named(init, "list"@), u);
        } else if u.name == "rename"@ {
            lemma_fold_push(units_named(init, "rename"@), u);
        } else {
            assert(unit_error(u) is None);
        }
    }
}

/// The order of the blocks does not matter to the configuration: two
/// command sequences that hold the same units of each keyword, those of one
/// keyword in the same order, are both accepted or both refused, and where
/// accepted they give the same configuration. Only among the units of one
/// keyword does the order count, the later one winning.
pub proof fn lemma_order_independence(a: Seq<Unit>, b: Seq<Unit>)
    requires
        same_units_by_keyword(a, b),
    ensures
        extract(a) is Ok <==> extract(b) is Ok,
        extract(a) is Ok ==> extract(a) == extract(b),
{
    lemma_fold_by_keyword(a);
    lemma_fold_by_keyword(b);
    lemma_errors_by_keyword(a);
    lemma_errors_by_keyword(b);
}

proof fn lemma_units_named_concat(a: Seq<Unit>, b: Seq<Unit>, name: Seq<char>)
    ensures
        units_named(a + b, name) == units_named(a, name) + units_named(b, name),
    decreases b.len(),
{
    if b.len() == 0 {
        assert(a + b =~= a);
        assert(units_named(a, name) + units_named(b, name) =~= units_named(a, name));
    } else {
        lemma_units_named_concat(a, b.drop_last(), name);
        assert((a + b).drop_last() =~= a + b.drop_last());
        assert((a + b).last() == b.last());
        if b.last().name == name {
            assert((units_named(a, name) + units_named(b.drop_last(), name)).push(b.last())
                =~= units_named(a, name) + units_named(b.drop_last(), name).push(b.last()));
        }
    }
}

proof fn lemma_units_named_absent(b: Seq<Unit>, name: Seq<char>)
    requires
        !has_named(b, name),
    ensures
        units_named(b, name) == Seq::<Unit>::empty(),
    decreases b.len(),
{
    if b.len() > 0 {
        assert(b[b.len() - 1].name != name);
        assert(!has_named(b.drop_last(), name)) by {
            if has_named(b.drop_last(), name) {
                let i = choose|i: int| 0 <= i < b.drop_last().len() && (#[trigger] b.drop_last()[i]).name == name;
                assert(b[i].name == name);
            }
        }
        lemma_units_named_absent(b.drop_last(), name);
    }
}

proof fn lemma_swap_named(
    before: Seq<Unit>,
    a: Seq<Unit>,
    b: Seq<Unit>,
    after: Seq<Unit>,
    name: Seq<char>,
)
    requires
        !has_named(a, name) || !has_named(b, name),
    ensures
        units_named(before + a + b + after, name) == units_named(before + b + a + after, name),
{
    lemma_units_named_concat(before + a + b, after, name);
    lemma_units_named_concat(before + a, b, name);
    lemma_units_named_concat(before, a, name);
    lemma_units_named_concat(before + b + a, after, name);
    lemma_units_named_concat(before + b, a, name);
    lemma_units_named_concat(before, b, name);
    let pa = units_named(a, name);
    let pb = units_named(b, name);
    if !has_named(a, name) {
        lemma_units_named_absent(a, name);
    } else {
        lemma_units_named_absent(b, name);
    }
    assert(units_named(before, name) + pa + pb =~= units_named(before, name) + pb + pa);
}

/// Whether no keyword names a unit in both sequences.
pub open spec fn share_no_keyword(a: Seq<Unit>, b: Seq<Unit>) -> bool {
    forall|name: Seq<char>| !(#[trigger] has_named(a, name) && has_named(b, name))
}

/// Two runs of units that stand side by side and share no keyword may
/// change places: the command sequence is accepted or refused as before,
/// and where accepted it gives the same configuration.
pub proof fn lemma_blocks_commute(before: Seq<Unit>, a: Seq<Unit>, b: Seq<Unit>, after: Seq<Unit>)
    requires
        share_no_keyword(a, b),
    ensures
        same_units_by_keyword(before + a + b + after, before + b + a + after),
        extract(before + a + b + after) is Ok <==> extract(before + b + a + after) is Ok,
        extract(before + a + b + after) is Ok ==> extract(before + a + b + after) == extract(
            before + b + a + after,
        ),
{
    assert(!(has_named(a, "list"@) && has_named(b, "list"@)));
    assert(!(has_named(a, "rename"@) && has_named(b, "rename"@)));
    assert(!(has_named(a, "template"@) && has_named(b, "template"@)));
    assert(!(has_named(a, "validate"@) && has_named(b, "validate"@)));
    assert(!(has_named(a, "apply"@) && has_named(b, "apply"@)));
    lemma_swap_named(before, a, b, after, "list"@);
    lemma_swap_named(before, a, b, after, "rename"@);
    lemma_swap_named(before, a, b, after, "template"@);
    lemma_swap_named(before, a, b, after, "validate"@);
    lemma_swap_named(before, a, b, after, "apply"@);
    lemma_order_independence(before + a + b + after, before + b + a + after);
}

} // verus!
