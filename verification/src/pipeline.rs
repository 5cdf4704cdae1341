//! The pipeline as a state machine.
//!
//! The stages run in a fixed order: resolve the files, compute the preview,
//! validate, apply. Each stage runs only where the configuration asks for
//! it. The work of a stage is done outside: the machine names the action to
//! perform, and the outcome comes back as an event.

use vstd::prelude::*;
use vstd::string::*;
use crate::error::{CliError, ErrorKind, ErrorModel};
use crate::executor::{audit_pattern, resolve_template, Config};
use crate::list::{select_files, FileEntry, FileModel};
use crate::text::opt_view;

verus! {

/// How far the run has come.
#[derive(Debug, Clone, Copy, PartialEq, Eq, Structural)]
pub enum PipelineStage {
    Idle,
    FilesResolved,
    PreviewComputed,
    Validated,
    Applied,
    Aborted,
}

/// The event that the machine waits for.
#[derive(Debug, Clone, Copy, PartialEq, Eq, Structural)]
pub enum Awaiting {
    /// The run has not begun.
    Start,
    /// The files are being resolved.
    Files,
    /// The file set is being shown.
    Shown,
    /// The preview is being computed.
    Preview,
    /// The preview is being validated.
    Validation,
    /// The preview is being applied.
    Applied,
    /// The run is over.
    Nothing,
}

/// The state of one run. The preview itself is held by the caller: the
/// state records whether it is there to be used.
#[derive(Debug)]
pub struct PipelineState {
    pub stage: PipelineStage,
    pub awaiting: Awaiting,
    pub files: Vec<FileEntry>,
    pub preview_available: bool,
}

/// What a state is, in the terms of the contracts.
pub struct StateModel {
    pub stage: PipelineStage,
    pub awaiting: Awaiting,
    pub files: Seq<FileModel>,
    pub preview_available: bool,
}

impl View for PipelineState {
    type V = StateModel;

    open spec fn view(&self) -> StateModel {
        StateModel {
            stage: self.stage,
            awaiting: self.awaiting,
            files: self.files.deep_view(),
            preview_available: self.preview_available,
        }
    }
}

/// The state before the run begins.
pub open spec fn initial_state() -> StateModel {
    StateModel {
        stage: PipelineStage::Idle,
        awaiting: Awaiting::Start,
        files: Seq::empty(),
        preview_available: false,
    }
}

impl PipelineState {
    /// The state before the run begins.
    pub fn new() -> (r: PipelineState)
        ensures
            r@ == initial_state(),
    {
        let files: Vec<FileEntry> = Vec::new();
        assert(files.deep_view() =~= Seq::<FileModel>::empty());
        PipelineState {
            stage: PipelineStage::Idle,
            awaiting: Awaiting::Start,
            files,
            preview_available: false,
        }
    }
}

/// Where the files come from.
#[derive(Debug)]
pub enum FileSource {
    /// Discover the files of each pattern.
    Patterns { patterns: Vec<String>, recursive: bool },
    /// Read the paths from a file, or from standard input for `-`.
    PathList { source: String },
}

/// What a file source is, in the terms of the contracts.
pub enum FileSourceModel {
    Patterns { patterns: Seq<Seq<char>>, recursive: bool },
    PathList { source: Seq<char> },
}

impl View for FileSource {
    type V = FileSourceModel;

    open spec fn view(&self) -> FileSourceModel {
        match self {
            FileSource::Patterns { patterns, recursive } => FileSourceModel::Patterns {
                patterns: patterns.deep_view(),
                recursive: *recursive,
            },
            FileSource::PathList { source } => FileSourceModel::PathList { source: source@ },
        }
    }
}

/// What the caller is to do next.
#[derive(Debug)]
pub enum PipelineAction {
    /// Find the files and report them, one group for each pattern.
    ResolveFiles(FileSource),
    /// Show the file set.
    ShowFiles { files: Vec<FileEntry>, fullpath: bool, json: bool },
    /// Compute and show the preview of the files under the pattern.
    GeneratePreview { files: Vec<FileEntry>, pattern: String, json: bool },
    /// Validate the preview and show the result.
    Validate { overwrite: bool, skip_invalid: bool },
    /// Apply the preview, which is used up by it.
    Apply {
        overwrite: bool,
        yes: bool,
        interactive: bool,
        json: bool,
        command: String,
        audit_pattern: Option<String>,
        enable_audit: bool,
    },
    /// End the run with success.
    Finish,
    /// End the run with this error.
    Abort(CliError),
}

/// What an action is, in the terms of the contracts.
pub enum ActionModel {
    ResolveFiles(FileSourceModel),
    ShowFiles { files: Seq<FileModel>, fullpath: bool, json: bool },
    GeneratePreview { files: Seq<FileModel>, pattern: Seq<char>, json: bool },
    Validate { overwrite: bool, skip_invalid: bool },
    Apply {
        overwrite: bool,
        yes: bool,
        interactive: bool,
        json: bool,
        command: Seq<char>,
        audit_pattern: Option<Seq<char>>,
        enable_audit: bool,
    },
    Finish,
    Abort(ErrorModel),
}

impl View for PipelineAction {
    type V = ActionModel;

    open spec fn view(&self) -> ActionModel {
        match self {
            PipelineAction::ResolveFiles(source) => ActionModel::ResolveFiles(source@),
            PipelineAction::ShowFiles { files, fullpath, json } => ActionModel::ShowFiles {
                files: files.deep_view(),
                fullpath: *fullpath,
                json: *json,
            },
            PipelineAction::GeneratePreview { files, pattern, json } => ActionModel::GeneratePreview {
                files: files.deep_view(),
                pattern: pattern@,
                json: *json,
            },
            PipelineAction::Validate { overwrite, skip_invalid } => ActionModel::Validate {
                overwrite: *overwrite,
                skip_invalid: *skip_invalid,
            },
            PipelineAction::Apply {
                overwrite,
                yes,
                interactive,
                json,
                command,
                audit_pattern,
                enable_audit,
            } => ActionModel::Apply {
                overwrite: *overwrite,
                yes: *yes,
                interactive: *interactive,
                json: *json,
                command: command@,
                audit_pattern: opt_view(*audit_pattern),
                enable_audit: *enable_audit,
            },
            PipelineAction::Finish => ActionModel::Finish,
            PipelineAction::Abort(e) => ActionModel::Abort(e@),
        }
    }
}

/// What came of the last action.
#[derive(Debug)]
pub enum PipelineEvent {
    /// The run begins.
    Start,
    /// The files found, one group for each pattern in the order of the
    /// patterns, or one group with the files of the path list.
    FilesFound(Vec<Vec<FileEntry>>),
    /// The file set was shown.
    FilesShown,
    /// The preview was computed and shown.
    PreviewReady { has_empty_names: bool },
    /// The preview was validated, with this many issues.
    ValidationDone { issues: usize },
    /// The preview was applied.
    ApplyDone,
    /// The action failed, with this text.
    Failed(String),
}

/// What an event is, in the terms of the contracts.
pub enum EventModel {
    Start,
    FilesFound(Seq<Seq<FileModel>>),
    FilesShown,
    PreviewReady { has_empty_names: bool },
    ValidationDone { issues: usize },
    ApplyDone,
    Failed(Seq<char>),
}

impl View for PipelineEvent {
    type V = EventModel;

    open spec fn view(&self) -> EventModel {
        match self {
            PipelineEvent::Start => EventModel::Start,
            PipelineEvent::FilesFound(groups) => EventModel::FilesFound(groups.deep_view()),
            PipelineEvent::FilesShown => EventModel::FilesShown,
            PipelineEvent::PreviewReady { has_empty_names } => EventModel::PreviewReady {
                has_empty_names: *has_empty_names,
            },
            PipelineEvent::ValidationDone { issues } => EventModel::ValidationDone { issues: *issues },
            PipelineEvent::ApplyDone => EventModel::ApplyDone,
            PipelineEvent::Failed(text) => EventModel::Failed(text@),
        }
    }
}

/// The text shown where a rename pattern has no files to work on.
pub open spec fn no_files_for_rename_message() -> Seq<char> {
    "No files to process. 'list' subcommand is required to select files."@
}

/// The text shown where a template in use has no files to work on.
pub open spec fn no_files_for_template_message() -> Seq<char> {
    "'template --use' requires 'list' subcommand to select files."@
}

/// The text shown where a stage is asked for without a preview.
pub open spec fn no_preview_message() -> Seq<char> {
    "No preview available. 'rename' or 'template --use' subcommand is required to generate preview."@
}

/// The text shown where the preview holds an empty name.
pub open spec fn empty_name_message() -> Seq<char> {
    "ERROR: One or more files would have an empty name. Operation aborted.\nPlease check your pattern and ensure it generates valid filenames."@
}

/// The text shown where validation found issues that are not skipped.
pub open spec fn validation_failed_message() -> Seq<char> {
    "Validation failed. Use --skip-invalid to continue despite issues."@
}

/// The text shown where an event comes out of turn.
pub open spec fn unexpected_event_message() -> Seq<char> {
    "Internal error: the pipeline received an event it was not waiting for."@
}

/// The text shown where a collaborator fails: the stage, then its words.
pub open spec fn failure_message(awaiting: Awaiting, text: Seq<char>) -> Seq<char> {
    if awaiting == Awaiting::Files {
        "Error finding files: "@ + text
    } else {
        "Error: "@ + text
    }
}

/// The run ends with an error.
pub open spec fn abort(s: StateModel, kind: ErrorKind, message: Seq<char>) -> (StateModel, ActionModel) {
    (
        StateModel { stage: PipelineStage::Aborted, awaiting: Awaiting::Nothing, ..s },
        ActionModel::Abort(ErrorModel { kind, message }),
    )
}

/// The run ends with success.
pub open spec fn finish(s: StateModel) -> (StateModel, ActionModel) {
    (StateModel { awaiting: Awaiting::Nothing, ..s }, ActionModel::Finish)
}

/// Where the configuration takes the files from: a path list where one is
/// named, else the patterns, else nowhere.
pub open spec fn file_source(c: Config) -> Option<FileSourceModel> {
    match c.list_files_from {
        Some(source) => Some(FileSourceModel::PathList { source }),
        None => match c.list_patterns {
            Some(patterns) => Some(FileSourceModel::Patterns { patterns, recursive: c.list_recursive }),
            None => None,
        },
    }
}

/// Whether a later stage will use the file set.
pub open spec fn files_are_used(c: Config) -> bool {
    c.rename_pattern is Some || c.template_use is Some || c.validate_requested || c.apply_requested
}

/// The apply stage: it needs the preview, and takes it.
pub open spec fn enter_apply(
    c: Config,
    listing: Seq<(Seq<char>, Seq<char>)>,
    templates: Map<Seq<char>, Seq<char>>,
    command: Seq<char>,
    s: StateModel,
) -> (StateModel, ActionModel) {
    if !c.apply_requested {
        finish(s)
    } else if !s.preview_available {
        abort(s, ErrorKind::PipelineDependency, no_preview_message())
    } else {
        (
            StateModel { preview_available: false, awaiting: Awaiting::Applied, ..s },
            ActionModel::Apply {
                overwrite: c.apply_overwrite,
                yes: c.apply_yes,
                interactive: c.apply_interactive,
                json: c.apply_json,
                command: "fren "@ + command,
                audit_pattern: audit_pattern(c.rename_pattern, c.template_use, listing, templates),
                enable_audit: !c.apply_no_audit,
            },
        )
    }
}

/// The validate stage: it needs the preview, and leaves it.
pub open spec fn enter_validate(
    c: Config,
    listing: Seq<(Seq<char>, Seq<char>)>,
    templates: Map<Seq<char>, Seq<char>>,
    command: Seq<char>,
    s: StateModel,
) -> (StateModel, ActionModel) {
    if !c.validate_requested {
        enter_apply(c, listing, templates, command, s)
    } else if !s.preview_available {
        abort(s, ErrorKind::PipelineDependency, no_preview_message())
    } else {
        (
            StateModel { awaiting: Awaiting::Validation, ..s },
            ActionModel::Validate { overwrite: c.apply_overwrite, skip_invalid: c.validate_skip_invalid },
        )
    }
}

/// The preview stage: it needs files, and a pattern given directly or by a
/// template.
pub open spec fn enter_preview(
    c: Config,
    listing: Seq<(Seq<char>, Seq<char>)>,
    templates: Map<Seq<char>, Seq<char>>,
    command: Seq<char>,
    s: StateModel,
) -> (StateModel, ActionModel) {
    match c.rename_pattern {
        Some(pattern) => if s.files.len() == 0 {
            abort(s, ErrorKind::PipelineDependency, no_files_for_rename_message())
        } else {
            (
                StateModel { awaiting: Awaiting::Preview, ..s },
                ActionModel::GeneratePreview { files: s.files, pattern, json: c.rename_json },
            )
        },
        None => match c.template_use {
            Some(request) => if s.files.len() == 0 {
                abort(s, ErrorKind::PipelineDependency, no_files_for_template_message())
            } else {
                match resolve_template(listing, templates, request) {
                    Ok(pattern) => (
                        StateModel { awaiting: Awaiting::Preview, ..s },
                        ActionModel::GeneratePreview { files: s.files, pattern, json: c.rename_json },
                    ),
                    Err(e) => abort(s, ErrorKind::Collaborator, e),
                }
            },
            None => enter_validate(c, listing, templates, command, s),
        },
    }
}

/// The files are resolved: they are shown where no later stage uses them,
/// else the preview stage is next.
pub open spec fn after_resolve(
    c: Config,
    listing: Seq<(Seq<char>, Seq<char>)>,
    templates: Map<Seq<char>, Seq<char>>,
    command: Seq<char>,
    s: StateModel,
    files: Seq<FileModel>,
) -> (StateModel, ActionModel) {
    let resolved = StateModel { stage: PipelineStage::FilesResolved, files, ..s };
    if files_are_used(c) {
        enter_preview(c, listing, templates, command, resolved)
    } else {
        (
            StateModel { awaiting: Awaiting::Shown, ..resolved },
            ActionModel::ShowFiles { files, fullpath: c.list_fullpath, json: c.list_json },
        )
    }
}

/// The run begins: with the resolve stage where files are selected, else
/// with the preview stage.
pub open spec fn begin(
    c: Config,
    listing: Seq<(Seq<char>, Seq<char>)>,
    templates: Map<Seq<char>, Seq<char>>,
    command: Seq<char>,
    s: StateModel,
) -> (StateModel, ActionModel) {
    match file_source(c) {
        Some(source) => (StateModel { awaiting: Awaiting::Files, ..s }, ActionModel::ResolveFiles(source)),
        None => enter_preview(c, listing, templates, command, s),
    }
}

/// One step of the pipeline: from the state and the event that came in to
/// the next state and the next action.
///
/// An event that the state does not wait for ends the run. A failure of
/// the action under way ends the run with the failure's text behind the
/// name of the stage. A preview with an empty name ends the run, and so do
/// validation issues unless they are to be skipped.
pub open spec fn step(
    c: Config,
    listing: Seq<(Seq<char>, Seq<char>)>,
    templates: Map<Seq<char>, Seq<char>>,
    command: Seq<char>,
    s: StateModel,
    e: EventModel,
) -> (StateModel, ActionModel) {
    match e {
        EventModel::Start => if s.awaiting == Awaiting::Start {
            begin(c, listing, templates, command, s)
        } else {
            abort(s, ErrorKind::PipelineDependency, unexpected_event_message())
        },
        EventModel::FilesFound(groups) => if s.awaiting == Awaiting::Files {
            after_resolve(c, listing, templates, command, s, select_files(groups, c.list_exclude))
        } else {
            abort(s, ErrorKind::PipelineDependency, unexpected_event_message())
        },
        EventModel::FilesShown => if s.awaiting == Awaiting::Shown {
            finish(s)
        } else {
            abort(s, ErrorKind::PipelineDependency, unexpected_event_message())
        },
        EventModel::PreviewReady { has_empty_names } => if s.awaiting == Awaiting::Preview {
            if has_empty_names {
                abort(s, ErrorKind::Stage, empty_name_message())
            } else {
                enter_validate(
                    c,
                    listing,
                    templates,
                    command,
                    StateModel { stage: PipelineStage::PreviewComputed, preview_available: true, ..s },
                )
            }
        } else {
            abort(s, ErrorKind::PipelineDependency, unexpected_event_message())
        },
        EventModel::ValidationDone { issues } => if s.awaiting == Awaiting::Validation {
            if issues > 0 && !c.validate_skip_invalid {
                abort(s, ErrorKind::Stage, validation_failed_message())
            } else {
                enter_apply(
                    c,
                    listing,
                    templates,
                    command,
                    StateModel { stage: PipelineStage::Validated, ..s },
                )
            }
        } else {
            abort(s, ErrorKind::PipelineDependency, unexpected_event_message())
        },
        EventModel::ApplyDone => if s.awaiting == Awaiting::Applied {
            finish(StateModel { stage: PipelineStage::Applied, ..s })
        } else {
            abort(s, ErrorKind::PipelineDependency, unexpected_event_message())
        },
        EventModel::Failed(text) => if s.awaiting == Awaiting::Start || s.awaiting == Awaiting::Nothing {
            abort(s, ErrorKind::PipelineDependency, unexpected_event_message())
        } else {
            abort(s, ErrorKind::Collaborator, failure_message(s.awaiting, text))
        },
    }
}

/// Whether a configuration asks for validation or application and names
/// nothing that produces a preview.
pub open spec fn lacks_preview_source(c: Config) -> bool {
    (c.validate_requested || c.apply_requested) && c.rename_pattern is None && c.template_use is None
}

/// The error of a stage that was asked for without a preview.
pub open spec fn no_preview_abort() -> ActionModel {
    ActionModel::Abort(
        ErrorModel { kind: ErrorKind::PipelineDependency, message: no_preview_message() },
    )
}

/// A run that is to validate or apply, with nothing configured that
/// produces a preview, fails with a dependency error. Where no files are
/// selected it fails at its first step. Where files are selected the first
/// step asks for them, and the step that takes them in fails, whatever was
/// found.
pub proof fn lemma_stage_needs_preview_source(
    c: Config,
    listing: Seq<(Seq<char>, Seq<char>)>,
    templates: Map<Seq<char>, Seq<char>>,
    command: Seq<char>,
    found: Seq<Seq<FileModel>>,
)
    requires
        lacks_preview_source(c),
    ensures
        file_source(c) is None ==> step(c, listing, templates, command, initial_state(), EventModel::Start).1
            == no_preview_abort(),
        file_source(c) is Some ==> {
            let first = step(c, listing, templates, command, initial_state(), EventModel::Start);
            &&& first.1 == ActionModel::ResolveFiles(file_source(c)->Some_0)
            &&& step(c, listing, templates, command, first.0, EventModel::FilesFound(found)).1
                == no_preview_abort()
        },
{
}

/// Whether a state holds no preview and waits for none.
pub open spec fn without_preview(s: StateModel) -> bool {
    !s.preview_available && s.awaiting != Awaiting::Preview
}

/// Under a configuration that names nothing to produce a preview, a run
/// never comes to hold one: the state before the run holds no preview and
/// waits for none, every step keeps it so, and no step asks to compute, to
/// validate or to apply a preview.
pub proof fn lemma_no_preview_without_source(
    c: Config,
    listing: Seq<(Seq<char>, Seq<char>)>,
    templates: Map<Seq<char>, Seq<char>>,
    command: Seq<char>,
    s: StateModel,
    e: EventModel,
)
    requires
        c.rename_pattern is None,
        c.template_use is None,
        without_preview(s),
    ensures
        without_preview(initial_state()),
        ({
            let next = step(c, listing, templates, command, s, e);
            &&& without_preview(next.0)
            &&& !(next.1 is GeneratePreview)
            &&& !(next.1 is Validate)
            &&& !(next.1 is Apply)
        }),
{
}

/// No step asks to validate or to apply unless a preview is there: it was
/// there before the step, or the step took in a preview without empty
/// names. A preview is there after a step only on the same grounds, and it
/// is gone once a step asks to apply it.
pub proof fn lemma_preview_before_use(
    c: Config,
    listing: Seq<(Seq<char>, Seq<char>)>,
    templates: Map<Seq<char>, Seq<char>>,
    command: Seq<char>,
    s: StateModel,
    e: EventModel,
)
    ensures
        ({
            let next = step(c, listing, templates, command, s, e);
            let arrives = e == (EventModel::PreviewReady { has_empty_names: false }) && s.awaiting
                == Awaiting::Preview;
            &&& (next.1 is Validate || next.1 is Apply) ==> s.preview_available || arrives
            &&& next.0.preview_available ==> s.preview_available || arrives
            &&& next.1 is Apply ==> !next.0.preview_available
        }),
{
}

/// The place of a stage in the order of the run.
pub open spec fn stage_rank(stage: PipelineStage) -> int {
    match stage {
        PipelineStage::Idle => 0,
        PipelineStage::FilesResolved => 1,
        PipelineStage::PreviewComputed => 2,
        PipelineStage::Validated => 3,
        PipelineStage::Applied => 4,
        PipelineStage::Aborted => 5,
    }
}

/// Whether a state is one that a run can be in: what it waits for fits
/// the stage it has reached, files are there only once they were resolved,
/// and a preview only once it was computed.
pub open spec fn coherent(s: StateModel) -> bool {
    &&& s.files.len() > 0 ==> s.stage != PipelineStage::Idle
    &&& s.preview_available ==> stage_rank(s.stage) >= 2
    &&& match s.awaiting {
        Awaiting::Start => s.stage == PipelineStage::Idle && !s.preview_available,
        Awaiting::Files => s.stage == PipelineStage::Idle && !s.preview_available,
        Awaiting::Shown => s.stage == PipelineStage::FilesResolved && !s.preview_available,
        Awaiting::Preview => s.stage == PipelineStage::FilesResolved && s.files.len() > 0
            && !s.preview_available,
        Awaiting::Validation => s.stage == PipelineStage::PreviewComputed && s.preview_available,
        Awaiting::Applied => (s.stage == PipelineStage::PreviewComputed || s.stage
            == PipelineStage::Validated) && !s.preview_available,
        Awaiting::Nothing => true,
    }
}

/// A run goes through its stages in their order and never back. The state
/// before the run is coherent, every step keeps it so, and a step leaves
/// the stage where it is or takes it further. An action is asked for only
/// at its stage: files are resolved and the run begun only from the idle
/// stage, a preview is computed only on resolved files that are not empty,
/// and validation and application come only after the preview. A step
/// ends the run exactly if it waits for nothing more.
pub proof fn lemma_stages_in_order(
    c: Config,
    listing: Seq<(Seq<char>, Seq<char>)>,
    templates: Map<Seq<char>, Seq<char>>,
    command: Seq<char>,
    s: StateModel,
    e: EventModel,
)
    requires
        coherent(s),
    ensures
        coherent(initial_state()),
        ({
            let next = step(c, listing, templates, command, s, e);
            &&& coherent(next.0)
            &&& stage_rank(s.stage) <= stage_rank(next.0.stage)
            &&& next.1 is ResolveFiles ==> next.0.stage == PipelineStage::Idle
            &&& next.1 is GeneratePreview ==> next.0.stage == PipelineStage::FilesResolved
                && next.1->GeneratePreview_files.len() > 0
            &&& next.1 is Validate ==> next.0.stage == PipelineStage::PreviewComputed
            &&& next.1 is Apply ==> next.0.stage == PipelineStage::PreviewComputed || next.0.stage
                == PipelineStage::Validated
            &&& (next.1 is Finish || next.1 is Abort) <==> next.0.awaiting == Awaiting::Nothing
            &&& next.1 is Abort ==> next.0.stage == PipelineStage::Aborted
            &&& next.0.stage == PipelineStage::Aborted ==> next.1 is Abort || s.stage
                == PipelineStage::Aborted
        }),
{
}

} // verus!
