//! The errors that end an invocation.

use vstd::prelude::*;
use vstd::string::*;

verus! {

/// The kinds of error. Every one of them ends the invocation with exit
/// status 1; none is retried.
#[derive(Debug, Clone, Copy, PartialEq, Eq, Structural)]
pub enum ErrorKind {
    /// The token stream is malformed.
    Parse,
    /// The subcommands may not stand together.
    Combination,
    /// A mandatory field is missing.
    Config,
    /// A stage was asked for without what it works on.
    PipelineDependency,
    /// A stage found that the run must stop.
    Stage,
    /// A collaborator failed.
    Collaborator,
}

/// An error with the text to show on the error stream.
#[derive(Debug)]
pub struct CliError {
    pub kind: ErrorKind,
    pub message: String,
}

/// What an error is, in the terms of the contracts.
pub struct ErrorModel {
    pub kind: ErrorKind,
    pub message: Seq<char>,
}

impl View for CliError {
    type V = ErrorModel;

    open spec fn view(&self) -> ErrorModel {
        ErrorModel { kind: self.kind, message: self.message@ }
    }
}

impl CliError {
    /// The exit status that the process ends with.
    pub fn exit_code(&self) -> (r: i32)
        ensures
            r == 1,
    {
        1
    }
}

} // verus!
