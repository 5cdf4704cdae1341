//! Command composition for a batch file renamer.
//!
//! A flat list of command-line tokens is split into subcommand units, checked
//! for illegal combinations, folded into one configuration record and then
//! driven through the fixed pipeline of stages: select files, preview the new
//! names, validate them, apply them. The stages run in that order whatever the
//! order in which the subcommands were typed.

pub mod audit;
pub mod cli;
pub mod error;
pub mod executor;
pub mod list;
pub mod pipeline;
pub mod rename;
pub mod subcommands;
pub mod template;
pub mod templates;
pub mod text;
pub mod ui;
pub mod undo;
pub mod validate;
