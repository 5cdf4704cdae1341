//! One invocation from its raw arguments to what is to be done.

use vstd::prelude::*;
use vstd::string::*;
use crate::error::{CliError, ErrorKind, ErrorModel};
use crate::executor::{
    combination_error, extract, extract_config, handle_standalone_commands, lemma_blocks_commute,
    share_no_keyword, standalone_action, standalone_error, units_of,
    validate_subcommand_combinations, CommandConfig, Config, StandaloneAction,
};
use crate::subcommands::{
    has_flag, is_subcommand_keyword, lemma_tokenize_blocks, parse_multi_subcommand,
    short_flag_message, tokenize, ParsedSubcommand, Unit,
};
use crate::text::{clone_strings, str_eq};

verus! {

/// What one invocation asks for.
#[derive(Debug)]
pub enum Invocation {
    /// Show the version.
    ShowVersion,
    /// Show the general help.
    ShowMainHelp,
    /// Show the help of one subcommand.
    ShowSubcommandHelp(String),
    /// Perform the one standalone action.
    Standalone(StandaloneAction),
    /// Run the pipeline under this configuration.
    Pipeline(CommandConfig),
    /// Show the error and end with its exit status.
    Fail(CliError),
}

/// What an invocation asks for, in the terms of the contracts.
pub enum InvocationModel {
    ShowVersion,
    ShowMainHelp,
    ShowSubcommandHelp(Seq<char>),
    Standalone(StandaloneAction),
    Pipeline(Config),
    Fail(ErrorModel),
}

impl View for Invocation {
    type V = InvocationModel;

    open spec fn view(&self) -> InvocationModel {
        match self {
            Invocation::ShowVersion => InvocationModel::ShowVersion,
            Invocation::ShowMainHelp => InvocationModel::ShowMainHelp,
            Invocation::ShowSubcommandHelp(name) => InvocationModel::ShowSubcommandHelp(name@),
            Invocation::Standalone(action) => InvocationModel::Standalone(*action),
            Invocation::Pipeline(config) => InvocationModel::Pipeline(config@),
            Invocation::Fail(e) => InvocationModel::Fail(e@),
        }
    }
}

/// Whether a unit asks for help.
pub open spec fn asks_for_help(units: Seq<Unit>) -> bool {
    exists|i: int| 0 <= i < units.len() && (#[trigger] units[i]).flags.contains_key("help"@)
}

/// The text shown where `--help` stands among several subcommands.
pub open spec fn help_with_others_message() -> Seq<char> {
    "Error: '--help' cannot be used with multiple subcommands.\nUse '--help' with a single subcommand, e.g.:\n  fren list --help\n  fren rename --help\n  fren validate --help"@
}

/// An error of the given kind with the given text.
pub open spec fn failure(kind: ErrorKind, message: Seq<char>) -> InvocationModel {
    InvocationModel::Fail(ErrorModel { kind, message })
}

/// What a command sequence asks for. No unit at all asks for the general
/// help. A unit with `--help` asks for the help of its subcommand, and must
/// be the only unit. A sequence that breaks a rule on combinations fails.
/// A standalone request is answered on its own; anything else becomes the
/// configuration of a pipeline run.
pub open spec fn plan_units(units: Seq<Unit>) -> InvocationModel {
    if units.len() == 0 {
        InvocationModel::ShowMainHelp
    } else if asks_for_help(units) {
        if units.len() > 1 {
            failure(ErrorKind::Combination, help_with_others_message())
        } else {
            InvocationModel::ShowSubcommandHelp(units[0].name)
        }
    } else {
        match standalone_error(units) {
            Some(e) => failure(ErrorKind::Combination, e),
            None => match standalone_action(units) {
                Some(action) => InvocationModel::Standalone(action),
                None => match combination_error(units) {
                    Some(e) => failure(ErrorKind::Combination, "Error: "@ + e),
                    None => match extract(units) {
                        Err(e) => failure(ErrorKind::Config, "Error: "@ + e),
                        Ok(c) => InvocationModel::Pipeline(c),
                    },
                },
            },
        }
    }
}

/// What an invocation asks for. `--version` and `--help` count only as the
/// first token. A token that the tokenizer refuses fails the invocation.
pub open spec fn plan(ts: Seq<Seq<char>>) -> InvocationModel {
    if ts.len() > 0 && ts[0] == "--version"@ {
        InvocationModel::ShowVersion
    } else if ts.len() > 0 && ts[0] == "--help"@ {
        InvocationModel::ShowMainHelp
    } else {
        match tokenize(ts) {
            Err(t) => failure(ErrorKind::Parse, short_flag_message(t)),
            Ok(units) => plan_units(units),
        }
    }
}

fn any_asks_for_help(subcommands: &[ParsedSubcommand]) -> (r: bool)
    ensures
        r == asks_for_help(units_of(subcommands@)),
{
    let ghost units = units_of(subcommands@);
    let mut i: usize = 0;
    while i < subcommands.len()
        invariant
            i <= subcommands.len(),
            units == units_of(subcommands@),
            forall|j: int| 0 <= j < i ==> !(#[trigger] units[j]).flags.contains_key("help"@),
        decreases subcommands.len() - i,
    {
        if has_flag(&subcommands[i].flags, "help") {
            assert(units[i as int].flags.contains_key("help"@));
            return true;
        }
        i += 1;
    }
    false
}

/// Decides what a command sequence asks for.
pub fn plan_subcommands(subcommands: &[ParsedSubcommand]) -> (r: Invocation)
    ensures
        r@ == plan_units(units_of(subcommands@)),
{
    let ghost units = units_of(subcommands@);
    if subcommands.len() == 0 {
        return Invocation::ShowMainHelp;
    }
    if any_asks_for_help(subcommands) {
        if subcommands.len() > 1 {
            return Invocation::Fail(
                CliError {
                    kind: ErrorKind::Combination,
                    message: String::from_str(
                        "Error: '--help' cannot be used with multiple subcommands.\nUse '--help' with a single subcommand, e.g.:\n  fren list --help\n  fren rename --help\n  fren validate --help",
                    ),
                },
            );
        }
        assert(units[0] == subcommands[0]@);
        return Invocation::ShowSubcommandHelp(subcommands[0].name.clone());
    }
    match handle_standalone_commands(subcommands) {
        Err(message) => {
            return Invocation::Fail(CliError { kind: ErrorKind::Combination, message });
        },
        Ok(Some(action)) => {
            return Invocation::Standalone(action);
        },
        Ok(None) => {},
    }
    match validate_subcommand_combinations(subcommands) {
        Err(e) => {
            return Invocation::Fail(
                CliError {
                    kind: ErrorKind::Combination,
                    message: String::from_str("Error: ").concat(e.as_str()),
                },
            );
        },
        Ok(()) => {},
    }
    match extract_config(subcommands) {
        Err(e) => Invocation::Fail(
            CliError { kind: ErrorKind::Config, message: String::from_str("Error: ").concat(e.as_str()) },
        ),
        Ok(config) => Invocation::Pipeline(config),
    }
}

/// Decides what an invocation asks for, from its raw arguments.
pub fn plan_invocation(raw_args: &Vec<String>) -> (r: Invocation)
    ensures
        r@ == plan(raw_args.deep_view()),
{
    if raw_args.len() > 0 {
        assert(raw_args.deep_view()[0] == raw_args[0]@);
        if str_eq(raw_args[0].as_str(), "--version") {
            return Invocation::ShowVersion;
        }
        if str_eq(raw_args[0].as_str(), "--help") {
            return Invocation::ShowMainHelp;
        }
    }
    match parse_multi_subcommand(clone_strings(raw_args)) {
        Err(e) => Invocation::Fail(CliError { kind: ErrorKind::Parse, message: e.message() }),
        Ok(subcommands) => {
            assert(units_of(subcommands@) =~= subcommands.deep_view());
            plan_subcommands(subcommands.as_slice())
        },
    }
}

/// The words of a command joined by single spaces.
pub open spec fn joined(args: Seq<Seq<char>>) -> Seq<char>
    decreases args.len(),
{
    if args.len() == 0 {
        Seq::empty()
    } else if args.len() == 1 {
        args[0]
    } else {
        joined(args.drop_last()) + " "@ + args.last()
    }
}

/// The command as typed, for the audit log: its arguments joined by
/// single spaces.
pub fn full_command(raw_args: &Vec<String>) -> (r: String)
    ensures
        r@ == joined(raw_args.deep_view()),
{
    let ghost ts = raw_args.deep_view();
    let mut out = String::new();
    let mut i: usize = 0;
    assert(ts.subrange(0, 0) =~= Seq::<Seq<char>>::empty());
    while i < raw_args.len()
        invariant
            i <= raw_args.len(),
            ts == raw_args.deep_view(),
            out@ == joined(ts.subrange(0, i as int)),
        decreases raw_args.len() - i,
    {
        proof {
            let next = ts.subrange(0, i + 1);
            assert(next.drop_last() =~= ts.subrange(0, i as int));
            assert(next.last() == raw_args[i as int]@);
            if i == 0 {
                assert(Seq::<char>::empty() + raw_args[0]@ =~= raw_args[0]@);
            }
        }
        if i > 0 {
            out.append(" ");
        }
        out.append(raw_args[i].as_str());
        i += 1;
    }
    assert(ts.subrange(0, raw_args.len() as int) =~= ts);
    out
}

/// Whether tokens are empty or begin with a keyword, so that they hold
/// whole blocks.
pub open spec fn holds_blocks(ts: Seq<Seq<char>>) -> bool {
    ts.len() == 0 || is_subcommand_keyword(ts[0])
}

/// The blocks of a command line may be typed in any order. Where two runs
/// of blocks stand side by side and share no keyword, the command line with
/// the two runs exchanged gives the same units, those of the two runs
/// exchanged, and so the same configuration where it is accepted, and is
/// refused where the other is refused.
pub proof fn lemma_typed_order_is_free(
    before: Seq<Seq<char>>,
    x: Seq<Seq<char>>,
    y: Seq<Seq<char>>,
    after: Seq<Seq<char>>,
)
    requires
        holds_blocks(x),
        holds_blocks(y),
        holds_blocks(after),
        tokenize(before) is Ok,
        tokenize(x) is Ok,
        tokenize(y) is Ok,
        tokenize(after) is Ok,
        share_no_keyword(tokenize(x)->Ok_0, tokenize(y)->Ok_0),
    ensures
        tokenize(before + x + y + after) == Ok::<Seq<Unit>, Seq<char>>(
            tokenize(before)->Ok_0 + tokenize(x)->Ok_0 + tokenize(y)->Ok_0 + tokenize(after)->Ok_0,
        ),
        tokenize(before + y + x + after) == Ok::<Seq<Unit>, Seq<char>>(
            tokenize(before)->Ok_0 + tokenize(y)->Ok_0 + tokenize(x)->Ok_0 + tokenize(after)->Ok_0,
        ),
        extract(tokenize(before + x + y + after)->Ok_0) is Ok <==> extract(
            tokenize(before + y + x + after)->Ok_0,
        ) is Ok,
        extract(tokenize(before + x + y + after)->Ok_0) is Ok ==> extract(
            tokenize(before + x + y + after)->Ok_0,
        ) == extract(tokenize(before + y + x + after)->Ok_0),
{
    lemma_tokenize_blocks(before, x);
    lemma_tokenize_blocks(before + x, y);
    lemma_tokenize_blocks(before + x + y, after);
    lemma_tokenize_blocks(before, y);
    lemma_tokenize_blocks(before + y, x);
    lemma_tokenize_blocks(before + y + x, after);
    lemma_blocks_commute(
        tokenize(before)->Ok_0,
        tokenize(x)->Ok_0,
        tokenize(y)->Ok_0,
        tokenize(after)->Ok_0,
    );
}

} // verus!
