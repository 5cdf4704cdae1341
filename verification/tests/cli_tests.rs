//! Tests for the way from raw arguments to what an invocation asks for.

use frencli::cli::{full_command, plan_invocation, Invocation};
use frencli::error::ErrorKind;
use frencli::executor::StandaloneAction;
use frencli::text::{decimal_string, parse_usize, str_contains, str_eq, str_lt, string_eq};

fn plan(tokens: &[&str]) -> Invocation {
    let args: Vec<String> = tokens.iter().map(|s| s.to_string()).collect();
    plan_invocation(&args)
}

fn failure(tokens: &[&str]) -> (ErrorKind, String) {
    match plan(tokens) {
        Invocation::Fail(e) => (e.kind, e.message),
        other => panic!("expected a failure, got {:?}", other),
    }
}

#[test]
fn version_and_help_count_only_in_first_place() {
    assert!(matches!(plan(&["--version"]), Invocation::ShowVersion));
    assert!(matches!(plan(&["--version", "list"]), Invocation::ShowVersion));
    assert!(matches!(plan(&["--help"]), Invocation::ShowMainHelp));
    assert!(matches!(plan(&["--help", "rename", "-y"]), Invocation::ShowMainHelp));
    assert!(matches!(plan(&[]), Invocation::ShowMainHelp));
    assert!(matches!(plan(&["nothing", "known"]), Invocation::ShowMainHelp));
    // Behind another token they are dropped with it, or are flags of a unit.
    assert!(matches!(plan(&["x", "--version"]), Invocation::ShowMainHelp));
    match plan(&["list", "a", "--version"]) {
        Invocation::Pipeline(config) => assert_eq!(config.list_patterns, Some(vec!["a".to_string()])),
        other => panic!("{:?}", other),
    }
}

#[test]
fn help_of_one_subcommand() {
    for keyword in ["list", "rename", "validate", "apply", "template", "undo", "audit", "interactive"] {
        match plan(&[keyword, "--help"]) {
            Invocation::ShowSubcommandHelp(name) => assert_eq!(name, keyword),
            other => panic!("{:?}", other),
        }
    }
    // Help comes before every other rule on the one unit.
    assert!(matches!(plan(&["undo", "--help"]), Invocation::ShowSubcommandHelp(_)));
    assert!(matches!(plan(&["list", "--help"]), Invocation::ShowSubcommandHelp(_)));
    let (kind, message) = failure(&["list", "*.txt", "rename", "--help"]);
    assert_eq!(kind, ErrorKind::Combination);
    assert_eq!(
        message,
        "Error: '--help' cannot be used with multiple subcommands.\nUse '--help' with a single subcommand, e.g.:\n  fren list --help\n  fren rename --help\n  fren validate --help"
    );
}

#[test]
fn refused_token_fails_the_invocation() {
    let (kind, message) = failure(&["list", "*.txt", "apply", "-y"]);
    assert_eq!(kind, ErrorKind::Parse);
    assert!(message.starts_with("Error: Short flags (like '-y') are not supported."));
    assert!(message.contains("--yes"));
}

#[test]
fn standalone_requests_are_planned_alone() {
    assert!(matches!(
        plan(&["template", "--list"]),
        Invocation::Standalone(StandaloneAction::ListTemplates)
    ));
    assert!(matches!(plan(&["undo", "--check"]), Invocation::Standalone(StandaloneAction::UndoCheck)));
    assert!(matches!(
        plan(&["undo", "--apply", "--yes"]),
        Invocation::Standalone(StandaloneAction::UndoApply { yes: true })
    ));
    assert!(matches!(
        plan(&["audit", "--limit", "5"]),
        Invocation::Standalone(StandaloneAction::Audit { limit: Some(5), json: false })
    ));
    assert!(matches!(plan(&["interactive"]), Invocation::Standalone(StandaloneAction::Interactive)));

    let (kind, message) = failure(&["undo", "--check", "list", "*.txt"]);
    assert_eq!(kind, ErrorKind::Combination);
    assert!(message.starts_with("'undo' cannot be used with other subcommands."));
    let (kind, message) = failure(&["undo"]);
    assert_eq!(kind, ErrorKind::Combination);
    assert!(message.starts_with("'undo' requires either '--check' or '--apply' flag."));
    let (kind, _) = failure(&["list", "a", "template", "--list"]);
    assert_eq!(kind, ErrorKind::Combination);
}

#[test]
fn combination_and_config_errors_are_prefixed() {
    let (kind, message) = failure(&["list", "a", "rename", "p", "template", "--use", "x"]);
    assert_eq!(kind, ErrorKind::Combination);
    assert!(message.starts_with("Error: Cannot use both 'rename' and 'template --use'"));
    assert_eq!(
        failure(&["list"]),
        (ErrorKind::Config, "Error: No search pattern provided for 'list'.".to_string())
    );
    assert_eq!(
        failure(&["list", "a", "rename"]),
        (ErrorKind::Config, "Error: Rename pattern required.".to_string())
    );
}

#[test]
fn a_pipeline_run_gets_its_configuration() {
    match plan(&["apply", "--yes", "list", "*.txt", "--exclude", "a", "b", "rename", "%N.%E"]) {
        Invocation::Pipeline(config) => {
            assert_eq!(config.list_patterns, Some(vec!["*.txt".to_string()]));
            assert_eq!(config.list_exclude, vec!["a", "b"]);
            assert_eq!(config.rename_pattern, Some("%N.%E".to_string()));
            assert!(config.apply_requested && config.apply_yes && !config.validate_requested);
        }
        other => panic!("{:?}", other),
    }
}

#[test]
fn the_command_as_typed() {
    let args: Vec<String> = vec!["list".into(), "*.txt".into(), "apply".into(), "--yes".into()];
    assert_eq!(full_command(&args), "list *.txt apply --yes");
    assert_eq!(full_command(&vec!["one".to_string()]), "one");
    assert_eq!(full_command(&vec![]), "");
    assert_eq!(full_command(&vec!["".to_string(), "a b".to_string(), "".to_string()]), " a b ");
}

#[test]
fn reading_an_index() {
    assert_eq!(parse_usize("0"), Some(0));
    assert_eq!(parse_usize("7"), Some(7));
    assert_eq!(parse_usize("+7"), Some(7));
    assert_eq!(parse_usize("007"), Some(7));
    assert_eq!(parse_usize("1234567890"), Some(1234567890));
    assert_eq!(parse_usize(&usize::MAX.to_string()), Some(usize::MAX));
    for text in ["", "+", "-", "-1", "++1", "1+", " 1", "1 ", "1_000", "0x10", "1.0", "١", "abc"] {
        assert_eq!(parse_usize(text), None, "{:?}", text);
        assert_eq!(parse_usize(text), text.parse::<usize>().ok(), "{:?}", text);
    }
    let too_large = format!("{}0", usize::MAX);
    assert_eq!(parse_usize(&too_large), None);
    let one_more = format!("{}", usize::MAX as u128 + 1);
    assert_eq!(parse_usize(&one_more), None);
}

#[test]
fn writing_a_number() {
    assert_eq!(decimal_string(0), "0");
    assert_eq!(decimal_string(9), "9");
    assert_eq!(decimal_string(10), "10");
    assert_eq!(decimal_string(1203), "1203");
    assert_eq!(decimal_string(usize::MAX), usize::MAX.to_string());
    for n in [0usize, 5, 42, 100, 99999] {
        assert_eq!(parse_usize(&decimal_string(n)), Some(n));
    }
}

#[test]
fn comparing_texts() {
    assert!(str_eq("abc", "abc") && !str_eq("abc", "abd") && !str_eq("abc", "ab"));
    assert!(string_eq(&"é".to_string(), &"é".to_string()));
    assert!(str_lt("", "a") && !str_lt("", "") && !str_lt("a", ""));
    assert!(str_lt("a", "b") && !str_lt("b", "a") && !str_lt("a", "a"));
    assert!(str_lt("ab", "abc") && !str_lt("abc", "ab"));
    assert!(str_lt("Z", "a") && str_lt("a", "é") && str_lt("counter-2", "counter-3"));
    for (a, b) in [("x", "y"), ("doc-date", "doc-counter"), ("é", "z"), ("a", "A")] {
        assert_eq!(str_lt(a, b), a < b, "{} {}", a, b);
    }
    assert!(str_contains("hello", "ell") && str_contains("hello", "") && str_contains("", ""));
    assert!(str_contains("hello", "hello") && !str_contains("hello", "hello!"));
    assert!(!str_contains("hello", "elo") && str_contains("aab", "ab") && !str_contains("", "a"));
}
