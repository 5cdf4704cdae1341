//! Tests for the tokenizer, which splits one invocation into subcommand
//! units.

use frencli::subcommands::{
    get_flag_value, get_flag_values, has_flag, parse_multi_subcommand, FlagMap,
};

#[test]
fn test_parse_single_subcommand() {
    let args = vec!["list".to_string(), "*.txt".to_string()];
    let result = parse_multi_subcommand(args).unwrap();
    
    assert_eq!(result.len(), 1);
    assert_eq!(result[0].name, "list");
    assert_eq!(result[0].args, vec!["*.txt"]);
    assert!(result[0].flags.is_empty());
}

#[test]
fn test_parse_multiple_subcommands() {
    let args = vec![
        "list".to_string(),
        "*.txt".to_string(),
        "rename".to_string(),
        "%N.%E".to_string(),
        "apply".to_string(),
    ];
    let result = parse_multi_subcommand(args).unwrap();
    
    assert_eq!(result.len(), 3);
    assert_eq!(result[0].name, "list");
    assert_eq!(result[0].args, vec!["*.txt"]);
    assert_eq!(result[1].name, "rename");
    assert_eq!(result[1].args, vec!["%N.%E"]);
    assert_eq!(result[2].name, "apply");
    assert!(result[2].args.is_empty());
}

#[test]
fn test_parse_subcommand_with_flags() {
    let args = vec![
        "list".to_string(),
        "*.txt".to_string(),
        "--recursive".to_string(),
        "--exclude".to_string(),
        "*.tmp".to_string(),
    ];
    let result = parse_multi_subcommand(args).unwrap();
    
    assert_eq!(result.len(), 1);
    assert_eq!(result[0].name, "list");
    assert_eq!(result[0].args, vec!["*.txt"]);
    assert!(has_flag(&result[0].flags, "recursive"));
    assert_eq!(get_flag_values(&result[0].flags, "exclude"), vec!["*.tmp"]);
}

#[test]
fn test_parse_subcommand_with_multiple_flag_values() {
    let args = vec![
        "list".to_string(),
        "--exclude".to_string(),
        "*.tmp".to_string(),
        "*.bak".to_string(),
    ];
    let result = parse_multi_subcommand(args).unwrap();
    
    assert_eq!(result.len(), 1);
    assert_eq!(get_flag_values(&result[0].flags, "exclude"), vec!["*.tmp", "*.bak"]);
}

#[test]
fn test_parse_subcommand_with_boolean_flag() {
    let args = vec![
        "rename".to_string(),
        "--yes".to_string(),
        "--overwrite".to_string(),
    ];
    let result = parse_multi_subcommand(args).unwrap();
    
    assert_eq!(result.len(), 1);
    assert_eq!(result[0].name, "rename");
    assert!(has_flag(&result[0].flags, "yes"));
    assert!(has_flag(&result[0].flags, "overwrite"));
}

#[test]
fn test_parse_complex_command() {
    let args = vec![
        "list".to_string(),
        "*.txt".to_string(),
        "*.jpg".to_string(),
        "--recursive".to_string(),
        "--exclude".to_string(),
        "*.tmp".to_string(),
        "rename".to_string(),
        "%N_backup.%E".to_string(),
        "validate".to_string(),
        "--skip-invalid".to_string(),
        "apply".to_string(),
        "--yes".to_string(),
    ];
    let result = parse_multi_subcommand(args).unwrap();
    
    assert_eq!(result.len(), 4);
    
    // Check list
    assert_eq!(result[0].name, "list");
    assert_eq!(result[0].args, vec!["*.txt", "*.jpg"]);
    assert!(has_flag(&result[0].flags, "recursive"));
    assert_eq!(get_flag_values(&result[0].flags, "exclude"), vec!["*.tmp"]);
    
    // Check rename
    assert_eq!(result[1].name, "rename");
    assert_eq!(result[1].args, vec!["%N_backup.%E"]);
    
    // Check validate
    assert_eq!(result[2].name, "validate");
    assert!(has_flag(&result[2].flags, "skip-invalid"));
    
    // Check apply
    assert_eq!(result[3].name, "apply");
    assert!(has_flag(&result[3].flags, "yes"));
}

#[test]
fn test_parse_unknown_args_ignored() {
    let args = vec![
        "unknown".to_string(),
        "list".to_string(),
        "*.txt".to_string(),
        "also-unknown".to_string(),
    ];
    let result = parse_multi_subcommand(args).unwrap();
    
    assert_eq!(result.len(), 1);
    assert_eq!(result[0].name, "list");
    // Unknown args before subcommands are ignored, but args after subcommands are collected
    assert_eq!(result[0].args, vec!["*.txt", "also-unknown"]);
}

#[test]
fn test_parse_empty_args() {
    let args = vec![];
    let result = parse_multi_subcommand(args).unwrap();
    
    assert_eq!(result.len(), 0);
}

#[test]
fn test_parse_template_with_use_flag() {
    let args = vec![
        "template".to_string(),
        "--use".to_string(),
        "lowercase".to_string(),
    ];
    let result = parse_multi_subcommand(args).unwrap();
    
    assert_eq!(result.len(), 1);
    assert_eq!(result[0].name, "template");
    assert_eq!(get_flag_value(&result[0].flags, "use"), Some("lowercase".to_string()));
}

#[test]
fn test_parse_undo_with_check() {
    let args = vec![
        "undo".to_string(),
        "--check".to_string(),
    ];
    let result = parse_multi_subcommand(args).unwrap();
    
    assert_eq!(result.len(), 1);
    assert_eq!(result[0].name, "undo");
    assert!(has_flag(&result[0].flags, "check"));
}

#[test]
fn test_parse_undo_with_apply() {
    let args = vec![
        "undo".to_string(),
        "--apply".to_string(),
        "--yes".to_string(),
    ];
    let result = parse_multi_subcommand(args).unwrap();
    
    assert_eq!(result.len(), 1);
    assert_eq!(result[0].name, "undo");
    assert!(has_flag(&result[0].flags, "apply"));
    assert!(has_flag(&result[0].flags, "yes"));
}

#[test]
fn test_get_flag_value() {
    let mut flags = FlagMap::new();
    flags.insert("exclude".to_string(), vec!["*.tmp".to_string(), "*.bak".to_string()]);
    
    assert_eq!(get_flag_value(&flags, "exclude"), Some("*.tmp".to_string()));
    assert_eq!(get_flag_value(&flags, "nonexistent"), None);
}

#[test]
fn test_has_flag() {
    let mut flags = FlagMap::new();
    flags.insert("recursive".to_string(), vec![]);
    
    assert!(has_flag(&flags, "recursive"));
    assert!(!has_flag(&flags, "nonexistent"));
}

#[test]
fn test_get_flag_values() {
    let mut flags = FlagMap::new();
    flags.insert("exclude".to_string(), vec!["*.tmp".to_string(), "*.bak".to_string()]);
    
    assert_eq!(get_flag_values(&flags, "exclude"), vec!["*.tmp", "*.bak"]);
    assert_eq!(get_flag_values(&flags, "nonexistent"), Vec::<String>::new());
}

#[test]
fn test_parse_subcommand_order_independence() {
    // Test that order doesn't matter for parsing
    let args1 = vec![
        "list".to_string(),
        "*.txt".to_string(),
        "rename".to_string(),
        "%N.%E".to_string(),
    ];
    let args2 = vec![
        "rename".to_string(),
        "%N.%E".to_string(),
        "list".to_string(),
        "*.txt".to_string(),
    ];
    
    let result1 = parse_multi_subcommand(args1).unwrap();
    let result2 = parse_multi_subcommand(args2).unwrap();
    
    // Both should parse correctly, order is preserved in result
    assert_eq!(result1.len(), 2);
    assert_eq!(result2.len(), 2);
    assert_eq!(result1[0].name, "list");
    assert_eq!(result1[1].name, "rename");
    assert_eq!(result2[0].name, "rename");
    assert_eq!(result2[1].name, "list");
}

// ============================================================================
// Tests for short flag handling
// ============================================================================

#[test]
fn test_short_flag_allowed_as_list_positional_arg() {
    // Short flags should be allowed as positional arguments for 'list'
    // because they could be filenames (e.g., a file named "-y")
    let args = vec![
        "list".to_string(),
        "-y".to_string(),
        "-o".to_string(),
    ];
    let result = parse_multi_subcommand(args).unwrap();
    
    assert_eq!(result.len(), 1);
    assert_eq!(result[0].name, "list");
    assert_eq!(result[0].args, vec!["-y", "-o"]);
}

#[test]
fn test_short_flag_allowed_as_exclude_value() {
    // Short flags should be allowed as values for --exclude
    // because they could be exclude patterns (e.g., exclude files named "-y")
    let args = vec![
        "list".to_string(),
        "*.txt".to_string(),
        "--exclude".to_string(),
        "-y".to_string(),
        "-o".to_string(),
    ];
    let result = parse_multi_subcommand(args).unwrap();
    
    assert_eq!(result.len(), 1);
    assert_eq!(result[0].name, "list");
    assert_eq!(get_flag_values(&result[0].flags, "exclude"), vec!["-y", "-o"]);
}

#[test]
fn test_short_flag_allowed_as_template_use_value() {
    // Short flags should be allowed as values for --use
    // because template names could theoretically start with '-'
    let args = vec![
        "template".to_string(),
        "--use".to_string(),
        "-y".to_string(),
    ];
    let result = parse_multi_subcommand(args).unwrap();
    
    assert_eq!(result.len(), 1);
    assert_eq!(result[0].name, "template");
    assert_eq!(get_flag_value(&result[0].flags, "use"), Some("-y".to_string()));
}

#[test]
fn test_short_flag_allowed_as_mixed_list_args() {
    // Mix of normal args and short-flag-looking args should all be accepted
    let args = vec![
        "list".to_string(),
        "*.txt".to_string(),
        "-y".to_string(),
        "test.txt".to_string(),
        "-o".to_string(),
    ];
    let result = parse_multi_subcommand(args).unwrap();
    
    assert_eq!(result.len(), 1);
    assert_eq!(result[0].name, "list");
    assert_eq!(result[0].args, vec!["*.txt", "-y", "test.txt", "-o"]);
}


// ============================================================================
// The grammar of one invocation
// ============================================================================

fn strings(items: &[&str]) -> Vec<String> {
    items.iter().map(|s| s.to_string()).collect()
}

#[test]
fn two_units_round_trip() {
    let units = parse_multi_subcommand(strings(&["list", "*.txt", "rename", "%N_bak.%E"])).unwrap();
    assert_eq!(units.len(), 2);
    assert_eq!(units[0].name, "list");
    assert_eq!(units[0].args, vec!["*.txt"]);
    assert!(units[0].flags.is_empty());
    assert_eq!(units[1].name, "rename");
    assert_eq!(units[1].args, vec!["%N_bak.%E"]);
    assert!(units[1].flags.is_empty());
}

#[test]
fn short_flag_is_refused_outside_list() {
    let e = parse_multi_subcommand(strings(&["rename", "-y"])).unwrap_err();
    assert_eq!(e.token, "-y");
    let message = e.message();
    assert!(message.starts_with("Error: Short flags (like '-y') are not supported.\n"));
    assert!(message.contains("Please use the long form instead (e.g., '--yes' instead of '-y')."));
    assert!(message.contains("  -y, -Y  →  --yes\n"));
    assert!(message.ends_with("  -V, -v  →  --version"));

    for keyword in ["rename", "validate", "apply", "template", "undo", "audit", "interactive"] {
        let e = parse_multi_subcommand(strings(&[keyword, "-o"])).unwrap_err();
        assert_eq!(e.token, "-o", "{}", keyword);
    }
    let units = parse_multi_subcommand(strings(&["list", "-y"])).unwrap();
    assert_eq!(units.len(), 1);
    assert_eq!(units[0].args, vec!["-y"]);
}

#[test]
fn first_refused_token_is_named() {
    let e = parse_multi_subcommand(strings(&["list", "-a", "apply", "--yes", "-b", "undo", "-c"]))
        .unwrap_err();
    assert_eq!(e.token, "-b");
}

#[test]
fn lone_dash_and_double_dash() {
    // One dash alone is an ordinary argument.
    let units = parse_multi_subcommand(strings(&["rename", "-"])).unwrap();
    assert_eq!(units[0].args, vec!["-"]);
    // Two dashes alone open the flag with the empty name, which takes values.
    let units = parse_multi_subcommand(strings(&["rename", "--", "a", "b"])).unwrap();
    assert!(units[0].args.is_empty());
    assert_eq!(get_flag_values(&units[0].flags, ""), vec!["a", "b"]);
    // Three dashes open the flag named by one dash.
    let units = parse_multi_subcommand(strings(&["rename", "---"])).unwrap();
    assert!(has_flag(&units[0].flags, "-"));
}

#[test]
fn boolean_flags_never_take_values() {
    let units = parse_multi_subcommand(strings(&[
        "apply", "--yes", "a", "--overwrite", "b", "--interactive", "--json", "c", "--no-audit",
        "--help", "d",
    ]))
    .unwrap();
    assert_eq!(units.len(), 1);
    assert_eq!(units[0].args, vec!["a", "b", "c", "d"]);
    for flag in ["yes", "overwrite", "interactive", "json", "no-audit", "help"] {
        assert!(has_flag(&units[0].flags, flag), "{}", flag);
        assert!(get_flag_values(&units[0].flags, flag).is_empty(), "{}", flag);
        assert_eq!(get_flag_value(&units[0].flags, flag), None, "{}", flag);
    }
    let units = parse_multi_subcommand(strings(&[
        "list", "--recursive", "x", "--fullpath", "y", "validate", "--skip-invalid", "z", "undo",
        "--check", "p", "--apply", "q",
    ]))
    .unwrap();
    assert_eq!(units[0].args, vec!["x", "y"]);
    assert_eq!(units[1].args, vec!["z"]);
    assert_eq!(units[2].args, vec!["p", "q"]);
    assert!(get_flag_values(&units[2].flags, "check").is_empty());
}

#[test]
fn value_flags_take_what_follows() {
    let units = parse_multi_subcommand(strings(&[
        "list", "a", "--exclude", "x", "-y", "z", "--files-from", "-", "--limit", "--use", "u",
        "rename", "p",
    ]))
    .unwrap();
    assert_eq!(units.len(), 2);
    assert_eq!(units[0].args, vec!["a"]);
    assert_eq!(get_flag_values(&units[0].flags, "exclude"), vec!["x", "-y", "z"]);
    assert_eq!(get_flag_value(&units[0].flags, "files-from"), Some("-".to_string()));
    assert!(has_flag(&units[0].flags, "limit"));
    assert!(get_flag_values(&units[0].flags, "limit").is_empty());
    assert_eq!(get_flag_value(&units[0].flags, "limit"), None);
    assert_eq!(get_flag_values(&units[0].flags, "use"), vec!["u"]);
    assert_eq!(units[1].args, vec!["p"]);
}

#[test]
fn a_flag_given_again_replaces_its_values() {
    let units =
        parse_multi_subcommand(strings(&["list", "--exclude", "a", "b", "--exclude", "c"])).unwrap();
    assert_eq!(get_flag_values(&units[0].flags, "exclude"), vec!["c"]);
    let units = parse_multi_subcommand(strings(&["list", "--exclude", "a", "--exclude"])).unwrap();
    assert!(has_flag(&units[0].flags, "exclude"));
    assert!(get_flag_values(&units[0].flags, "exclude").is_empty());
}

#[test]
fn keywords_always_open_a_unit() {
    // A keyword is never an argument or a value, and every occurrence counts.
    let units = parse_multi_subcommand(strings(&[
        "x", "--yes", "list", "--exclude", "list", "apply", "apply", "audit",
    ]))
    .unwrap();
    let names: Vec<&str> = units.iter().map(|u| u.name.as_str()).collect();
    assert_eq!(names, vec!["list", "list", "apply", "apply", "audit"]);
    assert!(has_flag(&units[0].flags, "exclude"));
    assert!(get_flag_values(&units[0].flags, "exclude").is_empty());
    assert!(units[1].args.is_empty());
    // Keywords are matched exactly.
    let units = parse_multi_subcommand(strings(&["List", "lists", "make", "transform"])).unwrap();
    assert!(units.is_empty());
}

#[test]
fn flag_map_keeps_the_last_insert() {
    let mut flags = FlagMap::new();
    assert!(flags.is_empty());
    flags.insert("a".to_string(), vec!["1".to_string()]);
    flags.insert("b".to_string(), vec![]);
    flags.insert("a".to_string(), vec!["2".to_string(), "3".to_string()]);
    assert!(!flags.is_empty());
    assert!(flags.contains_key("a") && flags.contains_key("b") && !flags.contains_key("c"));
    assert_eq!(flags.get("a"), Some(&vec!["2".to_string(), "3".to_string()]));
    assert_eq!(flags.get("c"), None);
    let copy = flags.clone();
    assert_eq!(get_flag_values(&copy, "a"), vec!["2", "3"]);
    assert_eq!(get_flag_value(&copy, "b"), None);
}
