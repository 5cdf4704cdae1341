//! The tokenizer: from the raw argument vector to subcommand units.
//!
//! Several subcommands may stand in one invocation, as in
//! `list *.txt rename "%N.%E" apply`. Each keyword opens a unit that owns the
//! tokens up to the next keyword. The order of the units on the command line
//! decides only which tokens belong to which unit.

use vstd::prelude::*;
use vstd::string::*;
use crate::text::{
    clone_strings, flag_name_of, flag_of, is_long_flag, is_short_dash, opt_view, str_eq,
    token_is_long_flag, token_is_short_dash,
};

verus! {

/// One flag of a unit with the values that followed it.
#[derive(Debug)]
struct FlagEntry {
    name: String,
    values: Vec<String>,
}

/// The flags of one unit: from a flag's name to the values given to it.
/// A flag without values is a presence flag. Where a name is inserted twice
/// the later values replace the earlier ones.
#[derive(Debug)]
pub struct FlagMap {
    entries: Vec<FlagEntry>,
}

/// The map that a list of entries stands for: later entries win.
spec fn entries_map(es: Seq<FlagEntry>) -> Map<Seq<char>, Seq<Seq<char>>>
    decreases es.len(),
{
    if es.len() == 0 {
        Map::empty()
    } else {
        entries_map(es.drop_last()).insert(es.last().name@, es.last().values.deep_view())
    }
}

impl View for FlagMap {
    type V = Map<Seq<char>, Seq<Seq<char>>>;

    closed spec fn view(&self) -> Map<Seq<char>, Seq<Seq<char>>> {
        entries_map(self.entries@)
    }
}

impl FlagMap {
    /// The empty flag map.
    pub fn new() -> (r: FlagMap)
        ensures
            r@ == Map::<Seq<char>, Seq<Seq<char>>>::empty(),
    {
        FlagMap { entries: Vec::new() }
    }

    /// Records `values` under `name`, replacing what was there.
    pub fn insert(&mut self, name: String, values: Vec<String>)
        ensures
            final(self)@ == old(self)@.insert(name@, values.deep_view()),
    {
        let ghost before = self.entries@;
        self.entries.push(FlagEntry { name, values });
        assert(self.entries@.drop_last() =~= before);
    }

    /// The position of the entry that decides `name`: the last one of that name.
    fn position(&self, name: &str) -> (r: Option<usize>)
        ensures
            r is Some <==> self@.contains_key(name@),
            r matches Some(i) ==> i < self.entries.len() && self.entries[i as int].name@ == name@
                && self.entries[i as int].values.deep_view() == self@[name@],
    {
        let mut i: usize = self.entries.len();
        assert(self.entries@.subrange(0, i as int) =~= self.entries@);
        while i > 0
            invariant
                i <= self.entries.len(),
                self@.contains_key(name@) <==> entries_map(
                    self.entries@.subrange(0, i as int),
                ).contains_key(name@),
                self@.contains_key(name@) ==> self@[name@] == entries_map(
                    self.entries@.subrange(0, i as int),
                )[name@],
            decreases i,
        {
            let ghost prefix = self.entries@.subrange(0, i as int);
            assert(prefix.drop_last() =~= self.entries@.subrange(0, i - 1));
            assert(prefix.last() == self.entries[i - 1]);
            i -= 1;
            if str_eq(self.entries[i].name.as_str(), name) {
                return Some(i);
            }
        }
        assert(self.entries@.subrange(0, 0) =~= Seq::<FlagEntry>::empty());
        None
    }

    /// Whether `name` was given.
    pub fn contains_key(&self, name: &str) -> (r: bool)
        ensures
            r == self@.contains_key(name@),
    {
        self.position(name).is_some()
    }

    /// The values given to `name`, if it was given.
    pub fn get(&self, name: &str) -> (r: Option<&Vec<String>>)
        ensures
            r is Some <==> self@.contains_key(name@),
            r matches Some(v) ==> v.deep_view() == self@[name@],
    {
        match self.position(name) {
            Some(i) => Some(&self.entries[i].values),
            None => None,
        }
    }

    /// Whether no flag was given.
    pub fn is_empty(&self) -> (r: bool)
        ensures
            r == (self@.dom() =~= Set::<Seq<char>>::empty()),
    {
        proof {
            if self.entries.len() > 0 {
                assert(self@.contains_key(self.entries@.last().name@));
            }
        }
        self.entries.len() == 0
    }
}

impl Clone for FlagMap {
    fn clone(&self) -> (r: FlagMap)
        ensures
            r@ == self@,
    {
        let mut out = FlagMap::new();
        let mut i: usize = 0;
        while i < self.entries.len()
            invariant
                i <= self.entries.len(),
                out@ == entries_map(self.entries@.subrange(0, i as int)),
            decreases self.entries.len() - i,
        {
            let ghost next = self.entries@.subrange(0, i + 1);
            assert(next.drop_last() =~= self.entries@.subrange(0, i as int));
            assert(next.last() == self.entries[i as int]);
            let name = self.entries[i].name.clone();
            let values = clone_strings(&self.entries[i].values);
            out.insert(name, values);
            i += 1;
        }
        assert(self.entries@.subrange(0, self.entries.len() as int) =~= self.entries@);
        out
    }
}

/// One subcommand unit: a keyword with its positional arguments and flags.
#[derive(Debug)]
pub struct ParsedSubcommand {
    pub name: String,
    pub args: Vec<String>,
    pub flags: FlagMap,
}

/// What a unit is, in the terms of the contracts.
pub struct Unit {
    pub name: Seq<char>,
    pub args: Seq<Seq<char>>,
    pub flags: Map<Seq<char>, Seq<Seq<char>>>,
}

impl View for ParsedSubcommand {
    type V = Unit;

    open spec fn view(&self) -> Unit {
        Unit { name: self.name@, args: self.args.deep_view(), flags: self.flags@ }
    }
}

impl DeepView for ParsedSubcommand {
    type V = Unit;

    open spec fn deep_view(&self) -> Unit {
        self@
    }
}

impl Clone for ParsedSubcommand {
    fn clone(&self) -> (r: ParsedSubcommand)
        ensures
            r@ == self@,
    {
        ParsedSubcommand {
            name: self.name.clone(),
            args: clone_strings(&self.args),
            flags: self.flags.clone(),
        }
    }
}

/// A token that the tokenizer refuses: a short option where none can stand.
#[derive(Debug)]
pub struct ParseError {
    pub token: String,
}

/// The text shown for a refused short option.
pub open spec fn short_flag_message(token: Seq<char>) -> Seq<char> {
    "Error: Short flags (like '"@ + token
        + "') are not supported.\nPlease use the long form instead (e.g., '--yes' instead of '-y').\n\nCommon short flag mappings:\n  -y, -Y  →  --yes\n  -o, -O  →  --overwrite\n  -r, -R  →  --recursive\n  -e, -E  →  --exclude\n  -h, -H  →  --help\n  -f, -F  →  --fullpath\n  -V, -v  →  --version"@
}

impl ParseError {
    /// The text to show the user: it names the token and lists the long forms.
    pub fn message(&self) -> (r: String)
        ensures
            r@ == short_flag_message(self.token@),
    {
        String::from_str("Error: Short flags (like '").concat(self.token.as_str()).concat(
            "') are not supported.\nPlease use the long form instead (e.g., '--yes' instead of '-y').\n\nCommon short flag mappings:\n  -y, -Y  →  --yes\n  -o, -O  →  --overwrite\n  -r, -R  →  --recursive\n  -e, -E  →  --exclude\n  -h, -H  →  --help\n  -f, -F  →  --fullpath\n  -V, -v  →  --version",
        )
    }
}

/// The fixed set of subcommand keywords.
pub open spec fn is_subcommand_keyword(t: Seq<char>) -> bool {
    t == "list"@ || t == "rename"@ || t == "validate"@ || t == "apply"@ || t == "template"@ || t
        == "undo"@ || t == "audit"@ || t == "interactive"@
}

/// The flags that never take a value.
pub open spec fn is_boolean_flag(name: Seq<char>) -> bool {
    name == "yes"@ || name == "overwrite"@ || name == "recursive"@ || name == "fullpath"@ || name
        == "skip-invalid"@ || name == "interactive"@ || name == "check"@ || name == "apply"@
        || name == "json"@ || name == "no-audit"@ || name == "help"@
}

/// Whether the positional arguments of a subcommand may begin with a dash.
/// Only the file-selection subcommand takes such arguments: a file may be
/// named `-y`.
pub open spec fn takes_dash_positionals(name: Seq<char>) -> bool {
    name == "list"@
}

/// The place of a keyword in the fixed set, or 8 for any other token.
pub open spec fn keyword_index(t: Seq<char>) -> int {
    if t == "list"@ {
        0
    } else if t == "rename"@ {
        1
    } else if t == "validate"@ {
        2
    } else if t == "apply"@ {
        3
    } else if t == "template"@ {
        4
    } else if t == "undo"@ {
        5
    } else if t == "audit"@ {
        6
    } else if t == "interactive"@ {
        7
    } else {
        8
    }
}

/// The eight keywords are eight different texts.
pub proof fn lemma_keywords_distinct()
    ensures
        keyword_index("list"@) == 0,
        keyword_index("rename"@) == 1,
        keyword_index("validate"@) == 2,
        keyword_index("apply"@) == 3,
        keyword_index("template"@) == 4,
        keyword_index("undo"@) == 5,
        keyword_index("audit"@) == 6,
        keyword_index("interactive"@) == 7,
{
    reveal_strlit("list");
    reveal_strlit("rename");
    reveal_strlit("validate");
    reveal_strlit("apply");
    reveal_strlit("template");
    reveal_strlit("undo");
    reveal_strlit("audit");
    reveal_strlit("interactive");
    assert("interactive"@.len() == 11);
    assert("validate"@.len() == 8);
    assert("template"@.len() == 8);
    assert("rename"@.len() == 6);
    assert("apply"@.len() == 5);
    assert("audit"@.len() == 5);
    assert("list"@.len() == 4);
    assert("undo"@.len() == 4);
    assert("list"@[0] != "undo"@[0]);
    assert("validate"@[0] != "template"@[0]);
    assert("apply"@[1] != "audit"@[1]);
}

/// Whether a token ends the values of a flag.
pub open spec fn ends_values(t: Seq<char>) -> bool {
    is_long_flag(t) || is_subcommand_keyword(t)
}

/// The first position from `i` on whose token ends a run of flag values, or
/// the end of the block.
pub open spec fn values_end(b: Seq<Seq<char>>, i: int) -> int
    decreases b.len() - i,
{
    if i < 0 || i >= b.len() || ends_values(b[i]) {
        i
    } else {
        values_end(b, i + 1)
    }
}

/// The first position from `i` on that holds a keyword, or the end of input.
pub open spec fn block_end(ts: Seq<Seq<char>>, i: int) -> int
    decreases ts.len() - i,
{
    if i < 0 || i >= ts.len() || is_subcommand_keyword(ts[i]) {
        i
    } else {
        block_end(ts, i + 1)
    }
}

/// The values of a flag end at or behind the position they begin at and
/// within the block, at the first token that ends them.
pub proof fn lemma_values_end_bounds(b: Seq<Seq<char>>, i: int)
    requires
        0 <= i <= b.len(),
    ensures
        i <= values_end(b, i) <= b.len(),
        values_end(b, i) < b.len() ==> ends_values(b[values_end(b, i)]),
        forall|j: int| i <= j < values_end(b, i) ==> !ends_values(#[trigger] b[j]),
    decreases b.len() - i,
{
    if i < b.len() && !ends_values(b[i]) {
        lemma_values_end_bounds(b, i + 1);
    }
}

/// A block ends at or behind the position it begins at and within the
/// input, at the first keyword.
pub proof fn lemma_block_end_bounds(ts: Seq<Seq<char>>, i: int)
    requires
        0 <= i <= ts.len(),
    ensures
        i <= block_end(ts, i) <= ts.len(),
        block_end(ts, i) < ts.len() ==> is_subcommand_keyword(ts[block_end(ts, i)]),
        forall|j: int| i <= j < block_end(ts, i) ==> !is_subcommand_keyword(#[trigger] ts[j]),
    decreases ts.len() - i,
{
    if i < ts.len() && !is_subcommand_keyword(ts[i]) {
        lemma_block_end_bounds(ts, i + 1);
    }
}

/// Reads the tokens of one block from position `i` on, with the arguments and
/// flags gathered so far. A long flag of the boolean set is recorded without
/// values; any other long flag takes the tokens up to the next long flag. A
/// short option is refused unless the subcommand takes such positionals; every
/// other token is a positional argument.
pub open spec fn scan_block(
    name: Seq<char>,
    b: Seq<Seq<char>>,
    i: int,
    args: Seq<Seq<char>>,
    flags: Map<Seq<char>, Seq<Seq<char>>>,
) -> Result<Unit, Seq<char>>
    decreases b.len() - i,
{
    if i < 0 || i >= b.len() || is_subcommand_keyword(b[i]) {
        Ok(Unit { name, args, flags })
    } else if is_long_flag(b[i]) {
        let flag = flag_of(b[i]);
        if is_boolean_flag(flag) {
            scan_block(name, b, i + 1, args, flags.insert(flag, Seq::empty()))
        } else {
            let e = values_end(b, i + 1);
            proof {
                lemma_values_end_bounds(b, i + 1);
            }
            scan_block(name, b, e, args, flags.insert(flag, b.subrange(i + 1, e)))
        }
    } else if is_short_dash(b[i]) && !takes_dash_positionals(name) {
        Err(b[i])
    } else {
        scan_block(name, b, i + 1, args.push(b[i]), flags)
    }
}

/// The unit that the keyword `name` forms with the tokens of its block, or
/// the token that is refused.
pub open spec fn parse_block(name: Seq<char>, b: Seq<Seq<char>>) -> Result<Unit, Seq<char>> {
    scan_block(name, b, 0, Seq::empty(), Map::empty())
}

/// The units of the tokens from position `i` on. Tokens before the first
/// keyword belong to no unit and are dropped. Each keyword opens a unit that
/// owns the tokens up to the next keyword.
pub open spec fn tokenize_from(ts: Seq<Seq<char>>, i: int) -> Result<Seq<Unit>, Seq<char>>
    decreases ts.len() - i,
{
    if i < 0 || i >= ts.len() {
        Ok(Seq::empty())
    } else if !is_subcommand_keyword(ts[i]) {
        tokenize_from(ts, i + 1)
    } else {
        let e = block_end(ts, i + 1);
        proof {
            lemma_block_end_bounds(ts, i + 1);
        }
        match parse_block(ts[i], ts.subrange(i + 1, e)) {
            Err(t) => Err(t),
            Ok(u) => match tokenize_from(ts, e) {
                Err(t) => Err(t),
                Ok(rest) => Ok(seq![u] + rest),
            },
        }
    }
}

/// The command sequence of a token vector, or the first token refused.
pub open spec fn tokenize(ts: Seq<Seq<char>>) -> Result<Seq<Unit>, Seq<char>> {
    tokenize_from(ts, 0)
}

/// The units found so far, followed by what the rest of the input gives.
pub open spec fn then_units(done: Seq<Unit>, rest: Result<Seq<Unit>, Seq<char>>) -> Result<
    Seq<Unit>,
    Seq<char>,
> {
    match rest {
        Ok(us) => Ok(done + us),
        Err(t) => Err(t),
    }
}

/// Whether a token is one of the subcommand keywords.
pub fn is_known_subcommand(s: &str) -> (r: bool)
    ensures
        r == is_subcommand_keyword(s@),
{
    str_eq(s, "list") || str_eq(s, "rename") || str_eq(s, "validate") || str_eq(s, "apply")
        || str_eq(s, "template") || str_eq(s, "undo") || str_eq(s, "audit") || str_eq(
        s,
        "interactive",
    )
}

fn flag_is_boolean(s: &str) -> (r: bool)
    ensures
        r == is_boolean_flag(s@),
{
    str_eq(s, "yes") || str_eq(s, "overwrite") || str_eq(s, "recursive") || str_eq(s, "fullpath")
        || str_eq(s, "skip-invalid") || str_eq(s, "interactive") || str_eq(s, "check") || str_eq(
        s,
        "apply",
    ) || str_eq(s, "json") || str_eq(s, "no-audit") || str_eq(s, "help")
}

fn token_ends_values(s: &str) -> (r: bool)
    ensures
        r == ends_values(s@),
{
    token_is_long_flag(s) || is_known_subcommand(s)
}

/// Forms the unit of the keyword `name` from the tokens of its block.
fn parse_unit(name: String, block: &Vec<String>) -> (r: Result<ParsedSubcommand, ParseError>)
    ensures
        match parse_block(name@, block.deep_view()) {
            Ok(u) => r is Ok && r->Ok_0@ == u,
            Err(t) => r is Err && r->Err_0.token@ == t,
        },
{
    let ghost b = block.deep_view();
    let dash_positionals = str_eq(name.as_str(), "list");
    let mut args: Vec<String> = Vec::new();
    let mut flags = FlagMap::new();
    let mut i: usize = 0;
    assert(args.deep_view() =~= Seq::<Seq<char>>::empty());
    while i < block.len() && !is_known_subcommand(block[i].as_str())
        invariant
            i <= block.len(),
            b == block.deep_view(),
            dash_positionals == takes_dash_positionals(name@),
            scan_block(name@, b, i as int, args.deep_view(), flags@) == parse_block(name@, b),
        decreases block.len() - i,
    {
        let tok = &block[i];
        assert(b[i as int] == tok@);
        if token_is_long_flag(tok.as_str()) {
            let flag = flag_name_of(tok.as_str());
            i += 1;
            if flag_is_boolean(flag.as_str()) {
                let values: Vec<String> = Vec::new();
                assert(values.deep_view() =~= Seq::<Seq<char>>::empty());
                flags.insert(flag, values);
            } else {
                let start = i;
                let mut values: Vec<String> = Vec::new();
                assert(values.deep_view() =~= b.subrange(start as int, i as int));
                while i < block.len() && !token_ends_values(block[i].as_str())
                    invariant
                        start <= i <= block.len(),
                        b == block.deep_view(),
                        values.deep_view() == b.subrange(start as int, i as int),
                        values_end(b, start as int) == values_end(b, i as int),
                    decreases block.len() - i,
                {
                    let ghost before = values.deep_view();
                    values.push(block[i].clone());
                    assert(values.deep_view() =~= before.push(b[i as int]));
                    i += 1;
                    assert(values.deep_view() =~= b.subrange(start as int, i as int));
                }
                assert(values_end(b, i as int) == i);
                flags.insert(flag, values);
            }
        } else if token_is_short_dash(tok.as_str()) && !dash_positionals {
            return Err(ParseError { token: tok.clone() });
        } else {
            let ghost before = args.deep_view();
            args.push(tok.clone());
            assert(args.deep_view() =~= before.push(tok@));
            i += 1;
        }
    }
    Ok(ParsedSubcommand { name, args, flags })
}

/// Splits the raw argument vector into subcommand units.
///
/// The units come in the order of their keywords on the command line. A
/// short option outside the file-selection subcommand and outside the values
/// of a flag ends the scan: the error names the first such token.
pub fn parse_multi_subcommand(args: Vec<String>) -> (r: Result<Vec<ParsedSubcommand>, ParseError>)
    ensures
        match tokenize(args.deep_view()) {
            Ok(units) => r is Ok && r->Ok_0.deep_view() == units,
            Err(t) => r is Err && r->Err_0.token@ == t,
        },
{
    let ghost ts = args.deep_view();
    let mut subcommands: Vec<ParsedSubcommand> = Vec::new();
    let mut i: usize = 0;
    assert(subcommands.deep_view() =~= Seq::<Unit>::empty());
    assert(then_units(subcommands.deep_view(), tokenize_from(ts, 0)) =~= tokenize(ts)) by {
        match tokenize_from(ts, 0) {
            Ok(us) => {
                assert(Seq::<Unit>::empty() + us =~= us);
            },
            Err(_) => {},
        }
    }
    while i < args.len()
        invariant
            i <= args.len(),
            ts == args.deep_view(),
            then_units(subcommands.deep_view(), tokenize_from(ts, i as int)) == tokenize(ts),
        decreases args.len() - i,
    {
        assert(ts[i as int] == args[i as int]@);
        if is_known_subcommand(args[i].as_str()) {
            let name = args[i].clone();
            let ghost start: int = i + 1;
            let mut block: Vec<String> = Vec::new();
            i += 1;
            assert(block.deep_view() =~= ts.subrange(start, i as int));
            while i < args.len() && !is_known_subcommand(args[i].as_str())
                invariant
                    0 <= start <= i <= args.len(),
                    ts == args.deep_view(),
                    block.deep_view() == ts.subrange(start, i as int),
                    block_end(ts, start) == block_end(ts, i as int),
                decreases args.len() - i,
            {
                let ghost before = block.deep_view();
                block.push(args[i].clone());
                assert(block.deep_view() =~= before.push(ts[i as int]));
                i += 1;
                assert(block.deep_view() =~= ts.subrange(start as int, i as int));
            }
            assert(block_end(ts, start) == i);
            match parse_unit(name, &block) {
                Ok(unit) => {
                    let ghost done = subcommands.deep_view();
                    subcommands.push(unit);
                    assert(subcommands.deep_view() =~= done.push(unit@));
                    proof {
                        match tokenize_from(ts, i as int) {
                            Ok(rest) => {
                                assert(done + (seq![unit@] + rest) =~= done.push(unit@) + rest);
                            },
                            Err(_) => {},
                        }
                    }
                },
                Err(e) => {
                    return Err(e);
                },
            }
        } else {
            i += 1;
        }
    }
    proof {
        assert(subcommands.deep_view() + Seq::<Unit>::empty() =~= subcommands.deep_view());
    }
    Ok(subcommands)
}

/// The first value of a flag, where the flag is there and has one.
pub open spec fn first_flag_value(flags: Map<Seq<char>, Seq<Seq<char>>>, name: Seq<char>) -> Option<
    Seq<char>,
> {
    if flags.contains_key(name) && flags[name].len() > 0 {
        Some(flags[name][0])
    } else {
        None
    }
}

/// The values of a flag; none where the flag is not there.
pub open spec fn all_flag_values(flags: Map<Seq<char>, Seq<Seq<char>>>, name: Seq<char>) -> Seq<
    Seq<char>,
> {
    if flags.contains_key(name) {
        flags[name]
    } else {
        Seq::empty()
    }
}

/// The first value given to a flag, if the flag was given with a value.
pub fn get_flag_value(flags: &FlagMap, flag_name: &str) -> (r: Option<String>)
    ensures
        opt_view(r) == first_flag_value(flags@, flag_name@),
{
    match flags.get(flag_name) {
        Some(values) => {
            if values.len() > 0 {
                assert(values.deep_view()[0] == values[0]@);
                Some(values[0].clone())
            } else {
                None
            }
        },
        None => None,
    }
}

/// Whether a flag was given, with or without values.
pub fn has_flag(flags: &FlagMap, flag_name: &str) -> (r: bool)
    ensures
        r == flags@.contains_key(flag_name@),
{
    flags.contains_key(flag_name)
}

/// All values given to a flag, in the order given; none if it was not given.
pub fn get_flag_values(flags: &FlagMap, flag_name: &str) -> (r: Vec<String>)
    ensures
        r.deep_view() == all_flag_values(flags@, flag_name@),
{
    match flags.get(flag_name) {
        Some(values) => clone_strings(values),
        None => {
            let none: Vec<String> = Vec::new();
            assert(none.deep_view() =~= Seq::<Seq<char>>::empty());
            none
        },
    }
}

/// Whether every flag of the boolean set that a map holds has no values.
pub open spec fn booleans_are_bare(flags: Map<Seq<char>, Seq<Seq<char>>>) -> bool {
    forall|f: Seq<char>| #[trigger] flags.contains_key(f) && is_boolean_flag(f) ==> flags[f].len() == 0
}

proof fn lemma_scan_keeps_booleans_bare(
    name: Seq<char>,
    b: Seq<Seq<char>>,
    i: int,
    args: Seq<Seq<char>>,
    flags: Map<Seq<char>, Seq<Seq<char>>>,
)
    requires
        booleans_are_bare(flags),
    ensures
        scan_block(name, b, i, args, flags) matches Ok(u) ==> booleans_are_bare(u.flags),
    decreases b.len() - i,
{
    if i < 0 || i >= b.len() || is_subcommand_keyword(b[i]) {
    } else if is_long_flag(b[i]) {
        let flag = flag_of(b[i]);
        if is_boolean_flag(flag) {
            lemma_scan_keeps_booleans_bare(name, b, i + 1, args, flags.insert(flag, Seq::empty()));
        } else {
            let e = values_end(b, i + 1);
            lemma_values_end_bounds(b, i + 1);
            lemma_scan_keeps_booleans_bare(name, b, e, args, flags.insert(flag, b.subrange(i + 1, e)));
        }
    } else if is_short_dash(b[i]) && !takes_dash_positionals(name) {
    } else {
        lemma_scan_keeps_booleans_bare(name, b, i + 1, args.push(b[i]), flags);
    }
}

proof fn lemma_units_keep_booleans_bare(ts: Seq<Seq<char>>, i: int)
    ensures
        tokenize_from(ts, i) matches Ok(units) ==> forall|k: int|
            0 <= k < units.len() ==> booleans_are_bare(#[trigger] units[k].flags),
    decreases ts.len() - i,
{
    if i < 0 || i >= ts.len() {
    } else if !is_subcommand_keyword(ts[i]) {
        lemma_units_keep_booleans_bare(ts, i + 1);
    } else {
        let e = block_end(ts, i + 1);
        lemma_block_end_bounds(ts, i + 1);
        lemma_scan_keeps_booleans_bare(ts[i], ts.subrange(i + 1, e), 0, Seq::empty(), Map::empty());
        lemma_units_keep_booleans_bare(ts, e);
    }
}

/// After tokenizing, a flag of the boolean set carries no values, in
/// whatever unit it stands.
pub proof fn lemma_boolean_flags_have_no_values(ts: Seq<Seq<char>>)
    ensures
        tokenize(ts) matches Ok(units) ==> forall|k: int|
            0 <= k < units.len() ==> booleans_are_bare(#[trigger] units[k].flags),
{
    lemma_units_keep_booleans_bare(ts, 0);
}

/// Whether no long flag from position `i` on names the flag `f`.
pub open spec fn flag_not_repeated(b: Seq<Seq<char>>, i: int, f: Seq<char>) -> bool {
    forall|k: int| i <= k < b.len() && is_long_flag(#[trigger] b[k]) ==> flag_of(b[k]) != f
}

proof fn lemma_scan_keeps_flag(
    name: Seq<char>,
    b: Seq<Seq<char>>,
    i: int,
    args: Seq<Seq<char>>,
    flags: Map<Seq<char>, Seq<Seq<char>>>,
    f: Seq<char>,
)
    requires
        0 <= i,
        flags.contains_key(f),
        flag_not_repeated(b, i, f),
    ensures
        scan_block(name, b, i, args, flags) matches Ok(u) ==> u.flags.contains_key(f) && u.flags[f]
            == flags[f],
    decreases b.len() - i,
{
    if i >= b.len() || is_subcommand_keyword(b[i]) {
    } else if is_long_flag(b[i]) {
        let flag = flag_of(b[i]);
        if is_boolean_flag(flag) {
            lemma_scan_keeps_flag(name, b, i + 1, args, flags.insert(flag, Seq::empty()), f);
        } else {
            let e = values_end(b, i + 1);
            lemma_values_end_bounds(b, i + 1);
            lemma_scan_keeps_flag(name, b, e, args, flags.insert(flag, b.subrange(i + 1, e)), f);
        }
    } else if is_short_dash(b[i]) && !takes_dash_positionals(name) {
    } else {
        lemma_scan_keeps_flag(name, b, i + 1, args.push(b[i]), flags, f);
    }
}

proof fn lemma_scan_reaches_flag(
    name: Seq<char>,
    b: Seq<Seq<char>>,
    i: int,
    args: Seq<Seq<char>>,
    flags: Map<Seq<char>, Seq<Seq<char>>>,
    j: int,
)
    requires
        0 <= i <= j < b.len(),
        forall|k: int| i <= k <= j ==> !is_subcommand_keyword(#[trigger] b[k]),
        is_long_flag(b[j]),
        !is_boolean_flag(flag_of(b[j])),
        flag_not_repeated(b, j + 1, flag_of(b[j])),
    ensures
        scan_block(name, b, i, args, flags) matches Ok(u) ==> u.flags.contains_key(flag_of(b[j]))
            && u.flags[flag_of(b[j])] == b.subrange(j + 1, values_end(b, j + 1)),
    decreases b.len() - i,
{
    let f = flag_of(b[j]);
    assert(!is_subcommand_keyword(b[i]));
    if is_long_flag(b[i]) {
        let flag = flag_of(b[i]);
        if is_boolean_flag(flag) {
            lemma_scan_reaches_flag(name, b, i + 1, args, flags.insert(flag, Seq::empty()), j);
        } else {
            let e = values_end(b, i + 1);
            lemma_values_end_bounds(b, i + 1);
            let next = flags.insert(flag, b.subrange(i + 1, e));
            if i == j {
                lemma_scan_keeps_flag(name, b, e, args, next, f);
            } else {
                assert(e <= j) by {
                    if e > j {
                        assert(!ends_values(b[j]));
                    }
                }
                lemma_scan_reaches_flag(name, b, e, args, next, j);
            }
        }
    } else if is_short_dash(b[i]) && !takes_dash_positionals(name) {
    } else {
        lemma_scan_reaches_flag(name, b, i + 1, args.push(b[i]), flags, j);
    }
}

/// In the block of a unit, a flag outside the boolean set takes the tokens
/// that follow it, up to the next long flag: where `--f` stands at position
/// `j` and is not given again later, the unit holds `f` with exactly those
/// tokens. So where the token after `--f` is no long flag, the values of `f`
/// are not empty and begin with that token.
pub proof fn lemma_flag_takes_following_values(name: Seq<char>, b: Seq<Seq<char>>, j: int)
    requires
        0 <= j < b.len(),
        forall|k: int| 0 <= k < b.len() ==> !is_subcommand_keyword(#[trigger] b[k]),
        is_long_flag(b[j]),
        !is_boolean_flag(flag_of(b[j])),
        flag_not_repeated(b, j + 1, flag_of(b[j])),
    ensures
        parse_block(name, b) matches Ok(u) ==> {
            &&& u.flags.contains_key(flag_of(b[j]))
            &&& u.flags[flag_of(b[j])] == b.subrange(j + 1, values_end(b, j + 1))
            &&& j + 1 < b.len() && !is_long_flag(b[j + 1]) ==> u.flags[flag_of(b[j])].len() > 0
                && u.flags[flag_of(b[j])][0] == b[j + 1]
        },
{
    lemma_scan_reaches_flag(name, b, 0, Seq::empty(), Map::empty(), j);
    lemma_values_end_bounds(b, j + 1);
    if j + 1 < b.len() && !is_long_flag(b[j + 1]) {
        assert(!ends_values(b[j + 1]));
        assert(values_end(b, j + 1) == values_end(b, j + 2));
        lemma_values_end_bounds(b, j + 2);
    }
}

/// The keywords among the tokens from position `i` on, in their order.
pub open spec fn keywords_from(ts: Seq<Seq<char>>, i: int) -> Seq<Seq<char>>
    decreases ts.len() - i,
{
    if i < 0 || i >= ts.len() {
        Seq::empty()
    } else if is_subcommand_keyword(ts[i]) {
        seq![ts[i]] + keywords_from(ts, i + 1)
    } else {
        keywords_from(ts, i + 1)
    }
}

/// The names of a list of units.
pub open spec fn unit_names(units: Seq<Unit>) -> Seq<Seq<char>> {
    Seq::new(units.len(), |k: int| units[k].name)
}

proof fn lemma_scan_keeps_name(
    name: Seq<char>,
    b: Seq<Seq<char>>,
    i: int,
    args: Seq<Seq<char>>,
    flags: Map<Seq<char>, Seq<Seq<char>>>,
)
    ensures
        scan_block(name, b, i, args, flags) matches Ok(u) ==> u.name == name,
    decreases b.len() - i,
{
    if i < 0 || i >= b.len() || is_subcommand_keyword(b[i]) {
    } else if is_long_flag(b[i]) {
        let flag = flag_of(b[i]);
        if is_boolean_flag(flag) {
            lemma_scan_keeps_name(name, b, i + 1, args, flags.insert(flag, Seq::empty()));
        } else {
            let e = values_end(b, i + 1);
            lemma_values_end_bounds(b, i + 1);
            lemma_scan_keeps_name(name, b, e, args, flags.insert(flag, b.subrange(i + 1, e)));
        }
    } else if is_short_dash(b[i]) && !takes_dash_positionals(name) {
    } else {
        lemma_scan_keeps_name(name, b, i + 1, args.push(b[i]), flags);
    }
}

proof fn lemma_no_keyword_in_block(ts: Seq<Seq<char>>, i: int, e: int)
    requires
        0 <= i <= e <= ts.len(),
        forall|j: int| i <= j < e ==> !is_subcommand_keyword(#[trigger] ts[j]),
    ensures
        keywords_from(ts, i) == keywords_from(ts, e),
    decreases e - i,
{
    if i < e {
        lemma_no_keyword_in_block(ts, i + 1, e);
    }
}

proof fn lemma_units_follow_keywords_from(ts: Seq<Seq<char>>, i: int)
    requires
        0 <= i,
    ensures
        tokenize_from(ts, i) matches Ok(units) ==> unit_names(units) == keywords_from(ts, i),
    decreases ts.len() - i,
{
    if i >= ts.len() {
        assert(unit_names(Seq::<Unit>::empty()) =~= Seq::<Seq<char>>::empty());
    } else if !is_subcommand_keyword(ts[i]) {
        lemma_units_follow_keywords_from(ts, i + 1);
    } else {
        let e = block_end(ts, i + 1);
        lemma_block_end_bounds(ts, i + 1);
        lemma_scan_keeps_name(ts[i], ts.subrange(i + 1, e), 0, Seq::empty(), Map::empty());
        lemma_units_follow_keywords_from(ts, e);
        lemma_no_keyword_in_block(ts, i + 1, e);
        match parse_block(ts[i], ts.subrange(i + 1, e)) {
            Ok(u) => match tokenize_from(ts, e) {
                Ok(rest) => {
                    assert(unit_names(seq![u] + rest) =~= seq![ts[i]] + unit_names(rest));
                },
                Err(_) => {},
            },
            Err(_) => {},
        }
    }
}

/// The units come in the order of the keywords on the command line, one
/// unit for each keyword token, named by it.
pub proof fn lemma_units_follow_keywords(ts: Seq<Seq<char>>)
    ensures
        tokenize(ts) matches Ok(units) ==> unit_names(units) == keywords_from(ts, 0),
{
    lemma_units_follow_keywords_from(ts, 0);
}

proof fn lemma_block_end_before(x: Seq<Seq<char>>, y: Seq<Seq<char>>, j: int)
    requires
        0 <= j <= x.len(),
        y.len() == 0 || is_subcommand_keyword(y[0]),
    ensures
        block_end(x + y, j) == block_end(x, j),
    decreases x.len() - j,
{
    if j < x.len() {
        assert((x + y)[j] == x[j]);
        if !is_subcommand_keyword(x[j]) {
            lemma_block_end_before(x, y, j + 1);
        }
    } else if y.len() > 0 {
        assert((x + y)[j] == y[0]);
    }
}

proof fn lemma_block_end_behind(x: Seq<Seq<char>>, y: Seq<Seq<char>>, k: int)
    requires
        0 <= k <= y.len(),
    ensures
        block_end(x + y, x.len() + k) == x.len() + block_end(y, k),
    decreases y.len() - k,
{
    if k < y.len() {
        assert((x + y)[x.len() + k] == y[k]);
        if !is_subcommand_keyword(y[k]) {
            lemma_block_end_behind(x, y, k + 1);
        }
    }
}

proof fn lemma_tokenize_behind(x: Seq<Seq<char>>, y: Seq<Seq<char>>, k: int)
    requires
        0 <= k,
    ensures
        tokenize_from(x + y, x.len() + k) == tokenize_from(y, k),
    decreases y.len() - k,
{
    if k < y.len() {
        assert((x + y)[x.len() + k] == y[k]);
        if !is_subcommand_keyword(y[k]) {
            lemma_tokenize_behind(x, y, k + 1);
        } else {
            let e = block_end(y, k + 1);
            lemma_block_end_bounds(y, k + 1);
            lemma_block_end_behind(x, y, k + 1);
            assert((x + y).subrange(x.len() + k + 1, x.len() + e) =~= y.subrange(k + 1, e));
            lemma_tokenize_behind(x, y, e);
        }
    }
}

proof fn lemma_tokenize_before(x: Seq<Seq<char>>, y: Seq<Seq<char>>, i: int)
    requires
        0 <= i <= x.len(),
        y.len() == 0 || is_subcommand_keyword(y[0]),
    ensures
        tokenize_from(x + y, i) == match tokenize_from(x, i) {
            Ok(units) => then_units(units, tokenize(y)),
            Err(t) => Err(t),
        },
    decreases x.len() - i,
{
    if i == x.len() {
        lemma_tokenize_behind(x, y, 0);
        match tokenize(y) {
            Ok(us) => {
                assert(Seq::<Unit>::empty() + us =~= us);
            },
            Err(_) => {},
        }
    } else {
        assert((x + y)[i] == x[i]);
        if !is_subcommand_keyword(x[i]) {
            lemma_tokenize_before(x, y, i + 1);
        } else {
            let e = block_end(x, i + 1);
            lemma_block_end_bounds(x, i + 1);
            lemma_block_end_before(x, y, i + 1);
            assert((x + y).subrange(i + 1, e) =~= x.subrange(i + 1, e));
            lemma_tokenize_before(x, y, e);
            match parse_block(x[i], x.subrange(i + 1, e)) {
                Ok(u) => match tokenize_from(x, e) {
                    Ok(rest) => match tokenize(y) {
                        Ok(us) => {
                            assert(seq![u] + (rest + us) =~= (seq![u] + rest) + us);
                        },
                        Err(_) => {},
                    },
                    Err(_) => {},
                },
                Err(_) => {},
            }
        }
    }
}

/// The units of a command line are the units of its blocks, one after
/// another: where the tokens `y` begin with a keyword, the tokens `x`
/// followed by `y` give the units of `x` followed by the units of `y`. What
/// a block gives depends on no other block, so blocks typed in another
/// order give the same units in that order. A token refused in `x` is
/// refused before any in `y`.
pub proof fn lemma_tokenize_blocks(x: Seq<Seq<char>>, y: Seq<Seq<char>>)
    requires
        y.len() == 0 || is_subcommand_keyword(y[0]),
    ensures
        tokenize(x + y) == match tokenize(x) {
            Ok(units) => then_units(units, tokenize(y)),
            Err(t) => Err(t),
        },
{
    lemma_tokenize_before(x, y, 0);
}

} // verus!
