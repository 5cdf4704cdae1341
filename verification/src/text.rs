//! Small helpers on strings, stated over their character sequences.

use vstd::prelude::*;
use vstd::std_specs::iter::IteratorSpec;
use vstd::string::*;

verus! {

/// The character sequence of an optional string.
pub open spec fn opt_view(o: Option<String>) -> Option<Seq<char>> {
    match o {
        Some(s) => Some(s@),
        None => None,
    }
}

/// The characters of a string, one by one.
pub fn chars_of(s: &str) -> (r: Vec<char>)
    ensures
        r@ == s@,
{
    broadcast use vstd::string::group_string_axioms;

    let mut out: Vec<char> = Vec::new();
    let mut it = s.chars();
    assert(it.remaining() == s@);
    loop
        invariant
            out@ + it.remaining() == s@,
            it.obeys_prophetic_iter_laws(),
        decreases s@.len() - out@.len(),
    {
        let ghost before = it.remaining();
        match it.next() {
            Some(c) => {
                let ghost so_far = out@;
                out.push(c);
                assert(out@ + it.remaining() =~= so_far + before);
            },
            None => {
                assert(out@ + it.remaining() =~= out@);
                return out;
            },
        }
    }
}

/// The code of a character.
pub fn code_of(c: char) -> (r: u32)
    ensures
        r as int == c as int,
{
    c as u32
}

/// Whether two string slices hold the same characters.
pub fn str_eq(a: &str, b: &str) -> (r: bool)
    ensures
        r == (a@ == b@),
{
    let x = String::from_str(a);
    let y = String::from_str(b);
    x == y
}

/// A copy of a list of strings.
pub fn clone_strings(v: &Vec<String>) -> (r: Vec<String>)
    ensures
        r.deep_view() == v.deep_view(),
{
    let mut out: Vec<String> = Vec::new();
    let mut i: usize = 0;
    while i < v.len()
        invariant
            i <= v.len(),
            out.len() == i,
            forall|j: int| 0 <= j < i ==> out[j]@ == v[j]@,
        decreases v.len() - i,
    {
        out.push(v[i].clone());
        i += 1;
    }
    assert(out.deep_view() =~= v.deep_view());
    out
}

/// Whether a token opens a long flag: it begins with two dashes.
pub open spec fn is_long_flag(t: Seq<char>) -> bool {
    t.len() >= 2 && t[0] == '-' && t[1] == '-'
}

/// Whether a token looks like a short option: one dash, then at least one
/// more character, the first of which is not a dash.
pub open spec fn is_short_dash(t: Seq<char>) -> bool {
    t.len() >= 2 && t[0] == '-' && t[1] != '-'
}

/// Whether a token opens a long flag.
pub fn token_is_long_flag(s: &str) -> (r: bool)
    ensures
        r == is_long_flag(s@),
{
    let n: usize = s.unicode_len();
    n >= 2 && s.get_char(0) == '-' && s.get_char(1) == '-'
}

/// Whether a token looks like a short option.
pub fn token_is_short_dash(s: &str) -> (r: bool)
    ensures
        r == is_short_dash(s@),
{
    let n: usize = s.unicode_len();
    n >= 2 && s.get_char(0) == '-' && s.get_char(1) != '-'
}

/// The flag that a long-flag token names: the token without its two
/// leading dashes.
pub open spec fn flag_of(t: Seq<char>) -> Seq<char> {
    t.subrange(2, t.len() as int)
}

/// The name of a long flag: the token without its two leading dashes.
pub(crate) fn flag_name_of(s: &str) -> (r: String)
    requires
        is_long_flag(s@),
    ensures
        r@ == flag_of(s@),
{
    let n: usize = s.unicode_len();
    String::from_str(s.substring_char(2, n))
}

/// Whether `a` and `b` agree before position `k` and `a` is the smaller at
/// `k`: it ends there while `b` goes on, or holds the smaller character.
pub open spec fn less_at(a: Seq<char>, b: Seq<char>, k: int) -> bool {
    &&& 0 <= k <= a.len()
    &&& k < b.len()
    &&& forall|j: int| 0 <= j < k ==> a[j] == b[j]
    &&& (k == a.len() || (a[k] as int) < (b[k] as int))
}

/// The order of strings: character by character, a proper prefix first.
pub open spec fn seq_lt(a: Seq<char>, b: Seq<char>) -> bool {
    exists|k: int| less_at(a, b, k)
}

/// No string stands before itself.
pub proof fn lemma_seq_lt_irreflexive(a: Seq<char>)
    ensures
        !seq_lt(a, a),
{
}

/// The order of strings is transitive.
pub proof fn lemma_seq_lt_transitive(a: Seq<char>, b: Seq<char>, c: Seq<char>)
    requires
        seq_lt(a, b),
        seq_lt(b, c),
    ensures
        seq_lt(a, c),
{
    let k1 = choose|k: int| less_at(a, b, k);
    let k2 = choose|k: int| less_at(b, c, k);
    let k = if k1 <= k2 {
        k1
    } else {
        k2
    };
    assert(less_at(a, c, k));
}

/// Whether `a` stands before `b` in the order of strings.
pub fn str_lt(a: &str, b: &str) -> (r: bool)
    ensures
        r == seq_lt(a@, b@),
{
    let x = chars_of(a);
    let y = chars_of(b);
    let n: usize = x.len();
    let m: usize = y.len();
    let mut k: usize = 0;
    while k < n && k < m && x[k] == y[k]
        invariant
            k <= n,
            k <= m,
            n == x.len(),
            m == y.len(),
            forall|j: int| 0 <= j < k ==> x[j] == y[j],
        decreases n - k,
    {
        k += 1;
    }
    if k == m {
        assert forall|q: int| !less_at(x@, y@, q) by {
            if less_at(x@, y@, q) {
                assert(x[q] == y[q]);
            }
        }
        false
    } else if k == n {
        assert(less_at(x@, y@, k as int));
        true
    } else {
        let c: u32 = code_of(x[k]);
        let d: u32 = code_of(y[k]);
        if c < d {
            assert(less_at(x@, y@, k as int));
        } else {
            assert forall|q: int| !less_at(x@, y@, q) by {
                if less_at(x@, y@, q) {
                    if q < k {
                        assert(x[q] == y[q]);
                    } else if q > k {
                        assert(x[k as int] == y[k as int]);
                    }
                }
            }
        }
        c < d
    }
}

/// The first position from `k` on at which `a` and `b` differ or one ends.
pub open spec fn first_difference(a: Seq<char>, b: Seq<char>, k: int) -> int
    decreases a.len() - k,
{
    if 0 <= k < a.len() && k < b.len() && a[k] == b[k] {
        first_difference(a, b, k + 1)
    } else {
        k
    }
}

proof fn lemma_first_difference(a: Seq<char>, b: Seq<char>, k: int)
    requires
        0 <= k <= a.len(),
        k <= b.len(),
    ensures
        k <= first_difference(a, b, k) <= a.len(),
        first_difference(a, b, k) <= b.len(),
        forall|j: int| k <= j < first_difference(a, b, k) ==> a[j] == b[j],
        first_difference(a, b, k) < a.len() && first_difference(a, b, k) < b.len() ==> a[first_difference(
            a,
            b,
            k,
        )] != b[first_difference(a, b, k)],
    decreases a.len() - k,
{
    if k < a.len() && k < b.len() && a[k] == b[k] {
        lemma_first_difference(a, b, k + 1);
    }
}

/// Of two different strings one stands before the other.
pub proof fn lemma_seq_lt_total(a: Seq<char>, b: Seq<char>)
    ensures
        a == b || seq_lt(a, b) || seq_lt(b, a),
{
    let d = first_difference(a, b, 0);
    lemma_first_difference(a, b, 0);
    if d == a.len() && d == b.len() {
        assert(a =~= b);
    } else if d == a.len() {
        assert(less_at(a, b, d));
    } else if d == b.len() {
        assert(less_at(b, a, d));
    } else if (a[d] as int) < (b[d] as int) {
        assert(less_at(a, b, d));
    } else {
        assert(less_at(b, a, d));
    }
}

/// Whether a character is a decimal digit.
pub open spec fn is_digit(c: char) -> bool {
    48 <= (c as int) <= 57
}

/// Whether a text holds decimal digits only.
pub open spec fn all_digits(s: Seq<char>) -> bool {
    forall|i: int| 0 <= i < s.len() ==> is_digit(#[trigger] s[i])
}

/// The number that a run of decimal digits writes.
pub open spec fn digits_value(s: Seq<char>) -> nat
    decreases s.len(),
{
    if s.len() == 0 {
        0
    } else {
        digits_value(s.drop_last()) * 10 + ((s.last() as int) - 48) as nat
    }
}

/// The index that a text writes: an optional plus sign, then at least one
/// decimal digit and nothing else, the number within the machine's range.
pub open spec fn parse_index(s: Seq<char>) -> Option<usize> {
    let digits = if s.len() > 0 && s[0] == '+' {
        s.drop_first()
    } else {
        s
    };
    if digits.len() > 0 && all_digits(digits) && digits_value(digits) <= usize::MAX {
        Some(digits_value(digits) as usize)
    } else {
        None
    }
}

proof fn lemma_digits_value_grows(s: Seq<char>, i: int)
    requires
        0 <= i <= s.len(),
        all_digits(s),
    ensures
        digits_value(s.subrange(0, i)) <= digits_value(s),
    decreases s.len() - i,
{
    if i < s.len() {
        let next = s.subrange(0, i + 1);
        assert(next.drop_last() =~= s.subrange(0, i));
        assert(is_digit(s[i]));
        lemma_digits_value_grows(s, i + 1);
    } else {
        assert(s.subrange(0, i) =~= s);
    }
}

/// Reads a text as an index.
pub fn parse_usize(s: &str) -> (r: Option<usize>)
    ensures
        r == parse_index(s@),
{
    let chars = chars_of(s);
    let n: usize = chars.len();
    if n == 0 {
        return None;
    }
    let start: usize = if chars[0] == '+' {
        1
    } else {
        0
    };
    let ghost digits = if start == 1 {
        s@.drop_first()
    } else {
        s@
    };
    if start == n {
        return None;
    }
    let mut value: usize = 0;
    let mut i: usize = start;
    assert(digits.subrange(0, 0) =~= Seq::<char>::empty());
    while i < n
        invariant
            start <= i <= n,
            n == s@.len(),
            chars@ == s@,
            start <= 1,
            digits == (if s@.len() > 0 && s@[0] == '+' {
                s@.drop_first()
            } else {
                s@
            }),
            start == 1 <==> s@[0] == '+',
            digits.len() == n - start,
            forall|j: int| 0 <= j < digits.len() ==> digits[j] == s@[j + start],
            forall|j: int| 0 <= j < i - start ==> is_digit(#[trigger] digits[j]),
            value == digits_value(digits.subrange(0, i - start)),
        decreases n - i,
    {
        let c: u32 = code_of(chars[i]);
        if c < 48 || c > 57 {
            assert(!is_digit(digits[i - start]));
            return None;
        }
        let d: usize = (c - 48) as usize;
        let ghost next = digits.subrange(0, i - start + 1);
        assert(next.drop_last() =~= digits.subrange(0, i - start));
        assert(next.last() == digits[i - start]);
        if value > (usize::MAX - d) / 10 {
            proof {
                if all_digits(digits) {
                    lemma_digits_value_grows(digits, i - start + 1);
                }
            }
            return None;
        }
        value = value * 10 + d;
        i += 1;
    }
    assert(digits.subrange(0, n - start) =~= digits);
    Some(value)
}

/// The text of one decimal digit.
pub open spec fn digit_text(d: nat) -> Seq<char> {
    if d == 0 {
        "0"@
    } else if d == 1 {
        "1"@
    } else if d == 2 {
        "2"@
    } else if d == 3 {
        "3"@
    } else if d == 4 {
        "4"@
    } else if d == 5 {
        "5"@
    } else if d == 6 {
        "6"@
    } else if d == 7 {
        "7"@
    } else if d == 8 {
        "8"@
    } else {
        "9"@
    }
}

/// A number written in decimal digits, without leading zeros.
pub open spec fn decimal(n: nat) -> Seq<char>
    decreases n,
{
    if n < 10 {
        digit_text(n)
    } else {
        decimal(n / 10) + digit_text(n % 10)
    }
}

fn digit_str(d: usize) -> (r: &'static str)
    requires
        d < 10,
    ensures
        r@ == digit_text(d as nat),
{
    if d == 0 {
        "0"
    } else if d == 1 {
        "1"
    } else if d == 2 {
        "2"
    } else if d == 3 {
        "3"
    } else if d == 4 {
        "4"
    } else if d == 5 {
        "5"
    } else if d == 6 {
        "6"
    } else if d == 7 {
        "7"
    } else if d == 8 {
        "8"
    } else {
        "9"
    }
}

/// Writes a number in decimal digits.
pub fn decimal_string(n: usize) -> (r: String)
    ensures
        r@ == decimal(n as nat),
    decreases n,
{
    if n < 10 {
        String::from_str(digit_str(n))
    } else {
        decimal_string(n / 10).concat(digit_str(n % 10))
    }
}

/// Whether two strings hold the same characters.
pub fn string_eq(a: &String, b: &String) -> (r: bool)
    ensures
        r == (a@ == b@),
{
    *a == *b
}

/// Whether `needle` occurs in `text` as a run of characters. The empty
/// text occurs everywhere.
pub open spec fn contains_text(text: Seq<char>, needle: Seq<char>) -> bool {
    exists|i: int| occurs_at(text, needle, i)
}

/// Whether `needle` stands in `text` at position `i`.
pub open spec fn occurs_at(text: Seq<char>, needle: Seq<char>, i: int) -> bool {
    0 <= i && i + needle.len() <= text.len() && text.subrange(i, i + needle.len()) == needle
}

/// Whether `needle` occurs in `text`.
pub fn str_contains(text: &str, needle: &str) -> (r: bool)
    ensures
        r == contains_text(text@, needle@),
{
    let t = chars_of(text);
    let p = chars_of(needle);
    let n: usize = t.len();
    let m: usize = p.len();
    if m > n {
        return false;
    }
    let mut i: usize = 0;
    while i <= n - m
        invariant
            m <= n,
            n == t.len(),
            m == p.len(),
            t@ == text@,
            p@ == needle@,
            i <= n - m + 1,
            forall|k: int| 0 <= k < i ==> !occurs_at(t@, p@, k),
        decreases n - m + 1 - i,
    {
        let mut j: usize = 0;
        while j < m && t[i + j] == p[j]
            invariant
                m <= n,
                n == t.len(),
                m == p.len(),
                i <= n - m,
                j <= m,
                forall|q: int| 0 <= q < j ==> t[i + q] == p[q],
            decreases m - j,
        {
            j += 1;
        }
        if j == m {
            assert(t@.subrange(i as int, i + m) =~= p@);
            assert(occurs_at(t@, p@, i as int));
            return true;
        }
        assert(t@.subrange(i as int, i + m)[j as int] != p[j as int]);
        i += 1;
    }
    false
}

/// Whether a character has the Unicode property `Uppercase`.
pub uninterp spec fn char_is_uppercase(c: char) -> bool;

/// Whether a character has the Unicode property `White_Space`.
pub uninterp spec fn char_is_whitespace(c: char) -> bool;

/// `char::is_uppercase` tells whether a character has the property
/// `Uppercase`: a fact about the character alone.
#[verifier::external_body]
pub(crate) fn is_uppercase_char(c: char) -> (r: bool)
    ensures
        r == char_is_uppercase(c),
{
    c.is_uppercase()
}

/// `char::is_whitespace` tells whether a character has the property
/// `White_Space`: a fact about the character alone.
#[verifier::external_body]
pub(crate) fn is_whitespace_char(c: char) -> (r: bool)
    ensures
        r == char_is_whitespace(c),
{
    c.is_whitespace()
}

/// The first position from `i` on that holds no white space, or the end.
pub open spec fn skip_space(s: Seq<char>, i: int) -> int
    decreases s.len() - i,
{
    if 0 <= i < s.len() && char_is_whitespace(s[i]) {
        skip_space(s, i + 1)
    } else {
        i
    }
}

/// The end of the text before `j` once the white space at its end is cut.
pub open spec fn cut_space(s: Seq<char>, j: int) -> int
    decreases j,
{
    if 0 < j <= s.len() && char_is_whitespace(s[j - 1]) {
        cut_space(s, j - 1)
    } else {
        j
    }
}

/// A text without the white space at its two ends.
pub open spec fn trimmed(s: Seq<char>) -> Seq<char> {
    let start = skip_space(s, 0);
    if start >= s.len() {
        Seq::empty()
    } else {
        s.subrange(start, cut_space(s, s.len() as int))
    }
}

/// A line without the white space at its two ends.
pub fn trim_line(line: &str) -> (r: &str)
    ensures
        r@ == trimmed(line@),
{
    let chars = chars_of(line);
    let n: usize = chars.len();
    let mut start: usize = 0;
    while start < n && is_whitespace_char(chars[start])
        invariant
            start <= n,
            n == chars.len(),
            chars@ == line@,
            skip_space(line@, 0) == skip_space(line@, start as int),
        decreases n - start,
    {
        start += 1;
    }
    if start >= n {
        proof {
            reveal_strlit("");
            assert(""@ =~= Seq::<char>::empty());
        }
        return "";
    }
    let mut end: usize = n;
    while end > start + 1 && is_whitespace_char(chars[end - 1])
        invariant
            start < end <= n,
            n == chars.len(),
            chars@ == line@,
            !char_is_whitespace(line@[start as int]),
            cut_space(line@, n as int) == cut_space(line@, end as int),
        decreases end,
    {
        end -= 1;
    }
    line.substring_char(start, end)
}

/// A run of `n` copies of one character.
pub open spec fn fill(c: char, n: int) -> Seq<char> {
    Seq::new(
        if n > 0 {
            n as nat
        } else {
            0
        },
        |i: int| c,
    )
}

/// A text of `n` copies of a character that is written as `unit`.
pub(crate) fn repeat(unit: &str, c: char, n: usize) -> (r: String)
    requires
        unit@ == seq![c],
    ensures
        r@ == fill(c, n as int),
{
    let mut out = String::new();
    let mut i: usize = 0;
    assert(out@ =~= fill(c, 0));
    while i < n
        invariant
            i <= n,
            unit@ == seq![c],
            out@ == fill(c, i as int),
        decreases n - i,
    {
        out.append(unit);
        i += 1;
        assert(out@ =~= fill(c, i as int));
    }
    out
}

/// The name under which a file is shown: `?` where it has none.
pub open spec fn shown_name(name: Option<Seq<char>>) -> Seq<char> {
    match name {
        Some(n) => n,
        None => "?"@,
    }
}

/// The name under which a file is shown.
pub fn name_or_mark(name: &Option<String>) -> (r: &str)
    ensures
        r@ == shown_name(opt_view(*name)),
{
    match name {
        Some(n) => n.as_str(),
        None => "?",
    }
}

/// Adds the lines of `more` to `lines`.
pub fn add_lines(lines: &mut Vec<String>, more: Vec<String>)
    ensures
        final(lines).deep_view() == old(lines).deep_view() + more.deep_view(),
{
    let ghost before = lines.deep_view();
    let mut more = more;
    let ghost added = more.deep_view();
    lines.append(&mut more);
    assert(lines.deep_view() =~= before + added);
}

} // verus!
