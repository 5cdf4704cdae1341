//! The registry of named rename patterns.

use vstd::prelude::*;
use vstd::string::*;
use crate::text::{
    lemma_seq_lt_irreflexive, lemma_seq_lt_total, lemma_seq_lt_transitive, seq_lt, str_eq, str_lt,
};

verus! {

/// One template: a name and the rename pattern it stands for.
struct TemplateEntry {
    name: String,
    pattern: String,
}

/// The templates, kept in the order of their names.
pub struct TemplateRegistry {
    entries: Vec<TemplateEntry>,
}

/// The map that a list of entries stands for: later entries win.
spec fn table_map(es: Seq<TemplateEntry>) -> Map<Seq<char>, Seq<char>>
    decreases es.len(),
{
    if es.len() == 0 {
        Map::empty()
    } else {
        table_map(es.drop_last()).insert(es.last().name@, es.last().pattern@)
    }
}

/// The names and patterns of a list of entries, in its order.
spec fn table_pairs(es: Seq<TemplateEntry>) -> Seq<(Seq<char>, Seq<char>)> {
    Seq::new(es.len(), |i: int| (es[i].name@, es[i].pattern@))
}

/// Whether the names of the entries ascend strictly.
spec fn ascending(es: Seq<TemplateEntry>) -> bool {
    forall|i: int, j: int| 0 <= i < j < es.len() ==> seq_lt(#[trigger] es[i].name@, #[trigger] es[j].name@)
}

/// Whether `pairs` lists the entries of `m`: every entry once, the names
/// ascending in the order of strings.
pub open spec fn is_sorted_listing(pairs: Seq<(Seq<char>, Seq<char>)>, m: Map<Seq<char>, Seq<char>>) -> bool {
    &&& forall|i: int, j: int| 0 <= i < j < pairs.len() ==> seq_lt(#[trigger] pairs[i].0, #[trigger] pairs[j].0)
    &&& forall|i: int| 0 <= i < pairs.len() ==> m.contains_key(#[trigger] pairs[i].0) && m[pairs[i].0] == pairs[i].1
    &&& forall|k: Seq<char>| m.contains_key(k) ==> exists|i: int| 0 <= i < pairs.len() && #[trigger] pairs[i].0 == k
}

/// The built-in templates.
pub open spec fn builtin_templates() -> Map<Seq<char>, Seq<char>> {
    Map::<Seq<char>, Seq<char>>::empty()
        .insert("photo-date"@, "%N_%D.%E"@)
        .insert("photo-counter"@, "photo_%C3.%E"@)
        .insert("photo-datetime"@, "%N_%FD_%FH.%E"@)
        .insert("doc-date"@, "%N_%D.%E"@)
        .insert("doc-counter"@, "document_%C2.%E"@)
        .insert("lowercase"@, "%L%N.%E"@)
        .insert("lowercase-name"@, "%N%L.%E"@)
        .insert("uppercase"@, "%U%N.%E"@)
        .insert("uppercase-name"@, "%N%U.%E"@)
        .insert("title-case"@, "%T%N.%E"@)
        .insert("title-case-name"@, "%N%T.%E"@)
        .insert("parent-prefix"@, "%P_%N.%E"@)
        .insert("parent-suffix"@, "%N_%P.%E"@)
        .insert("counter-2"@, "%C2.%E"@)
        .insert("counter-3"@, "%C3.%E"@)
        .insert("counter-4"@, "%C4.%E"@)
        .insert("counter-prefix"@, "%C3_%N.%E"@)
        .insert("counter-suffix"@, "%N_%C3.%E"@)
        .insert("date-suffix"@, "%N_%D.%E"@)
        .insert("date-prefix"@, "%D_%N.%E"@)
        .insert("datetime-suffix"@, "%N_%D_%H.%E"@)
        .insert("trim-spaces"@, "%M%N.%E"@)
        .insert("underscore-to-dash"@, "%N%R/_/-.%E"@)
        .insert("dash-to-underscore"@, "%N%R/-/_.%E"@)
}

/// What tells the built-in names apart: the length of a name and three of
/// its characters.
pub open spec fn name_mark(s: Seq<char>) -> (nat, char, char, char) {
    (
        s.len(),
        s[0],
        s[5],
        if s.len() > 8 {
            s[8]
        } else {
            ' '
        },
    )
}

/// The built-in names are 24 different names: no two have the same mark.
pub proof fn lemma_builtin_names_differ()
    ensures
        name_mark("photo-date"@) == (10nat, 'p', '-', 't'),
        name_mark("photo-counter"@) == (13nat, 'p', '-', 'u'),
        name_mark("photo-datetime"@) == (14nat, 'p', '-', 't'),
        name_mark("doc-date"@) == (8nat, 'd', 'a', ' '),
        name_mark("doc-counter"@) == (11nat, 'd', 'o', 't'),
        name_mark("lowercase"@) == (9nat, 'l', 'c', 'e'),
        name_mark("lowercase-name"@) == (14nat, 'l', 'c', 'e'),
        name_mark("uppercase"@) == (9nat, 'u', 'c', 'e'),
        name_mark("uppercase-name"@) == (14nat, 'u', 'c', 'e'),
        name_mark("title-case"@) == (10nat, 't', '-', 's'),
        name_mark("title-case-name"@) == (15nat, 't', '-', 's'),
        name_mark("parent-prefix"@) == (13nat, 'p', 't', 'r'),
        name_mark("parent-suffix"@) == (13nat, 'p', 't', 'u'),
        name_mark("counter-2"@) == (9nat, 'c', 'e', '2'),
        name_mark("counter-3"@) == (9nat, 'c', 'e', '3'),
        name_mark("counter-4"@) == (9nat, 'c', 'e', '4'),
        name_mark("counter-prefix"@) == (14nat, 'c', 'e', 'p'),
        name_mark("counter-suffix"@) == (14nat, 'c', 'e', 's'),
        name_mark("date-suffix"@) == (11nat, 'd', 's', 'f'),
        name_mark("date-prefix"@) == (11nat, 'd', 'p', 'f'),
        name_mark("datetime-suffix"@) == (15nat, 'd', 'i', '-'),
        name_mark("trim-spaces"@) == (11nat, 't', 's', 'c'),
        name_mark("underscore-to-dash"@) == (18nat, 'u', 's', 'r'),
        name_mark("dash-to-underscore"@) == (18nat, 'd', 't', 'u'),
{
    reveal_strlit("photo-date");
    reveal_strlit("photo-counter");
    reveal_strlit("photo-datetime");
    reveal_strlit("doc-date");
    reveal_strlit("doc-counter");
    reveal_strlit("lowercase");
    reveal_strlit("lowercase-name");
    reveal_strlit("uppercase");
    reveal_strlit("uppercase-name");
    reveal_strlit("title-case");
    reveal_strlit("title-case-name");
    reveal_strlit("parent-prefix");
    reveal_strlit("parent-suffix");
    reveal_strlit("counter-2");
    reveal_strlit("counter-3");
    reveal_strlit("counter-4");
    reveal_strlit("counter-prefix");
    reveal_strlit("counter-suffix");
    reveal_strlit("date-suffix");
    reveal_strlit("date-prefix");
    reveal_strlit("datetime-suffix");
    reveal_strlit("trim-spaces");
    reveal_strlit("underscore-to-dash");
    reveal_strlit("dash-to-underscore");
}

/// A key is in the map of a list exactly if an entry has that name, and the
/// last such entry gives its pattern.
proof fn lemma_table_map_keys(es: Seq<TemplateEntry>, k: Seq<char>)
    ensures
        table_map(es).contains_key(k) <==> exists|i: int| 0 <= i < es.len() && #[trigger] es[i].name@ == k,
    decreases es.len(),
{
    if es.len() > 0 {
        lemma_table_map_keys(es.drop_last(), k);
        if table_map(es).contains_key(k) {
            if es.last().name@ == k {
                assert(es[es.len() - 1].name@ == k);
            } else {
                let i = choose|i: int| 0 <= i < es.drop_last().len() && #[trigger] es.drop_last()[i].name@ == k;
                assert(es[i].name@ == k);
            }
        }
        if exists|i: int| 0 <= i < es.len() && #[trigger] es[i].name@ == k {
            let i = choose|i: int| 0 <= i < es.len() && #[trigger] es[i].name@ == k;
            if i < es.len() - 1 {
                assert(es.drop_last()[i].name@ == k);
            }
        }
    }
}

/// Where the names ascend, each entry gives the pattern of its own name.
proof fn lemma_table_map_value(es: Seq<TemplateEntry>, i: int)
    requires
        ascending(es),
        0 <= i < es.len(),
    ensures
        table_map(es).contains_key(es[i].name@),
        table_map(es)[es[i].name@] == es[i].pattern@,
    decreases es.len(),
{
    if i < es.len() - 1 {
        assert(ascending(es.drop_last())) by {
            assert forall|a: int, b: int| 0 <= a < b < es.drop_last().len() implies seq_lt(
                #[trigger] es.drop_last()[a].name@,
                #[trigger] es.drop_last()[b].name@,
            ) by {
                assert(seq_lt(es[a].name@, es[b].name@));
            }
        }
        lemma_table_map_value(es.drop_last(), i);
        assert(seq_lt(es[i].name@, es[es.len() - 1].name@));
        lemma_seq_lt_irreflexive(es[i].name@);
        assert(es.drop_last()[i] == es[i]);
    }
}

/// Taking an entry out leaves the names ascending and takes its name out of
/// the map.
proof fn lemma_remove_entry(es: Seq<TemplateEntry>, p: int)
    requires
        ascending(es),
        0 <= p < es.len(),
    ensures
        ascending(es.remove(p)),
        table_map(es.remove(p)) == table_map(es).remove(es[p].name@),
{
    let rs = es.remove(p);
    assert forall|i: int, j: int| 0 <= i < j < rs.len() implies seq_lt(
        #[trigger] rs[i].name@,
        #[trigger] rs[j].name@,
    ) by {
        let oi = if i < p {
            i
        } else {
            i + 1
        };
        let oj = if j < p {
            j
        } else {
            j + 1
        };
        assert(seq_lt(es[oi].name@, es[oj].name@));
    }
    let want = table_map(es).remove(es[p].name@);
    assert forall|k: Seq<char>| table_map(rs).contains_key(k) <==> want.contains_key(k) by {
        lemma_table_map_keys(rs, k);
        lemma_table_map_keys(es, k);
        if table_map(rs).contains_key(k) {
            let i = choose|i: int| 0 <= i < rs.len() && #[trigger] rs[i].name@ == k;
            let oi = if i < p {
                i
            } else {
                i + 1
            };
            assert(es[oi].name@ == k);
            lemma_seq_lt_irreflexive(k);
            if oi < p {
                assert(seq_lt(es[oi].name@, es[p].name@));
            } else {
                assert(seq_lt(es[p].name@, es[oi].name@));
            }
        }
        if want.contains_key(k) {
            let i = choose|i: int| 0 <= i < es.len() && #[trigger] es[i].name@ == k;
            let ri = if i < p {
                i
            } else {
                i - 1
            };
            assert(rs[ri].name@ == k);
        }
    }
    assert forall|k: Seq<char>| table_map(rs).contains_key(k) implies table_map(rs)[k] == want[k] by {
        lemma_table_map_keys(rs, k);
        let i = choose|i: int| 0 <= i < rs.len() && #[trigger] rs[i].name@ == k;
        let oi = if i < p {
            i
        } else {
            i + 1
        };
        lemma_table_map_value(rs, i);
        lemma_table_map_value(es, oi);
    }
    assert(table_map(rs) =~= want);
}

/// An entry put between the names below it and the names above it leaves
/// the names ascending. The entries from `q` on in `whole` are those from
/// `p` on in `es`.
proof fn lemma_ascending_place(
    es: Seq<TemplateEntry>,
    p: int,
    e: TemplateEntry,
    whole: Seq<TemplateEntry>,
    q: int,
)
    requires
        ascending(es),
        ascending(whole),
        0 <= p <= es.len(),
        p <= q <= whole.len(),
        es.len() - p == whole.len() - q,
        forall|a: int| 0 <= a < p ==> es[a] == whole[a],
        forall|a: int| p <= a < es.len() ==> es[a] == whole[a - p + q],
        forall|a: int| 0 <= a < p ==> seq_lt(#[trigger] whole[a].name@, e.name@),
        q < whole.len() ==> seq_lt(e.name@, whole[q].name@),
    ensures
        ascending(es.insert(p, e)),
{
    let ns = es.insert(p, e);
    assert forall|i: int, j: int| 0 <= i < j < ns.len() implies seq_lt(
        #[trigger] ns[i].name@,
        #[trigger] ns[j].name@,
    ) by {
        if j < p {
            assert(seq_lt(es[i].name@, es[j].name@));
        } else if j == p {
            assert(seq_lt(whole[i].name@, e.name@));
        } else if i == p {
            let oj = j - 1 - p + q;
            assert(ns[j] == whole[oj]);
            if oj > q {
                assert(seq_lt(whole[q].name@, whole[oj].name@));
                lemma_seq_lt_transitive(e.name@, whole[q].name@, whole[oj].name@);
            }
        } else if i < p {
            assert(seq_lt(es[i].name@, es[j - 1].name@));
        } else {
            assert(seq_lt(es[i - 1].name@, es[j - 1].name@));
        }
    }
}

/// An entry put among ascending names adds its name and pattern to the map.
proof fn lemma_insert_entry(es: Seq<TemplateEntry>, p: int, e: TemplateEntry)
    requires
        0 <= p <= es.len(),
        ascending(es),
        ascending(es.insert(p, e)),
    ensures
        table_map(es.insert(p, e)) == table_map(es).insert(e.name@, e.pattern@),
{
    let ns = es.insert(p, e);
    let want = table_map(es).insert(e.name@, e.pattern@);
    assert forall|k: Seq<char>| table_map(ns).contains_key(k) <==> want.contains_key(k) by {
        lemma_table_map_keys(ns, k);
        lemma_table_map_keys(es, k);
        if table_map(ns).contains_key(k) && k != e.name@ {
            let i = choose|i: int| 0 <= i < ns.len() && #[trigger] ns[i].name@ == k;
            let oi = if i < p {
                i
            } else {
                i - 1
            };
            assert(es[oi].name@ == k);
        }
        if want.contains_key(k) {
            if k == e.name@ {
                assert(ns[p].name@ == k);
            } else {
                let i = choose|i: int| 0 <= i < es.len() && #[trigger] es[i].name@ == k;
                let ni = if i < p {
                    i
                } else {
                    i + 1
                };
                assert(ns[ni].name@ == k);
            }
        }
    }
    assert forall|k: Seq<char>| table_map(ns).contains_key(k) implies table_map(ns)[k] == want[k] by {
        lemma_table_map_keys(ns, k);
        let i = choose|i: int| 0 <= i < ns.len() && #[trigger] ns[i].name@ == k;
        lemma_table_map_value(ns, i);
        if i != p {
            let oi = if i < p {
                i
            } else {
                i - 1
            };
            lemma_table_map_value(es, oi);
            lemma_seq_lt_irreflexive(k);
            if i < p {
                assert(seq_lt(ns[i].name@, ns[p].name@));
            } else {
                assert(seq_lt(ns[p].name@, ns[i].name@));
            }
        }
    }
    assert(table_map(ns) =~= want);
}

impl View for TemplateRegistry {
    type V = Map<Seq<char>, Seq<char>>;

    closed spec fn view(&self) -> Map<Seq<char>, Seq<char>> {
        table_map(self.entries@)
    }
}

impl TemplateRegistry {
    #[verifier::type_invariant]
    closed spec fn names_ascend(self) -> bool {
        ascending(self.entries@)
    }

    /// The templates as pairs of name and pattern, in the order of listing.
    pub closed spec fn listing(&self) -> Seq<(Seq<char>, Seq<char>)> {
        table_pairs(self.entries@)
    }

    /// The registry with `pattern` recorded under `name`, in place of what
    /// was there.
    fn with_template(self, name: &str, pattern: &str) -> (r: TemplateRegistry)
        ensures
            r@ == self@.insert(name@, pattern@),
            r.listing().len() == self.listing().len() + (if self@.contains_key(name@) {
                0nat
            } else {
                1nat
            }),
    {
        proof {
            use_type_invariant(&self);
        }
        let mut entries = self.entries;
        let ghost before = entries@;
        let n: usize = entries.len();
        let mut p: usize = 0;
        while p < n && str_lt(entries[p].name.as_str(), name)
            invariant
                p <= n,
                n == entries.len(),
                entries@ == before,
                forall|a: int| 0 <= a < p ==> seq_lt(#[trigger] before[a].name@, name@),
            decreases n - p,
        {
            p += 1;
        }
        let entry = TemplateEntry { name: String::from_str(name), pattern: String::from_str(pattern) };
        if p < n && !str_lt(name, entries[p].name.as_str()) {
            proof {
                lemma_seq_lt_total(name@, before[p as int].name@);
                lemma_table_map_keys(before, name@);
                assert(before[p as int].name@ == name@);
                lemma_remove_entry(before, p as int);
                lemma_ascending_place(before.remove(p as int), p as int, entry, before, p + 1);
                lemma_insert_entry(before.remove(p as int), p as int, entry);
                assert(table_map(before).remove(name@).insert(name@, pattern@) =~= table_map(
                    before,
                ).insert(name@, pattern@));
            }
            entries.remove(p);
            entries.insert(p, entry);
        } else {
            proof {
                lemma_ascending_place(before, p as int, entry, before, p as int);
                lemma_insert_entry(before, p as int, entry);
                lemma_table_map_keys(before, name@);
                if exists|i: int| 0 <= i < before.len() && #[trigger] before[i].name@ == name@ {
                    let i = choose|i: int| 0 <= i < before.len() && #[trigger] before[i].name@ == name@;
                    let placed = before.insert(p as int, entry);
                    lemma_seq_lt_irreflexive(name@);
                    if i < p {
                        assert(seq_lt(placed[i].name@, placed[p as int].name@));
                    } else {
                        assert(seq_lt(placed[p as int].name@, placed[i + 1].name@));
                    }
                }
            }
            entries.insert(p, entry);
        }
        TemplateRegistry { entries }
    }

    /// The registry of the built-in templates.
    pub fn new() -> (r: TemplateRegistry)
        ensures
            r@ == builtin_templates(),
            r.listing().len() == 24,
    {
        proof {
            lemma_builtin_names_differ();
        }
        let r = TemplateRegistry { entries: Vec::new() };
        // Photo and image templates
        let r = r.with_template("photo-date", "%N_%D.%E");
        let r = r.with_template("photo-counter", "photo_%C3.%E");
        let r = r.with_template("photo-datetime", "%N_%FD_%FH.%E");
        // Document templates
        let r = r.with_template("doc-date", "%N_%D.%E");
        let r = r.with_template("doc-counter", "document_%C2.%E");
        // Lower case
        let r = r.with_template("lowercase", "%L%N.%E");
        let r = r.with_template("lowercase-name", "%N%L.%E");
        // Upper case
        let r = r.with_template("uppercase", "%U%N.%E");
        let r = r.with_template("uppercase-name", "%N%U.%E");
        // Title case
        let r = r.with_template("title-case", "%T%N.%E");
        let r = r.with_template("title-case-name", "%N%T.%E");
        // Parent directory
        let r = r.with_template("parent-prefix", "%P_%N.%E");
        let r = r.with_template("parent-suffix", "%N_%P.%E");
        // Counters
        let r = r.with_template("counter-2", "%C2.%E");
        let r = r.with_template("counter-3", "%C3.%E");
        let r = r.with_template("counter-4", "%C4.%E");
        let r = r.with_template("counter-prefix", "%C3_%N.%E");
        let r = r.with_template("counter-suffix", "%N_%C3.%E");
        // Date and time
        let r = r.with_template("date-suffix", "%N_%D.%E");
        let r = r.with_template("date-prefix", "%D_%N.%E");
        let r = r.with_template("datetime-suffix", "%N_%D_%H.%E");
        // Cleanup
        let r = r.with_template("trim-spaces", "%M%N.%E");
        let r = r.with_template("underscore-to-dash", "%N%R/_/-.%E");
        let r = r.with_template("dash-to-underscore", "%N%R/-/_.%E");
        r
    }

    /// The pattern recorded under `name`.
    pub fn get(&self, name: &str) -> (r: Option<&String>)
        ensures
            match r {
                Some(pattern) => self@.contains_key(name@) && pattern@ == self@[name@],
                None => !self@.contains_key(name@),
            },
    {
        proof {
            use_type_invariant(self);
            lemma_table_map_keys(self.entries@, name@);
        }
        let mut i: usize = 0;
        while i < self.entries.len()
            invariant
                i <= self.entries.len(),
                ascending(self.entries@),
                forall|a: int| 0 <= a < i ==> #[trigger] self.entries[a].name@ != name@,
            decreases self.entries.len() - i,
        {
            if str_eq(self.entries[i].name.as_str(), name) {
                proof {
                    lemma_table_map_value(self.entries@, i as int);
                }
                return Some(&self.entries[i].pattern);
            }
            i += 1;
        }
        None
    }

    /// All templates as pairs of name and pattern, the names ascending in
    /// the order of strings.
    pub fn list(&self) -> (r: Vec<(&String, &String)>)
        ensures
            pairs_view(r@) == self.listing(),
            is_sorted_listing(self.listing(), self@),
    {
        proof {
            use_type_invariant(self);
            self.lemma_listing();
        }
        let mut out: Vec<(&String, &String)> = Vec::new();
        let mut i: usize = 0;
        while i < self.entries.len()
            invariant
                i <= self.entries.len(),
                out.len() == i,
                forall|a: int|
                    0 <= a < i ==> (#[trigger] out[a]).0@ == self.entries[a].name@ && out[a].1@
                        == self.entries[a].pattern@,
            decreases self.entries.len() - i,
        {
            out.push((&self.entries[i].name, &self.entries[i].pattern));
            i += 1;
        }
        assert(pairs_view(out@) =~= self.listing());
        out
    }

    /// Where the names ascend, the listing is the sorted listing of the map.
    proof fn lemma_listing(&self)
        requires
            ascending(self.entries@),
        ensures
            is_sorted_listing(self.listing(), self@),
    {
        let pairs = self.listing();
        let es = self.entries@;
        assert forall|i: int, j: int| 0 <= i < j < pairs.len() implies seq_lt(
            #[trigger] pairs[i].0,
            #[trigger] pairs[j].0,
        ) by {
            assert(seq_lt(es[i].name@, es[j].name@));
        }
        assert forall|i: int| 0 <= i < pairs.len() implies self@.contains_key(#[trigger] pairs[i].0)
            && self@[pairs[i].0] == pairs[i].1 by {
            lemma_table_map_value(es, i);
        }
        assert forall|k: Seq<char>| self@.contains_key(k) implies exists|i: int|
            0 <= i < pairs.len() && #[trigger] pairs[i].0 == k by {
            lemma_table_map_keys(es, k);
            let i = choose|i: int| 0 <= i < es.len() && #[trigger] es[i].name@ == k;
            assert(pairs[i].0 == k);
        }
    }
}

impl Default for TemplateRegistry {
    fn default() -> (r: TemplateRegistry)
        ensures
            r@ == builtin_templates(),
            r.listing().len() == 24,
    {
        TemplateRegistry::new()
    }
}

/// The names and patterns of a list of borrowed pairs.
pub open spec fn pairs_view(v: Seq<(&String, &String)>) -> Seq<(Seq<char>, Seq<char>)> {
    Seq::new(v.len(), |i: int| (v[i].0@, v[i].1@))
}

/// A map has one sorted listing only: two listings of the same map are the
/// same sequence. So the listing of a registry, and with it the template
/// that an index names, follows from the templates it holds.
pub proof fn lemma_sorted_listing_unique(
    a: Seq<(Seq<char>, Seq<char>)>,
    b: Seq<(Seq<char>, Seq<char>)>,
    m: Map<Seq<char>, Seq<char>>,
)
    requires
        is_sorted_listing(a, m),
        is_sorted_listing(b, m),
    ensures
        a == b,
    decreases a.len(),
{
    if a.len() == 0 {
        if b.len() > 0 {
            assert(m.contains_key(b[0].0));
            let i = choose|i: int| 0 <= i < a.len() && #[trigger] a[i].0 == b[0].0;
        }
        assert(a =~= b);
    } else {
        let key = a[0].0;
        assert(m.contains_key(key));
        let j = choose|j: int| 0 <= j < b.len() && #[trigger] b[j].0 == key;
        if j > 0 {
            assert(seq_lt(b[0].0, b[j].0));
            assert(m.contains_key(b[0].0));
            let i = choose|i: int| 0 <= i < a.len() && #[trigger] a[i].0 == b[0].0;
            lemma_seq_lt_irreflexive(key);
            if i > 0 {
                assert(seq_lt(a[0].0, a[i].0));
                lemma_seq_lt_transitive(key, b[0].0, key);
            }
        }
        assert(b[0].0 == key);
        assert(a[0] == b[0]);
        let rest = m.remove(key);
        lemma_listing_tail(a, m);
        lemma_listing_tail(b, m);
        lemma_sorted_listing_unique(a.drop_first(), b.drop_first(), rest);
        assert(a =~= seq![a[0]] + a.drop_first());
        assert(b =~= seq![b[0]] + b.drop_first());
    }
}

/// A sorted listing without its first entry lists the map without that
/// entry's name.
proof fn lemma_listing_tail(a: Seq<(Seq<char>, Seq<char>)>, m: Map<Seq<char>, Seq<char>>)
    requires
        a.len() > 0,
        is_sorted_listing(a, m),
    ensures
        is_sorted_listing(a.drop_first(), m.remove(a[0].0)),
{
    let t = a.drop_first();
    let rest = m.remove(a[0].0);
    assert forall|i: int, j: int| 0 <= i < j < t.len() implies seq_lt(
        #[trigger] t[i].0,
        #[trigger] t[j].0,
    ) by {
        assert(seq_lt(a[i + 1].0, a[j + 1].0));
    }
    assert forall|i: int| 0 <= i < t.len() implies rest.contains_key(#[trigger] t[i].0) && rest[t[i].0]
        == t[i].1 by {
        assert(seq_lt(a[0].0, a[i + 1].0));
        lemma_seq_lt_irreflexive(a[0].0);
        assert(m.contains_key(a[i + 1].0) && m[a[i + 1].0] == a[i + 1].1);
    }
    assert forall|k: Seq<char>| rest.contains_key(k) implies exists|i: int|
        0 <= i < t.len() && #[trigger] t[i].0 == k by {
        assert(m.contains_key(k));
        let i = choose|i: int| 0 <= i < a.len() && #[trigger] a[i].0 == k;
        assert(t[i - 1].0 == k);
    }
}

} // verus!
