//! The rule table: `source->replacement` entries parsed from configuration
//! text, held in an exact-match map from source authority to replacement.
use vstd::prelude::*;
use crate::text::{split_arrow, split_char, split_on_arrow, split_on_char, views};
use ahash::AHashMap;

verus! {

#[verifier::external_type_specification]
#[verifier::external_body]
#[verifier::reject_recursive_types(K)]
#[verifier::reject_recursive_types(V)]
#[verifier::reject_recursive_types(S)]
pub struct ExAHashMap<K, V, S>(AHashMap<K, V, S>);

#[verifier::external_type_specification]
#[verifier::external_body]
pub struct ExAHashRandomState(ahash::RandomState);

/// What an `AHashMap` of strings holds, key to value.
pub uninterp spec fn string_entries(m: AHashMap<String, String>) -> Map<Seq<char>, Seq<char>>;

/// Relies on `AHashMap::new`: a new map is empty.
#[verifier::external_body]
fn new_string_map() -> (r: AHashMap<String, String>)
    ensures
        string_entries(r).dom() == Set::<Seq<char>>::empty(),
{
    AHashMap::new()
}

/// Relies on `AHashMap::insert`: the key is bound to the value, replacing
/// any earlier binding, and the other keys are untouched.
#[verifier::external_body]
fn insert_string(m: &mut AHashMap<String, String>, k: String, v: String)
    ensures
        string_entries(*final(m)) == string_entries(*old(m)).insert(k@, v@),
{
    m.insert(k, v);
}

/// Relies on `AHashMap::get`: the value bound to the key, if there is one.
#[verifier::external_body]
fn get_string(m: &AHashMap<String, String>, k: &str) -> (r: Option<String>)
    ensures
        r is Some <==> string_entries(*m).contains_key(k@),
        r is Some ==> r->0@ == string_entries(*m)[k@],
{
    m.get(k).cloned()
}

/// The rule an entry of the configuration text stands for: exactly one `->`
/// with a non-empty text on each side.
pub open spec fn rule_of_entry(e: Seq<char>) -> Option<(Seq<char>, Seq<char>)> {
    let p = split_on_arrow(e);
    if p.len() == 2 && p[0].len() > 0 && p[1].len() > 0 {
        Some((p[0], p[1]))
    } else {
        None
    }
}

/// The rules among the entries, in order.
pub open spec fn rules_of_entries(es: Seq<Seq<char>>) -> Seq<(Seq<char>, Seq<char>)>
    decreases es.len(),
{
    if es.len() == 0 {
        Seq::empty()
    } else {
        let init = rules_of_entries(es.drop_last());
        match rule_of_entry(es.last()) {
            Some(r) => init.push(r),
            None => init,
        }
    }
}

/// The entries that are no rule, in order.
pub open spec fn rejects_of_entries(es: Seq<Seq<char>>) -> Seq<Seq<char>>
    decreases es.len(),
{
    if es.len() == 0 {
        Seq::empty()
    } else {
        let init = rejects_of_entries(es.drop_last());
        match rule_of_entry(es.last()) {
            Some(r) => init,
            None => init.push(es.last()),
        }
    }
}

/// The rules of a configuration text: its `;`-separated entries that are rules.
pub open spec fn rules_of_text(text: Seq<char>) -> Seq<(Seq<char>, Seq<char>)> {
    rules_of_entries(split_on_char(text, ';'))
}

/// The entries of a configuration text that are not rules.
pub open spec fn rejects_of_text(text: Seq<char>) -> Seq<Seq<char>> {
    rejects_of_entries(split_on_char(text, ';'))
}

/// The views of a list of rules.
pub open spec fn rule_views(v: Seq<(String, String)>) -> Seq<(Seq<char>, Seq<char>)> {
    v.map_values(|p: (String, String)| (p.0@, p.1@))
}

/// The map that a list of rules gives: a later rule for a source replaces an
/// earlier one.
pub open spec fn map_of_rules(rules: Seq<(Seq<char>, Seq<char>)>) -> Map<Seq<char>, Seq<char>>
    decreases rules.len(),
{
    if rules.len() == 0 {
        Map::empty()
    } else {
        map_of_rules(rules.drop_last()).insert(rules.last().0, rules.last().1)
    }
}

/// A source has a replacement exactly when some rule names it, and then it
/// is the replacement of the last rule that names it.
pub proof fn lemma_last_rule_wins(rules: Seq<(Seq<char>, Seq<char>)>, k: Seq<char>, i: int)
    requires
        0 <= i < rules.len(),
        rules[i].0 == k,
        forall|j: int| i < j < rules.len() ==> (#[trigger] rules[j]).0 != k,
    ensures
        map_of_rules(rules).contains_key(k),
        map_of_rules(rules)[k] == rules[i].1,
    decreases rules.len(),
{
    if i < rules.len() - 1 {
        let init = rules.drop_last();
        assert forall|j: int| i < j < init.len() implies (#[trigger] init[j]).0 != k by {
            assert(init[j] == rules[j]);
        }
        lemma_last_rule_wins(init, k, i);
        assert(rules[rules.len() - 1].0 != k);
    }
}

/// A source that no rule names has no replacement.
pub proof fn lemma_unnamed_source(rules: Seq<(Seq<char>, Seq<char>)>, k: Seq<char>)
    requires
        forall|j: int| 0 <= j < rules.len() ==> (#[trigger] rules[j]).0 != k,
    ensures
        !map_of_rules(rules).contains_key(k),
    decreases rules.len(),
{
    if rules.len() > 0 {
        let init = rules.drop_last();
        assert forall|j: int| 0 <= j < init.len() implies (#[trigger] init[j]).0 != k by {
            assert(init[j] == rules[j]);
        }
        lemma_unnamed_source(init, k);
        assert(rules[rules.len() - 1].0 != k);
    }
}

/// The outcome of parsing a configuration text: the rules, and the entries
/// that were skipped as malformed.
pub struct ParsedRules {
    pub rules: Vec<(String, String)>,
    pub rejected: Vec<String>,
}

/// Parses `source->replacement` entries separated by `;`. An entry with
/// exactly one `->` and text on both sides is a rule; any other entry is
/// skipped and listed in `rejected`.
pub fn parse_rules(rules: &str) -> (r: ParsedRules)
    ensures
        rule_views(r.rules@) == rules_of_text(rules@),
        views(r.rejected@) == rejects_of_text(rules@),
{
    let entries = split_char(rules, ';');
    let ghost es = views(entries@);
    let mut found: Vec<(String, String)> = Vec::new();
    let mut rejected: Vec<String> = Vec::new();
    let mut i: usize = 0;
    proof {
        assert(es.take(0) =~= Seq::<Seq<char>>::empty());
        assert(rule_views(found@) =~= Seq::<(Seq<char>, Seq<char>)>::empty());
        assert(views(rejected@) =~= Seq::<Seq<char>>::empty());
    }
    while i < entries.len()
        invariant
            es == views(entries@),
            es == split_on_char(rules@, ';'),
            i <= entries.len(),
            rule_views(found@) == rules_of_entries(es.take(i as int)),
            views(rejected@) == rejects_of_entries(es.take(i as int)),
        decreases entries.len() - i,
    {
        let entry = &entries[i];
        let pieces = split_arrow(entry.as_str());
        proof {
            assert(es.take(i + 1).drop_last() =~= es.take(i as int));
            assert(es.take(i + 1).last() == entry@);
        }
        if pieces.len() == 2 && !pieces[0].as_str().is_empty() && !pieces[1].as_str().is_empty() {
            let rule = (pieces[0].clone(), pieces[1].clone());
            proof {
                assert(rule_views(found@.push(rule)) =~= rule_views(found@).push((rule.0@, rule.1@)));
            }
            found.push(rule);
        } else {
            let bad = entry.clone();
            proof {
                assert(views(rejected@.push(bad)) =~= views(rejected@).push(bad@));
            }
            rejected.push(bad);
        }
        i = i + 1;
    }
    proof {
        assert(es.take(entries.len() as int) =~= es);
    }
    ParsedRules { rules: found, rejected }
}

/// An exact-match table from source authority to replacement authority,
/// built once and only read afterwards.
pub struct RuleTable {
    map: AHashMap<String, String>,
}

impl View for RuleTable {
    type V = Map<Seq<char>, Seq<char>>;

    closed spec fn view(&self) -> Map<Seq<char>, Seq<char>> {
        string_entries(self.map)
    }
}

impl RuleTable {
    /// The table of the given rules; a later rule for a source overrides an
    /// earlier one.
    pub fn build(rules: &Vec<(String, String)>) -> (t: RuleTable)
        ensures
            t@ == map_of_rules(rule_views(rules@)),
    {
        let mut map = new_string_map();
        let ghost rs = rule_views(rules@);
        let mut i: usize = 0;
        proof {
            assert(rs.take(0) =~= Seq::<(Seq<char>, Seq<char>)>::empty());
            assert(string_entries(map) =~= Map::<Seq<char>, Seq<char>>::empty());
        }
        while i < rules.len()
            invariant
                rs == rule_views(rules@),
                i <= rules.len(),
                string_entries(map) == map_of_rules(rs.take(i as int)),
            decreases rules.len() - i,
        {
            proof {
                assert(rs.take(i + 1).drop_last() =~= rs.take(i as int));
            }
            insert_string(&mut map, rules[i].0.clone(), rules[i].1.clone());
            i = i + 1;
        }
        proof {
            assert(rs.take(rules.len() as int) =~= rs);
        }
        RuleTable { map }
    }

    /// The table of the rules that a configuration text holds.
    pub fn from_text(text: &str) -> (t: RuleTable)
        ensures
            t@ == map_of_rules(rules_of_text(text@)),
    {
        let parsed = parse_rules(text);
        RuleTable::build(&parsed.rules)
    }

    /// The replacement for exactly this authority, if a rule names it.
    pub fn lookup(&self, authority: &str) -> (r: Option<String>)
        ensures
            r is Some <==> self@.contains_key(authority@),
            r is Some ==> r->0@ == self@[authority@],
    {
        get_string(&self.map, authority)
    }
}

} // verus!
