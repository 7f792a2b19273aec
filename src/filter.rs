//! Per-category thresholds: the longest matching prefix rule wins.
use vstd::prelude::*;
use vstd::string::StrSliceExecFns;
use crate::level::{Level, LevelFilter};
use crate::order::{first_index, insert_pos, key_above, lemma_first_index, lemma_stable_sort, stable_sort};

verus! {

/// A category rule: records whose category starts with the prefix are held
/// to the threshold.
pub type Rule = (String, LevelFilter);

/// Rules are ordered by descending prefix length, in characters.
pub open spec fn rule_key() -> spec_fn(Rule) -> int {
    |r: Rule| -(r.0@.len() as int)
}

pub open spec fn rule_matches(category: Seq<char>) -> spec_fn(Rule) -> bool {
    |r: Rule| r.0@.is_prefix_of(category)
}

/// The threshold of the first rule in `rules` whose prefix starts
/// `category`, or `default` when none does.
pub open spec fn resolve_spec(rules: Seq<Rule>, default: LevelFilter, category: Seq<char>) -> LevelFilter {
    let i = first_index(rules, rule_matches(category), 0);
    if i < rules.len() {
        rules[i].1
    } else {
        default
    }
}

/// Relies on str::starts_with: true exactly when `prefix` is a prefix of `s`.
#[verifier::external_body]
fn starts_with(s: &str, prefix: &str) -> (r: bool)
    ensures
        r == prefix@.is_prefix_of(s@),
{
    s.starts_with(prefix)
}

/// The threshold that applies to `category` under `rules`, taken in order.
pub fn resolve(rules: &Vec<Rule>, default: LevelFilter, category: &str) -> (r: LevelFilter)
    ensures
        r == resolve_spec(rules@, default, category@),
{
    let ghost p = rule_matches(category@);
    let mut i: usize = 0;
    while i < rules.len()
        invariant
            i <= rules@.len(),
            p == rule_matches(category@),
            first_index(rules@, p, 0) == first_index(rules@, p, i as int),
        decreases rules@.len() - i,
    {
        if starts_with(category, rules[i].0.as_str()) {
            assert(p(rules@[i as int]));
            return rules[i].1;
        }
        assert(!p(rules@[i as int]));
        i += 1;
    }
    default
}

/// `rules` ordered from the longest prefix to the shortest; rules whose
/// prefixes are equally long keep the order in which they were given.
pub fn sort_rules(rules: Vec<Rule>) -> (r: Vec<Rule>)
    ensures
        r@ == stable_sort(rules@, rule_key()),
{
    let ghost orig = rules@;
    let ghost key = rule_key();
    let mut rest = rules;
    let mut out: Vec<Rule> = Vec::new();
    while rest.len() > 0
        invariant
            rest@.len() <= orig.len(),
            key == rule_key(),
            rest@ == orig.skip(orig.len() - rest@.len()),
            out@ == stable_sort(orig.take(orig.len() - rest@.len()), key),
        decreases rest@.len(),
    {
        let ghost done = (orig.len() - rest@.len()) as int;
        let x = rest.remove(0);
        let xl = x.0.as_str().unicode_len();
        let ghost p = key_above(key, key(x));
        let mut i: usize = 0;
        while i < out.len() && out[i].0.as_str().unicode_len() >= xl
            invariant
                i <= out@.len(),
                xl == x.0@.len(),
                p == key_above(key, key(x)),
                key == rule_key(),
                first_index(out@, p, 0) == first_index(out@, p, i as int),
            decreases out@.len() - i,
        {
            assert(!p(out@[i as int]));
            i += 1;
        }
        assert(i < out@.len() ==> p(out@[i as int]));
        assert(insert_pos(out@, key, key(x)) == i);
        out.insert(i, x);
        proof {
            assert(orig.take(done + 1).drop_last() =~= orig.take(done));
            assert(orig.take(done + 1).last() == x);
            assert(rest@ =~= orig.skip(done + 1));
        }
    }
    assert(orig.take(orig.len() as int) =~= orig);
    out
}

/// Whether a record of `level` in `category` passes the rules, which are
/// searched in order, and the default threshold.
pub fn enabled_under(rules: &Vec<Rule>, default: LevelFilter, category: &str, level: Level) -> (r: bool)
    ensures
        r == (level.rank() <= resolve_spec(rules@, default, category@).rank()),
{
    resolve(rules, default, category).admits(level)
}

/// The rule that applies to a category, once the rules are sorted, is the
/// one with the longest matching prefix; with no matching rule the default
/// applies. Prefix lengths are taken to be distinct.
pub proof fn lemma_longest_prefix(rules: Seq<Rule>, default: LevelFilter, category: Seq<char>)
    requires
        forall|i: int, j: int|
            0 <= i < j < rules.len() ==> rules[i].0@.len() != rules[j].0@.len(),
    ensures
        (forall|i: int| 0 <= i < rules.len() ==> !rules[i].0@.is_prefix_of(category))
            ==> resolve_spec(stable_sort(rules, rule_key()), default, category) == default,
        (exists|i: int| 0 <= i < rules.len() && rules[i].0@.is_prefix_of(category))
            ==> exists|i: int|
            0 <= i < rules.len() && rules[i].0@.is_prefix_of(category)
                && resolve_spec(stable_sort(rules, rule_key()), default, category) == rules[i].1
                && forall|j: int|
                0 <= j < rules.len() && rules[j].0@.is_prefix_of(category)
                    ==> rules[j].0@.len() <= rules[i].0@.len(),
{
    let key = rule_key();
    let p = rule_matches(category);
    let sorted = stable_sort(rules, key);
    lemma_stable_sort(rules, key);
    lemma_first_index(sorted, p, 0);
    let k = first_index(sorted, p, 0);
    if forall|i: int| 0 <= i < rules.len() ==> !rules[i].0@.is_prefix_of(category) {
        if k < sorted.len() {
            assert(sorted.contains(sorted[k]));
            assert(rules.contains(sorted[k]));
        }
    }
    if exists|i: int| 0 <= i < rules.len() && rules[i].0@.is_prefix_of(category) {
        let i0 = choose|i: int| 0 <= i < rules.len() && rules[i].0@.is_prefix_of(category);
        assert(rules.contains(rules[i0]));
        assert(sorted.contains(rules[i0]));
        let m = choose|m: int| 0 <= m < sorted.len() && sorted[m] == rules[i0];
        assert(p(sorted[m]));
        assert(k < sorted.len());
        assert(sorted.contains(sorted[k]));
        let w = choose|w: int| 0 <= w < rules.len() && rules[w] == sorted[k];
        assert forall|j: int|
            0 <= j < rules.len() && rules[j].0@.is_prefix_of(category)
                implies rules[j].0@.len() <= rules[w].0@.len() by {
            assert(rules.contains(rules[j]));
            assert(sorted.contains(rules[j]));
            let n = choose|n: int| 0 <= n < sorted.len() && sorted[n] == rules[j];
            assert(p(sorted[n]));
            assert(n >= k);
            if n > k {
                assert(key(sorted[k]) <= key(sorted[n]));
            }
        }
    }
}

} // verus!
