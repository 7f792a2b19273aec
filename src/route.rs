//! Severity tiers: a record goes to the narrowest tier that admits it.
use vstd::prelude::*;
use crate::level::{Level, LevelFilter};
use crate::order::{first_index, insert_pos, key_above, lemma_first_index, lemma_stable_sort, sorted_by, sorted_insert, stable_sort};

verus! {

/// A tier: records no more verbose than the threshold may use the endpoint.
pub type Tier = (LevelFilter, String);

/// Tiers are ordered by ascending threshold.
pub open spec fn tier_key() -> spec_fn(Tier) -> int {
    |t: Tier| t.0.rank() as int
}

/// Holds of the tiers that admit a record of `level`.
pub open spec fn covers(level: Level) -> spec_fn(Tier) -> bool {
    |t: Tier| t.0.rank() >= level.rank()
}

/// The index of the first tier in `tiers` that admits `level`, if any.
pub open spec fn select_spec(tiers: Seq<Tier>, level: Level) -> Option<int> {
    let i = first_index(tiers, covers(level), 0);
    if i < tiers.len() {
        Some(i)
    } else {
        None
    }
}

/// The endpoint for `level`: that of the first tier that admits it, or
/// `default`.
pub open spec fn endpoint_spec(tiers: Seq<Tier>, default: Seq<char>, level: Level) -> Seq<char> {
    match select_spec(tiers, level) {
        Some(i) => tiers[i].1@,
        None => default,
    }
}

/// The index of the first tier, in order, that admits a record of `level`.
pub fn select(tiers: &Vec<Tier>, level: Level) -> (r: Option<usize>)
    ensures
        r matches Some(i) ==> select_spec(tiers@, level) == Some(i as int),
        r is None ==> select_spec(tiers@, level) is None,
{
    let ghost p = covers(level);
    let mut i: usize = 0;
    while i < tiers.len()
        invariant
            i <= tiers@.len(),
            p == covers(level),
            first_index(tiers@, p, 0) == first_index(tiers@, p, i as int),
        decreases tiers@.len() - i,
    {
        if tiers[i].0.admits(level) {
            assert(p(tiers@[i as int]));
            return Some(i);
        }
        assert(!p(tiers@[i as int]));
        i += 1;
    }
    None
}

/// The endpoint of the first tier that admits `level`, or `default`.
pub fn endpoint<'a>(tiers: &'a Vec<Tier>, default: &'a String, level: Level) -> (r: &'a String)
    ensures
        r@ == endpoint_spec(tiers@, default@, level),
{
    match select(tiers, level) {
        Some(i) => &tiers[i].1,
        None => default,
    }
}

/// `tiers` ordered by ascending threshold; tiers with equal thresholds keep
/// the order in which they were given.
pub fn sort_tiers(tiers: Vec<Tier>) -> (r: Vec<Tier>)
    ensures
        r@ == stable_sort(tiers@, tier_key()),
{
    let ghost orig = tiers@;
    let ghost key = tier_key();
    let mut rest = tiers;
    let mut out: Vec<Tier> = Vec::new();
    while rest.len() > 0
        invariant
            rest@.len() <= orig.len(),
            key == tier_key(),
            rest@ == orig.skip(orig.len() - rest@.len()),
            out@ == stable_sort(orig.take(orig.len() - rest@.len()), key),
        decreases rest@.len(),
    {
        let ghost done = (orig.len() - rest@.len()) as int;
        let x = rest.remove(0);
        let xr = x.0.rank_of();
        let ghost p = key_above(key, key(x));
        let mut i: usize = 0;
        while i < out.len() && out[i].0.rank_of() <= xr
            invariant
                i <= out@.len(),
                xr as int == x.0.rank(),
                p == key_above(key, key(x)),
                key == tier_key(),
                first_index(out@, p, 0) == first_index(out@, p, i as int),
            decreases out@.len() - i,
        {
            assert(!p(out@[i as int]));
            i += 1;
        }
        assert(i < out@.len() ==> p(out@[i as int]));
        assert(insert_pos(out@, key, key(x)) == i);
        out.insert(i, x);
        proof {
            assert(orig.take(done + 1).drop_last() =~= orig.take(done));
            assert(orig.take(done + 1).last() == x);
            assert(rest@ =~= orig.skip(done + 1));
        }
    }
    assert(orig.take(orig.len() as int) =~= orig);
    out
}

/// On tiers sorted by ascending threshold, the tier selected for a level is
/// one with the smallest threshold that admits it; when no tier admits it,
/// none is selected and the default endpoint applies.
pub proof fn lemma_tier_coverage(tiers: Seq<Tier>, level: Level)
    requires
        sorted_by(tiers, tier_key()),
    ensures
        select_spec(tiers, level) is None <==> (forall|j: int|
            0 <= j < tiers.len() ==> tiers[j].0.rank() < level.rank()),
        select_spec(tiers, level) matches Some(i) ==> {
            &&& 0 <= i < tiers.len()
            &&& tiers[i].0.rank() >= level.rank()
            &&& forall|j: int|
                0 <= j < tiers.len() && tiers[j].0.rank() >= level.rank() ==> tiers[i].0.rank()
                    <= tiers[j].0.rank()
        },
{
    let p = covers(level);
    let key = tier_key();
    lemma_first_index(tiers, p, 0);
    let k = first_index(tiers, p, 0);
    if k < tiers.len() {
        assert forall|j: int|
            0 <= j < tiers.len() && tiers[j].0.rank() >= level.rank() implies tiers[k].0.rank()
                <= tiers[j].0.rank() by {
            assert(p(tiers[j]));
            if j > k {
                assert(key(tiers[k]) <= key(tiers[j]));
            }
        }
    } else {
        assert forall|j: int| 0 <= j < tiers.len() implies tiers[j].0.rank() < level.rank() by {
            assert(!p(tiers[j]));
        }
    }
}

/// Sorting more tiers after `tiers`, none with a threshold below that of
/// the first sorted tier, keeps that tier first.
proof fn lemma_head_kept(tiers: Seq<Tier>, extra: Seq<Tier>)
    requires
        tiers.len() > 0,
        forall|i: int|
            0 <= i < extra.len() ==> extra[i].0.rank() >= stable_sort(tiers, tier_key())[0].0.rank(),
    ensures
        stable_sort(tiers + extra, tier_key()).len() > 0,
        stable_sort(tiers + extra, tier_key())[0] == stable_sort(tiers, tier_key())[0],
    decreases extra.len(),
{
    let key = tier_key();
    lemma_stable_sort(tiers, key);
    if extra.len() == 0 {
        assert(tiers + extra =~= tiers);
    } else {
        let x = extra.last();
        let e1 = extra.drop_last();
        lemma_head_kept(tiers, e1);
        assert((tiers + extra).drop_last() =~= tiers + e1);
        assert((tiers + extra).last() == x);
        let s1 = stable_sort(tiers + e1, key);
        let p = key_above(key, key(x));
        assert(!p(s1[0]));
        lemma_first_index(s1, p, 1);
        assert(first_index(s1, p, 0) == first_index(s1, p, 1));
        assert(sorted_insert(s1, key, x)[0] == s1[0]);
    }
}

/// Adding tiers, none with a threshold below the lowest one configured,
/// does not change the endpoint of a level that every configured tier
/// admits, that is a level at least as severe as the lowest threshold.
pub proof fn lemma_more_tiers_keep_routing(tiers: Seq<Tier>, extra: Seq<Tier>, default: Seq<char>, level: Level)
    requires
        tiers.len() > 0,
        forall|i: int| 0 <= i < tiers.len() ==> level.rank() <= #[trigger] tiers[i].0.rank(),
        forall|i: int|
            0 <= i < extra.len() ==> exists|j: int|
                0 <= j < tiers.len() && tiers[j].0.rank() <= #[trigger] extra[i].0.rank(),
    ensures
        endpoint_spec(stable_sort(tiers + extra, tier_key()), default, level) == endpoint_spec(
            stable_sort(tiers, tier_key()),
            default,
            level,
        ),
{
    let key = tier_key();
    let sorted = stable_sort(tiers, key);
    lemma_stable_sort(tiers, key);
    let h = sorted[0];
    assert(sorted.contains(h));
    assert(tiers.contains(h));
    assert forall|i: int| 0 <= i < extra.len() implies extra[i].0.rank() >= h.0.rank() by {
        let j = choose|j: int| 0 <= j < tiers.len() && tiers[j].0.rank() <= #[trigger] extra[i].0.rank();
        assert(tiers.contains(tiers[j]));
        assert(sorted.contains(tiers[j]));
        let n = choose|n: int| 0 <= n < sorted.len() && sorted[n] == tiers[j];
        if n > 0 {
            assert(key(sorted[0]) <= key(sorted[n]));
        }
    }
    lemma_head_kept(tiers, extra);
    let all = stable_sort(tiers + extra, key);
    let p = covers(level);
    let w = choose|w: int| 0 <= w < tiers.len() && tiers[w] == h;
    assert(p(h));
    assert(first_index(sorted, p, 0) == 0);
    assert(first_index(all, p, 0) == 0);
}

} // verus!
