//! First-match search and stable insertion order, stated over sequences.
use vstd::prelude::*;

verus! {

/// The first index at or after `i` whose element satisfies `p`, or `s.len()`
/// when there is none.
pub open spec fn first_index<T>(s: Seq<T>, p: spec_fn(T) -> bool, i: int) -> int
    decreases s.len() - i,
{
    if i >= s.len() || i < 0 {
        s.len() as int
    } else if p(s[i]) {
        i
    } else {
        first_index(s, p, i + 1)
    }
}

/// Where a stable insertion places an element with key `k`: after every
/// element whose key is at most `k`.
pub open spec fn insert_pos<T>(s: Seq<T>, key: spec_fn(T) -> int, k: int) -> int {
    first_index(s, key_above(key, k), 0)
}

/// Holds of the elements whose key is above `k`.
pub open spec fn key_above<T>(key: spec_fn(T) -> int, k: int) -> spec_fn(T) -> bool {
    |y: T| key(y) > k
}

/// `s` with `x` inserted stably by `key`.
pub open spec fn sorted_insert<T>(s: Seq<T>, key: spec_fn(T) -> int, x: T) -> Seq<T> {
    s.insert(insert_pos(s, key, key(x)), x)
}

/// `s` sorted ascending by `key`; elements with equal keys keep the order in
/// which they stand in `s`.
pub open spec fn stable_sort<T>(s: Seq<T>, key: spec_fn(T) -> int) -> Seq<T>
    decreases s.len(),
{
    if s.len() == 0 {
        Seq::empty()
    } else {
        sorted_insert(stable_sort(s.drop_last(), key), key, s.last())
    }
}

/// Keys never decrease along `s`.
pub open spec fn sorted_by<T>(s: Seq<T>, key: spec_fn(T) -> int) -> bool {
    forall|i: int, j: int| 0 <= i < j < s.len() ==> key(s[i]) <= key(s[j])
}

pub proof fn lemma_first_index<T>(s: Seq<T>, p: spec_fn(T) -> bool, i: int)
    requires
        0 <= i <= s.len(),
    ensures
        i <= first_index(s, p, i) <= s.len(),
        first_index(s, p, i) < s.len() ==> p(s[first_index(s, p, i)]),
        forall|j: int| i <= j < first_index(s, p, i) ==> !p(#[trigger] s[j]),
    decreases s.len() - i,
{
    if i < s.len() && !p(s[i]) {
        lemma_first_index(s, p, i + 1);
    }
}

pub proof fn lemma_sorted_insert<T>(s: Seq<T>, key: spec_fn(T) -> int, x: T)
    requires
        sorted_by(s, key),
    ensures
        sorted_by(sorted_insert(s, key, x), key),
        sorted_insert(s, key, x).len() == s.len() + 1,
        forall|y: T| #[trigger] sorted_insert(s, key, x).contains(y) <==> (y == x || s.contains(y)),
{
    let p = key_above(key, key(x));
    let pos = insert_pos(s, key, key(x));
    lemma_first_index(s, p, 0);
    let r = sorted_insert(s, key, x);
    assert forall|i: int, j: int| 0 <= i < j < r.len() implies key(r[i]) <= key(r[j]) by {
        if j < pos {
        } else if j == pos {
            assert(!p(s[i]));
        } else if i < pos {
            if i < pos && j - 1 >= pos {
                assert(p(s[pos]));
            }
        } else if i == pos {
            assert(p(s[pos]));
        } else {
        }
    }
    assert forall|y: T| #[trigger] r.contains(y) <==> (y == x || s.contains(y)) by {
        if r.contains(y) {
            let k = choose|k: int| 0 <= k < r.len() && r[k] == y;
            if k < pos {
                assert(s[k] == y);
            } else if k > pos {
                assert(s[k - 1] == y);
            }
        }
        if y == x {
            assert(r[pos] == y);
        } else if s.contains(y) {
            let k = choose|k: int| 0 <= k < s.len() && s[k] == y;
            if k < pos {
                assert(r[k] == y);
            } else {
                assert(r[k + 1] == y);
            }
        }
    }
}

/// A stable sort is ordered by its key, keeps the length and holds exactly
/// the elements of its input.
pub proof fn lemma_stable_sort<T>(s: Seq<T>, key: spec_fn(T) -> int)
    ensures
        sorted_by(stable_sort(s, key), key),
        stable_sort(s, key).len() == s.len(),
        forall|y: T| #[trigger] stable_sort(s, key).contains(y) <==> s.contains(y),
    decreases s.len(),
{
    if s.len() > 0 {
        let rest = s.drop_last();
        lemma_stable_sort(rest, key);
        lemma_sorted_insert(stable_sort(rest, key), key, s.last());
        assert forall|y: T| s.contains(y) <==> (y == s.last() || rest.contains(y)) by {
            if s.contains(y) {
                let k = choose|k: int| 0 <= k < s.len() && s[k] == y;
                if k < s.len() - 1 {
                    assert(rest[k] == y);
                }
            }
            if rest.contains(y) {
                let k = choose|k: int| 0 <= k < rest.len() && rest[k] == y;
                assert(s[k] == y);
            }
            if y == s.last() {
                assert(s[s.len() - 1] == y);
            }
        }
    }
}

} // verus!
