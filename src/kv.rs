//! Rendering of key-value attributes into the suffix of a record's text.
use vstd::prelude::*;
use vstd::string::StringExecFns;
use vstd::seq_lib::{to_multiset_build, to_multiset_contains, to_multiset_insert, to_multiset_len, to_multiset_remove};

verus! {

/// An attribute: a key and its value.
pub type Pair = (String, String);

/// The text of one attribute: a space, the key, `=` and the value.
pub open spec fn pair_text(p: Pair) -> Seq<char> {
    seq![' '] + p.0@ + seq!['='] + p.1@
}

/// The texts of the attributes, concatenated in the order given.
pub open spec fn kv_text(s: Seq<Pair>) -> Seq<char>
    decreases s.len(),
{
    if s.len() == 0 {
        Seq::empty()
    } else {
        kv_text(s.drop_last()) + pair_text(s.last())
    }
}

/// Renders the attributes, in the order given, as ` key=value` for each.
/// No attributes render as the empty string.
pub fn render_kvs(kvs: &Vec<Pair>) -> (r: String)
    ensures
        r@ == kv_text(kvs@),
{
    let mut out = String::new();
    let mut i: usize = 0;
    proof {
        assert(kvs@.take(0) =~= Seq::<Pair>::empty());
    }
    while i < kvs.len()
        invariant
            i <= kvs@.len(),
            out@ == kv_text(kvs@.take(i as int)),
        decreases kvs@.len() - i,
    {
        out.append(" ");
        out.append(kvs[i].0.as_str());
        out.append("=");
        out.append(kvs[i].1.as_str());
        proof {
            reveal_strlit(" ");
            reveal_strlit("=");
            assert(" "@ =~= seq![' ']);
            assert("="@ =~= seq!['=']);
            assert(kvs@.take(i + 1).drop_last() =~= kvs@.take(i as int));
            assert(out@ =~= kv_text(kvs@.take(i as int)) + pair_text(kvs@[i as int]));
        }
        i += 1;
    }
    assert(kvs@.take(kvs@.len() as int) =~= kvs@);
    out
}

/// The texts of the attributes, one token per attribute, in the order given.
pub open spec fn kv_tokens(s: Seq<Pair>) -> Seq<Seq<char>> {
    s.map_values(|p: Pair| pair_text(p))
}

/// The rendering is the concatenation of one ` key=value` token per
/// attribute.
pub proof fn lemma_render_is_tokens(s: Seq<Pair>)
    ensures
        kv_text(s) == kv_tokens(s).flatten(),
    decreases s.len(),
{
    if s.len() > 0 {
        let rest = s.drop_last();
        lemma_render_is_tokens(rest);
        assert(kv_tokens(s) =~= kv_tokens(rest).push(pair_text(s.last())));
        kv_tokens(rest).lemma_flatten_push(pair_text(s.last()));
    } else {
        assert(kv_tokens(s) =~= Seq::<Seq<char>>::empty());
    }
}

/// Rendering the same attributes in another order gives the same tokens,
/// each as many times: only their order may differ.
pub proof fn lemma_tokens_order_free(a: Seq<Pair>, b: Seq<Pair>)
    requires
        a.to_multiset() == b.to_multiset(),
    ensures
        kv_tokens(a).to_multiset() == kv_tokens(b).to_multiset(),
    decreases a.len(),
{
    broadcast use vstd::multiset::group_multiset_axioms;
    broadcast use vstd::seq_lib::group_to_multiset_ensures;

    if a.len() == 0 {
        to_multiset_len(a);
        to_multiset_len(b);
        assert(b.len() == 0);
        assert(kv_tokens(a) =~= kv_tokens(b));
    } else {
        let x = a.last();
        let a1 = a.drop_last();
        assert(a1.push(x) =~= a);
        to_multiset_build(a1, x);
        assert(a.to_multiset().count(x) > 0);
        to_multiset_contains(b, x);
        let k = choose|k: int| 0 <= k < b.len() && b[k] == x;
        let b1 = b.remove(k);
        to_multiset_remove(b, k);
        assert(a1.to_multiset() =~= b1.to_multiset());
        lemma_tokens_order_free(a1, b1);
        assert(kv_tokens(a) =~= kv_tokens(a1).push(pair_text(x)));
        to_multiset_build(kv_tokens(a1), pair_text(x));
        assert(kv_tokens(b) =~= kv_tokens(b1).insert(k, pair_text(x)));
        to_multiset_insert(kv_tokens(b1), k, pair_text(x));
    }
}

} // verus!
