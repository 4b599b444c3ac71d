//! Small general facts about sequences that the roster service and the
//! resolution engine lean on: how `filter` interacts with appending one
//! element, and how a filter partitions a sequence.

use vstd::prelude::*;
use vstd::multiset::Multiset;

verus! {

/// Filtering a one-element sequence keeps or drops that element.
pub proof fn lemma_filter_singleton<A>(e: A, pred: spec_fn(A) -> bool)
    ensures
        seq![e].filter(pred) == if pred(e) {
            seq![e]
        } else {
            Seq::<A>::empty()
        },
{
    reveal_with_fuel(Seq::filter, 2);
    assert(seq![e].drop_last() =~= Seq::<A>::empty());
    if pred(e) {
        assert(seq![e].filter(pred) =~= seq![e]);
    } else {
        assert(seq![e].filter(pred) =~= Seq::<A>::empty());
    }
}

/// Filtering after appending one element appends its filtering.
pub proof fn lemma_filter_push<A>(s: Seq<A>, e: A, pred: spec_fn(A) -> bool)
    ensures
        (s + seq![e]).filter(pred) == s.filter(pred) + if pred(e) {
            seq![e]
        } else {
            Seq::<A>::empty()
        },
{
    broadcast use vstd::seq_lib::group_seq_properties;

    Seq::filter_distributes_over_add(s, seq![e], pred);
    lemma_filter_singleton(e, pred);
}

/// A filter and its complement partition a sequence: together they keep
/// every element exactly once, so their lengths sum to the whole.
pub proof fn lemma_filter_partition<A>(s: Seq<A>, pred: spec_fn(A) -> bool)
    ensures
        s.filter(pred).len() + s.filter(|a: A| !pred(a)).len() == s.len(),
        s.filter(pred).to_multiset().add(s.filter(|a: A| !pred(a)).to_multiset())
            =~= s.to_multiset(),
    decreases s.len(),
{
    broadcast use vstd::seq_lib::group_to_multiset_ensures;

    reveal_with_fuel(Seq::filter, 2);
    if s.len() == 0 {
        assert(s.filter(pred) =~= Seq::<A>::empty());
        assert(s.filter(|a: A| !pred(a)) =~= Seq::<A>::empty());
        assert(s.to_multiset() =~= Multiset::<A>::empty());
        assert(s.filter(pred).to_multiset().add(s.filter(|a: A| !pred(a)).to_multiset())
            =~= s.to_multiset());
    } else {
        let t = s.drop_last();
        let e = s.last();
        lemma_filter_partition(t, pred);
        assert(t.push(e) =~= s);
        assert(t.push(e).to_multiset() =~= t.to_multiset().insert(e));
        if pred(e) {
            assert(s.filter(pred) == t.filter(pred).push(e));
            assert(s.filter(|a: A| !pred(a)) == t.filter(|a: A| !pred(a)));
            assert(t.filter(pred).push(e).to_multiset() =~= t.filter(pred).to_multiset().insert(
                e,
            ));
            assert(s.filter(pred).to_multiset().add(s.filter(|a: A| !pred(a)).to_multiset())
                =~= s.to_multiset());
        } else {
            assert(s.filter(pred) == t.filter(pred));
            assert(s.filter(|a: A| !pred(a)) == t.filter(|a: A| !pred(a)).push(e));
            assert(t.filter(|a: A| !pred(a)).push(e).to_multiset() =~= t.filter(
                |a: A| !pred(a),
            ).to_multiset().insert(e));
            assert(s.filter(pred).to_multiset().add(s.filter(|a: A| !pred(a)).to_multiset())
                =~= s.to_multiset());
        }
    }
}

/// One element's standing under a filter and its complement: it lands in
/// exactly the filter that its predicate value selects, and only elements
/// of the sequence land in either.
pub proof fn lemma_filter_membership<A>(s: Seq<A>, pred: spec_fn(A) -> bool, x: A)
    ensures
        s.contains(x) && pred(x) ==> s.filter(pred).contains(x),
        s.contains(x) && !pred(x) ==> s.filter(|a: A| !pred(a)).contains(x),
        s.filter(pred).contains(x) ==> s.contains(x) && pred(x),
        s.filter(|a: A| !pred(a)).contains(x) ==> s.contains(x) && !pred(x),
{
    broadcast use vstd::seq_lib::group_seq_properties;

    if s.contains(x) && pred(x) {
        let i = choose|i: int| 0 <= i < s.len() && s[i] == x;
        s.lemma_filter_contains(pred, i);
    }
    if s.contains(x) && !pred(x) {
        let i = choose|i: int| 0 <= i < s.len() && s[i] == x;
        s.lemma_filter_contains(|a: A| !pred(a), i);
    }
    if s.filter(pred).contains(x) {
        let fp = s.filter(pred);
        let j = choose|j: int| 0 <= j < fp.len() && #[trigger] fp[j] == x;
        s.lemma_filter_pred(pred, j);
        lemma_filter_subset(s, pred, x);
    }
    if s.filter(|a: A| !pred(a)).contains(x) {
        let fs = s.filter(|a: A| !pred(a));
        let j = choose|j: int| 0 <= j < fs.len() && #[trigger] fs[j] == x;
        s.lemma_filter_pred(|a: A| !pred(a), j);
        lemma_filter_subset(s, |a: A| !pred(a), x);
    }
}

/// Whatever a filter keeps came from the sequence.
pub proof fn lemma_filter_subset<A>(s: Seq<A>, pred: spec_fn(A) -> bool, x: A)
    requires
        s.filter(pred).contains(x),
    ensures
        s.contains(x),
    decreases s.len(),
{
    reveal_with_fuel(Seq::filter, 2);
    if s.len() == 0 {
        assert(s.filter(pred) =~= Seq::<A>::empty());
    } else {
        let t = s.drop_last();
        if pred(s.last()) && x == s.last() {
            assert(s[s.len() - 1] == x);
        } else {
            if pred(s.last()) {
                let fs = s.filter(pred);
                let ft = t.filter(pred);
                assert(fs == ft.push(s.last()));
                let j = choose|j: int| 0 <= j < fs.len() && fs[j] == x;
                assert(ft[j] == x);
                assert(ft.contains(x));
            }
            lemma_filter_subset(t, pred, x);
            let i = choose|i: int| 0 <= i < t.len() && t[i] == x;
            assert(s[i] == x);
        }
    }
}

} // verus!

verus! {

/// Mapping distributes over concatenation.
pub proof fn lemma_map_values_add<A, B>(a: Seq<A>, b: Seq<A>, f: spec_fn(A) -> B)
    ensures
        (a + b).map_values(f) == a.map_values(f) + b.map_values(f),
{
    assert((a + b).map_values(f) =~= a.map_values(f) + b.map_values(f));
}

/// Mapping a one-element sequence maps the element.
pub proof fn lemma_map_values_singleton<A, B>(e: A, f: spec_fn(A) -> B)
    ensures
        seq![e].map_values(f) == seq![f(e)],
{
    assert(seq![e].map_values(f) =~= seq![f(e)]);
}

} // verus!

verus! {

/// Within the elements a filter keeps, a second predicate and its
/// complement partition them: lengths sum, and together they keep each
/// kept element exactly once.
pub proof fn lemma_filter_refine<A>(s: Seq<A>, p: spec_fn(A) -> bool, q: spec_fn(A) -> bool)
    ensures
        s.filter(|a: A| p(a) && q(a)).len() + s.filter(|a: A| p(a) && !q(a)).len() == s.filter(
            p,
        ).len(),
        s.filter(|a: A| p(a) && q(a)).to_multiset().add(
            s.filter(|a: A| p(a) && !q(a)).to_multiset(),
        ) =~= s.filter(p).to_multiset(),
    decreases s.len(),
{
    broadcast use vstd::seq_lib::group_to_multiset_ensures;

    reveal_with_fuel(Seq::filter, 2);
    if s.len() == 0 {
        assert(s.filter(|a: A| p(a) && q(a)) =~= Seq::<A>::empty());
        assert(s.filter(|a: A| p(a) && !q(a)) =~= Seq::<A>::empty());
        assert(s.filter(p) =~= Seq::<A>::empty());
        assert(s.filter(|a: A| p(a) && q(a)).to_multiset().add(
            s.filter(|a: A| p(a) && !q(a)).to_multiset(),
        ) =~= s.filter(p).to_multiset());
    } else {
        let t = s.drop_last();
        let e = s.last();
        lemma_filter_refine(t, p, q);
        if p(e) {
            if q(e) {
                assert(s.filter(|a: A| p(a) && q(a)) == t.filter(|a: A| p(a) && q(a)).push(e));
                assert(s.filter(|a: A| p(a) && !q(a)) == t.filter(|a: A| p(a) && !q(a)));
                assert(s.filter(p) == t.filter(p).push(e));
                assert(t.filter(|a: A| p(a) && q(a)).push(e).to_multiset() =~= t.filter(
                    |a: A| p(a) && q(a),
                ).to_multiset().insert(e));
                assert(t.filter(p).push(e).to_multiset() =~= t.filter(p).to_multiset().insert(e));
                assert(s.filter(|a: A| p(a) && q(a)).to_multiset().add(
                    s.filter(|a: A| p(a) && !q(a)).to_multiset(),
                ) =~= s.filter(p).to_multiset());
            } else {
                assert(s.filter(|a: A| p(a) && q(a)) == t.filter(|a: A| p(a) && q(a)));
                assert(s.filter(|a: A| p(a) && !q(a)) == t.filter(|a: A| p(a) && !q(a)).push(e));
                assert(s.filter(p) == t.filter(p).push(e));
                assert(t.filter(|a: A| p(a) && !q(a)).push(e).to_multiset() =~= t.filter(
                    |a: A| p(a) && !q(a),
                ).to_multiset().insert(e));
                assert(t.filter(p).push(e).to_multiset() =~= t.filter(p).to_multiset().insert(e));
                assert(s.filter(|a: A| p(a) && q(a)).to_multiset().add(
                    s.filter(|a: A| p(a) && !q(a)).to_multiset(),
                ) =~= s.filter(p).to_multiset());
            }
        } else {
            assert(s.filter(|a: A| p(a) && q(a)) == t.filter(|a: A| p(a) && q(a)));
            assert(s.filter(|a: A| p(a) && !q(a)) == t.filter(|a: A| p(a) && !q(a)));
            assert(s.filter(p) == t.filter(p));
        }
    }
}

} // verus!
