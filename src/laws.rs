//! Properties that relate the operations of the container and the filter.
use vstd::prelude::*;
use crate::retain::{filtered, inputs, survivors};
use crate::two_vecs::{clamped, second_after_cut, second_after_first_push};

verus! {

/// Cutting the first region keeps the second region's elements.
pub proof fn lemma_cut_keeps_second<T>(b: Seq<T>, removed: int)
    requires
        0 <= removed,
    ensures
        second_after_cut(b, removed).to_multiset() == b.to_multiset(),
        second_after_cut(b, removed).len() == b.len(),
{
    broadcast use vstd::seq_lib::lemma_multiset_commutative;

    if b.len() > removed {
        let k = b.len() - removed;
        assert(b =~= b.take(k) + b.skip(k));
        assert(b.to_multiset() =~= b.take(k).to_multiset().add(b.skip(k).to_multiset()));
        assert(second_after_cut(b, removed).to_multiset() =~= b.skip(k).to_multiset().add(
            b.take(k).to_multiset(),
        ));
    }
}

/// Truncating the first region (elements `a`) to `k <= a.len()` keeps
/// exactly its first `k` elements, and the second region (elements `b`)
/// keeps its elements and its length, possibly reordered.
pub proof fn law_first_truncate_preserves<T>(a: Seq<T>, b: Seq<T>, k: int)
    requires
        0 <= k <= a.len(),
    ensures
        a.take(clamped(k, a.len() as int)) == a.take(k),
        second_after_cut(b, a.len() - clamped(k, a.len() as int)).to_multiset() == b.to_multiset(),
        second_after_cut(b, a.len() - clamped(k, a.len() as int)).len() == b.len(),
{
    lemma_cut_keeps_second(b, a.len() - k);
}

/// Truncating the first region to more than its length does what
/// truncating it to its length does, which is nothing.
pub proof fn law_first_truncate_clamps<T>(a: Seq<T>, b: Seq<T>, k: int)
    requires
        k > a.len(),
    ensures
        a.take(clamped(k, a.len() as int)) == a.take(clamped(a.len() as int, a.len() as int)),
        second_after_cut(b, a.len() - clamped(k, a.len() as int)) == second_after_cut(
            b,
            a.len() - clamped(a.len() as int, a.len() as int),
        ),
        a.take(clamped(k, a.len() as int)) == a,
        second_after_cut(b, a.len() - clamped(k, a.len() as int)) == b,
{
    assert(a.take(a.len() as int) =~= a);
}

/// Truncating the second region to more than its length does what
/// truncating it to its length does, which is nothing.
pub proof fn law_second_truncate_clamps<T>(b: Seq<T>, k: int)
    requires
        k > b.len(),
    ensures
        b.take(clamped(k, b.len() as int)) == b.take(clamped(b.len() as int, b.len() as int)),
        b.take(clamped(k, b.len() as int)) == b,
{
    assert(b.take(b.len() as int) =~= b);
}

/// A push to the first region keeps the second region's elements and
/// length (its order may change).
pub proof fn law_first_push_keeps_second<T>(b: Seq<T>)
    ensures
        second_after_first_push(b).to_multiset() == b.to_multiset(),
        second_after_first_push(b).len() == b.len(),
{
    broadcast use {
        vstd::seq_lib::lemma_multiset_commutative,
        vstd::seq_lib::group_to_multiset_ensures,
    };

    if b.len() > 0 {
        assert(b =~= seq![b[0]] + b.skip(1));
        assert(b.to_multiset() =~= seq![b[0]].to_multiset().add(b.skip(1).to_multiset()));
        assert(seq![b[0]] =~= Seq::<T>::empty().push(b[0]));
        assert(second_after_first_push(b).to_multiset() =~= b.skip(1).to_multiset().insert(b[0]));
    }
}

/// How often `x` occurs among the elements of `s` that satisfy `p`.
proof fn lemma_filter_count<T>(s: Seq<T>, p: spec_fn(T) -> bool, x: T)
    ensures
        s.filter(p).to_multiset().count(x) == if p(x) {
            s.to_multiset().count(x)
        } else {
            0
        },
    decreases s.len(),
{
    broadcast use {
        vstd::seq_lib::group_to_multiset_ensures,
        vstd::multiset::group_multiset_axioms,
        vstd::seq_lib::group_filter_ensures,
        vstd::prelude::Seq::lemma_filter_push,
    };

    if s.len() == 0 {
        assert(s.filter(p) =~= Seq::<T>::empty());
    } else {
        let init = s.drop_last();
        let e = s.last();
        lemma_filter_count(init, p, x);
        assert(s =~= init.push(e));
        assert(s.filter(p) == if p(e) {
            init.filter(p).push(e)
        } else {
            init.filter(p)
        });
    }
}

/// With a predicate that changes nothing and answers `p(e)` on `e`, the
/// survivors are the inputs that satisfy `p`, in the order of the calls.
proof fn lemma_survivors_pure<T>(trace: Seq<(T, T, bool)>, p: spec_fn(T) -> bool)
    requires
        forall|i: int|
            0 <= i < trace.len() ==> (#[trigger] trace[i]).1 == trace[i].0 && trace[i].2 == p(
                trace[i].0,
            ),
    ensures
        survivors(trace) == inputs(trace).filter(p),
    decreases trace.len(),
{
    broadcast use vstd::prelude::Seq::lemma_filter_push;

    if trace.len() == 0 {
        assert(inputs(trace).filter(p) =~= Seq::<T>::empty());
    } else {
        let init = trace.drop_last();
        assert(forall|i: int| 0 <= i < init.len() ==> #[trigger] init[i] == trace[i]);
        lemma_survivors_pure(init, p);
        assert(inputs(trace) =~= inputs(init).push(trace.last().0));
    }
}

/// When the predicate changes no element and keeps exactly those that
/// satisfy `p`, an unordered filter leaves the elements of `before` that
/// satisfy `p`, with their multiplicities.
pub proof fn law_filter_keeps_satisfying<T>(
    before: Seq<T>,
    after: Seq<T>,
    trace: Seq<(T, T, bool)>,
    p: spec_fn(T) -> bool,
)
    requires
        filtered(before, after, trace),
        forall|i: int|
            0 <= i < trace.len() ==> (#[trigger] trace[i]).1 == trace[i].0 && trace[i].2 == p(
                trace[i].0,
            ),
    ensures
        after.to_multiset() == before.filter(p).to_multiset(),
{
    lemma_survivors_pure(trace, p);
    assert forall|x: T| #[trigger]
        after.to_multiset().count(x) == before.filter(p).to_multiset().count(x) by {
        lemma_filter_count(inputs(trace), p, x);
        lemma_filter_count(before, p, x);
    }
    assert(after.to_multiset() =~= before.filter(p).to_multiset());
}

} // verus!
