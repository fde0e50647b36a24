//! The unordered filter: one pass that swaps each rejected element to the
//! tail, then a single truncation.
use vstd::prelude::*;
use vstd::multiset::Multiset;
use crate::slices::swap_at;

verus! {

broadcast use {
    vstd::seq_lib::group_to_multiset_ensures,
    vstd::seq_lib::lemma_multiset_commutative,
    vstd::multiset::group_multiset_axioms,
};

/// The values handed to the predicate, in the order of the calls. A trace
/// entry is (value before the call, value after the call, verdict).
pub open spec fn inputs<T>(trace: Seq<(T, T, bool)>) -> Seq<T> {
    trace.map_values(|e: (T, T, bool)| e.0)
}

/// The values, as the predicate left them, on which it answered `true`.
pub open spec fn survivors<T>(trace: Seq<(T, T, bool)>) -> Seq<T>
    decreases trace.len(),
{
    if trace.len() == 0 {
        Seq::empty()
    } else {
        let rest = survivors(trace.drop_last());
        if trace.last().2 {
            rest.push(trace.last().1)
        } else {
            rest
        }
    }
}

/// `after` holds, in some order, exactly the survivors of `trace`, and the
/// trace visited each element of `before` once.
pub open spec fn filtered<T>(before: Seq<T>, after: Seq<T>, trace: Seq<(T, T, bool)>) -> bool {
    &&& trace.len() == before.len()
    &&& inputs(trace).to_multiset() == before.to_multiset()
    &&& after.to_multiset() == survivors(trace).to_multiset()
}

/// Runs the predicate once on `x`.
fn visit<T, F: FnMut(&mut T) -> bool>(f: &mut F, x: &mut T) -> (keep: bool)
    requires
        forall|r: &mut T| call_requires(*old(f), (r,)),
    ensures
        *final(f) == *old(f),
        exists|r: &mut T|
            *r == *old(x) && *final(r) == *final(x) && call_ensures(*old(f), (r,), keep),
{
    f(x)
}

/// Filters `v` in place: afterwards its first `kept` slots hold the values
/// that `f` kept, as `f` left them, in unspecified order. `f` sees every
/// original element exactly once.
pub fn retain_in<T, F: FnMut(&mut T) -> bool>(v: &mut [T], f: F) -> (kept: usize)
    requires
        forall|r: &mut T| call_requires(f, (r,)),
    ensures
        final(v)@.len() == old(v)@.len(),
        kept <= old(v)@.len(),
        exists|trace: Seq<(T, T, bool)>|
            #[trigger] filtered(old(v)@, final(v)@.take(kept as int), trace) && forall|i: int|
                0 <= i < trace.len() ==> exists|r: &mut T|
                    *r == (#[trigger] trace[i]).0 && *final(r) == trace[i].1 && call_ensures(
                        f,
                        (r,),
                        trace[i].2,
                    ),
{
    let mut f = f;
    let ghost f0 = f;
    let ghost orig = v@;
    let len = v.len();
    let mut del: usize = 0;
    let mut cursor: usize = 0;
    let mut step: usize = 0;
    let ghost mut trace: Seq<(T, T, bool)> = Seq::empty();
    proof {
        assert(v@.subrange(0, len as int) =~= v@);
        assert(inputs(trace) =~= Seq::<T>::empty());
    }
    while step < len
        invariant
            f == f0,
            forall|r: &mut T| call_requires(f0, (r,)),
            v@.len() == len,
            len == orig.len(),
            cursor + del == step,
            step <= len,
            trace.len() == step,
            v@.subrange(cursor as int, len - del).to_multiset().add(inputs(trace).to_multiset())
                == orig.to_multiset(),
            v@.take(cursor as int).to_multiset() == survivors(trace).to_multiset(),
            forall|i: int|
                0 <= i < trace.len() ==> exists|r: &mut T|
                    *r == (#[trigger] trace[i]).0 && *final(r) == trace[i].1 && call_ensures(
                        f0,
                        (r,),
                        trace[i].2,
                    ),
        decreases len - step,
    {
        let ghost pre = v@;
        let ghost c = cursor as int;
        let ghost end = len - del;
        let keep = visit(&mut f, &mut v[cursor]);
        let ghost mid = v@;
        let ghost entry = (pre[c], mid[c], keep);
        proof {
            assert(mid =~= pre.update(c, mid[c]));
            let t = trace.push(entry);
            assert(t.drop_last() =~= trace);
            assert(inputs(t) =~= inputs(trace).push(pre[c]));
            assert(pre.subrange(c, end) =~= seq![pre[c]] + pre.subrange(c + 1, end));
            trace = t;
        }
        if keep {
            proof {
                assert(mid.subrange(c + 1, end) =~= pre.subrange(c + 1, end));
                assert(mid.take(c + 1) =~= pre.take(c).push(mid[c]));
                assert(survivors(trace) == survivors(trace.drop_last()).push(mid[c]));
            }
            cursor += 1;
        } else {
            swap_at(v, cursor, len - 1 - del);
            proof {
                let last = end - 1;
                assert(v@.take(c) =~= pre.take(c));
                if last == c {
                    assert(v@.subrange(c, last) =~= Seq::<T>::empty());
                    assert(pre.subrange(c + 1, end) =~= Seq::<T>::empty());
                } else {
                    assert(v@.subrange(c, last) =~= seq![pre[last]] + pre.subrange(c + 1, last));
                    assert(pre.subrange(c + 1, end) =~= pre.subrange(c + 1, last) + seq![pre[last]]);
                }
                assert(survivors(trace) == survivors(trace.drop_last()));
            }
            del += 1;
        }
        step += 1;
    }
    proof {
        assert(v@.subrange(cursor as int, len - del) =~= Seq::<T>::empty());
        assert(Seq::<T>::empty().to_multiset().add(inputs(trace).to_multiset())
            =~= inputs(trace).to_multiset());
        assert(filtered(orig, v@.take(cursor as int), trace));
    }
    cursor
}

} // verus!

verus! {

/// Retain only the elements that satisfy a predicate, possibly reordering
/// them. An implementor names the elements it filters (`region`), everything
/// else it holds (`outside`, which its operations keep), and its validity.
pub trait RetainMutUnordered<T> {
    spec fn region(&self) -> Seq<T>;

    spec fn outside(&self) -> Multiset<T>;

    spec fn valid(&self) -> bool;

    /// Keeps the first `val` elements of the region; a larger `val` keeps all.
    fn truncate(&mut self, val: usize)
        requires
            old(self).valid(),
        ensures
            final(self).valid(),
            final(self).outside() == old(self).outside(),
            final(self).region() == if val < old(self).region().len() {
                old(self).region().take(val as int)
            } else {
                old(self).region()
            },
    ;

    /// The region as a mutable slice. (A slice cannot change its length;
    /// the contract speaks of the case where it keeps it.)
    fn as_slice_mut(&mut self) -> (r: &mut [T])
        requires
            old(self).valid(),
        ensures
            r@ == old(self).region(),
            final(r)@.len() == r@.len() ==> {
                &&& final(self).valid()
                &&& final(self).outside() == old(self).outside()
                &&& final(self).region() == final(r)@
            },
    ;

    /// Calls `f` exactly once on each element of the region (possibly
    /// changing it) and keeps those on which it returned `true`, in
    /// unspecified order.
    fn retain_mut_unordered<F: FnMut(&mut T) -> bool>(&mut self, f: F)
        requires
            old(self).valid(),
            forall|r: &mut T| call_requires(f, (r,)),
        ensures
            final(self).valid(),
            final(self).outside() == old(self).outside(),
            exists|trace: Seq<(T, T, bool)>|
                #[trigger] filtered(old(self).region(), final(self).region(), trace) && forall|i: int|
                    0 <= i < trace.len() ==> exists|r: &mut T|
                        *r == (#[trigger] trace[i]).0 && *final(r) == trace[i].1 && call_ensures(
                            f,
                            (r,),
                            trace[i].2,
                        ),
    {
        let len = self.as_slice_mut().len();
        let kept = retain_in(self.as_slice_mut(), f);
        let ghost mid = self.region();
        if kept < len {
            self.truncate(kept);
        } else {
            assert(mid.take(kept as int) =~= mid);
        }
        assert(self.region() == mid.take(kept as int));
    }
}

impl<T> RetainMutUnordered<T> for Vec<T> {
    open spec fn region(&self) -> Seq<T> {
        self@
    }

    open spec fn outside(&self) -> Multiset<T> {
        Multiset::empty()
    }

    open spec fn valid(&self) -> bool {
        true
    }

    fn truncate(&mut self, val: usize) {
        Vec::truncate(self, val);
    }

    fn as_slice_mut(&mut self) -> (r: &mut [T]) {
        self.as_mut_slice()
    }
}

} // verus!
