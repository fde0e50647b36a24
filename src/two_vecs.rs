//! The container: one backing vector split by a boundary into a first and a
//! second region, and the two handles through which each region changes.
use vstd::prelude::*;
use vstd::multiset::Multiset;
use crate::retain::{filtered, retain_in, RetainMutUnordered};
use crate::backing::VecTrait;
use crate::slices::{swap_at, swap_blocks};
use crate::laws::lemma_cut_keeps_second;

verus! {

/// `n` limited to `len`.
pub open spec fn clamped(n: int, len: int) -> int {
    if n > len {
        len
    } else {
        n
    }
}

/// The second region after `removed` elements are cut from the end of the
/// first region: when it is longer than the cut, its last `removed` elements
/// move to its front; otherwise it is unchanged.
pub open spec fn second_after_cut<T>(b: Seq<T>, removed: int) -> Seq<T> {
    if b.len() > removed {
        b.skip(b.len() - removed) + b.take(b.len() - removed)
    } else {
        b
    }
}

/// The second region after a push to the first region: its first element
/// moves to its end.
pub open spec fn second_after_first_push<T>(b: Seq<T>) -> Seq<T> {
    if b.len() > 0 {
        b.skip(1).push(b[0])
    } else {
        b
    }
}

/// Two unordered sequences in one backing vector: the first region is
/// `[0, first_length)`, the second `[first_length, len)`.
pub struct TwoUnorderedVecs<V> {
    inner: V,
    first_length: usize,
}

impl<V: VecTrait> TwoUnorderedVecs<V> {
    /// All elements, the first region followed by the second.
    pub closed spec fn backing(&self) -> Seq<V::T> {
        self.inner.elems()
    }

    /// The index that separates the two regions.
    pub closed spec fn boundary(&self) -> int {
        self.first_length as int
    }

    /// The boundary lies within the backing vector.
    pub open spec fn wf(&self) -> bool {
        0 <= self.boundary() <= self.backing().len()
    }

    /// The elements before the boundary.
    pub open spec fn first_region(&self) -> Seq<V::T> {
        self.backing().take(self.boundary())
    }

    /// The elements from the boundary on.
    pub open spec fn second_region(&self) -> Seq<V::T> {
        self.backing().skip(self.boundary())
    }

    /// In a well-formed container the two regions together are the whole
    /// backing vector, so their lengths add up to its length.
    pub proof fn lemma_regions_cover(&self)
        requires
            self.wf(),
        ensures
            self.first_region() + self.second_region() == self.backing(),
            self.first_region().len() + self.second_region().len() == self.backing().len(),
    {
        assert(self.first_region() + self.second_region() =~= self.backing());
    }

    /// A handle on the first region, borrowing the whole container.
    pub fn first(&mut self) -> (r: FirstVec<'_, V>)
        requires
            old(self).wf(),
        ensures
            *r.vecs == *old(self),
            *final(self) == *final(r.vecs),
    {
        FirstVec { vecs: self }
    }

    /// A handle on the second region, borrowing the whole container.
    pub fn second(&mut self) -> (r: SecondVec<'_, V>)
        requires
            old(self).wf(),
        ensures
            *r.vecs == *old(self),
            *final(self) == *final(r.vecs),
    {
        SecondVec { vecs: self }
    }

    /// Empties both regions, dropping every element.
    pub fn clear(&mut self)
        ensures
            final(self).wf(),
            final(self).backing() == Seq::<V::T>::empty(),
            final(self).boundary() == 0,
    {
        self.first_length = 0;
        self.inner.borrow_mut().clear();
    }

    /// The whole backing vector: the first region, then the second.
    pub fn as_vec(&self) -> (r: &Vec<V::T>)
        ensures
            r@ == self.backing(),
    {
        self.inner.borrow()
    }

    /// Both regions, mutably.
    pub fn as_slice_mut(&mut self) -> (r: (&mut [V::T], &mut [V::T]))
        requires
            old(self).wf(),
        ensures
            r.0@ == old(self).first_region(),
            r.1@ == old(self).second_region(),
            final(self).backing() == final(r.0)@ + final(r.1)@,
            final(self).boundary() == old(self).boundary(),
    {
        let n = self.first_length;
        self.inner.borrow_mut().as_mut_slice().split_at_mut(n)
    }

    /// Both regions.
    pub fn as_slice(&self) -> (r: (&[V::T], &[V::T]))
        requires
            self.wf(),
        ensures
            r.0@ == self.first_region(),
            r.1@ == self.second_region(),
    {
        self.inner.borrow().as_slice().split_at(self.first_length)
    }
}

impl<'a, T> TwoUnorderedVecs<&'a mut Vec<T>> {
    /// Borrows `inner`: its elements form the first region, and the second
    /// region is empty.
    pub fn from_mut(inner: &'a mut Vec<T>) -> (r: TwoUnorderedVecs<&'a mut Vec<T>>)
        ensures
            r.wf(),
            r.backing() == old(inner)@,
            r.boundary() == old(inner)@.len(),
    {
        let first_length = inner.len();
        TwoUnorderedVecs { inner, first_length }
    }
}

impl<T> TwoUnorderedVecs<Vec<T>> {
    /// An empty container whose backing vector has room for `num` elements.
    pub fn with_capacity(num: usize) -> (r: Self)
        ensures
            r.wf(),
            r.backing() == Seq::<T>::empty(),
            r.boundary() == 0,
    {
        TwoUnorderedVecs { inner: Vec::with_capacity(num), first_length: 0 }
    }

    /// An empty container.
    pub fn new() -> (r: Self)
        ensures
            r.wf(),
            r.backing() == Seq::<T>::empty(),
            r.boundary() == 0,
    {
        TwoUnorderedVecs { inner: Vec::new(), first_length: 0 }
    }

    /// Takes `inner` over: its elements form the first region, and the
    /// second region is empty.
    pub fn from_vec(inner: Vec<T>) -> (r: Self)
        ensures
            r.wf(),
            r.backing() == inner@,
            r.boundary() == inner@.len(),
    {
        TwoUnorderedVecs::from(inner)
    }

    /// Puts `new_array` in place of the backing vector, all of it as the
    /// first region, and returns the previous backing vector with the
    /// previous length of its first region.
    pub fn exchange_storage(&mut self, new_array: Vec<T>) -> (r: (Vec<T>, usize))
        requires
            old(self).wf(),
        ensures
            final(self).wf(),
            final(self).backing() == new_array@,
            final(self).boundary() == new_array@.len(),
            r.0@ == old(self).backing(),
            r.1 == old(self).boundary(),
    {
        let old_first_length = self.first_length;
        let mut array = new_array;
        self.first_length = array.len();
        core::mem::swap(&mut self.inner, &mut array);
        (array, old_first_length)
    }
}

/// The first region of a container, reached through an exclusive borrow.
pub struct FirstVec<'a, V> {
    pub vecs: &'a mut TwoUnorderedVecs<V>,
}

impl<'a, V: VecTrait> FirstVec<'a, V> {
    /// Keeps the first `num` elements of the first region (all of them when
    /// `num` is larger). The cut elements are exchanged, as one block, with
    /// the tail of the second region and dropped from the end.
    pub fn truncate(&mut self, num: usize)
        requires
            old(self).vecs.wf(),
        ensures
            *final(final(self).vecs) == *final(old(self).vecs),
            final(self).vecs.wf(),
            final(self).vecs.first_region() == old(self).vecs.first_region().take(
                clamped(num as int, old(self).vecs.first_region().len() as int),
            ),
            final(self).vecs.second_region() == second_after_cut(
                old(self).vecs.second_region(),
                old(self).vecs.first_region().len() - clamped(
                    num as int,
                    old(self).vecs.first_region().len() as int,
                ),
            ),
    {
        let first_length = self.vecs.first_length;
        let num = if num > first_length {
            first_length
        } else {
            num
        };
        let diff = first_length - num;
        let ghost old_all = self.vecs.backing();
        let v = self.vecs.inner.borrow_mut();
        let total_len = v.len();
        let rest_len = total_len - first_length;
        if rest_len > diff {
            swap_blocks(v.as_mut_slice(), num, total_len - diff, diff);
            proof {
                let b = old_all.skip(first_length as int);
                assert(v@.take(total_len - diff) =~= old_all.take(num as int) + b.skip(
                    b.len() - diff,
                ) + b.take(b.len() - diff));
            }
        } else {
            swap_blocks(v.as_mut_slice(), num, first_length, rest_len);
            proof {
                assert(v@.take(total_len - diff) =~= old_all.take(num as int) + old_all.skip(
                    first_length as int,
                ));
            }
        }
        v.truncate(total_len - diff);
        self.vecs.first_length = num;
        proof {
            let a = self.vecs.backing();
            assert(a.take(num as int) =~= old_all.take(first_length as int).take(num as int));
            assert(a.skip(num as int) =~= second_after_cut(
                old_all.skip(first_length as int),
                diff as int,
            ));
        }
    }

    /// The first region.
    pub fn as_slice(&self) -> (r: &[V::T])
        ensures
            mut_ref_current(self.vecs).wf() ==> r@ == mut_ref_current(self.vecs).first_region(),
    {
        let all = self.vecs.inner.borrow().as_slice();
        let n = self.vecs.first_length;
        if n <= all.len() {
            let (a, _b) = all.split_at(n);
            a
        } else {
            all
        }
    }

    /// The first region, mutably; the second region stays as it is.
    pub fn as_slice_mut(&mut self) -> (r: &mut [V::T])
        ensures
            *final(final(self).vecs) == *final(old(self).vecs),
            old(self).vecs.wf() ==> r@ == old(self).vecs.first_region(),
            old(self).vecs.wf() && final(r)@.len() == r@.len() ==> {
                &&& final(self).vecs.wf()
                &&& final(self).vecs.first_region() == final(r)@
                &&& final(self).vecs.second_region() == old(self).vecs.second_region()
            },
    {
        let n = self.vecs.first_length;
        let all = self.vecs.inner.borrow_mut().as_mut_slice();
        let cut = if n <= all.len() {
            n
        } else {
            all.len()
        };
        let (a, b) = all.split_at_mut(cut);
        proof {
            assert(cut == n && final(a)@.len() == a@.len() ==> (final(a)@ + b@).take(n as int)
                =~= final(a)@ && (final(a)@ + b@).skip(n as int) =~= b@);
        }
        a
    }

    /// Appends `a` to the first region. The element that began the second
    /// region moves to the end of the backing vector.
    pub fn push(&mut self, a: V::T)
        requires
            old(self).vecs.wf(),
            old(self).vecs.backing().len() < usize::MAX,
        ensures
            *final(final(self).vecs) == *final(old(self).vecs),
            final(self).vecs.wf(),
            final(self).vecs.backing().len() == old(self).vecs.backing().len() + 1,
            final(self).vecs.boundary() == old(self).vecs.boundary() + 1,
            final(self).vecs.first_region() == old(self).vecs.first_region().push(a),
            final(self).vecs.second_region() == second_after_first_push(
                old(self).vecs.second_region(),
            ),
    {
        let ghost old_all = self.vecs.backing();
        let n = self.vecs.first_length;
        let v = self.vecs.inner.borrow_mut();
        let total_len = v.len();
        v.push(a);
        swap_at(v.as_mut_slice(), n, total_len);
        self.vecs.first_length = n + 1;
        proof {
            let all = self.vecs.backing();
            assert(all.take(n + 1) =~= old_all.take(n as int).push(a));
            assert(all.skip(n + 1) =~= second_after_first_push(old_all.skip(n as int)));
        }
    }
}

/// The second region of a container, reached through an exclusive borrow.
pub struct SecondVec<'a, V> {
    pub vecs: &'a mut TwoUnorderedVecs<V>,
}

impl<'a, V: VecTrait> SecondVec<'a, V> {
    /// The second region.
    pub fn as_slice(&self) -> (r: &[V::T])
        ensures
            mut_ref_current(self.vecs).wf() ==> r@ == mut_ref_current(self.vecs).second_region(),
    {
        let all = self.vecs.inner.borrow().as_slice();
        let n = self.vecs.first_length;
        let cut = if n <= all.len() {
            n
        } else {
            all.len()
        };
        let (_a, b) = all.split_at(cut);
        b
    }

    /// The second region, mutably; the first region stays as it is.
    pub fn as_slice_mut(&mut self) -> (r: &mut [V::T])
        ensures
            *final(final(self).vecs) == *final(old(self).vecs),
            old(self).vecs.wf() ==> {
                &&& r@ == old(self).vecs.second_region()
                &&& final(self).vecs.first_region() == old(self).vecs.first_region()
                &&& final(self).vecs.wf()
                &&& final(self).vecs.second_region() == final(r)@
            },
    {
        let n = self.vecs.first_length;
        let all = self.vecs.inner.borrow_mut().as_mut_slice();
        let cut = if n <= all.len() {
            n
        } else {
            all.len()
        };
        let (a, b) = all.split_at_mut(cut);
        proof {
            assert(cut == n ==> (a@ + final(b)@).take(n as int) =~= a@ && (a@ + final(b)@).skip(
                n as int,
            ) =~= final(b)@);
        }
        b
    }

    /// Appends `b` to the second region, at the end of the backing vector.
    pub fn push(&mut self, b: V::T)
        requires
            old(self).vecs.wf(),
            old(self).vecs.backing().len() < usize::MAX,
        ensures
            *final(final(self).vecs) == *final(old(self).vecs),
            final(self).vecs.wf(),
            final(self).vecs.first_region() == old(self).vecs.first_region(),
            final(self).vecs.backing().len() == old(self).vecs.backing().len() + 1,
            final(self).vecs.boundary() == old(self).vecs.boundary(),
            final(self).vecs.second_region() == old(self).vecs.second_region().push(b),
    {
        let ghost old_all = self.vecs.backing();
        let n = self.vecs.first_length;
        self.vecs.inner.borrow_mut().push(b);
        proof {
            let all = self.vecs.backing();
            assert(all.take(n as int) =~= old_all.take(n as int));
            assert(all.skip(n as int) =~= old_all.skip(n as int).push(b));
        }
    }

    /// Keeps the first `num` elements of the second region (all of them when
    /// `num` is larger); the rest are dropped from the end.
    pub fn truncate(&mut self, num: usize)
        requires
            old(self).vecs.wf(),
        ensures
            *final(final(self).vecs) == *final(old(self).vecs),
            final(self).vecs.wf(),
            final(self).vecs.first_region() == old(self).vecs.first_region(),
            final(self).vecs.second_region() == old(self).vecs.second_region().take(
                clamped(num as int, old(self).vecs.second_region().len() as int),
            ),
    {
        let ghost old_all = self.vecs.backing();
        let n = self.vecs.first_length;
        let v = self.vecs.inner.borrow_mut();
        let total_len = v.len();
        if num < total_len - n {
            v.truncate(n + num);
        }
        proof {
            let all = self.vecs.backing();
            assert(all.take(n as int) =~= old_all.take(n as int));
            assert(all.skip(n as int) =~= old_all.skip(n as int).take(
                clamped(num as int, total_len - n),
            ));
        }
    }
}

impl<'a, V: VecTrait> RetainMutUnordered<V::T> for FirstVec<'a, V> {
    open spec fn region(&self) -> Seq<V::T> {
        self.vecs.first_region()
    }

    open spec fn outside(&self) -> Multiset<V::T> {
        self.vecs.second_region().to_multiset()
    }

    open spec fn valid(&self) -> bool {
        self.vecs.wf()
    }

    fn truncate(&mut self, val: usize)
        ensures
            *final(final(self).vecs) == *final(old(self).vecs),
    {
        proof {
            let a = old(self).vecs.first_region().len();
            lemma_cut_keeps_second(
                old(self).vecs.second_region(),
                a - clamped(val as int, a as int),
            );
        }
        FirstVec::truncate(self, val);
    }

    fn as_slice_mut(&mut self) -> (r: &mut [V::T])
        ensures
            *final(final(self).vecs) == *final(old(self).vecs),
    {
        FirstVec::as_slice_mut(self)
    }

    fn retain_mut_unordered<F: FnMut(&mut V::T) -> bool>(&mut self, f: F)
        ensures
            *final(final(self).vecs) == *final(old(self).vecs),
    {
        let ghost before = self.region();
        let len = FirstVec::as_slice(self).len();
        let kept = retain_in(FirstVec::as_slice_mut(self), f);
        let ghost mid = self.region();
        assert(mid.len() == before.len());
        assert(exists|trace: Seq<(V::T, V::T, bool)>|
            #[trigger] filtered(before, mid.take(kept as int), trace));
        if kept < len {
            RetainMutUnordered::truncate(self, kept);
        } else {
            assert(mid.take(kept as int) =~= mid);
        }
        assert(self.region() == mid.take(kept as int));
    }
}

impl<'a, V: VecTrait> RetainMutUnordered<V::T> for SecondVec<'a, V> {
    open spec fn region(&self) -> Seq<V::T> {
        self.vecs.second_region()
    }

    open spec fn outside(&self) -> Multiset<V::T> {
        self.vecs.first_region().to_multiset()
    }

    open spec fn valid(&self) -> bool {
        self.vecs.wf()
    }

    fn truncate(&mut self, val: usize)
        ensures
            *final(final(self).vecs) == *final(old(self).vecs),
            final(self).vecs.first_region() == old(self).vecs.first_region(),
    {
        SecondVec::truncate(self, val);
    }

    fn as_slice_mut(&mut self) -> (r: &mut [V::T])
        ensures
            *final(final(self).vecs) == *final(old(self).vecs),
    {
        SecondVec::as_slice_mut(self)
    }

    fn retain_mut_unordered<F: FnMut(&mut V::T) -> bool>(&mut self, f: F)
        ensures
            *final(final(self).vecs) == *final(old(self).vecs),
            final(self).vecs.first_region() == old(self).vecs.first_region(),
    {
        let ghost before = self.region();
        let len = SecondVec::as_slice(self).len();
        let kept = retain_in(SecondVec::as_slice_mut(self), f);
        let ghost mid = self.region();
        assert(mid.len() == before.len());
        assert(exists|trace: Seq<(V::T, V::T, bool)>|
            #[trigger] filtered(before, mid.take(kept as int), trace));
        if kept < len {
            RetainMutUnordered::truncate(self, kept);
        } else {
            assert(mid.take(kept as int) =~= mid);
        }
        assert(self.region() == mid.take(kept as int));
    }
}

impl<T> Default for TwoUnorderedVecs<Vec<T>> {
    fn default() -> (r: Self)
        ensures
            r.wf(),
            r.backing() == Seq::<T>::empty(),
            r.boundary() == 0,
    {
        TwoUnorderedVecs::new()
    }
}

impl<'a, T> From<&'a mut Vec<T>> for TwoUnorderedVecs<&'a mut Vec<T>> {
    fn from(a: &'a mut Vec<T>) -> (r: TwoUnorderedVecs<&'a mut Vec<T>>)
        ensures
            r.wf(),
            r.backing() == old(a)@,
            r.boundary() == old(a)@.len(),
    {
        TwoUnorderedVecs::from_mut(a)
    }
}

// Moving a borrow into or out of the container reborrows it, so the
// result is not claimed equal to the argument's image; `from` states its
// result over the views instead.
impl<'a, T> vstd::std_specs::convert::FromSpecImpl<&'a mut Vec<T>> for TwoUnorderedVecs<&'a mut Vec<T>> {
    open spec fn obeys_from_spec() -> bool {
        false
    }

    closed spec fn from_spec(v: &'a mut Vec<T>) -> Self {
        TwoUnorderedVecs { inner: v, first_length: v.len() }
    }
}

impl<T> From<Vec<T>> for TwoUnorderedVecs<Vec<T>> {
    fn from(a: Vec<T>) -> (r: TwoUnorderedVecs<Vec<T>>)
        ensures
            r.wf(),
            r.backing() == a@,
            r.boundary() == a@.len(),
    {
        let first_length = a.len();
        TwoUnorderedVecs { inner: a, first_length }
    }
}

impl<T> vstd::std_specs::convert::FromSpecImpl<Vec<T>> for TwoUnorderedVecs<Vec<T>> {
    open spec fn obeys_from_spec() -> bool {
        true
    }

    closed spec fn from_spec(v: Vec<T>) -> Self {
        TwoUnorderedVecs { inner: v, first_length: v.len() }
    }
}

impl<T> From<TwoUnorderedVecs<Vec<T>>> for Vec<T> {
    fn from(a: TwoUnorderedVecs<Vec<T>>) -> (r: Vec<T>)
        ensures
            r@ == a.backing(),
    {
        a.inner
    }
}

impl<T> vstd::std_specs::convert::FromSpecImpl<TwoUnorderedVecs<Vec<T>>> for Vec<T> {
    open spec fn obeys_from_spec() -> bool {
        true
    }

    closed spec fn from_spec(v: TwoUnorderedVecs<Vec<T>>) -> Self {
        v.inner
    }
}

impl<'a, T> From<TwoUnorderedVecs<&'a mut Vec<T>>> for &'a mut Vec<T> {
    fn from(a: TwoUnorderedVecs<&'a mut Vec<T>>) -> (r: &'a mut Vec<T>)
        ensures
            r@ == a.backing(),
    {
        let TwoUnorderedVecs { inner, first_length: _ } = a;
        inner
    }
}

// Moving a borrow into or out of the container reborrows it, so the
// result is not claimed equal to the argument's image; `from` states its
// result over the views instead.
impl<'a, T> vstd::std_specs::convert::FromSpecImpl<TwoUnorderedVecs<&'a mut Vec<T>>> for &'a mut Vec<T> {
    open spec fn obeys_from_spec() -> bool {
        false
    }

    closed spec fn from_spec(v: TwoUnorderedVecs<&'a mut Vec<T>>) -> Self {
        v.inner
    }
}

impl<'a, V: VecTrait> core::ops::Deref for FirstVec<'a, V> {
    type Target = [V::T];

    fn deref(&self) -> (r: &[V::T])
        ensures
            mut_ref_current(self.vecs).wf() ==> r@ == mut_ref_current(self.vecs).first_region(),
    {
        self.as_slice()
    }
}

impl<'a, V: VecTrait> core::ops::Deref for SecondVec<'a, V> {
    type Target = [V::T];

    fn deref(&self) -> (r: &[V::T])
        ensures
            mut_ref_current(self.vecs).wf() ==> r@ == mut_ref_current(self.vecs).second_region(),
    {
        self.as_slice()
    }
}

impl<'a, V: VecTrait> core::ops::DerefMut for FirstVec<'a, V> {
    fn deref_mut(&mut self) -> (r: &mut [V::T])
        ensures
            *final(final(self).vecs) == *final(old(self).vecs),
            old(self).vecs.wf() ==> r@ == old(self).vecs.first_region(),
            old(self).vecs.wf() && final(r)@.len() == r@.len() ==> {
                &&& final(self).vecs.wf()
                &&& final(self).vecs.first_region() == final(r)@
                &&& final(self).vecs.second_region() == old(self).vecs.second_region()
            },
    {
        self.as_slice_mut()
    }
}

impl<'a, V: VecTrait> core::ops::DerefMut for SecondVec<'a, V> {
    fn deref_mut(&mut self) -> (r: &mut [V::T])
        ensures
            *final(final(self).vecs) == *final(old(self).vecs),
            old(self).vecs.wf() ==> {
                &&& r@ == old(self).vecs.second_region()
                &&& final(self).vecs.first_region() == old(self).vecs.first_region()
                &&& final(self).vecs.wf()
                &&& final(self).vecs.second_region() == final(r)@
            },
    {
        self.as_slice_mut()
    }
}

} // verus!
