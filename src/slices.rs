//! Element and block exchanges inside a slice.
use vstd::prelude::*;

verus! {

/// The sequence `s` with the elements at `i` and `j` exchanged.
pub open spec fn swapped<T>(s: Seq<T>, i: int, j: int) -> Seq<T> {
    s.update(i, s[j]).update(j, s[i])
}

/// Exchanges the elements at `i` and `j` (which may be equal).
pub fn swap_at<T>(s: &mut [T], i: usize, j: usize)
    requires
        i < old(s)@.len(),
        j < old(s)@.len(),
    ensures
        final(s)@ == swapped(old(s)@, i as int, j as int),
{
    if i < j {
        let (a, b) = s.split_at_mut(j);
        core::mem::swap(&mut a[i], &mut b[0]);
    } else if j < i {
        let (a, b) = s.split_at_mut(i);
        core::mem::swap(&mut a[j], &mut b[0]);
    } else {
        assert(swapped(old(s)@, i as int, j as int) =~= old(s)@);
    }
}

} // verus!

verus! {

/// The sequence `s` with its `n` elements from `a` exchanged, in order,
/// with its `n` elements from `b`.
pub open spec fn blocks_swapped<T>(s: Seq<T>, a: int, b: int, n: int) -> Seq<T> {
    Seq::new(
        s.len(),
        |k: int|
            if a <= k < a + n {
                s[k - a + b]
            } else if b <= k < b + n {
                s[k - b + a]
            } else {
                s[k]
            },
    )
}

/// Exchanges the block of `n` elements from `a` with the block of `n`
/// elements from `b`; the blocks must not overlap.
pub fn swap_blocks<T>(s: &mut [T], a: usize, b: usize, n: usize)
    requires
        a + n <= b,
        b + n <= old(s)@.len(),
    ensures
        final(s)@ == blocks_swapped(old(s)@, a as int, b as int, n as int),
{
    let ghost orig = s@;
    let len = s.len();
    let mut k: usize = 0;
    proof {
        assert(blocks_swapped(orig, a as int, b as int, 0) =~= orig);
    }
    while k < n
        invariant
            a + n <= b,
            b + n <= orig.len(),
            s@.len() == orig.len(),
            len == orig.len(),
            k <= n,
            s@ == blocks_swapped(orig, a as int, b as int, k as int),
        decreases n - k,
    {
        swap_at(s, a + k, b + k);
        k += 1;
        proof {
            assert(s@ =~= blocks_swapped(orig, a as int, b as int, k as int));
        }
    }
}

} // verus!
