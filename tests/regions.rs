use twounordered::{RetainMutUnordered, TwoUnorderedVecs};

fn sorted(s: &[u32]) -> Vec<u32> {
    let mut v = s.to_vec();
    v.sort();
    v
}

#[test]
fn lengths_add_up_after_mixed_calls() {
    let mut k: TwoUnorderedVecs<Vec<u32>> = TwoUnorderedVecs::new();
    for i in 0u32..7 {
        k.first().push(i);
        k.second().push(100 + i);
        let (a, b) = k.as_slice();
        assert_eq!(a.len() + b.len(), k.as_vec().len());
    }
    k.first().truncate(3);
    k.second().truncate(5);
    let (a, b) = k.as_slice();
    assert_eq!(a.len(), 3);
    assert_eq!(b.len(), 5);
    assert_eq!(a.len() + b.len(), k.as_vec().len());
}

#[test]
fn first_truncate_keeps_prefix_and_second_elements() {
    let mut k: TwoUnorderedVecs<Vec<u32>> = TwoUnorderedVecs::new();
    for i in 0u32..6 {
        k.first().push(i);
    }
    for i in 10u32..13 {
        k.second().push(i);
    }
    k.first().truncate(4);
    let (a, b) = k.as_slice();
    assert_eq!(a, &[0, 1, 2, 3]);
    assert_eq!(sorted(b), vec![10, 11, 12]);
    // the second region is longer than the cut: its last two move to the front
    assert_eq!(b, &[11, 12, 10]);
}

#[test]
fn first_truncate_with_short_second_region() {
    let mut k: TwoUnorderedVecs<Vec<u32>> = TwoUnorderedVecs::new();
    for i in 0u32..6 {
        k.first().push(i);
    }
    k.second().push(20);
    k.second().push(21);
    k.first().truncate(1);
    let (a, b) = k.as_slice();
    assert_eq!(a, &[0]);
    assert_eq!(b, &[20, 21]);
    assert_eq!(k.as_vec().len(), 3);
}

#[test]
fn first_truncate_beyond_length_changes_nothing() {
    let mut k: TwoUnorderedVecs<Vec<u32>> = TwoUnorderedVecs::new();
    k.first().push(1);
    k.first().push(2);
    k.second().push(3);
    k.second().push(4);
    k.first().truncate(usize::MAX);
    assert_eq!(k.as_slice(), (&[1u32, 2][..], &[3u32, 4][..]));
    k.first().truncate(2);
    assert_eq!(k.as_slice(), (&[1u32, 2][..], &[3u32, 4][..]));
}

#[test]
fn second_truncate_beyond_length_changes_nothing() {
    let mut k: TwoUnorderedVecs<Vec<u32>> = TwoUnorderedVecs::new();
    k.first().push(1);
    k.second().push(3);
    k.second().push(4);
    k.second().truncate(usize::MAX);
    assert_eq!(k.as_slice(), (&[1u32][..], &[3u32, 4][..]));
    k.second().truncate(1);
    assert_eq!(k.as_slice(), (&[1u32][..], &[3u32][..]));
}

#[test]
fn truncate_on_empty_container() {
    let mut k: TwoUnorderedVecs<Vec<u32>> = TwoUnorderedVecs::new();
    k.first().truncate(0);
    k.second().truncate(0);
    k.first().truncate(5);
    assert_eq!(k.first().len(), 0);
    assert_eq!(k.second().len(), 0);
}

#[test]
fn first_push_moves_head_of_second_to_the_end() {
    let mut k: TwoUnorderedVecs<Vec<u32>> = TwoUnorderedVecs::new();
    k.second().push(7);
    k.second().push(8);
    k.second().push(9);
    k.first().push(1);
    let (a, b) = k.as_slice();
    assert_eq!(a, &[1]);
    assert_eq!(b, &[8, 9, 7]);
    assert_eq!(sorted(b), vec![7, 8, 9]);
}

#[test]
fn second_push_leaves_first_region() {
    let mut k: TwoUnorderedVecs<Vec<u32>> = TwoUnorderedVecs::new();
    k.first().push(1);
    k.first().push(2);
    k.second().push(3);
    assert_eq!(k.first().as_slice(), &[1, 2]);
    assert_eq!(k.second().as_slice(), &[3]);
}

#[test]
fn retain_on_vec_calls_once_per_element() {
    let mut v: Vec<u32> = vec![5, 6, 7, 8, 9];
    let mut calls = 0;
    v.retain_mut_unordered(|x| {
        calls += 1;
        *x % 2 == 1
    });
    assert_eq!(calls, 5);
    assert_eq!(sorted(&v), vec![5, 7, 9]);
}

#[test]
fn retain_keeping_nothing_and_everything() {
    let mut v: Vec<u32> = vec![1, 2, 3];
    v.retain_mut_unordered(|_| true);
    assert_eq!(v, vec![1, 2, 3]);
    v.retain_mut_unordered(|_| false);
    assert!(v.is_empty());
    v.retain_mut_unordered(|_| false);
    assert!(v.is_empty());
}

#[test]
fn retain_on_first_region_keeps_second_elements() {
    let mut k: TwoUnorderedVecs<Vec<u32>> = TwoUnorderedVecs::new();
    for i in 0u32..6 {
        k.first().push(i);
    }
    for i in 10u32..14 {
        k.second().push(i);
    }
    k.first().retain_mut_unordered(|x| *x >= 3);
    assert_eq!(sorted(k.first().as_slice()), vec![3, 4, 5]);
    assert_eq!(sorted(k.second().as_slice()), vec![10, 11, 12, 13]);
}

#[test]
fn retain_on_second_region_leaves_first() {
    let mut k: TwoUnorderedVecs<Vec<u32>> = TwoUnorderedVecs::new();
    for i in 0u32..3 {
        k.first().push(i);
    }
    for i in 10u32..14 {
        k.second().push(i);
    }
    k.second().retain_mut_unordered(|x| {
        *x += 1;
        *x % 2 == 0
    });
    assert_eq!(k.first().as_slice(), &[0, 1, 2]);
    assert_eq!(sorted(k.second().as_slice()), vec![12, 14]);
}

#[test]
fn clear_empties_both_regions() {
    let mut k: TwoUnorderedVecs<Vec<u32>> = TwoUnorderedVecs::with_capacity(8);
    k.first().push(1);
    k.second().push(2);
    k.clear();
    assert_eq!(k.as_vec().len(), 0);
    k.second().push(3);
    assert_eq!(k.as_slice(), (&[][..], &[3u32][..]));
}

#[test]
fn conversions_put_existing_elements_in_first_region() {
    let mut k = TwoUnorderedVecs::from(vec![4u32, 5, 6]);
    assert_eq!(k.first().len(), 3);
    assert_eq!(k.second().len(), 0);
    k.second().push(7);
    let v: Vec<u32> = k.into();
    assert_eq!(v, vec![4, 5, 6, 7]);

    let mut backing = vec![1u32, 2];
    {
        let mut b = TwoUnorderedVecs::from(&mut backing);
        assert_eq!(b.as_slice(), (&[1u32, 2][..], &[][..]));
        b.second().push(3);
        b.first().truncate(1);
    }
    assert_eq!(backing.len(), 2);
    assert_eq!(backing[0], 1);
    assert_eq!(backing[1], 3);
}

#[test]
fn default_is_empty() {
    let mut k: TwoUnorderedVecs<Vec<u32>> = TwoUnorderedVecs::default();
    assert_eq!(k.first().len(), 0);
    assert_eq!(k.second().len(), 0);
}

#[test]
fn mutable_slices_write_through() {
    let mut k: TwoUnorderedVecs<Vec<u32>> = TwoUnorderedVecs::new();
    k.first().push(1);
    k.second().push(2);
    {
        let (a, b) = k.as_slice_mut();
        a[0] = 10;
        b[0] = 20;
    }
    k.first().as_slice_mut()[0] += 1;
    k.second().as_slice_mut()[0] += 2;
    assert_eq!(k.as_slice(), (&[11u32][..], &[22u32][..]));
}

#[test]
fn exchange_storage_returns_previous_vector() {
    let mut k: TwoUnorderedVecs<Vec<u32>> = TwoUnorderedVecs::new();
    k.first().push(1);
    k.second().push(2);
    let (old, first_len) = k.exchange_storage(vec![7, 8, 9]);
    assert_eq!(old, vec![1, 2]);
    assert_eq!(first_len, 1);
    assert_eq!(k.as_slice(), (&[7u32, 8, 9][..], &[][..]));
}

#[test]
fn region_handles_deref_to_slices() {
    let mut k: TwoUnorderedVecs<Vec<u32>> = TwoUnorderedVecs::new();
    k.first().push(3);
    k.first().push(1);
    k.second().push(9);
    k.first().sort();
    k.second()[0] = 4;
    assert_eq!(&*k.first(), &[1, 3]);
    assert_eq!(&*k.second(), &[4]);
}

#[test]
fn dissolving_puts_first_region_before_second() {
    let mut k = TwoUnorderedVecs::from(vec![1u32, 2, 3]);
    k.second().push(9);
    k.first().truncate(1);
    let v: Vec<u32> = Vec::from(k);
    assert_eq!(v, vec![1, 9]);
    let back: Vec<u32> = Vec::from(TwoUnorderedVecs::from(vec![4u32, 5]));
    assert_eq!(back, vec![4, 5]);
}
