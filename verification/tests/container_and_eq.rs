use array_shape::Shape;

#[test]
fn push_pop_round() {
    let mut s = Shape::with_capacity(4);
    assert_eq!(s.len(), 0);
    s.push(2);
    s.push(3);
    assert_eq!(s.dims(), &[2, 3]);
    assert_eq!(s.pop(), Some(3));
    assert_eq!(s.pop(), Some(2));
    assert_eq!(s.pop(), None);
}

#[test]
fn push_beyond_inline_capacity() {
    let mut s = Shape::scalar();
    for d in 1..=6usize {
        s.push(d);
    }
    assert_eq!(s.dims(), &[1, 2, 3, 4, 5, 6]);
    assert_eq!(s.elements(), 720);
}

#[test]
fn insert_and_remove_shift() {
    let mut s = Shape::from_slice(&[1, 3]);
    s.insert(1, 2);
    assert_eq!(s.dims(), &[1, 2, 3]);
    assert_eq!(s.remove(0), 1);
    assert_eq!(s.dims(), &[2, 3]);
}

#[test]
fn truncate_and_drain() {
    let mut s = Shape::from_slice(&[2, 3, 4, 5]);
    s.truncate(3);
    assert_eq!(s.dims(), &[2, 3, 4]);
    s.truncate(9);
    assert_eq!(s.dims(), &[2, 3, 4]);
    let mut t = Shape::from_slice(&[2, 3, 4, 5]);
    t.drain(1, 3);
    assert_eq!(t.dims(), &[2, 5]);
}

#[test]
fn split_off_keeps_prefix() {
    let mut s = Shape::from_slice(&[2, 3, 4]);
    let tail = s.split_off(1);
    assert_eq!(s.dims(), &[2]);
    assert_eq!(tail.dims(), &[3, 4]);
}

#[test]
fn extend_from_slice_appends() {
    let mut s = Shape::single(2);
    s.extend_from_slice(&[3, 4]);
    assert_eq!(s.dims(), &[2, 3, 4]);
}

#[test]
fn dims_mut_writes_through() {
    let mut s = Shape::from_slice(&[2, 3]);
    s.dims_mut()[1] = 9;
    assert_eq!(s.dims(), &[2, 9]);
}

#[test]
fn set_dim_overwrites() {
    let mut s = Shape::from_slice(&[2, 3]);
    s.set_dim(0, 4);
    assert_eq!(s.dims(), &[4, 3]);
}

#[test]
fn clone_and_default() {
    let s = Shape::from_slice(&[2, 3]);
    let c = s.clone();
    assert_eq!(c.dims(), &[2, 3]);
    let d = Shape::default();
    assert_eq!(d.len(), 0);
}

#[test]
fn equality_shape_to_shape() {
    let a = Shape::from_slice(&[2, 3]);
    let b = Shape::from_slice(&[2, 3]);
    let c = Shape::from_slice(&[3, 2]);
    assert!(a == b);
    assert!(a != c);
}

#[test]
fn equality_with_bare_integer_both_orders() {
    let s = Shape::from_slice(&[5]);
    assert!(s == 5usize);
    assert!(5usize == s);
    assert!(s != 6usize);
    let two = Shape::from_slice(&[5, 5]);
    assert!(two != 5usize);
}

#[test]
fn equality_with_raw_dims_both_orders() {
    let s = Shape::from_slice(&[5]);
    let sl: &[usize] = &[5];
    assert!(s == sl);
    assert!(*sl == s);
    assert!(s == [5usize]);
    assert!([5usize] == s);
    let t = Shape::from_slice(&[2, 3]);
    assert!(t == [2usize, 3]);
    assert!(t != [3usize, 2]);
}

#[test]
fn dim_and_is_empty() {
    let s = Shape::from_slice(&[2, 3]);
    assert!(!s.is_empty());
    assert_eq!(s.dim(1), 3);
    assert!(Shape::scalar().is_empty());
}

#[test]
fn ordering_is_lexicographic() {
    let a = Shape::from_slice(&[2, 3]);
    let b = Shape::from_slice(&[2, 4]);
    let c = Shape::from_slice(&[2, 3, 1]);
    assert!(a < b);
    assert!(a < c);
    assert!(b > c);
    assert!(Shape::scalar() < Shape::from_slice(&[0]));
    assert_eq!(
        a.partial_cmp(&Shape::from_slice(&[2, 3])),
        Some(std::cmp::Ordering::Equal)
    );
}
