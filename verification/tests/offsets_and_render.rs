use array_shape::Shape;

#[test]
fn dims_to_flat_row_major() {
    let s = Shape::from_slice(&[2, 3, 4]);
    assert_eq!(s.dims_to_flat(&[0, 0, 0]), Some(0));
    assert_eq!(s.dims_to_flat(&[1, 2, 3]), Some(23));
    assert_eq!(s.dims_to_flat(&[0, 1, 2]), Some(6));
}

#[test]
fn dims_to_flat_rejects_out_of_bounds() {
    let s = Shape::from_slice(&[2, 3]);
    assert_eq!(s.dims_to_flat(&[2, 0]), None);
    assert_eq!(s.dims_to_flat(&[0, 3]), None);
}

#[test]
fn dims_to_flat_short_vector_uses_leading_axes() {
    let s = Shape::from_slice(&[2, 3, 4]);
    assert_eq!(s.dims_to_flat(&[1]), Some(1));
    assert_eq!(s.dims_to_flat(&[1, 2]), Some(5));
}

#[test]
fn dims_to_flat_scalar_is_zero() {
    let s = Shape::scalar();
    assert_eq!(s.dims_to_flat(&[]), Some(0));
}

#[test]
fn i_dims_to_flat_signed() {
    let s = Shape::from_slice(&[2, 3]);
    assert_eq!(s.i_dims_to_flat(&[1, 2]), Some(5));
    assert_eq!(s.i_dims_to_flat(&[-1, 0]), None);
    assert_eq!(s.i_dims_to_flat(&[0, 3]), None);
}

#[test]
fn flat_to_dims_inverts_dims_to_flat() {
    let s = Shape::from_slice(&[2, 3, 4]);
    let mut out: Vec<usize> = Vec::new();
    for a in 0..2usize {
        for b in 0..3usize {
            for c in 0..4usize {
                let flat = s.dims_to_flat(&[a, b, c]).unwrap();
                s.flat_to_dims(flat, &mut out);
                assert_eq!(out, vec![a, b, c]);
            }
        }
    }
}

#[test]
fn flat_to_dims_fills_buffer() {
    let s = Shape::from_slice(&[2, 3]);
    let mut out: Vec<usize> = vec![9, 9, 9];
    s.flat_to_dims(4, &mut out);
    assert_eq!(out, vec![1, 1]);
}

#[test]
fn render_joins_extents() {
    let s = Shape::from_slice(&[2, 3, 4]);
    assert_eq!(s.render(), "[2 × 3 × 4]");
}

#[test]
fn render_scalar_is_empty_brackets() {
    assert_eq!(Shape::scalar().render(), "[]");
    assert_eq!(Shape::empty_list().render(), "[0]");
}

#[test]
fn render_multi_digit_extents() {
    let s = Shape::from_slice(&[10, 205]);
    assert_eq!(s.render(), "[10 × 205]");
}
