use array_shape::Shape;
use array_shape::UnfixError;

#[test]
fn scalar_has_one_element() {
    let s = Shape::scalar();
    assert_eq!(s.len(), 0);
    assert_eq!(s.elements(), 1);
}

#[test]
fn empty_list_has_no_elements() {
    let s = Shape::empty_list();
    assert_eq!(s.dims(), &[0]);
    assert_eq!(s.elements(), 0);
}

#[test]
fn row_queries_on_rank_three() {
    let s = Shape::from_slice(&[2, 3, 4]);
    assert_eq!(s.row_count(), 2);
    assert_eq!(s.row_len(), 12);
    assert_eq!(s.row().dims(), &[3, 4]);
    assert_eq!(s.elements(), 24);
}

#[test]
fn row_queries_on_scalar() {
    let s = Shape::scalar();
    assert_eq!(s.row_count(), 1);
    assert_eq!(s.row_len(), 1);
    assert_eq!(s.row().len(), 0);
    assert_eq!(s.row_slice(), &[] as &[usize]);
}

#[test]
fn elements_zero_dimension() {
    let s = Shape::from_slice(&[0, 3]);
    assert_eq!(s.elements(), 0);
}

#[test]
fn fix_then_unfix_restores() {
    let mut s = Shape::from_slice(&[2, 3]);
    s.fix();
    assert_eq!(s.dims(), &[1, 2, 3]);
    assert!(s.unfix().is_ok());
    assert_eq!(s.dims(), &[2, 3]);
}

#[test]
fn fix_depth_clamps_to_rank() {
    let mut s = Shape::from_slice(&[2, 3]);
    assert_eq!(s.fix_depth(5), 2);
    assert_eq!(s.dims(), &[2, 3, 1]);
    let mut t = Shape::from_slice(&[2, 3]);
    assert_eq!(t.fix_depth(1), 1);
    assert_eq!(t.dims(), &[2, 1, 3]);
}

#[test]
fn unfix_rank_one_reports_other() {
    let mut s = Shape::from_slice(&[5]);
    match s.unfix() {
        Err(UnfixError::Other(inner)) => assert_eq!(inner.dims(), &[5]),
        _ => panic!("expected the rank-1 report"),
    }
    assert_eq!(s.dims(), &[5]);
}

#[test]
fn unfix_zero_extent_reports_empty() {
    let mut s = Shape::from_slice(&[0]);
    assert!(matches!(s.unfix(), Err(UnfixError::ContainsZeroDimension)));
    assert_eq!(s.dims(), &[0]);
}

#[test]
fn unfix_scalar_reports_scalar() {
    let mut s = Shape::scalar();
    assert!(matches!(s.unfix(), Err(UnfixError::IsScalar)));
    assert_eq!(s.len(), 0);
}

#[test]
fn unfix_merges_and_reports_leading_extent() {
    let mut s = Shape::from_slice(&[5, 3]);
    match s.unfix() {
        Err(UnfixError::WrongUnitLength(d)) => assert_eq!(d, 5),
        _ => panic!("expected the merged report"),
    }
    assert_eq!(s.dims(), &[15]);
}

#[test]
fn unfix_merges_zero_leading_extent() {
    let mut s = Shape::from_slice(&[0, 3]);
    match s.unfix() {
        Err(UnfixError::WrongUnitLength(d)) => assert_eq!(d, 0),
        _ => panic!("expected the merged report"),
    }
    assert_eq!(s.dims(), &[0]);
}

#[test]
fn undo_fix_collapses_or_keeps() {
    let mut a = Shape::from_slice(&[2, 3]);
    a.undo_fix();
    assert_eq!(a.dims(), &[6]);
    let mut b = Shape::from_slice(&[1, 2]);
    b.undo_fix();
    assert_eq!(b.dims(), &[2]);
    let mut c = Shape::scalar();
    c.undo_fix();
    assert_eq!(c.len(), 0);
    let mut d = Shape::from_slice(&[4]);
    d.undo_fix();
    assert_eq!(d.dims(), &[4]);
}

#[test]
fn deshape_flattens() {
    let mut s = Shape::from_slice(&[2, 3]);
    s.deshape();
    assert_eq!(s.dims(), &[6]);
}

#[test]
fn deshape_rank_one_is_noop() {
    let mut s = Shape::from_slice(&[7]);
    s.deshape();
    assert_eq!(s.dims(), &[7]);
}

#[test]
fn deshape_scalar_gives_unit_list() {
    let mut s = Shape::scalar();
    s.deshape();
    assert_eq!(s.dims(), &[1]);
}

#[test]
fn make_row_drops_leading_axis() {
    let mut s = Shape::from_slice(&[2, 3, 4]);
    s.make_row();
    assert_eq!(s.dims(), &[3, 4]);
    let mut t = Shape::scalar();
    t.make_row();
    assert_eq!(t.len(), 0);
}

#[test]
fn row_slice_skips_leading_axis() {
    let s = Shape::from_slice(&[2, 3, 4]);
    assert_eq!(s.row_slice(), &[3, 4]);
}

#[test]
fn row_count_mut_promotes_scalar() {
    let mut s = Shape::scalar();
    *s.row_count_mut() = 7;
    assert_eq!(s.dims(), &[7]);
    let mut t = Shape::from_slice(&[2, 3]);
    *t.row_count_mut() = 5;
    assert_eq!(t.dims(), &[5, 3]);
}

#[test]
fn unfix_messages() {
    let mut s = Shape::from_slice(&[5, 3]);
    let e = s.unfix().unwrap_err();
    assert_eq!(e.message(), "Cannot unfix array with length 5");
    let mut z = Shape::from_slice(&[0]);
    assert_eq!(z.unfix().unwrap_err().message(), "Cannot unfix empty array");
    let mut sc = Shape::scalar();
    assert_eq!(sc.unfix().unwrap_err().message(), "Cannot unfix scalar");
    let mut o = Shape::from_slice(&[12]);
    assert_eq!(
        o.unfix().unwrap_err().message(),
        "Cannot unfix array with shape [12]"
    );
}

#[test]
fn fix_preserves_elements() {
    let mut s = Shape::from_slice(&[2, 3]);
    let before = s.elements();
    s.fix();
    assert_eq!(s.elements(), before);
    s.undo_fix();
    assert_eq!(s.elements(), before);
}
