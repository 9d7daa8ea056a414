//! Trusted boundary around the small-buffer-optimized vector that backs a
//! shape's dimension list.
//!
//! Shapes of rank three or less are the overwhelmingly common case, so the
//! dimensions live in a `tinyvec::TinyVec<[usize; 3]>`: inline storage for low
//! ranks, transparent spill to the heap above that.  Verus sees that vector
//! only through the contracts below; `dim_seq` names the mathematical sequence
//! of dimensions a vector holds, and every wrapper states how the call it
//! makes moves that sequence.

use vstd::prelude::*;

verus! {

/// The backing store of a shape's dimension list.  Verus sees nothing inside
/// it; the wrappers below are its whole interface.
#[verifier::external_body]
pub struct DimVec(tinyvec::TinyVec<[usize; 3]>);

/// The ordered sequence of dimensions held by a backing vector.
pub uninterp spec fn dim_seq(v: DimVec) -> Seq<usize>;

/// Relies on `TinyVec::new`: a freshly made vector holds no elements.
#[verifier::external_body]
pub(crate) fn dims_new() -> (r: DimVec)
    ensures
        dim_seq(r) == Seq::<usize>::empty(),
{
    DimVec(tinyvec::TinyVec::new())
}

/// Relies on `TinyVec::with_capacity`: the vector starts empty, whatever
/// storage mode the capacity selects.
#[verifier::external_body]
pub(crate) fn dims_with_capacity(capacity: usize) -> (r: DimVec)
    ensures
        dim_seq(r) == Seq::<usize>::empty(),
{
    DimVec(tinyvec::TinyVec::with_capacity(capacity))
}

/// Relies on `Clone for TinyVec`: the clone holds the same elements in the
/// same order.
#[verifier::external_body]
pub(crate) fn dims_clone(v: &DimVec) -> (r: DimVec)
    ensures
        dim_seq(r) == dim_seq(*v),
{
    DimVec(v.0.clone())
}

/// Relies on `TinyVec::as_slice`: a view of all elements in order.
#[verifier::external_body]
pub(crate) fn dims_as_slice(v: &DimVec) -> (r: &[usize])
    ensures
        r@ == dim_seq(*v),
{
    v.0.as_slice()
}

/// Relies on `TinyVec::as_mut_slice`: a mutable view of all elements in
/// order; writes through it are writes to the vector.
#[verifier::external_body]
pub(crate) fn dims_as_mut_slice(v: &mut DimVec) -> (r: &mut [usize])
    ensures
        r@ == dim_seq(*old(v)),
        dim_seq(*final(v)) == final(r)@,
{
    v.0.as_mut_slice()
}

/// Relies on `IndexMut for TinyVec`: element `index` of the vector; a write
/// through the result is a write to that element.
#[verifier::external_body]
pub(crate) fn dims_first_mut(v: &mut DimVec) -> (r: &mut usize)
    requires
        dim_seq(*old(v)).len() > 0,
    ensures
        *r == dim_seq(*old(v))[0],
        dim_seq(*final(v)) == dim_seq(*old(v)).update(0, *final(r)),
{
    &mut v.0[0]
}

/// Relies on `IndexMut for TinyVec`: writes element `index`.
#[verifier::external_body]
pub(crate) fn dims_set(v: &mut DimVec, index: usize, dim: usize)
    requires
        index < dim_seq(*old(v)).len(),
    ensures
        dim_seq(*final(v)) == dim_seq(*old(v)).update(index as int, dim),
{
    v.0[index] = dim;
}

/// Relies on `TinyVec::push`: appends one element, spilling to the heap when
/// the inline buffer is full.
#[verifier::external_body]
pub(crate) fn dims_push(v: &mut DimVec, dim: usize)
    ensures
        dim_seq(*final(v)) == dim_seq(*old(v)).push(dim),
{
    v.0.push(dim);
}

/// Relies on `TinyVec::pop`: removes and returns the last element, or returns
/// `None` and leaves the vector alone when it is empty.
#[verifier::external_body]
pub(crate) fn dims_pop(v: &mut DimVec) -> (r: Option<usize>)
    ensures
        dim_seq(*old(v)).len() == 0 ==> r is None && dim_seq(*final(v)) == dim_seq(*old(v)),
        dim_seq(*old(v)).len() > 0 ==> r == Some(dim_seq(*old(v)).last()) && dim_seq(*final(v))
            == dim_seq(*old(v)).drop_last(),
{
    v.0.pop()
}

/// Relies on `TinyVec::insert`: inserts at `index`, shifting later elements
/// one place right; panics only when `index` exceeds the length.
#[verifier::external_body]
pub(crate) fn dims_insert(v: &mut DimVec, index: usize, dim: usize)
    requires
        index <= dim_seq(*old(v)).len(),
    ensures
        dim_seq(*final(v)) == dim_seq(*old(v)).insert(index as int, dim),
{
    v.0.insert(index, dim);
}

/// Relies on `TinyVec::remove`: removes and returns element `index`, shifting
/// later elements one place left; panics only when `index` is out of bounds.
#[verifier::external_body]
pub(crate) fn dims_remove(v: &mut DimVec, index: usize) -> (r: usize)
    requires
        index < dim_seq(*old(v)).len(),
    ensures
        r == dim_seq(*old(v))[index as int],
        dim_seq(*final(v)) == dim_seq(*old(v)).remove(index as int),
{
    v.0.remove(index)
}

/// Relies on `TinyVec::truncate`: keeps the first `len` elements and drops the
/// rest; a no-op when the vector is already short enough.
#[verifier::external_body]
pub(crate) fn dims_truncate(v: &mut DimVec, len: usize)
    ensures
        dim_seq(*final(v)) == dim_seq(*old(v)).take(
            if len <= dim_seq(*old(v)).len() {
                len as int
            } else {
                dim_seq(*old(v)).len() as int
            },
        ),
{
    v.0.truncate(len);
}

/// Relies on `TinyVec::split_off`: removes the elements from `at` to the end
/// and returns them as a new vector; panics only when `at` exceeds the length.
#[verifier::external_body]
pub(crate) fn dims_split_off(v: &mut DimVec, at: usize) -> (r:
    DimVec)
    requires
        at <= dim_seq(*old(v)).len(),
    ensures
        dim_seq(*final(v)) == dim_seq(*old(v)).take(at as int),
        dim_seq(r) == dim_seq(*old(v)).skip(at as int),
{
    DimVec(v.0.split_off(at))
}

/// Relies on `TinyVec::extend_from_slice`: appends the slice's elements in
/// order.
#[verifier::external_body]
pub(crate) fn dims_extend_from_slice(v: &mut DimVec, dims: &[usize])
    ensures
        dim_seq(*final(v)) == dim_seq(*old(v)) + dims@,
{
    v.0.extend_from_slice(dims);
}

/// Relies on `TinyVec::drain`: dropping the draining iterator removes the
/// elements of `start..end`; panics only on a range that is out of bounds or
/// reversed.
#[verifier::external_body]
pub(crate) fn dims_drain(v: &mut DimVec, start: usize, end: usize)
    requires
        start <= end,
        end <= dim_seq(*old(v)).len(),
    ensures
        dim_seq(*final(v)) == dim_seq(*old(v)).take(start as int) + dim_seq(*old(v)).skip(
            end as int,
        ),
{
    v.0.drain(start..end);
}

} // verus!
