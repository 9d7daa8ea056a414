//! The `Shape` value type: a growable ordered sequence of dimension extents,
//! outermost axis first, row-major.

use vstd::prelude::*;

use crate::storage::dim_seq;
use crate::storage::dims_as_mut_slice;
use crate::storage::dims_as_slice;
use crate::storage::dims_clone;
use crate::storage::dims_drain;
use crate::storage::dims_extend_from_slice;
use crate::storage::dims_first_mut;
use crate::storage::dims_insert;
use crate::storage::dims_new;
use crate::storage::dims_pop;
use crate::storage::dims_push;
use crate::storage::dims_remove;
use crate::storage::dims_set;
use crate::storage::dims_split_off;
use crate::storage::dims_truncate;
use crate::storage::dims_with_capacity;

verus! {

/// The product of a sequence of extents; the product of the empty sequence is
/// 1, so a rank-0 shape has exactly one element.
pub open spec fn dim_product(s: Seq<usize>) -> int
    decreases s.len(),
{
    if s.len() == 0 {
        1
    } else {
        dim_product(s.drop_last()) * s.last()
    }
}

/// A product of extents is never negative.
pub proof fn lemma_dim_product_nonneg(s: Seq<usize>)
    ensures
        dim_product(s) >= 0,
    decreases s.len(),
{
    if s.len() > 0 {
        lemma_dim_product_nonneg(s.drop_last());
        vstd::arithmetic::mul::lemma_mul_nonnegative(dim_product(s.drop_last()), s.last() as int);
    }
}

/// Extending a prefix by one extent multiplies its product by that extent.
pub proof fn lemma_dim_product_take_step(s: Seq<usize>, k: int)
    requires
        0 <= k < s.len(),
    ensures
        dim_product(s.take(k + 1)) == dim_product(s.take(k)) * s[k],
{
    assert(s.take(k + 1).drop_last() =~= s.take(k));
    assert(s.take(k + 1).last() == s[k]);
}

/// The running product of the extents in a slice, left to right.
pub(crate) fn product_of(dims: &[usize]) -> (r: usize)
    requires
        forall|k: int| 0 <= k <= dims@.len() ==> dim_product(dims@.take(k)) <= usize::MAX,
    ensures
        r as int == dim_product(dims@),
{
    let n = dims.len();
    let mut acc: usize = 1;
    let mut i: usize = 0;
    while i < n
        invariant
            n == dims@.len(),
            i <= n,
            acc as int == dim_product(dims@.take(i as int)),
            forall|k: int| 0 <= k <= dims@.len() ==> dim_product(dims@.take(k)) <= usize::MAX,
        decreases n - i,
    {
        let d = dims[i];
        proof {
            lemma_dim_product_take_step(dims@, i as int);
            lemma_dim_product_nonneg(dims@.take(i as int));
            vstd::arithmetic::mul::lemma_mul_nonnegative(
                dim_product(dims@.take(i as int)),
                d as int,
            );
        }
        acc = acc * d;
        i = i + 1;
    }
    proof {
        assert(dims@.take(n as int) =~= dims@);
    }
    acc
}

/// A shape containing any zero extent has 0 elements, regardless of the
/// other extents.
pub proof fn lemma_zero_dim_zero_product(s: Seq<usize>, k: int)
    requires
        0 <= k < s.len(),
        s[k] == 0,
    ensures
        dim_product(s) == 0,
    decreases s.len(),
{
    if k == s.len() - 1 {
        assert(dim_product(s) == dim_product(s.drop_last()) * 0);
    } else {
        lemma_zero_dim_zero_product(s.drop_last(), k);
    }
}

/// The product of a non-empty sequence, unfolded at the front rather than the
/// back.
proof fn lemma_dim_product_left_unfold(s: Seq<usize>)
    requires
        s.len() > 0,
    ensures
        dim_product(s) == s[0] * dim_product(s.skip(1)),
    decreases s.len(),
{
    if s.len() == 1 {
        assert(s.drop_last() =~= Seq::<usize>::empty());
        assert(s.skip(1) =~= Seq::<usize>::empty());
    } else {
        lemma_dim_product_left_unfold(s.drop_last());
        assert(s.drop_last().skip(1) =~= s.skip(1).drop_last());
        assert(s.skip(1).last() == s.last());
        let x = s[0] as int;
        let y = dim_product(s.skip(1).drop_last());
        let z = s.last() as int;
        assert((x * y) * z == x * (y * z)) by (nonlinear_arith);
    }
}

/// Inserting a unit axis anywhere leaves the element count unchanged: the
/// shape `fix` produces has exactly as many elements as the shape it started
/// from.
pub proof fn lemma_unit_axis_preserves_product(s: Seq<usize>, d: int)
    requires
        0 <= d <= s.len(),
    ensures
        dim_product(s.insert(d, 1usize)) == dim_product(s),
    decreases s.len(),
{
    let t = s.insert(d, 1usize);
    if d == s.len() {
        assert(t.drop_last() =~= s);
        assert(t.last() == 1);
    } else {
        assert(t.drop_last() =~= s.drop_last().insert(d, 1usize));
        assert(t.last() == s.last());
        lemma_unit_axis_preserves_product(s.drop_last(), d);
    }
}

/// Merging the two leading axes by multiplying their extents leaves the
/// element count unchanged: the shape `undo_fix` leaves behind has exactly as
/// many elements as the shape it started from.
pub proof fn lemma_merge_preserves_product(s: Seq<usize>)
    requires
        s.len() >= 2,
        s[0] * s[1] <= usize::MAX,
    ensures
        dim_product(seq![(s[0] * s[1]) as usize] + s.skip(2)) == dim_product(s),
{
    let m = seq![(s[0] * s[1]) as usize] + s.skip(2);
    lemma_dim_product_left_unfold(m);
    assert(m.skip(1) =~= s.skip(2));
    lemma_dim_product_left_unfold(s);
    lemma_dim_product_left_unfold(s.skip(1));
    assert(s.skip(1)[0] == s[1]);
    assert(s.skip(1).skip(1) =~= s.skip(2));
    let x = s[0] as int;
    let y = s[1] as int;
    let z = dim_product(s.skip(2));
    assert((x * y) * z == x * (y * z)) by (nonlinear_arith);
}

/// Unfixing inverts fixing: `fix` turns a shape `s` into `s.insert(0, 1)`,
/// whose leading extent is the unit, so a following `unfix` takes its success
/// case and restores exactly `s`.
pub proof fn lemma_fix_then_unfix(dims: Seq<usize>)
    ensures
        dims.insert(0, 1usize)[0] == 1,
        dims.insert(0, 1usize).skip(1) == dims,
{
    assert(dims.insert(0, 1usize).skip(1) =~= dims);
}

/// An array shape: the extents of the axes of a multidimensional array, most
/// significant (outermost, slowest-varying) axis first.  Rank is the number of
/// extents; a zero extent is legal and denotes an axis with no elements.
pub struct Shape {
    dims: crate::storage::DimVec,
}

impl View for Shape {
    type V = Seq<usize>;

    closed spec fn view(&self) -> Seq<usize> {
        dim_seq(self.dims)
    }
}

impl Shape {
    /// The canonical scalar shape: rank 0, exactly one element.
    pub fn scalar() -> (r: Shape)
        ensures
            r@ == Seq::<usize>::empty(),
    {
        Shape { dims: dims_new() }
    }

    /// The canonical empty-list shape: rank 1, single extent 0, no elements.
    pub fn empty_list() -> (r: Shape)
        ensures
            r@ == seq![0usize],
    {
        let mut dims = dims_new();
        dims_push(&mut dims, 0);
        proof {
            assert(dim_seq(dims) =~= seq![0usize]);
        }
        Shape { dims }
    }

    /// A new scalar shape whose storage is ready for the given rank.
    pub fn with_capacity(capacity: usize) -> (r: Shape)
        ensures
            r@ == Seq::<usize>::empty(),
    {
        Shape { dims: dims_with_capacity(capacity) }
    }

    /// A rank-1 shape holding the single given extent.
    pub fn single(dim: usize) -> (r: Shape)
        ensures
            r@ == seq![dim],
    {
        let mut dims = dims_new();
        dims_push(&mut dims, dim);
        proof {
            assert(dim_seq(dims) =~= seq![dim]);
        }
        Shape { dims }
    }

    /// A shape holding the given extents in order.
    pub fn from_slice(dims: &[usize]) -> (r: Shape)
        ensures
            r@ == dims@,
    {
        let mut inner = dims_new();
        dims_extend_from_slice(&mut inner, dims);
        proof {
            assert(dim_seq(inner) =~= dims@);
        }
        Shape { dims: inner }
    }

    /// The rank: the number of axes.
    pub fn len(&self) -> (r: usize)
        ensures
            r == self@.len(),
    {
        dims_as_slice(&self.dims).len()
    }

    /// Whether the shape has rank 0.
    pub fn is_empty(&self) -> (r: bool)
        ensures
            r == (self@.len() == 0),
    {
        self.len() == 0
    }

    /// The extent of the given axis.
    pub fn dim(&self, index: usize) -> (r: usize)
        requires
            index < self@.len(),
        ensures
            r == self@[index as int],
    {
        dims_as_slice(&self.dims)[index]
    }

    /// A read-only view of all extents in axis order.
    pub fn dims(&self) -> (r: &[usize])
        ensures
            r@ == self@,
    {
        dims_as_slice(&self.dims)
    }

    /// A mutable view of all extents in axis order.
    pub fn dims_mut(&mut self) -> (r: &mut [usize])
        ensures
            r@ == old(self)@,
            final(self)@ == final(r)@,
    {
        dims_as_mut_slice(&mut self.dims)
    }

    /// Append a trailing axis.
    pub fn push(&mut self, dim: usize)
        ensures
            final(self)@ == old(self)@.push(dim),
    {
        dims_push(&mut self.dims, dim);
    }

    /// Remove and return the last axis, or `None` on rank 0.
    pub fn pop(&mut self) -> (r: Option<usize>)
        ensures
            old(self)@.len() == 0 ==> r is None && final(self)@ == old(self)@,
            old(self)@.len() > 0 ==> r == Some(old(self)@.last()) && final(self)@
                == old(self)@.drop_last(),
    {
        dims_pop(&mut self.dims)
    }

    /// Insert an axis at the given position, shifting later axes right.
    pub fn insert(&mut self, index: usize, dim: usize)
        requires
            index <= old(self)@.len(),
        ensures
            final(self)@ == old(self)@.insert(index as int, dim),
    {
        dims_insert(&mut self.dims, index, dim);
    }

    /// Remove and return the axis at the given position, shifting later axes
    /// left.  The position must be within the rank.
    pub fn remove(&mut self, index: usize) -> (r: usize)
        requires
            index < old(self)@.len(),
        ensures
            r == old(self)@[index as int],
            final(self)@ == old(self)@.remove(index as int),
    {
        dims_remove(&mut self.dims, index)
    }

    /// Overwrite the extent of the given axis.
    pub fn set_dim(&mut self, index: usize, dim: usize)
        requires
            index < old(self)@.len(),
        ensures
            final(self)@ == old(self)@.update(index as int, dim),
    {
        dims_set(&mut self.dims, index, dim);
    }

    /// Drop every axis beyond the given rank; a no-op when already short
    /// enough.
    pub fn truncate(&mut self, len: usize)
        ensures
            final(self)@ == old(self)@.take(
                if len <= old(self)@.len() {
                    len as int
                } else {
                    old(self)@.len() as int
                },
            ),
    {
        dims_truncate(&mut self.dims, len);
    }

    /// Remove the axes of `start..end`, shifting the rest together.
    pub fn drain(&mut self, start: usize, end: usize)
        requires
            start <= end,
            end <= old(self)@.len(),
        ensures
            final(self)@ == old(self)@.take(start as int) + old(self)@.skip(end as int),
    {
        dims_drain(&mut self.dims, start, end);
    }

    /// Split the shape: `self` keeps the axes before `at`, and the axes from
    /// `at` to the end come back as a new shape.
    pub fn split_off(&mut self, at: usize) -> (r: Shape)
        requires
            at <= old(self)@.len(),
        ensures
            final(self)@ == old(self)@.take(at as int),
            r@ == old(self)@.skip(at as int),
    {
        Shape { dims: dims_split_off(&mut self.dims, at) }
    }

    /// Append the given extents in order.
    pub fn extend_from_slice(&mut self, dims: &[usize])
        ensures
            final(self)@ == old(self)@ + dims@,
    {
        dims_extend_from_slice(&mut self.dims, dims);
    }

    /// The number of elements an array of this shape holds: the product of
    /// all extents, 1 on rank 0, and 0 whenever any extent is 0.  Every
    /// partial product must fit in `usize`, as it would on the machine.
    pub fn elements(&self) -> (r: usize)
        requires
            forall|k: int| 0 <= k <= self@.len() ==> dim_product(self@.take(k)) <= usize::MAX,
        ensures
            r as int == dim_product(self@),
    {
        product_of(self.dims())
    }

    /// The row count: the first extent, or 1 on rank 0 (a scalar is its own
    /// single row).
    pub fn row_count(&self) -> (r: usize)
        ensures
            self@.len() == 0 ==> r == 1,
            self@.len() > 0 ==> r == self@[0],
    {
        if self.is_empty() {
            1
        } else {
            self.dim(0)
        }
    }

    /// The length of one row: the product of all extents but the first
    /// (1 on rank 0 or 1).
    pub fn row_len(&self) -> (r: usize)
        requires
            self@.len() > 0 ==> forall|k: int|
                0 <= k <= self@.skip(1).len() ==> dim_product(self@.skip(1).take(k)) <= usize::MAX,
        ensures
            self@.len() == 0 ==> r == 1,
            self@.len() > 0 ==> r as int == dim_product(self@.skip(1)),
    {
        let s = self.row_slice();
        proof {
            if self@.len() == 0 {
                assert(s@.take(0) =~= s@);
            }
        }
        product_of(s)
    }

    /// A read-only view of the extents after axis 0 (all of them on rank 0).
    pub fn row_slice(&self) -> (r: &[usize])
        ensures
            self@.len() == 0 ==> r@ == self@,
            self@.len() > 0 ==> r@ == self@.skip(1),
    {
        let s = self.dims();
        let n = s.len();
        if n == 0 {
            s
        } else {
            let t = vstd::slice::slice_subrange(s, 1, n);
            proof {
                assert(self@.subrange(1, self@.len() as int) =~= self@.skip(1));
            }
            t
        }
    }

    /// The shape of one cross-section along axis 0: `self` with the leading
    /// axis removed (unchanged on rank 0).
    pub fn row(&self) -> (r: Shape)
        ensures
            self@.len() == 0 ==> r@ == self@,
            self@.len() > 0 ==> r@ == self@.skip(1),
    {
        let mut shape = self.clone();
        shape.make_row();
        shape
    }

    /// Remove the leading axis in place; a no-op on rank 0.
    pub fn make_row(&mut self)
        ensures
            old(self)@.len() == 0 ==> final(self)@ == old(self)@,
            old(self)@.len() > 0 ==> final(self)@ == old(self)@.skip(1),
    {
        if !self.is_empty() {
            self.remove(0);
            proof {
                assert(old(self)@.remove(0) =~= old(self)@.skip(1));
            }
        }
    }

    /// Replace the shape with the rank-1 shape holding its element count;
    /// a no-op when the rank is already exactly 1.
    pub fn deshape(&mut self)
        requires
            old(self)@.len() != 1 ==> forall|k: int|
                0 <= k <= old(self)@.len() ==> dim_product(old(self)@.take(k)) <= usize::MAX,
        ensures
            old(self)@.len() == 1 ==> final(self)@ == old(self)@,
            old(self)@.len() != 1 ==> final(self)@.len() == 1 && final(self)@[0] as int
                == dim_product(old(self)@),
    {
        if self.len() != 1 {
            let e = self.elements();
            *self = Shape::single(e);
        }
    }

    /// Insert a unit axis at the front: rank grows by 1, the element count is
    /// unchanged.
    pub fn fix(&mut self)
        ensures
            final(self)@ == old(self)@.insert(0, 1usize),
    {
        self.fix_depth(0);
    }

    /// Insert a unit axis at position `min(depth, rank)`; returns the
    /// position actually used.
    pub fn fix_depth(&mut self, depth: usize) -> (r: usize)
        ensures
            r == if depth <= old(self)@.len() {
                depth as int
            } else {
                old(self)@.len() as int
            },
            final(self)@ == old(self)@.insert(r as int, 1usize),
    {
        let len = self.len();
        let depth = if depth <= len {
            depth
        } else {
            len
        };
        self.insert(depth, 1);
        depth
    }

    /// Best-effort inverse of `fix`: remove a leading unit axis, else merge
    /// the two leading axes; reports the removed leading extent.
    fn unfix_inner(&mut self) -> (r: Option<usize>)
        requires
            old(self)@.len() >= 2 && old(self)@[0] != 1 ==> old(self)@[0] * old(self)@[1]
                <= usize::MAX,
        ensures
            old(self)@.len() >= 1 && old(self)@[0] == 1 ==> r == Some(1usize) && final(self)@
                == old(self)@.skip(1),
            old(self)@.len() >= 2 && old(self)@[0] != 1 ==> r == Some(old(self)@[0]) && final(self)@ == seq![(old(self)@[0] * old(self)@[1]) as usize] + old(self)@.skip(2),
            old(self)@.len() == 0 || (old(self)@.len() == 1 && old(self)@[0] != 1) ==> r is None
                && final(self)@ == old(self)@,
    {
        let n = self.len();
        if n >= 1 && self.dim(0) == 1 {
            let d = self.remove(0);
            proof {
                assert(old(self)@.remove(0) =~= old(self)@.skip(1));
            }
            Some(d)
        } else if n >= 2 {
            let a = self.dim(0);
            let b = self.dim(1);
            self.set_dim(1, a * b);
            let first = self.remove(0);
            proof {
                assert(old(self)@.update(1, (a * b) as usize).remove(0) =~= seq![
                    (old(self)@[0] * old(self)@[1]) as usize,
                ] + old(self)@.skip(2));
            }
            Some(first)
        } else {
            None
        }
    }

    /// Remove a leading unit axis, reporting success; when the leading extent
    /// is not 1 but the rank is at least 2, the two leading axes are merged
    /// and the call still fails, naming the leading extent that was lost.
    /// Lower-rank shapes fail without change: a zero extent, a scalar, or any
    /// other rank-1 shape, each with its own report.
    pub fn unfix(&mut self) -> (r: Result<(), UnfixError>)
        requires
            old(self)@.len() >= 2 && old(self)@[0] != 1 ==> old(self)@[0] * old(self)@[1]
                <= usize::MAX,
        ensures
            old(self)@.len() >= 1 && old(self)@[0] == 1 ==> r is Ok && final(self)@
                == old(self)@.skip(1),
            old(self)@.len() >= 2 && old(self)@[0] != 1 ==> r == Err::<(), UnfixError>(
                UnfixError::WrongUnitLength(old(self)@[0]),
            ) && final(self)@ == seq![(old(self)@[0] * old(self)@[1]) as usize] + old(self)@.skip(2),
            old(self)@.len() == 1 && old(self)@[0] == 0 ==> r == Err::<(), UnfixError>(
                UnfixError::ContainsZeroDimension,
            ) && final(self)@ == old(self)@,
            old(self)@.len() == 0 ==> r == Err::<(), UnfixError>(UnfixError::IsScalar) && final(self)@ == old(self)@,
            old(self)@.len() == 1 && old(self)@[0] != 0 && old(self)@[0] != 1 ==> (r matches Err(e)
                && e matches UnfixError::Other(s) && s@ == old(self)@) && final(self)@ == old(self)@,
    {
        match self.unfix_inner() {
            Some(d) => if d == 1 {
                Ok(())
            } else {
                Err(UnfixError::WrongUnitLength(d))
            },
            None => {
                if self.len() == 1 && self.dim(0) == 0 {
                    Err(UnfixError::ContainsZeroDimension)
                } else if self.is_empty() {
                    Err(UnfixError::IsScalar)
                } else {
                    Err(UnfixError::Other(self.clone()))
                }
            },
        }
    }

    /// Collapse the two leading axes (or drop a leading unit axis), keeping
    /// no report of which happened; a no-op below rank 2 when no leading unit
    /// axis exists.
    pub fn undo_fix(&mut self)
        requires
            old(self)@.len() >= 2 && old(self)@[0] != 1 ==> old(self)@[0] * old(self)@[1]
                <= usize::MAX,
        ensures
            old(self)@.len() >= 1 && old(self)@[0] == 1 ==> final(self)@ == old(self)@.skip(1),
            old(self)@.len() >= 2 && old(self)@[0] != 1 ==> final(self)@ == seq![
                (old(self)@[0] * old(self)@[1]) as usize,
            ] + old(self)@.skip(2),
            old(self)@.len() == 0 || (old(self)@.len() == 1 && old(self)@[0] != 1) ==> final(self)@ == old(self)@,
    {
        self.unfix_inner();
    }

    /// A mutable handle to the first extent; on rank 0 a unit axis is first
    /// pushed so that a first axis exists.
    pub fn row_count_mut(&mut self) -> (r: &mut usize)
        ensures
            old(self)@.len() == 0 ==> *r == 1 && final(self)@ == seq![*final(r)],
            old(self)@.len() > 0 ==> *r == old(self)@[0] && final(self)@ == old(self)@.update(
                0,
                *final(r),
            ),
    {
        if self.is_empty() {
            self.push(1);
        }
        let ghost pre = self@;
        let r = dims_first_mut(&mut self.dims);
        proof {
            if old(self)@.len() == 0 {
                assert(pre =~= seq![1usize]);
                assert(pre.update(0, *final(r)) =~= seq![*final(r)]);
            }
        }
        r
    }
}

impl Clone for Shape {
    /// The clone holds the same extents in the same order.
    fn clone(&self) -> (r: Self)
        ensures
            r@ == self@,
    {
        Shape { dims: dims_clone(&self.dims) }
    }
}

impl Default for Shape {
    /// The default shape is the canonical scalar shape.
    fn default() -> (r: Self)
        ensures
            r@ == Seq::<usize>::empty(),
    {
        Shape::scalar()
    }
}

/// Why a shape could not be unfixed.
pub enum UnfixError {
    /// The two leading axes were merged because the leading extent was not 1;
    /// holds that leading extent.
    WrongUnitLength(usize),
    /// The shape contains a zero extent, so it describes an empty array.
    ContainsZeroDimension,
    /// The shape has rank 0.
    IsScalar,
    /// No rule applied; holds the shape, which was left unchanged.
    Other(Shape),
}

} // verus!
