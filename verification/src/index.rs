//! Row-major flat-offset arithmetic: the bidirectional mapping between a
//! multi-axis coordinate vector and a single linear offset into a contiguous
//! element buffer.

use vstd::prelude::*;

use crate::shape::dim_product;
use crate::shape::lemma_dim_product_take_step;
use crate::shape::Shape;

verus! {

/// How many coordinate/extent pairs two vectors supply: the shorter length.
pub open spec fn pair_count(dims: Seq<usize>, coords: Seq<usize>) -> int {
    if dims.len() <= coords.len() {
        dims.len() as int
    } else {
        coords.len() as int
    }
}

/// The flat offset reached after consuming the first `k` coordinate/extent
/// pairs by the row-major recurrence `flat = flat * dim + coord`.
pub open spec fn flat_prefix(dims: Seq<usize>, coords: Seq<usize>, k: int) -> int
    decreases k,
{
    if k <= 0 {
        0
    } else {
        flat_prefix(dims, coords, k - 1) * dims[k - 1] + coords[k - 1]
    }
}

/// The row-major flat offset of a coordinate vector against a dimension
/// vector, pairs consumed in order until either vector runs out.
pub open spec fn flat_index(dims: Seq<usize>, coords: Seq<usize>) -> int {
    flat_prefix(dims, coords, pair_count(dims, coords))
}

/// Every one of the first `m` coordinates is within its axis's extent.
pub open spec fn coords_in_bounds(dims: Seq<usize>, coords: Seq<usize>, m: int) -> bool {
    forall|k: int| 0 <= k < m ==> (coords[k] as int) < dims[k] as int
}

/// Every one of the first `m` signed coordinates is non-negative and within
/// its axis's extent.
pub open spec fn icoords_in_bounds(dims: Seq<usize>, coords: Seq<isize>, m: int) -> bool {
    forall|k: int| 0 <= k < m ==> 0 <= coords[k] as int && (coords[k] as int) < dims[k] as int
}

/// The coordinate vector a flat offset decomposes into, walking the axes from
/// last to first by `flat % dim` and `flat / dim`.  Meaningful only when every
/// extent is positive.
pub open spec fn coords_of(dims: Seq<usize>, flat: int) -> Seq<usize>
    decreases dims.len(),
{
    if dims.len() == 0 {
        Seq::empty()
    } else {
        coords_of(dims.drop_last(), flat / (dims.last() as int)).push(
            (flat % (dims.last() as int)) as usize,
        )
    }
}

/// `flat_prefix` reads only the first `k` entries of either vector.
proof fn lemma_flat_prefix_agree(
    dims1: Seq<usize>,
    coords1: Seq<usize>,
    dims2: Seq<usize>,
    coords2: Seq<usize>,
    k: int,
)
    requires
        k <= dims1.len(),
        k <= coords1.len(),
        k <= dims2.len(),
        k <= coords2.len(),
        forall|j: int| 0 <= j < k ==> dims1[j] == dims2[j] && coords1[j] == coords2[j],
    ensures
        flat_prefix(dims1, coords1, k) == flat_prefix(dims2, coords2, k),
    decreases k,
{
    if k > 0 {
        lemma_flat_prefix_agree(dims1, coords1, dims2, coords2, k - 1);
    }
}

/// An in-bounds coordinate vector maps to an offset below the element count,
/// and decomposing that offset restores the coordinates exactly: the two
/// directions of the row-major mapping are inverses on valid coordinates.
pub proof fn lemma_flat_round_trip(dims: Seq<usize>, coords: Seq<usize>)
    requires
        dims.len() == coords.len(),
        forall|k: int| 0 <= k < dims.len() ==> dims[k] > 0,
        coords_in_bounds(dims, coords, dims.len() as int),
    ensures
        0 <= flat_index(dims, coords) < dim_product(dims),
        coords_of(dims, flat_index(dims, coords)) == coords,
    decreases dims.len(),
{
    let n = dims.len() as int;
    if n == 0 {
        assert(coords_of(dims, flat_index(dims, coords)) =~= coords);
    } else {
        let dims1 = dims.drop_last();
        let coords1 = coords.drop_last();
        let d = dims.last() as int;
        let c = coords.last() as int;
        let f1 = flat_prefix(dims, coords, n - 1);
        let f = flat_prefix(dims, coords, n);
        lemma_flat_prefix_agree(dims, coords, dims1, coords1, n - 1);
        lemma_flat_round_trip(dims1, coords1);
        let p1 = dim_product(dims1);
        assert(f == f1 * d + c);
        assert(f1 * d + c < p1 * d) by (nonlinear_arith)
            requires
                f1 < p1,
                c < d,
                0 <= c,
                0 < d,
        ;
        assert(0 <= f1 * d + c) by (nonlinear_arith)
            requires
                0 <= f1,
                0 <= c,
                0 < d,
        ;
        assert(dim_product(dims) == p1 * d);
        vstd::arithmetic::div_mod::lemma_fundamental_div_mod_converse(f, d, f1, c);
        assert(coords_of(dims, f) == coords_of(dims1, f1).push(coords.last()));
        assert(coords_of(dims1, f1).push(coords.last()) =~= coords);
    }
}

impl Shape {
    /// The row-major flat offset of the given coordinates, consumed pairwise
    /// with the extents in order (a vector shorter than the rank addresses
    /// only the leading axes); no value the moment any consumed coordinate
    /// reaches its axis's extent.  Each partial extent product must fit in
    /// `usize`, as it would on the machine.
    pub fn dims_to_flat(&self, index: &[usize]) -> (r: Option<usize>)
        requires
            forall|k: int|
                0 <= k <= pair_count(self@, index@) ==> dim_product(self@.take(k)) <= usize::MAX,
        ensures
            r is Some <==> coords_in_bounds(self@, index@, pair_count(self@, index@)),
            r is Some ==> r->Some_0 as int == flat_index(self@, index@),
    {
        let n = self.len();
        let ilen = index.len();
        let m = if n <= ilen {
            n
        } else {
            ilen
        };
        let mut flat: usize = 0;
        let mut k: usize = 0;
        while k < m
            invariant
                m == pair_count(self@, index@),
                m <= self@.len(),
                m <= index@.len(),
                k <= m,
                coords_in_bounds(self@, index@, k as int),
                flat as int == flat_prefix(self@, index@, k as int),
                (flat as int) < dim_product(self@.take(k as int)),
                forall|k: int|
                    0 <= k <= pair_count(self@, index@) ==> dim_product(self@.take(k))
                        <= usize::MAX,
            decreases m - k,
        {
            let dim = self.dim(k);
            let c = index[k];
            if c >= dim {
                proof {
                    assert(!coords_in_bounds(self@, index@, pair_count(self@, index@)));
                }
                return None;
            }
            proof {
                lemma_dim_product_take_step(self@, k as int);
                let p = dim_product(self@.take(k as int));
                assert((flat as int) * (dim as int) + (c as int) < p * (dim as int))
                    by (nonlinear_arith)
                    requires
                        (flat as int) < p,
                        (c as int) < (dim as int),
                        0 <= flat as int,
                        0 <= c as int,
                        0 < dim as int,
                ;
            }
            flat = flat * dim + c;
            k = k + 1;
        }
        Some(flat)
    }

    /// `dims_to_flat` for signed coordinates: additionally no value the
    /// moment any consumed coordinate is negative.  No wraparound semantics
    /// are applied; negative indexing is the caller's business before the
    /// call.
    pub fn i_dims_to_flat(&self, index: &[isize]) -> (r: Option<usize>)
        requires
            forall|k: int|
                0 <= k <= pair_count(self@, index@.map_values(|i: isize| i as usize))
                    ==> dim_product(self@.take(k)) <= usize::MAX,
        ensures
            r is Some <==> icoords_in_bounds(
                self@,
                index@,
                pair_count(self@, index@.map_values(|i: isize| i as usize)),
            ),
            r is Some ==> r->Some_0 as int == flat_index(
                self@,
                index@.map_values(|i: isize| i as usize),
            ),
    {
        let ghost coords = index@.map_values(|i: isize| i as usize);
        let n = self.len();
        let ilen = index.len();
        let m = if n <= ilen {
            n
        } else {
            ilen
        };
        let mut flat: usize = 0;
        let mut k: usize = 0;
        while k < m
            invariant
                coords == index@.map_values(|i: isize| i as usize),
                m == pair_count(self@, coords),
                m <= self@.len(),
                m <= index@.len(),
                k <= m,
                icoords_in_bounds(self@, index@, k as int),
                flat as int == flat_prefix(self@, coords, k as int),
                (flat as int) < dim_product(self@.take(k as int)),
                forall|k: int|
                    0 <= k <= pair_count(self@, coords) ==> dim_product(self@.take(k))
                        <= usize::MAX,
            decreases m - k,
        {
            let dim = self.dim(k);
            let i = index[k];
            if i < 0 {
                proof {
                    assert(!icoords_in_bounds(self@, index@, pair_count(self@, coords)));
                }
                return None;
            }
            let c = i as usize;
            if c >= dim {
                proof {
                    assert(!icoords_in_bounds(self@, index@, pair_count(self@, coords)));
                }
                return None;
            }
            proof {
                lemma_dim_product_take_step(self@, k as int);
                let p = dim_product(self@.take(k as int));
                assert((flat as int) * (dim as int) + (c as int) < p * (dim as int))
                    by (nonlinear_arith)
                    requires
                        (flat as int) < p,
                        (c as int) < (dim as int),
                        0 <= flat as int,
                        0 <= c as int,
                        0 < dim as int,
                ;
            }
            flat = flat * dim + c;
            k = k + 1;
        }
        Some(flat)
    }

    /// Decompose a flat offset into the coordinate vector it addresses,
    /// outermost axis first, filling the caller's buffer.  Every extent must
    /// be positive; the result is the full decomposition, meaningful as a
    /// coordinate vector only when `flat` is below the element count.
    pub fn flat_to_dims(&self, flat: usize, index: &mut Vec<usize>)
        requires
            forall|k: int| 0 <= k < self@.len() ==> self@[k] > 0,
        ensures
            final(index)@ == coords_of(self@, flat as int),
    {
        index.clear();
        let n = self.len();
        self.fill_coords(n, flat, index);
        proof {
            assert(self@.take(n as int) =~= self@);
            assert(Seq::<usize>::empty() + coords_of(self@, flat as int) =~= coords_of(
                self@,
                flat as int,
            ));
        }
    }

    /// Append to the buffer the decomposition of `flat` against the first `k`
    /// axes.
    fn fill_coords(&self, k: usize, flat: usize, index: &mut Vec<usize>)
        requires
            k <= self@.len(),
            forall|j: int| 0 <= j < self@.len() ==> self@[j] > 0,
        ensures
            final(index)@ == old(index)@ + coords_of(self@.take(k as int), flat as int),
        decreases k,
    {
        if k == 0 {
            proof {
                assert(old(index)@ + coords_of(self@.take(0), flat as int) =~= old(index)@);
            }
            return ;
        }
        let d = self.dim(k - 1);
        let q = flat / d;
        self.fill_coords(k - 1, q, index);
        index.push(flat % d);
        proof {
            assert(self@.take(k as int).drop_last() =~= self@.take(k - 1));
            assert(self@.take(k as int).last() == self@[k - 1]);
            assert((old(index)@ + coords_of(self@.take(k - 1), q as int)).push((flat % d) as usize)
                =~= old(index)@ + coords_of(self@.take(k as int), flat as int));
        }
    }
}

} // verus!
