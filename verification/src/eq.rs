//! The overloaded equality of shapes: structural over the dimension sequence,
//! also against raw dimension slices and arrays in either operand order, and
//! between a rank-1 shape and the bare integer equal to its single extent.
//! Every comparison routes through one core routine that compares as a
//! dimension sequence.

use vstd::prelude::*;

use crate::shape::Shape;

verus! {

impl Shape {
    /// The core comparison: whether the dimension sequence equals the given
    /// slice, element for element.
    pub fn eq_dims(&self, other: &[usize]) -> (r: bool)
        ensures
            r == (self@ == other@),
    {
        let s = self.dims();
        let n = s.len();
        if n != other.len() {
            return false;
        }
        let mut i: usize = 0;
        while i < n
            invariant
                s@ == self@,
                n == self@.len(),
                n == other@.len(),
                i <= n,
                forall|j: int| 0 <= j < i ==> self@[j] == other@[j],
            decreases n - i,
        {
            if s[i] != other[i] {
                return false;
            }
            i = i + 1;
        }
        proof {
            assert(self@ =~= other@);
        }
        true
    }

    /// Whether the shape is the rank-1 shape of the given single extent.
    pub fn eq_scalar(&self, other: usize) -> (r: bool)
        ensures
            r == (self@ == seq![other]),
    {
        if self.len() == 1 {
            let r = self.dim(0) == other;
            proof {
                if r {
                    assert(self@ =~= seq![other]);
                }
            }
            r
        } else {
            false
        }
    }
}

impl PartialEq for Shape {
    fn eq(&self, other: &Shape) -> bool {
        self.eq_dims(other.dims())
    }
}

impl vstd::std_specs::cmp::PartialEqSpecImpl for Shape {
    open spec fn obeys_eq_spec() -> bool {
        true
    }

    open spec fn eq_spec(&self, other: &Shape) -> bool {
        self@ == other@
    }
}

impl Eq for Shape {

}

/// The lexicographic order of two dimension sequences: compare extents in
/// axis order; a proper prefix comes first.
pub open spec fn lex_cmp(a: Seq<usize>, b: Seq<usize>) -> core::cmp::Ordering
    decreases a.len(),
{
    if a.len() == 0 && b.len() == 0 {
        core::cmp::Ordering::Equal
    } else if a.len() == 0 {
        core::cmp::Ordering::Less
    } else if b.len() == 0 {
        core::cmp::Ordering::Greater
    } else if a[0] < b[0] {
        core::cmp::Ordering::Less
    } else if a[0] > b[0] {
        core::cmp::Ordering::Greater
    } else {
        lex_cmp(a.skip(1), b.skip(1))
    }
}

/// Dropping an equal prefix does not change the lexicographic order.
proof fn lemma_lex_cmp_skip(a: Seq<usize>, b: Seq<usize>, i: int)
    requires
        0 <= i <= a.len(),
        i <= b.len(),
        forall|j: int| 0 <= j < i ==> a[j] == b[j],
    ensures
        lex_cmp(a, b) == lex_cmp(a.skip(i), b.skip(i)),
    decreases i,
{
    if i > 0 {
        assert(a.skip(1).skip(i - 1) =~= a.skip(i));
        assert(b.skip(1).skip(i - 1) =~= b.skip(i));
        lemma_lex_cmp_skip(a.skip(1), b.skip(1), i - 1);
    } else {
        assert(a.skip(0) =~= a);
        assert(b.skip(0) =~= b);
    }
}

impl PartialOrd for Shape {
    fn partial_cmp(&self, other: &Shape) -> Option<core::cmp::Ordering> {
        let s = self.dims();
        let o = other.dims();
        let n = s.len();
        let n2 = o.len();
        let m = if n <= n2 {
            n
        } else {
            n2
        };
        let mut i: usize = 0;
        while i < m
            invariant
                s@ == self@,
                o@ == other@,
                n == self@.len(),
                n2 == other@.len(),
                m <= n,
                m <= n2,
                i <= m,
                forall|j: int| 0 <= j < i ==> self@[j] == other@[j],
            decreases m - i,
        {
            let a = s[i];
            let b = o[i];
            if a < b {
                proof {
                    lemma_lex_cmp_skip(self@, other@, i as int);
                }
                return Some(core::cmp::Ordering::Less);
            }
            if a > b {
                proof {
                    lemma_lex_cmp_skip(self@, other@, i as int);
                }
                return Some(core::cmp::Ordering::Greater);
            }
            i = i + 1;
        }
        proof {
            lemma_lex_cmp_skip(self@, other@, m as int);
        }
        if n == n2 {
            Some(core::cmp::Ordering::Equal)
        } else if n < n2 {
            Some(core::cmp::Ordering::Less)
        } else {
            Some(core::cmp::Ordering::Greater)
        }
    }
}

impl vstd::std_specs::cmp::PartialOrdSpecImpl for Shape {
    open spec fn obeys_partial_cmp_spec() -> bool {
        true
    }

    open spec fn partial_cmp_spec(&self, other: &Shape) -> Option<core::cmp::Ordering> {
        Some(lex_cmp(self@, other@))
    }
}

impl PartialEq<usize> for Shape {
    fn eq(&self, other: &usize) -> bool {
        self.eq_scalar(*other)
    }
}

impl vstd::std_specs::cmp::PartialEqSpecImpl<usize> for Shape {
    open spec fn obeys_eq_spec() -> bool {
        true
    }

    open spec fn eq_spec(&self, other: &usize) -> bool {
        self@ == seq![*other]
    }
}

impl PartialEq<Shape> for usize {
    fn eq(&self, other: &Shape) -> bool {
        other.eq_scalar(*self)
    }
}

impl vstd::std_specs::cmp::PartialEqSpecImpl<Shape> for usize {
    open spec fn obeys_eq_spec() -> bool {
        true
    }

    open spec fn eq_spec(&self, other: &Shape) -> bool {
        other@ == seq![*self]
    }
}

impl PartialEq<[usize]> for Shape {
    fn eq(&self, other: &[usize]) -> bool {
        self.eq_dims(other)
    }
}

impl vstd::std_specs::cmp::PartialEqSpecImpl<[usize]> for Shape {
    open spec fn obeys_eq_spec() -> bool {
        true
    }

    open spec fn eq_spec(&self, other: &[usize]) -> bool {
        self@ == other@
    }
}

impl PartialEq<&[usize]> for Shape {
    fn eq(&self, other: &&[usize]) -> bool {
        self.eq_dims(*other)
    }
}

impl vstd::std_specs::cmp::PartialEqSpecImpl<&[usize]> for Shape {
    open spec fn obeys_eq_spec() -> bool {
        true
    }

    open spec fn eq_spec(&self, other: &&[usize]) -> bool {
        self@ == (*other)@
    }
}

impl PartialEq<Shape> for [usize] {
    fn eq(&self, other: &Shape) -> bool {
        other.eq_dims(self)
    }
}

impl vstd::std_specs::cmp::PartialEqSpecImpl<Shape> for [usize] {
    open spec fn obeys_eq_spec() -> bool {
        true
    }

    open spec fn eq_spec(&self, other: &Shape) -> bool {
        other@ == self@
    }
}

impl<const N: usize> PartialEq<[usize; N]> for Shape {
    fn eq(&self, other: &[usize; N]) -> bool {
        self.eq_dims(other.as_slice())
    }
}

impl<const N: usize> vstd::std_specs::cmp::PartialEqSpecImpl<[usize; N]> for Shape {
    open spec fn obeys_eq_spec() -> bool {
        true
    }

    open spec fn eq_spec(&self, other: &[usize; N]) -> bool {
        self@ == other@
    }
}

impl<const N: usize> PartialEq<Shape> for [usize; N] {
    fn eq(&self, other: &Shape) -> bool {
        other.eq_dims(self.as_slice())
    }
}

impl<const N: usize> vstd::std_specs::cmp::PartialEqSpecImpl<Shape> for [usize; N] {
    open spec fn obeys_eq_spec() -> bool {
        true
    }

    open spec fn eq_spec(&self, other: &Shape) -> bool {
        other@ == self@
    }
}

} // verus!
