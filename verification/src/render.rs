//! Canonical text rendering of a shape: the extents joined by a
//! multiplication sign, enclosed in brackets, e.g. `[2 × 3 × 4]`; the scalar
//! shape renders as `[]`.

use vstd::prelude::*;

use crate::shape::Shape;
use crate::shape::UnfixError;

verus! {

/// The decimal digit character for a value in 0..=9.
pub open spec fn digit_char(d: int) -> char {
    if d == 0 {
        '0'
    } else if d == 1 {
        '1'
    } else if d == 2 {
        '2'
    } else if d == 3 {
        '3'
    } else if d == 4 {
        '4'
    } else if d == 5 {
        '5'
    } else if d == 6 {
        '6'
    } else if d == 7 {
        '7'
    } else if d == 8 {
        '8'
    } else {
        '9'
    }
}

/// The decimal digits of a non-negative number, most significant first.
pub open spec fn decimal_digits(n: int) -> Seq<char>
    decreases n,
{
    if n < 10 {
        seq![digit_char(n)]
    } else {
        decimal_digits(n / 10).push(digit_char(n % 10))
    }
}

/// The separator between two rendered extents.
pub open spec fn separator() -> Seq<char> {
    seq![' ', '×', ' ']
}

/// The extents rendered in order, separated.
pub open spec fn joined_dims(dims: Seq<usize>) -> Seq<char>
    decreases dims.len(),
{
    if dims.len() == 0 {
        Seq::empty()
    } else if dims.len() == 1 {
        decimal_digits(dims[0] as int)
    } else {
        joined_dims(dims.drop_last()) + separator() + decimal_digits(dims.last() as int)
    }
}

/// The canonical rendering of a dimension sequence.
pub open spec fn shape_text(dims: Seq<usize>) -> Seq<char> {
    seq!['['] + joined_dims(dims) + seq![']']
}

/// Appending one more extent appends a separator and its digits.
proof fn lemma_joined_dims_step(s: Seq<usize>, k: int)
    requires
        1 <= k < s.len(),
    ensures
        joined_dims(s.take(k + 1)) == joined_dims(s.take(k)) + separator() + decimal_digits(
            s[k] as int,
        ),
{
    assert(s.take(k + 1).drop_last() =~= s.take(k));
    assert(s.take(k + 1).last() == s[k]);
}

/// The decimal digit character of a value below 10.
fn digit_char_of(d: usize) -> (c: char)
    requires
        d < 10,
    ensures
        c == digit_char(d as int),
{
    match d {
        0 => '0',
        1 => '1',
        2 => '2',
        3 => '3',
        4 => '4',
        5 => '5',
        6 => '6',
        7 => '7',
        8 => '8',
        _ => '9',
    }
}

/// Append the decimal digits of `n`, most significant first.
pub(crate) fn push_decimal(n: usize, out: &mut Vec<char>)
    ensures
        final(out)@ == old(out)@ + decimal_digits(n as int),
    decreases n,
{
    if n < 10 {
        out.push(digit_char_of(n));
        proof {
            assert(old(out)@.push(digit_char(n as int)) =~= old(out)@ + decimal_digits(n as int));
        }
    } else {
        push_decimal(n / 10, out);
        out.push(digit_char_of(n % 10));
        proof {
            assert((old(out)@ + decimal_digits((n / 10) as int)).push(digit_char((n % 10) as int))
                =~= old(out)@ + decimal_digits(n as int));
        }
    }
}

/// Relies on `FromIterator<char> for String` (`collect`): the string holds
/// exactly the given characters in order.
#[verifier::external_body]
pub(crate) fn chars_to_string(v: &Vec<char>) -> (s: String)
    ensures
        s@ == v@,
{
    v.iter().collect()
}

/// Relies on `str::chars` and `collect`: the characters of the string in
/// order.
#[verifier::external_body]
fn str_chars(s: &str) -> (v: Vec<char>)
    ensures
        v@ == s@,
{
    s.chars().collect()
}

impl Shape {
    /// The canonical text rendering: extents joined by a multiplication sign,
    /// in brackets.
    pub fn render(&self) -> (s: String)
        ensures
            s@ == shape_text(self@),
    {
        let out = self.shape_chars();
        chars_to_string(&out)
    }

    /// The characters of the canonical rendering.
    fn shape_chars(&self) -> (out: Vec<char>)
        ensures
            out@ == shape_text(self@),
    {
        let mut out: Vec<char> = Vec::new();
        out.push('[');
        let n = self.len();
        let mut i: usize = 0;
        proof {
            assert(Seq::<char>::empty().push('[') =~= seq!['['] + joined_dims(self@.take(0)));
        }
        while i < n
            invariant
                n == self@.len(),
                i <= n,
                out@ == seq!['['] + joined_dims(self@.take(i as int)),
            decreases n - i,
        {
            let ghost pre = out@;
            if i > 0 {
                out.push(' ');
                out.push('×');
                out.push(' ');
            }
            push_decimal(self.dim(i), &mut out);
            proof {
                if i == 0 {
                    assert(joined_dims(self@.take(0)) =~= Seq::<char>::empty());
                    assert(self@.take(1)[0] == self@[0]);
                    assert(out@ =~= seq!['['] + joined_dims(self@.take(1)));
                } else {
                    lemma_joined_dims_step(self@, i as int);
                    assert(pre.push(' ').push('×').push(' ') =~= pre + separator());
                    assert(out@ =~= seq!['['] + joined_dims(self@.take(i + 1)));
                }
            }
            i = i + 1;
        }
        out.push(']');
        proof {
            assert(self@.take(n as int) =~= self@);
            assert(out@ =~= shape_text(self@));
        }
        out
    }
}

/// The message text that surfaces an unfix failure.
pub open spec fn unfix_message(e: UnfixError) -> Seq<char> {
    match e {
        UnfixError::WrongUnitLength(d) => "Cannot unfix array with length "@ + decimal_digits(
            d as int,
        ),
        UnfixError::ContainsZeroDimension => "Cannot unfix empty array"@,
        UnfixError::IsScalar => "Cannot unfix scalar"@,
        UnfixError::Other(s) => "Cannot unfix array with shape "@ + shape_text(s@),
    }
}

impl UnfixError {
    /// The user-facing message for this failure.
    pub fn message(&self) -> (m: String)
        ensures
            m@ == unfix_message(*self),
    {
        match self {
            UnfixError::WrongUnitLength(d) => {
                let mut v = str_chars("Cannot unfix array with length ");
                push_decimal(*d, &mut v);
                chars_to_string(&v)
            },
            UnfixError::ContainsZeroDimension => "Cannot unfix empty array".to_owned(),
            UnfixError::IsScalar => "Cannot unfix scalar".to_owned(),
            UnfixError::Other(s) => {
                let mut v = str_chars("Cannot unfix array with shape ");
                let mut tail = s.shape_chars();
                v.append(&mut tail);
                chars_to_string(&v)
            },
        }
    }
}

} // verus!
