//! Length hints and string writing, as the `writeable` crate provides them.

use vstd::prelude::*;
use writeable::{LengthHint, Writeable};

verus! {

/// `writeable::LengthHint`: a lower bound on a number of bytes and, where one is known, an upper
/// bound. Both fields are public there and visible here.
#[verifier::external_type_specification]
pub struct ExLengthHint(LengthHint);

/// `core::fmt::Error`, the error of a text sink. It carries nothing.
#[verifier::external_type_specification]
#[verifier::external_body]
pub struct ExFmtError(core::fmt::Error);

/// `hint` is the exact hint for `n` bytes. Beyond `usize::MAX` the lower bound stays at
/// `usize::MAX` and there is no upper bound.
pub open spec fn hints_exactly(hint: LengthHint, n: nat) -> bool {
    &&& hint.0 == if n <= usize::MAX { n } else { usize::MAX as nat }
    &&& hint.1 == if n <= usize::MAX { Some(n as usize) } else { None::<usize> }
}

/// `writeable::LengthHint::exact` has its argument as both bounds.
pub assume_specification [ LengthHint::exact ](n: usize) -> (hint: LengthHint)
    ensures
        hint == LengthHint(n, Some(n)),
;

/// `+` of `writeable::LengthHint` with itself (`core::ops::Add`): the lower bounds are added and
/// saturate at `usize::MAX`; the upper bounds are added where both are known and the sum fits.
#[verifier::external_body]
pub(crate) fn hint_add(a: LengthHint, b: LengthHint) -> (sum: LengthHint)
    ensures
        sum.0 == if a.0 + b.0 <= usize::MAX { a.0 + b.0 } else { usize::MAX as int },
        sum.1 == match (a.1, b.1) {
            (Some(c), Some(d)) => if c + d <= usize::MAX { Some((c + d) as usize) } else { None },
            _ => None::<usize>,
        },
{
    a + b
}

/// `+=` of `writeable::LengthHint` with itself (`core::ops::AddAssign`): the same sum as `+`
/// gives, stored in the left operand.
#[verifier::external_body]
pub(crate) fn hint_add_assign(a: &mut LengthHint, b: LengthHint)
    ensures
        final(a).0 == if old(a).0 + b.0 <= usize::MAX { old(a).0 + b.0 } else { usize::MAX as int },
        final(a).1 == match (old(a).1, b.1) {
            (Some(c), Some(d)) => if c + d <= usize::MAX { Some((c + d) as usize) } else { None },
            _ => None::<usize>,
        },
{
    *a += b;
}

/// `*` of `writeable::LengthHint` with a count (`core::ops::Mul`): the lower bound is multiplied
/// and saturates at `usize::MAX`; the upper bound is multiplied where it is known and the product
/// fits.
#[verifier::external_body]
pub(crate) fn hint_mul(a: LengthHint, count: usize) -> (product: LengthHint)
    ensures
        product.0 == if a.0 * count <= usize::MAX { a.0 * count } else { usize::MAX as int },
        product.1 == match a.1 {
            Some(c) => if c * count <= usize::MAX { Some((c * count) as usize) } else { None },
            None => None::<usize>,
        },
{
    a * count
}

/// `<str as writeable::Writeable>::write_len`: the exact hint for the number of bytes in the
/// UTF-8 encoding of the string.
#[verifier::external_body]
pub(crate) fn str_write_len(s: &str) -> (hint: LengthHint)
    ensures
        hint.0 == vstd::utf8::encode_utf8(s@).len(),
        hint.1 == Some(hint.0),
{
    s.write_len()
}

/// `<str as writeable::Writeable>::write_to` with a `String` as the sink: the string is appended
/// to the sink. A `String` takes every write, so there is no error to pass on.
#[verifier::external_body]
pub(crate) fn str_write_to(s: &str, sink: &mut String) -> (r: Result<(), core::fmt::Error>)
    ensures
        r is Ok,
        final(sink)@ == old(sink)@ + s@,
{
    s.write_to(sink)
}

} // verus!
