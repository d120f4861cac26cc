use vstd::prelude::*;

verus! {

/// Relies on rand::random_range over a half-open range: the result is
/// uniformly drawn and always strictly below the bound.
#[verifier::external_body]
pub(crate) fn random_below(n: usize) -> (r: usize)
    requires
        n > 0,
    ensures
        r < n,
{
    rand::random_range(0..n)
}

/// Relies on rand::random_range over an inclusive range: the result is
/// uniformly drawn and always within the bounds.
#[verifier::external_body]
pub(crate) fn random_between(lo: usize, hi: usize) -> (r: usize)
    requires
        lo <= hi,
    ensures
        lo <= r && r <= hi,
{
    rand::random_range(lo..=hi)
}

/// Relies on rand::random: a uniformly drawn byte.
#[verifier::external_body]
pub(crate) fn random_byte() -> (r: u8) {
    rand::random()
}

} // verus!
