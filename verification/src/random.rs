//! The random choices of the games, drawn from the thread-local generator of `rand`.

use vstd::prelude::*;
use rand::Rng;
use rand::seq::SliceRandom;

verus! {

/// `Rng::gen_range(lo..hi)` on `rand::thread_rng()` for `u32`: a value drawn from
/// `lo..hi`. The range must not be empty (the call panics on an empty range).
#[verifier::external_body]
pub(crate) fn random_u32(lo: u32, hi: u32) -> (r: u32)
    requires
        lo < hi,
    ensures
        lo <= r < hi,
{
    rand::thread_rng().gen_range(lo..hi)
}

/// `Rng::gen_range(lo..hi)` on `rand::thread_rng()` for `i32`: a value drawn from
/// `lo..hi`. The range must not be empty (the call panics on an empty range).
#[verifier::external_body]
pub(crate) fn random_i32(lo: i32, hi: i32) -> (r: i32)
    requires
        lo < hi,
    ensures
        lo <= r < hi,
{
    rand::thread_rng().gen_range(lo..hi)
}

/// `Rng::gen_range(lo..hi)` on `rand::thread_rng()` for `usize`: a value drawn from
/// `lo..hi`. The range must not be empty (the call panics on an empty range).
#[verifier::external_body]
pub(crate) fn random_usize(lo: usize, hi: usize) -> (r: usize)
    requires
        lo < hi,
    ensures
        lo <= r < hi,
{
    rand::thread_rng().gen_range(lo..hi)
}

/// `Rng::gen_ratio(numerator, denominator)` on `rand::thread_rng()`: `true` with
/// probability `numerator / denominator`. The documentation promises `true` when the
/// two are equal and `false` when the numerator is 0; it panics when the denominator
/// is 0 or below the numerator.
#[verifier::external_body]
pub(crate) fn random_ratio(numerator: u32, denominator: u32) -> (b: bool)
    requires
        0 < denominator,
        numerator <= denominator,
    ensures
        numerator == denominator ==> b,
        numerator == 0 ==> !b,
{
    rand::thread_rng().gen_ratio(numerator, denominator)
}

/// `SliceRandom::shuffle` with `rand::thread_rng()` on a vector of `usize`: the
/// elements are put in a random order. The source swaps elements only, so the result
/// holds the same elements, each as often as before.
#[verifier::external_body]
pub(crate) fn shuffle_usize(v: &mut Vec<usize>)
    ensures
        final(v)@.len() == old(v)@.len(),
        final(v)@.to_multiset() == old(v)@.to_multiset(),
{
    v.shuffle(&mut rand::thread_rng());
}

/// `SliceRandom::shuffle` with `rand::thread_rng()` on a vector of `u64`: the
/// elements are put in a random order. The source swaps elements only, so the result
/// holds the same elements, each as often as before.
#[verifier::external_body]
pub(crate) fn shuffle_u64(v: &mut Vec<u64>)
    ensures
        final(v)@.len() == old(v)@.len(),
        final(v)@.to_multiset() == old(v)@.to_multiset(),
{
    v.shuffle(&mut rand::thread_rng());
}

} // verus!
