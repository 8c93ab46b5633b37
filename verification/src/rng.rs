//! Randomness, injected through a small set of trusted wrappers. Each
//! wrapper states only what holds of every outcome, so the logic built on
//! them is verified for every value the generator can return.

use vstd::prelude::*;
use rand::Rng;
use rand::seq::SliceRandom;

verus! {

/// Relies on rand::seq::SliceRandom::shuffle with rand::thread_rng: a
/// Fisher-Yates shuffle permutes the elements in place by swaps, so the
/// multiset of elements (and hence the length) is unchanged.
#[verifier::external_body]
pub(crate) fn shuffle_vec<T>(v: &mut Vec<T>)
    ensures
        final(v)@.to_multiset() == old(v)@.to_multiset(),
        final(v)@.len() == old(v)@.len(),
{
    v.shuffle(&mut rand::thread_rng());
}

/// Relies on rand::Rng::gen_range with rand::thread_rng on an inclusive
/// range: the sample lies in the range; the call panics only on an empty
/// range, which the precondition rules out.
#[verifier::external_body]
pub(crate) fn gen_range_u64(lo: u64, hi: u64) -> (r: u64)
    requires
        lo <= hi,
    ensures
        lo <= r <= hi,
{
    rand::thread_rng().gen_range(lo..=hi)
}

/// Relies on rand::seq::SliceRandom::choose with rand::thread_rng: None
/// exactly on an empty slice, otherwise some element of the slice.
#[verifier::external_body]
pub(crate) fn choose_value(v: &Vec<usize>) -> (r: Option<usize>)
    ensures
        match r {
            Some(x) => v@.contains(x),
            None => v@.len() == 0,
        },
{
    v.as_slice().choose(&mut rand::thread_rng()).copied()
}

} // verus!
