//! The source of randomness: the thread-local generator of the `rand` crate,
//! and the two draws that the server makes from it. Nothing here is proved;
//! the contracts say what `rand` documents of every outcome.

use rand::rngs::ThreadRng;
use rand::seq::SliceRandom;
use rand::Rng;
use vstd::prelude::*;

verus! {

/// `rand::rngs::ThreadRng`: the handle to the generator of a thread. The
/// handle is carried from where it is obtained to the draws; nothing is known
/// of what it holds.
#[verifier::external_type_specification]
#[verifier::external_body]
pub struct ExThreadRng(ThreadRng);

/// `rand::thread_rng`: a handle to the generator of the calling thread,
/// which the system seeds. Nothing is claimed of the handle.
pub assume_specification[ rand::thread_rng ]() -> (rng: ThreadRng)
;

/// `SliceRandom::choose` on a slice of bytes: one element of the slice, picked
/// at random, or `None` exactly when the slice is empty. Which element comes
/// out is left open.
#[verifier::external_body]
pub(crate) fn choose_byte(rng: &mut ThreadRng, items: &[u8]) -> (picked: Option<u8>)
    ensures
        items@.len() == 0 ==> picked is None,
        items@.len() > 0 ==> picked is Some && items@.contains(picked->0),
{
    items.choose(rng).copied()
}

/// `Rng::gen_range` on the inclusive range from zero to `high`, which is never
/// empty: a number of that range. Which one comes out is left open.
#[verifier::external_body]
pub(crate) fn gen_up_to(rng: &mut ThreadRng, high: usize) -> (n: usize)
    ensures
        n <= high,
{
    rng.gen_range(0..=high)
}

} // verus!
