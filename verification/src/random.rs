//! Random draws, taken from the `rand` crate.
//!
//! Nothing here is proved: each contract repeats what the called function
//! guarantees whatever the generator yields. All draws go through a
//! [`StdRng`], so that a caller can hand in a generator of its own, seeded as
//! it likes; [`fresh_generator`] seeds one from the operating system by way
//! of the thread-local generator.

use rand::rngs::{StdRng, ThreadRng};
use rand::seq::{IndexedRandom, SliceRandom};
use rand::SeedableRng;
use vstd::prelude::*;

verus! {

/// `rand::rngs::ThreadRng`, the thread-local generator that the operating
/// system seeds. Opaque: nothing is known of its state.
#[verifier::external_type_specification]
#[verifier::external_body]
pub struct ExThreadRng(ThreadRng);

/// `rand::rngs::StdRng`, the standard seedable generator. Opaque: nothing
/// is known of its state.
#[verifier::external_type_specification]
#[verifier::external_body]
pub struct ExStdRng(StdRng);

/// `rand::rng`: a handle to the thread-local generator. Nothing is claimed
/// of the handle. It panics if the operating system gives no entropy.
#[verifier::external_body]
fn thread_rng() -> ThreadRng {
    rand::rng()
}

/// `SeedableRng::from_rng` for `StdRng`: a generator seeded with bytes drawn
/// from `source`. Nothing is claimed of the generator.
#[verifier::external_body]
fn seeded_from(source: &mut ThreadRng) -> StdRng {
    StdRng::from_rng(source)
}

/// `IndexedRandom::choose` on a slice of characters: `None` exactly when the
/// pool is empty, otherwise one of the pool's characters. Which one is left
/// open.
#[verifier::external_body]
pub(crate) fn pick(pool: &Vec<char>, rng: &mut StdRng) -> (picked: Option<char>)
    ensures
        picked is None <==> pool@.len() == 0,
        picked matches Some(c) ==> pool@.contains(c),
{
    pool.choose(rng).copied()
}

/// `SliceRandom::shuffle` on a slice of characters: the characters are
/// rearranged in place, none added and none lost. Which arrangement results
/// is left open.
#[verifier::external_body]
pub(crate) fn shuffle(chars: &mut Vec<char>, rng: &mut StdRng)
    ensures
        final(chars)@.to_multiset() == old(chars)@.to_multiset(),
{
    chars.shuffle(rng);
}

/// A generator seeded from the thread-local one, for one run of generation.
/// Its state comes from the operating system's entropy and is opaque, so
/// nothing is claimed of it: callers rely only on what `pick` and `shuffle`
/// guarantee for every generator.
pub(crate) fn fresh_generator() -> StdRng {
    let mut source = thread_rng();
    seeded_from(&mut source)
}

} // verus!
