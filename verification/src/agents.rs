//! Ready-made agents: picking one of a state's legal moves uniformly at
//! random.

use crate::tree_search::GameTrait;
use vstd::prelude::*;

verus! {

#[verifier::external_type_specification]
#[verifier::external_body]
pub struct ExThreadRng(rand::rngs::ThreadRng);

/// Relies on rand::Rng::gen_range: returns a value of the given range. It
/// panics on an empty range, which the precondition rules out; nothing
/// more than membership can be said of a random draw.
#[verifier::external_body]
fn rand_index(rng: &mut rand::rngs::ThreadRng, n: usize) -> (i: usize)
    requires
        n >= 1,
    ensures
        i < n,
{
    rand::Rng::gen_range(rng, 0..n)
}

/// Picks one of the legal moves of `state` uniformly at random. A state
/// without legal moves is a programmer error that callers must rule out.
pub fn random_agent<Game: GameTrait>(state: &Game, thread_rng: &mut rand::rngs::ThreadRng) -> (m:
    u64)
    requires
        state.legals_spec().len() > 0,
    ensures
        state.legals_spec().contains(m),
{
    let legals = state.legals_moves();
    let i = rand_index(thread_rng, legals.len());
    let m = legals[i];
    proof {
        assert(state.legals_spec().contains(state.legals_spec()[i as int]));
    }
    m
}

} // verus!
