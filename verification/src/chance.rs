//! Random choices.

use vstd::prelude::*;
use crate::text;

verus! {

/// `rand::Rng::gen_range` over `low..=high` on the thread's generator: some number of the range.
/// Which one is left to chance.
#[verifier::external_body]
pub(crate) fn random_between(low: u64, high: u64) -> (r: u64)
    requires
        low <= high,
    ensures
        low <= r <= high,
{
    rand::Rng::gen_range(&mut rand::thread_rng(), low..=high)
}

/// Some index below `len`.
pub fn random_index(len: usize) -> (r: usize)
    requires
        len > 0,
    ensures
        r < len,
{
    random_between(0, len as u64 - 1) as usize
}

/// `rand::seq::SliceRandom::choose` on the thread's generator: one of the options, or nothing where
/// there are none. Which one is left to chance.
#[verifier::external_body]
pub(crate) fn pick_one(options: &Vec<String>) -> (r: Option<String>)
    ensures
        match r {
            Some(s) => text::views(options@).contains(s@),
            None => options@.len() == 0,
        },
{
    rand::seq::SliceRandom::choose(options.as_slice(), &mut rand::thread_rng()).cloned()
}

/// `rand::Rng::gen_ratio` of one in two on the thread's generator. What comes up is left to
/// chance.
#[verifier::external_body]
pub(crate) fn flip() -> bool {
    rand::Rng::gen_ratio(&mut rand::thread_rng(), 1, 2)
}

} // verus!
