//! The random draws, made by an injected, seedable generator of the `rand`
//! crate. Nothing here is proved: the contracts in this file are taken on
//! trust from `rand`.

use vstd::prelude::*;

verus! {

/// `rand::rngs::StdRng`, the generator that callers seed and hand in. Its
/// state is of no concern to the rules: it is only passed through.
#[verifier::external_type_specification]
#[verifier::external_body]
pub struct ExStdRng(rand::rngs::StdRng);

/// Calls `rand::Rng::gen_range` on the half-open range `low..high`.
///
/// `gen_range` panics on an empty range, so `low < high` is required. For
/// integers it returns `low` plus an offset below `high - low`: the contract
/// claims that the value lies in `low..high`, and nothing on which value it
/// is.
#[verifier::external_body]
pub(crate) fn draw(rng: &mut rand::rngs::StdRng, low: i32, high: i32) -> (value: i32)
    requires
        low < high,
    ensures
        low <= value < high,
{
    rand::Rng::gen_range(rng, low..high)
}

} // verus!
