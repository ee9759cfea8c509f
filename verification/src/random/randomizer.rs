//! The random draws that crafting rests on, and the decisions made on them.

use crate::lookup::{sum_weights, total_weight};
use rand::distr::weighted::WeightedIndex;
use rand::distr::Distribution;
use rand::seq::IndexedRandom;
use rand::Rng;
use vstd::prelude::*;

verus! {

/// Whether a weighted draw over `weights` can be made: there is a weight,
/// their sum is positive, and it fits in 64 bits.
pub open spec fn samplable(weights: Seq<u64>) -> bool {
    weights.len() > 0 && 0 < total_weight(weights) <= u64::MAX
}

/// Whether a weighted draw over `weights` can be made.
pub fn can_sample(weights: &Vec<u64>) -> (r: bool)
    ensures
        r == samplable(weights@),
{
    match sum_weights(weights) {
        Some(total) => total > 0 && weights.len() > 0,
        None => false,
    }
}

/// Draws a number from `low` up to, not including, `high`.
///
/// Trusted: calls `rand::Rng::random_range` on the thread's generator with
/// the half-open range `low..high`. That call panics on an empty range,
/// which `requires` leaves out, and returns a member of the range.
#[verifier::external_body]
pub(crate) fn random_range(low: u64, high: u64) -> (v: u64)
    requires
        low < high,
    ensures
        low <= v < high,
{
    rand::rng().random_range(low..high)
}

/// Draws a position of `weights`, each with a chance in proportion to its
/// weight.
///
/// Trusted: builds `rand::distr::weighted::WeightedIndex` from `weights`
/// and samples it once with the thread's generator. Building fails on an
/// empty list, on a sum of zero and on a sum that overflows; `requires`
/// leaves these out. The sample is a position of the list, and never one
/// whose weight is zero.
#[verifier::external_body]
pub(crate) fn random_weighted_index(weights: &Vec<u64>) -> (i: usize)
    requires
        samplable(weights@),
    ensures
        i < weights.len(),
        weights[i as int] > 0,
{
    WeightedIndex::new(weights).unwrap().sample(&mut rand::rng())
}

/// Picks one of `options`, each with the same chance.
///
/// Trusted: calls `rand::seq::IndexedRandom::choose` on the slice with the
/// thread's generator, which returns `None` on an empty slice and a
/// reference to one of the elements otherwise; the element is copied out.
#[verifier::external_body]
pub(crate) fn random_choice(options: &Vec<String>) -> (r: Option<String>)
    ensures
        r is Some <==> options.len() > 0,
        r matches Some(picked) ==> exists|i: int|
            0 <= i < options.len() && (#[trigger] options[i])@ == picked@,
{
    options.choose(&mut rand::rng()).cloned()
}

/// Flips a fair coin.
///
/// Trusted: calls `rand::Rng::random_ratio(1, 2)` on the thread's
/// generator. Nothing is claimed of the outcome.
#[verifier::external_body]
pub(crate) fn coin_flip() -> bool {
    rand::rng().random_ratio(1, 2)
}

/// Whether a roll in thousandths, from 0 up to 999, clears a threshold
/// given in thousandths.
pub open spec fn roll_clears(roll: u64, per_mille: u16) -> bool {
    roll >= per_mille
}

/// Returns `success` where the roll clears the threshold, and `default`
/// otherwise.
pub fn pick_by_roll<T>(roll: u64, per_mille: u16, success: T, default: T) -> (r: T)
    ensures
        r == if roll_clears(roll, per_mille) {
            success
        } else {
            default
        },
{
    if roll >= per_mille as u64 {
        success
    } else {
        default
    }
}

/// Returns `success` with a chance of `1000 - per_mille` in a thousand,
/// and `default` otherwise.
pub fn if_more_than<T>(per_mille: u16, success: T, default: T) -> (r: T)
    ensures
        r == success || r == default,
        per_mille == 0 ==> r == success,
        per_mille >= 1000 ==> r == default,
{
    let roll = random_range(0, 1000);
    pick_by_roll(roll, per_mille, success, default)
}

} // verus!
