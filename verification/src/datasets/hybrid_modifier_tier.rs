use crate::random::randomizer::random_range;
use vstd::prelude::*;

verus! {

/// Represents a list of tiers for a hybrid modifier.
#[derive(Debug, Default, PartialEq, Eq)]
pub struct HybridModifierTier {
    pub affix: String,
    pub range: Option<[u16; 2]>,
    pub min: Option<[u16; 2]>,
    pub max: Option<[u16; 2]>,
}

/// Whether `v` can come out of a draw between two ends that were drawn
/// themselves: the ends are swapped where they are inverted, and equal
/// ends give their value.
pub open spec fn rolled_between(low_end: u16, high_end: u16, v: u16) -> bool {
    if low_end == high_end {
        v == low_end
    } else if low_end > high_end {
        high_end <= v < low_end
    } else {
        low_end <= v < high_end
    }
}

/// Whether both ranges of a min/max pair hold a value.
pub open spec fn ends_can_roll(min: [u16; 2], max: [u16; 2]) -> bool {
    min[0] < min[1] && max[0] < max[1]
}

/// Whether `v` can be rolled from a min/max pair: a low end is drawn from
/// `min`, a high end from `max`, and `v` between the two.
pub open spec fn ends_may_roll(min: [u16; 2], max: [u16; 2], v: u16) -> bool {
    exists|low_end: u16, high_end: u16|
        min[0] <= low_end < min[1] && max[0] <= high_end < max[1] && #[trigger] rolled_between(
            low_end,
            high_end,
            v,
        )
}

/// Draws a number from `low` up to, not including, `high`.
pub fn roll_in(low: u16, high: u16) -> (v: u16)
    requires
        low < high,
    ensures
        low <= v < high,
{
    random_range(low as u64, high as u64) as u16
}

/// Draws a value between two ends, whichever way round they are.
pub fn roll_between(low_end: u16, high_end: u16) -> (v: u16)
    ensures
        rolled_between(low_end, high_end, v),
{
    if low_end == high_end {
        low_end
    } else if low_end > high_end {
        roll_in(high_end, low_end)
    } else {
        roll_in(low_end, high_end)
    }
}

/// Rolls a value from a min/max pair.
pub fn roll_from_ends(min: [u16; 2], max: [u16; 2]) -> (v: u16)
    requires
        ends_can_roll(min, max),
    ensures
        ends_may_roll(min, max, v),
{
    let low_end = roll_in(min[0], min[1]);
    let high_end = roll_in(max[0], max[1]);
    roll_between(low_end, high_end)
}

impl HybridModifierTier {
    /// Whether a value can be rolled: the range holds a value, or, without
    /// a range, both `min` and `max` are there and hold one each.
    pub open spec fn can_roll(&self) -> bool {
        match self.range {
            Some(range) => range[0] < range[1],
            None => self.min is Some && self.max is Some && ends_can_roll(
                self.min->0,
                self.max->0,
            ),
        }
    }

    /// Whether `v` is a value that a roll can give.
    pub open spec fn may_roll(&self, v: u16) -> bool {
        match self.range {
            Some(range) => range[0] <= v < range[1],
            None => ends_may_roll(self.min->0, self.max->0, v),
        }
    }

    /// Whether a value can be rolled.
    pub fn is_rollable(&self) -> (r: bool)
        ensures
            r == self.can_roll(),
    {
        match self.range {
            Some(range) => range[0] < range[1],
            None => match (self.min, self.max) {
                (Some(min), Some(max)) => min[0] < min[1] && max[0] < max[1],
                _ => false,
            },
        }
    }

    /// Gets a hybrid modifier value from [`HybridModifierTier::range`],
    /// or [`HybridModifierTier::min`] and [`HybridModifierTier::max`].
    pub fn get_value(&self) -> (v: u16)
        requires
            self.can_roll(),
        ensures
            self.may_roll(v),
    {
        match self.range {
            Some(range) => roll_in(range[0], range[1]),
            None => {
                let min = self.min.unwrap();
                let max = self.max.unwrap();
                roll_from_ends(min, max)
            },
        }
    }
}

impl Clone for HybridModifierTier {
    fn clone(&self) -> (r: Self)
        ensures
            r == *self,
    {
        HybridModifierTier {
            affix: self.affix.clone(),
            range: self.range,
            min: self.min,
            max: self.max,
        }
    }
}

} // verus!
