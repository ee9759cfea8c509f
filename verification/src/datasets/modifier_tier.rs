use crate::datasets::hybrid_modifier_tier::{
    HybridModifierTier, ends_can_roll, ends_may_roll, roll_from_ends, roll_in,
};
use vstd::prelude::*;

verus! {

/// Represents a list of tiers for a modifier.
#[derive(Debug, Default, PartialEq, Eq)]
pub struct ModifierTier {
    pub range: Option<[u16; 2]>,
    pub min: Option<[u16; 2]>,
    pub max: Option<[u16; 2]>,
    pub value: Option<u16>,
    pub hybrid: Option<Vec<HybridModifierTier>>,
    pub item_level: u8,
    pub weight: u16,
}

/// What a [`ModifierTier`] holds.
pub struct ModifierTierView {
    pub range: Option<[u16; 2]>,
    pub min: Option<[u16; 2]>,
    pub max: Option<[u16; 2]>,
    pub value: Option<u16>,
    pub hybrid: Option<Seq<HybridModifierTier>>,
    pub item_level: u8,
    pub weight: u16,
}

impl View for ModifierTier {
    type V = ModifierTierView;

    open spec fn view(&self) -> ModifierTierView {
        ModifierTierView {
            range: self.range,
            min: self.min,
            max: self.max,
            value: self.value,
            hybrid: match self.hybrid {
                Some(list) => Some(list@),
                None => None,
            },
            item_level: self.item_level,
            weight: self.weight,
        }
    }
}

impl ModifierTierView {
    /// Whether the tier is open to an item of level `item_level`.
    pub open spec fn unlocked_at(self, item_level: u8) -> bool {
        self.item_level <= item_level
    }

    /// Whether a value can be rolled. The sources are tried in order:
    /// the range, the min/max pair, the first hybrid entry, the fixed
    /// value; the first that is there must be usable.
    pub open spec fn can_roll(self) -> bool {
        if self.range is Some {
            self.range->0[0] < self.range->0[1]
        } else if self.min is Some {
            self.max is Some && ends_can_roll(self.min->0, self.max->0)
        } else if self.hybrid is Some {
            self.hybrid->0.len() > 0 && self.hybrid->0[0].can_roll()
        } else {
            self.value is Some
        }
    }

    /// Whether `v` is a value that a roll can give.
    pub open spec fn may_roll(self, v: u16) -> bool {
        if self.range is Some {
            self.range->0[0] <= v < self.range->0[1]
        } else if self.min is Some {
            ends_may_roll(self.min->0, self.max->0, v)
        } else if self.hybrid is Some {
            self.hybrid->0[0].may_roll(v)
        } else {
            self.value == Some(v)
        }
    }

    /// Whether the tier has a minimum value: a range or a lower range
    /// gives one by itself, a hybrid tier by a roll of its first entry,
    /// and else the fixed value must be there.
    pub open spec fn has_minimum(self) -> bool {
        if self.range is Some || self.min is Some {
            true
        } else if self.hybrid is Some {
            self.hybrid->0.len() > 0 && self.hybrid->0[0].can_roll()
        } else {
            self.value is Some
        }
    }

    /// Whether `v` can be the tier's minimum value: the low end of the
    /// range, or of the lower range, a roll of the first hybrid entry, or
    /// the fixed value.
    pub open spec fn minimum_may_be(self, v: u16) -> bool {
        if self.range is Some {
            v == self.range->0[0]
        } else if self.min is Some {
            v == self.min->0[0]
        } else if self.hybrid is Some {
            self.hybrid->0[0].may_roll(v)
        } else {
            self.value == Some(v)
        }
    }
}

impl ModifierTier {
    /// Whether a value can be rolled.
    pub fn is_rollable(&self) -> (r: bool)
        ensures
            r == self@.can_roll(),
    {
        if let Some(range) = self.range {
            range[0] < range[1]
        } else if let Some(min) = self.min {
            match self.max {
                Some(max) => min[0] < min[1] && max[0] < max[1],
                None => false,
            }
        } else if let Some(hybrid) = &self.hybrid {
            hybrid.len() > 0 && hybrid[0].is_rollable()
        } else {
            self.value.is_some()
        }
    }

    /// Whether the tier has a minimum value.
    pub fn has_minimum_value(&self) -> (r: bool)
        ensures
            r == self@.has_minimum(),
    {
        if self.range.is_some() || self.min.is_some() {
            true
        } else if let Some(hybrid) = &self.hybrid {
            hybrid.len() > 0 && hybrid[0].is_rollable()
        } else {
            self.value.is_some()
        }
    }

    /// Gets a modifier value, either from [`ModifierTier::range`],
    /// [`ModifierTier::min`] and [`ModifierTier::max`],
    /// [`ModifierTier::hybrid`], or [`ModifierTier::value`].
    pub fn get_value(&self) -> (v: u16)
        requires
            self@.can_roll(),
        ensures
            self@.may_roll(v),
    {
        if let Some(range) = self.range {
            roll_in(range[0], range[1])
        } else if let Some(min) = self.min {
            let max = self.max.unwrap();
            roll_from_ends(min, max)
        } else if let Some(hybrid) = &self.hybrid {
            hybrid[0].get_value()
        } else {
            self.value.unwrap()
        }
    }

    /// Gets the minimum value of a [`ModifierTier`].
    pub fn get_minimum_value(&self) -> (v: u16)
        requires
            self@.has_minimum(),
        ensures
            self@.minimum_may_be(v),
    {
        if let Some(range) = self.range {
            range[0]
        } else if let Some(min) = self.min {
            min[0]
        } else if let Some(hybrid) = &self.hybrid {
            hybrid[0].get_value()
        } else {
            self.value.unwrap()
        }
    }
}

/// A copy of a list of hybrid tiers.
pub fn clone_hybrids(list: &Vec<HybridModifierTier>) -> (r: Vec<HybridModifierTier>)
    ensures
        r@ == list@,
{
    let out = list.clone();
    assert(out@ =~= list@);
    out
}

impl Clone for ModifierTier {
    fn clone(&self) -> (r: Self)
        ensures
            r@ == self@,
    {
        ModifierTier {
            range: self.range,
            min: self.min,
            max: self.max,
            value: self.value,
            hybrid: match &self.hybrid {
                Some(list) => Some(clone_hybrids(list)),
                None => None,
            },
            item_level: self.item_level,
            weight: self.weight,
        }
    }
}

} // verus!
