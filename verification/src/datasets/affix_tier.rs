use crate::datasets::modifier_tier::{ModifierTier, ModifierTierView};
use crate::lookup::{
    first_true, lemma_first_true_is, lemma_total_weight_prefix, lemma_total_weight_step,
    total_weight,
};
use vstd::prelude::*;

verus! {

/// Represents a list of tiers for an affix with ranges of values.
#[derive(Debug, Default, PartialEq, Eq)]
pub struct AffixTier {
    pub affix: String,
    pub tiers: Vec<ModifierTier>,
}

/// What an [`AffixTier`] holds.
pub struct AffixTierView {
    pub affix: Seq<char>,
    pub tiers: Seq<ModifierTierView>,
}

/// What a list of [`ModifierTier`] holds.
pub open spec fn tiers_view(tiers: Seq<ModifierTier>) -> Seq<ModifierTierView> {
    tiers.map_values(|t: ModifierTier| t@)
}

impl View for AffixTier {
    type V = AffixTierView;

    open spec fn view(&self) -> AffixTierView {
        AffixTierView { affix: self.affix@, tiers: tiers_view(self.tiers@) }
    }
}

/// The number of the last of `tiers` that `item_level` unlocks, with the
/// rows numbered from 1, and 0 where it unlocks none.
pub open spec fn highest_unlocked(tiers: Seq<ModifierTierView>, item_level: u8) -> int
    decreases tiers.len(),
{
    if tiers.len() == 0 {
        0
    } else if tiers.last().unlocked_at(item_level) {
        tiers.len() as int
    } else {
        highest_unlocked(tiers.drop_last(), item_level)
    }
}

/// The highest unlocked tier is the number of a row that is unlocked,
/// no row after it is, and it is 0 exactly where no row is unlocked.
pub proof fn lemma_highest_unlocked(tiers: Seq<ModifierTierView>, item_level: u8)
    ensures
        0 <= highest_unlocked(tiers, item_level) <= tiers.len(),
        highest_unlocked(tiers, item_level) > 0 ==> tiers[highest_unlocked(tiers, item_level)
            - 1].unlocked_at(item_level),
        forall|j: int|
            highest_unlocked(tiers, item_level) <= j < tiers.len() ==> !(
            #[trigger] tiers[j]).unlocked_at(item_level),
    decreases tiers.len(),
{
    if tiers.len() != 0 && !tiers.last().unlocked_at(item_level) {
        let rest = tiers.drop_last();
        lemma_highest_unlocked(rest, item_level);
        assert forall|j: int|
            highest_unlocked(tiers, item_level) <= j < tiers.len() implies !(
        #[trigger] tiers[j]).unlocked_at(item_level) by {
            if j < rest.len() {
                assert(tiers[j] == rest[j]);
            }
        }
        if highest_unlocked(tiers, item_level) > 0 {
            assert(tiers[highest_unlocked(tiers, item_level) - 1] == rest[highest_unlocked(
                rest,
                item_level,
            ) - 1]);
        }
    }
}

impl AffixTierView {
    /// The weight of each tier row, in order.
    pub open spec fn tier_weights(self) -> Seq<u64> {
        self.tiers.map_values(|t: ModifierTierView| t.weight as u64)
    }

    /// The weight of all tiers together.
    pub open spec fn all_tiers_weight(self) -> int {
        total_weight(self.tier_weights())
    }

    /// The weight of each tier row as it counts at `item_level`: its own
    /// where the level unlocks the row, and nothing where it does not.
    pub open spec fn level_weights(self, item_level: u8) -> Seq<u64> {
        self.tiers.map_values(
            |t: ModifierTierView|
                if t.unlocked_at(item_level) {
                    t.weight as u64
                } else {
                    0u64
                },
        )
    }

    /// The weight of the tiers that `item_level` unlocks.
    pub open spec fn weight_at_level(self, item_level: u8) -> int {
        total_weight(self.level_weights(item_level))
    }

    /// For each tier row, whether `item_level` unlocks it.
    pub open spec fn unlocked_rows(self, item_level: u8) -> Seq<bool> {
        self.tiers.map_values(|t: ModifierTierView| t.unlocked_at(item_level))
    }

    /// Whether `item_level` unlocks at least one tier.
    pub open spec fn unlocked_at(self, item_level: u8) -> bool {
        first_true(self.unlocked_rows(item_level)) < self.tiers.len()
    }

    /// The rows that have a tier number: rows are numbered from 1 in a
    /// byte, so these are the first 255.
    pub open spec fn numbered_tiers(self) -> Seq<ModifierTierView> {
        if self.tiers.len() <= 255 {
            self.tiers
        } else {
            self.tiers.take(255)
        }
    }

    /// The highest tier that can be had at `item_level`: the number of
    /// the last numbered row that the level unlocks, and 0 where it
    /// unlocks none.
    pub open spec fn highest_tier_for_item_level(self, item_level: u8) -> u8 {
        highest_unlocked(self.numbered_tiers(), item_level) as u8
    }

    /// The number of rows that a tier number can address. Tier numbers
    /// are bytes, and so is the count they are held against.
    pub open spec fn addressable_rows(self) -> int {
        (self.tiers.len() % 256) as int
    }

    /// The weight of row `tier`, where the row can be addressed.
    pub open spec fn tier_weight(self, tier: u8) -> Option<u16> {
        if tier >= self.addressable_rows() {
            None
        } else {
            Some(self.tiers[tier as int].weight)
        }
    }

    /// Whether every tier has a minimum value.
    pub open spec fn has_minimums(self) -> bool {
        forall|i: int| 0 <= i < self.tiers.len() ==> (#[trigger] self.tiers[i]).has_minimum()
    }

    /// Whether row `i` can show a minimum of at most `value`.
    pub open spec fn row_may_reach(self, i: int, value: u16) -> bool {
        exists|v: u16| v <= value && #[trigger] self.tiers[i].minimum_may_be(v)
    }

    /// Whether row `i` can show a minimum above `value`.
    pub open spec fn row_may_exceed(self, i: int, value: u16) -> bool {
        exists|v: u16| v > value && #[trigger] self.tiers[i].minimum_may_be(v)
    }

    /// Whether `tier` can be the tier of `value`: the number, kept to a
    /// byte, of a row that can show a minimum of at most `value` while
    /// every row before it can show one above; or none, where every row
    /// can show a minimum above `value`.
    pub open spec fn value_tier_may_be(self, value: u16, tier: Option<u8>) -> bool {
        match tier {
            Some(tier) => exists|i: int|
                0 <= i < self.tiers.len() && tier == i % 256 && #[trigger] self.row_may_reach(
                    i,
                    value,
                ) && forall|j: int| 0 <= j < i ==> #[trigger] self.row_may_exceed(j, value),
            None => forall|j: int|
                0 <= j < self.tiers.len() ==> #[trigger] self.row_may_exceed(j, value),
        }
    }
}

impl AffixTier {
    /// Gets the weight of all tiers for an affix.
    pub fn get_all_tiers_weight(&self) -> (r: u16)
        requires
            self@.all_tiers_weight() <= u16::MAX,
        ensures
            r == self@.all_tiers_weight(),
    {
        let ghost weights = self@.tier_weights();
        let mut total: u16 = 0;
        let mut i: usize = 0;
        while i < self.tiers.len()
            invariant
                i <= self.tiers.len(),
                weights == self@.tier_weights(),
                weights.len() == self.tiers.len(),
                total_weight(weights) <= u16::MAX,
                total == total_weight(weights.take(i as int)),
            decreases self.tiers.len() - i,
        {
            proof {
                lemma_total_weight_step(weights, i as int);
                lemma_total_weight_prefix(weights, i as int + 1);
                assert(weights[i as int] == self.tiers@[i as int].weight);
            }
            total = total + self.tiers[i].weight;
            i += 1;
        }
        assert(weights.take(i as int) =~= weights);
        total
    }

    /// The weight of the tiers that `item_level` unlocks, unless it does
    /// not fit in 64 bits.
    pub fn get_weight_at_level(&self, item_level: u8) -> (r: Option<u64>)
        ensures
            match r {
                Some(total) => total == self@.weight_at_level(item_level),
                None => self@.weight_at_level(item_level) > u64::MAX,
            },
    {
        let ghost weights = self@.level_weights(item_level);
        let mut total: u64 = 0;
        let mut i: usize = 0;
        while i < self.tiers.len()
            invariant
                i <= self.tiers.len(),
                weights == self@.level_weights(item_level),
                weights.len() == self.tiers.len(),
                total == total_weight(weights.take(i as int)),
            decreases self.tiers.len() - i,
        {
            proof {
                lemma_total_weight_step(weights, i as int);
                lemma_total_weight_prefix(weights, i as int + 1);
                assert(self@.tiers[i as int] == self.tiers@[i as int]@);
            }
            if self.tiers[i].item_level <= item_level {
                match total.checked_add(self.tiers[i].weight as u64) {
                    Some(next) => {
                        total = next;
                    },
                    None => {
                        return None;
                    },
                }
            }
            i += 1;
        }
        assert(weights.take(i as int) =~= weights);
        Some(total)
    }

    /// Whether `item_level` unlocks at least one tier.
    pub fn is_unlocked_at(&self, item_level: u8) -> (r: bool)
        ensures
            r == self@.unlocked_at(item_level),
    {
        let ghost rows = self@.unlocked_rows(item_level);
        let mut i: usize = 0;
        while i < self.tiers.len()
            invariant
                i <= self.tiers.len(),
                rows == self@.unlocked_rows(item_level),
                forall|j: int| 0 <= j < i ==> !rows[j],
            decreases self.tiers.len() - i,
        {
            if self.tiers[i].item_level <= item_level {
                proof {
                    assert(rows[i as int] == self.tiers@[i as int]@.unlocked_at(item_level));
                    lemma_first_true_is(rows, i as int);
                }
                return true;
            }
            assert(rows[i as int] == self.tiers@[i as int]@.unlocked_at(item_level));
            i += 1;
        }
        proof {
            lemma_first_true_is(rows, i as int);
        }
        false
    }

    /// Whether every tier has a minimum value.
    pub fn has_all_minimums(&self) -> (r: bool)
        ensures
            r == self@.has_minimums(),
    {
        let mut i: usize = 0;
        while i < self.tiers.len()
            invariant
                i <= self.tiers.len(),
                forall|j: int| 0 <= j < i ==> (#[trigger] self@.tiers[j]).has_minimum(),
            decreases self.tiers.len() - i,
        {
            assert(self@.tiers[i as int] == self.tiers@[i as int]@);
            if !self.tiers[i].has_minimum_value() {
                return false;
            }
            i += 1;
        }
        true
    }

    /// Gets the highest possible tier for an item level: the number of
    /// the last row that the level unlocks, with the rows numbered from
    /// 1, and 0 where it unlocks none.
    pub fn get_highest_tier_for_item_level(&self, item_level: u8) -> (r: u8)
        ensures
            r == self@.highest_tier_for_item_level(item_level),
            r <= self@.numbered_tiers().len(),
            r > 0 ==> self@.numbered_tiers()[r - 1].unlocked_at(item_level),
            forall|j: int|
                r <= j < self@.numbered_tiers().len() ==> !(
                #[trigger] self@.numbered_tiers()[j]).unlocked_at(item_level),
    {
        let ghost rows = self@.numbered_tiers();
        proof {
            lemma_highest_unlocked(rows, item_level);
        }
        let mut highest: u8 = 0;
        let mut i: usize = 0;
        while i < self.tiers.len() && i < 255
            invariant
                i <= self.tiers.len(),
                i <= 255,
                rows == self@.numbered_tiers(),
                highest <= i,
                highest == highest_unlocked(rows.take(i as int), item_level),
            decreases self.tiers.len() - i,
        {
            proof {
                assert(rows.take(i as int + 1).drop_last() =~= rows.take(i as int));
                assert(rows.take(i as int + 1).last() == self.tiers@[i as int]@);
            }
            if self.tiers[i].item_level <= item_level {
                highest = (i + 1) as u8;
            }
            i += 1;
        }
        assert(rows.take(i as int) =~= rows);
        highest
    }

    /// Gets a specific tier's weight for an affix.
    pub fn get_tier_weight(&self, tier: u8) -> (r: Option<u16>)
        ensures
            r == self@.tier_weight(tier),
    {
        let rows: u8 = (self.tiers.len() % 256) as u8;
        if tier >= rows {
            None
        } else {
            Some(self.tiers[tier as usize].weight)
        }
    }

    /// Gets the minimum value for an affix modifier by `tier`.
    pub fn get_minimum_tier_value(&self, tier: u8) -> (r: Option<u16>)
        requires
            tier < self@.addressable_rows() ==> self@.tiers[tier as int].has_minimum(),
        ensures
            r is None <==> tier >= self@.addressable_rows(),
            r matches Some(v) ==> self@.tiers[tier as int].minimum_may_be(v),
    {
        let rows: u8 = (self.tiers.len() % 256) as u8;
        if tier >= rows {
            None
        } else {
            assert(self@.tiers[tier as int] == self.tiers@[tier as int]@);
            Some(self.tiers[tier as usize].get_minimum_value())
        }
    }

    /// Gets the tier of an affix modifier by `value`: the number of the
    /// first row whose minimum is at most `value`, kept to a byte.
    pub fn get_value_tier(&self, value: u16) -> (r: Option<u8>)
        requires
            self@.has_minimums(),
        ensures
            self@.value_tier_may_be(value, r),
    {
        let mut i: usize = 0;
        while i < self.tiers.len()
            invariant
                i <= self.tiers.len(),
                self@.has_minimums(),
                forall|j: int| 0 <= j < i ==> #[trigger] self@.row_may_exceed(j, value),
            decreases self.tiers.len() - i,
        {
            assert(self@.tiers[i as int] == self.tiers@[i as int]@);
            assert(self@.tiers[i as int].has_minimum());
            let minimum = self.tiers[i].get_minimum_value();
            if minimum <= value {
                assert(self@.row_may_reach(i as int, value));
                return Some((i % 256) as u8);
            }
            assert(self@.row_may_exceed(i as int, value));
            i += 1;
        }
        None
    }
}

/// A copy of a list of tiers.
pub fn clone_tiers(list: &Vec<ModifierTier>) -> (r: Vec<ModifierTier>)
    ensures
        tiers_view(r@) == tiers_view(list@),
{
    let mut out: Vec<ModifierTier> = Vec::new();
    let mut i: usize = 0;
    while i < list.len()
        invariant
            i <= list.len(),
            out.len() == i,
            forall|j: int| 0 <= j < i ==> (#[trigger] out@[j])@ == list@[j]@,
        decreases list.len() - i,
    {
        out.push(list[i].clone());
        i += 1;
    }
    assert(tiers_view(out@) =~= tiers_view(list@));
    out
}

impl Clone for AffixTier {
    fn clone(&self) -> (r: Self)
        ensures
            r@ == self@,
    {
        AffixTier { affix: self.affix.clone(), tiers: clone_tiers(&self.tiers) }
    }
}

} // verus!
