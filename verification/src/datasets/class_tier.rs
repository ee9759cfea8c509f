use crate::datasets::affix_tier::{AffixTier, AffixTierView};
use crate::lookup::{
    first_true, lemma_first_true_is, lemma_sum_all_bounds_each, lemma_sum_all_prefix,
    lemma_sum_all_step, lemma_total_weight_nonnegative, sum_all, total_weight,
};
use crate::text::{is_text, texts};
use vstd::prelude::*;

verus! {

/// Represents a list of tiered modifiers for an item class.
#[derive(Debug, Default, PartialEq, Eq)]
pub struct ClassTier {
    pub classes: Vec<String>,
    pub prefixes: Vec<AffixTier>,
    pub suffixes: Vec<AffixTier>,
}

/// What a [`ClassTier`] holds.
pub struct ClassTierView {
    pub classes: Seq<Seq<char>>,
    pub prefixes: Seq<AffixTierView>,
    pub suffixes: Seq<AffixTierView>,
}

/// What a list of [`AffixTier`] holds.
pub open spec fn tables_view(tables: Seq<AffixTier>) -> Seq<AffixTierView> {
    tables.map_values(|t: AffixTier| t@)
}

impl View for ClassTier {
    type V = ClassTierView;

    open spec fn view(&self) -> ClassTierView {
        ClassTierView {
            classes: texts(self.classes@),
            prefixes: tables_view(self.prefixes@),
            suffixes: tables_view(self.suffixes@),
        }
    }
}

/// The weight of all tiers of each table, in order.
pub open spec fn table_weights(tables: Seq<AffixTierView>) -> Seq<int> {
    tables.map_values(|t: AffixTierView| t.all_tiers_weight())
}

/// The weight of all tiers of all of `tables`.
pub open spec fn tables_weight(tables: Seq<AffixTierView>) -> int {
    sum_all(table_weights(tables))
}

/// The weight that each table has at `item_level`, in order.
pub open spec fn table_level_weights(tables: Seq<AffixTierView>, item_level: u8) -> Seq<int> {
    tables.map_values(|t: AffixTierView| t.weight_at_level(item_level))
}

/// The weight of the tiers of `tables` that `item_level` unlocks.
pub open spec fn tables_weight_at_level(tables: Seq<AffixTierView>, item_level: u8) -> int {
    sum_all(table_level_weights(tables, item_level))
}

/// For each table, whether it is the one of `affix`.
pub open spec fn table_flags(tables: Seq<AffixTierView>, affix: Seq<char>) -> Seq<bool> {
    tables.map_values(|t: AffixTierView| t.affix == affix)
}

/// The first of `tables` that is the one of `affix`.
pub open spec fn find_table(tables: Seq<AffixTierView>, affix: Seq<char>) -> Option<
    AffixTierView,
> {
    let first = first_true(table_flags(tables, affix));
    if first < tables.len() {
        Some(tables[first])
    } else {
        None
    }
}

impl ClassTierView {
    /// The table of `affix`: the first among the prefixes, or else the
    /// first among the suffixes.
    pub open spec fn table_of(self, affix: Seq<char>) -> Option<AffixTierView> {
        match find_table(self.prefixes, affix) {
            Some(table) => Some(table),
            None => find_table(self.suffixes, affix),
        }
    }

    /// The weight of all prefixes.
    pub open spec fn prefixes_weight(self) -> int {
        tables_weight(self.prefixes)
    }

    /// The weight of all suffixes.
    pub open spec fn suffixes_weight(self) -> int {
        tables_weight(self.suffixes)
    }

    /// The weight of all affixes.
    pub open spec fn total_weight(self) -> int {
        self.prefixes_weight() + self.suffixes_weight()
    }

    /// The weight of all tiers that `item_level` unlocks.
    pub open spec fn total_weight_for_item_level(self, item_level: u8) -> int {
        tables_weight_at_level(self.prefixes, item_level) + tables_weight_at_level(
            self.suffixes,
            item_level,
        )
    }

    /// The weight of row `tier` of the table of `affix`, and 0 where there
    /// is no such table or row.
    pub open spec fn weight_of_tier(self, affix: Seq<char>, tier: u8) -> u16 {
        match self.table_of(affix) {
            Some(table) => match table.tier_weight(tier) {
                Some(weight) => weight,
                None => 0,
            },
            None => 0,
        }
    }

    /// The highest tier of `affix` that can be had at `item_level`, by the
    /// table of the affix, and 0 where there is no such table.
    pub open spec fn highest_affix_tier_for_item_level(
        self,
        affix: Seq<char>,
        item_level: u8,
    ) -> u8 {
        match self.table_of(affix) {
            Some(table) => table.highest_tier_for_item_level(item_level),
            None => 0,
        }
    }
}

/// No table weighs less than nothing, at any level.
pub proof fn lemma_table_weights_nonnegative(tables: Seq<AffixTierView>, item_level: u8)
    ensures
        forall|j: int| 0 <= j < tables.len() ==> #[trigger] table_weights(tables)[j] >= 0,
        forall|j: int|
            0 <= j < tables.len() ==> #[trigger] table_level_weights(tables, item_level)[j] >= 0,
{
    assert forall|j: int| 0 <= j < tables.len() implies #[trigger] table_weights(tables)[j]
        >= 0 by {
        lemma_total_weight_nonnegative(tables[j].tier_weights());
    }
    assert forall|j: int| 0 <= j < tables.len() implies #[trigger] table_level_weights(
        tables,
        item_level,
    )[j] >= 0 by {
        lemma_total_weight_nonnegative(tables[j].level_weights(item_level));
    }
}

/// Finds the first of `tables` that is the one of `affix`.
pub fn find_affix_tier<'a>(tables: &'a Vec<AffixTier>, affix: &str) -> (r: Option<&'a AffixTier>)
    ensures
        match r {
            Some(table) => find_table(tables_view(tables@), affix@) == Some(table@),
            None => find_table(tables_view(tables@), affix@) is None,
        },
{
    let ghost flags = table_flags(tables_view(tables@), affix@);
    let mut i: usize = 0;
    while i < tables.len()
        invariant
            i <= tables.len(),
            flags == table_flags(tables_view(tables@), affix@),
            forall|j: int| 0 <= j < i ==> !flags[j],
        decreases tables.len() - i,
    {
        assert(flags[i as int] == (tables@[i as int]@.affix == affix@));
        if is_text(&tables[i].affix, affix) {
            proof {
                lemma_first_true_is(flags, i as int);
            }
            return Some(&tables[i]);
        }
        i += 1;
    }
    proof {
        lemma_first_true_is(flags, i as int);
    }
    None
}

/// Adds up the weight of all tiers of `tables`.
fn sum_tables(tables: &Vec<AffixTier>) -> (r: u16)
    requires
        tables_weight(tables_view(tables@)) <= u16::MAX,
    ensures
        r == tables_weight(tables_view(tables@)),
{
    let ghost weights = table_weights(tables_view(tables@));
    proof {
        lemma_table_weights_nonnegative(tables_view(tables@), 0);
    }
    let mut total: u16 = 0;
    let mut i: usize = 0;
    while i < tables.len()
        invariant
            i <= tables.len(),
            weights == table_weights(tables_view(tables@)),
            weights.len() == tables.len(),
            forall|j: int| 0 <= j < weights.len() ==> weights[j] >= 0,
            sum_all(weights) <= u16::MAX,
            total == sum_all(weights.take(i as int)),
        decreases tables.len() - i,
    {
        proof {
            lemma_sum_all_step(weights, i as int);
            lemma_sum_all_prefix(weights, i as int + 1);
            lemma_sum_all_prefix(weights, i as int);
            assert(weights[i as int] == tables@[i as int]@.all_tiers_weight());
        }
        let weight = tables[i].get_all_tiers_weight();
        total = total + weight;
        i += 1;
    }
    assert(weights.take(i as int) =~= weights);
    total
}

/// Adds up the weight of the tiers of `tables` that `item_level` unlocks.
fn sum_tables_at_level(tables: &Vec<AffixTier>, item_level: u8) -> (r: u32)
    requires
        tables_weight_at_level(tables_view(tables@), item_level) <= u32::MAX,
    ensures
        r == tables_weight_at_level(tables_view(tables@), item_level),
{
    let ghost weights = table_level_weights(tables_view(tables@), item_level);
    proof {
        lemma_table_weights_nonnegative(tables_view(tables@), item_level);
    }
    let mut total: u32 = 0;
    let mut i: usize = 0;
    while i < tables.len()
        invariant
            i <= tables.len(),
            weights == table_level_weights(tables_view(tables@), item_level),
            weights.len() == tables.len(),
            forall|j: int| 0 <= j < weights.len() ==> weights[j] >= 0,
            sum_all(weights) <= u32::MAX,
            total == sum_all(weights.take(i as int)),
        decreases tables.len() - i,
    {
        proof {
            lemma_sum_all_step(weights, i as int);
            lemma_sum_all_prefix(weights, i as int + 1);
            lemma_sum_all_prefix(weights, i as int);
            lemma_sum_all_bounds_each(weights, i as int);
            assert(weights[i as int] == tables@[i as int]@.weight_at_level(item_level));
        }
        let weight = tables[i].get_weight_at_level(item_level).unwrap();
        total = total + weight as u32;
        i += 1;
    }
    assert(weights.take(i as int) =~= weights);
    total
}

/// Adds up the weight of the tiers of `tables` that `item_level` unlocks,
/// unless it does not fit in 64 bits.
fn checked_sum_at_level(tables: &Vec<AffixTier>, item_level: u8) -> (r: Option<u64>)
    ensures
        match r {
            Some(total) => total == tables_weight_at_level(tables_view(tables@), item_level),
            None => tables_weight_at_level(tables_view(tables@), item_level) > u64::MAX,
        },
{
    let ghost weights = table_level_weights(tables_view(tables@), item_level);
    proof {
        lemma_table_weights_nonnegative(tables_view(tables@), item_level);
    }
    let mut total: u64 = 0;
    let mut i: usize = 0;
    while i < tables.len()
        invariant
            i <= tables.len(),
            weights == table_level_weights(tables_view(tables@), item_level),
            weights.len() == tables.len(),
            forall|j: int| 0 <= j < weights.len() ==> weights[j] >= 0,
            total == sum_all(weights.take(i as int)),
        decreases tables.len() - i,
    {
        proof {
            lemma_sum_all_step(weights, i as int);
            lemma_sum_all_prefix(weights, i as int + 1);
            lemma_sum_all_prefix(weights, i as int);
            lemma_sum_all_bounds_each(weights, i as int);
            assert(weights[i as int] == tables@[i as int]@.weight_at_level(item_level));
        }
        match tables[i].get_weight_at_level(item_level) {
            Some(weight) => match total.checked_add(weight) {
                Some(next) => {
                    total = next;
                },
                None => {
                    return None;
                },
            },
            None => {
                return None;
            },
        }
        i += 1;
    }
    assert(weights.take(i as int) =~= weights);
    Some(total)
}

impl ClassTier {
    /// The weight of all tiers that `item_level` unlocks, unless it does
    /// not fit in 32 bits.
    pub fn checked_total_weight_for_item_level(&self, item_level: u8) -> (r: Option<u32>)
        ensures
            match r {
                Some(total) => total == self@.total_weight_for_item_level(item_level),
                None => self@.total_weight_for_item_level(item_level) > u32::MAX,
            },
    {
        proof {
            lemma_table_weights_nonnegative(self@.prefixes, item_level);
            lemma_table_weights_nonnegative(self@.suffixes, item_level);
            lemma_sum_all_prefix(table_level_weights(self@.prefixes, item_level), 0);
            lemma_sum_all_prefix(table_level_weights(self@.suffixes, item_level), 0);
        }
        match (
            checked_sum_at_level(&self.prefixes, item_level),
            checked_sum_at_level(&self.suffixes, item_level),
        ) {
            (Some(prefixes), Some(suffixes)) => {
                if prefixes <= 0xffff_ffff && suffixes <= 0xffff_ffff && prefixes + suffixes
                    <= 0xffff_ffff {
                    Some((prefixes + suffixes) as u32)
                } else {
                    None
                }
            },
            _ => None,
        }
    }

    /// Gets the weight of all prefixes for a modifier tier list.
    pub fn get_prefixes_weight(&self) -> (r: u16)
        requires
            self@.prefixes_weight() <= u16::MAX,
        ensures
            r == self@.prefixes_weight(),
    {
        sum_tables(&self.prefixes)
    }

    /// Gets the weight of all suffixes for a modifier tier list.
    pub fn get_suffixes_weight(&self) -> (r: u16)
        requires
            self@.suffixes_weight() <= u16::MAX,
        ensures
            r == self@.suffixes_weight(),
    {
        sum_tables(&self.suffixes)
    }

    /// Gets the weight of all affixes for a modifier tier list.
    pub fn get_total_weight(&self) -> (r: u16)
        requires
            self@.total_weight() <= u16::MAX,
        ensures
            r == self@.total_weight(),
    {
        proof {
            lemma_table_weights_nonnegative(self@.prefixes, 0);
            lemma_table_weights_nonnegative(self@.suffixes, 0);
            lemma_sum_all_prefix(table_weights(self@.prefixes), 0);
            lemma_sum_all_prefix(table_weights(self@.suffixes), 0);
        }
        self.get_prefixes_weight() + self.get_suffixes_weight()
    }

    /// Gets the weight of all affixes for a modifier tier list.
    pub fn get_total_weight_for_item_level(&self, item_level: u8) -> (r: u32)
        requires
            self@.total_weight_for_item_level(item_level) <= u32::MAX,
        ensures
            r == self@.total_weight_for_item_level(item_level),
    {
        proof {
            lemma_table_weights_nonnegative(self@.prefixes, item_level);
            lemma_table_weights_nonnegative(self@.suffixes, item_level);
            lemma_sum_all_prefix(table_level_weights(self@.prefixes, item_level), 0);
            lemma_sum_all_prefix(table_level_weights(self@.suffixes, item_level), 0);
        }
        sum_tables_at_level(&self.prefixes, item_level) + sum_tables_at_level(
            &self.suffixes,
            item_level,
        )
    }

    /// The table of `affix`: the first among the prefixes, or else the
    /// first among the suffixes.
    pub fn get_table_of(&self, affix: &str) -> (r: Option<&AffixTier>)
        ensures
            match r {
                Some(table) => self@.table_of(affix@) == Some(table@),
                None => self@.table_of(affix@) is None,
            },
    {
        match find_affix_tier(&self.prefixes, affix) {
            Some(table) => Some(table),
            None => find_affix_tier(&self.suffixes, affix),
        }
    }

    /// Gets the weight of an `affix` `tier`, defaults to `0`.
    pub fn get_weight_of_tier(&self, affix: &str, tier: u8) -> (r: u16)
        ensures
            r == self@.weight_of_tier(affix@, tier),
    {
        match self.get_table_of(affix) {
            Some(table) => match table.get_tier_weight(tier) {
                Some(weight) => weight,
                None => 0,
            },
            None => 0,
        }
    }

    /// Gets the highest possible `affix` tier for `item_level`.
    pub fn get_highest_affix_tier_for_item_level(&self, affix: &str, item_level: u8) -> (r: u8)
        ensures
            r == self@.highest_affix_tier_for_item_level(affix@, item_level),
    {
        match self.get_table_of(affix) {
            Some(table) => table.get_highest_tier_for_item_level(item_level),
            None => 0,
        }
    }
}

} // verus!
