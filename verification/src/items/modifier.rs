use crate::crafting::crafter::Crafter;
use crate::crafting::solver::Solver;
use crate::datasets::class_tiers::table_anywhere;
use vstd::prelude::*;

verus! {

/// Represents a single modifier on an item.
#[derive(Debug, PartialEq, Eq, Hash)]
pub struct Modifier {
    pub name: String,
    pub id: String,
    pub tier: u8,
    pub value: u16,
    pub weight: u16,
}

impl Modifier {
    /// Makes a new [`Modifier`] from `value`: its tier is the tier of the
    /// value in the first table of the affix, and its weight the weight
    /// of that tier's row.
    pub fn from_value(solver: &Solver, id: &'static str, value: u16) -> (r: Self)
        requires
            table_anywhere(solver.class_tiers@, id@) matches Some(table) ==> table.has_minimums(),
        ensures
            r.name@.len() == 0,
            r.id@ == id@,
            r.value == value,
            match table_anywhere(solver.class_tiers@, id@) {
                Some(table) => (table.value_tier_may_be(value, Some(r.tier)) || (r.tier == 0
                    && table.value_tier_may_be(value, None))) && r.weight == match table.tier_weight(
                    r.tier,
                ) {
                    Some(weight) => weight,
                    None => 0,
                },
                None => r.tier == 0 && r.weight == 0,
            },
    {
        let class_tiers = solver.class_tiers.class_tiers.as_slice();
        let tier = solver.get_affix_tier(class_tiers, id.to_owned(), value);
        Modifier {
            name: String::new(),
            id: id.to_owned(),
            tier,
            value,
            weight: solver.get_affix_tier_weight(class_tiers, id.to_owned(), tier),
        }
    }

    /// Makes a new [`Modifier`] from `tier`: its value is the minimum of
    /// the tier's row in the first table of the affix, and its weight the
    /// weight of that row.
    pub fn from_tier(solver: &Solver, id: &'static str, tier: u8) -> (r: Self)
        requires
            table_anywhere(solver.class_tiers@, id@) matches Some(table) ==> (tier
                < table.addressable_rows() ==> table.tiers[tier as int].has_minimum()),
        ensures
            r.name@.len() == 0,
            r.id@ == id@,
            r.tier == tier,
            match table_anywhere(solver.class_tiers@, id@) {
                Some(table) => if tier < table.addressable_rows() {
                    table.tiers[tier as int].minimum_may_be(r.value) && r.weight
                        == table.tiers[tier as int].weight
                } else {
                    r.value == 0 && r.weight == 0
                },
                None => r.value == 0 && r.weight == 0,
            },
    {
        let class_tiers = solver.class_tiers.class_tiers.as_slice();
        Modifier {
            name: String::new(),
            id: id.to_owned(),
            tier,
            value: solver.get_minimum_affix_value(class_tiers, id.to_owned(), tier),
            weight: solver.get_affix_tier_weight(class_tiers, id.to_owned(), tier),
        }
    }

    /// Whether the modifier is at least `wanted`: the same affix, with a
    /// value and a tier that are no lower.
    pub open spec fn meets(&self, wanted: &Modifier) -> bool {
        self.id@ == wanted.id@ && self.value >= wanted.value && self.tier >= wanted.tier
    }

    /// Whether the modifier is at least one of `wanted`.
    pub open spec fn meets_any(&self, wanted: Seq<Modifier>) -> bool {
        exists|j: int| 0 <= j < wanted.len() && self.meets(#[trigger] &wanted[j])
    }
}

impl Clone for Modifier {
    fn clone(&self) -> (r: Self)
        ensures
            r == *self,
    {
        Modifier {
            name: self.name.clone(),
            id: self.id.clone(),
            tier: self.tier,
            value: self.value,
            weight: self.weight,
        }
    }
}

} // verus!
