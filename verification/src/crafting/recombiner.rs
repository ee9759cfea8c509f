use crate::crafting::solver::SolverView;
use crate::datasets::class_tier::{
    ClassTier, ClassTierView, lemma_table_weights_nonnegative, table_level_weights,
};
use crate::items::item_state::{ItemState, ItemStateView};
use crate::items::modifier::Modifier;
use crate::lookup::{lemma_sum_all_nonnegative, total_weight};
use crate::random::randomizer::{coin_flip, pick_by_roll, random_range, roll_clears};
use crate::text::contains_text;
use vstd::prelude::*;

verus! {

/// A chance in percent, as a fraction: `numerator` over `denominator`.
#[derive(Debug, Clone, Copy, PartialEq, Eq)]
pub struct Chance {
    pub numerator: u32,
    pub denominator: u32,
}

/// The lowest weight among `modifiers`.
pub open spec fn lowest_weight(modifiers: Seq<Modifier>) -> int
    decreases modifiers.len(),
{
    if modifiers.len() <= 1 {
        modifiers[0].weight as int
    } else {
        let rest = lowest_weight(modifiers.drop_last());
        if modifiers.last().weight < rest {
            modifiers.last().weight as int
        } else {
            rest
        }
    }
}

/// The factor that a class gives to its chances: 5 for chests, 8 for
/// spears, and 1 for all others.
pub open spec fn class_coefficient(class: ClassTierView) -> int {
    if class.classes.contains("chest"@) {
        5
    } else if class.classes.contains("spear"@) {
        8
    } else {
        1
    }
}

/// The weight of the rows of `affix` from `from` up to, not including,
/// `to`.
pub open spec fn span_weight(class: ClassTierView, affix: Seq<char>, from: int, to: int) -> int
    decreases to - from,
{
    if from >= to {
        0
    } else {
        span_weight(class, affix, from, to - 1) + class.weight_of_tier(affix, (to - 1) as u8)
    }
}

/// Whether a merge has no chance to keep a tier: nothing weighs at the
/// item level, or the tier is at or above the highest tier of the affix
/// that can be had at the item level.
pub open spec fn chance_is_zero(
    class: ClassTierView,
    item_level: u8,
    affix: Seq<char>,
    target_tier: u8,
) -> bool {
    class.total_weight_for_item_level(item_level) == 0 || target_tier
        >= class.highest_affix_tier_for_item_level(affix, item_level)
}

/// The weight that speaks for a merge keeping `target_tier` of `affix`
/// at least: the weight of the tiers from the one above `target_tier` up
/// to the highest that can be had, times the factor of the class.
pub open spec fn chance_weight(
    class: ClassTierView,
    item_level: u8,
    affix: Seq<char>,
    target_tier: u8,
) -> int {
    class_coefficient(class) * span_weight(
        class,
        affix,
        target_tier as int,
        class.highest_affix_tier_for_item_level(affix, item_level) as int,
    )
}

/// The numerator of the chance that a merge keeps `target_tier` of
/// `affix` at least, in percent over the denominator: the weight that
/// speaks for it, and no more than makes a hundred percent.
pub open spec fn chance_numerator(
    class: ClassTierView,
    item_level: u8,
    affix: Seq<char>,
    target_tier: u8,
) -> int {
    if chance_is_zero(class, item_level, affix, target_tier) {
        0
    } else if chance_weight(class, item_level, affix, target_tier) > 100
        * class.total_weight_for_item_level(item_level) {
        100 * class.total_weight_for_item_level(item_level)
    } else {
        chance_weight(class, item_level, affix, target_tier)
    }
}

/// The denominator of that chance: all that weighs at the item level.
pub open spec fn chance_denominator(
    class: ClassTierView,
    item_level: u8,
    affix: Seq<char>,
    target_tier: u8,
) -> int {
    if chance_is_zero(class, item_level, affix, target_tier) {
        1
    } else {
        class.total_weight_for_item_level(item_level)
    }
}

/// A merge has no chance to keep a tier that is at or above the highest
/// that can be had at the item level, nor one of an affix that the class
/// has no table of, nor any where nothing weighs at the item level.
pub proof fn lemma_chance_is_zero(
    class: ClassTierView,
    item_level: u8,
    affix: Seq<char>,
    target_tier: u8,
)
    requires
        target_tier >= class.highest_affix_tier_for_item_level(affix, item_level)
            || class.table_of(affix) is None || class.total_weight_for_item_level(item_level)
            == 0,
    ensures
        chance_numerator(class, item_level, affix, target_tier) == 0,
        chance_denominator(class, item_level, affix, target_tier) == 1,
{
}

/// The chance of a merge is no less than nothing and no more than a
/// hundred percent.
pub proof fn lemma_chance_is_a_percentage(
    class: ClassTierView,
    item_level: u8,
    affix: Seq<char>,
    target_tier: u8,
)
    ensures
        0 <= chance_numerator(class, item_level, affix, target_tier) <= 100 * chance_denominator(
            class,
            item_level,
            affix,
            target_tier,
        ),
        chance_denominator(class, item_level, affix, target_tier) > 0,
{
    lemma_table_weights_nonnegative(class.prefixes, item_level);
    lemma_table_weights_nonnegative(class.suffixes, item_level);
    lemma_sum_all_nonnegative(table_level_weights(class.prefixes, item_level));
    lemma_sum_all_nonnegative(table_level_weights(class.suffixes, item_level));
    lemma_span_weight_nonnegative(
        class,
        affix,
        target_tier as int,
        class.highest_affix_tier_for_item_level(affix, item_level) as int,
    );
    assert(chance_weight(class, item_level, affix, target_tier) >= 0) by (nonlinear_arith)
        requires
            class_coefficient(class) >= 1,
            span_weight(
                class,
                affix,
                target_tier as int,
                class.highest_affix_tier_for_item_level(affix, item_level) as int,
            ) >= 0,
            chance_weight(class, item_level, affix, target_tier) == class_coefficient(class)
                * span_weight(
                class,
                affix,
                target_tier as int,
                class.highest_affix_tier_for_item_level(affix, item_level) as int,
            ),
    ;
}

/// The weight of a span of rows is not negative.
pub proof fn lemma_span_weight_nonnegative(
    class: ClassTierView,
    affix: Seq<char>,
    from: int,
    to: int,
)
    ensures
        span_weight(class, affix, from, to) >= 0,
    decreases to - from,
{
    if from < to {
        lemma_span_weight_nonnegative(class, affix, from, to - 1);
    }
}

/// How many modifiers a recombination keeps of `modifier_count`, for two
/// rolls in thousandths.
pub open spec fn amount_for(modifier_count: u8, roll: u64, inner_roll: u64) -> u8 {
    if modifier_count == 1 {
        if roll_clears(roll, 410) {
            1
        } else {
            0
        }
    } else if modifier_count == 2 {
        if roll_clears(roll, 667) {
            2
        } else {
            1
        }
    } else if modifier_count == 3 {
        if roll_clears(roll, 900) {
            3
        } else if roll_clears(inner_roll, 500) {
            2
        } else {
            1
        }
    } else if modifier_count == 4 {
        if roll_clears(roll, 700) {
            3
        } else if roll_clears(inner_roll, 600) {
            2
        } else {
            1
        }
    } else if modifier_count == 5 {
        if roll_clears(roll, 430) {
            3
        } else {
            2
        }
    } else if modifier_count == 6 {
        if roll_clears(roll, 300) {
            3
        } else {
            2
        }
    } else {
        0
    }
}

/// The first `modifier_count` of the two lists put behind one another,
/// the prefixes first or the suffixes first.
pub open spec fn picked_in_order(
    modifier_count: u8,
    prefixes: Seq<Modifier>,
    suffixes: Seq<Modifier>,
    prefixes_first: bool,
) -> Seq<Modifier> {
    if prefixes_first {
        (prefixes + suffixes).take(modifier_count as int)
    } else {
        (suffixes + prefixes).take(modifier_count as int)
    }
}

/// How many modifiers a recombination keeps of `modifier_count`, for two
/// rolls in thousandths.
pub fn amount_for_rolls(modifier_count: u8, roll: u64, inner_roll: u64) -> (r: u8)
    ensures
        r == amount_for(modifier_count, roll, inner_roll),
{
    match modifier_count {
        1 => pick_by_roll(roll, 410, 1, 0),
        2 => pick_by_roll(roll, 667, 2, 1),
        3 => pick_by_roll(roll, 900, 3, pick_by_roll(inner_roll, 500, 2, 1)),
        4 => pick_by_roll(roll, 700, 3, pick_by_roll(inner_roll, 600, 2, 1)),
        5 => pick_by_roll(roll, 430, 3, 2),
        6 => pick_by_roll(roll, 300, 3, 2),
        _ => 0,
    }
}

/// The first `modifier_count` of `first` and `second` put behind one
/// another.
pub fn pick_in_order(modifier_count: u8, first: &[Modifier], second: &[Modifier]) -> (r: Vec<
    Modifier,
>)
    requires
        modifier_count <= first.len() + second.len(),
    ensures
        r@ == (first@ + second@).take(modifier_count as int),
{
    let mut picked: Vec<Modifier> = Vec::new();
    let mut i: usize = 0;
    while i < modifier_count as usize
        invariant
            i <= modifier_count,
            modifier_count <= first.len() + second.len(),
            picked@ == (first@ + second@).take(i as int),
        decreases modifier_count - i,
    {
        if i < first.len() {
            picked.push(first[i].clone());
        } else {
            picked.push(second[i - first.len()].clone());
        }
        assert(picked@ =~= (first@ + second@).take(i as int + 1));
        i += 1;
    }
    picked
}

/// The lowest weight among `modifiers`.
pub fn lowest_weight_of(modifiers: &[Modifier]) -> (r: u16)
    requires
        modifiers.len() > 0,
    ensures
        r == lowest_weight(modifiers@),
{
    let mut lowest: u16 = modifiers[0].weight;
    let mut i: usize = 1;
    assert(modifiers@.take(1).len() == 1);
    while i < modifiers.len()
        invariant
            1 <= i <= modifiers.len(),
            lowest == lowest_weight(modifiers@.take(i as int)),
        decreases modifiers.len() - i,
    {
        assert(modifiers@.take(i as int + 1).drop_last() =~= modifiers@.take(i as int));
        if modifiers[i].weight < lowest {
            lowest = modifiers[i].weight;
        }
        i += 1;
    }
    assert(modifiers@.take(i as int) =~= modifiers@);
    lowest
}

/// Responsible for all item combination actions.
pub trait Recombiner {
    /// Gets the amount of recombine modifiers based on `modifier_count`.
    /// One roll decides for 1, 2, 5 and 6 modifiers, two rolls for 3 and
    /// 4, and any other count keeps none.
    fn get_amount_of_modifers(&self, modifier_count: u8) -> (r: u8)
        ensures
            exists|roll: u64, inner_roll: u64|
                roll < 1000 && inner_roll < 1000 && r == #[trigger] amount_for(
                    modifier_count,
                    roll,
                    inner_roll,
                ),
    {
        let inner_roll: u64 = if modifier_count == 3 || modifier_count == 4 {
            random_range(0, 1000)
        } else {
            0
        };
        let roll: u64 = if 1 <= modifier_count && modifier_count <= 6 {
            random_range(0, 1000)
        } else {
            0
        };
        amount_for_rolls(modifier_count, roll, inner_roll)
    }

    /// Picks `modifier_count` of the selected modifiers: a coin says
    /// which list goes first, that list is taken in order, and the other
    /// one after it.
    fn pick_from_selected_modifiers(
        &self,
        modifier_count: u8,
        prefixes: &[Modifier],
        suffixes: &[Modifier],
    ) -> (r: Vec<Modifier>)
        requires
            0 < prefixes.len() <= i16::MAX,
            0 < suffixes.len() <= i16::MAX,
            modifier_count <= prefixes.len() + suffixes.len(),
        ensures
            r@ == picked_in_order(modifier_count, prefixes@, suffixes@, true) || r@
                == picked_in_order(modifier_count, prefixes@, suffixes@, false),
    {
        if coin_flip() {
            pick_in_order(modifier_count, prefixes, suffixes)
        } else {
            pick_in_order(modifier_count, suffixes, prefixes)
        }
    }

    /// Selects a base from two items of the same class: the one whose
    /// modifiers have the higher lowest weight, and the right one where
    /// the two are level.
    fn select_recombine_item(
        &self,
        left_item: &ItemState,
        right_item: &ItemState,
        left_mods: &[Modifier],
        right_mods: &[Modifier],
    ) -> (r: ItemState)
        requires
            left_mods.len() > 0,
            right_mods.len() > 0,
        ensures
            r@ == if lowest_weight(left_mods@) > lowest_weight(right_mods@) {
                left_item@
            } else {
                right_item@
            },
    {
        let lowest_left_mod_weight = lowest_weight_of(left_mods);
        let lowest_right_mod_weight = lowest_weight_of(right_mods);
        if lowest_left_mod_weight > lowest_right_mod_weight {
            left_item.clone()
        } else {
            right_item.clone()
        }
    }

    /// Calculates a "success chance" of combining items: the chance, in
    /// percent, that the merge keeps `target_tier` of `affix_id` at
    /// least. It is nothing where nothing weighs at the item level and
    /// where the tier is at or above the highest that can be had there;
    /// else it is the weight of the tiers above the target up to the
    /// highest, times the factor of the class, over all that weighs at
    /// the item level, and a hundred at most.
    fn get_modifier_recombine_chance(
        &self,
        base_type: &ClassTier,
        item_level: u8,
        affix_id: &str,
        target_tier: u8,
    ) -> (r: Chance)
        requires
            !chance_is_zero(base_type@, item_level, affix_id@, target_tier)
                ==> base_type@.total_weight_for_item_level(item_level) <= u32::MAX,
        ensures
            r.numerator == chance_numerator(base_type@, item_level, affix_id@, target_tier),
            r.denominator == chance_denominator(base_type@, item_level, affix_id@, target_tier),
            chance_is_zero(base_type@, item_level, affix_id@, target_tier) ==> r.numerator == 0,
            r.denominator > 0,
            r.numerator <= 100 * r.denominator,
    {
        let highest_tier = base_type.get_highest_affix_tier_for_item_level(affix_id, item_level);
        if target_tier >= highest_tier {
            return Chance { numerator: 0, denominator: 1 };
        }
        let total_weight: u32 = match base_type.checked_total_weight_for_item_level(item_level) {
            Some(total) => total,
            None => {
                return Chance { numerator: 0, denominator: 1 };
            },
        };
        if total_weight == 0 {
            return Chance { numerator: 0, denominator: 1 };
        }
        let mut sum_of_weights: u32 = 0;
        let mut tier: u8 = target_tier;
        while tier < highest_tier
            invariant
                target_tier <= tier <= highest_tier,
                sum_of_weights == span_weight(
                    base_type@,
                    affix_id@,
                    target_tier as int,
                    tier as int,
                ),
                sum_of_weights <= (tier - target_tier) * 65535,
            decreases highest_tier - tier,
        {
            let weight = base_type.get_weight_of_tier(affix_id, tier);
            sum_of_weights = sum_of_weights + weight as u32;
            tier = tier + 1;
        }
        let chest = "chest".to_owned();
        let spear = "spear".to_owned();
        let coefficient: u32 = if contains_text(base_type.classes.as_slice(), &chest) {
            5
        } else if contains_text(base_type.classes.as_slice(), &spear) {
            8
        } else {
            1
        };
        assert(coefficient * sum_of_weights <= 8 * 255 * 65535) by (nonlinear_arith)
            requires
                coefficient <= 8,
                sum_of_weights <= 255 * 65535,
        ;
        let weight: u32 = coefficient * sum_of_weights;
        let most: u64 = 100 * (total_weight as u64);
        if weight as u64 > most {
            Chance { numerator: most as u32, denominator: total_weight }
        } else {
            Chance { numerator: weight, denominator: total_weight }
        }
    }
}

/// What a merge of two items gives: the item that is kept as the base,
/// and, for each modifier of the left and then of the right selection,
/// the chance that the merge keeps its tier at least.
#[derive(Debug, PartialEq, Eq)]
pub struct Recombination {
    pub base_item: ItemState,
    pub chances: Vec<Chance>,
}

impl Recombination {
    /// Whether this is what the merge of two items gives: the base is
    /// the one that is selected, and there is a chance for each modifier
    /// of the left and then of the right selection, worked out with the
    /// class tier list of the base at the level of the base.
    pub open spec fn merges(
        &self,
        data: SolverView,
        left_item: ItemStateView,
        right_item: ItemStateView,
        left_mods: Seq<Modifier>,
        right_mods: Seq<Modifier>,
    ) -> bool {
        &&& self.base_item@ == selected_base(left_item, right_item, left_mods, right_mods)
        &&& self.chances@.len() == left_mods.len() + right_mods.len()
        &&& forall|i: int|
            0 <= i < self.chances@.len() ==> {
                let class = data.class_of_item(self.base_item@)->0;
                let modifier = (left_mods + right_mods)[i];
                &&& (#[trigger] self.chances@[i]).numerator == chance_numerator(
                    class,
                    self.base_item@.item_level,
                    modifier.id@,
                    modifier.tier,
                )
                &&& self.chances@[i].denominator == chance_denominator(
                    class,
                    self.base_item@.item_level,
                    modifier.id@,
                    modifier.tier,
                )
            }
    }
}

/// The item that a merge keeps as its base: the one whose modifiers have
/// the higher lowest weight, and the right one where the two are level.
pub open spec fn selected_base(
    left_item: ItemStateView,
    right_item: ItemStateView,
    left_mods: Seq<Modifier>,
    right_mods: Seq<Modifier>,
) -> ItemStateView {
    if lowest_weight(left_mods) > lowest_weight(right_mods) {
        left_item
    } else {
        right_item
    }
}

} // verus!
