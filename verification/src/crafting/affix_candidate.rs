use crate::datasets::affix_tier::{AffixTier, AffixTierView};
use crate::datasets::class_tier::{ClassTierView, tables_view};
use crate::datasets::class_tiers::find_class;
use crate::datasets::item::Item;
use crate::datasets::items::class_of_base;
use crate::items::item_state::ItemStateView;
use vstd::prelude::*;

verus! {

/// An affix candidate for crafting.
#[derive(Debug, PartialEq, Eq)]
pub struct AffixCandidate {
    pub affix: String,
    pub affix_tier: AffixTier,
    pub weight: u16,
}

/// What an [`AffixCandidate`] holds.
pub struct AffixCandidateView {
    pub affix: Seq<char>,
    pub affix_tier: AffixTierView,
    pub weight: u16,
}

impl View for AffixCandidate {
    type V = AffixCandidateView;

    open spec fn view(&self) -> AffixCandidateView {
        AffixCandidateView {
            affix: self.affix@,
            affix_tier: self.affix_tier@,
            weight: self.weight,
        }
    }
}

/// What a list of [`AffixCandidate`] holds.
pub open spec fn candidates_view(list: Seq<AffixCandidate>) -> Seq<AffixCandidateView> {
    list.map_values(|c: AffixCandidate| c@)
}

impl Clone for AffixCandidate {
    fn clone(&self) -> (r: Self)
        ensures
            r@ == self@,
    {
        AffixCandidate {
            affix: self.affix.clone(),
            affix_tier: self.affix_tier.clone(),
            weight: self.weight,
        }
    }
}

/// The candidates that one table gives: one for each of its tier rows, in
/// order, each with the weight of its row.
pub open spec fn table_candidates(table: AffixTierView) -> Seq<AffixCandidateView> {
    Seq::new(
        table.tiers.len(),
        |i: int|
            AffixCandidateView {
                affix: table.affix,
                affix_tier: table,
                weight: table.tiers[i].weight,
            },
    )
}

/// The candidates that `tables` give at `item_level`: those of each table
/// that the level unlocks a tier of, in order.
pub open spec fn tables_candidates(tables: Seq<AffixTierView>, item_level: u8) -> Seq<
    AffixCandidateView,
>
    decreases tables.len(),
{
    if tables.len() == 0 {
        Seq::<AffixCandidateView>::empty()
    } else if tables.last().unlocked_at(item_level) {
        tables_candidates(tables.drop_last(), item_level) + table_candidates(tables.last())
    } else {
        tables_candidates(tables.drop_last(), item_level)
    }
}

/// The tables of a slot: the prefixes for `prefix`, and the suffixes for
/// anything else.
pub open spec fn slot_tables(class: ClassTierView, affix_type: Seq<char>) -> Seq<AffixTierView> {
    if affix_type == "prefix"@ {
        class.prefixes
    } else {
        class.suffixes
    }
}

/// The affixes that can roll on an item of `item_class` and `item_level`
/// in a slot: the candidates of the first class tier list that is for the
/// class, and none where no list is.
pub open spec fn possible_affixes(
    class_tiers: Seq<ClassTierView>,
    item_class: Seq<char>,
    item_level: u8,
    affix_type: Seq<char>,
) -> Seq<AffixCandidateView> {
    match find_class(class_tiers, item_class) {
        Some(class) => tables_candidates(slot_tables(class, affix_type), item_level),
        None => Seq::<AffixCandidateView>::empty(),
    }
}

/// The affixes that can roll on `item` in a slot, with its class taken
/// from the item table by its base.
pub open spec fn possible_for_item(
    items: Seq<Item>,
    class_tiers: Seq<ClassTierView>,
    item: ItemStateView,
    affix_type: Seq<char>,
) -> Seq<AffixCandidateView> {
    possible_affixes(
        class_tiers,
        class_of_base(items, item.base)->0,
        item.item_level,
        affix_type,
    )
}

/// The candidates of one table.
pub fn candidates_of_table(table: &AffixTier) -> (r: Vec<AffixCandidate>)
    ensures
        candidates_view(r@) == table_candidates(table@),
{
    let mut list: Vec<AffixCandidate> = Vec::new();
    let mut i: usize = 0;
    while i < table.tiers.len()
        invariant
            i <= table.tiers.len(),
            list.len() == i,
            forall|j: int| 0 <= j < i ==> (#[trigger] list@[j])@ == table_candidates(table@)[j],
        decreases table.tiers.len() - i,
    {
        assert(table@.tiers[i as int] == table.tiers@[i as int]@);
        list.push(
            AffixCandidate {
                affix: table.affix.clone(),
                affix_tier: table.clone(),
                weight: table.tiers[i].weight,
            },
        );
        i += 1;
    }
    assert(candidates_view(list@) =~= table_candidates(table@));
    list
}

/// The candidates that `tables` give at `item_level`.
pub fn candidates_of_tables(tables: &Vec<AffixTier>, item_level: u8) -> (r: Vec<AffixCandidate>)
    ensures
        candidates_view(r@) == tables_candidates(tables_view(tables@), item_level),
{
    let ghost all = tables_view(tables@);
    let mut list: Vec<AffixCandidate> = Vec::new();
    let mut i: usize = 0;
    while i < tables.len()
        invariant
            i <= tables.len(),
            all == tables_view(tables@),
            candidates_view(list@) == tables_candidates(all.take(i as int), item_level),
        decreases tables.len() - i,
    {
        proof {
            assert(all.take(i as int + 1).drop_last() =~= all.take(i as int));
            assert(all.take(i as int + 1).last() == tables@[i as int]@);
        }
        if tables[i].is_unlocked_at(item_level) {
            let mut more = candidates_of_table(&tables[i]);
            let ghost before = list@;
            let ghost added = more@;
            list.append(&mut more);
            assert(candidates_view(list@) =~= candidates_view(before) + candidates_view(added));
        }
        i += 1;
    }
    assert(all.take(i as int) =~= all);
    list
}

} // verus!
