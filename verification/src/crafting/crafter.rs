use crate::crafting::affix_candidate::{
    AffixCandidate, AffixCandidateView, candidates_of_tables, candidates_view, possible_affixes,
    possible_for_item,
};
use crate::crafting::choosing::{
    candidate_rollable, candidates_rollable, check_candidates, choosing_fault, chosen_as,
    draws_only, eligible, eligible_weights, is_on_item, lemma_single_candidate_gives_its_affix,
    may_choose, resolve_affix, tier_weights_of,
};
use crate::crafting::dataset_error::DatasetError;
use crate::crafting::slots::{
    added_in_turn, added_one, added_to, adding_fault, adds, can_add_one, can_add_to,
    current_affixes_of, has_no_legal_slot, is_slot, is_slot_flipped, lemma_rollable_after_adding,
    lemma_slot_names, lemma_swap_remove_takes_one, outcome_slot, pick_outcome_affix, removed_from,
    slot_is_flipped,
};
use crate::crafting::validity::{is_pending, valid_crafting_action};
use crate::datasets::class_tier::ClassTier;
use crate::datasets::class_tiers::{
    class_tiers_view, find_class_tier, find_table_anywhere, table_anywhere,
};
use crate::datasets::craft_action::CraftAction;
use crate::datasets::craft_outcome::CraftOutcome;
use crate::datasets::item::Item;
use crate::datasets::items::{class_of_base, find_item};
use crate::datasets::modifiers::Modifiers;
use crate::items::item_state::{ItemState, ItemStateView};
use crate::items::modifier::Modifier;
use crate::random::randomizer::{
    can_sample, coin_flip, random_range, random_weighted_index, samplable,
};
use crate::text::is_text;
use vstd::prelude::*;

verus! {

/// Responsible for all affix-related actions.
pub trait Crafter {
    /// Gets a list of all possible affixes (prefixes or suffixes) that
    /// can roll on an item of a given class and level.
    fn get_possible_affixes(
        &self,
        class_tiers: &[ClassTier],
        item_class: &str,
        item_level: u8,
        affix_type: &str,
    ) -> (r: Vec<AffixCandidate>)
        ensures
            candidates_view(r@) == possible_affixes(
                class_tiers_view(class_tiers@),
                item_class@,
                item_level,
                affix_type@,
            ),
    {
        let class = item_class.to_owned();
        match find_class_tier(class_tiers, &class) {
            Some(found) => {
                let slot = affix_type.to_owned();
                if is_text(&slot, "prefix") {
                    candidates_of_tables(&found.prefixes, item_level)
                } else {
                    candidates_of_tables(&found.suffixes, item_level)
                }
            },
            None => {
                let none: Vec<AffixCandidate> = Vec::new();
                assert(candidates_view(none@) =~= Seq::<AffixCandidateView>::empty());
                none
            },
        }
    }

    /// Selects a random affix based on its weight: a candidate whose
    /// affix is not on the item is drawn by the candidates' weights, then a
    /// tier row of its table by the rows' weights, then the row's value.
    /// Where no such draw can be made, there is no affix.
    fn choose_random_affix(
        &self,
        modifiers: Modifiers,
        current_affixes: &[Modifier],
        possible_affixes: &[AffixCandidate],
    ) -> (r: Option<Modifier>)
        requires
            candidates_rollable(modifiers@, current_affixes@, candidates_view(possible_affixes@)),
        ensures
            r is Some <==> samplable(
                eligible_weights(current_affixes@, candidates_view(possible_affixes@)),
            ),
            r matches Some(modifier) ==> may_choose(
                modifiers@,
                current_affixes@,
                candidates_view(possible_affixes@),
                modifier,
            ),
            forall|affix: Seq<char>|
                r is Some && #[trigger] draws_only(
                    current_affixes@,
                    candidates_view(possible_affixes@),
                    affix,
                ) ==> r->0.id@ == affix,
    {
        let ghost candidates = candidates_view(possible_affixes@);
        let mut positions: Vec<usize> = Vec::new();
        let mut weights: Vec<u64> = Vec::new();
        let mut i: usize = 0;
        while i < possible_affixes.len()
            invariant
                i <= possible_affixes.len(),
                candidates == candidates_view(possible_affixes@),
                weights@ == eligible_weights(current_affixes@, candidates.take(i as int)),
                positions.len() == weights.len(),
                forall|p: int|
                    0 <= p < positions.len() ==> (#[trigger] positions@[p]) < i && eligible(
                        current_affixes@,
                        candidates[positions@[p] as int],
                    ) && weights@[p] == candidates[positions@[p] as int].weight,
            decreases possible_affixes.len() - i,
        {
            proof {
                assert(candidates.take(i as int + 1).drop_last() =~= candidates.take(i as int));
                assert(candidates.take(i as int + 1).last() == possible_affixes@[i as int]@);
            }
            if !is_on_item(current_affixes, &possible_affixes[i].affix) {
                positions.push(i);
                weights.push(possible_affixes[i].weight as u64);
            }
            i += 1;
        }
        assert(candidates.take(i as int) =~= candidates);
        if !can_sample(&weights) {
            return None;
        }
        let drawn = random_weighted_index(&weights);
        let k = positions[drawn];
        let candidate = &possible_affixes[k];
        assert(candidates[k as int] == candidate@);
        assert(candidate_rollable(candidates[k as int], modifiers@));
        let entry = modifiers.get_affix_by_id(candidate.affix.as_str()).unwrap();
        let tier_weights = tier_weights_of(&candidate.affix_tier);
        let tier_index = random_weighted_index(&tier_weights);
        proof {
            let table = candidate@.affix_tier;
            assert(table.tiers[tier_index as int] == candidate.affix_tier.tiers@[tier_index as int]@);
            assert(table.tier_weights()[tier_index as int] == table.tiers[tier_index as int].weight
                as u64);
        }
        let value = candidate.affix_tier.tiers[tier_index].get_value();
        let modifier = resolve_affix(&entry, candidate, tier_index, value);
        assert(chosen_as(
            modifiers@,
            current_affixes@,
            candidates,
            k as int,
            tier_index as int,
            modifier,
        ));
        assert forall|affix: Seq<char>| #[trigger]
            draws_only(current_affixes@, candidates, affix) implies modifier.id@ == affix by {
            lemma_single_candidate_gives_its_affix(
                modifiers@,
                current_affixes@,
                candidates,
                affix,
                modifier,
            );
        }
        Some(modifier)
    }

    /// Selects a random affix as [`Crafter::choose_random_affix`] does,
    /// unless the datasets keep a modifier from being chosen.
    fn try_choose_random_affix(
        &self,
        modifiers: Modifiers,
        current_affixes: &[Modifier],
        possible_affixes: &[AffixCandidate],
    ) -> (r: Result<Option<Modifier>, DatasetError>)
        ensures
            match r {
                Ok(chosen) => {
                    &&& choosing_fault(
                        modifiers@,
                        current_affixes@,
                        candidates_view(possible_affixes@),
                    ) is None
                    &&& chosen is Some <==> samplable(
                        eligible_weights(current_affixes@, candidates_view(possible_affixes@)),
                    )
                    &&& chosen matches Some(modifier) ==> may_choose(
                        modifiers@,
                        current_affixes@,
                        candidates_view(possible_affixes@),
                        modifier,
                    )
                },
                Err(error) => choosing_fault(
                    modifiers@,
                    current_affixes@,
                    candidates_view(possible_affixes@),
                ) == Some(error),
            },
    {
        match check_candidates(&modifiers, current_affixes, possible_affixes) {
            Err(error) => Err(error),
            Ok(_) => Ok(self.choose_random_affix(modifiers, current_affixes, possible_affixes)),
        }
    }

    /// Adds a random affix to `item_state`, `count` times over. Each
    /// round checks the room of the slot, looks up what can roll, and
    /// appends what was chosen among the candidates whose affix is not
    /// on the item yet. The result is `false` for a slot that is neither
    /// `prefix` nor `suffix`, and as soon as a round finds the slot full
    /// or no affix that can be added; what was added by then stays.
    fn add_random_affix(
        &self,
        items: &[Item],
        class_tiers: &[ClassTier],
        modifiers: &Modifiers,
        item_state: &mut ItemState,
        affix_type: &str,
        count: i32,
    ) -> (r: bool)
        requires
            can_add_to(
                items@,
                class_tiers_view(class_tiers@),
                modifiers@,
                old(item_state)@,
                affix_type@,
                count,
            ),
        ensures
            !is_slot(affix_type@) ==> !r && final(item_state)@ == old(item_state)@,
            is_slot(affix_type@) ==> added_to(
                items@,
                class_tiers_view(class_tiers@),
                modifiers@,
                old(item_state)@,
                affix_type@,
                count,
                final(item_state)@,
                r,
            ),
    {
        let slot = affix_type.to_owned();
        let is_prefix = is_text(&slot, "prefix");
        if !is_prefix && !is_text(&slot, "suffix") {
            return false;
        }
        let matched_item = find_item(items, &item_state.base).unwrap();
        let max_affixes: u8 = if is_prefix {
            item_state.max_prefixes
        } else {
            item_state.max_suffixes
        };
        let ghost before = item_state@;
        let ghost tables = class_tiers_view(class_tiers@);
        let ghost candidates = possible_for_item(items@, tables, before, affix_type@);
        let ghost had = before.slot_list(affix_type@);
        let ghost mut states: Seq<ItemStateView> = seq![before];
        assert(item_state@ =~= before.with_slot_list(affix_type@, had));
        assert(had.take(had.len() as int) =~= had);
        let mut done: i32 = 0;
        while done < count
            invariant
                0 <= done,
                done <= count || (count < 0 && done == 0),
                is_prefix == (affix_type@ == "prefix"@),
                is_slot(affix_type@),
                before == old(item_state)@,
                tables == class_tiers_view(class_tiers@),
                candidates == possible_for_item(items@, tables, before, affix_type@),
                class_of_base(items@, before.base) == Some(matched_item.class@),
                had == before.slot_list(affix_type@),
                max_affixes == before.slot_max(affix_type@),
                count > 0 && had.len() < max_affixes ==> candidates_rollable(
                    modifiers@,
                    before.current_affixes(),
                    candidates,
                ),
                item_state@ == before.with_slot_list(affix_type@, item_state@.slot_list(affix_type@)),
                item_state@.slot_list(affix_type@).len() == had.len() + done,
                item_state@.slot_list(affix_type@).take(had.len() as int) == had,
                done > 0 ==> item_state@.slot_list(affix_type@).len() <= max_affixes,
                done > 0 ==> can_add_one(items@, tables, before, affix_type@) && may_choose(
                    modifiers@,
                    before.current_affixes(),
                    candidates,
                    item_state@.slot_list(affix_type@)[had.len() as int],
                ),
                states.len() == done + 1,
                states[0] == before,
                states.last() == item_state@,
                added_in_turn(items@, tables, modifiers@, affix_type@, states),
            decreases count - done,
        {
            let ghost now = item_state@;
            let ghost list = now.slot_list(affix_type@);
            let have: usize = if is_prefix {
                item_state.prefixes.len()
            } else {
                item_state.suffixes.len()
            };
            if have >= max_affixes as usize {
                return false;
            }
            let possible = self.get_possible_affixes(
                class_tiers,
                matched_item.class.as_str(),
                item_state.item_level,
                affix_type,
            );
            let current_affixes = current_affixes_of(item_state);
            proof {
                assert(now.prefixes.take(before.prefixes.len() as int) =~= before.prefixes);
                assert(now.suffixes.take(before.suffixes.len() as int) =~= before.suffixes);
                lemma_rollable_after_adding(modifiers@, candidates, before, now);
            }
            let chosen = self.choose_random_affix(
                modifiers.clone(),
                current_affixes.as_slice(),
                possible.as_slice(),
            );
            match chosen {
                Some(affix) => {
                    if is_prefix {
                        item_state.prefixes.push(affix);
                    } else {
                        item_state.suffixes.push(affix);
                    }
                    proof {
                        let longer = item_state@.slot_list(affix_type@);
                        assert(longer == list.push(affix));
                        assert(longer.take(had.len() as int) =~= list.take(had.len() as int));
                        assert(item_state@ =~= before.with_slot_list(affix_type@, longer));
                        assert(item_state@ =~= now.with_slot_list(affix_type@, list.push(affix)));
                        assert(adds(
                            items@,
                            tables,
                            modifiers@,
                            now,
                            affix_type@,
                            affix,
                            item_state@,
                        ));
                        if done == 0 {
                            assert(longer[had.len() as int] == affix);
                        } else {
                            assert(longer[had.len() as int] == list[had.len() as int]);
                        }
                        let earlier = states;
                        states = states.push(item_state@);
                        assert forall|i: int| 0 <= i < states.len() - 1 implies added_one(
                            items@,
                            tables,
                            modifiers@,
                            #[trigger] states[i],
                            affix_type@,
                            states[i + 1],
                        ) by {
                            if i < earlier.len() - 1 {
                                assert(states[i] == earlier[i]);
                                assert(states[i + 1] == earlier[i + 1]);
                            } else {
                                assert(states[i] == now);
                            }
                        }
                    }
                },
                None => {
                    return false;
                },
            }
            done += 1;
        }
        true
    }

    /// Adds a random affix as [`Crafter::add_random_affix`] does, unless
    /// the datasets keep the adding from being made; the item is left as
    /// it is then.
    fn try_add_random_affix(
        &self,
        items: &[Item],
        class_tiers: &[ClassTier],
        modifiers: &Modifiers,
        item_state: &mut ItemState,
        affix_type: &str,
        count: i32,
    ) -> (r: Result<bool, DatasetError>)
        ensures
            match r {
                Ok(added) => {
                    &&& adding_fault(
                        items@,
                        class_tiers_view(class_tiers@),
                        modifiers@,
                        old(item_state)@,
                        affix_type@,
                        count,
                    ) is None
                    &&& !is_slot(affix_type@) ==> !added && final(item_state)@ == old(
                        item_state,
                    )@
                    &&& is_slot(affix_type@) ==> added_to(
                        items@,
                        class_tiers_view(class_tiers@),
                        modifiers@,
                        old(item_state)@,
                        affix_type@,
                        count,
                        final(item_state)@,
                        added,
                    )
                },
                Err(error) => adding_fault(
                    items@,
                    class_tiers_view(class_tiers@),
                    modifiers@,
                    old(item_state)@,
                    affix_type@,
                    count,
                ) == Some(error) && final(item_state)@ == old(item_state)@,
            },
    {
        proof {
            lemma_slot_names();
        }
        let slot = affix_type.to_owned();
        let is_prefix = is_text(&slot, "prefix");
        if is_prefix || is_text(&slot, "suffix") {
            match find_item(items, &item_state.base) {
                None => {
                    return Err(DatasetError::UnknownBase);
                },
                Some(matched_item) => {
                    let have: usize = if is_prefix {
                        item_state.prefixes.len()
                    } else {
                        item_state.suffixes.len()
                    };
                    let max_affixes: u8 = if is_prefix {
                        item_state.max_prefixes
                    } else {
                        item_state.max_suffixes
                    };
                    if count > 0 && have < max_affixes as usize {
                        let current_affixes = current_affixes_of(item_state);
                        let possible = self.get_possible_affixes(
                            class_tiers,
                            matched_item.class.as_str(),
                            item_state.item_level,
                            affix_type,
                        );
                        match check_candidates(
                            modifiers,
                            current_affixes.as_slice(),
                            possible.as_slice(),
                        ) {
                            Err(error) => {
                                return Err(error);
                            },
                            Ok(_) => {},
                        }
                    }
                },
            }
        }
        Ok(self.add_random_affix(items, class_tiers, modifiers, item_state, affix_type, count))
    }

    /// Removes a random affix from `item_state`, `count` times over. The
    /// result is `false` for a slot that is neither `prefix` nor
    /// `suffix`, and as soon as a round finds the slot empty.
    fn remove_random_affix(&self, item_state: &mut ItemState, affix_type: &str, count: i32) -> (r:
        bool)
        ensures
            !is_slot(affix_type@) ==> !r && final(item_state)@ == old(item_state)@,
            is_slot(affix_type@) ==> removed_from(
                old(item_state)@,
                affix_type@,
                count,
                final(item_state)@,
                r,
            ),
    {
        let slot = affix_type.to_owned();
        let is_prefix = is_text(&slot, "prefix");
        if !is_prefix && !is_text(&slot, "suffix") {
            return false;
        }
        let ghost before = item_state@;
        let ghost had = before.slot_list(affix_type@);
        assert(item_state@ =~= before.with_slot_list(affix_type@, had));
        let mut done: i32 = 0;
        while done < count
            invariant
                0 <= done,
                done <= count || (count < 0 && done == 0),
                is_prefix == (affix_type@ == "prefix"@),
                is_slot(affix_type@),
                before == old(item_state)@,
                had == before.slot_list(affix_type@),
                item_state@ == before.with_slot_list(affix_type@, item_state@.slot_list(affix_type@)),
                item_state@.slot_list(affix_type@).len() == had.len() - done,
                item_state@.slot_list(affix_type@).to_multiset().subset_of(had.to_multiset()),
            decreases count - done,
        {
            let have: usize = if is_prefix {
                item_state.prefixes.len()
            } else {
                item_state.suffixes.len()
            };
            if have == 0 {
                return false;
            }
            let ghost list = item_state@.slot_list(affix_type@);
            let index = random_range(0, have as u64) as usize;
            proof {
                lemma_swap_remove_takes_one(list, index as int);
            }
            if is_prefix {
                item_state.prefixes.swap_remove(index);
            } else {
                item_state.suffixes.swap_remove(index);
            }
            assert(item_state@.slot_list(affix_type@) == list.update(
                index as int,
                list.last(),
            ).drop_last());
            assert(item_state@ =~= before.with_slot_list(
                affix_type@,
                item_state@.slot_list(affix_type@),
            ));
            done += 1;
        }
        true
    }

    /// Gets an affix ("prefix" or "suffix") from `outcome`, or the empty
    /// string where the outcome has no legal slot. A coin is flipped
    /// only where neither the item's state nor the outcome names a slot.
    fn get_outcome_affix(&self, outcome: &CraftOutcome, item_state: &ItemState) -> (r:
        &'static str)
        ensures
            r@ == outcome_slot(*outcome, item_state@, true) || r@ == outcome_slot(
                *outcome,
                item_state@,
                false,
            ),
            !slot_is_flipped(*outcome, item_state@) ==> r@ == outcome_slot(
                *outcome,
                item_state@,
                false,
            ),
            r@.len() == 0 <==> has_no_legal_slot(*outcome, item_state@),
            r@.len() != 0 ==> is_slot(r@),
    {
        proof {
            lemma_slot_names();
        }
        let heads = if is_slot_flipped(outcome, item_state) {
            coin_flip()
        } else {
            false
        };
        pick_outcome_affix(outcome, item_state, heads)
    }

    /// Gets a minimum `affix` value from `class_tiers` by `tier`: that of
    /// row `tier` of the first table of `affix`, and 0 where there is no
    /// such table or row.
    fn get_minimum_affix_value(&self, class_tiers: &[ClassTier], affix: String, tier: u8) -> (r:
        u16)
        requires
            table_anywhere(class_tiers_view(class_tiers@), affix@) matches Some(table) ==> (tier
                < table.addressable_rows() ==> table.tiers[tier as int].has_minimum()),
        ensures
            match table_anywhere(class_tiers_view(class_tiers@), affix@) {
                Some(table) => if tier < table.addressable_rows() {
                    table.tiers[tier as int].minimum_may_be(r)
                } else {
                    r == 0
                },
                None => r == 0,
            },
    {
        match find_table_anywhere(class_tiers, &affix) {
            Some(table) => match table.get_minimum_tier_value(tier) {
                Some(value) => value,
                None => 0,
            },
            None => 0,
        }
    }

    /// Gets the `affix` tier from `class_tiers` by `value`: the tier of
    /// `value` in the first table of `affix`, and 0 where there is no
    /// such table or tier.
    fn get_affix_tier(&self, class_tiers: &[ClassTier], affix: String, value: u16) -> (r: u8)
        requires
            table_anywhere(class_tiers_view(class_tiers@), affix@) matches Some(table)
                ==> table.has_minimums(),
        ensures
            match table_anywhere(class_tiers_view(class_tiers@), affix@) {
                Some(table) => table.value_tier_may_be(value, Some(r)) || (r == 0
                    && table.value_tier_may_be(value, None)),
                None => r == 0,
            },
    {
        match find_table_anywhere(class_tiers, &affix) {
            Some(table) => match table.get_value_tier(value) {
                Some(tier) => tier,
                None => 0,
            },
            None => 0,
        }
    }

    /// Gets the weight of an `affix` `tier` from `class_tiers`: that of
    /// row `tier` of the first table of `affix`, and 0 where there is no
    /// such table or row.
    fn get_affix_tier_weight(&self, class_tiers: &[ClassTier], affix: String, tier: u8) -> (r:
        u16)
        ensures
            r == match table_anywhere(class_tiers_view(class_tiers@), affix@) {
                Some(table) => match table.tier_weight(tier) {
                    Some(weight) => weight,
                    None => 0,
                },
                None => 0,
            },
    {
        match find_table_anywhere(class_tiers, &affix) {
            Some(table) => match table.get_tier_weight(tier) {
                Some(weight) => weight,
                None => 0,
            },
            None => 0,
        }
    }

    /// Determines if the `action` is a valid action given the current `item`.
    fn is_valid_crafting_action(&self, action: &CraftAction, item: &ItemState) -> (r: bool)
        ensures
            r == valid_crafting_action(action@, item@),
    {
        let can_add_prefix = action.only_adds_prefix() && !item.has_max_prefixes();
        let can_add_suffix = action.only_adds_suffix() && !item.has_max_suffixes();
        let can_remove_prefix = action.only_removes_prefix() && !item.has_no_prefixes();
        let can_remove_suffix = action.only_removes_suffix() && !item.has_no_suffixes();
        let can_add_affix = action.adds_affix() && !item.has_max_affixes();
        let can_remove_affix = action.removes_affix() && !item.has_no_affixes();
        let can_replace_affix = action.replaces_affix() && !item.has_no_affixes();
        let can_target_affix = (action.targets_affix() || action.targets_lowest_tier())
            && !item.has_no_affixes();
        let can_target_prefix = action.only_targets_prefix() && !item.has_no_prefixes()
            && !item.has_targeted_prefixes();
        let can_target_suffix = action.only_targets_suffix() && !item.has_no_suffixes()
            && !item.has_targeted_suffixes();
        let is_expected = action.targets_affix() || !item.has_next_action() || is_pending(
            item,
            &action.id,
        );
        let has_two_affixes = item.prefixes.len() >= 2 || item.suffixes.len() >= 2 || (
        item.prefixes.len() == 1 && item.suffixes.len() == 1);
        let can_apply_without_impacting_rarity = !(is_text(&action.id, "alteration")
            && has_two_affixes);
        let meets_rarity = match &action.rarity {
            Some(rarity) => *rarity == item.rarity,
            None => true,
        };
        meets_rarity && can_apply_without_impacting_rarity && is_expected && (can_add_prefix
            || can_add_suffix || can_remove_prefix || can_remove_suffix || can_add_affix
            || can_remove_affix || can_replace_affix || can_target_affix || can_target_prefix
            || can_target_suffix)
    }

    /// Resets an item's targets, if they have been used.
    fn reset_item_target_action(&self, item: &mut ItemState, action: &str)
        ensures
            final(item)@ == old(item)@.without_pending(action@),
    {
        if item.has_next_action() {
            item.clear_next_action(action.to_owned());
        }
    }
}

} // verus!
