use crate::crafting::affix_candidate::{slot_tables, table_candidates, tables_candidates};
use crate::crafting::choosing::{
    are_tiers_rollable, candidate_rollable, table_rollable, tiers_rollable,
};
use crate::crafting::crafter::Crafter;
use crate::crafting::dataset_error::DatasetError;
use crate::crafting::outcomes::{
    action_applied, add_round, add_rounds, add_step, begins_with, grown_by, lemma_action_names,
    lemma_begins_with_itself, outcome_applied, outcome_drawn, outcome_kept, outcome_weights,
    outcome_weights_of, remove_round, remove_rounds, remove_step, replaced_with, shrunk_by,
    stepped, with_next_rarity,
};
use crate::crafting::rarity::{lemma_rarity_names, lemma_rarity_never_regresses, rarity_rank};
use crate::crafting::recombiner::{
    Chance, Recombination, Recombiner, chance_denominator, chance_numerator, selected_base,
};
use crate::crafting::simulation::{
    BestResult, SimulationRun, blank_item, came_to_nothing, cheapest, dead_end, good_slots,
    legal_action_ids, lemma_cheapest_with, lemma_legal_ids_are_found, lemma_met_run_costs_less,
    lemma_met_run_is_outcome, lemma_reports, lemma_runs_made_with, run_met, run_outcome, run_trace,
    runs_made, sequence_cost, sequence_costs, state_after, undoing, valid_ids_of,
};
use crate::crafting::slots::{
    can_add_to, has_no_legal_slot, is_random_add, is_random_remove, lemma_slot_names, outcome_slot,
};
use crate::datasets::affix::AffixView;
use crate::datasets::affix_tier::{AffixTier, AffixTierView};
use crate::datasets::class::Class;
use crate::datasets::class_tier::{ClassTier, ClassTierView, tables_view};
use crate::datasets::class_tiers::{ClassTiers, class_flags, find_class, find_class_tier};
use crate::datasets::craft_action::{CraftAction, CraftActionView, clone_optional_text};
use crate::datasets::craft_actions::{CraftActions, action_flags, find_action, find_action_by_id};
use crate::datasets::craft_outcome::CraftOutcome;
use crate::datasets::item::Item;
use crate::datasets::items::{Items, class_of_base, find_item};
use crate::datasets::modifiers::{Modifiers, find_affix};
use crate::items::item_state::{ItemState, ItemStateView, lemma_good_among};
use crate::items::modifier::Modifier;
use crate::lookup::{first_true, lemma_first_true};
use crate::random::randomizer::{can_sample, random_choice, random_weighted_index, samplable};
use crate::text::{same_str, texts};
use vstd::prelude::*;
use vstd::string::StrSliceExecFns;

verus! {

/// Represents a collection of all datasets and crafting functionality.
#[derive(Debug, Default, PartialEq, Eq)]
pub struct Solver {
    pub modifiers: Modifiers,
    pub items: Items,
    pub craft_actions: CraftActions,
    pub class_tiers: ClassTiers,
}

/// What a [`Solver`] holds.
pub struct SolverView {
    pub modifiers: Seq<AffixView>,
    pub classes: Seq<Class>,
    pub items: Seq<Item>,
    pub craft_actions: Seq<CraftActionView>,
    pub class_tiers: Seq<ClassTierView>,
}

impl View for Solver {
    type V = SolverView;

    open spec fn view(&self) -> SolverView {
        SolverView {
            modifiers: self.modifiers@,
            classes: self.items.classes@,
            items: self.items.items@,
            craft_actions: self.craft_actions@,
            class_tiers: self.class_tiers@,
        }
    }
}

impl Crafter for Solver {

}

impl Recombiner for Solver {

}

/// Whether a modifier can be rolled from each of `tables`.
pub open spec fn tables_rollable(tables: Seq<AffixTierView>, catalog: Seq<AffixView>) -> bool {
    forall|i: int| 0 <= i < tables.len() ==> table_rollable(#[trigger] tables[i], catalog)
}

/// Whether the catalog has the affix of each of `tables`.
pub open spec fn tables_known(tables: Seq<AffixTierView>, catalog: Seq<AffixView>) -> bool {
    forall|i: int|
        0 <= i < tables.len() ==> find_affix(catalog, (#[trigger] tables[i]).affix) is Some
}

/// Whether a tier and its value can be drawn from each of `tables`.
pub open spec fn tables_usable(tables: Seq<AffixTierView>) -> bool {
    forall|i: int| 0 <= i < tables.len() ==> tiers_rollable(#[trigger] tables[i])
}

impl SolverView {
    /// Whether the modifiers have the affix of every table of every
    /// class.
    pub open spec fn affixes_known(self) -> bool {
        forall|c: int|
            0 <= c < self.class_tiers.len() ==> tables_known(
                (#[trigger] self.class_tiers[c]).prefixes,
                self.modifiers,
            ) && tables_known(self.class_tiers[c].suffixes, self.modifiers)
    }

    /// Whether a tier and its value can be drawn from every table of
    /// every class.
    pub open spec fn tiers_usable(self) -> bool {
        forall|c: int|
            0 <= c < self.class_tiers.len() ==> tables_usable(
                (#[trigger] self.class_tiers[c]).prefixes,
            ) && tables_usable(self.class_tiers[c].suffixes)
    }

    /// Whether a modifier can be rolled from every table of every class:
    /// the modifiers have its affix, and a tier and its value can be
    /// drawn from it.
    pub open spec fn tables_sound(self) -> bool {
        self.affixes_known() && self.tiers_usable()
    }

    /// Whether an outcome can be drawn for every action.
    pub open spec fn actions_drawable(self) -> bool {
        forall|a: int|
            0 <= a < self.craft_actions.len() ==> samplable(
                outcome_weights(#[trigger] self.craft_actions[a]),
            )
    }

    /// What is wrong with the datasets, if anything: an affix that the
    /// modifiers do not have comes first, then a table that cannot be
    /// drawn from, then an action without an outcome to draw.
    pub open spec fn fault(self) -> Option<DatasetError> {
        if !self.affixes_known() {
            Some(DatasetError::UnknownAffix)
        } else if !self.tiers_usable() {
            Some(DatasetError::UnusableTier)
        } else if !self.actions_drawable() {
            Some(DatasetError::NoOutcome)
        } else {
            None
        }
    }

    /// What keeps a simulation towards `target` from being run, if
    /// anything: what is wrong with the datasets, or else a base that the
    /// item table does not have.
    pub open spec fn simulation_fault(self, target: ItemStateView) -> Option<DatasetError> {
        match self.fault() {
            Some(error) => Some(error),
            None => if class_of_base(self.items, target.base) is None {
                Some(DatasetError::UnknownBase)
            } else {
                None
            },
        }
    }

    /// The class tier list of an item: the first that is for the class
    /// that the item table gives to the item's base.
    pub open spec fn class_of_item(self, item: ItemStateView) -> Option<ClassTierView> {
        match class_of_base(self.items, item.base) {
            Some(class) => find_class(self.class_tiers, class),
            None => None,
        }
    }

    /// What keeps the chances of a merge onto `base` from being worked
    /// out, if anything: a base that the item table does not have, a
    /// class without a tier list, or weights that do not fit.
    pub open spec fn merge_fault(self, base: ItemStateView) -> Option<DatasetError> {
        if class_of_base(self.items, base.base) is None {
            Some(DatasetError::UnknownBase)
        } else if self.class_of_item(base) is None {
            Some(DatasetError::UnknownClass)
        } else if self.class_of_item(base)->0.total_weight_for_item_level(base.item_level)
            > u32::MAX {
            Some(DatasetError::WeightOverflow)
        } else {
            None
        }
    }
}

/// Whether the catalog has the affix of each of `tables`.
pub fn are_tables_known(tables: &Vec<AffixTier>, catalog: &Modifiers) -> (r: bool)
    ensures
        r == tables_known(tables_view(tables@), catalog@),
{
    let mut i: usize = 0;
    while i < tables.len()
        invariant
            i <= tables.len(),
            forall|j: int|
                0 <= j < i ==> find_affix(catalog@, (#[trigger] tables_view(tables@)[j]).affix)
                    is Some,
        decreases tables.len() - i,
    {
        assert(tables_view(tables@)[i as int] == tables@[i as int]@);
        if catalog.find_affix_by_id(tables[i].affix.as_str()).is_none() {
            return false;
        }
        i += 1;
    }
    true
}

/// Whether a tier and its value can be drawn from each of `tables`.
pub fn are_tables_usable(tables: &Vec<AffixTier>) -> (r: bool)
    ensures
        r == tables_usable(tables_view(tables@)),
{
    let mut i: usize = 0;
    while i < tables.len()
        invariant
            i <= tables.len(),
            forall|j: int| 0 <= j < i ==> tiers_rollable(#[trigger] tables_view(tables@)[j]),
        decreases tables.len() - i,
    {
        assert(tables_view(tables@)[i as int] == tables@[i as int]@);
        if !are_tiers_rollable(&tables[i]) {
            return false;
        }
        i += 1;
    }
    true
}

/// Every candidate that a table gives is rolled from that table.
pub proof fn lemma_table_candidates_rollable(table: AffixTierView, catalog: Seq<AffixView>)
    requires
        table_rollable(table, catalog),
    ensures
        forall|k: int|
            0 <= k < table_candidates(table).len() ==> candidate_rollable(
                #[trigger] table_candidates(table)[k],
                catalog,
            ),
{
}

/// Where a modifier can be rolled from each table, one can be rolled
/// from each candidate that the tables give.
pub proof fn lemma_tables_candidates_rollable(
    tables: Seq<AffixTierView>,
    catalog: Seq<AffixView>,
    item_level: u8,
)
    requires
        tables_rollable(tables, catalog),
    ensures
        forall|k: int|
            0 <= k < tables_candidates(tables, item_level).len() ==> candidate_rollable(
                #[trigger] tables_candidates(tables, item_level)[k],
                catalog,
            ),
    decreases tables.len(),
{
    if tables.len() != 0 {
        let rest = tables.drop_last();
        assert forall|i: int| 0 <= i < rest.len() implies table_rollable(
            #[trigger] rest[i],
            catalog,
        ) by {
            assert(rest[i] == tables[i]);
        }
        lemma_tables_candidates_rollable(rest, catalog, item_level);
        assert(table_rollable(tables[tables.len() - 1], catalog));
        lemma_table_candidates_rollable(tables.last(), catalog);
        let before = tables_candidates(rest, item_level);
        let all = tables_candidates(tables, item_level);
        assert forall|k: int| 0 <= k < all.len() implies candidate_rollable(
            #[trigger] all[k],
            catalog,
        ) by {
            if k < before.len() {
                assert(all[k] == before[k]);
            } else {
                assert(all[k] == table_candidates(tables.last())[k - before.len()]);
            }
        }
    }
}

impl Solver {
    /// Whether the datasets hold together: a modifier can be rolled from
    /// every table of every class, and an outcome can be drawn for every
    /// action.
    pub open spec fn well_formed(&self) -> bool {
        self@.fault() is None
    }

    /// Whether the item table has the base called `base`.
    pub open spec fn knows_base(&self, base: Seq<char>) -> bool {
        class_of_base(self.items.items@, base) is Some
    }

    /// With tables that a modifier can be rolled from, an adding to an
    /// item of a known base cannot fail on the datasets.
    pub proof fn lemma_can_add(&self, item: ItemStateView, affix_type: Seq<char>, count: i32)
        requires
            self@.tables_sound(),
            self.knows_base(item.base),
        ensures
            can_add_to(
                self.items.items@,
                self.class_tiers@,
                self.modifiers@,
                item,
                affix_type,
                count,
            ),
    {
        let class_name = class_of_base(self.items.items@, item.base)->0;
        let flags = class_flags(self.class_tiers@, class_name);
        lemma_first_true(flags);
        match find_class(self.class_tiers@, class_name) {
            Some(class) => {
                let tables = slot_tables(class, affix_type);
                assert(self@.affixes_known() && self@.tiers_usable());
                assert(class == self@.class_tiers[first_true(flags)]);
                assert(tables_known(tables, self.modifiers@));
                assert(tables_usable(tables));
                assert forall|i: int| 0 <= i < tables.len() implies table_rollable(
                    #[trigger] tables[i],
                    self.modifiers@,
                ) by {
                    assert(find_affix(self.modifiers@, tables[i].affix) is Some);
                    assert(tiers_rollable(tables[i]));
                }
                lemma_tables_candidates_rollable(tables, self.modifiers@, item.item_level);
            },
            None => {},
        }
    }

    /// Updates [`ItemState::rarity`].
    pub fn update_item_rarity(&self, item_state: &mut ItemState, action_id: &str)
        ensures
            final(item_state)@ == with_next_rarity(old(item_state)@, action_id@),
            rarity_rank(final(item_state)@.rarity) >= rarity_rank(old(item_state)@.rarity),
    {
        proof {
            lemma_rarity_never_regresses(
                item_state@.rarity,
                item_state@.affix_count(),
                action_id@,
            );
        }
        let prefixes: usize = item_state.prefixes.len();
        let suffixes: usize = item_state.suffixes.len();
        let has_none = prefixes == 0 && suffixes == 0;
        let has_three = prefixes >= 3 || suffixes >= 3 || prefixes + suffixes >= 3;
        if !same_str(item_state.rarity.as_str(), "rare") {
            if has_none && !same_str(item_state.rarity.as_str(), "magic") {
                item_state.rarity = "normal".to_owned();
            } else if has_three || same_str(action_id, "regal") {
                item_state.rarity = "rare".to_owned();
            } else if !has_none {
                item_state.rarity = "magic".to_owned();
            }
        }
    }

    /// Applies a [`CraftOutcome`] to an [`ItemState`].
    pub fn apply_outcome_to_item(
        &self,
        action: &CraftAction,
        outcome: &CraftOutcome,
        item_state: &mut ItemState,
    )
        requires
            outcome.action@ == "add"@ || outcome.action@ == "replace"@ ==> self@.tables_sound()
                && self.knows_base(old(item_state)@.base),
        ensures
            outcome_applied(self@, action@, *outcome, old(item_state)@, final(item_state)@),
            outcome_kept(action@, *outcome, old(item_state)@, final(item_state)@),
    {
        proof {
            lemma_action_names();
            lemma_slot_names();
        }
        let ghost before = item_state@;
        let times: u8 = match outcome.count {
            Some(count) => count,
            None => 1,
        };
        if same_str(outcome.action.as_str(), "add") {
            proof {
                lemma_begins_with_itself(before.prefixes);
                lemma_begins_with_itself(before.suffixes);
            }
            let ghost mut states: Seq<ItemStateView> = seq![before];
            let mut done: u8 = 0;
            let mut stopped: bool = false;
            while done < times && !stopped
                invariant
                    done <= times,
                    times == outcome.times(),
                    self@.tables_sound(),
                    self.knows_base(before.base),
                    grown_by(before, item_state@, done as int),
                    states.len() == done + 1,
                    states[0] == before,
                    states.last() == item_state@,
                    forall|i: int|
                        0 <= i < states.len() - 1 ==> add_step(
                            self@,
                            *outcome,
                            #[trigger] states[i],
                            states[i + 1],
                        ),
                    stopped ==> has_no_legal_slot(*outcome, item_state@),
                decreases times - done + if stopped { 0int } else { 1int },
            {
                let outcome_affix = self.get_outcome_affix(outcome, item_state);
                if outcome_affix.unicode_len() == 0 {
                    stopped = true;
                } else {
                    let ghost mid = item_state@;
                    let ghost heads = outcome_affix@ == outcome_slot(*outcome, mid, true);
                    proof {
                        self.lemma_can_add(mid, outcome_affix@, 1);
                    }
                    let added = self.add_random_affix(
                        self.items.items.as_slice(),
                        self.class_tiers.class_tiers.as_slice(),
                        &self.modifiers,
                        item_state,
                        outcome_affix,
                        1,
                    );
                    let ghost grown = item_state@;
                    if added {
                        item_state.clear_affix_target(outcome_affix.to_owned());
                    }
                    done = done + 1;
                    proof {
                        let list = grown.slot_list(outcome_affix@);
                        let had = mid.slot_list(outcome_affix@);
                        assert(begins_with(list, had));
                        lemma_begins_with_itself(mid.prefixes);
                        lemma_begins_with_itself(mid.suffixes);
                        assert(begins_with(grown.prefixes, mid.prefixes));
                        assert(begins_with(grown.suffixes, mid.suffixes));
                        assert(grown.prefixes.take(before.prefixes.len() as int)
                            =~= mid.prefixes.take(before.prefixes.len() as int));
                        assert(grown.suffixes.take(before.suffixes.len() as int)
                            =~= mid.suffixes.take(before.suffixes.len() as int));
                        assert(add_round(self@, *outcome, mid, heads, grown, added, item_state@));
                        let earlier = states;
                        states = states.push(item_state@);
                        assert forall|i: int| 0 <= i < states.len() - 1 implies add_step(
                            self@,
                            *outcome,
                            #[trigger] states[i],
                            states[i + 1],
                        ) by {
                            if i < earlier.len() - 1 {
                                assert(states[i] == earlier[i]);
                                assert(states[i + 1] == earlier[i + 1]);
                            } else {
                                assert(states[i] == mid);
                            }
                        }
                    }
                }
            }
            assert(add_rounds(self@, *outcome, states));
        } else if same_str(outcome.action.as_str(), "remove") {
            let ghost mut states: Seq<ItemStateView> = seq![before];
            let mut done: u8 = 0;
            let mut stopped: bool = false;
            while done < times && !stopped
                invariant
                    done <= times,
                    times == outcome.times(),
                    shrunk_by(before, item_state@, done as int),
                    states.len() == done + 1,
                    states[0] == before,
                    states.last() == item_state@,
                    forall|i: int|
                        0 <= i < states.len() - 1 ==> remove_step(
                            *outcome,
                            #[trigger] states[i],
                            states[i + 1],
                        ),
                    stopped ==> has_no_legal_slot(*outcome, item_state@),
                decreases times - done + if stopped { 0int } else { 1int },
            {
                let outcome_affix = self.get_outcome_affix(outcome, item_state);
                if outcome_affix.unicode_len() == 0 {
                    stopped = true;
                } else {
                    let ghost mid = item_state@;
                    let ghost heads = outcome_affix@ == outcome_slot(*outcome, mid, true);
                    let removed = self.remove_random_affix(item_state, outcome_affix, 1);
                    let ghost shrunk = item_state@;
                    if removed {
                        item_state.clear_affix_target(outcome_affix.to_owned());
                    }
                    done = done + 1;
                    proof {
                        assert(shrunk.prefixes.to_multiset().subset_of(
                            mid.prefixes.to_multiset(),
                        ));
                        assert(shrunk.suffixes.to_multiset().subset_of(
                            mid.suffixes.to_multiset(),
                        ));
                        assert(remove_round(*outcome, mid, heads, shrunk, removed, item_state@));
                        let earlier = states;
                        states = states.push(item_state@);
                        assert forall|i: int| 0 <= i < states.len() - 1 implies remove_step(
                            *outcome,
                            #[trigger] states[i],
                            states[i + 1],
                        ) by {
                            if i < earlier.len() - 1 {
                                assert(states[i] == earlier[i]);
                                assert(states[i + 1] == earlier[i + 1]);
                            } else {
                                assert(states[i] == mid);
                            }
                        }
                    }
                }
            }
            assert(remove_rounds(*outcome, states));
        } else if same_str(outcome.action.as_str(), "replace") {
            let target_affix = self.get_outcome_affix(outcome, item_state);
            let ghost heads = target_affix@ == outcome_slot(*outcome, before, true);
            assert(!is_random_add(*outcome) && !is_random_remove(*outcome));
            let removed = self.remove_random_affix(item_state, target_affix, 1);
            let ghost taken = item_state@;
            proof {
                self.lemma_can_add(item_state@, target_affix@, 1);
            }
            let added = self.add_random_affix(
                self.items.items.as_slice(),
                self.class_tiers.class_tiers.as_slice(),
                &self.modifiers,
                item_state,
                target_affix,
                1,
            );
            let ghost put = item_state@;
            item_state.clear_affix_target(target_affix.to_owned());
            assert(replaced_with(
                self@,
                *outcome,
                before,
                heads,
                taken,
                removed,
                put,
                added,
                item_state@,
            ));
        } else if same_str(outcome.action.as_str(), "target") {
            if action.targets_lowest_tier() {
                item_state.target_lowest_tier();
            }
            if action.targets_affix() {
                item_state.target_affixes(outcome.affix.as_str());
            }
            item_state.set_next_action(clone_optional_text(&action.currency));
        }
    }

    /// Applies a crafting action to an item: one of its outcomes is drawn
    /// by the outcomes' weights and applied, and the rarity is brought up
    /// to date.
    pub fn apply_crafting_action(&self, item_state: &mut ItemState, action_id: &str)
        requires
            self.well_formed(),
            self.knows_base(old(item_state)@.base),
            find_action(self.craft_actions@, action_id@) is Some,
        ensures
            action_applied(self@, action_id@, old(item_state)@, final(item_state)@),
            stepped(old(item_state)@, final(item_state)@),
    {
        proof {
            lemma_first_true(action_flags(self.craft_actions@, action_id@));
            lemma_action_names();
        }
        let ghost before = item_state@;
        let action = find_action_by_id(&self.craft_actions.craft_actions, action_id).unwrap();
        proof {
            let first = first_true(action_flags(self.craft_actions@, action_id@));
            assert(self@.actions_drawable());
            assert(action@ == self@.craft_actions[first]);
        }
        let weights = outcome_weights_of(action);
        let drawn = random_weighted_index(&weights);
        let outcome = &action.outcomes[drawn];
        self.apply_outcome_to_item(action, outcome, item_state);
        let ghost mid = item_state@;
        assert(outcome_drawn(self@, action@, drawn as int, before, mid));
        self.update_item_rarity(item_state, action_id);
        proof {
            lemma_rarity_names();
        }
    }

    /// Gets a collection of "good" crafting action ids based on `crafted_item`
    /// and `target_state`.
    pub fn get_crafting_actions(&self, target_state: &ItemState, crafted_item: &ItemState) -> (r:
        Vec<String>)
        ensures
            texts(r@) == legal_action_ids(
                self.craft_actions@,
                crafted_item@,
                good_slots(crafted_item@, target_state@),
            ),
    {
        let good_modifiers = crafted_item.get_good_modifiers(target_state);
        proof {
            lemma_good_among(crafted_item@.prefixes, target_state@.prefixes);
            lemma_good_among(crafted_item@.suffixes, target_state@.suffixes);
        }
        if !good_modifiers.is_empty() {
            let mut kinds: Vec<String> = Vec::new();
            kinds.push("remove".to_owned());
            kinds.push("replace".to_owned());
            assert(texts(kinds@) =~= undoing());
            let slots = good_modifiers.slots();
            let kept = self.craft_actions.get_actions_except(kinds.as_slice(), slots.as_slice());
            valid_ids_of(self, &kept, crafted_item)
        } else {
            valid_ids_of(self, &self.craft_actions.craft_actions, crafted_item)
        }
    }

    /// Gets all tiers of modifiers for an `item_state`, using it's base class.
    pub fn get_class_tiers_for_item(&self, item_state: &ItemState) -> (r: Option<&ClassTier>)
        ensures
            match r {
                Some(class) => self@.class_of_item(item_state@) == Some(class@),
                None => self@.class_of_item(item_state@) is None,
            },
    {
        match find_item(self.items.items.as_slice(), &item_state.base) {
            Some(item) => find_class_tier(self.class_tiers.class_tiers.as_slice(), &item.class),
            None => None,
        }
    }
    /// Makes a solver of datasets that were loaded.
    pub fn from_datasets(
        modifiers: Modifiers,
        items: Items,
        craft_actions: CraftActions,
        class_tiers: ClassTiers,
    ) -> (r: Self)
        ensures
            r.modifiers == modifiers,
            r.items == items,
            r.craft_actions == craft_actions,
            r.class_tiers == class_tiers,
    {
        Solver { modifiers, items, craft_actions, class_tiers }
    }

    /// Whether the modifiers have the affix of every table of every
    /// class.
    pub fn are_affixes_known(&self) -> (r: bool)
        ensures
            r == self@.affixes_known(),
    {
        let mut c: usize = 0;
        while c < self.class_tiers.class_tiers.len()
            invariant
                c <= self.class_tiers.class_tiers.len(),
                forall|j: int|
                    0 <= j < c ==> tables_known(
                        (#[trigger] self@.class_tiers[j]).prefixes,
                        self@.modifiers,
                    ) && tables_known(self@.class_tiers[j].suffixes, self@.modifiers),
            decreases self.class_tiers.class_tiers.len() - c,
        {
            assert(self@.class_tiers[c as int] == self.class_tiers.class_tiers@[c as int]@);
            let class = &self.class_tiers.class_tiers[c];
            if !are_tables_known(&class.prefixes, &self.modifiers) || !are_tables_known(
                &class.suffixes,
                &self.modifiers,
            ) {
                return false;
            }
            c += 1;
        }
        true
    }

    /// Whether a tier and its value can be drawn from every table of
    /// every class.
    pub fn are_tiers_usable(&self) -> (r: bool)
        ensures
            r == self@.tiers_usable(),
    {
        let mut c: usize = 0;
        while c < self.class_tiers.class_tiers.len()
            invariant
                c <= self.class_tiers.class_tiers.len(),
                forall|j: int|
                    0 <= j < c ==> tables_usable((#[trigger] self@.class_tiers[j]).prefixes)
                        && tables_usable(self@.class_tiers[j].suffixes),
            decreases self.class_tiers.class_tiers.len() - c,
        {
            assert(self@.class_tiers[c as int] == self.class_tiers.class_tiers@[c as int]@);
            let class = &self.class_tiers.class_tiers[c];
            if !are_tables_usable(&class.prefixes) || !are_tables_usable(&class.suffixes) {
                return false;
            }
            c += 1;
        }
        true
    }

    /// Whether an outcome can be drawn for every action.
    pub fn are_actions_drawable(&self) -> (r: bool)
        ensures
            r == self@.actions_drawable(),
    {
        let mut a: usize = 0;
        while a < self.craft_actions.craft_actions.len()
            invariant
                a <= self.craft_actions.craft_actions.len(),
                forall|j: int|
                    0 <= j < a ==> samplable(outcome_weights(#[trigger] self@.craft_actions[j])),
            decreases self.craft_actions.craft_actions.len() - a,
        {
            assert(self@.craft_actions[a as int] == self.craft_actions.craft_actions@[a as int]@);
            let weights = outcome_weights_of(&self.craft_actions.craft_actions[a]);
            if !can_sample(&weights) {
                return false;
            }
            a += 1;
        }
        true
    }

    /// Looks for what is wrong with the datasets.
    pub fn validate(&self) -> (r: Result<(), DatasetError>)
        ensures
            r == match self@.fault() {
                Some(error) => Err::<(), DatasetError>(error),
                None => Ok(()),
            },
    {
        if !self.are_affixes_known() {
            Err(DatasetError::UnknownAffix)
        } else if !self.are_tiers_usable() {
            Err(DatasetError::UnusableTier)
        } else if !self.are_actions_drawable() {
            Err(DatasetError::NoOutcome)
        } else {
            Ok(())
        }
    }

    /// Whether the datasets hold together.
    pub fn is_well_formed(&self) -> (r: bool)
        ensures
            r == self.well_formed(),
    {
        self.validate().is_ok()
    }

    /// Whether the item table has the base called `base`.
    pub fn has_base(&self, base: &str) -> (r: bool)
        ensures
            r == self.knows_base(base@),
    {
        let name = base.to_owned();
        find_item(self.items.items.as_slice(), &name).is_some()
    }

    /// Makes one attempt at `target_state`, of at most `steps_per_run`
    /// actions. Each step picks one of the actions that are legal on the
    /// item and do not undo what meets the target already, applies it,
    /// and adds its cost; the attempt ends with the step after which the
    /// item meets the target. It comes to nothing where no action is
    /// left to pick or the steps run out.
    pub fn simulate_run(&self, target_state: &ItemState, steps_per_run: u32) -> (r: Option<
        SimulationRun,
    >)
        requires
            self.well_formed(),
            self.knows_base(target_state@.base),
        ensures
            r matches Some(run) ==> run.succeeded(self@, target_state@, steps_per_run),
            r is None ==> came_to_nothing(self@, target_state@, steps_per_run),
            steps_per_run == 0 ==> r is None,
            legal_action_ids(
                self.craft_actions@,
                blank_item(target_state@),
                good_slots(blank_item(target_state@), target_state@),
            ).len() == 0 ==> r is None,
    {
        let ghost actions = self.craft_actions@;
        let ghost target = target_state@;
        let mut crafted_item = ItemState::new(
            target_state.base.as_str(),
            "normal",
            target_state.item_level,
            Vec::new(),
            Vec::new(),
        );
        assert(crafted_item@ =~= blank_item(target));
        let mut current_cost: u64 = 0;
        let mut sequence: Vec<String> = Vec::new();
        let ghost mut befores: Seq<ItemStateView> = Seq::empty();
        let ghost mut afters: Seq<ItemStateView> = Seq::empty();
        let mut step: u32 = 0;
        assert(sequence_costs(actions, texts(sequence@)) =~= Seq::<int>::empty());
        while step < steps_per_run
            invariant
                step <= steps_per_run,
                self.well_formed(),
                actions == self.craft_actions@,
                target == target_state@,
                self.knows_base(target.base),
                crafted_item@.base == target.base,
                crafted_item@.well_formed(),
                sequence@.len() == step,
                current_cost == sequence_cost(actions, texts(sequence@)),
                current_cost <= step * 0xffff_ffff,
                forall|i: int|
                    0 <= i < sequence@.len() ==> find_action(
                        actions,
                        #[trigger] texts(sequence@)[i],
                    ) is Some,
                run_trace(self@, target, texts(sequence@), befores, afters),
                step == 0 ==> crafted_item@ == blank_item(target),
                step > 0 ==> !afters.last().meets_target(target) && crafted_item@
                    == afters.last().without_pending(texts(sequence@).last()),
            decreases steps_per_run - step,
        {
            proof {
                reveal(run_met);
                reveal(came_to_nothing);
            }
            let good_action_ids = self.get_crafting_actions(target_state, &crafted_item);
            let picked = random_choice(&good_action_ids);
            match picked {
                None => {
                    proof {
                        let ids = texts(sequence@);
                        assert(state_after(target, ids, afters) == crafted_item@);
                        assert(texts(good_action_ids@).len() == 0);
                        assert(dead_end(self@, target, steps_per_run, ids, afters));
                    }
                    return None;
                },
                Some(action_id) => {
                    let ghost before = crafted_item@;
                    let ghost ids = texts(sequence@);
                    proof {
                        lemma_legal_ids_are_found(actions, before, good_slots(before, target));
                        let i = choose|i: int|
                            0 <= i < good_action_ids.len() && (#[trigger] good_action_ids[i])@
                                == action_id@;
                        assert(texts(good_action_ids@)[i] == action_id@);
                    }
                    self.apply_crafting_action(&mut crafted_item, action_id.as_str());
                    let action = find_action_by_id(
                        &self.craft_actions.craft_actions,
                        action_id.as_str(),
                    ).unwrap();
                    assert(step * 0xffff_ffff + 0xffff_ffff <= 0xffff_ffff * 0xffff_ffff)
                        by (nonlinear_arith)
                        requires
                            step < 0xffff_ffff,
                    ;
                    current_cost = current_cost + action.cost as u64;
                    sequence.push(action_id.clone());
                    step = step + 1;
                    proof {
                        let after = crafted_item@;
                        let longer = texts(sequence@);
                        assert(longer =~= ids.push(action_id@));
                        assert(sequence_costs(actions, longer).drop_last() =~= sequence_costs(
                            actions,
                            ids,
                        ));
                        let old_befores = befores;
                        let old_afters = afters;
                        befores = befores.push(before);
                        afters = afters.push(after);
                        assert forall|i: int| 0 <= i < longer.len() implies legal_action_ids(
                            actions,
                            #[trigger] befores[i],
                            good_slots(befores[i], target),
                        ).contains(longer[i]) && action_applied(
                            self@,
                            longer[i],
                            befores[i],
                            afters[i],
                        ) by {
                            if i < ids.len() {
                                assert(befores[i] == old_befores[i]);
                                assert(afters[i] == old_afters[i]);
                                assert(longer[i] == ids[i]);
                            }
                        }
                        assert forall|i: int| 0 <= i < longer.len() - 1 implies !(
                        #[trigger] afters[i]).meets_target(target) && befores[i + 1]
                            == afters[i].without_pending(longer[i]) by {
                            assert(afters[i] == old_afters[i]);
                            assert(longer[i] == ids[i]);
                            if i < ids.len() - 1 {
                                assert(befores[i + 1] == old_befores[i + 1]);
                            } else {
                                assert(old_afters.last() == old_afters[i]);
                                assert(ids.last() == ids[i]);
                            }
                        }
                        if ids.len() > 0 {
                            assert(befores[0] == old_befores[0]);
                        }
                        assert(run_trace(self@, target, longer, befores, afters));
                        assert(afters.last() == after);
                        assert(longer.last() == action_id@);
                    }
                    if crafted_item.meets_target(target_state) {
                        return Some(
                            SimulationRun { cost: current_cost, sequence, item: crafted_item },
                        );
                    }
                    self.reset_item_target_action(&mut crafted_item, action_id.as_str());
                },
            }
        }
        proof {
            reveal(came_to_nothing);
            assert(dead_end(self@, target, steps_per_run, texts(sequence@), afters));
        }
        None
    }

    /// Simulates attaining the `target_state` over an amount of `runs`,
    /// one after the other, and reports the cheapest sequence among the
    /// runs that met the target.
    pub fn simulate(&self, target_state: &ItemState, runs: u32, steps_per_run: u32) -> (r:
        BestResult)
        requires
            self.well_formed(),
            self.knows_base(target_state@.base),
        ensures
            r.reports(self@, target_state@, runs, steps_per_run),
    {
        let mut best = BestResult::new();
        let ghost mut outcomes: Seq<Option<(u64, Seq<Seq<char>>)>> = Seq::empty();
        let mut run: u32 = 0;
        assert(texts(best.sequence@) =~= Seq::<Seq<char>>::empty());
        while run < runs
            invariant
                run <= runs,
                self.well_formed(),
                self.knows_base(target_state@.base),
                outcomes.len() == run,
                runs_made(self@, target_state@, steps_per_run, outcomes),
                (best.cost, texts(best.sequence@)) == cheapest(outcomes),
                run == 0 || steps_per_run == 0 ==> best.sequence@.len() == 0,
                best.sequence@.len() == 0 ==> best.cost == u64::MAX,
                best.sequence@.len() > 0 ==> run_outcome(
                    self@,
                    target_state@,
                    steps_per_run,
                    Some((best.cost, texts(best.sequence@))),
                ),
            decreases runs - run,
        {
            match self.simulate_run(target_state, steps_per_run) {
                Some(met) => {
                    proof {
                        let pair = (met.cost, texts(met.sequence@));
                        let outcome = Some(pair);
                        lemma_met_run_costs_less(
                            self@,
                            target_state@,
                            steps_per_run,
                            met.cost,
                            texts(met.sequence@),
                            met.item@,
                        );
                        assert(run_met(
                            self@,
                            target_state@,
                            steps_per_run,
                            met.cost,
                            texts(met.sequence@),
                            met.item@,
                        ));
                        lemma_met_run_is_outcome(
                            self@,
                            target_state@,
                            steps_per_run,
                            met.cost,
                            texts(met.sequence@),
                            met.item@,
                        );
                        lemma_runs_made_with(
                            self@,
                            target_state@,
                            steps_per_run,
                            outcomes,
                            outcome,
                        );
                        lemma_cheapest_with(outcomes, outcome);
                        outcomes = outcomes.push(outcome);
                    }
                    best.offer(met.cost, met.sequence);
                },
                None => {
                    proof {
                        lemma_runs_made_with(self@, target_state@, steps_per_run, outcomes, None);
                        lemma_cheapest_with(outcomes, None);
                        outcomes = outcomes.push(None);
                    }
                },
            }
            run = run + 1;
        }
        proof {
            lemma_reports(&best, self@, target_state@, runs, steps_per_run, outcomes);
        }
        best
    }

    /// Simulates attaining the `target_state` as [`Solver::simulate`]
    /// does, unless something keeps the simulation from being run.
    pub fn try_simulate(&self, target_state: &ItemState, runs: u32, steps_per_run: u32) -> (r:
        Result<BestResult, DatasetError>)
        ensures
            match r {
                Ok(best) => self@.simulation_fault(target_state@) is None && best.reports(
                    self@,
                    target_state@,
                    runs,
                    steps_per_run,
                ),
                Err(error) => self@.simulation_fault(target_state@) == Some(error),
            },
    {
        match self.validate() {
            Err(error) => Err(error),
            Ok(_) => {
                if !self.has_base(target_state.base.as_str()) {
                    Err(DatasetError::UnknownBase)
                } else {
                    Ok(self.simulate(target_state, runs, steps_per_run))
                }
            },
        }
    }

    /// Merges two items: selects the base, and gives for each selected
    /// modifier the chance that the merge keeps its tier at least, by the
    /// class tier list of the base and at the level of the base.
    pub fn recombine(
        &self,
        left_item: &ItemState,
        right_item: &ItemState,
        left_mods: Vec<Modifier>,
        right_mods: Vec<Modifier>,
    ) -> (r: Recombination)
        requires
            left_mods@.len() > 0,
            right_mods@.len() > 0,
            self@.merge_fault(
                selected_base(left_item@, right_item@, left_mods@, right_mods@),
            ) is None,
        ensures
            r.merges(self@, left_item@, right_item@, left_mods@, right_mods@),
    {
        let base_item = self.select_recombine_item(
            left_item,
            right_item,
            left_mods.as_slice(),
            right_mods.as_slice(),
        );
        self.merge_onto(base_item, left_mods, right_mods)
    }

    /// Merges two items as [`Solver::recombine`] does, unless something
    /// keeps the chances from being worked out.
    pub fn try_recombine(
        &self,
        left_item: &ItemState,
        right_item: &ItemState,
        left_mods: Vec<Modifier>,
        right_mods: Vec<Modifier>,
    ) -> (r: Result<Recombination, DatasetError>)
        requires
            left_mods@.len() > 0,
            right_mods@.len() > 0,
        ensures
            match r {
                Ok(merged) => self@.merge_fault(
                    selected_base(left_item@, right_item@, left_mods@, right_mods@),
                ) is None && merged.merges(
                    self@,
                    left_item@,
                    right_item@,
                    left_mods@,
                    right_mods@,
                ),
                Err(error) => self@.merge_fault(
                    selected_base(left_item@, right_item@, left_mods@, right_mods@),
                ) == Some(error),
            },
    {
        let base_item = self.select_recombine_item(
            left_item,
            right_item,
            left_mods.as_slice(),
            right_mods.as_slice(),
        );
        if !self.has_base(base_item.base.as_str()) {
            return Err(DatasetError::UnknownBase);
        }
        match self.get_class_tiers_for_item(&base_item) {
            None => Err(DatasetError::UnknownClass),
            Some(class) => {
                if class.checked_total_weight_for_item_level(base_item.item_level).is_none() {
                    Err(DatasetError::WeightOverflow)
                } else {
                    Ok(self.merge_onto(base_item, left_mods, right_mods))
                }
            },
        }
    }

    /// Works out the chances of the selected modifiers on a base that
    /// was selected.
    fn merge_onto(
        &self,
        base_item: ItemState,
        left_mods: Vec<Modifier>,
        right_mods: Vec<Modifier>,
    ) -> (r: Recombination)
        requires
            self@.merge_fault(base_item@) is None,
        ensures
            r.base_item@ == base_item@,
            r.chances@.len() == left_mods@.len() + right_mods@.len(),
            forall|i: int|
                0 <= i < r.chances@.len() ==> {
                    let class = self@.class_of_item(base_item@)->0;
                    let modifier = (left_mods@ + right_mods@)[i];
                    &&& (#[trigger] r.chances@[i]).numerator == chance_numerator(
                        class,
                        base_item@.item_level,
                        modifier.id@,
                        modifier.tier,
                    )
                    &&& r.chances@[i].denominator == chance_denominator(
                        class,
                        base_item@.item_level,
                        modifier.id@,
                        modifier.tier,
                    )
                },
    {
        let class_tiers = self.get_class_tiers_for_item(&base_item).unwrap();
        let mut all_mods = left_mods;
        let mut rest = right_mods;
        all_mods.append(&mut rest);
        let mut chances: Vec<Chance> = Vec::new();
        let mut i: usize = 0;
        while i < all_mods.len()
            invariant
                i <= all_mods.len(),
                chances@.len() == i,
                class_tiers@.total_weight_for_item_level(base_item@.item_level) <= u32::MAX,
                forall|j: int|
                    0 <= j < i ==> {
                        &&& (#[trigger] chances@[j]).numerator == chance_numerator(
                            class_tiers@,
                            base_item@.item_level,
                            all_mods@[j].id@,
                            all_mods@[j].tier,
                        )
                        &&& chances@[j].denominator == chance_denominator(
                            class_tiers@,
                            base_item@.item_level,
                            all_mods@[j].id@,
                            all_mods@[j].tier,
                        )
                    },
            decreases all_mods.len() - i,
        {
            let chance = self.get_modifier_recombine_chance(
                class_tiers,
                base_item.item_level,
                all_mods[i].id.as_str(),
                all_mods[i].tier,
            );
            chances.push(chance);
            i += 1;
        }
        Recombination { base_item, chances }
    }
}

} // verus!
