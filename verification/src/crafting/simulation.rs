//! The runs of a simulation: which actions a run may use, what a run
//! can go through, and the record of the cheapest sequence.

use crate::crafting::crafter::Crafter;
use crate::crafting::outcomes::action_applied;
use crate::crafting::solver::SolverView;
use crate::crafting::validity::valid_crafting_action;
use crate::datasets::craft_action::{CraftAction, CraftActionView};
use crate::datasets::craft_actions::{action_flags, actions_except, actions_view, find_action};
use crate::items::item_state::{ItemState, ItemStateView, any_good};
use crate::items::modifier::Modifier;
use crate::lookup::{lemma_first_true, sum_all};
use crate::text::texts;
use vstd::prelude::*;

verus! {

/// The slots in which `item` holds an affix that meets `target`:
/// `prefix`, then `suffix`.
pub open spec fn good_slots(item: ItemStateView, target: ItemStateView) -> Seq<Seq<char>> {
    let first = if any_good(item.prefixes, target.prefixes) {
        seq!["prefix"@]
    } else {
        Seq::<Seq<char>>::empty()
    };
    if any_good(item.suffixes, target.suffixes) {
        first.push("suffix"@)
    } else {
        first
    }
}

/// The kinds of outcome that undo progress.
pub open spec fn undoing() -> Seq<Seq<char>> {
    seq!["remove"@, "replace"@]
}

/// The ids of the actions of `list` that are legal on `item`, in order.
pub open spec fn valid_ids(list: Seq<CraftActionView>, item: ItemStateView) -> Seq<Seq<char>>
    decreases list.len(),
{
    if list.len() == 0 {
        Seq::<Seq<char>>::empty()
    } else if valid_crafting_action(list.last(), item) {
        valid_ids(list.drop_last(), item).push(list.last().id)
    } else {
        valid_ids(list.drop_last(), item)
    }
}

/// The ids of the actions that a run may use on `item`: those that are
/// legal, and, where slots hold affixes that meet the target already,
/// only those that do not remove or replace in such a slot.
pub open spec fn legal_action_ids(
    actions: Seq<CraftActionView>,
    item: ItemStateView,
    protected: Seq<Seq<char>>,
) -> Seq<Seq<char>> {
    if protected.len() > 0 {
        valid_ids(actions_except(actions, undoing(), protected), item)
    } else {
        valid_ids(actions, item)
    }
}

/// Every action that is left after some were excepted is one of the
/// list.
pub proof fn lemma_actions_except_are_actions(
    list: Seq<CraftActionView>,
    actions: Seq<Seq<char>>,
    affixes: Seq<Seq<char>>,
)
    ensures
        forall|k: int|
            0 <= k < actions_except(list, actions, affixes).len() ==> list.contains(
                #[trigger] actions_except(list, actions, affixes)[k],
            ),
    decreases list.len(),
{
    if list.len() != 0 {
        let rest = list.drop_last();
        lemma_actions_except_are_actions(rest, actions, affixes);
        let kept = actions_except(list, actions, affixes);
        assert forall|k: int| 0 <= k < kept.len() implies list.contains(#[trigger] kept[k]) by {
            let before = actions_except(rest, actions, affixes);
            if k < before.len() {
                assert(kept[k] == before[k]);
                let j = choose|j: int| 0 <= j < rest.len() && rest[j] == before[k];
                assert(list[j] == kept[k]);
            } else {
                assert(list[list.len() - 1] == kept[k]);
            }
        }
    }
}

/// Every id among the legal ones is the id of an action of the list.
pub proof fn lemma_valid_ids_are_ids(list: Seq<CraftActionView>, item: ItemStateView)
    ensures
        forall|k: int|
            0 <= k < valid_ids(list, item).len() ==> exists|j: int|
                0 <= j < list.len() && (#[trigger] list[j]).id == (#[trigger] valid_ids(
                    list,
                    item,
                )[k]),
    decreases list.len(),
{
    if list.len() != 0 {
        let rest = list.drop_last();
        lemma_valid_ids_are_ids(rest, item);
        let ids = valid_ids(list, item);
        let before = valid_ids(rest, item);
        assert forall|k: int| 0 <= k < ids.len() implies exists|j: int|
            0 <= j < list.len() && (#[trigger] list[j]).id == (#[trigger] ids[k]) by {
            if k < before.len() {
                assert(ids[k] == before[k]);
                let j = choose|j: int| 0 <= j < rest.len() && (#[trigger] rest[j]).id == before[k];
                assert(list[j].id == ids[k]);
            } else {
                assert(list[list.len() - 1].id == ids[k]);
            }
        }
    }
}

/// An id that an action of the list has is found in the list.
pub proof fn lemma_id_is_found(list: Seq<CraftActionView>, j: int)
    requires
        0 <= j < list.len(),
    ensures
        find_action(list, list[j].id) is Some,
{
    let flags = action_flags(list, list[j].id);
    lemma_first_true(flags);
    assert(flags[j]);
}

/// Every id that a run may use is found among the actions.
pub proof fn lemma_legal_ids_are_found(
    actions: Seq<CraftActionView>,
    item: ItemStateView,
    protected: Seq<Seq<char>>,
)
    ensures
        forall|k: int|
            0 <= k < legal_action_ids(actions, item, protected).len() ==> find_action(
                actions,
                #[trigger] legal_action_ids(actions, item, protected)[k],
            ) is Some,
{
    let ids = legal_action_ids(actions, item, protected);
    assert forall|k: int| 0 <= k < ids.len() implies find_action(actions, #[trigger] ids[k])
        is Some by {
        if protected.len() > 0 {
            let kept = actions_except(actions, undoing(), protected);
            lemma_valid_ids_are_ids(kept, item);
            lemma_actions_except_are_actions(actions, undoing(), protected);
            let j = choose|j: int| 0 <= j < kept.len() && (#[trigger] kept[j]).id == ids[k];
            assert(actions.contains(kept[j]));
            let i = choose|i: int| 0 <= i < actions.len() && actions[i] == kept[j];
            lemma_id_is_found(actions, i);
        } else {
            lemma_valid_ids_are_ids(actions, item);
            let j = choose|j: int| 0 <= j < actions.len() && (#[trigger] actions[j]).id == ids[k];
            lemma_id_is_found(actions, j);
        }
    }
}

/// The ids of the actions of `list` that are legal on `item`, in order.
pub fn valid_ids_of<C: Crafter>(crafter: &C, list: &Vec<CraftAction>, item: &ItemState) -> (r: Vec<
    String,
>)
    ensures
        texts(r@) == valid_ids(actions_view(list@), item@),
{
    let ghost all = actions_view(list@);
    let mut ids: Vec<String> = Vec::new();
    let mut i: usize = 0;
    while i < list.len()
        invariant
            i <= list.len(),
            all == actions_view(list@),
            texts(ids@) == valid_ids(all.take(i as int), item@),
        decreases list.len() - i,
    {
        proof {
            assert(all.take(i as int + 1).drop_last() =~= all.take(i as int));
            assert(all.take(i as int + 1).last() == list@[i as int]@);
        }
        if crafter.is_valid_crafting_action(&list[i], item) {
            let ghost before = texts(ids@);
            ids.push(list[i].id.clone());
            assert(texts(ids@) =~= before.push(list@[i as int]@.id));
        }
        i += 1;
    }
    assert(all.take(i as int) =~= all);
    ids
}

/// The cost of the action of `id`, and nothing where there is none.
pub open spec fn action_cost(actions: Seq<CraftActionView>, id: Seq<char>) -> int {
    match find_action(actions, id) {
        Some(action) => action.cost as int,
        None => 0,
    }
}

/// The cost of each action of a sequence, in order.
pub open spec fn sequence_costs(actions: Seq<CraftActionView>, ids: Seq<Seq<char>>) -> Seq<int> {
    ids.map_values(|id: Seq<char>| action_cost(actions, id))
}

/// The cost of a sequence of actions.
pub open spec fn sequence_cost(actions: Seq<CraftActionView>, ids: Seq<Seq<char>>) -> int {
    sum_all(sequence_costs(actions, ids))
}

/// The item that every run starts from: a normal one of the target's
/// base and level, without affixes.
pub open spec fn blank_item(target: ItemStateView) -> ItemStateView {
    ItemStateView {
        base: target.base,
        rarity: "normal"@,
        max_prefixes: 3,
        max_suffixes: 3,
        item_level: target.item_level,
        prefixes: Seq::<Modifier>::empty(),
        suffixes: Seq::<Modifier>::empty(),
        prefixes_targeted: false,
        suffixes_targeted: false,
        lowest_tier_targeted: false,
        next_actions: None,
    }
}

/// Whether a run can go through `befores` and `afters` with the actions
/// of `ids`: it starts from the blank item; each action is legal on the
/// state before it and makes the state after it; and after each action
/// but the last the target is not met yet, and the action is taken from
/// the pending ones.
pub open spec fn run_trace(
    data: SolverView,
    target: ItemStateView,
    ids: Seq<Seq<char>>,
    befores: Seq<ItemStateView>,
    afters: Seq<ItemStateView>,
) -> bool {
    &&& befores.len() == ids.len()
    &&& afters.len() == ids.len()
    &&& ids.len() > 0 ==> befores[0] == blank_item(target)
    &&& forall|i: int|
        0 <= i < ids.len() ==> legal_action_ids(
            data.craft_actions,
            #[trigger] befores[i],
            good_slots(befores[i], target),
        ).contains(ids[i]) && action_applied(data, ids[i], befores[i], afters[i])
    &&& forall|i: int|
        0 <= i < ids.len() - 1 ==> !(#[trigger] afters[i]).meets_target(target) && befores[i + 1]
            == afters[i].without_pending(ids[i])
}

/// Whether `item` can come of a run with the actions of `ids`.
pub open spec fn reached_by(
    data: SolverView,
    target: ItemStateView,
    ids: Seq<Seq<char>>,
    item: ItemStateView,
) -> bool {
    exists|befores: Seq<ItemStateView>, afters: Seq<ItemStateView>|
        #[trigger] run_trace(data, target, ids, befores, afters) && afters.len() > 0
            && afters.last() == item
}

/// The state that a run is in after the steps of a trace: the blank item
/// before any step, and else what the last step made, with the action of
/// that step taken from the pending ones.
pub open spec fn state_after(
    target: ItemStateView,
    ids: Seq<Seq<char>>,
    afters: Seq<ItemStateView>,
) -> ItemStateView {
    if ids.len() == 0 {
        blank_item(target)
    } else {
        afters.last().without_pending(ids.last())
    }
}

/// Whether a run that went through a trace ends there without a result:
/// it made no more steps than it may, its last step did not meet the
/// target either, and its steps have run out or no action is left for it
/// to use.
pub open spec fn dead_end(
    data: SolverView,
    target: ItemStateView,
    steps_per_run: u32,
    ids: Seq<Seq<char>>,
    afters: Seq<ItemStateView>,
) -> bool {
    &&& ids.len() <= steps_per_run
    &&& ids.len() > 0 ==> !afters.last().meets_target(target)
    &&& ids.len() == steps_per_run || legal_action_ids(
        data.craft_actions,
        state_after(target, ids, afters),
        good_slots(state_after(target, ids, afters), target),
    ).len() == 0
}

/// Whether a run towards `target` can come to nothing: it can go through
/// steps of which none meets the target, until its steps have run out or
/// no action is left for it to use.
#[verifier::opaque]
pub open spec fn came_to_nothing(
    data: SolverView,
    target: ItemStateView,
    steps_per_run: u32,
) -> bool {
    exists|ids: Seq<Seq<char>>, befores: Seq<ItemStateView>, afters: Seq<ItemStateView>|
        #[trigger] run_trace(data, target, ids, befores, afters) && dead_end(
            data,
            target,
            steps_per_run,
            ids,
            afters,
        )
}

/// Whether a run can meet `target` in at most `steps_per_run` steps with
/// the actions of `ids`, at `cost`, and make `item`: the sequence is that
/// long at most and not empty, each id in it is that of an action, the
/// cost is that of the sequence, and the item comes of the sequence, with
/// its last step the first to meet the target.
#[verifier::opaque]
pub open spec fn run_met(
    data: SolverView,
    target: ItemStateView,
    steps_per_run: u32,
    cost: u64,
    ids: Seq<Seq<char>>,
    item: ItemStateView,
) -> bool {
    &&& 1 <= ids.len() <= steps_per_run
    &&& forall|i: int| 0 <= i < ids.len() ==> find_action(data.craft_actions, #[trigger] ids[i])
        is Some
    &&& cost == sequence_cost(data.craft_actions, ids)
    &&& cost <= ids.len() * 0xffff_ffff
    &&& reached_by(data, target, ids, item)
    &&& item.meets_target(target)
    &&& item.well_formed()
}

/// Whether a run towards `target` can end as `outcome` says: with a cost
/// and a sequence that met the target, or with nothing.
pub open spec fn run_outcome(
    data: SolverView,
    target: ItemStateView,
    steps_per_run: u32,
    outcome: Option<(u64, Seq<Seq<char>>)>,
) -> bool {
    match outcome {
        Some(met) => exists|item: ItemStateView|
            #[trigger] run_met(data, target, steps_per_run, met.0, met.1, item),
        None => came_to_nothing(data, target, steps_per_run),
    }
}

/// Whether `outcomes` can be those of as many runs towards `target`, in
/// the order in which the runs were made.
pub open spec fn runs_made(
    data: SolverView,
    target: ItemStateView,
    steps_per_run: u32,
    outcomes: Seq<Option<(u64, Seq<Seq<char>>)>>,
) -> bool {
    forall|i: int|
        0 <= i < outcomes.len() ==> run_outcome(data, target, steps_per_run, #[trigger] outcomes[i])
}

/// The cheapest of the runs that met their target, and the first among
/// those that cost the same: its cost and its sequence. Where no run met
/// the target, the cost is the highest there is and the sequence is
/// empty.
pub open spec fn cheapest(outcomes: Seq<Option<(u64, Seq<Seq<char>>)>>) -> (u64, Seq<Seq<char>>)
    decreases outcomes.len(),
{
    if outcomes.len() == 0 {
        (u64::MAX, Seq::<Seq<char>>::empty())
    } else {
        let before = cheapest(outcomes.drop_last());
        match outcomes.last() {
            Some(met) => if met.0 < before.0 {
                met
            } else {
                before
            },
            None => before,
        }
    }
}

/// The cheapest of some runs and one more is that one where it met the
/// target at a lower cost, and the cheapest of the others where it did
/// not.
pub proof fn lemma_cheapest_with(
    outcomes: Seq<Option<(u64, Seq<Seq<char>>)>>,
    outcome: Option<(u64, Seq<Seq<char>>)>,
)
    ensures
        cheapest(outcomes.push(outcome)) == match outcome {
            Some(met) => if met.0 < cheapest(outcomes).0 {
                met
            } else {
                cheapest(outcomes)
            },
            None => cheapest(outcomes),
        },
{
    assert(outcomes.push(outcome).drop_last() =~= outcomes);
}

/// Runs that were made, and one more that was, are runs that were made.
pub proof fn lemma_runs_made_with(
    data: SolverView,
    target: ItemStateView,
    steps_per_run: u32,
    outcomes: Seq<Option<(u64, Seq<Seq<char>>)>>,
    outcome: Option<(u64, Seq<Seq<char>>)>,
)
    requires
        runs_made(data, target, steps_per_run, outcomes),
        run_outcome(data, target, steps_per_run, outcome),
    ensures
        runs_made(data, target, steps_per_run, outcomes.push(outcome)),
{
    let longer = outcomes.push(outcome);
    assert forall|i: int| 0 <= i < longer.len() implies run_outcome(
        data,
        target,
        steps_per_run,
        #[trigger] longer[i],
    ) by {
        if i < outcomes.len() {
            assert(longer[i] == outcomes[i]);
        }
    }
}

/// A run that met its target is a run that can end so.
pub proof fn lemma_met_run_is_outcome(
    data: SolverView,
    target: ItemStateView,
    steps_per_run: u32,
    cost: u64,
    ids: Seq<Seq<char>>,
    item: ItemStateView,
)
    requires
        run_met(data, target, steps_per_run, cost, ids, item),
    ensures
        run_outcome(data, target, steps_per_run, Some((cost, ids))),
{
    let pair = (cost, ids);
    let outcome = Some(pair);
    assert(outcome->0 == pair);
    assert(run_met(data, target, steps_per_run, pair.0, pair.1, item));
}

/// A run that met its target cost less than the highest cost there is,
/// and its sequence is not empty.
pub proof fn lemma_met_run_costs_less(
    data: SolverView,
    target: ItemStateView,
    steps_per_run: u32,
    cost: u64,
    ids: Seq<Seq<char>>,
    item: ItemStateView,
)
    requires
        run_met(data, target, steps_per_run, cost, ids, item),
    ensures
        cost < u64::MAX,
        ids.len() > 0,
{
    reveal(run_met);
    assert(cost < u64::MAX) by (nonlinear_arith)
        requires
            cost <= ids.len() * 0xffff_ffff,
            ids.len() <= 0xffff_ffff,
    ;
}

/// A run that met its target.
#[derive(Debug, PartialEq, Eq)]
pub struct SimulationRun {
    /// What the actions of the run cost together.
    pub cost: u64,
    /// The ids of the actions of the run, in order.
    pub sequence: Vec<String>,
    /// The item that the run made.
    pub item: ItemState,
}

impl SimulationRun {
    /// Whether the run is one that can meet `target` in at most
    /// `steps_per_run` steps, with its sequence, at its cost, and make
    /// its item.
    pub open spec fn succeeded(
        &self,
        data: SolverView,
        target: ItemStateView,
        steps_per_run: u32,
    ) -> bool {
        run_met(data, target, steps_per_run, self.cost, texts(self.sequence@), self.item@)
    }
}

/// The cheapest sequence that was found so far. Before one is found the
/// sequence is empty and the cost is the highest there is.
#[derive(Debug, PartialEq, Eq)]
pub struct BestResult {
    pub cost: u64,
    pub sequence: Vec<String>,
}

impl BestResult {
    /// Whether the record can be that of a simulation towards `target`
    /// with `runs` runs of at most `steps_per_run` steps: it holds the
    /// cheapest of as many runs as were asked for. So there is no
    /// sequence where there was no run or no step. A sequence that was
    /// found is at most as long as a run, each id in it is that of an
    /// action, the cost is that of the sequence, and a run with these
    /// actions can make an item that meets the target.
    pub open spec fn reports(
        &self,
        data: SolverView,
        target: ItemStateView,
        runs: u32,
        steps_per_run: u32,
    ) -> bool {
        &&& exists|outcomes: Seq<Option<(u64, Seq<Seq<char>>)>>|
            outcomes.len() == runs && #[trigger] runs_made(data, target, steps_per_run, outcomes)
                && (self.cost, texts(self.sequence@)) == cheapest(outcomes)
        &&& runs == 0 || steps_per_run == 0 ==> self.sequence@.len() == 0
        &&& self.sequence@.len() == 0 ==> self.cost == u64::MAX
        &&& self.sequence@.len() > 0 ==> {
            &&& self.sequence@.len() <= steps_per_run
            &&& self.cost == sequence_cost(data.craft_actions, texts(self.sequence@))
            &&& forall|i: int|
                0 <= i < self.sequence@.len() ==> find_action(
                    data.craft_actions,
                    #[trigger] texts(self.sequence@)[i],
                ) is Some
            &&& exists|item: ItemStateView|
                item.meets_target(target) && #[trigger] reached_by(
                    data,
                    target,
                    texts(self.sequence@),
                    item,
                )
        }
    }

    /// The record before any sequence was found.
    pub fn new() -> (r: Self)
        ensures
            r.cost == u64::MAX,
            r.sequence@.len() == 0,
    {
        BestResult { cost: u64::MAX, sequence: Vec::new() }
    }

    /// Whether a sequence was found.
    pub fn found(&self) -> (r: bool)
        ensures
            r == (self.sequence@.len() > 0),
    {
        self.sequence.len() > 0
    }

    /// Holds a sequence against the record, and keeps it where it is
    /// cheaper than what the record has.
    pub fn offer(&mut self, cost: u64, sequence: Vec<String>) -> (kept: bool)
        ensures
            kept == (cost < old(self).cost),
            kept ==> final(self).cost == cost && final(self).sequence == sequence,
            !kept ==> *final(self) == *old(self),
    {
        if cost < self.cost {
            self.cost = cost;
            self.sequence = sequence;
            true
        } else {
            false
        }
    }
}

/// A record that holds the cheapest of the runs that were made is the
/// record of a simulation with these runs.
pub proof fn lemma_reports(
    best: &BestResult,
    data: SolverView,
    target: ItemStateView,
    runs: u32,
    steps_per_run: u32,
    outcomes: Seq<Option<(u64, Seq<Seq<char>>)>>,
)
    requires
        outcomes.len() == runs,
        runs_made(data, target, steps_per_run, outcomes),
        (best.cost, texts(best.sequence@)) == cheapest(outcomes),
        runs == 0 || steps_per_run == 0 ==> best.sequence@.len() == 0,
        best.sequence@.len() == 0 ==> best.cost == u64::MAX,
        best.sequence@.len() > 0 ==> run_outcome(
            data,
            target,
            steps_per_run,
            Some((best.cost, texts(best.sequence@))),
        ),
    ensures
        best.reports(data, target, runs, steps_per_run),
{
    reveal(run_met);
    if best.sequence@.len() > 0 {
        let item = choose|item: ItemStateView|
            #[trigger] run_met(
                data,
                target,
                steps_per_run,
                best.cost,
                texts(best.sequence@),
                item,
            );
        assert(item.meets_target(target) && reached_by(
            data,
            target,
            texts(best.sequence@),
            item,
        ));
    }
}

} // verus!
