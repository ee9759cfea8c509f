//! What the outcomes of a crafting action can make of an item.

use crate::crafting::rarity::{next_rarity, rarity_rank};
use crate::crafting::slots::{
    added_to, can_add_one, has_no_legal_slot, lemma_slot_names, outcome_slot, removed_from,
};
use crate::crafting::solver::SolverView;
use crate::datasets::craft_action::{CraftAction, CraftActionView};
use crate::datasets::craft_actions::find_action;
use crate::datasets::craft_outcome::CraftOutcome;
use crate::items::item_state::ItemStateView;
use crate::items::modifier::Modifier;
use vstd::prelude::*;

verus! {

/// The names of the four kinds of outcome differ.
pub proof fn lemma_action_names()
    ensures
        "add"@ != "remove"@,
        "add"@ != "replace"@,
        "add"@ != "target"@,
        "remove"@ != "replace"@,
        "remove"@ != "target"@,
        "replace"@ != "target"@,
{
    reveal_strlit("add");
    reveal_strlit("remove");
    reveal_strlit("replace");
    reveal_strlit("target");
    assert("add"@[0] == 'a');
    assert("remove"@[0] == 'r');
    assert("remove"@[2] == 'm');
    assert("replace"@[0] == 'r');
    assert("replace"@[2] == 'p');
    assert("target"@[0] == 't');
}

/// What no outcome changes but a targeting: the base, the level, the
/// room of the slots, the rarity, the target on the lowest tier and the
/// pending actions stay, a target on a slot may be cleared and is never
/// set, and a state that was well formed is so still.
pub open spec fn framed(before: ItemStateView, after: ItemStateView) -> bool {
    &&& after.base == before.base
    &&& after.item_level == before.item_level
    &&& after.max_prefixes == before.max_prefixes
    &&& after.max_suffixes == before.max_suffixes
    &&& after.rarity == before.rarity
    &&& after.lowest_tier_targeted == before.lowest_tier_targeted
    &&& after.next_actions == before.next_actions
    &&& after.prefixes_targeted ==> before.prefixes_targeted
    &&& after.suffixes_targeted ==> before.suffixes_targeted
    &&& before.well_formed() ==> after.well_formed()
}

/// Whether `longer` begins with `shorter`.
pub open spec fn begins_with(longer: Seq<Modifier>, shorter: Seq<Modifier>) -> bool {
    shorter.len() <= longer.len() && longer.take(shorter.len() as int) == shorter
}

/// Every list begins with itself.
pub proof fn lemma_begins_with_itself(list: Seq<Modifier>)
    ensures
        begins_with(list, list),
{
    assert(list.take(list.len() as int) =~= list);
}

/// Whether `after` is `before` with at most `n` affixes added at the
/// ends of its lists.
pub open spec fn grown_by(before: ItemStateView, after: ItemStateView, n: int) -> bool {
    &&& framed(before, after)
    &&& begins_with(after.prefixes, before.prefixes)
    &&& begins_with(after.suffixes, before.suffixes)
    &&& after.affix_count() - before.affix_count() <= n
}

/// Whether `after` is `before` with at most `n` affixes taken from its
/// lists.
pub open spec fn shrunk_by(before: ItemStateView, after: ItemStateView, n: int) -> bool {
    &&& framed(before, after)
    &&& after.prefixes.to_multiset().subset_of(before.prefixes.to_multiset())
    &&& after.suffixes.to_multiset().subset_of(before.suffixes.to_multiset())
    &&& after.prefixes.len() <= before.prefixes.len()
    &&& after.suffixes.len() <= before.suffixes.len()
    &&& before.affix_count() - after.affix_count() <= n
}

/// Whether a list can come of another by taking one entry out, where
/// there is one, and putting at most one in.
pub open spec fn swapped(had: Seq<Modifier>, have: Seq<Modifier>) -> bool {
    had.len() - 1 <= have.len() && (have.len() <= had.len() || have.len() <= 1)
}

/// Whether `after` is `before` with an affix of one slot replaced.
pub open spec fn swapped_in(before: ItemStateView, after: ItemStateView) -> bool {
    &&& framed(before, after)
    &&& (after.prefixes == before.prefixes && swapped(before.suffixes, after.suffixes)) || (
    after.suffixes == before.suffixes && swapped(before.prefixes, after.prefixes))
}

/// The state after a targeting outcome of an action: the lowest tier is
/// targeted where the action targets nothing else, the outcome's slot
/// where the action only targets, and the action's currency is pending.
pub open spec fn target_set(
    action: CraftActionView,
    outcome: CraftOutcome,
    before: ItemStateView,
) -> ItemStateView {
    let lowest = if action.targets_lowest_tier() {
        ItemStateView { lowest_tier_targeted: true, ..before }
    } else {
        before
    };
    let aimed = if action.targets_affix() {
        lowest.targeted(outcome.affix@)
    } else {
        lowest
    };
    aimed.with_pending(action.currency)
}

/// What an outcome of an action keeps of `before` in `after`: an adding
/// only lengthens the lists, by as many as it counts at most; a removing
/// only takes from them, as many as it counts at most; a replacing swaps
/// in one slot; a targeting gives the state that it sets; and any other
/// kind changes nothing.
pub open spec fn outcome_kept(
    action: CraftActionView,
    outcome: CraftOutcome,
    before: ItemStateView,
    after: ItemStateView,
) -> bool {
    if outcome.action@ == "add"@ {
        grown_by(before, after, outcome.times() as int)
    } else if outcome.action@ == "remove"@ {
        shrunk_by(before, after, outcome.times() as int)
    } else if outcome.action@ == "replace"@ {
        swapped_in(before, after)
    } else if outcome.action@ == "target"@ {
        after == target_set(action, outcome, before)
    } else {
        after == before
    }
}

/// Whether `after` can come of `before` by one round of an adding
/// outcome, with `heads` for the coin: the outcome has a slot, the adding
/// of one affix to it makes `mid` and gives `added`, and where it
/// succeeded the target on the slot is cleared.
pub open spec fn add_round(
    data: SolverView,
    outcome: CraftOutcome,
    before: ItemStateView,
    heads: bool,
    mid: ItemStateView,
    added: bool,
    after: ItemStateView,
) -> bool {
    let slot = outcome_slot(outcome, before, heads);
    &&& slot.len() > 0
    &&& added_to(data.items, data.class_tiers, data.modifiers, before, slot, 1, mid, added)
    &&& after == if added {
        mid.cleared(slot)
    } else {
        mid
    }
}

/// Whether `after` can come of `before` by one round of a removing
/// outcome, with `heads` for the coin: the outcome has a slot, the
/// removing of one affix from it makes `mid` and gives `removed`, and
/// where it succeeded the target on the slot is cleared.
pub open spec fn remove_round(
    outcome: CraftOutcome,
    before: ItemStateView,
    heads: bool,
    mid: ItemStateView,
    removed: bool,
    after: ItemStateView,
) -> bool {
    let slot = outcome_slot(outcome, before, heads);
    &&& slot.len() > 0
    &&& removed_from(before, slot, 1, mid, removed)
    &&& after == if removed {
        mid.cleared(slot)
    } else {
        mid
    }
}

/// Whether `after` can come of `before` by one round of an adding
/// outcome.
pub open spec fn add_step(
    data: SolverView,
    outcome: CraftOutcome,
    before: ItemStateView,
    after: ItemStateView,
) -> bool {
    exists|heads: bool, mid: ItemStateView, added: bool|
        #[trigger] add_round(data, outcome, before, heads, mid, added, after)
}

/// Whether `after` can come of `before` by one round of a removing
/// outcome.
pub open spec fn remove_step(
    outcome: CraftOutcome,
    before: ItemStateView,
    after: ItemStateView,
) -> bool {
    exists|heads: bool, mid: ItemStateView, removed: bool|
        #[trigger] remove_round(outcome, before, heads, mid, removed, after)
}

/// Whether an adding outcome can go through `states`, one round from
/// each to the next: there are as many rounds as the outcome counts, or
/// fewer where the last state leaves the outcome no legal slot.
pub open spec fn add_rounds(
    data: SolverView,
    outcome: CraftOutcome,
    states: Seq<ItemStateView>,
) -> bool {
    &&& 1 <= states.len() <= outcome.times() + 1
    &&& forall|i: int|
        0 <= i < states.len() - 1 ==> add_step(data, outcome, #[trigger] states[i], states[i + 1])
    &&& states.len() <= outcome.times() ==> has_no_legal_slot(outcome, states.last())
}

/// Whether a removing outcome can go through `states`, one round from
/// each to the next: there are as many rounds as the outcome counts, or
/// fewer where the last state leaves the outcome no legal slot.
pub open spec fn remove_rounds(outcome: CraftOutcome, states: Seq<ItemStateView>) -> bool {
    &&& 1 <= states.len() <= outcome.times() + 1
    &&& forall|i: int|
        0 <= i < states.len() - 1 ==> remove_step(outcome, #[trigger] states[i], states[i + 1])
    &&& states.len() <= outcome.times() ==> has_no_legal_slot(outcome, states.last())
}

/// Whether `after` can come of `before` by a replacing outcome, with
/// `heads` for the coin: one affix is removed from the outcome's slot,
/// which makes `taken`, one is added to the slot, which makes `put`, and
/// the target on the slot is cleared.
pub open spec fn replaced_with(
    data: SolverView,
    outcome: CraftOutcome,
    before: ItemStateView,
    heads: bool,
    taken: ItemStateView,
    removed: bool,
    put: ItemStateView,
    added: bool,
    after: ItemStateView,
) -> bool {
    let slot = outcome_slot(outcome, before, heads);
    &&& removed_from(before, slot, 1, taken, removed)
    &&& added_to(data.items, data.class_tiers, data.modifiers, taken, slot, 1, put, added)
    &&& after == put.cleared(slot)
}

/// Whether `after` can come of `before` by an outcome of an action. An
/// adding and a removing go round by round. A replacing removes and adds
/// in one slot. A targeting gives the state that it sets. Any other kind
/// changes nothing.
pub open spec fn outcome_applied(
    data: SolverView,
    action: CraftActionView,
    outcome: CraftOutcome,
    before: ItemStateView,
    after: ItemStateView,
) -> bool {
    if outcome.action@ == "add"@ {
        exists|states: Seq<ItemStateView>|
            #[trigger] add_rounds(data, outcome, states) && states[0] == before && states.last()
                == after
    } else if outcome.action@ == "remove"@ {
        exists|states: Seq<ItemStateView>|
            #[trigger] remove_rounds(outcome, states) && states[0] == before && states.last()
                == after
    } else if outcome.action@ == "replace"@ {
        exists|
            heads: bool,
            taken: ItemStateView,
            removed: bool,
            put: ItemStateView,
            added: bool,
        |
            #[trigger] replaced_with(
                data,
                outcome,
                before,
                heads,
                taken,
                removed,
                put,
                added,
                after,
            )
    } else if outcome.action@ == "target"@ {
        after == target_set(action, outcome, before)
    } else {
        after == before
    }
}

/// The weight of each outcome of an action, in order.
pub open spec fn outcome_weights(action: CraftActionView) -> Seq<u64> {
    action.outcomes.map_values(|o: CraftOutcome| o.probability as u64)
}

/// Whether outcome `i` of an action can be drawn and can make `after`
/// of `before`.
pub open spec fn outcome_drawn(
    data: SolverView,
    action: CraftActionView,
    i: int,
    before: ItemStateView,
    after: ItemStateView,
) -> bool {
    &&& 0 <= i < action.outcomes.len()
    &&& action.outcomes[i].probability > 0
    &&& outcome_applied(data, action, action.outcomes[i], before, after)
}

/// The state with the rarity that follows from its affixes and from the
/// action that was used.
pub open spec fn with_next_rarity(item: ItemStateView, action_id: Seq<char>) -> ItemStateView {
    ItemStateView { rarity: next_rarity(item.rarity, item.affix_count(), action_id), ..item }
}

/// Whether `after` can come of `before` by the action of `action_id`:
/// one of its outcomes that can be drawn is applied, and the rarity is
/// brought up to date.
pub open spec fn action_applied(
    data: SolverView,
    action_id: Seq<char>,
    before: ItemStateView,
    after: ItemStateView,
) -> bool {
    find_action(data.craft_actions, action_id) matches Some(action) && exists|
        i: int,
        mid: ItemStateView,
    |
     #[trigger]
        outcome_drawn(data, action, i, before, mid) && after == with_next_rarity(mid, action_id)
}

/// Whether the actions of `ids` can be applied in turn to one item, which
/// goes through `states`: each action makes the next state of the one
/// before.
pub open spec fn applied_in_turn(
    data: SolverView,
    ids: Seq<Seq<char>>,
    states: Seq<ItemStateView>,
) -> bool {
    &&& states.len() == ids.len() + 1
    &&& forall|i: int|
        0 <= i < ids.len() ==> action_applied(data, ids[i], #[trigger] states[i], states[i + 1])
}

/// What every action keeps: the base, the level and the room of the
/// slots stay, a state that was well formed is so still, and the rank of
/// the rarity does not fall.
pub open spec fn stepped(before: ItemStateView, after: ItemStateView) -> bool {
    &&& after.base == before.base
    &&& after.item_level == before.item_level
    &&& after.max_prefixes == before.max_prefixes
    &&& after.max_suffixes == before.max_suffixes
    &&& before.well_formed() ==> after.well_formed()
    &&& rarity_rank(after.rarity) >= rarity_rank(before.rarity)
}

/// A round of an adding outcome sets no target, and leaves the target on
/// the lowest tier and the pending actions alone.
pub proof fn lemma_add_step_keeps_targets(
    data: SolverView,
    outcome: CraftOutcome,
    before: ItemStateView,
    after: ItemStateView,
)
    requires
        add_step(data, outcome, before, after),
    ensures
        after.lowest_tier_targeted == before.lowest_tier_targeted,
        after.next_actions == before.next_actions,
        after.prefixes_targeted ==> before.prefixes_targeted,
        after.suffixes_targeted ==> before.suffixes_targeted,
{
    let (heads, mid, added) = choose|heads: bool, mid: ItemStateView, added: bool|
        #[trigger] add_round(data, outcome, before, heads, mid, added, after);
}

/// A round of a removing outcome sets no target, and leaves the target
/// on the lowest tier and the pending actions alone.
pub proof fn lemma_remove_step_keeps_targets(
    outcome: CraftOutcome,
    before: ItemStateView,
    after: ItemStateView,
)
    requires
        remove_step(outcome, before, after),
    ensures
        after.lowest_tier_targeted == before.lowest_tier_targeted,
        after.next_actions == before.next_actions,
        after.prefixes_targeted ==> before.prefixes_targeted,
        after.suffixes_targeted ==> before.suffixes_targeted,
{
    let (heads, mid, removed) = choose|heads: bool, mid: ItemStateView, removed: bool|
        #[trigger] remove_round(outcome, before, heads, mid, removed, after);
}

/// The rounds of an adding outcome set no target that an earlier round
/// has left cleared, and leave the target on the lowest tier and the
/// pending actions alone.
pub proof fn lemma_adding_keeps_targets(
    data: SolverView,
    outcome: CraftOutcome,
    states: Seq<ItemStateView>,
    earlier: int,
    later: int,
)
    requires
        add_rounds(data, outcome, states),
        0 <= earlier <= later < states.len(),
    ensures
        states[later].lowest_tier_targeted == states[earlier].lowest_tier_targeted,
        states[later].next_actions == states[earlier].next_actions,
        states[later].prefixes_targeted ==> states[earlier].prefixes_targeted,
        states[later].suffixes_targeted ==> states[earlier].suffixes_targeted,
    decreases later - earlier,
{
    if earlier < later {
        lemma_adding_keeps_targets(data, outcome, states, earlier, later - 1);
        assert(add_step(data, outcome, states[later - 1], states[later - 1 + 1]));
        lemma_add_step_keeps_targets(data, outcome, states[later - 1], states[later]);
    }
}

/// The rounds of a removing outcome set no target that an earlier round
/// has left cleared, and leave the target on the lowest tier and the
/// pending actions alone.
pub proof fn lemma_removing_keeps_targets(
    outcome: CraftOutcome,
    states: Seq<ItemStateView>,
    earlier: int,
    later: int,
)
    requires
        remove_rounds(outcome, states),
        0 <= earlier <= later < states.len(),
    ensures
        states[later].lowest_tier_targeted == states[earlier].lowest_tier_targeted,
        states[later].next_actions == states[earlier].next_actions,
        states[later].prefixes_targeted ==> states[earlier].prefixes_targeted,
        states[later].suffixes_targeted ==> states[earlier].suffixes_targeted,
    decreases later - earlier,
{
    if earlier < later {
        lemma_removing_keeps_targets(outcome, states, earlier, later - 1);
        assert(remove_step(outcome, states[later - 1], states[later - 1 + 1]));
        lemma_remove_step_keeps_targets(outcome, states[later - 1], states[later]);
    }
}

/// Whether an outcome consumes a target on the prefixes of an item: it
/// adds, removes or replaces, its slot on the item is the prefixes
/// whatever the coin, and its first round does what it is to do, so an
/// adding can add to the prefixes and a removing finds a prefix.
pub open spec fn consumes_prefix_target(
    data: SolverView,
    outcome: CraftOutcome,
    item: ItemStateView,
) -> bool {
    &&& outcome_slot(outcome, item, true) == "prefix"@
    &&& outcome_slot(outcome, item, false) == "prefix"@
    &&& if outcome.action@ == "add"@ {
        outcome.times() >= 1 && can_add_one(data.items, data.class_tiers, item, "prefix"@)
    } else if outcome.action@ == "remove"@ {
        outcome.times() >= 1 && item.prefixes.len() > 0
    } else {
        outcome.action@ == "replace"@
    }
}

/// A targeting outcome of an action that only targets sets the target on
/// the prefixes where the prefixes are its slot, and makes the action's
/// currency pending.
pub proof fn lemma_targeting_sets_prefix_target(
    data: SolverView,
    action: CraftActionView,
    outcome: CraftOutcome,
    before: ItemStateView,
    after: ItemStateView,
)
    requires
        outcome_applied(data, action, outcome, before, after),
        outcome.action@ == "target"@,
        outcome.affix@ == "prefix"@,
        action.targets_affix(),
    ensures
        after.prefixes_targeted,
        after.suffixes_targeted == before.suffixes_targeted,
        action.currency is Some && action.currency->0.len() > 0 ==> after.pending().contains(
            action.currency->0,
        ),
{
    lemma_action_names();
    let aimed = if action.targets_lowest_tier() {
        ItemStateView { lowest_tier_targeted: true, ..before }
    } else {
        before
    }.targeted(outcome.affix@);
    if let Some(currency) = action.currency {
        if currency.len() > 0 {
            let list = aimed.pending().push(currency);
            assert(list[list.len() - 1] == currency);
        }
    }
}

/// An outcome that consumes a target on the prefixes clears it, however
/// often the outcome counts: the prefixes are not targeted after it. The
/// target on the lowest tier and the pending actions are as they were,
/// the suffixes are not newly targeted, and where the outcome makes one
/// round the target on the suffixes is as it was, too.
pub proof fn lemma_consuming_clears_prefix_target(
    data: SolverView,
    action: CraftActionView,
    outcome: CraftOutcome,
    before: ItemStateView,
    after: ItemStateView,
)
    requires
        outcome_applied(data, action, outcome, before, after),
        consumes_prefix_target(data, outcome, before),
    ensures
        !after.prefixes_targeted,
        after.lowest_tier_targeted == before.lowest_tier_targeted,
        after.next_actions == before.next_actions,
        after.suffixes_targeted ==> before.suffixes_targeted,
        outcome.times() <= 1 || outcome.action@ == "replace"@ ==> after.suffixes_targeted
            == before.suffixes_targeted,
{
    lemma_action_names();
    lemma_slot_names();
    if outcome.action@ == "add"@ {
        let states = choose|states: Seq<ItemStateView>|
            #[trigger] add_rounds(data, outcome, states) && states[0] == before && states.last()
                == after;
        assert(!has_no_legal_slot(outcome, before));
        assert(states.len() >= 2);
        assert(add_step(data, outcome, states[0], states[0int + 1]));
        let (heads, mid, added) = choose|heads: bool, mid: ItemStateView, added: bool|
            #[trigger] add_round(data, outcome, states[0], heads, mid, added, states[1]);
        assert(outcome_slot(outcome, before, heads) == "prefix"@);
        assert(added);
        assert(!states[1].prefixes_targeted);
        assert(states[1].suffixes_targeted == before.suffixes_targeted);
        lemma_adding_keeps_targets(data, outcome, states, 0, states.len() - 1);
        lemma_adding_keeps_targets(data, outcome, states, 1, states.len() - 1);
    } else if outcome.action@ == "remove"@ {
        let states = choose|states: Seq<ItemStateView>|
            #[trigger] remove_rounds(outcome, states) && states[0] == before && states.last()
                == after;
        assert(!has_no_legal_slot(outcome, before));
        assert(states.len() >= 2);
        assert(remove_step(outcome, states[0], states[0int + 1]));
        let (heads, mid, removed) = choose|heads: bool, mid: ItemStateView, removed: bool|
            #[trigger] remove_round(outcome, states[0], heads, mid, removed, states[1]);
        assert(outcome_slot(outcome, before, heads) == "prefix"@);
        assert(removed);
        assert(!states[1].prefixes_targeted);
        assert(states[1].suffixes_targeted == before.suffixes_targeted);
        lemma_removing_keeps_targets(outcome, states, 0, states.len() - 1);
        lemma_removing_keeps_targets(outcome, states, 1, states.len() - 1);
    } else {
        let (heads, taken, removed, put, added) = choose|
            heads: bool,
            taken: ItemStateView,
            removed: bool,
            put: ItemStateView,
            added: bool,
        |
            #[trigger] replaced_with(
                data,
                outcome,
                before,
                heads,
                taken,
                removed,
                put,
                added,
                after,
            );
        assert(outcome_slot(outcome, before, heads) == "prefix"@);
    }
}

/// The weight of each outcome of `action`, in order.
pub fn outcome_weights_of(action: &CraftAction) -> (r: Vec<u64>)
    ensures
        r@ == outcome_weights(action@),
{
    let mut weights: Vec<u64> = Vec::new();
    let mut i: usize = 0;
    while i < action.outcomes.len()
        invariant
            i <= action.outcomes.len(),
            weights@ == outcome_weights(action@).take(i as int),
        decreases action.outcomes.len() - i,
    {
        weights.push(action.outcomes[i].probability as u64);
        assert(weights@ =~= outcome_weights(action@).take(i as int + 1));
        i += 1;
    }
    assert(outcome_weights(action@).take(i as int) =~= outcome_weights(action@));
    weights
}

} // verus!
