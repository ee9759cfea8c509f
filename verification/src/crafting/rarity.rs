//! The rarity of an item, and why it never falls.

use crate::crafting::outcomes::{
    action_applied, add_round, add_rounds, add_step, applied_in_turn, outcome_applied,
    outcome_drawn, remove_round, remove_rounds, remove_step, replaced_with, with_next_rarity,
};
use crate::crafting::solver::SolverView;
use crate::datasets::craft_action::CraftActionView;
use crate::datasets::craft_actions::find_action;
use crate::datasets::craft_outcome::CraftOutcome;
use crate::items::item_state::ItemStateView;
use vstd::prelude::*;

verus! {

/// The rarity that an item of `rarity` has after an action, with
/// `affix_count` affixes on it then. A rare item stays rare. Of the
/// others, one without affixes is normal, unless it was magic; one with
/// three affixes or more, or one that `regal` was used on, is rare; and
/// one with an affix is magic.
pub open spec fn next_rarity(rarity: Seq<char>, affix_count: nat, action_id: Seq<char>) -> Seq<
    char,
> {
    if rarity == "rare"@ {
        rarity
    } else if affix_count == 0 && rarity != "magic"@ {
        "normal"@
    } else if affix_count >= 3 || action_id == "regal"@ {
        "rare"@
    } else if affix_count > 0 {
        "magic"@
    } else {
        rarity
    }
}

/// The rank of a rarity: 2 for rare, 1 for magic, and 0 for all others.
pub open spec fn rarity_rank(rarity: Seq<char>) -> int {
    if rarity == "rare"@ {
        2
    } else if rarity == "magic"@ {
        1
    } else {
        0
    }
}

/// The names of the rarities differ.
pub proof fn lemma_rarity_names()
    ensures
        "normal"@ != "magic"@,
        "normal"@ != "rare"@,
        "magic"@ != "rare"@,
{
    reveal_strlit("normal");
    reveal_strlit("magic");
    reveal_strlit("rare");
    assert("normal"@[0] == 'n');
    assert("magic"@[0] == 'm');
    assert("rare"@[0] == 'r');
}

/// An action never lowers the rank of an item's rarity.
pub proof fn lemma_rarity_never_regresses(
    rarity: Seq<char>,
    affix_count: nat,
    action_id: Seq<char>,
)
    ensures
        rarity_rank(next_rarity(rarity, affix_count, action_id)) >= rarity_rank(rarity),
{
    lemma_rarity_names();
}

/// The rounds of an adding outcome leave the rarity alone.
pub proof fn lemma_adding_keeps_rarity(
    data: SolverView,
    outcome: CraftOutcome,
    states: Seq<ItemStateView>,
    k: int,
)
    requires
        add_rounds(data, outcome, states),
        0 <= k < states.len(),
    ensures
        states[k].rarity == states[0].rarity,
    decreases k,
{
    if k > 0 {
        lemma_adding_keeps_rarity(data, outcome, states, k - 1);
        assert(add_step(data, outcome, states[k - 1], states[k - 1 + 1]));
        let (heads, mid, added) = choose|heads: bool, mid: ItemStateView, added: bool|
            #[trigger] add_round(data, outcome, states[k - 1], heads, mid, added, states[k]);
    }
}

/// The rounds of a removing outcome leave the rarity alone.
pub proof fn lemma_removing_keeps_rarity(
    outcome: CraftOutcome,
    states: Seq<ItemStateView>,
    k: int,
)
    requires
        remove_rounds(outcome, states),
        0 <= k < states.len(),
    ensures
        states[k].rarity == states[0].rarity,
    decreases k,
{
    if k > 0 {
        lemma_removing_keeps_rarity(outcome, states, k - 1);
        assert(remove_step(outcome, states[k - 1], states[k - 1 + 1]));
        let (heads, mid, removed) = choose|heads: bool, mid: ItemStateView, removed: bool|
            #[trigger] remove_round(outcome, states[k - 1], heads, mid, removed, states[k]);
    }
}

/// No outcome changes the rarity of an item.
pub proof fn lemma_outcome_keeps_rarity(
    data: SolverView,
    action: CraftActionView,
    outcome: CraftOutcome,
    before: ItemStateView,
    after: ItemStateView,
)
    requires
        outcome_applied(data, action, outcome, before, after),
    ensures
        after.rarity == before.rarity,
{
    if outcome.action@ == "add"@ {
        let states = choose|states: Seq<ItemStateView>|
            #[trigger] add_rounds(data, outcome, states) && states[0] == before && states.last()
                == after;
        lemma_adding_keeps_rarity(data, outcome, states, states.len() - 1);
    } else if outcome.action@ == "remove"@ {
        let states = choose|states: Seq<ItemStateView>|
            #[trigger] remove_rounds(outcome, states) && states[0] == before && states.last()
                == after;
        lemma_removing_keeps_rarity(outcome, states, states.len() - 1);
    } else if outcome.action@ == "replace"@ {
        let (heads, taken, removed, put, added) = choose|
            heads: bool,
            taken: ItemStateView,
            removed: bool,
            put: ItemStateView,
            added: bool,
        |
            #[trigger] replaced_with(
                data,
                outcome,
                before,
                heads,
                taken,
                removed,
                put,
                added,
                after,
            );
    }
}

/// No action lowers the rank of an item's rarity, and a rare item stays
/// rare.
pub proof fn lemma_action_never_lowers_rarity(
    data: SolverView,
    action_id: Seq<char>,
    before: ItemStateView,
    after: ItemStateView,
)
    requires
        action_applied(data, action_id, before, after),
    ensures
        rarity_rank(after.rarity) >= rarity_rank(before.rarity),
        before.rarity == "rare"@ ==> after.rarity == "rare"@,
{
    let action = find_action(data.craft_actions, action_id)->0;
    let (i, mid) = choose|i: int, mid: ItemStateView|
        #[trigger] outcome_drawn(data, action, i, before, mid) && after == with_next_rarity(
            mid,
            action_id,
        );
    lemma_outcome_keeps_rarity(data, action, action.outcomes[i], before, mid);
    lemma_rarity_never_regresses(mid.rarity, mid.affix_count(), action_id);
}

/// Across any sequence of actions that are applied to one item, the rank
/// of its rarity never falls: an item that was rare at some point is
/// rare at every later one.
pub proof fn lemma_rarity_is_monotonic(
    data: SolverView,
    ids: Seq<Seq<char>>,
    states: Seq<ItemStateView>,
    earlier: int,
    later: int,
)
    requires
        applied_in_turn(data, ids, states),
        0 <= earlier <= later < states.len(),
    ensures
        rarity_rank(states[later].rarity) >= rarity_rank(states[earlier].rarity),
        states[earlier].rarity == "rare"@ ==> states[later].rarity == "rare"@,
    decreases later - earlier,
{
    if earlier < later {
        lemma_rarity_is_monotonic(data, ids, states, earlier, later - 1);
        assert(action_applied(data, ids[later - 1], states[later - 1], states[later - 1 + 1]));
        lemma_action_never_lowers_rarity(data, ids[later - 1], states[later - 1], states[later]);
    }
}

} // verus!
