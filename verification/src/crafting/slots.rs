//! The slots of an item: what adding to one and removing from one make
//! of it, and which slot an outcome works on.

use crate::crafting::affix_candidate::{AffixCandidateView, possible_for_item};
use crate::crafting::choosing::{
    candidate_rollable, candidates_rollable, choosing_fault, eligible, eligible_weights,
    may_choose, on_item,
};
use crate::crafting::dataset_error::DatasetError;
use crate::datasets::affix::AffixView;
use crate::datasets::class_tier::ClassTierView;
use crate::datasets::craft_outcome::CraftOutcome;
use crate::datasets::item::Item;
use crate::datasets::items::class_of_base;
use crate::items::item_state::{ItemState, ItemStateView};
use crate::items::modifier::Modifier;
use crate::random::randomizer::samplable;
use crate::text::is_text;
use vstd::prelude::*;

verus! {

/// Whether `affix_type` names a slot.
pub open spec fn is_slot(affix_type: Seq<char>) -> bool {
    affix_type == "prefix"@ || affix_type == "suffix"@
}

/// The names of the two slots differ, and neither is empty.
pub proof fn lemma_slot_names()
    ensures
        "prefix"@ != "suffix"@,
        "prefix"@ != "random"@,
        "prefix"@.len() == 6,
        "suffix"@.len() == 6,
        is_slot("prefix"@),
        is_slot("suffix"@),
        !is_slot(Seq::<char>::empty()),
{
    reveal_strlit("prefix");
    reveal_strlit("suffix");
    reveal_strlit("random");
    assert("random"@[0] == 'r');
    assert("prefix"@[0] == 'p');
    assert("suffix"@[0] == 's');
}

/// Whether a round of adding to a slot of `item` can add: the slot has
/// room, and a candidate whose affix is not on the item can be drawn.
pub open spec fn can_add_one(
    items: Seq<Item>,
    class_tiers: Seq<ClassTierView>,
    item: ItemStateView,
    affix_type: Seq<char>,
) -> bool {
    item.slot_list(affix_type).len() < item.slot_max(affix_type) && samplable(
        eligible_weights(
            item.current_affixes(),
            possible_for_item(items, class_tiers, item, affix_type),
        ),
    )
}

/// Whether a round of adding to a slot can make `after` of `before` by
/// adding `modifier`: the round can add, the modifier is one that can be
/// chosen for the item as it is, and it is put at the end of the slot's
/// list.
pub open spec fn adds(
    items: Seq<Item>,
    class_tiers: Seq<ClassTierView>,
    catalog: Seq<AffixView>,
    before: ItemStateView,
    affix_type: Seq<char>,
    modifier: Modifier,
    after: ItemStateView,
) -> bool {
    &&& can_add_one(items, class_tiers, before, affix_type)
    &&& may_choose(
        catalog,
        before.current_affixes(),
        possible_for_item(items, class_tiers, before, affix_type),
        modifier,
    )
    &&& after == before.with_slot_list(affix_type, before.slot_list(affix_type).push(modifier))
}

/// Whether a round of adding to a slot can make `after` of `before`.
pub open spec fn added_one(
    items: Seq<Item>,
    class_tiers: Seq<ClassTierView>,
    catalog: Seq<AffixView>,
    before: ItemStateView,
    affix_type: Seq<char>,
    after: ItemStateView,
) -> bool {
    exists|modifier: Modifier|
        #[trigger] adds(items, class_tiers, catalog, before, affix_type, modifier, after)
}

/// Whether rounds of adding to a slot can go through `states`, each
/// adding one affix to the state before it.
pub open spec fn added_in_turn(
    items: Seq<Item>,
    class_tiers: Seq<ClassTierView>,
    catalog: Seq<AffixView>,
    affix_type: Seq<char>,
    states: Seq<ItemStateView>,
) -> bool {
    forall|i: int|
        0 <= i < states.len() - 1 ==> added_one(
            items,
            class_tiers,
            catalog,
            #[trigger] states[i],
            affix_type,
            states[i + 1],
        )
}

/// Whether an adding of `count` that went through `states` ends there
/// with `success` for its result: it made no round for a count of
/// nothing, all its rounds where it succeeded, and fewer where a round
/// could not add.
pub open spec fn adding_ends(
    items: Seq<Item>,
    class_tiers: Seq<ClassTierView>,
    affix_type: Seq<char>,
    count: i32,
    success: bool,
    states: Seq<ItemStateView>,
) -> bool {
    if count <= 0 {
        success && states.len() == 1
    } else if success {
        states.len() == count + 1
    } else {
        1 <= states.len() <= count && !can_add_one(items, class_tiers, states.last(), affix_type)
    }
}

/// How many affixes a removing of `count` takes from a slot that holds
/// `have`.
pub open spec fn affixes_removed(have: nat, count: i32) -> nat {
    if count <= 0 {
        0
    } else if count >= have {
        have
    } else {
        count as nat
    }
}

/// Whether an adding to a slot of `item` cannot fail on the datasets: the
/// item table has the item's base, and, where a round will draw, a
/// modifier can be rolled from every candidate that can be drawn.
pub open spec fn can_add_to(
    items: Seq<Item>,
    class_tiers: Seq<ClassTierView>,
    catalog: Seq<AffixView>,
    item: ItemStateView,
    affix_type: Seq<char>,
    count: i32,
) -> bool {
    is_slot(affix_type) ==> {
        &&& class_of_base(items, item.base) is Some
        &&& count > 0 && item.slot_list(affix_type).len() < item.slot_max(affix_type)
            ==> candidates_rollable(
            catalog,
            item.current_affixes(),
            possible_for_item(items, class_tiers, item, affix_type),
        )
    }
}

/// What keeps an adding to a slot of `item` from being made, if
/// anything: a base that the item table does not have, or, where a round
/// will draw, what keeps a modifier from being chosen. Nothing keeps an
/// adding to what is no slot, for it does nothing.
pub open spec fn adding_fault(
    items: Seq<Item>,
    class_tiers: Seq<ClassTierView>,
    catalog: Seq<AffixView>,
    item: ItemStateView,
    affix_type: Seq<char>,
    count: i32,
) -> Option<DatasetError> {
    if !is_slot(affix_type) {
        None
    } else if class_of_base(items, item.base) is None {
        Some(DatasetError::UnknownBase)
    } else if count > 0 && item.slot_list(affix_type).len() < item.slot_max(affix_type) {
        choosing_fault(
            catalog,
            item.current_affixes(),
            possible_for_item(items, class_tiers, item, affix_type),
        )
    } else {
        None
    }
}

/// Whether `after` is what an adding of `count` to a slot can make of
/// `before`, with `success` for its result. The adding goes round by
/// round, each round adding one affix that can be chosen for the item as
/// it is then, until a round cannot add or the rounds are through. So
/// only the slot's list has changed, it has grown at its end, by `count`
/// where the adding succeeded, the first round decides alone where it
/// cannot add, and a state that was well formed is so still.
pub open spec fn added_to(
    items: Seq<Item>,
    class_tiers: Seq<ClassTierView>,
    catalog: Seq<AffixView>,
    before: ItemStateView,
    affix_type: Seq<char>,
    count: i32,
    after: ItemStateView,
    success: bool,
) -> bool {
    let had = before.slot_list(affix_type);
    let have = after.slot_list(affix_type);
    &&& exists|states: Seq<ItemStateView>|
        #[trigger] added_in_turn(items, class_tiers, catalog, affix_type, states) && adding_ends(
            items,
            class_tiers,
            affix_type,
            count,
            success,
            states,
        ) && states[0] == before && states.last() == after
    &&& after == before.with_slot_list(affix_type, have)
    &&& had.len() <= have.len() && have.take(had.len() as int) == had
    &&& count <= 0 ==> success && after == before
    &&& count > 0 ==> have.len() - had.len() <= count
    &&& count > 0 && success ==> have.len() - had.len() == count
    &&& count > 0 && !can_add_one(items, class_tiers, before, affix_type) ==> !success && after
        == before
    &&& count > 0 && can_add_one(items, class_tiers, before, affix_type) ==> have.len()
        > had.len() && may_choose(
        catalog,
        before.current_affixes(),
        possible_for_item(items, class_tiers, before, affix_type),
        have[had.len() as int],
    )
    &&& count == 1 ==> success == can_add_one(items, class_tiers, before, affix_type)
    &&& before.well_formed() ==> after.well_formed()
}

/// An affix that is on an item is on it still after affixes were added
/// at the ends of its lists.
pub proof fn lemma_on_item_after_adding(
    before: ItemStateView,
    after: ItemStateView,
    affix: Seq<char>,
)
    requires
        before.prefixes.len() <= after.prefixes.len(),
        after.prefixes.take(before.prefixes.len() as int) == before.prefixes,
        before.suffixes.len() <= after.suffixes.len(),
        after.suffixes.take(before.suffixes.len() as int) == before.suffixes,
        on_item(before.current_affixes(), affix),
    ensures
        on_item(after.current_affixes(), affix),
{
    let i = choose|i: int|
        0 <= i < before.current_affixes().len() && (#[trigger] before.current_affixes()[i]).id@
            == affix;
    if i < before.prefixes.len() {
        assert(after.prefixes.take(before.prefixes.len() as int)[i] == after.prefixes[i]);
        assert(after.current_affixes()[i] == before.current_affixes()[i]);
    } else {
        let j = i - before.prefixes.len();
        assert(after.suffixes.take(before.suffixes.len() as int)[j] == after.suffixes[j]);
        assert(after.current_affixes()[after.prefixes.len() + j] == before.current_affixes()[i]);
    }
}

/// Where a modifier can be rolled from every candidate that can be drawn
/// for an item, one can be still after affixes were added to the item.
pub proof fn lemma_rollable_after_adding(
    catalog: Seq<AffixView>,
    candidates: Seq<AffixCandidateView>,
    before: ItemStateView,
    after: ItemStateView,
)
    requires
        before.prefixes.len() <= after.prefixes.len(),
        after.prefixes.take(before.prefixes.len() as int) == before.prefixes,
        before.suffixes.len() <= after.suffixes.len(),
        after.suffixes.take(before.suffixes.len() as int) == before.suffixes,
        candidates_rollable(catalog, before.current_affixes(), candidates),
    ensures
        candidates_rollable(catalog, after.current_affixes(), candidates),
{
    assert forall|k: int|
        0 <= k < candidates.len() && eligible(after.current_affixes(), #[trigger] candidates[k])
            && candidates[k].weight > 0 implies candidate_rollable(candidates[k], catalog) by {
        if on_item(before.current_affixes(), candidates[k].affix) {
            lemma_on_item_after_adding(before, after, candidates[k].affix);
        }
    }
}

/// Whether `after` is what a removing of `count` from a slot can make of
/// `before`, with `success` for its result: only the slot's list has
/// changed, it has lost as many as the removing takes, it holds nothing
/// that it did not hold before, and a state that was well formed is so
/// still. The removing succeeds where the slot held `count` at least.
pub open spec fn removed_from(
    before: ItemStateView,
    affix_type: Seq<char>,
    count: i32,
    after: ItemStateView,
    success: bool,
) -> bool {
    let had = before.slot_list(affix_type);
    let have = after.slot_list(affix_type);
    &&& success == (count <= 0 || count <= had.len())
    &&& after == before.with_slot_list(affix_type, have)
    &&& have.len() == had.len() - affixes_removed(had.len(), count)
    &&& have.to_multiset().subset_of(had.to_multiset())
    &&& before.well_formed() ==> after.well_formed()
}

/// Taking one entry out of a list by moving the last into its place
/// takes that entry, and nothing else, out of what the list holds.
pub proof fn lemma_swap_remove_takes_one<A>(list: Seq<A>, i: int)
    requires
        0 <= i < list.len(),
    ensures
        list.update(i, list.last()).drop_last().to_multiset() =~= list.to_multiset().remove(
            list[i],
        ),
        list.update(i, list.last()).drop_last().to_multiset().subset_of(list.to_multiset()),
{
    broadcast use {
        vstd::seq_lib::to_multiset_update,
        vstd::seq_lib::to_multiset_remove,
        vstd::seq_lib::group_to_multiset_ensures,
    };

    let moved = list.update(i, list.last());
    assert(moved.drop_last() =~= moved.remove(moved.len() - 1));
    assert(moved[moved.len() - 1] == list.last());
    assert(list.to_multiset().count(list.last()) > 0) by {
        assert(list.contains(list.last())) by {
            assert(list[list.len() - 1] == list.last());
        }
    }
    assert(list.to_multiset().count(list[i]) > 0) by {
        assert(list.contains(list[i]));
    }
}

/// The modifiers of both slots of `item`: the prefixes, then the
/// suffixes.
pub fn current_affixes_of(item: &ItemState) -> (r: Vec<Modifier>)
    ensures
        r@ == item@.current_affixes(),
{
    let mut all = item.prefixes.clone();
    assert(all@ =~= item.prefixes@);
    let mut rest = item.suffixes.clone();
    assert(rest@ =~= item.suffixes@);
    all.append(&mut rest);
    all
}

/// Whether an outcome adds to a slot picked at random.
pub open spec fn is_random_add(outcome: CraftOutcome) -> bool {
    outcome.does("random"@, "add"@)
}

/// Whether an outcome removes from a slot picked at random.
pub open spec fn is_random_remove(outcome: CraftOutcome) -> bool {
    outcome.does("random"@, "remove"@)
}

/// Whether an outcome has no slot to work on: it adds at random to an
/// item that is full, or removes at random from one that is bare.
pub open spec fn has_no_legal_slot(outcome: CraftOutcome, item: ItemStateView) -> bool {
    (item.has_max_affixes() && is_random_add(outcome)) || (item.has_no_affixes()
        && is_random_remove(outcome))
}

/// Whether the item's state sends an outcome to the suffixes.
pub open spec fn prefers_suffix(outcome: CraftOutcome, item: ItemStateView) -> bool {
    ||| item.has_max_prefixes() && is_random_add(outcome)
    ||| item.has_no_prefixes() && is_random_remove(outcome)
    ||| item.suffixes_targeted && !item.has_max_suffixes() && is_random_add(outcome)
    ||| item.suffixes_targeted && !item.has_no_suffixes() && is_random_remove(outcome)
    ||| item.prefixes.len() == 1 && item.has_no_suffixes() && is_random_add(outcome)
}

/// Whether the item's state sends an outcome to the prefixes.
pub open spec fn prefers_prefix(outcome: CraftOutcome, item: ItemStateView) -> bool {
    ||| item.has_max_suffixes() && is_random_add(outcome)
    ||| item.has_no_suffixes() && is_random_remove(outcome)
    ||| item.prefixes_targeted && !item.has_max_prefixes() && is_random_add(outcome)
    ||| item.prefixes_targeted && !item.has_no_prefixes() && is_random_remove(outcome)
    ||| item.suffixes.len() == 1 && item.has_no_prefixes() && is_random_add(outcome)
}

/// Whether the slot of an outcome is left to a coin: the item's state
/// decides nothing, and the outcome names the slot `random`.
pub open spec fn slot_is_flipped(outcome: CraftOutcome, item: ItemStateView) -> bool {
    !has_no_legal_slot(outcome, item) && !prefers_suffix(outcome, item) && !prefers_prefix(
        outcome,
        item,
    ) && outcome.affix@ == "random"@
}

/// The slot that an outcome works on, with `heads` for the coin: the
/// empty string where there is no legal slot; else `suffix` or `prefix`
/// where the item's state prefers one, the suffixes first; else the
/// outcome's own slot, `prefix` for heads where it is `random`, and
/// `suffix` for anything but `prefix`.
pub open spec fn outcome_slot(outcome: CraftOutcome, item: ItemStateView, heads: bool) -> Seq<
    char,
> {
    if has_no_legal_slot(outcome, item) {
        Seq::<char>::empty()
    } else if prefers_suffix(outcome, item) {
        "suffix"@
    } else if prefers_prefix(outcome, item) {
        "prefix"@
    } else if (outcome.affix@ == "random"@ && heads) || outcome.affix@ == "prefix"@ {
        "prefix"@
    } else {
        "suffix"@
    }
}

/// The slot that an outcome works on, for a coin that came up `heads`.
pub fn pick_outcome_affix(outcome: &CraftOutcome, item_state: &ItemState, heads: bool) -> (r:
    &'static str)
    ensures
        r@ == outcome_slot(*outcome, item_state@, heads),
{
    proof {
        reveal_strlit("");
    }
    let is_random = is_text(&outcome.affix, "random");
    let is_random_add = is_random && is_text(&outcome.action, "add");
    let is_random_remove = is_random && is_text(&outcome.action, "remove");
    if (item_state.has_max_affixes() && is_random_add) || (item_state.has_no_affixes()
        && is_random_remove) {
        assert(""@ =~= Seq::<char>::empty());
        ""
    } else if (item_state.has_max_prefixes() && is_random_add) || (item_state.has_no_prefixes()
        && is_random_remove) || (item_state.has_targeted_suffixes()
        && !item_state.has_max_suffixes() && is_random_add) || (
    item_state.has_targeted_suffixes() && !item_state.has_no_suffixes() && is_random_remove) || (
    item_state.prefixes.len() == 1 && item_state.has_no_suffixes() && is_random_add) {
        "suffix"
    } else if (item_state.has_max_suffixes() && is_random_add) || (item_state.has_no_suffixes()
        && is_random_remove) || (item_state.has_targeted_prefixes()
        && !item_state.has_max_prefixes() && is_random_add) || (
    item_state.has_targeted_prefixes() && !item_state.has_no_prefixes() && is_random_remove) || (
    item_state.suffixes.len() == 1 && item_state.has_no_prefixes() && is_random_add) {
        "prefix"
    } else if (is_random && heads) || is_text(&outcome.affix, "prefix") {
        "prefix"
    } else {
        "suffix"
    }
}

/// Whether the slot of an outcome is left to a coin.
pub fn is_slot_flipped(outcome: &CraftOutcome, item_state: &ItemState) -> (r: bool)
    ensures
        r == slot_is_flipped(*outcome, item_state@),
{
    proof {
        lemma_slot_names();
    }
    if !is_text(&outcome.affix, "random") {
        return false;
    }
    let decided = pick_outcome_affix(outcome, item_state, true);
    let also = pick_outcome_affix(outcome, item_state, false);
    let decided_text = decided.to_owned();
    !is_text(&decided_text, also)
}

} // verus!
