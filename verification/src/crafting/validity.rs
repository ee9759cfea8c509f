//! When a crafting action is legal on an item.

use crate::datasets::craft_action::CraftActionView;
use crate::items::item_state::{ItemState, ItemStateView};
use crate::text::contains_text;
use vstd::prelude::*;

verus! {

/// Whether some capability of an action holds against the item's slots.
pub open spec fn has_capability(action: CraftActionView, item: ItemStateView) -> bool {
    ||| action.does_only_affix_action("prefix"@, "add"@) && !item.has_max_prefixes()
    ||| action.does_only_affix_action("suffix"@, "add"@) && !item.has_max_suffixes()
    ||| action.does_only_affix_action("prefix"@, "remove"@) && !item.has_no_prefixes()
    ||| action.does_only_affix_action("suffix"@, "remove"@) && !item.has_no_suffixes()
    ||| action.does_only_action("add"@) && !item.has_max_affixes()
    ||| action.does_only_action("remove"@) && !item.has_no_affixes()
    ||| action.does_only_action("replace"@) && !item.has_no_affixes()
    ||| (action.targets_affix() || action.targets_lowest_tier()) && !item.has_no_affixes()
    ||| action.does_only_affix_action("prefix"@, "target"@) && !item.has_no_prefixes()
        && !item.prefixes_targeted
    ||| action.does_only_affix_action("suffix"@, "target"@) && !item.has_no_suffixes()
        && !item.suffixes_targeted
}

/// Whether an action is the one that the item waits for: it only
/// targets, or nothing is pending, or the action is.
pub open spec fn is_expected_next_action(action: CraftActionView, item: ItemStateView) -> bool {
    action.targets_affix() || !item.has_next_action() || item.pending().contains(action.id)
}

/// Whether an action leaves the rarity alone: `alteration` does so only
/// on an item of fewer than two affixes, and it is the one action that
/// is held to that.
pub open spec fn keeps_rarity(action: CraftActionView, item: ItemStateView) -> bool {
    !(action.id == "alteration"@ && item.affix_count() >= 2)
}

/// Whether an action asks for the rarity that the item has, or for none.
pub open spec fn meets_item_rarity(action: CraftActionView, item: ItemStateView) -> bool {
    match action.rarity {
        Some(rarity) => rarity == item.rarity,
        None => true,
    }
}

/// Whether an action is legal on an item.
pub open spec fn valid_crafting_action(action: CraftActionView, item: ItemStateView) -> bool {
    meets_item_rarity(action, item) && keeps_rarity(action, item) && is_expected_next_action(
        action,
        item,
    ) && has_capability(action, item)
}

/// Whether `action_id` is pending on `item`.
pub fn is_pending(item: &ItemState, action_id: &String) -> (r: bool)
    ensures
        r == item@.pending().contains(action_id@),
{
    match &item.next_actions {
        Some(list) => contains_text(list.as_slice(), action_id),
        None => false,
    }
}

} // verus!
