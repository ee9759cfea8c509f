use crate::datasets::craft_action::{CraftAction, CraftActionView};
use crate::lookup::{first_true, lemma_first_true_is};
use crate::text::{contains_text, is_text, texts};
use vstd::prelude::*;

verus! {

/// Represents all crafting actions.
#[derive(Debug, Default, PartialEq, Eq)]
pub struct CraftActions {
    pub craft_actions: Vec<CraftAction>,
}

/// What a list of [`CraftAction`] holds.
pub open spec fn actions_view(list: Seq<CraftAction>) -> Seq<CraftActionView> {
    list.map_values(|a: CraftAction| a@)
}

impl View for CraftActions {
    type V = Seq<CraftActionView>;

    open spec fn view(&self) -> Seq<CraftActionView> {
        actions_view(self.craft_actions@)
    }
}

/// For each action, whether it is the one of `id`.
pub open spec fn action_flags(list: Seq<CraftActionView>, id: Seq<char>) -> Seq<bool> {
    list.map_values(|a: CraftActionView| a.id == id)
}

/// The first of `list` that is the action of `id`.
pub open spec fn find_action(list: Seq<CraftActionView>, id: Seq<char>) -> Option<
    CraftActionView,
> {
    let first = first_true(action_flags(list, id));
    if first < list.len() {
        Some(list[first])
    } else {
        None
    }
}

impl CraftActionView {
    /// Whether some outcome is one of `actions` on one of `affixes`.
    pub open spec fn touches(self, actions: Seq<Seq<char>>, affixes: Seq<Seq<char>>) -> bool {
        exists|i: int|
            0 <= i < self.outcomes.len() && actions.contains((#[trigger] self.outcomes[i]).action@)
                && affixes.contains(self.outcomes[i].affix@)
    }
}

/// The actions of `list`, in order, but those that touch `affixes` with
/// one of `actions`.
pub open spec fn actions_except(
    list: Seq<CraftActionView>,
    actions: Seq<Seq<char>>,
    affixes: Seq<Seq<char>>,
) -> Seq<CraftActionView>
    decreases list.len(),
{
    if list.len() == 0 {
        Seq::<CraftActionView>::empty()
    } else if list.last().touches(actions, affixes) {
        actions_except(list.drop_last(), actions, affixes)
    } else {
        actions_except(list.drop_last(), actions, affixes).push(list.last())
    }
}

/// Finds the first of `list` that is the action of `id`.
pub fn find_action_by_id<'a>(list: &'a Vec<CraftAction>, id: &str) -> (r: Option<&'a CraftAction>)
    ensures
        match r {
            Some(action) => find_action(actions_view(list@), id@) == Some(action@),
            None => find_action(actions_view(list@), id@) is None,
        },
{
    let ghost flags = action_flags(actions_view(list@), id@);
    let mut i: usize = 0;
    while i < list.len()
        invariant
            i <= list.len(),
            flags == action_flags(actions_view(list@), id@),
            forall|j: int| 0 <= j < i ==> !flags[j],
        decreases list.len() - i,
    {
        assert(flags[i as int] == (list@[i as int]@.id == id@));
        if is_text(&list[i].id, id) {
            proof {
                lemma_first_true_is(flags, i as int);
            }
            return Some(&list[i]);
        }
        i += 1;
    }
    proof {
        lemma_first_true_is(flags, i as int);
    }
    None
}

/// Whether some outcome of `action` is one of `actions` on one of
/// `affixes`.
pub fn action_touches(action: &CraftAction, actions: &[String], affixes: &[String]) -> (r: bool)
    ensures
        r == action@.touches(texts(actions@), texts(affixes@)),
{
    let mut i: usize = 0;
    while i < action.outcomes.len()
        invariant
            i <= action.outcomes.len(),
            forall|j: int|
                0 <= j < i ==> !(texts(actions@).contains((#[trigger] action.outcomes@[j]).action@)
                    && texts(affixes@).contains(action.outcomes@[j].affix@)),
        decreases action.outcomes.len() - i,
    {
        if contains_text(actions, &action.outcomes[i].action) && contains_text(
            affixes,
            &action.outcomes[i].affix,
        ) {
            assert(texts(actions@).contains(action@.outcomes[i as int].action@));
            return true;
        }
        i += 1;
    }
    false
}

impl CraftActions {
    /// Gets a crafting action by `id`.
    pub fn get_action_by_id(&self, id: &str) -> (r: Option<CraftAction>)
        ensures
            match r {
                Some(action) => find_action(self@, id@) == Some(action@),
                None => find_action(self@, id@) is None,
            },
    {
        match find_action_by_id(&self.craft_actions, id) {
            Some(action) => Some(action.clone()),
            None => None,
        }
    }

    /// Gets all crafting actions except ones that `action` any `affixes`.
    pub fn get_actions_except(&self, actions: &[String], affixes: &[String]) -> (r: Vec<
        CraftAction,
    >)
        ensures
            actions_view(r@) == actions_except(self@, texts(actions@), texts(affixes@)),
    {
        let mut kept: Vec<CraftAction> = Vec::new();
        let mut i: usize = 0;
        while i < self.craft_actions.len()
            invariant
                i <= self.craft_actions.len(),
                actions_view(kept@) == actions_except(
                    self@.take(i as int),
                    texts(actions@),
                    texts(affixes@),
                ),
            decreases self.craft_actions.len() - i,
        {
            proof {
                assert(self@.take(i as int + 1).drop_last() =~= self@.take(i as int));
                assert(self@.take(i as int + 1).last() == self.craft_actions@[i as int]@);
            }
            if !action_touches(&self.craft_actions[i], actions, affixes) {
                let ghost before = kept@;
                let copy = self.craft_actions[i].clone();
                kept.push(copy);
                assert(actions_view(kept@) =~= actions_view(before).push(copy@));
            }
            i += 1;
        }
        assert(self@.take(i as int) =~= self@);
        kept
    }
}

impl Clone for CraftActions {
    fn clone(&self) -> (r: Self)
        ensures
            r@ == self@,
    {
        let list = self.craft_actions.clone();
        assert(actions_view(list@) =~= actions_view(self.craft_actions@));
        CraftActions { craft_actions: list }
    }
}

} // verus!
