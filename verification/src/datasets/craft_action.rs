use crate::datasets::craft_outcome::CraftOutcome;
use crate::text::is_text;
use vstd::prelude::*;

verus! {

/// Represents a crafting action.
///
/// `cost` is in thousandths of the currency that costs are counted in.
#[derive(Debug, Default, PartialEq, Eq)]
pub struct CraftAction {
    pub name: String,
    pub id: String,
    pub cost: u32,
    pub currency: Option<String>,
    pub rarity: Option<String>,
    pub outcomes: Vec<CraftOutcome>,
}

/// What a [`CraftAction`] holds.
pub struct CraftActionView {
    pub name: Seq<char>,
    pub id: Seq<char>,
    pub cost: u32,
    pub currency: Option<Seq<char>>,
    pub rarity: Option<Seq<char>>,
    pub outcomes: Seq<CraftOutcome>,
}

/// What an optional string reads.
pub open spec fn optional_text(text: Option<String>) -> Option<Seq<char>> {
    match text {
        Some(text) => Some(text@),
        None => None,
    }
}

impl View for CraftAction {
    type V = CraftActionView;

    open spec fn view(&self) -> CraftActionView {
        CraftActionView {
            name: self.name@,
            id: self.id@,
            cost: self.cost,
            currency: optional_text(self.currency),
            rarity: optional_text(self.rarity),
            outcomes: self.outcomes@,
        }
    }
}

impl CraftActionView {
    /// Whether some outcome does `action` to `affix`.
    pub open spec fn does_affix_action(self, affix: Seq<char>, action: Seq<char>) -> bool {
        exists|i: int| 0 <= i < self.outcomes.len() && (#[trigger] self.outcomes[i]).does(
            affix,
            action,
        )
    }

    /// Whether every outcome does `action` to `affix`.
    pub open spec fn does_only_affix_action(self, affix: Seq<char>, action: Seq<char>) -> bool {
        forall|i: int| 0 <= i < self.outcomes.len() ==> (#[trigger] self.outcomes[i]).does(
            affix,
            action,
        )
    }

    /// Whether every outcome is an `action`.
    pub open spec fn does_only_action(self, action: Seq<char>) -> bool {
        forall|i: int| 0 <= i < self.outcomes.len() ==> (#[trigger] self.outcomes[i]).action@
            == action
    }

    /// The currency that the action is paired with, and the empty string
    /// where it has none.
    pub open spec fn currency_text(self) -> Seq<char> {
        match self.currency {
            Some(currency) => currency,
            None => Seq::<char>::empty(),
        }
    }

    /// Whether every outcome is a targeting.
    pub open spec fn targets_affix(self) -> bool {
        self.does_only_action("target"@)
    }

    /// Whether every outcome targets the lowest tier.
    pub open spec fn targets_lowest_tier(self) -> bool {
        self.does_only_affix_action("lowest"@, "target"@)
    }
}

impl CraftAction {
    /// Whether every outcome adds a prefix.
    pub fn only_adds_prefix(&self) -> (r: bool)
        ensures
            r == self@.does_only_affix_action("prefix"@, "add"@),
    {
        self.does_only_affix_action("prefix", "add")
    }

    /// Whether every outcome adds a suffix.
    pub fn only_adds_suffix(&self) -> (r: bool)
        ensures
            r == self@.does_only_affix_action("suffix"@, "add"@),
    {
        self.does_only_affix_action("suffix", "add")
    }

    /// Whether every outcome removes a prefix.
    pub fn only_removes_prefix(&self) -> (r: bool)
        ensures
            r == self@.does_only_affix_action("prefix"@, "remove"@),
    {
        self.does_only_affix_action("prefix", "remove")
    }

    /// Whether every outcome removes a suffix.
    pub fn only_removes_suffix(&self) -> (r: bool)
        ensures
            r == self@.does_only_affix_action("suffix"@, "remove"@),
    {
        self.does_only_affix_action("suffix", "remove")
    }

    /// Whether every outcome targets the prefixes.
    pub fn only_targets_prefix(&self) -> (r: bool)
        ensures
            r == self@.does_only_affix_action("prefix"@, "target"@),
    {
        self.does_only_affix_action("prefix", "target")
    }

    /// Whether every outcome targets the suffixes.
    pub fn only_targets_suffix(&self) -> (r: bool)
        ensures
            r == self@.does_only_affix_action("suffix"@, "target"@),
    {
        self.does_only_affix_action("suffix", "target")
    }

    /// Whether some outcome adds a prefix.
    pub fn adds_prefix(&self) -> (r: bool)
        ensures
            r == self@.does_affix_action("prefix"@, "add"@),
    {
        self.does_affix_action("prefix", "add")
    }

    /// Whether some outcome adds a suffix.
    pub fn adds_suffix(&self) -> (r: bool)
        ensures
            r == self@.does_affix_action("suffix"@, "add"@),
    {
        self.does_affix_action("suffix", "add")
    }

    /// Whether some outcome removes a prefix.
    pub fn removes_prefix(&self) -> (r: bool)
        ensures
            r == self@.does_affix_action("prefix"@, "remove"@),
    {
        self.does_affix_action("prefix", "remove")
    }

    /// Whether some outcome removes a suffix.
    pub fn removes_suffix(&self) -> (r: bool)
        ensures
            r == self@.does_affix_action("suffix"@, "remove"@),
    {
        self.does_affix_action("suffix", "remove")
    }

    /// Whether some outcome targets the prefixes.
    pub fn targets_prefix(&self) -> (r: bool)
        ensures
            r == self@.does_affix_action("prefix"@, "target"@),
    {
        self.does_affix_action("prefix", "target")
    }

    /// Whether some outcome targets the suffixes.
    pub fn targets_suffix(&self) -> (r: bool)
        ensures
            r == self@.does_affix_action("suffix"@, "target"@),
    {
        self.does_affix_action("suffix", "target")
    }

    /// Whether every outcome targets the lowest tier.
    pub fn targets_lowest_tier(&self) -> (r: bool)
        ensures
            r == self@.targets_lowest_tier(),
    {
        self.does_only_affix_action("lowest", "target")
    }

    /// Whether every outcome is a targeting.
    pub fn targets_affix(&self) -> (r: bool)
        ensures
            r == self@.targets_affix(),
    {
        self.does_only_action("target")
    }

    /// Whether every outcome is an adding.
    pub fn adds_affix(&self) -> (r: bool)
        ensures
            r == self@.does_only_action("add"@),
    {
        self.does_only_action("add")
    }

    /// Whether every outcome is a removing.
    pub fn removes_affix(&self) -> (r: bool)
        ensures
            r == self@.does_only_action("remove"@),
    {
        self.does_only_action("remove")
    }

    /// Whether every outcome is a replacing.
    pub fn replaces_affix(&self) -> (r: bool)
        ensures
            r == self@.does_only_action("replace"@),
    {
        self.does_only_action("replace")
    }

    /// Whether the action only targets and is paired with `chaos`.
    pub fn expects_chaos(&self) -> (r: bool)
        ensures
            r == (self@.targets_affix() && self@.currency_text() == "chaos"@),
    {
        self.targets_affix() && self.is_paired_with("chaos")
    }

    /// Whether the action only targets and is paired with `annul`.
    pub fn expects_annul(&self) -> (r: bool)
        ensures
            r == (self@.targets_affix() && self@.currency_text() == "annul"@),
    {
        self.targets_affix() && self.is_paired_with("annul")
    }

    /// Whether the action is paired with `currency`.
    fn is_paired_with(&self, currency: &str) -> (r: bool)
        ensures
            r == (self@.currency_text() == currency@),
    {
        match &self.currency {
            Some(own) => is_text(own, currency),
            None => is_text(&String::new(), currency),
        }
    }

    /// Whether some outcome does `action` to `affix`.
    fn does_affix_action(&self, affix: &str, action: &str) -> (r: bool)
        ensures
            r == self@.does_affix_action(affix@, action@),
    {
        let mut i: usize = 0;
        while i < self.outcomes.len()
            invariant
                i <= self.outcomes.len(),
                forall|j: int| 0 <= j < i ==> !(#[trigger] self.outcomes@[j]).does(affix@, action@),
            decreases self.outcomes.len() - i,
        {
            if is_text(&self.outcomes[i].action, action) && is_text(&self.outcomes[i].affix, affix) {
                assert(self@.outcomes[i as int].does(affix@, action@));
                return true;
            }
            i += 1;
        }
        false
    }

    /// Whether every outcome does `action` to `affix`.
    fn does_only_affix_action(&self, affix: &str, action: &str) -> (r: bool)
        ensures
            r == self@.does_only_affix_action(affix@, action@),
    {
        let mut i: usize = 0;
        while i < self.outcomes.len()
            invariant
                i <= self.outcomes.len(),
                forall|j: int| 0 <= j < i ==> (#[trigger] self.outcomes@[j]).does(affix@, action@),
            decreases self.outcomes.len() - i,
        {
            if !(is_text(&self.outcomes[i].action, action) && is_text(
                &self.outcomes[i].affix,
                affix,
            )) {
                assert(!self@.outcomes[i as int].does(affix@, action@));
                return false;
            }
            i += 1;
        }
        true
    }

    /// Whether every outcome is an `action`.
    fn does_only_action(&self, action: &str) -> (r: bool)
        ensures
            r == self@.does_only_action(action@),
    {
        let mut i: usize = 0;
        while i < self.outcomes.len()
            invariant
                i <= self.outcomes.len(),
                forall|j: int| 0 <= j < i ==> (#[trigger] self.outcomes@[j]).action@ == action@,
            decreases self.outcomes.len() - i,
        {
            if !is_text(&self.outcomes[i].action, action) {
                assert(self@.outcomes[i as int].action@ != action@);
                return false;
            }
            i += 1;
        }
        true
    }
}

/// A copy of an optional string.
pub fn clone_optional_text(text: &Option<String>) -> (r: Option<String>)
    ensures
        r == *text,
{
    match text {
        Some(text) => Some(text.clone()),
        None => None,
    }
}

impl Clone for CraftAction {
    fn clone(&self) -> (r: Self)
        ensures
            r@ == self@,
    {
        let outcomes = self.outcomes.clone();
        assert(outcomes@ =~= self.outcomes@);
        CraftAction {
            name: self.name.clone(),
            id: self.id.clone(),
            cost: self.cost,
            currency: clone_optional_text(&self.currency),
            rarity: clone_optional_text(&self.rarity),
            outcomes,
        }
    }
}

} // verus!
