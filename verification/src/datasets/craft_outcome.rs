use vstd::prelude::*;

verus! {

/// Represents a potential crafting outcome.
///
/// `probability` is a relative weight in whole units: an outcome is drawn
/// with a chance in proportion to it.
#[derive(Debug, Default, PartialEq, Eq)]
pub struct CraftOutcome {
    pub action: String,
    pub affix: String,
    pub count: Option<u8>,
    pub probability: u32,
}

impl CraftOutcome {
    /// Whether the outcome does `action` to `affix`.
    pub open spec fn does(&self, affix: Seq<char>, action: Seq<char>) -> bool {
        self.action@ == action && self.affix@ == affix
    }

    /// How often the outcome is applied: `count`, or once without one.
    pub open spec fn times(&self) -> u8 {
        match self.count {
            Some(count) => count,
            None => 1,
        }
    }
}

impl Clone for CraftOutcome {
    fn clone(&self) -> (r: Self)
        ensures
            r == *self,
    {
        CraftOutcome {
            action: self.action.clone(),
            affix: self.affix.clone(),
            count: self.count,
            probability: self.probability,
        }
    }
}

} // verus!
