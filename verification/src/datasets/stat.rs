use vstd::prelude::*;

verus! {

/// Represents an item's required stats.
#[derive(Debug, Default, PartialEq, Eq)]
pub struct Stat {
    pub armor: Option<u16>,
    pub dexterity: Option<u16>,
    pub intelligence: Option<u16>,
}

} // verus!
