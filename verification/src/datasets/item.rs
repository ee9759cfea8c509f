use crate::datasets::affix_range::AffixRange;
use crate::datasets::stat::Stat;
use vstd::prelude::*;

verus! {

/// Represents an item.
#[derive(Debug, Default, PartialEq, Eq)]
pub struct Item {
    pub name: String,
    pub class: String,
    pub stats: Option<Vec<Stat>>,
    pub character_level: Option<u8>,
    pub implicits: Option<Vec<AffixRange>>,
}

} // verus!
