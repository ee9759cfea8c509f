use vstd::prelude::*;

verus! {

/// Represents an affix with ranges of values.
#[derive(Debug, Default, PartialEq, Eq)]
pub struct AffixRange {
    pub affix: String,
    pub range: Option<[u8; 2]>,
    pub min: Option<[u8; 2]>,
    pub max: Option<[u8; 2]>,
}

} // verus!
