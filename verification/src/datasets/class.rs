use vstd::prelude::*;

verus! {

/// Represents an item class.
#[derive(Debug, Default, PartialEq, Eq)]
pub struct Class {
    pub name: String,
    pub id: String,
}

} // verus!
