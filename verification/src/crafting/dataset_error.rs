use vstd::prelude::*;
use vstd::string::StringExecFns;

verus! {

/// What can be wrong with the datasets that a solver holds, or between
/// them and an item.
#[derive(Debug, Clone, Copy, PartialEq, Eq)]
pub enum DatasetError {
    /// A table of a class is of an affix that the modifiers do not have.
    UnknownAffix,
    /// A table of a class has no tier that can be drawn, or one that can
    /// be drawn and has no usable value.
    UnusableTier,
    /// An action has no outcome that can be drawn.
    NoOutcome,
    /// The item table does not have the base of an item.
    UnknownBase,
    /// No class tier list is for the class of an item.
    UnknownClass,
    /// The weights of a class at an item level do not fit in 32 bits.
    WeightOverflow,
}

impl DatasetError {
    /// What the error says.
    pub open spec fn text(self) -> Seq<char> {
        match self {
            DatasetError::UnknownAffix => {
                "a class tier list names an affix that is not among the modifiers"@
            },
            DatasetError::UnusableTier => {
                "an affix has no tier that can be drawn, or one without a usable value"@
            },
            DatasetError::NoOutcome => "a crafting action has no outcome that can be drawn"@,
            DatasetError::UnknownBase => "could not find matching item"@,
            DatasetError::UnknownClass => "cannot find class tiers for the selected item"@,
            DatasetError::WeightOverflow => "the weights of a class do not fit in 32 bits"@,
        }
    }

    /// What the error says.
    pub fn message(&self) -> (r: String)
        ensures
            r@ == self.text(),
    {
        match self {
            DatasetError::UnknownAffix => String::from_str(
                "a class tier list names an affix that is not among the modifiers",
            ),
            DatasetError::UnusableTier => String::from_str(
                "an affix has no tier that can be drawn, or one without a usable value",
            ),
            DatasetError::NoOutcome => String::from_str(
                "a crafting action has no outcome that can be drawn",
            ),
            DatasetError::UnknownBase => String::from_str("could not find matching item"),
            DatasetError::UnknownClass => String::from_str(
                "cannot find class tiers for the selected item",
            ),
            DatasetError::WeightOverflow => String::from_str(
                "the weights of a class do not fit in 32 bits",
            ),
        }
    }
}

} // verus!
