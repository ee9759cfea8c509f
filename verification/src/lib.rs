//! A search for cheap crafting sequences, and the odds of merging items.
//!
//! An item holds prefixes and suffixes. Crafting actions add, remove,
//! replace and target them at random, by the weights of the datasets. A
//! [`crafting::solver::Solver`] holds the datasets, simulates runs of
//! actions towards a target item and keeps the cheapest sequence that
//! met it, and works out the chances that a merge of two items keeps the
//! tiers of their modifiers.
//!
//! Every function states what it returns over the views of the types.
//! Where a random draw decides, the contract states what can come out;
//! the draws themselves are the only part that is taken on trust, in
//! [`random::randomizer`].

pub mod crafting;
pub mod datasets;
pub mod items;
pub mod logger;
pub mod lookup;
pub mod random;
pub mod text;
