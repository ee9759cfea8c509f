//! Crafting-related behaviors.

pub mod affix_candidate;
pub mod choosing;
pub mod crafter;
pub mod dataset_error;
pub mod outcomes;
pub mod rarity;
pub mod recombiner;
pub mod simulation;
pub mod slots;
pub mod solver;
pub mod validity;
