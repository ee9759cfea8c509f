//! The data entities that the datasets are made of.

pub mod affix;
pub mod affix_range;
pub mod affix_tier;
pub mod class;
pub mod class_tier;
pub mod class_tiers;
pub mod craft_action;
pub mod craft_actions;
pub mod craft_outcome;
pub mod hybrid_modifier_tier;
pub mod item;
pub mod items;
pub mod modifier_tier;
pub mod modifiers;
pub mod stat;
