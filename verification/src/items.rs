//! Item-related entities and behaviors.

pub mod item_state;
pub mod modifier;
