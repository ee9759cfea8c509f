//! Random draws.

pub mod randomizer;
