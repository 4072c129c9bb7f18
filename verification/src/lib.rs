//! Turns raw vector-icon markup into template fragments and assembles the
//! registry of generated icon components.

pub mod casing;
pub mod collection;
pub mod compile;
pub mod identity;
pub mod normalize;
pub mod order;
pub mod pattern;
pub mod registry;
pub mod render;
pub mod text;
pub mod tokens;
