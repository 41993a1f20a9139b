//! Hierarchical task networks: conditions over the properties of an entity,
//! effects on them, and plans of operators ranked by their method traversal
//! record.
//!
//! Entities are given by their bits (`Entity::to_bits`).

pub mod condition;
pub mod effect;
pub mod plan;
pub mod props;
mod shared;
pub mod task;
pub mod text;

pub use estr::Estr;
