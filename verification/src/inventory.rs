//! Items, and an inventory that holds them up to a weight limit.

pub mod items;
pub mod management;
