//! A capacity-bounded key/value cache whose eviction order is decided by a
//! pluggable policy (`cache`, `policy`), and beside it a set of small,
//! independent modules: rules that sanitize and validate a value
//! (`validation`), a filter-transform-aggregate pipeline (`pipeline`),
//! line search (`grep`, `search`), `key=value` settings (`config_reader`),
//! an inventory with crafting (`inventory`, `craft`), fighters in an arena
//! (`player`, `arena`), and a few exercises on numbers, strings and records.
//!
//! Every executable function carries a contract that Verus proves.  What the
//! crate takes on trust of the standard library and of the `regex` and
//! `rand` crates is stated where it is used, most of it in `text`.

pub mod arena;
pub mod cache;
pub mod config_reader;
pub mod craft;
pub mod fibo;
pub mod grep;
pub mod guessing_game;
pub mod inventory;
pub mod ownership;
pub mod packet;
pub mod pipeline;
pub mod player;
pub mod policy;
pub mod prompt;
pub mod rect;
pub mod search;
pub mod ship;
pub mod text;
pub mod user;
pub mod validation;
