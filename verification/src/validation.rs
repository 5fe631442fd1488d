//! Sanitizing and validating a value through two lists of rules.

pub mod data_holder;
pub mod errors;
pub mod processor;
pub mod rules;
pub mod sanitizer;
pub mod validator;
