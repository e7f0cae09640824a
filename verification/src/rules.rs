//! The rule engine and its built-in rules.
pub mod cognitive_complexity_check;
pub mod parsing_error_check;
pub mod rule;
