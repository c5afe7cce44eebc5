//! Errors of the rule-driven parser.

pub mod error;
