//! Interpreter state: definitions, code, environments, the value stack,
//! the context of running code, failures and generators.

pub mod async_gen;
pub mod definition;
pub mod code;
pub mod env;
pub mod exec;
pub mod stack;
pub mod context;
pub mod exception;
pub mod base;
