//! Data of the standard library: tables, records, file options, ports and
//! errors.

pub mod hashtable;
pub mod record;
pub mod file;
pub mod errors;
pub mod combo;
pub mod ops;
pub mod port;
pub mod strings;
