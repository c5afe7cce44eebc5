//! Errors of the string and process builtins.

use vstd::prelude::*;
use crate::data::{Datum, SDatum, SVal, Val, datum_models};
use crate::interpreter::exec::Failure;

verus! {

/// A string index that is not in the string.
pub struct BadStringIndex(pub isize);

impl BadStringIndex {
    /// This error as a failure: `bad-string-index`, with the index.
    pub fn failure(&self) -> (r: Failure)
        ensures
            r.name_spec() == "bad-string-index"@,
            r.args_spec() == seq![SDatum { value: SVal::Int(self.0 as int), source: None }],
    {
        let mut args: Vec<Datum> = Vec::new();
        args.push(Datum::new(Val::Int(self.0 as i64)));
        proof { assert(datum_models(args@) =~= seq![SDatum { value: SVal::Int(self.0 as int), source: None }]); }
        Failure::new("bad-string-index".to_string(), args)
    }
}

/// Bytes that are not a valid string.
pub struct InvalidString();

impl InvalidString {
    /// This error as a failure: `invalid-string`, with nothing more.
    pub fn failure(&self) -> (r: Failure)
        ensures r.name_spec() == "invalid-string"@, r.args_spec() == Seq::<SDatum>::empty(),
    {
        proof { assert(datum_models(Seq::<Datum>::empty()) =~= Seq::<SDatum>::empty()); }
        Failure::new("invalid-string".to_string(), Vec::new())
    }
}

/// A process port that the process does not have.
pub struct NoSuchPort();

impl NoSuchPort {
    /// `Process does not have that port`.
    pub fn message(&self) -> (r: &'static str)
        ensures r@ == "Process does not have that port"@,
    {
        "Process does not have that port"
    }
}

} // verus!
