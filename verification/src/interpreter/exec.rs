//! Failures: named errors with values attached.

use vstd::prelude::*;
use crate::data::{Datum, SDatum, Val, datum_models};

verus! {

/// A failure: its name and the values that go with it.
pub struct Failure {
    name: String,
    args: Vec<Datum>,
}

impl Failure {
    /// The name of this failure.
    pub closed spec fn name_spec(&self) -> Seq<char> {
        self.name@
    }

    /// The models of the values that go with it.
    pub closed spec fn args_spec(&self) -> Seq<SDatum> {
        datum_models(self.args@)
    }

    /// A failure named `name` with the values `args`.
    pub fn new(name: String, args: Vec<Datum>) -> (r: Failure)
        ensures r.name_spec() == name@, r.args_spec() == datum_models(args@),
    {
        Failure { name, args }
    }

    /// The name of this failure.
    pub fn name(&self) -> (r: &str)
        ensures r@ == self.name_spec(),
    {
        self.name.as_str()
    }

    /// The values that go with it.
    pub fn args(&self) -> (r: &Vec<Datum>)
        ensures datum_models(r@) == self.args_spec(),
    {
        &self.args
    }
}

/// There was nothing on the stack where a value was needed.
pub struct StackEmpty;

impl StackEmpty {
    /// This error as a failure named `stack-empty`.
    pub fn failure(&self) -> (r: Failure)
        ensures r.name_spec() == "stack-empty"@, r.args_spec() == Seq::<SDatum>::empty(),
    {
        proof { assert(datum_models(Seq::<Datum>::empty()) =~= Seq::<SDatum>::empty()); }
        Failure { name: "stack-empty".to_string(), args: Vec::new() }
    }
}

} // verus!
