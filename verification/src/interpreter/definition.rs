//! A named body of code.

use vstd::prelude::*;
use crate::data::{Datum, SDatum, Symbol, datum_models};

verus! {

/// A body of code and, once it has been defined under one, its name.
pub struct Definition {
    name: Option<Symbol>,
    body: Vec<Datum>,
}

impl Definition {
    /// The name, if it has one.
    pub closed spec fn name_spec(&self) -> Option<Symbol> {
        self.name
    }

    /// The body.
    pub closed spec fn body_spec(&self) -> Seq<Datum> {
        self.body@
    }

    /// An unnamed definition with the given body.
    pub fn new(body: Vec<Datum>) -> (r: Definition)
        ensures r.name_spec() is None, r.body_spec() == body@,
    {
        Definition { name: None, body }
    }

    /// The same definition, named `name`.
    pub fn with_name(self, name: Symbol) -> (r: Definition)
        ensures r.name_spec() == Some(name), r.body_spec() == self.body_spec(),
    {
        let mut d = self;
        d.set_name(name);
        d
    }

    /// Name this definition.
    pub fn set_name(&mut self, name: Symbol)
        ensures final(self).name_spec() == Some(name), final(self).body_spec() == old(self).body_spec(),
    {
        self.name = Some(name);
    }

    /// The body.
    pub fn program(&self) -> (r: &Vec<Datum>)
        ensures r@ == self.body_spec(),
    {
        &self.body
    }

    /// The name, if it has one.
    pub fn name(&self) -> (r: Option<&Symbol>)
        ensures
            match self.name_spec() {
                Some(n) => r == Some(&n),
                None => r is None,
            },
    {
        match self.name {
            Some(ref n) => Some(n),
            None => None,
        }
    }

    /// Take the name away, leaving the definition unnamed.
    pub fn take_name(&mut self) -> (r: Option<Symbol>)
        ensures
            r == old(self).name_spec(),
            final(self).name_spec() is None,
            final(self).body_spec() == old(self).body_spec(),
    {
        let n = self.name.take();
        n
    }

    /// A copy of this definition with the same name and the same models of
    /// its body.
    pub fn copy(&self) -> (r: Definition)
        ensures
            r.name_spec() == self.name_spec(),
            datum_models(r.body_spec()) == datum_models(self.body_spec()),
    {
        let mut body: Vec<Datum> = Vec::new();
        let mut i: usize = 0;
        while i < self.body.len()
            invariant
                i <= self.body@.len(),
                body@.len() == i,
                forall|j: int| 0 <= j < i ==> (#[trigger] body@[j]).model() == self.body@[j].model(),
            decreases self.body@.len() - i,
        {
            body.push(self.body[i].deep_clone());
            i += 1;
        }
        let name = match self.name {
            Some(ref n) => Some(n.clone()),
            None => None,
        };
        proof { assert(datum_models(body@) =~= datum_models(self.body@)); }
        Definition { name, body }
    }
}

} // verus!
