//! Code that a name can stand for: a builtin, or a body of values read
//! from somewhere.

use vstd::prelude::*;
use std::rc::Rc;
use crate::data::{Datum, SDatum, datum_models};
use crate::parser::data::Source;

verus! {

/// A body of values and where it was read from.
pub struct Definition {
    source: Option<Source>,
    body: Vec<Datum>,
}

impl Definition {
    /// Where this body was read from.
    pub closed spec fn source_spec(&self) -> Option<Source> {
        self.source
    }

    /// The body.
    pub closed spec fn body_spec(&self) -> Seq<Datum> {
        self.body@
    }

    /// A body read from nowhere in particular.
    pub fn new(body: Vec<Datum>) -> (r: Definition)
        ensures r.source_spec() is None, r.body_spec() == body@,
    {
        Definition { source: None, body }
    }

    /// The same body, read from `s`.
    pub fn with_source(self, s: Option<Source>) -> (r: Definition)
        ensures r.source_spec() == s, r.body_spec() == self.body_spec(),
    {
        let mut d = self;
        d.source = s;
        d
    }

    /// The body.
    pub fn program(&self) -> (r: &Vec<Datum>)
        ensures r@ == self.body_spec(),
    {
        &self.body
    }

    /// Where this body was read from.
    pub fn source(&self) -> (r: Option<&Source>)
        ensures
            match self.source_spec() {
                Some(s) => r == Some(&s),
                None => r is None,
            },
    {
        match self.source {
            Some(ref s) => Some(s),
            None => None,
        }
    }
}

/// What code does when it runs.
pub enum Instruction {
    /// Run the builtin with this number.
    Builtin(u64),
    /// Run a body of values.
    Definition(Rc<Definition>),
}

/// Runnable code, with optional metadata attached.
pub struct Code {
    meta: Option<Datum>,
    value: Instruction,
}

impl Code {
    /// The metadata attached.
    pub closed spec fn meta_spec(&self) -> Option<Datum> {
        self.meta
    }

    /// What this code does.
    pub closed spec fn value_spec(&self) -> Instruction {
        self.value
    }

    /// Code that does `value`, with no metadata.
    pub fn new(value: Instruction) -> (r: Code)
        ensures r.meta_spec() is None, r.value_spec() == value,
    {
        Code { meta: None, value }
    }

    /// What this code does.
    pub fn value(&self) -> (r: &Instruction)
        ensures *r == self.value_spec(),
    {
        &self.value
    }

    /// The metadata attached, if any.
    pub fn meta(&self) -> (r: Option<&Datum>)
        ensures
            match self.meta_spec() {
                Some(m) => r == Some(&m),
                None => r is None,
            },
    {
        match self.meta {
            Some(ref m) => Some(m),
            None => None,
        }
    }

    /// Take the metadata away.
    pub fn take_meta(&mut self) -> (r: Option<Datum>)
        ensures
            r == old(self).meta_spec(),
            final(self).meta_spec() is None,
            final(self).value_spec() == old(self).value_spec(),
    {
        self.meta.take()
    }

    /// Attach metadata, replacing any.
    pub fn set_meta(&mut self, meta: Datum)
        ensures
            final(self).meta_spec() == Some(meta),
            final(self).value_spec() == old(self).value_spec(),
    {
        self.meta = Some(meta);
    }

    /// Where a body's code was read from; builtins come from nowhere.
    pub fn source(&self) -> (r: Option<Source>)
        ensures
            match self.value_spec() {
                Instruction::Definition(d) => r == d.source_spec(),
                Instruction::Builtin(_) => r is None,
            },
    {
        match self.value {
            Instruction::Definition(ref d) => match d.source() {
                Some(s) => Some(s.copy()),
                None => None,
            },
            Instruction::Builtin(_) => None,
        }
    }

    /// Code that runs the body `d`.
    pub fn from_definition(d: Definition) -> (r: Code)
        ensures r.meta_spec() is None, r.value_spec() == Instruction::Definition(Rc::new(d)),
    {
        Code::new(Instruction::Definition(Rc::new(d)))
    }

    /// Code that runs the builtin numbered `b`.
    pub fn from_builtin(b: u64) -> (r: Code)
        ensures r.meta_spec() is None, r.value_spec() == Instruction::Builtin(b),
    {
        Code::new(Instruction::Builtin(b))
    }
}

} // verus!
