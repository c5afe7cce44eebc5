//! Small pieces shared by the ways of evaluating code.

use vstd::prelude::*;
use crate::data::{Val, SVal, Datum, SDatum, ValKind};

verus! {

/// A scope to get definitions from or add them to.
#[derive(PartialEq, Eq, Structural, Clone, Copy, Debug)]
pub enum DefScope {
    /// Local definitions start out empty.
    Local,
    /// These definitions are inherited from the defining environment.
    DefEnv,
}

/// What is known of a definition (its name), to make stack traces useful.
pub struct DefineMeta {
    /// Name of the definition.
    pub name: Option<String>,
}

impl Default for DefineMeta {
    fn default() -> (r: DefineMeta)
        ensures r.name is None,
    {
        DefineMeta { name: None }
    }
}

/// Something that can be evaluated.
pub trait Eval: Sized {
    /// Whether evaluating it needs its definition metadata (lists do,
    /// builtins do not).
    spec fn needs_meta(&self) -> bool;

    /// The value itself.
    fn into_val(self) -> (r: Val);

    /// Whether evaluating it needs its definition metadata.
    fn eval_meta(&self) -> (r: bool)
        ensures r == self.needs_meta();
}

impl Eval for Val {
    open spec fn needs_meta(&self) -> bool {
        self.model() is List
    }

    fn into_val(self) -> (r: Val)
        ensures r == self,
    {
        self
    }

    fn eval_meta(&self) -> (r: bool) {
        self.kind() == ValKind::List
    }
}

/// What a builtin gives back, as one value.
pub trait BuiltinFnRet: Sized {
    /// As a value.
    fn into_datum(self) -> (r: Datum);
}

impl BuiltinFnRet for Datum {
    fn into_datum(self) -> (r: Datum)
        ensures r == self,
    {
        self
    }
}

impl BuiltinFnRet for Val {
    fn into_datum(self) -> (r: Datum)
        ensures r.model() == (SDatum { value: self.model(), source: None }),
    {
        Datum::new(self)
    }
}

/// What a builtin gives back, as values to push in order.
pub trait BuiltinFnRets: Sized {
    /// As values to push in order.
    fn into_datums(self) -> (r: Vec<Datum>);
}

impl BuiltinFnRets for () {
    fn into_datums(self) -> (r: Vec<Datum>)
        ensures r@.len() == 0,
    {
        Vec::new()
    }
}

impl BuiltinFnRets for Datum {
    fn into_datums(self) -> (r: Vec<Datum>)
        ensures r@ == seq![self],
    {
        let mut v = Vec::new();
        v.push(self);
        v
    }
}

impl BuiltinFnRets for (Datum, Datum) {
    fn into_datums(self) -> (r: Vec<Datum>)
        ensures r@ == seq![self.0, self.1],
    {
        let mut v = Vec::new();
        v.push(self.0);
        v.push(self.1);
        v
    }
}

impl BuiltinFnRets for (Datum, Datum, Datum) {
    fn into_datums(self) -> (r: Vec<Datum>)
        ensures r@ == seq![self.0, self.1, self.2],
    {
        let mut v = Vec::new();
        v.push(self.0);
        v.push(self.1);
        v.push(self.2);
        v
    }
}

/// Commands that are a fixed, numbered list with names.
pub trait EnumCommand: Sized {
    /// The name of this command.
    fn as_str(&self) -> &str;
    /// The last command.
    fn last() -> Self;
    /// The command numbered `u`.
    fn from_usize(u: usize) -> Self;
}

} // verus!
