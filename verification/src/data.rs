//! Values of the language, their mathematical model, and small helpers
//! over strings and characters.

use vstd::prelude::*;
use crate::list::List;
use crate::parser::data::Source;

verus! {

/// A value of the language.
///
/// Floating-point numbers are kept as the decimal text that was read,
/// which is exactly what the float syntax accepts; converting that text
/// to a machine float is left to the host program.
#[derive(Debug)]
pub enum Val {
    /// `#t` / `#f`
    Bool(bool),
    /// A 64-bit integer.
    Int(i64),
    /// A floating-point literal, as written.
    Float(String),
    /// A single character.
    Char(char),
    /// A string.
    Str(String),
    /// A symbol (a name).
    Symbol(String),
    /// A list of values.
    List(List),
    /// A byte vector.
    Bytes(Vec<u8>),
    /// A reference to a host-provided builtin, by number.
    Builtin(u64),
}

/// The mathematical model of a [Val]: strings become character sequences
/// and lists become sequences of models, front first.
pub enum SVal {
    Bool(bool),
    Int(int),
    Float(Seq<char>),
    Char(char),
    Str(Seq<char>),
    Symbol(Seq<char>),
    /// The values, front first, and the definitions carried, by number.
    List(Seq<SVal>, Option<u64>),
    Bytes(Seq<u8>),
    Builtin(u64),
}

impl Val {
    /// The model of this value.
    pub open spec fn model(&self) -> SVal
        decreases self,
    {
        match self {
            Val::Bool(b) => SVal::Bool(*b),
            Val::Int(i) => SVal::Int(*i as int),
            Val::Float(s) => SVal::Float(s@),
            Val::Char(c) => SVal::Char(*c),
            Val::Str(s) => SVal::Str(s@),
            Val::Symbol(s) => SVal::Symbol(s@),
            Val::List(l) => SVal::List(models_rev(l.data@), l.env),
            Val::Bytes(b) => SVal::Bytes(b@),
            Val::Builtin(n) => SVal::Builtin(*n),
        }
    }

    /// A symbol with the given name.
    pub fn symbol(s: String) -> (r: Val)
        ensures r.model() == SVal::Symbol(s@),
    {
        Val::Symbol(s)
    }

    /// Whether this value is a symbol.
    pub fn is_symbol(&self) -> (r: bool)
        ensures r == (self.model() is Symbol),
    {
        match self {
            Val::Symbol(_) => true,
            _ => false,
        }
    }

    /// The kind of this value.
    pub fn kind(&self) -> (r: ValKind)
        ensures r == self.model().kind(),
    {
        match self {
            Val::Bool(_) => ValKind::Bool,
            Val::Int(_) => ValKind::Int,
            Val::Float(_) => ValKind::Float,
            Val::Char(_) => ValKind::Char,
            Val::Str(_) => ValKind::Str,
            Val::Symbol(_) => ValKind::Symbol,
            Val::List(_) => ValKind::List,
            Val::Bytes(_) => ValKind::Bytes,
            Val::Builtin(_) => ValKind::Builtin,
        }
    }

    /// Whether two values have the same model.
    pub fn equals(&self, other: &Val) -> (r: bool)
        ensures r == (self.model() == other.model()),
        decreases self,
    {
        match (self, other) {
            (Val::Bool(a), Val::Bool(b)) => *a == *b,
            (Val::Int(a), Val::Int(b)) => *a == *b,
            (Val::Float(a), Val::Float(b)) => *a == *b,
            (Val::Char(a), Val::Char(b)) => *a == *b,
            (Val::Str(a), Val::Str(b)) => *a == *b,
            (Val::Symbol(a), Val::Symbol(b)) => *a == *b,
            (Val::Builtin(a), Val::Builtin(b)) => *a == *b,
            (Val::Bytes(a), Val::Bytes(b)) => {
                if a.len() != b.len() {
                    return false;
                }
                let mut i: usize = 0;
                while i < a.len()
                    invariant
                        i <= a@.len(),
                        a@.len() == b@.len(),
                        forall|j: int| 0 <= j < i ==> a@[j] == b@[j],
                        self.model() == SVal::Bytes(a@),
                        other.model() == SVal::Bytes(b@),
                    decreases a@.len() - i,
                {
                    if a[i] != b[i] {
                        return false;
                    }
                    i += 1;
                }
                proof { assert(a@ =~= b@); }
                true
            },
            (Val::List(a), Val::List(b)) => {
                proof {
                    lemma_models_rev_len(a.data@);
                    lemma_models_rev_len(b.data@);
                }
                if a.data.len() != b.data.len() {
                    return false;
                }
                let same_env = match (a.env, b.env) {
                    (Some(x), Some(y)) => x == y,
                    (None, None) => true,
                    _ => false,
                };
                if !same_env {
                    return false;
                }
                let n = a.data.len();
                let mut i: usize = 0;
                while i < n
                    invariant
                        i <= n,
                        n == a.data@.len(),
                        n == b.data@.len(),
                        forall|j: int| 0 <= j < i ==> (#[trigger] a.data@[j]).model() == b.data@[j].model(),
                        self.model() == SVal::List(models_rev(a.data@), a.env),
                        other.model() == SVal::List(models_rev(b.data@), b.env),
                        a.env == b.env,
                        models_rev(a.data@).len() == n,
                        models_rev(b.data@).len() == n,
                        *self == Val::List(*a),
                    decreases n - i,
                {
                    proof {
                        assert(decreases_to!(*self => *a));
                        assert(decreases_to!(*a => a.data));
                        assert(decreases_to!(a.data => a.data@));
                        assert(decreases_to!(a.data@ => a.data@[i as int]));
                    }
                    if !a.data[i].equals(&b.data[i]) {
                        proof {
                            lemma_models_rev_index(a.data@, n - 1 - i);
                            lemma_models_rev_index(b.data@, n - 1 - i);
                        }
                        return false;
                    }
                    i += 1;
                }
                proof { crate::list::lemma_models_rev_ext(a.data@, b.data@); }
                true
            },
            _ => false,
        }
    }

    /// Whether two values are equal as the language's `equal?` sees them:
    /// floats are compared as numbers, which the host does with `feq` on
    /// their texts; lists are equal when their values are, one by one;
    /// anything else when the models are.
    pub fn equals_with<F: Fn(&String, &String) -> bool>(&self, other: &Val, feq: &F) -> (r: bool)
        requires
            forall|a: &String, b: &String| #[trigger] feq.requires((a, b)),
            texts_decide(*feq),
        ensures r == equal_under(self.model(), other.model(), float_rel(*feq)),
        decreases self,
    {
        match (self, other) {
            (Val::Float(a), Val::Float(b)) => {
                let r = feq(a, b);
                proof {
                    assert(feq.ensures((a, b), r));
                    if !r {
                        assert(!float_rel(*feq)(a@, b@));
                    }
                }
                r
            },
            (Val::List(a), Val::List(b)) => {
                proof {
                    lemma_models_rev_len(a.data@);
                    lemma_models_rev_len(b.data@);
                    lemma_all_equal_under(models_rev(a.data@), models_rev(b.data@), float_rel(*feq));
                }
                if a.data.len() != b.data.len() {
                    return false;
                }
                let n = a.data.len();
                let mut i: usize = 0;
                while i < n
                    invariant
                        i <= n,
                        n == a.data@.len(),
                        n == b.data@.len(),
                        forall|a2: &String, b2: &String| #[trigger] feq.requires((a2, b2)),
                        texts_decide(*feq),
                        forall|j: int| 0 <= j < i ==> equal_under((#[trigger] a.data@[j]).model(), b.data@[j].model(), float_rel(*feq)),
                        self.model() == SVal::List(models_rev(a.data@), a.env),
                        other.model() == SVal::List(models_rev(b.data@), b.env),
                        models_rev(a.data@).len() == n,
                        models_rev(b.data@).len() == n,
                        *self == Val::List(*a),
                    decreases n - i,
                {
                    proof {
                        assert(decreases_to!(*self => *a));
                        assert(decreases_to!(*a => a.data));
                        assert(decreases_to!(a.data => a.data@));
                        assert(decreases_to!(a.data@ => a.data@[i as int]));
                    }
                    if !a.data[i].equals_with(&b.data[i], feq) {
                        proof {
                            lemma_models_rev_index(a.data@, n - 1 - i);
                            lemma_models_rev_index(b.data@, n - 1 - i);
                            lemma_all_equal_under(models_rev(a.data@), models_rev(b.data@), float_rel(*feq));
                            assert(!equal_under(models_rev(a.data@)[n - 1 - i], models_rev(b.data@)[n - 1 - i], float_rel(*feq)));
                        }
                        return false;
                    }
                    i += 1;
                }
                proof {
                    assert forall|k: int| 0 <= k < n implies
                        equal_under(#[trigger] models_rev(a.data@)[k], models_rev(b.data@)[k], float_rel(*feq)) by {
                        lemma_models_rev_index(a.data@, k);
                        lemma_models_rev_index(b.data@, k);
                        assert(equal_under(a.data@[n - 1 - k].model(), b.data@[n - 1 - k].model(), float_rel(*feq)));
                    }
                }
                true
            },
            (Val::Float(_), _) => false,
            (Val::List(_), _) => false,
            _ => self.equals(other),
        }
    }

    /// A copy of this value with the same model.
    pub fn deep_clone(&self) -> (r: Val)
        ensures r.model() == self.model(),
        decreases self,
    {
        match self {
            Val::Bool(b) => Val::Bool(*b),
            Val::Int(i) => Val::Int(*i),
            Val::Float(s) => Val::Float(s.clone()),
            Val::Char(c) => Val::Char(*c),
            Val::Str(s) => Val::Str(s.clone()),
            Val::Symbol(s) => Val::Symbol(s.clone()),
            Val::List(l) => Val::List(l.deep_clone()),
            Val::Bytes(b) => Val::Bytes(b.clone()),
            Val::Builtin(n) => Val::Builtin(*n),
        }
    }
}

impl Clone for Val {
    /// A copy with the same model.
    fn clone(&self) -> (r: Val)
        ensures r.model() == self.model(),
    {
        self.deep_clone()
    }
}

/// A symbol is named by a string.
pub type Symbol = String;

/// A value together with the place it was read from, if known.
pub struct Datum {
    pub value: Val,
    pub source: Option<Source>,
}

/// The model of a [Datum].
pub struct SDatum {
    pub value: SVal,
    pub source: Option<Source>,
}

impl Datum {
    /// The model of this datum.
    pub open spec fn model(&self) -> SDatum {
        SDatum { value: self.value.model(), source: self.source }
    }

    /// A datum with no known source.
    pub fn new(value: Val) -> (r: Datum)
        ensures r.model() == (SDatum { value: value.model(), source: None }),
    {
        Datum { value, source: None }
    }

    /// A symbol datum with no known source.
    pub fn symbol(s: String) -> (r: Datum)
        ensures r.model() == (SDatum { value: SVal::Symbol(s@), source: None }),
    {
        Datum { value: Val::Symbol(s), source: None }
    }

    /// The same datum, read from `source`.
    pub fn with_source(self, source: Option<Source>) -> (r: Datum)
        ensures r.model() == (SDatum { value: self.value.model(), source }),
    {
        Datum { value: self.value, source }
    }

    /// Where this datum was read from.
    pub fn source(&self) -> (r: Option<&Source>)
        ensures r == match self.source { Some(s) => Some(&s), None => None::<&Source> },
    {
        match self.source {
            Some(ref s) => Some(s),
            None => None,
        }
    }

    /// A copy of this datum with the same model.
    pub fn deep_clone(&self) -> (r: Datum)
        ensures r.model() == self.model(),
    {
        Datum {
            value: self.value.deep_clone(),
            source: match self.source {
                Some(ref s) => Some(s.copy()),
                None => None,
            },
        }
    }
}

/// The models of a sequence of datums, in order.
pub open spec fn datum_models(s: Seq<Datum>) -> Seq<SDatum> {
    s.map_values(|d: Datum| d.model())
}

/// The kind of a value, for type tests.
#[derive(PartialEq, Eq, Structural, Clone, Copy, Debug)]
pub enum ValKind {
    Bool,
    Int,
    Float,
    Char,
    Str,
    Symbol,
    List,
    Bytes,
    Builtin,
}

/// The name of a kind of value.
pub open spec fn kind_name_spec(k: ValKind) -> Seq<char> {
    match k {
        ValKind::Bool => "bool"@,
        ValKind::Int => "int"@,
        ValKind::Float => "float"@,
        ValKind::Char => "char"@,
        ValKind::Str => "string"@,
        ValKind::Symbol => "symbol"@,
        ValKind::List => "list"@,
        ValKind::Bytes => "u8vector"@,
        ValKind::Builtin => "builtin"@,
    }
}

impl ValKind {
    /// The name of this kind of value.
    pub fn name(&self) -> (r: &'static str)
        ensures r@ == kind_name_spec(*self),
    {
        match self {
            ValKind::Bool => "bool",
            ValKind::Int => "int",
            ValKind::Float => "float",
            ValKind::Char => "char",
            ValKind::Str => "string",
            ValKind::Symbol => "symbol",
            ValKind::List => "list",
            ValKind::Bytes => "u8vector",
            ValKind::Builtin => "builtin",
        }
    }
}

impl SVal {
    /// The kind of this model.
    pub open spec fn kind(&self) -> ValKind {
        match self {
            SVal::Bool(_) => ValKind::Bool,
            SVal::Int(_) => ValKind::Int,
            SVal::Float(_) => ValKind::Float,
            SVal::Char(_) => ValKind::Char,
            SVal::Str(_) => ValKind::Str,
            SVal::Symbol(_) => ValKind::Symbol,
            SVal::List(_, _) => ValKind::List,
            SVal::Bytes(_) => ValKind::Bytes,
            SVal::Builtin(_) => ValKind::Builtin,
        }
    }
}

/// The models of a reversed storage vector, front of the list first.
pub open spec fn models_rev(data: Seq<Val>) -> Seq<SVal>
    decreases data,
{
    if data.len() == 0 {
        Seq::empty()
    } else {
        seq![data.last().model()] + models_rev(data.drop_last())
    }
}

/// Whether two models are equal with floats compared by `feq` on their
/// texts: lists when their values are, one by one, front first; anything
/// else when the models are.
pub open spec fn equal_under(a: SVal, b: SVal, feq: spec_fn(Seq<char>, Seq<char>) -> bool) -> bool
    decreases a, 1int,
{
    match a {
        SVal::Float(x) => match b {
            SVal::Float(y) => feq(x, y),
            _ => false,
        },
        SVal::List(xs, _) => match b {
            SVal::List(ys, _) => all_equal_under(xs, ys, feq),
            _ => false,
        },
        _ => a == b,
    }
}

/// Whether two sequences of models are equal one by one under
/// [equal_under].
pub open spec fn all_equal_under(xs: Seq<SVal>, ys: Seq<SVal>, feq: spec_fn(Seq<char>, Seq<char>) -> bool) -> bool
    decreases xs, 0int,
{
    if xs.len() != ys.len() {
        false
    } else if xs.len() == 0 {
        true
    } else {
        equal_under(xs.last(), ys.last(), feq) && all_equal_under(xs.drop_last(), ys.drop_last(), feq)
    }
}

/// [all_equal_under] is equality at every index.
pub proof fn lemma_all_equal_under(xs: Seq<SVal>, ys: Seq<SVal>, feq: spec_fn(Seq<char>, Seq<char>) -> bool)
    ensures
        all_equal_under(xs, ys, feq) == (xs.len() == ys.len()
            && forall|i: int| 0 <= i < xs.len() ==> equal_under(#[trigger] xs[i], ys[i], feq)),
    decreases xs.len(),
{
    if xs.len() == ys.len() && xs.len() > 0 {
        lemma_all_equal_under(xs.drop_last(), ys.drop_last(), feq);
        if all_equal_under(xs, ys, feq) {
            assert forall|i: int| 0 <= i < xs.len() implies equal_under(#[trigger] xs[i], ys[i], feq) by {
                if i < xs.len() - 1 {
                    assert(xs[i] == xs.drop_last()[i]);
                    assert(ys[i] == ys.drop_last()[i]);
                }
            }
        } else {
            if forall|i: int| 0 <= i < xs.len() ==> equal_under(#[trigger] xs[i], ys[i], feq) {
                assert(equal_under(xs[xs.len() - 1], ys[ys.len() - 1], feq));
                assert forall|i: int| 0 <= i < xs.drop_last().len() implies
                    equal_under(#[trigger] xs.drop_last()[i], ys.drop_last()[i], feq) by {
                    assert(equal_under(xs[i], ys[i], feq));
                }
            }
        }
    }
}

/// The float comparison a host function makes on texts, as a relation on
/// the texts: what every call on those texts answers.
pub open spec fn float_rel<F: Fn(&String, &String) -> bool>(feq: F) -> spec_fn(Seq<char>, Seq<char>) -> bool {
    |x: Seq<char>, y: Seq<char>| forall|a: &String, b: &String, r: bool|
        a@ == x && b@ == y && #[trigger] feq.ensures((a, b), r) ==> r
}

/// Whether a host comparison answers by the texts alone: calls on equal
/// texts give the same answer.
pub open spec fn texts_decide<F: Fn(&String, &String) -> bool>(feq: F) -> bool {
    forall|a: &String, b: &String, c: &String, d: &String, r1: bool, r2: bool|
        a@ == c@ && b@ == d@ && #[trigger] feq.ensures((a, b), r1) && #[trigger] feq.ensures((c, d), r2)
        ==> r1 == r2
}

/// The models of a vector of values, in order.
pub open spec fn models(s: Seq<Val>) -> Seq<SVal> {
    models_rev(s).reverse()
}

/// Pushing a value adds its model at the end.
pub proof fn lemma_models_push(d: Seq<Val>, v: Val)
    ensures models(d.push(v)) == models(d).push(v.model()),
{
    lemma_models_rev_push(d, v);
    assert((seq![v.model()] + models_rev(d)).reverse() =~= models_rev(d).reverse().push(v.model()));
}

/// The empty vector has no models.
pub proof fn lemma_models_empty(d: Seq<Val>)
    requires d.len() == 0,
    ensures models(d) == Seq::<SVal>::empty(),
{
    assert(models_rev(d) == Seq::<SVal>::empty());
    assert(models(d) =~= Seq::<SVal>::empty());
}

/// The model sequence has as many elements as the storage.
pub proof fn lemma_models_rev_len(d: Seq<Val>)
    ensures models_rev(d).len() == d.len(),
    decreases d.len(),
{
    if d.len() > 0 {
        lemma_models_rev_len(d.drop_last());
    }
}

/// Element `i` of the model is the model of storage element `len - 1 - i`.
pub proof fn lemma_models_rev_index(d: Seq<Val>, i: int)
    requires 0 <= i < d.len(),
    ensures models_rev(d)[i] == d[d.len() - 1 - i].model(),
    decreases d.len(),
{
    lemma_models_rev_len(d.drop_last());
    if i > 0 {
        lemma_models_rev_index(d.drop_last(), i - 1);
    }
}

/// Pushing onto storage puts the value at the front of the model.
pub proof fn lemma_models_rev_push(d: Seq<Val>, v: Val)
    ensures models_rev(d.push(v)) == seq![v.model()] + models_rev(d),
{
    assert(d.push(v).drop_last() == d);
}

/// Appending storage `b` after `a` puts `b`'s model in front of `a`'s.
pub proof fn lemma_models_rev_append(a: Seq<Val>, b: Seq<Val>)
    ensures models_rev(a + b) == models_rev(b) + models_rev(a),
    decreases b.len(),
{
    if b.len() == 0 {
        assert(a + b == a);
        assert(models_rev(b) + models_rev(a) == models_rev(a));
    } else {
        lemma_models_rev_append(a, b.drop_last());
        assert((a + b).drop_last() == a + b.drop_last());
        assert((a + b).last() == b.last());
        assert(seq![b.last().model()] + (models_rev(b.drop_last()) + models_rev(a))
            == (seq![b.last().model()] + models_rev(b.drop_last())) + models_rev(a));
    }
}

} // verus!
