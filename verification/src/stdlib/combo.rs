//! Combos of values, as the language builds them: with the kind of value
//! they hold, once one has been added.

use vstd::prelude::*;
use crate::combo::{Combo, ComboItem};
use crate::data::{Val, SVal, Datum, ValKind};

verus! {

impl ComboItem for Val {
    open spec fn same_spec(&self, other: &Self) -> bool {
        self.model() == other.model()
    }

    fn same(&self, other: &Self) -> (r: bool) {
        self.equals(other)
    }

    fn copy_item(&self) -> (r: Self) {
        self.deep_clone()
    }
}

/// Two kinds that should have been the same.
#[derive(PartialEq, Eq, Structural, Clone, Copy, Debug)]
pub struct KindMismatch {
    pub expected: ValKind,
    pub found: ValKind,
}

/// Whether every value a combo names has the kind `k`.
pub open spec fn all_of_kind(c: Combo<Val>, k: ValKind) -> bool
    decreases c,
{
    match c {
        Combo::Nothing => true,
        Combo::Anything => true,
        Combo::Just(v) => v.model().kind() == k,
        Combo::Not(a) => all_of_kind(*a, k),
        Combo::Either(a, b) => all_of_kind(*a, k) && all_of_kind(*b, k),
    }
}

/// The kind of the first value, left to right, that a combo names and
/// that has not the kind `k`, if any.
pub open spec fn first_other_kind_spec(c: Combo<Val>, k: ValKind) -> Option<ValKind>
    decreases c,
{
    match c {
        Combo::Nothing => None,
        Combo::Anything => None,
        Combo::Just(v) => if v.model().kind() == k { None } else { Some(v.model().kind()) },
        Combo::Not(a) => first_other_kind_spec(*a, k),
        Combo::Either(a, b) => match first_other_kind_spec(*a, k) {
            Some(f) => Some(f),
            None => first_other_kind_spec(*b, k),
        },
    }
}

/// The first value a combo names that has not the kind `k`, if any.
fn first_other_kind(c: &Combo<Val>, k: ValKind) -> (r: Option<ValKind>)
    ensures
        r == first_other_kind_spec(*c, k),
        r is None <==> all_of_kind(*c, k),
        r matches Some(f) ==> f != k,
    decreases c,
{
    match c {
        Combo::Nothing => None,
        Combo::Anything => None,
        Combo::Just(v) => {
            let vk = v.kind();
            if vk == k { None } else { Some(vk) }
        },
        Combo::Not(a) => first_other_kind(a, k),
        Combo::Either(a, b) => match first_other_kind(a, k) {
            Some(f) => Some(f),
            None => first_other_kind(b, k),
        },
    }
}

/// A combo of values and, once a value was added, their kind.
pub struct ComboValue(pub Option<ValKind>, pub Combo<Val>);

impl ComboValue {
    /// Accepts nothing.
    pub fn nothing() -> (r: ComboValue)
        ensures r.0 is None, r.1 == Combo::<Val>::Nothing,
    {
        ComboValue(None, Combo::Nothing)
    }

    /// Accepts everything.
    pub fn anything() -> (r: ComboValue)
        ensures r.0 is None, r.1 == Combo::<Val>::Anything,
    {
        ComboValue(None, Combo::Anything)
    }

    /// Accepts exactly `v`, of its kind.
    pub fn just(v: Datum) -> (r: ComboValue)
        ensures r.0 == Some(v.value.model().kind()), r.1 == Combo::<Val>::Just(v.value),
    {
        let k = v.value.kind();
        ComboValue(Some(k), Combo::Just(v.value))
    }

    /// Accept what was not accepted, and the other way round.
    pub fn negate(&mut self)
        ensures
            final(self).0 == old(self).0,
            final(self).1 == old(self).1.negate_spec(),
            forall|x: Val| #[trigger] final(self).1.accepts(x) == !old(self).1.accepts(x),
    {
        let mut v = Combo::Nothing;
        std::mem::swap(&mut v, &mut self.1);
        self.1 = v.negate();
    }

    /// Also accept what `other` accepts. The kinds must agree where both
    /// are known; if they do not, nothing changes.
    pub fn either(&mut self, other: ComboValue) -> (r: Result<(), KindMismatch>)
        ensures
            (old(self).0 matches Some(a) && other.0 matches Some(b) && a != b) ==> (
                r == Err::<(), KindMismatch>(KindMismatch { expected: old(self).0->0, found: other.0->0 })
                && *final(self) == *old(self)),
            !(old(self).0 matches Some(a) && other.0 matches Some(b) && a != b) ==> (r is Ok
                && final(self).0 == (if old(self).0 is None { other.0 } else { old(self).0 })
                && final(self).1 == old(self).1.or_spec(other.1)
                && forall|x: Val| #[trigger] final(self).1.accepts(x) == (old(self).1.accepts(x) || other.1.accepts(x))),
    {
        let ComboValue(other_ty, other_v) = other;
        match (self.0, other_ty) {
            (Some(a), Some(b)) => {
                if a != b {
                    return Err(KindMismatch { expected: a, found: b });
                }
            },
            (None, _) => {
                self.0 = other_ty;
            },
            _ => {},
        }
        let mut v = Combo::Nothing;
        std::mem::swap(&mut v, &mut self.1);
        self.1 = v.or(other_v);
        Ok(())
    }

    /// The combo, if its values are all of the kind `kind`.
    pub fn into_combo(self, kind: ValKind) -> (r: Result<Combo<Val>, KindMismatch>)
        ensures
            (self.0 matches Some(t) && t != kind) ==> r == Err::<Combo<Val>, KindMismatch>(KindMismatch { expected: kind, found: self.0->0 }),
            !(self.0 matches Some(t) && t != kind) ==> (
                (all_of_kind(self.1, kind) ==> r == Ok::<Combo<Val>, KindMismatch>(self.1))
                && (!all_of_kind(self.1, kind) ==> (r matches Err(e) && e.expected == kind
                    && first_other_kind_spec(self.1, kind) == Some(e.found) && e.found != kind))),
    {
        match self.0 {
            Some(t) => {
                if t != kind {
                    return Err(KindMismatch { expected: kind, found: t });
                }
            },
            None => {},
        }
        match first_other_kind(&self.1, kind) {
            Some(f) => Err(KindMismatch { expected: kind, found: f }),
            None => Ok(self.1),
        }
    }
}

} // verus!
