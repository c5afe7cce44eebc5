//! Combinations of accepted items: nothing, anything, one item, or
//! negations and unions of those.

use vstd::prelude::*;

verus! {

/// Items that a [Combo] can hold, with a decidable notion of sameness.
pub trait ComboItem: Sized {
    /// When two items are the same.
    spec fn same_spec(&self, other: &Self) -> bool;

    /// Decide sameness.
    fn same(&self, other: &Self) -> (r: bool)
        ensures r == self.same_spec(other);

    /// A copy of this item that is the same as it.
    fn copy_item(&self) -> (r: Self)
        ensures
            r.same_spec(self),
            forall|x: Self| r.same_spec(&x) == self.same_spec(&x);
}

impl ComboItem for String {
    open spec fn same_spec(&self, other: &Self) -> bool {
        self@ == other@
    }

    fn same(&self, other: &Self) -> (r: bool) {
        *self == *other
    }

    fn copy_item(&self) -> (r: Self) {
        self.clone()
    }
}

/// A set of items described by combining simpler sets.
pub enum Combo<T> {
    /// Accepts nothing.
    Nothing,
    /// Accepts everything.
    Anything,
    /// Accepts exactly one item.
    Just(T),
    /// Accepts what the inner combo does not.
    Not(Box<Combo<T>>),
    /// Accepts what either combo accepts.
    Either(Box<Combo<T>>, Box<Combo<T>>),
}

impl<T: ComboItem> Combo<T> {
    /// Whether this combo accepts `x`.
    pub open spec fn accepts(&self, x: T) -> bool
        decreases self,
    {
        match self {
            Combo::Nothing => false,
            Combo::Anything => true,
            Combo::Just(y) => y.same_spec(&x),
            Combo::Not(c) => !c.accepts(x),
            Combo::Either(a, b) => a.accepts(x) || b.accepts(x),
        }
    }

    /// Check whether this combo accepts `x`.
    pub fn contains(&self, x: &T) -> (r: bool)
        ensures r == self.accepts(*x),
        decreases self,
    {
        match self {
            Combo::Nothing => false,
            Combo::Anything => true,
            Combo::Just(y) => y.same(x),
            Combo::Not(c) => !c.contains(x),
            Combo::Either(a, b) => a.contains(x) || b.contains(x),
        }
    }

    /// The complement of this combo, as [Combo::negate] builds it.
    pub open spec fn negate_spec(self) -> Combo<T> {
        match self {
            Combo::Nothing => Combo::Anything,
            Combo::Anything => Combo::Nothing,
            Combo::Not(c) => *c,
            other => Combo::Not(Box::new(other)),
        }
    }

    /// The union of this combo and `other`, as [Combo::or] builds it.
    pub open spec fn or_spec(self, other: Combo<T>) -> Combo<T> {
        match (self, other) {
            (Combo::Nothing, o) => o,
            (s, Combo::Nothing) => s,
            (Combo::Anything, _) => Combo::Anything,
            (_, Combo::Anything) => Combo::Anything,
            (s, o) => Combo::Either(Box::new(s), Box::new(o)),
        }
    }

    /// The complement of this combo.
    pub fn negate(self) -> (r: Combo<T>)
        ensures
            r == self.negate_spec(),
            forall|x: T| #[trigger] r.accepts(x) == !self.accepts(x),
    {
        match self {
            Combo::Nothing => Combo::Anything,
            Combo::Anything => Combo::Nothing,
            Combo::Not(c) => *c,
            other => Combo::Not(Box::new(other)),
        }
    }

    /// The union of this combo and `other`.
    pub fn or(self, other: Combo<T>) -> (r: Combo<T>)
        ensures
            r == self.or_spec(other),
            forall|x: T| #[trigger] r.accepts(x) == (self.accepts(x) || other.accepts(x)),
    {
        match (self, other) {
            (Combo::Nothing, o) => o,
            (s, Combo::Nothing) => s,
            (Combo::Anything, _) => Combo::Anything,
            (_, Combo::Anything) => Combo::Anything,
            (s, o) => Combo::Either(Box::new(s), Box::new(o)),
        }
    }
}

} // verus!
