//! Builtins that work on the value stack: booleans, stack shuffling,
//! numbers, lists and equality. The top of the stack is the last value of
//! its model.

use vstd::prelude::*;
use crate::data::{Datum, SDatum, Val, SVal, ValKind, equal_under, float_rel, texts_decide};
use crate::interpreter::stack::{Stack, StackError};
use crate::list::List;
use crate::parser::data::Source;

verus! {

/// Why a builtin failed.
pub enum OpError {
    /// A value was missing or of the wrong kind.
    Stack(StackError),
    /// A list was empty.
    ListEmpty,
    /// An index outside `start..=end`.
    OutOfRange(i64, i64, i64),
    /// A number that is no size (negative, or too large).
    BadCast(i64),
    /// Bytes that are not UTF-8.
    InvalidString,
}

/// The model of an [OpError].
pub enum SOpError {
    Empty,
    WrongType(ValKind, SDatum),
    ListEmpty,
    OutOfRange(int, int, int),
    BadCast(int),
    InvalidString,
}

impl OpError {
    /// The model of this error.
    pub open spec fn model(&self) -> SOpError {
        match self {
            OpError::Stack(StackError::Empty) => SOpError::Empty,
            OpError::Stack(StackError::WrongType(k, d)) => SOpError::WrongType(*k, d.model()),
            OpError::ListEmpty => SOpError::ListEmpty,
            OpError::OutOfRange(a, b, c) => SOpError::OutOfRange(*a as int, *b as int, *c as int),
            OpError::BadCast(n) => SOpError::BadCast(*n as int),
            OpError::InvalidString => SOpError::InvalidString,
        }
    }
}

/// The model of a builtin's result.
pub open spec fn op_result(r: Result<(), OpError>) -> Result<(), SOpError> {
    match r {
        Ok(_) => Ok(()),
        Err(e) => Err(e.model()),
    }
}

/// The value `i` places below the top.
pub open spec fn at(s: Seq<SDatum>, i: int) -> SDatum {
    s[s.len() - 1 - i]
}

/// A value with no known source.
pub open spec fn bare(v: SVal) -> SDatum {
    SDatum { value: v, source: None }
}

/// Taking the top value off if it has the kind `k`; one of another kind
/// is taken off too.
pub open spec fn pop_spec(s: Seq<SDatum>, k: ValKind) -> (Seq<SDatum>, Result<SDatum, SOpError>) {
    if s.len() == 0 {
        (s, Err(SOpError::Empty))
    } else if s.last().value.kind() == k {
        (s.drop_last(), Ok(s.last()))
    } else {
        (s.drop_last(), Err(SOpError::WrongType(k, s.last())))
    }
}

/// Whether a value is `#f`.
pub open spec fn is_false(d: SDatum) -> bool {
    d.value == SVal::Bool(false)
}

/// The integer in a value (0 if there is none).
pub open spec fn int_of(d: SDatum) -> int {
    match d.value {
        SVal::Int(i) => i,
        _ => 0,
    }
}

/// Take the top value off if it has the kind `k`.
pub(crate) fn pop_kind(stack: &mut Stack, k: ValKind) -> (r: Result<Datum, OpError>)
    ensures
        final(stack)@ == pop_spec(old(stack)@, k).0,
        match pop_spec(old(stack)@, k).1 {
            Ok(d) => r matches Ok(x) && x.model() == d,
            Err(e) => r matches Err(x) && x.model() == e,
        },
        final(stack).log() is Some <==> old(stack).log() is Some,
        old(stack).log() is Some ==> final(stack).origin() == old(stack).origin(),
{
    match stack.pop(k) {
        Ok(d) => Ok(d),
        Err(e) => Err(OpError::Stack(e)),
    }
}

/// `and`: push whether neither of the top two values is `#f`.
pub fn bool_and(stack: &mut Stack, source: Option<Source>) -> (r: Result<(), OpError>)
    ensures
        old(stack)@.len() < 2 ==> (r matches Err(OpError::Stack(StackError::Empty)) && final(stack)@ == old(stack)@),
        old(stack)@.len() >= 2 ==> (r is Ok && final(stack)@ == old(stack)@.push(SDatum {
            value: SVal::Bool(!(is_false(at(old(stack)@, 0)) || is_false(at(old(stack)@, 1)))),
            source,
        })),
        final(stack).log() is Some <==> old(stack).log() is Some,
        old(stack).log() is Some ==> final(stack).origin() == old(stack).origin(),
{
    let res = {
        let a = match stack.ref_datum(0) { Ok(a) => a, Err(_) => { return Err(OpError::Stack(StackError::Empty)); } };
        let b = match stack.ref_datum(1) { Ok(b) => b, Err(_) => { return Err(OpError::Stack(StackError::Empty)); } };
        let fa = match a.value { Val::Bool(x) => !x, _ => false };
        let fb = match b.value { Val::Bool(x) => !x, _ => false };
        !(fa || fb)
    };
    stack.push(Datum { value: Val::Bool(res), source });
    Ok(())
}

/// `or`: push whether either of the top two values is not `#f`.
pub fn bool_or(stack: &mut Stack, source: Option<Source>) -> (r: Result<(), OpError>)
    ensures
        old(stack)@.len() < 2 ==> (r matches Err(OpError::Stack(StackError::Empty)) && final(stack)@ == old(stack)@),
        old(stack)@.len() >= 2 ==> (r is Ok && final(stack)@ == old(stack)@.push(SDatum {
            value: SVal::Bool(!is_false(at(old(stack)@, 0)) || !is_false(at(old(stack)@, 1))),
            source,
        })),
        final(stack).log() is Some <==> old(stack).log() is Some,
        old(stack).log() is Some ==> final(stack).origin() == old(stack).origin(),
{
    let res = {
        let a = match stack.ref_datum(0) { Ok(a) => a, Err(_) => { return Err(OpError::Stack(StackError::Empty)); } };
        let b = match stack.ref_datum(1) { Ok(b) => b, Err(_) => { return Err(OpError::Stack(StackError::Empty)); } };
        let fa = match a.value { Val::Bool(x) => !x, _ => false };
        let fb = match b.value { Val::Bool(x) => !x, _ => false };
        !fa || !fb
    };
    stack.push(Datum { value: Val::Bool(res), source });
    Ok(())
}

/// `clone`: push a copy of the top value.
pub fn op_clone(stack: &mut Stack) -> (r: Result<(), OpError>)
    ensures
        old(stack)@.len() == 0 ==> (r matches Err(OpError::Stack(StackError::Empty)) && final(stack)@ == old(stack)@),
        old(stack)@.len() > 0 ==> (r is Ok && final(stack)@ == old(stack)@.push(old(stack)@.last())),
        final(stack).log() is Some <==> old(stack).log() is Some,
        old(stack).log() is Some ==> final(stack).origin() == old(stack).origin(),
{
    let d = match stack.ref_datum(0) {
        Ok(d) => d.deep_clone(),
        Err(_) => { return Err(OpError::Stack(StackError::Empty)); },
    };
    stack.push(d);
    Ok(())
}

/// `drop`: take the top value off.
pub fn op_drop(stack: &mut Stack) -> (r: Result<(), OpError>)
    ensures
        old(stack)@.len() == 0 ==> (r matches Err(OpError::Stack(StackError::Empty)) && final(stack)@ == old(stack)@),
        old(stack)@.len() > 0 ==> (r is Ok && final(stack)@ == old(stack)@.drop_last()),
        final(stack).log() is Some <==> old(stack).log() is Some,
        old(stack).log() is Some ==> final(stack).origin() == old(stack).origin(),
{
    match stack.pop_datum() {
        Ok(_) => Ok(()),
        Err(_) => Err(OpError::Stack(StackError::Empty)),
    }
}

/// `stack-empty?`: push whether the stack is empty.
pub fn is_stack_empty(stack: &mut Stack, source: Option<Source>)
    ensures
        final(stack)@ == old(stack)@.push(SDatum { value: SVal::Bool(old(stack)@.len() == 0), source }),
        final(stack).log() is Some <==> old(stack).log() is Some,
        old(stack).log() is Some ==> final(stack).origin() == old(stack).origin(),
{
    let size = stack.size();
    stack.push(Datum { value: Val::Bool(size == 0), source });
}

/// What `dig` does once the count `n` has been taken off, leaving `s`: a
/// positive `n` brings the value `n` places down to the top, a negative
/// `n` buries the top value `-n - 1` places further down.
pub open spec fn dig_spec(s: Seq<SDatum>, n: int) -> (Seq<SDatum>, Result<(), SOpError>) {
    if n > 0 {
        if n < s.len() {
            (s.remove(s.len() - 1 - n).push(at(s, n)), Ok(()))
        } else {
            (s, Err(SOpError::Empty))
        }
    } else if n < 0 {
        if s.len() == 0 {
            (s, Err(SOpError::Empty))
        } else {
            let t = s.drop_last();
            let m = -n - 1;
            if m < t.len() {
                (t.insert(t.len() - m - 1, s.last()), Ok(()))
            } else {
                (t, Err(SOpError::Empty))
            }
        }
    } else {
        (s, Ok(()))
    }
}

/// `dig`: take a count off the top, then move a value up from that deep,
/// or (for a negative count) the top value down.
pub fn op_dig(stack: &mut Stack) -> (r: Result<(), OpError>)
    requires !(old(stack)@.len() > 0 && old(stack)@.last().value == SVal::Int(i64::MIN as int)),
    ensures
        ({
            let (s1, rn) = pop_spec(old(stack)@, ValKind::Int);
            match rn {
                Err(e) => final(stack)@ == s1 && op_result(r) == Err::<(), SOpError>(e),
                Ok(n) => (final(stack)@, op_result(r)) == dig_spec(s1, int_of(n)),
            }
        }),
        final(stack).log() is Some <==> old(stack).log() is Some,
{
    let nd = pop_kind(stack, ValKind::Int)?;
    let n: i64 = match nd.value { Val::Int(n) => n, _ => 0 };
    let ghost s1 = stack@;
    if n > 0 {
        let len = stack.size();
        if (n as u64) < (len as u64) {
            let a = match stack.remove(n as usize) {
                Ok(a) => a,
                Err(_) => { return Err(OpError::Stack(StackError::Empty)); },
            };
            stack.push(a);
            Ok(())
        } else {
            Err(OpError::Stack(StackError::Empty))
        }
    } else if n < 0 {
        let m: i64 = -n;
        let a = match stack.pop_datum() {
            Ok(a) => a,
            Err(_) => { return Err(OpError::Stack(StackError::Empty)); },
        };
        let len = stack.size();
        if ((m - 1) as u64) < (len as u64) {
            match stack.insert(a, (m - 1) as usize) {
                Ok(()) => Ok(()),
                Err(_) => Err(OpError::Stack(StackError::Empty)),
            }
        } else {
            Err(OpError::Stack(StackError::Empty))
        }
    } else {
        Ok(())
    }
}

/// The sum, product, negation or absolute value of integers on the stack
/// fits in 64 bits.
pub open spec fn fits_i64(x: int) -> bool {
    i64::MIN <= x <= i64::MAX
}

/// What taking two integers off the top and pushing `f` of them does.
pub open spec fn binary_spec(s: Seq<SDatum>, f: spec_fn(int, int) -> SVal) -> (Seq<SDatum>, Result<(), SOpError>) {
    let (s1, ra) = pop_spec(s, ValKind::Int);
    match ra {
        Err(e) => (s1, Err(e)),
        Ok(a) => {
            let (s2, rb) = pop_spec(s1, ValKind::Int);
            match rb {
                Err(e) => (s2, Err(e)),
                Ok(b) => (s2.push(bare(f(int_of(a), int_of(b)))), Ok(())),
            }
        },
    }
}

/// What taking an integer off the top and pushing `f` of it does.
pub open spec fn unary_spec(s: Seq<SDatum>, f: spec_fn(int) -> SVal) -> (Seq<SDatum>, Result<(), SOpError>) {
    let (s1, ra) = pop_spec(s, ValKind::Int);
    match ra {
        Err(e) => (s1, Err(e)),
        Ok(a) => (s1.push(bare(f(int_of(a)))), Ok(())),
    }
}

/// The top two values, if both are integers.
pub open spec fn top_ints(s: Seq<SDatum>) -> Option<(int, int)> {
    if s.len() >= 2 && s.last().value is Int && at(s, 1).value is Int {
        Some((int_of(s.last()), int_of(at(s, 1))))
    } else {
        None
    }
}

/// `add`: take two integers off and push their sum.
pub fn num_add(stack: &mut Stack) -> (r: Result<(), OpError>)
    requires top_ints(old(stack)@) matches Some((a, b)) ==> fits_i64(a + b),
    ensures
        (final(stack)@, op_result(r)) == binary_spec(old(stack)@, |a: int, b: int| SVal::Int(a + b)),
        final(stack).log() is Some <==> old(stack).log() is Some,
        old(stack).log() is Some ==> final(stack).origin() == old(stack).origin(),
{
    let a = pop_kind(stack, ValKind::Int)?;
    let b = pop_kind(stack, ValKind::Int)?;
    match (a.value, b.value) {
        (Val::Int(x), Val::Int(y)) => {
            stack.push(Datum::new(Val::Int(x + y)));
            Ok(())
        },
        _ => Ok(()),
    }
}

/// `mul`: take two integers off and push their product.
pub fn num_mul(stack: &mut Stack) -> (r: Result<(), OpError>)
    requires top_ints(old(stack)@) matches Some((a, b)) ==> fits_i64(a * b),
    ensures
        (final(stack)@, op_result(r)) == binary_spec(old(stack)@, |a: int, b: int| SVal::Int(a * b)),
        final(stack).log() is Some <==> old(stack).log() is Some,
        old(stack).log() is Some ==> final(stack).origin() == old(stack).origin(),
{
    let a = pop_kind(stack, ValKind::Int)?;
    let b = pop_kind(stack, ValKind::Int)?;
    match (a.value, b.value) {
        (Val::Int(x), Val::Int(y)) => {
            stack.push(Datum::new(Val::Int(x * y)));
            Ok(())
        },
        _ => Ok(()),
    }
}

/// `negate`: take an integer off and push its negation.
pub fn num_negate(stack: &mut Stack) -> (r: Result<(), OpError>)
    requires !(old(stack)@.len() > 0 && old(stack)@.last().value == SVal::Int(i64::MIN as int)),
    ensures
        (final(stack)@, op_result(r)) == unary_spec(old(stack)@, |a: int| SVal::Int(-a)),
        final(stack).log() is Some <==> old(stack).log() is Some,
        old(stack).log() is Some ==> final(stack).origin() == old(stack).origin(),
{
    let a = pop_kind(stack, ValKind::Int)?;
    match a.value {
        Val::Int(x) => {
            stack.push(Datum::new(Val::Int(-x)));
            Ok(())
        },
        _ => Ok(()),
    }
}

/// `abs`: take an integer off and push its absolute value.
pub fn num_abs(stack: &mut Stack) -> (r: Result<(), OpError>)
    requires !(old(stack)@.len() > 0 && old(stack)@.last().value == SVal::Int(i64::MIN as int)),
    ensures
        (final(stack)@, op_result(r)) == unary_spec(old(stack)@, |a: int| SVal::Int(if a < 0 { -a } else { a })),
        final(stack).log() is Some <==> old(stack).log() is Some,
        old(stack).log() is Some ==> final(stack).origin() == old(stack).origin(),
{
    let a = pop_kind(stack, ValKind::Int)?;
    match a.value {
        Val::Int(x) => {
            stack.push(Datum::new(Val::Int(if x < 0 { -x } else { x })));
            Ok(())
        },
        _ => Ok(()),
    }
}

/// `greater-than`: push whether the top integer is greater than the one
/// under it (both stay).
pub fn num_gt(stack: &mut Stack) -> (r: Result<(), OpError>)
    ensures
        final(stack).log() is Some <==> old(stack).log() is Some,
        old(stack).log() is Some ==> final(stack).origin() == old(stack).origin(),
        old(stack)@.len() == 0 ==> (r matches Err(OpError::Stack(StackError::Empty)) && final(stack)@ == old(stack)@),
        old(stack)@.len() > 0 && !(at(old(stack)@, 0).value is Int) ==> (r matches Err(x)
            && x.model() == SOpError::WrongType(ValKind::Int, at(old(stack)@, 0)) && final(stack)@ == old(stack)@),
        old(stack)@.len() == 1 && at(old(stack)@, 0).value is Int ==>
            (r matches Err(OpError::Stack(StackError::Empty)) && final(stack)@ == old(stack)@),
        old(stack)@.len() > 1 && at(old(stack)@, 0).value is Int && !(at(old(stack)@, 1).value is Int) ==>
            (r matches Err(x) && x.model() == SOpError::WrongType(ValKind::Int, at(old(stack)@, 1))
            && final(stack)@ == old(stack)@),
        top_ints(old(stack)@) matches Some((a, b)) ==> (r is Ok
            && final(stack)@ == old(stack)@.push(bare(SVal::Bool(a > b)))),
{
    let res = {
        let a = match stack.ref_at(0, ValKind::Int) { Ok(a) => a, Err(e) => { return Err(OpError::Stack(e)); } };
        let b = match stack.ref_at(1, ValKind::Int) { Ok(b) => b, Err(e) => { return Err(OpError::Stack(e)); } };
        match (&a.value, &b.value) {
            (Val::Int(x), Val::Int(y)) => *x > *y,
            _ => false,
        }
    };
    stack.push(Datum::new(Val::Bool(res)));
    Ok(())
}

/// `equal?`: push whether the top two values are equal. Floats are
/// compared as numbers, which the host does: `feq` answers whether two
/// float texts stand for equal numbers.
pub fn is_equal<F: Fn(&String, &String) -> bool>(stack: &mut Stack, feq: &F) -> (r: Result<(), OpError>)
    requires
        forall|a: &String, b: &String| #[trigger] feq.requires((a, b)),
        texts_decide(*feq),
    ensures
        old(stack)@.len() < 2 ==> (r matches Err(OpError::Stack(StackError::Empty)) && final(stack)@ == old(stack)@),
        old(stack)@.len() >= 2 ==> (r is Ok && final(stack)@ == old(stack)@.push(
            bare(SVal::Bool(equal_under(at(old(stack)@, 0).value, at(old(stack)@, 1).value, float_rel(*feq)))))),
        final(stack).log() is Some <==> old(stack).log() is Some,
        old(stack).log() is Some ==> final(stack).origin() == old(stack).origin(),
{
    let res = {
        let a = match stack.ref_datum(0) { Ok(a) => a, Err(_) => { return Err(OpError::Stack(StackError::Empty)); } };
        let b = match stack.ref_datum(1) { Ok(b) => b, Err(_) => { return Err(OpError::Stack(StackError::Empty)); } };
        a.value.equals_with(&b.value, feq)
    };
    stack.push(Datum::new(Val::Bool(res)));
    Ok(())
}


/// Taking the top value off.
pub open spec fn pop_any(s: Seq<SDatum>) -> (Seq<SDatum>, Result<SDatum, SOpError>) {
    if s.len() == 0 { (s, Err(SOpError::Empty)) } else { (s.drop_last(), Ok(s.last())) }
}

/// The values of a list value (none for anything else).
pub open spec fn items_of(d: SDatum) -> Seq<SVal> {
    match d.value {
        SVal::List(x, _) => x,
        _ => Seq::empty(),
    }
}

/// A list value with its values replaced.
pub open spec fn with_items(d: SDatum, items: Seq<SVal>) -> SDatum {
    match d.value {
        SVal::List(_, e) => SDatum { value: SVal::List(items, e), source: d.source },
        _ => d,
    }
}

/// Change the list on top with `f`; an error if the top is not a list.
pub open spec fn edit_top_list(s: Seq<SDatum>, f: spec_fn(Seq<SVal>) -> Seq<SVal>) -> (Seq<SDatum>, Result<(), SOpError>) {
    if s.len() == 0 {
        (s, Err(SOpError::Empty))
    } else if !(s.last().value is List) {
        (s, Err(SOpError::WrongType(ValKind::List, s.last())))
    } else {
        (s.update(s.len() - 1, with_items(s.last(), f(items_of(s.last())))), Ok(()))
    }
}

/// Take a value off, then change the list on top with `f` of it.
pub open spec fn push_into_spec(s: Seq<SDatum>, f: spec_fn(Seq<SVal>, SVal) -> Seq<SVal>) -> (Seq<SDatum>, Result<(), SOpError>) {
    let (s1, ra) = pop_any(s);
    match ra {
        Err(e) => (s1, Err(e)),
        Ok(a) => edit_top_list(s1, |items: Seq<SVal>| f(items, a.value)),
    }
}

/// Take a value out of the list on top (the front or the back) and push it.
pub open spec fn pop_from_spec(s: Seq<SDatum>, front: bool) -> (Seq<SDatum>, Result<(), SOpError>) {
    if s.len() == 0 {
        (s, Err(SOpError::Empty))
    } else if !(s.last().value is List) {
        (s, Err(SOpError::WrongType(ValKind::List, s.last())))
    } else if items_of(s.last()).len() == 0 {
        (s, Err(SOpError::ListEmpty))
    } else {
        let items = items_of(s.last());
        let v = if front { items[0] } else { items.last() };
        let rest = if front { items.drop_first() } else { items.drop_last() };
        (s.update(s.len() - 1, with_items(s.last(), rest)).push(bare(v)), Ok(()))
    }
}

/// Change the list in `d` with the ops of [List].
fn edit_list(d: &mut Datum, v: Val, front: bool)
    requires old(d).value.model() is List,
    ensures final(d).model() == with_items(old(d).model(),
        if front { seq![v.model()] + items_of(old(d).model()) } else { items_of(old(d).model()).push(v.model()) }),
{
    match &mut d.value {
        Val::List(l) => {
            if front { l.push(v); } else { l.push_tail(v); }
        },
        _ => {},
    }
}

/// `list-push-head`: take a value off and put it at the front of the list
/// on top.
pub fn list_push_head(stack: &mut Stack) -> (r: Result<(), OpError>)
    ensures
        (final(stack)@, op_result(r)) == push_into_spec(old(stack)@, |items: Seq<SVal>, v: SVal| seq![v] + items),
        final(stack).log() is Some <==> old(stack).log() is Some,
{
    let a = match stack.pop_datum() {
        Ok(a) => a,
        Err(_) => { return Err(OpError::Stack(StackError::Empty)); },
    };
    let l = match stack.top_mut(ValKind::List) {
        Ok(l) => l,
        Err(e) => { return Err(OpError::Stack(e)); },
    };
    edit_list(l, a.value, true);
    Ok(())
}

/// `list-push-tail`: take a value off and put it at the end of the list on
/// top.
pub fn list_push_tail(stack: &mut Stack) -> (r: Result<(), OpError>)
    ensures
        (final(stack)@, op_result(r)) == push_into_spec(old(stack)@, |items: Seq<SVal>, v: SVal| items.push(v)),
        final(stack).log() is Some <==> old(stack).log() is Some,
{
    let a = match stack.pop_datum() {
        Ok(a) => a,
        Err(_) => { return Err(OpError::Stack(StackError::Empty)); },
    };
    let l = match stack.top_mut(ValKind::List) {
        Ok(l) => l,
        Err(e) => { return Err(OpError::Stack(e)); },
    };
    edit_list(l, a.value, false);
    Ok(())
}

/// Take a value out of the list in `d`, at the front or the back.
fn take_from_list(d: &mut Datum, front: bool) -> (r: Option<Val>)
    requires old(d).value.model() is List,
    ensures
        items_of(old(d).model()).len() == 0 ==> (r is None && final(d).model() == old(d).model()),
        items_of(old(d).model()).len() > 0 ==> (r matches Some(v) && v.model() == (if front {
            items_of(old(d).model())[0] } else { items_of(old(d).model()).last() })
            && final(d).model() == with_items(old(d).model(), if front {
                items_of(old(d).model()).drop_first() } else { items_of(old(d).model()).drop_last() })),
{
    match &mut d.value {
        Val::List(l) => {
            if front { l.pop() } else { l.pop_tail() }
        },
        _ => None,
    }
}

/// `list-pop-head`: take the front value of the list on top and push it.
pub fn list_pop_head(stack: &mut Stack) -> (r: Result<(), OpError>)
    ensures
        (final(stack)@, op_result(r)) == pop_from_spec(old(stack)@, true),
        final(stack).log() is Some <==> old(stack).log() is Some,
{
    let a = {
        let l = match stack.top_mut(ValKind::List) {
            Ok(l) => l,
            Err(e) => { return Err(OpError::Stack(e)); },
        };
        match take_from_list(l, true) {
            Some(v) => v,
            None => { return Err(OpError::ListEmpty); },
        }
    };
    stack.push(Datum::new(a));
    Ok(())
}

/// `list-pop-tail`: take the last value of the list on top and push it.
pub fn list_pop_tail(stack: &mut Stack) -> (r: Result<(), OpError>)
    ensures
        (final(stack)@, op_result(r)) == pop_from_spec(old(stack)@, false),
        final(stack).log() is Some <==> old(stack).log() is Some,
{
    let a = {
        let l = match stack.top_mut(ValKind::List) {
            Ok(l) => l,
            Err(e) => { return Err(OpError::Stack(e)); },
        };
        match take_from_list(l, false) {
            Some(v) => v,
            None => { return Err(OpError::ListEmpty); },
        }
    };
    stack.push(Datum::new(a));
    Ok(())
}

/// `list-append`: take a list off and put its values at the end of the
/// list on top.
pub fn list_append(stack: &mut Stack) -> (r: Result<(), OpError>)
    ensures
        ({
            let (s1, rb) = pop_spec(old(stack)@, ValKind::List);
            match rb {
                Err(e) => final(stack)@ == s1 && op_result(r) == Err::<(), SOpError>(e),
                Ok(b) => (final(stack)@, op_result(r)) == edit_top_list(s1, |items: Seq<SVal>| items + items_of(b)),
            }
        }),
        final(stack).log() is Some <==> old(stack).log() is Some,
{
    let b = pop_kind(stack, ValKind::List)?;
    let a = match stack.top_mut(ValKind::List) {
        Ok(a) => a,
        Err(e) => { return Err(OpError::Stack(e)); },
    };
    match (&mut a.value, b.value) {
        (Val::List(x), Val::List(y)) => { x.append(y); },
        _ => {},
    }
    Ok(())
}

/// `list-length`: push the length of the list on top.
pub fn list_length(stack: &mut Stack, source: Option<Source>) -> (r: Result<(), OpError>)
    ensures
        old(stack)@.len() == 0 ==> (r matches Err(OpError::Stack(StackError::Empty)) && final(stack)@ == old(stack)@),
        old(stack)@.len() > 0 && !(old(stack)@.last().value is List) ==> (r matches Err(x)
            && x.model() == SOpError::WrongType(ValKind::List, old(stack)@.last()) && final(stack)@ == old(stack)@),
        old(stack)@.len() > 0 && old(stack)@.last().value is List ==> (r is Ok
            && final(stack)@ == old(stack)@.push(SDatum {
                value: SVal::Int(items_of(old(stack)@.last()).len() as i64 as int),
                source,
            })),
        final(stack).log() is Some <==> old(stack).log() is Some,
        old(stack).log() is Some ==> final(stack).origin() == old(stack).origin(),
{
    let len = match stack.ref_at(0, ValKind::List) {
        Ok(d) => match &d.value {
            Val::List(l) => l.len(),
            _ => 0,
        },
        Err(e) => { return Err(OpError::Stack(e)); },
    };
    stack.push(Datum { value: Val::Int(len as i64), source });
    Ok(())
}


/// Where `list-swap` gets its two indices and list: the indices taken
/// off, then the list on top.
pub open spec fn swap_spec(s: Seq<SDatum>) -> (Seq<SDatum>, Result<(), SOpError>) {
    let (s1, rj) = pop_spec(s, ValKind::Int);
    match rj {
        Err(e) => (s1, Err(e)),
        Ok(jd) => {
            let j = int_of(jd);
            if j < 0 {
                (s1, Err(SOpError::BadCast(j)))
            } else {
                let (s2, ri) = pop_spec(s1, ValKind::Int);
                match ri {
                    Err(e) => (s2, Err(e)),
                    Ok(id) => {
                        let i = int_of(id);
                        if i < 0 {
                            (s2, Err(SOpError::BadCast(i)))
                        } else if s2.len() == 0 {
                            (s2, Err(SOpError::Empty))
                        } else if !(s2.last().value is List) {
                            (s2, Err(SOpError::WrongType(ValKind::List, s2.last())))
                        } else {
                            let items = items_of(s2.last());
                            let len = items.len() as int;
                            if i > len {
                                (s2, Err(SOpError::OutOfRange(0, len - 1, i)))
                            } else if j > len {
                                (s2, Err(SOpError::OutOfRange(0, len - 1, j)))
                            } else {
                                (s2.update(s2.len() - 1, with_items(s2.last(),
                                    items.update(i, items[j]).update(j, items[i]))), Ok(()))
                            }
                        }
                    },
                }
            }
        },
    }
}

/// Whether `list-swap` would swap at an index equal to the list's length
/// (just past its end).
pub open spec fn swap_past_end(s: Seq<SDatum>) -> bool {
    s.len() >= 3 && s.last().value is Int && at(s, 1).value is Int && at(s, 2).value is List && {
        let j = int_of(s.last());
        let i = int_of(at(s, 1));
        let len = items_of(at(s, 2)).len() as int;
        0 <= i <= len && 0 <= j <= len && (i == len || j == len)
    }
}

/// `list-swap`: take two indices off and swap the values at them in the
/// list on top.
pub fn list_swap(stack: &mut Stack) -> (r: Result<(), OpError>)
    requires !swap_past_end(old(stack)@),
    ensures
        (final(stack)@, op_result(r)) == swap_spec(old(stack)@),
        final(stack).log() is Some <==> old(stack).log() is Some,
{
    let ghost s0 = stack@;
    let jd = pop_kind(stack, ValKind::Int)?;
    let j: i64 = match jd.value { Val::Int(n) => n, _ => 0 };
    if j < 0 {
        return Err(OpError::BadCast(j));
    }
    let id = pop_kind(stack, ValKind::Int)?;
    let i: i64 = match id.value { Val::Int(n) => n, _ => 0 };
    if i < 0 {
        return Err(OpError::BadCast(i));
    }
    let lis = match stack.top_mut(ValKind::List) {
        Ok(l) => l,
        Err(e) => { return Err(OpError::Stack(e)); },
    };
    match &mut lis.value {
        Val::List(l) => {
            let len = l.len();
            if (i as u64) > (len as u64) {
                return Err(OpError::OutOfRange(0, len as i64 - 1, i));
            }
            if (j as u64) > (len as u64) {
                return Err(OpError::OutOfRange(0, len as i64 - 1, j));
            }
            l.swap(i as usize, j as usize);
            Ok(())
        },
        _ => Ok(()),
    }
}

} // verus!
