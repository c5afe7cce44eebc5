//! The value stack, with transactions that can be rolled back.

use vstd::prelude::*;
use crate::data::{Datum, SDatum, Val, ValKind, datum_models};
use crate::interpreter::exec::{Failure, StackEmpty};
use crate::parser::data::Source;

verus! {

/// A change to the stack, as the transaction log records it: what undoes
/// it.
enum StackOp {
    /// Push this value back (it was popped).
    Push(Datum),
    /// Pop (a value was pushed).
    Pop,
}

/// The model of a log entry.
pub enum SOp {
    Push(SDatum),
    Pop,
}

impl StackOp {
    spec fn model(&self) -> SOp {
        match self {
            StackOp::Push(d) => SOp::Push(d.model()),
            StackOp::Pop => SOp::Pop,
        }
    }
}

/// Undo the logged changes, last first.
pub open spec fn undo(s: Seq<SDatum>, log: Seq<SOp>) -> Seq<SDatum>
    decreases log.len(),
{
    if log.len() == 0 {
        s
    } else {
        let s1 = match log.last() {
            SOp::Push(d) => s.push(d),
            SOp::Pop => if s.len() > 0 { s.drop_last() } else { s },
        };
        undo(s1, log.drop_last())
    }
}

/// A token for a transaction in progress.
pub struct TransactionHandle();

/// The value stack. Index 0 of the model is the bottom.
pub struct Stack {
    transaction: Option<Vec<StackOp>>,
    stack: Vec<Datum>,
}

/// The models of log entries.
spec fn log_model(l: Seq<StackOp>) -> Seq<SOp> {
    l.map_values(|o: StackOp| o.model())
}

/// Why a typed stack operation failed.
pub enum StackError {
    /// There was no value there.
    Empty,
    /// The value there has another kind; it is given back.
    WrongType(ValKind, Datum),
}

impl StackError {
    /// This error as a failure: `stack-empty`, or `wrong-type` with the
    /// value found.
    pub fn failure(self) -> (r: Failure)
        ensures
            match self {
                StackError::Empty => r.name_spec() == "stack-empty"@,
                StackError::WrongType(_, d) => r.name_spec() == "wrong-type"@
                    && r.args_spec() == seq![d.model()],
            },
    {
        match self {
            StackError::Empty => StackEmpty.failure(),
            StackError::WrongType(_, d) => {
                let ghost m = d.model();
                let mut args: Vec<Datum> = Vec::new();
                args.push(d);
                proof { assert(datum_models(args@) =~= seq![m]); }
                Failure::new("wrong-type".to_string(), args)
            },
        }
    }
}

impl Stack {
    /// The models of the values, bottom first.
    pub closed spec fn view(&self) -> Seq<SDatum> {
        datum_models(self.stack@)
    }

    /// The log of the transaction in progress, if any.
    pub closed spec fn log(&self) -> Option<Seq<SOp>> {
        match self.transaction {
            Some(l) => Some(log_model(l@)),
            None => None,
        }
    }

    /// What the stack was when the transaction in progress began, as far as
    /// pushes and pops go.
    pub open spec fn origin(&self) -> Seq<SDatum> {
        match self.log() {
            Some(l) => undo(self@, l),
            None => self@,
        }
    }

    /// An empty stack with no transaction.
    pub fn new() -> (r: Stack)
        ensures r@ == Seq::<SDatum>::empty(), r.log() is None,
    {
        let r = Stack { transaction: None, stack: Vec::new() };
        proof { assert(r@ =~= Seq::<SDatum>::empty()); }
        r
    }

    /// How many values there are.
    pub fn size(&self) -> (r: usize)
        ensures r == self@.len(),
    {
        self.stack.len()
    }

    fn log_op(&mut self, op: StackOp)
        ensures
            final(self).stack == old(self).stack,
            final(self).log() == match old(self).log() {
                Some(l) => Some(l.push(op.model())),
                None => None::<Seq<SOp>>,
            },
    {
        match self.transaction {
            Some(ref mut ops) => {
                let ghost l = ops@;
                ops.push(op);
                proof { assert(log_model(ops@) =~= log_model(l).push(op.model())); }
            },
            None => {},
        }
    }

    /// Take the top value off, if there is one.
    fn pop_stack(&mut self) -> (r: Option<Datum>)
        ensures
            old(self)@.len() == 0 ==> r is None && final(self)@ == old(self)@ && final(self).log() == old(self).log(),
            old(self)@.len() > 0 ==> (r matches Some(d) && d.model() == old(self)@.last()
                && final(self)@ == old(self)@.drop_last()
                && final(self).log() == match old(self).log() {
                    Some(l) => Some(l.push(SOp::Push(d.model()))),
                    None => None::<Seq<SOp>>,
                }),
    {
        let ghost s = self.stack@;
        match self.stack.pop() {
            Some(d) => {
                proof { assert(datum_models(self.stack@) =~= datum_models(s).drop_last()); }
                let c = d.deep_clone();
                self.log_op(StackOp::Push(c));
                Some(d)
            },
            None => None,
        }
    }

    /// Put a value on top.
    pub fn push(&mut self, d: Datum)
        ensures
            final(self)@ == old(self)@.push(d.model()),
            old(self).log() is Some ==> final(self).origin() == old(self).origin(),
            final(self).log() == match old(self).log() {
                Some(l) => Some(l.push(SOp::Pop)),
                None => None::<Seq<SOp>>,
            },
    {
        self.log_op(StackOp::Pop);
        let ghost s = self.stack@;
        self.stack.push(d);
        proof {
            assert(datum_models(self.stack@) =~= datum_models(s).push(d.model()));
            match old(self).log() {
                Some(l) => {
                    law_log_keeps_origin(old(self)@, l, d.model());
                    assert(self.log() == Some(l.push(SOp::Pop)));
                    assert(self@ == old(self)@.push(d.model()));
                    assert(self.origin() == undo(old(self)@.push(d.model()), l.push(SOp::Pop)));
                },
                None => {},
            }
        }
    }

    /// Take the top value off.
    pub fn pop_datum(&mut self) -> (r: Result<Datum, StackEmpty>)
        ensures
            old(self).log() is Some ==> final(self).origin() == old(self).origin(),
            old(self)@.len() == 0 ==> r is Err && final(self)@ == old(self)@ && final(self).log() == old(self).log(),
            old(self)@.len() > 0 ==> (r matches Ok(d) && d.model() == old(self)@.last()
                && final(self)@ == old(self)@.drop_last()
                && final(self).log() == match old(self).log() {
                    Some(l) => Some(l.push(SOp::Push(d.model()))),
                    None => None::<Seq<SOp>>,
                }),
    {
        let r = self.pop_stack();
        proof {
            match old(self).log() {
                Some(l) => { if old(self)@.len() > 0 { law_log_keeps_origin(old(self)@, l, old(self)@.last()); } },
                None => {},
            }
        }
        match r {
            Some(d) => Ok(d),
            None => Err(StackEmpty),
        }
    }

    /// Take the top value off, with where it was read from.
    pub fn pop_datum_source(&mut self) -> (r: Result<Datum, StackEmpty>)
        ensures
            old(self)@.len() == 0 ==> r is Err && final(self)@ == old(self)@ && final(self).log() == old(self).log(),
            old(self)@.len() > 0 ==> (r matches Ok(d) && d.model() == old(self)@.last()
                && final(self)@ == old(self)@.drop_last()
                && final(self).log() == match old(self).log() {
                    Some(l) => Some(l.push(SOp::Push(d.model()))),
                    None => None::<Seq<SOp>>,
                }),
    {
        self.pop_datum()
    }

    /// Put `d` under the top `idx` values (not logged).
    pub fn insert(&mut self, d: Datum, idx: usize) -> (r: Result<(), StackEmpty>)
        ensures
            idx >= old(self)@.len() ==> r is Err && final(self)@ == old(self)@,
            idx < old(self)@.len() ==> r is Ok
                && final(self)@ == old(self)@.insert(old(self)@.len() - idx - 1, d.model()),
            final(self).log() == old(self).log(),
    {
        let len = self.stack.len();
        if idx >= len {
            return Err(StackEmpty);
        }
        let ghost s = self.stack@;
        self.stack.insert(len - idx - 1, d);
        proof {
            assert(datum_models(self.stack@) =~= datum_models(s).insert(len - idx - 1, d.model()));
        }
        Ok(())
    }

    /// Take out the value under the top `idx` values (not logged).
    pub fn remove(&mut self, idx: usize) -> (r: Result<Datum, StackEmpty>)
        ensures
            idx >= old(self)@.len() ==> r is Err && final(self)@ == old(self)@,
            idx < old(self)@.len() ==> (r matches Ok(d)
                && d.model() == old(self)@[old(self)@.len() - idx - 1]
                && final(self)@ == old(self)@.remove(old(self)@.len() - idx - 1)),
            final(self).log() == old(self).log(),
    {
        let len = self.stack.len();
        if idx >= len {
            return Err(StackEmpty);
        }
        let ghost s = self.stack@;
        let d = self.stack.remove(len - idx - 1);
        proof {
            assert(datum_models(self.stack@) =~= datum_models(s).remove(len - idx - 1));
        }
        Ok(d)
    }

    /// The top value, to change in place (not logged).
    pub fn top_mut_datum(&mut self) -> (r: Result<&mut Datum, StackEmpty>)
        ensures
            old(self)@.len() == 0 ==> (r is Err && final(self)@ == old(self)@),
            old(self)@.len() > 0 ==> (r matches Ok(d) && d.model() == old(self)@.last()
                && final(self)@ == old(self)@.update(old(self)@.len() - 1, final(d).model())),
            final(self).log() == old(self).log(),
    {
        let len = self.stack.len();
        if len == 0 {
            Err(StackEmpty)
        } else {
            Ok(&mut self.stack[len - 1])
        }
    }

    /// The top value, if it has the kind `kind`, to change in place (not
    /// logged). Any error comes before the value can change.
    pub fn top_mut(&mut self, kind: ValKind) -> (r: Result<&mut Datum, StackError>)
        ensures
            old(self)@.len() == 0 ==> (r matches Err(StackError::Empty) && final(self)@ == old(self)@),
            old(self)@.len() > 0 && old(self)@.last().value.kind() != kind ==>
                (r matches Err(StackError::WrongType(k, d)) && k == kind && d.model() == old(self)@.last()
                && final(self)@ == old(self)@),
            old(self)@.len() > 0 && old(self)@.last().value.kind() == kind ==>
                (r matches Ok(d) && d.model() == old(self)@.last()
                && final(self)@ == old(self)@.update(old(self)@.len() - 1, final(d).model())),
            final(self).log() == old(self).log(),
    {
        let len = self.stack.len();
        if len == 0 {
            return Err(StackError::Empty);
        }
        if self.stack[len - 1].value.kind() != kind {
            return Err(StackError::WrongType(kind, self.stack[len - 1].deep_clone()));
        }
        Ok(&mut self.stack[len - 1])
    }

    /// The value under the top `idx` values.
    pub fn ref_datum(&self, idx: usize) -> (r: Result<&Datum, StackEmpty>)
        ensures
            idx >= self@.len() ==> r is Err,
            idx < self@.len() ==> (r matches Ok(d) && d.model() == self@[self@.len() - idx - 1]),
    {
        let len = self.stack.len();
        if idx < len {
            Ok(&self.stack[len - idx - 1])
        } else {
            Err(StackEmpty)
        }
    }

    /// Take the top value off if it has the kind `kind`; a value of another
    /// kind is taken off too, and comes back in the error.
    pub fn pop(&mut self, kind: ValKind) -> (r: Result<Datum, StackError>)
        ensures
            final(self).log() is Some <==> old(self).log() is Some,
            old(self).log() is Some ==> final(self).origin() == old(self).origin(),
            old(self)@.len() == 0 ==> (r matches Err(StackError::Empty) && final(self)@ == old(self)@),
            old(self)@.len() > 0 ==> final(self)@ == old(self)@.drop_last() && match r {
                Ok(d) => d.model() == old(self)@.last() && d.model().value.kind() == kind,
                Err(StackError::WrongType(k, d)) => k == kind && d.model() == old(self)@.last()
                    && d.model().value.kind() != kind,
                Err(StackError::Empty) => false,
            },
    {
        match self.pop_datum() {
            Err(_) => Err(StackError::Empty),
            Ok(d) => {
                if d.value.kind() == kind {
                    Ok(d)
                } else {
                    Err(StackError::WrongType(kind, d))
                }
            },
        }
    }

    /// [Stack::pop], giving the value and where it was read from apart.
    pub fn pop_source(&mut self, kind: ValKind) -> (r: Result<(Val, Option<Source>), StackError>)
        ensures
            final(self).log() is Some <==> old(self).log() is Some,
            old(self).log() is Some ==> final(self).origin() == old(self).origin(),
            old(self)@.len() == 0 ==> (r matches Err(StackError::Empty) && final(self)@ == old(self)@),
            old(self)@.len() > 0 ==> final(self)@ == old(self)@.drop_last() && match r {
                Ok((v, s)) => v.model() == old(self)@.last().value && s == old(self)@.last().source
                    && v.model().kind() == kind,
                Err(StackError::WrongType(k, d)) => k == kind && d.model() == old(self)@.last()
                    && d.model().value.kind() != kind,
                Err(StackError::Empty) => false,
            },
    {
        match self.pop(kind) {
            Ok(d) => Ok((d.value, d.source)),
            Err(e) => Err(e),
        }
    }

    /// The value under the top `idx` values, if it has the kind `kind`.
    pub fn ref_at(&self, idx: usize, kind: ValKind) -> (r: Result<&Datum, StackError>)
        ensures
            idx >= self@.len() ==> (r matches Err(StackError::Empty)),
            idx < self@.len() ==> match r {
                Ok(d) => d.model() == self@[self@.len() - idx - 1] && d.model().value.kind() == kind,
                Err(StackError::WrongType(k, d)) => k == kind && d.model() == self@[self@.len() - idx - 1]
                    && d.model().value.kind() != kind,
                Err(StackError::Empty) => false,
            },
    {
        match self.ref_datum(idx) {
            Err(_) => Err(StackError::Empty),
            Ok(d) => {
                if d.value.kind() == kind {
                    Ok(d)
                } else {
                    Err(StackError::WrongType(kind, d.deep_clone()))
                }
            },
        }
    }

    /// Whether the value under the top `idx` values has the kind `kind`.
    pub fn type_predicate(&self, idx: usize, kind: ValKind) -> (r: Result<bool, StackEmpty>)
        ensures
            idx >= self@.len() ==> r is Err,
            idx < self@.len() ==> r == Ok::<bool, StackEmpty>(self@[self@.len() - idx - 1].value.kind() == kind),
    {
        match self.ref_datum(idx) {
            Err(e) => Err(e),
            Ok(d) => Ok(d.value.kind() == kind),
        }
    }

    /// Start a transaction: from now on, pushes and pops are logged so
    /// that they can be rolled back. A transaction in progress is forgotten.
    pub fn transaction(&mut self) -> (r: TransactionHandle)
        ensures
            final(self)@ == old(self)@,
            final(self).log() == Some(Seq::<SOp>::empty()),
            final(self).origin() == old(self)@,
    {
        self.transaction = Some(Vec::new());
        proof { assert(log_model(Seq::<StackOp>::empty()) =~= Seq::<SOp>::empty()); }
        TransactionHandle()
    }

    /// Keep the changes: stop logging.
    pub fn commit(&mut self, t: TransactionHandle)
        ensures final(self)@ == old(self)@, final(self).log() is None,
    {
        self.transaction = None;
    }

    /// Undo the pushes and pops of the transaction in progress, last first,
    /// and stop logging.
    pub fn rollback(&mut self, t: TransactionHandle)
        ensures final(self)@ == old(self).origin(), final(self).log() is None,
    {
        match self.transaction.take() {
            None => {},
            Some(ops) => {
                let mut ops = ops;
                let ghost target = undo(self@, log_model(ops@));
                while ops.len() > 0
                    invariant
                        undo(datum_models(self.stack@), log_model(ops@)) == target,
                        self.transaction is None,
                    decreases ops@.len(),
                {
                    let ghost l = ops@;
                    let ghost s = self.stack@;
                    let op = ops.pop().unwrap();
                    proof { assert(log_model(ops@) =~= log_model(l).drop_last()); }
                    match op {
                        StackOp::Push(d) => {
                            self.stack.push(d);
                            proof { assert(datum_models(self.stack@) =~= datum_models(s).push(d.model())); }
                        },
                        StackOp::Pop => {
                            self.stack.pop();
                            proof {
                                if s.len() > 0 {
                                    assert(datum_models(self.stack@) =~= datum_models(s).drop_last());
                                }
                            }
                        },
                    }
                }
            },
        }
    }
}

/// A transaction's log undoes each push and each pop: pushing a value and
/// logging it keeps the stack's origin, and so does popping one.
pub proof fn law_log_keeps_origin(s: Seq<SDatum>, log: Seq<SOp>, d: SDatum)
    ensures
        undo(s.push(d), log.push(SOp::Pop)) == undo(s, log),
        s.len() > 0 ==> undo(s.drop_last(), log.push(SOp::Push(s.last()))) == undo(s, log),
{
    assert(log.push(SOp::Pop).drop_last() == log);
    assert(s.push(d).drop_last() == s);
    if s.len() > 0 {
        assert(log.push(SOp::Push(s.last())).drop_last() == log);
        assert(s.drop_last().push(s.last()) == s);
    }
}

/// A push or a pop of the stack, as a caller makes it.
pub enum StackAct {
    Push(SDatum),
    Pop,
}

/// Where doing `acts` in order inside a transaction leaves the stack and
/// its log: a push logs a pop, a pop of a value logs pushing it back, and a
/// pop of an empty stack changes nothing (as [Stack::push] and
/// [Stack::pop_datum] state).
pub open spec fn run_acts(s: Seq<SDatum>, log: Seq<SOp>, acts: Seq<StackAct>) -> (Seq<SDatum>, Seq<SOp>)
    decreases acts.len(),
{
    if acts.len() == 0 {
        (s, log)
    } else {
        let (s1, l1) = match acts[0] {
            StackAct::Push(d) => (s.push(d), log.push(SOp::Pop)),
            StackAct::Pop => if s.len() > 0 { (s.drop_last(), log.push(SOp::Push(s.last()))) } else { (s, log) },
        };
        run_acts(s1, l1, acts.drop_first())
    }
}

/// Any pushes and pops inside a transaction that is open, whatever it has
/// logged already, keep what the log undoes back to: the stack's origin.
pub proof fn law_acts_keep_origin(s: Seq<SDatum>, log: Seq<SOp>, acts: Seq<StackAct>)
    ensures ({ let (s2, l2) = run_acts(s, log, acts); undo(s2, l2) == undo(s, log) }),
    decreases acts.len(),
{
    if acts.len() > 0 {
        let (s1, l1) = match acts[0] {
            StackAct::Push(d) => (s.push(d), log.push(SOp::Pop)),
            StackAct::Pop => if s.len() > 0 { (s.drop_last(), log.push(SOp::Push(s.last()))) } else { (s, log) },
        };
        match acts[0] {
            StackAct::Push(d) => { law_log_keeps_origin(s, log, d); },
            StackAct::Pop => { law_log_keeps_origin(s, log, s.last()); },
        }
        law_acts_keep_origin(s1, l1, acts.drop_first());
    }
}

/// Rolling back a transaction undoes any pushes and pops made in it: from
/// a stack `s0` with a fresh transaction, after any pushes and pops, the
/// stack's origin (what [Stack::rollback] gives back) is `s0`.
pub proof fn law_rollback_undoes_acts(s0: Seq<SDatum>, acts: Seq<StackAct>)
    ensures ({ let (s2, l2) = run_acts(s0, Seq::empty(), acts); undo(s2, l2) == s0 }),
{
    law_acts_keep_origin(s0, Seq::empty(), acts);
}

} // verus!
