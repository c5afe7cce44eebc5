//! Generators driven by a task that hands values out one at a time.
//!
//! The task is a future made from the generator's function; each call of
//! [Generator::next] runs it until it stops, then looks at what it left in
//! the shared channel.

use vstd::prelude::*;
use std::rc::Rc;
use std::cell::Cell;
use std::pin::Pin;
use std::future::Future;
use std::task::Waker;

verus! {

#[verifier::external_type_specification]
#[verifier::external_body]
#[verifier::reject_recursive_types(T)]
pub struct ExCell<T: ?Sized>(Cell<T>);

#[verifier::external_type_specification]
#[verifier::external_body]
#[verifier::reject_recursive_types(Ptr)]
pub struct ExPin<Ptr>(Pin<Ptr>);

#[verifier::external_type_specification]
#[verifier::external_body]
pub struct ExWaker(Waker);

/// How driving a generator's task can go wrong.
#[derive(PartialEq, Eq, Structural, Clone, Copy, Debug)]
pub enum GeneratorError {
    /// The task stopped without handing out a value.
    AwaitedWithoutYield,
    /// The task finished with a value still in the channel.
    FinishedEarly,
    /// A value was handed out while the last one was still in the channel.
    ResumedWithoutTaking,
}

/// What one run of the task comes to, where `ready` is whether it
/// finished and `v` what it left in the channel.
pub open spec fn outcome_spec<T>(ready: bool, v: Option<T>) -> Result<Option<T>, GeneratorError> {
    match v {
        Some(x) => if ready { Err(GeneratorError::FinishedEarly) } else { Ok(Some(x)) },
        None => if ready { Ok(None) } else { Err(GeneratorError::AwaitedWithoutYield) },
    }
}

/// What one run of the task came to: `ready` is whether it finished, `v`
/// what it left in the channel. A task that stops hands out one value; a
/// task that finishes hands out none.
pub fn resume_outcome<T>(ready: bool, v: Option<T>) -> (r: Result<Option<T>, GeneratorError>)
    ensures r == outcome_spec(ready, v),
{
    match v {
        Some(x) => if ready { Err(GeneratorError::FinishedEarly) } else { Ok(Some(x)) },
        None => if ready { Ok(None) } else { Err(GeneratorError::AwaitedWithoutYield) },
    }
}

/// `Cell::new(None)`: an empty channel.
#[verifier::external_body]
fn empty_cell<T>() -> Cell<Option<T>> {
    Cell::new(None)
}

/// `Cell::take`: what the channel held; the channel is left empty. What it
/// held depends on what the task put there, so nothing is stated of it.
#[verifier::external_body]
fn take_cell<T>(c: &Cell<Option<T>>) -> Option<T> {
    c.take()
}

/// `Cell::replace`: put `v` in the channel and give back what it held,
/// which depends on the other side of the channel; nothing is stated of it.
#[verifier::external_body]
fn replace_cell<T>(c: &Cell<Option<T>>, v: Option<T>) -> Option<T> {
    c.replace(v)
}

/// A task, and whether a poll has reported it finished. Its future is
/// only polled through [poll_task], and only while it is not marked
/// finished.
#[verifier::reject_recursive_types(O)]
struct Task<O> {
    fut: Pin<Box<O>>,
    finished: bool,
}

/// `Box::pin`: the task's future, pinned on the heap.
#[verifier::external_body]
fn pin_task<O>(o: O) -> Pin<Box<O>> {
    Box::pin(o)
}

/// `Waker::noop`: a waker that does nothing when woken.
#[verifier::external_body]
fn noop_waker() -> Waker {
    Waker::noop().clone()
}

/// `Future::poll` on a task that no poll has reported finished (polling
/// a finished future may panic): whether it finishes now. That depends on
/// the task, so nothing is stated of it; the mark is left as it was.
#[verifier::external_body]
fn poll_task<O: Future<Output = ()>>(task: &mut Task<O>, waker: &Waker) -> (r: bool)
    requires !old(task).finished,
    ensures final(task).finished == old(task).finished,
{
    let mut cx = std::task::Context::from_waker(waker);
    task.fut.as_mut().poll(&mut cx).is_ready()
}

/// The outside view of a generator: run the task, then take the value
/// out of the channel.
#[verifier::reject_recursive_types(T)]
#[verifier::reject_recursive_types(O)]
pub struct Generator<T, O> {
    chan: Rc<Cell<Option<T>>>,
    task: Task<O>,
    waker: Waker,
}

/// The inside view of a generator: put a value in the channel, then wait.
#[verifier::reject_recursive_types(T)]
pub struct Ctx<T> {
    chan: Rc<Cell<Option<T>>>,
}

impl<T, O> Generator<T, O> {
    /// Whether the task has finished: no value is left to come.
    pub closed spec fn is_finished(&self) -> bool {
        self.task.finished
    }

    /// A generator whose values come from the task `f` makes; it has not
    /// finished.
    pub fn new<F: FnOnce(Ctx<T>) -> O>(f: F) -> (r: Self)
        requires forall|c: Ctx<T>| f.requires((c,)),
        ensures !r.is_finished(),
    {
        let chan = Rc::new(empty_cell());
        let ctx = Ctx { chan: chan.clone() };
        let fut = pin_task(f(ctx));
        Generator { chan, task: Task { fut, finished: false }, waker: noop_waker() }
    }

    /// The next value: run the task until it stops or finishes, then take
    /// what it left. Once the task has finished this is `Ok(None)`, and the
    /// task is not run again. Whether the task finishes and what it leaves
    /// depend on the task: the result is the outcome of some such run, and
    /// never `ResumedWithoutTaking`.
    pub fn next(&mut self) -> (r: Result<Option<T>, GeneratorError>)
        where O: Future<Output = ()>,
        ensures
            old(self).is_finished() ==> r == Ok::<Option<T>, GeneratorError>(None) && final(self).is_finished(),
            !old(self).is_finished() ==> exists|ready: bool, v: Option<T>|
                r == outcome_spec(ready, v) && final(self).is_finished() == ready,
            r == Ok::<Option<T>, GeneratorError>(None) ==> final(self).is_finished(),
            !(r matches Err(GeneratorError::ResumedWithoutTaking)),
    {
        if self.task.finished {
            return Ok(None);
        }
        let ready = poll_task(&mut self.task, &self.waker);
        self.task.finished = ready;
        let v = take_cell(&self.chan);
        let r = resume_outcome(ready, v);
        proof { assert(r == outcome_spec(ready, v) && self.task.finished == ready); }
        r
    }
}

impl<T> Ctx<T> {
    /// Hand `v` to the generator: the first half of yielding, before
    /// waiting. Fails if the last value has not been taken.
    pub fn put(&self, v: T) -> (r: Result<(), GeneratorError>)
        ensures r is Err ==> r == Err::<(), GeneratorError>(GeneratorError::ResumedWithoutTaking),
    {
        match replace_cell(&self.chan, Some(v)) {
            Some(_) => Err(GeneratorError::ResumedWithoutTaking),
            None => Ok(()),
        }
    }
}

} // verus!
