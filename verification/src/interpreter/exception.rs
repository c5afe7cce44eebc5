//! A failure together with where the running code was when it happened.

use vstd::prelude::*;
use std::rc::Rc;
use crate::interpreter::exec::Failure;
use crate::parser::data::Source;
use crate::text::push_str;

verus! {

/// One line per place, innermost first.
pub open spec fn trace_lines(stack_trace: Seq<Option<Source>>) -> Seq<char>
    decreases stack_trace.len(),
{
    if stack_trace.len() == 0 {
        Seq::empty()
    } else {
        trace_lines(stack_trace.drop_last()) + "\n  at "@ + match stack_trace.last() {
            Some(s) => s.describe_spec(),
            None => "<unknown location>"@,
        }
    }
}

/// How the stack trace reads: a heading if there is anything recorded,
/// then one line per place.
pub open spec fn trace_spec(stack_trace: Seq<Option<Source>>, has_uplevels: bool) -> Seq<char> {
    (if stack_trace.len() > 0 || has_uplevels { "\nStack trace:"@ } else { Seq::empty() }) + trace_lines(stack_trace)
}

/// A failure and the places of the frames it happened in.
pub struct Exception {
    exception: Rc<Failure>,
    stack_trace: Vec<Option<Source>>,
    uplevel_trace: Vec<Vec<Option<Source>>>,
}

impl Exception {
    /// The failure.
    pub closed spec fn failure_spec(&self) -> Failure {
        *self.exception
    }

    /// Where each frame was read from, innermost first.
    pub closed spec fn stack_trace_spec(&self) -> Seq<Option<Source>> {
        self.stack_trace@
    }

    /// The number of upleveled frames recorded.
    pub closed spec fn uplevels(&self) -> nat {
        self.uplevel_trace@.len()
    }

    /// An exception for `exception`, with the places of the frames and of
    /// the upleveled frames.
    pub fn new(exception: Failure, traces: (Vec<Option<Source>>, Vec<Vec<Option<Source>>>)) -> (r: Exception)
        ensures
            r.failure_spec() == exception,
            r.stack_trace_spec() == traces.0@,
            r.uplevels() == traces.1@.len(),
    {
        let (stack_trace, uplevel_trace) = traces;
        Exception { exception: Rc::new(exception), stack_trace, uplevel_trace }
    }

    /// The failure.
    pub fn failure(&self) -> (r: &Failure)
        ensures *r == self.failure_spec(),
    {
        &self.exception
    }

    /// The stack trace as it is shown after the failure: `Stack trace:`,
    /// then `at` and the place of each frame, or `<unknown location>`.
    pub fn trace_text(&self) -> (r: String)
        ensures r@ == trace_spec(self.stack_trace_spec(), self.uplevels() > 0),
    {
        let mut s = String::new();
        let n = self.stack_trace.len();
        if n > 0 || self.uplevel_trace.len() > 0 {
            push_str(&mut s, "\nStack trace:");
        }
        let ghost head = s@;
        let mut i: usize = 0;
        proof { assert(self.stack_trace@.take(0) =~= Seq::<Option<Source>>::empty()); }
        while i < n
            invariant
                n == self.stack_trace@.len(),
                i <= n,
                s@ == head + trace_lines(self.stack_trace@.take(i as int)),
            decreases n - i,
        {
            push_str(&mut s, "\n  at ");
            match self.stack_trace[i] {
                Some(ref src) => {
                    let d = src.describe();
                    push_str(&mut s, d.as_str());
                },
                None => {
                    push_str(&mut s, "<unknown location>");
                },
            }
            proof {
                let t = self.stack_trace@.take(i + 1);
                assert(t.drop_last() == self.stack_trace@.take(i as int));
                assert(t.last() == self.stack_trace@[i as int]);
            }
            i += 1;
        }
        proof { assert(self.stack_trace@.take(n as int) == self.stack_trace@); }
        s
    }
}

} // verus!
