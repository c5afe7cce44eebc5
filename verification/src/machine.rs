//! The simple interpreter: a stack of frames, each with child frames to
//! run first and then a body of values, and a value stack.
//!
//! Running takes one step at a time ([Interpreter::step]): enter the last
//! child frame, or evaluate the next value of the body (a symbol runs its
//! definition, anything else goes on the stack), or go back to the parent
//! frame. Builtins are host functions, known here by number: when one is
//! due, the step says so and the host calls it.

use vstd::prelude::*;
use crate::data::{Datum, SDatum, Val, SVal, ValKind, models, kind_name_spec};
use crate::defset::DefSet;
use crate::list::List;
use crate::interpreter::base::DefScope;
use crate::interpreter::stack::Stack;

verus! {

/// The model of a child frame.
pub enum SChild {
    Frame(SFrame),
    Builtin(u64),
    Once(u64),
}

/// The model of a frame.
pub struct SFrame {
    pub childs: Seq<SChild>,
    pub body: Seq<SVal>,
    pub ambient: Map<Seq<char>, SVal>,
    pub locals: Map<Seq<char>, SVal>,
}

/// Why running stopped early: a pause or an error, with a value.
pub enum Halt {
    Pause(Val),
    Error(Val),
}

/// The model of a [Halt].
pub enum SHalt {
    Pause(SVal),
    Error(SVal),
}

impl Halt {
    /// The model of this halt.
    pub open spec fn model(&self) -> SHalt {
        match self {
            Halt::Pause(v) => SHalt::Pause(v.model()),
            Halt::Error(v) => SHalt::Error(v.model()),
        }
    }
}

/// What a step came to.
pub enum Step {
    /// There is more to do.
    Continue,
    /// Nothing is left to do.
    Done,
    /// The builtin with this number is due: the host runs it.
    CallBuiltin(u64),
    /// The one-off function with this number is due: the host runs it.
    CallOnce(u64),
    /// Running stopped with a pause or an error.
    Halted(Halt),
}

/// The model of a [Step].
pub enum SStep {
    Continue,
    Done,
    CallBuiltin(u64),
    CallOnce(u64),
    Halted(SHalt),
}

impl Step {
    /// The model of this step.
    pub open spec fn model(&self) -> SStep {
        match self {
            Step::Continue => SStep::Continue,
            Step::Done => SStep::Done,
            Step::CallBuiltin(b) => SStep::CallBuiltin(*b),
            Step::CallOnce(b) => SStep::CallOnce(*b),
            Step::Halted(h) => SStep::Halted(h.model()),
        }
    }
}

/// The model of an interpreter.
pub struct SInterp {
    pub frame: SFrame,
    pub parents: Seq<SFrame>,
    /// The value stack, top first.
    pub stack: Seq<SVal>,
    /// The definition sets that lists carry, by number.
    pub envs: Seq<Map<Seq<char>, SVal>>,
}

/// A frame with nothing in it and the given ambient definitions.
pub open spec fn empty_frame(ambient: Map<Seq<char>, SVal>) -> SFrame {
    SFrame { childs: Seq::empty(), body: Seq::empty(), ambient, locals: Map::empty() }
}

/// The definition set a list carries, if it carries a known one.
pub open spec fn env_of(s: SInterp, env: Option<u64>) -> Option<Map<Seq<char>, SVal>> {
    match env {
        Some(i) => if i < s.envs.len() { Some(s.envs[i as int]) } else { None },
        None => None,
    }
}

/// The definition of `name` in a frame: its locals first, then its
/// ambient definitions.
pub open spec fn lookup_spec(f: SFrame, name: Seq<char>) -> Option<SVal> {
    if f.locals.dom().contains(name) {
        Some(f.locals[name])
    } else if f.ambient.dom().contains(name) {
        Some(f.ambient[name])
    } else {
        None
    }
}

/// A name defined in a frame's locals resolves to its local definition,
/// whatever the ambient definitions hold: replacing the ambient
/// definitions changes nothing, and following the name finds the local
/// definition when that is not itself a name.
pub proof fn law_locals_shadow_ambient(f: SFrame, n: Seq<char>, other: Map<Seq<char>, SVal>, fuel: nat)
    requires f.locals.dom().contains(n),
    ensures
        lookup_spec(f, n) == Some(f.locals[n]),
        lookup_spec(SFrame { ambient: other, ..f }, n) == lookup_spec(f, n),
        !(f.locals[n] is Symbol) ==> resolve_chain(f, n, fuel) == SResolved::Found(f.locals[n]),
{
}

/// The definition of `name` in a frame, looked up in `scope`: the locals
/// (unless only the defining environment is asked for), then the ambient
/// definitions from the defining environment (unless only the locals are
/// asked for). No scope means both, locals first.
pub open spec fn scoped_lookup_spec(f: SFrame, name: Seq<char>, scope: Option<DefScope>) -> Option<SVal> {
    if scope != Some(DefScope::DefEnv) && f.locals.dom().contains(name) {
        Some(f.locals[name])
    } else if scope != Some(DefScope::Local) && f.ambient.dom().contains(name) {
        Some(f.ambient[name])
    } else {
        None
    }
}

/// The interpreter's stack (top first) as a value stack of the standard
/// library (bottom first), each value with no known source.
pub open spec fn machine_to_stack(vs: Seq<SVal>) -> Seq<SDatum>
    decreases vs.len(),
{
    if vs.len() == 0 {
        Seq::empty()
    } else {
        machine_to_stack(vs.drop_first()).push(SDatum { value: vs[0], source: None })
    }
}

/// A value stack of the standard library (bottom first) as the
/// interpreter's stack (top first), sources dropped.
pub open spec fn stack_to_machine(ds: Seq<SDatum>) -> Seq<SVal>
    decreases ds.len(),
{
    if ds.len() == 0 {
        Seq::empty()
    } else {
        seq![ds.last().value] + stack_to_machine(ds.drop_last())
    }
}

/// Handing the interpreter's stack to the standard library and back keeps
/// it as it was.
pub proof fn law_stack_round_trip(vs: Seq<SVal>)
    ensures stack_to_machine(machine_to_stack(vs)) == vs,
    decreases vs.len(),
{
    if vs.len() > 0 {
        law_stack_round_trip(vs.drop_first());
        let ds = machine_to_stack(vs);
        assert(ds.drop_last() == machine_to_stack(vs.drop_first()));
        assert(seq![vs[0]] + vs.drop_first() =~= vs);
    }
}

/// Arrange for `v` to be evaluated next: a symbol runs its definition, a
/// builtin is called, a list runs in a new frame with the definitions it
/// carries (none if it carries none), anything else goes on the stack.
pub open spec fn eval_next_spec(s: SInterp, v: SVal) -> (SInterp, SStep) {
    match v {
        SVal::Symbol(name) => resolve_spec(s, name),
        _ => (eval_value_spec(s, v), SStep::Continue),
    }
}

/// [eval_next_spec] for a value that is not a symbol.
pub open spec fn eval_value_spec(s: SInterp, v: SVal) -> SInterp {
    match v {
        SVal::Builtin(b) => SInterp {
            frame: SFrame { childs: s.frame.childs.push(SChild::Builtin(b)), ..s.frame },
            ..s
        },
        SVal::List(items, env) => {
            let ambient = match env_of(s, env) { Some(m) => m, None => Map::empty() };
            SInterp {
                frame: SFrame {
                    childs: s.frame.childs.push(SChild::Frame(SFrame { body: items, ..empty_frame(ambient) })),
                    ..s.frame
                },
                ..s
            }
        },
        _ => SInterp { stack: seq![v] + s.stack, ..s },
    }
}

/// What a name comes to in a frame, following names defined as names.
pub enum SResolved {
    /// A definition that is not a name.
    Found(SVal),
    /// This name has no definition.
    Undefined(Seq<char>),
    /// The names went round in a circle, through this one.
    Cyclic(Seq<char>),
}

/// Follow `name` through at most `fuel` further names.
pub open spec fn resolve_chain(f: SFrame, name: Seq<char>, fuel: nat) -> SResolved
    decreases fuel,
{
    match lookup_spec(f, name) {
        None => SResolved::Undefined(name),
        Some(SVal::Symbol(n2)) => if fuel == 0 { SResolved::Cyclic(n2) } else { resolve_chain(f, n2, (fuel - 1) as nat) },
        Some(d) => SResolved::Found(d),
    }
}

/// How many names a frame defines, counting locals and ambient
/// definitions apart: following more names than that goes round in a
/// circle.
pub open spec fn name_count(f: SFrame) -> nat {
    f.locals.dom().len() + f.ambient.dom().len()
}

/// Run the definition of `name`, or fail with `(undefined name)` (or,
/// where names are defined in a circle, `(cyclic-definition name)`).
pub open spec fn resolve_spec(s: SInterp, name: Seq<char>) -> (SInterp, SStep) {
    match resolve_chain(s.frame, name, name_count(s.frame)) {
        SResolved::Found(d) => (eval_value_spec(s, d), SStep::Continue),
        SResolved::Undefined(n) => (s, SStep::Halted(SHalt::Error(SVal::List(
            seq![SVal::Symbol("undefined"@), SVal::Symbol(n)], None)))),
        SResolved::Cyclic(n) => (s, SStep::Halted(SHalt::Error(SVal::List(
            seq![SVal::Symbol("cyclic-definition"@), SVal::Symbol(n)], None)))),
    }
}

/// One step of running.
pub open spec fn step_spec(s: SInterp) -> (SInterp, SStep) {
    if s.frame.childs.len() > 0 {
        let f1 = SFrame { childs: s.frame.childs.drop_last(), ..s.frame };
        match s.frame.childs.last() {
            SChild::Builtin(b) => (SInterp { frame: f1, ..s }, SStep::CallBuiltin(b)),
            SChild::Once(b) => (SInterp { frame: f1, ..s }, SStep::CallOnce(b)),
            SChild::Frame(f) => (SInterp { frame: f, parents: s.parents.push(f1), ..s }, SStep::Continue),
        }
    } else if s.frame.body.len() > 0 {
        let next = s.frame.body[0];
        let s1 = SInterp { frame: SFrame { body: s.frame.body.drop_first(), ..s.frame }, ..s };
        match next {
            SVal::Symbol(name) => resolve_spec(s1, name),
            _ => (SInterp { stack: seq![next] + s1.stack, ..s1 }, SStep::Continue),
        }
    } else if s.parents.len() > 0 {
        (SInterp { frame: s.parents.last(), parents: s.parents.drop_last(), ..s }, SStep::Continue)
    } else {
        (s, SStep::Done)
    }
}


/// Something to run before the rest of a frame: a frame, or a host
/// function (a builtin, or a one-off function), by number.
pub enum ChildFrame {
    Frame(Frame),
    Builtin(u64),
    Once(u64),
}

/// A frame: children to run first (the last first), then the body; and
/// the definitions seen here.
pub struct Frame {
    childs: Vec<ChildFrame>,
    body: List,
    ambient: DefSet,
    locals: DefSet,
}

/// The model of a frame.
pub closed spec fn frame_model(f: Frame) -> SFrame
    decreases f, 1int,
{
    SFrame { childs: childs_model(f.childs@), body: f.body.model(), ambient: f.ambient@, locals: f.locals@ }
}

/// The models of child frames.
pub closed spec fn childs_model(c: Seq<ChildFrame>) -> Seq<SChild>
    decreases c, 0int,
{
    if c.len() == 0 {
        Seq::empty()
    } else {
        childs_model(c.drop_last()).push(child_model(c.last()))
    }
}

/// The model of a child frame.
pub closed spec fn child_model(c: ChildFrame) -> SChild
    decreases c, 2int,
{
    match c {
        ChildFrame::Frame(f) => SChild::Frame(frame_model(f)),
        ChildFrame::Builtin(b) => SChild::Builtin(b),
        ChildFrame::Once(b) => SChild::Once(b),
    }
}

/// A child frame more at the end.
proof fn lemma_childs_push(c: Seq<ChildFrame>, x: ChildFrame)
    ensures childs_model(c.push(x)) == childs_model(c).push(child_model(x)),
{
    assert(c.push(x).drop_last() == c);
}

/// The last child frame taken off.
proof fn lemma_childs_pop(c: Seq<ChildFrame>)
    requires c.len() > 0,
    ensures
        childs_model(c.drop_last()) == childs_model(c).drop_last(),
        childs_model(c).last() == child_model(c.last()),
        childs_model(c).len() == c.len(),
{
    lemma_childs_len(c);
}

/// As many models as child frames.
proof fn lemma_childs_len(c: Seq<ChildFrame>)
    ensures childs_model(c).len() == c.len(),
    decreases c.len(),
{
    if c.len() > 0 {
        lemma_childs_len(c.drop_last());
    }
}

/// The models of frames.
pub closed spec fn frames_model(p: Seq<Frame>) -> Seq<SFrame> {
    p.map_values(|f: Frame| frame_model(f))
}

/// The models of definition sets.
pub closed spec fn envs_model(e: Seq<DefSet>) -> Seq<Map<Seq<char>, SVal>> {
    e.map_values(|d: DefSet| d@)
}

impl Frame {
    /// A frame that runs `body` with the ambient definitions `ambient`.
    fn from_list_defs(body: List, ambient: DefSet) -> (r: Frame)
        ensures frame_model(r) == (SFrame { body: body.model(), ..empty_frame(ambient@) }),
    {
        let r = Frame { childs: Vec::new(), body, ambient, locals: DefSet::new() };
        proof { assert(childs_model(r.childs@) =~= Seq::<SChild>::empty()); }
        r
    }

    /// Whether nothing is left to run here.
    fn is_empty(&self) -> (r: bool)
        ensures r == (frame_model(*self).childs.len() == 0 && frame_model(*self).body.len() == 0),
    {
        proof { lemma_childs_len(self.childs@); }
        self.childs.len() == 0 && self.body.is_empty()
    }

    /// The definition of `key`: locals first, then ambient definitions.
    fn lookup(&self, key: &str) -> (r: Option<&Val>)
        ensures
            match lookup_spec(frame_model(*self), key@) {
                Some(d) => r matches Some(v) && v.model() == d,
                None => r is None,
            },
    {
        match self.locals.get(key) {
            Some(v) => Some(v),
            None => self.ambient.get(key),
        }
    }
}

/// The interpreter: the frame running, the frames it returns to, the
/// value stack, and the definition sets that lists carry.
pub struct Interpreter {
    frame: Frame,
    parents: Vec<Frame>,
    stack: List,
    envs: Vec<DefSet>,
}

impl Interpreter {
    /// The model of this interpreter.
    pub closed spec fn model(&self) -> SInterp {
        SInterp {
            frame: frame_model(self.frame),
            parents: frames_model(self.parents@),
            stack: self.stack.model(),
            envs: envs_model(self.envs@),
        }
    }

    /// An interpreter that will run `body`, with nothing defined.
    pub fn new(body: List) -> (r: Interpreter)
        ensures
            r.model() == (SInterp {
                frame: SFrame { body: body.model(), ..empty_frame(Map::empty()) },
                parents: Seq::empty(),
                stack: Seq::empty(),
                envs: Seq::empty(),
            }),
    {
        let frame = Frame::from_list_defs(body, DefSet::new());
        let r = Interpreter { frame, parents: Vec::new(), stack: List::new(), envs: Vec::new() };
        proof {
            assert(frames_model(r.parents@) =~= Seq::<SFrame>::empty());
            assert(envs_model(r.envs@) =~= Seq::<Map<Seq<char>, SVal>>::empty());
        }
        r
    }

    /// Another interpreter with nothing to run and nothing defined.
    pub fn new_inner_empty(&self) -> (r: Interpreter)
        ensures
            r.model() == (SInterp {
                frame: empty_frame(Map::empty()),
                parents: Seq::empty(),
                stack: Seq::empty(),
                envs: Seq::empty(),
            }),
    {
        let r = Interpreter::new(List::new());
        proof { assert(r.model().frame =~= empty_frame(Map::empty())); }
        r
    }

    /// Whether nothing is left to run.
    pub fn is_complete(&self) -> (r: bool)
        ensures r == (self.model().frame.childs.len() == 0 && self.model().frame.body.len() == 0
            && self.model().parents.len() == 0),
    {
        self.frame.is_empty() && self.parents.len() == 0
    }
}


/// The result of following a name.
enum Resolved {
    Found(Val),
    Undefined(String),
    Cyclic(String),
}

/// A list of two values.
fn pair_list(a: Val, b: Val) -> (r: List)
    ensures r.model() == seq![a.model(), b.model()], r.env is None,
{
    let mut l = List::new();
    l.push(b);
    l.push(a);
    proof { assert(seq![a.model()] + seq![b.model()] =~= seq![a.model(), b.model()]); }
    l
}

/// An error value: a symbol.
fn error_sym(name: &str) -> (r: Halt)
    ensures r.model() == SHalt::Error(SVal::Symbol(name@)),
{
    Halt::Error(Val::Symbol(name.to_string()))
}

/// An error value: a symbol and a value, as a list.
fn error_pair(name: &str, v: Val) -> (r: Halt)
    ensures r.model() == SHalt::Error(SVal::List(seq![SVal::Symbol(name@), v.model()], None)),
{
    Halt::Error(Val::List(pair_list(Val::Symbol(name.to_string()), v)))
}

/// The error for a value of the wrong kind: `wrong-type`, the value, the
/// kind it has and the kind wanted (as symbols), and the wanted kind's
/// name (as a string).
pub open spec fn wrong_type_spec(v: SVal, want: ValKind) -> SVal {
    SVal::List(seq![
        SVal::Symbol("wrong-type"@),
        v,
        SVal::Symbol(kind_name_spec(v.kind())),
        SVal::Symbol(kind_name_spec(want)),
        SVal::Str(kind_name_spec(want)),
    ], None)
}

/// The error for `v` where a value of the kind `want` was wanted.
fn wrong_type(v: Val, want: ValKind) -> (r: Halt)
    ensures r.model() == SHalt::Error(wrong_type_spec(v.model(), want)),
{
    let found = v.kind();
    let mut l = List::new();
    let ghost m = v.model();
    l.push(Val::Str(want.name().to_string()));
    l.push(Val::Symbol(want.name().to_string()));
    l.push(Val::Symbol(found.name().to_string()));
    l.push(v);
    l.push(Val::Symbol("wrong-type".to_string()));
    proof {
        assert(l.model() =~= seq![
            SVal::Symbol("wrong-type"@),
            m,
            SVal::Symbol(kind_name_spec(m.kind())),
            SVal::Symbol(kind_name_spec(want)),
            SVal::Str(kind_name_spec(want)),
        ]);
    }
    Halt::Error(Val::List(l))
}

/// The outcome of a step that can only halt.
pub open spec fn as_step(r: Result<(), SHalt>) -> SStep {
    match r {
        Ok(_) => SStep::Continue,
        Err(h) => SStep::Halted(h),
    }
}

/// The models of a result.
pub open spec fn result_model(r: Result<(), Halt>) -> Result<(), SHalt> {
    match r {
        Ok(_) => Ok(()),
        Err(h) => Err(h.model()),
    }
}

impl Interpreter {
    /// Follow `name` through names defined as names.
    fn resolve_exec(&self, name: &str) -> (r: Resolved)
        ensures
            match resolve_chain(self.model().frame, name@, name_count(self.model().frame)) {
                SResolved::Found(d) => r matches Resolved::Found(v) && v.model() == d,
                SResolved::Undefined(n) => r matches Resolved::Undefined(x) && x@ == n,
                SResolved::Cyclic(n) => r matches Resolved::Cyclic(x) && x@ == n,
            },
            r matches Resolved::Found(v) ==> !(v.model() is Symbol),
    {
        let ghost f = self.model().frame;
        let a = self.frame.locals.len();
        let b = self.frame.ambient.len();
        let mut fuel: u128 = a as u128 + b as u128;
        let mut cur: String = name.to_string();
        loop
            invariant
                f == self.model().frame,
                fuel <= name_count(f),
                resolve_chain(f, name@, name_count(f)) == resolve_chain(f, cur@, fuel as nat),
            decreases fuel,
        {
            match self.frame.lookup(cur.as_str()) {
                None => { return Resolved::Undefined(cur); },
                Some(d) => {
                    match d {
                        Val::Symbol(n2) => {
                            if fuel == 0 {
                                return Resolved::Cyclic(n2.clone());
                            }
                            cur = n2.clone();
                            fuel = fuel - 1;
                        },
                        _ => { return Resolved::Found(d.deep_clone()); },
                    }
                },
            }
        }
    }

    /// The definition set numbered `env`, or none.
    fn env_defs(&self, env: Option<u64>) -> (r: DefSet)
        ensures r@ == match env_of(self.model(), env) { Some(m) => m, None => Map::empty() },
    {
        match env {
            Some(i) => {
                if i < self.envs.len() as u64 {
                    self.envs[i as usize].copy()
                } else {
                    DefSet::new()
                }
            },
            None => DefSet::new(),
        }
    }

    /// Put a child frame on the running frame.
    fn push_child(&mut self, c: ChildFrame)
        ensures
            final(self).model() == (SInterp {
                frame: SFrame { childs: old(self).model().frame.childs.push(child_model(c)), ..old(self).model().frame },
                ..old(self).model()
            }),
    {
        let ghost cs = self.frame.childs@;
        self.frame.childs.push(c);
        proof { lemma_childs_push(cs, c); }
    }

    /// Evaluate a value that is not a symbol next.
    fn eval_value(&mut self, v: Val)
        requires !(v.model() is Symbol),
        ensures final(self).model() == eval_value_spec(old(self).model(), v.model()),
    {
        match v {
            Val::Builtin(b) => {
                self.push_child(ChildFrame::Builtin(b));
            },
            Val::List(l) => {
                let ambient = self.env_defs(l.env);
                let f = Frame::from_list_defs(l, ambient);
                self.push_child(ChildFrame::Frame(f));
            },
            other => {
                self.stack.push(other);
            },
        }
    }

    /// Evaluate `v` next: a symbol runs its definition (an undefined name
    /// is an error), a builtin is called, a list runs in a new frame with
    /// the definitions it carries, anything else goes on the stack.
    pub fn eval_next(&mut self, v: Val) -> (r: Result<(), Halt>)
        ensures (final(self).model(), as_step(result_model(r))) == eval_next_spec(old(self).model(), v.model()),
    {
        match v {
            Val::Symbol(name) => self.eval_next_resolve(name.as_str()),
            other => {
                self.eval_value(other);
                Ok(())
            },
        }
    }

    /// Run the definition of `name` next.
    fn eval_next_resolve(&mut self, name: &str) -> (r: Result<(), Halt>)
        ensures (final(self).model(), as_step(result_model(r))) == resolve_spec(old(self).model(), name@),
    {
        match self.resolve_exec(name) {
            Resolved::Found(d) => {
                self.eval_value(d);
                Ok(())
            },
            Resolved::Undefined(n) => Err(error_pair("undefined", Val::Symbol(n))),
            Resolved::Cyclic(n) => Err(error_pair("cyclic-definition", Val::Symbol(n))),
        }
    }

    /// Take one step: enter the last child frame (or report the host
    /// function due), or evaluate the next value of the body, or go back
    /// to the parent frame; `Done` when nothing is left.
    pub fn step(&mut self) -> (r: Step)
        ensures (final(self).model(), r.model()) == step_spec(old(self).model()),
    {
        let ghost cs = self.frame.childs@;
        proof { lemma_childs_len(cs); }
        match self.frame.childs.pop() {
            Some(child) => {
                proof { lemma_childs_pop(cs); assert(self.frame.childs@ == cs.drop_last()); }
                match child {
                    ChildFrame::Builtin(b) => { return Step::CallBuiltin(b); },
                    ChildFrame::Once(b) => { return Step::CallOnce(b); },
                    ChildFrame::Frame(f) => {
                        let mut f = f;
                        std::mem::swap(&mut self.frame, &mut f);
                        let ghost ps = self.parents@;
                        self.parents.push(f);
                        proof { assert(frames_model(self.parents@) =~= frames_model(ps).push(frame_model(f))); }
                        return Step::Continue;
                    },
                }
            },
            None => {},
        }
        match self.frame.body.pop() {
            Some(next) => {
                match next {
                    Val::Symbol(name) => {
                        match self.eval_next_resolve(name.as_str()) {
                            Ok(()) => Step::Continue,
                            Err(h) => Step::Halted(h),
                        }
                    },
                    other => {
                        self.stack.push(other);
                        Step::Continue
                    },
                }
            },
            None => {
                let ghost ps = self.parents@;
                match self.parents.pop() {
                    Some(p) => {
                        self.frame = p;
                        proof { assert(frames_model(self.parents@) =~= frames_model(ps).drop_last()); }
                        Step::Continue
                    },
                    None => Step::Done,
                }
            },
        }
    }
}


/// Up to `n` steps, stopping at the first that does not just continue.
pub open spec fn run_spec(s: SInterp, n: nat) -> (SInterp, SStep)
    decreases n,
{
    if n == 0 {
        (s, SStep::Continue)
    } else {
        let (s1, o) = step_spec(s);
        match o {
            SStep::Continue => run_spec(s1, (n - 1) as nat),
            _ => (s1, o),
        }
    }
}

/// Go back to the parent frame, keeping what is left of this one as its
/// last child; an error at the outermost frame.
pub open spec fn enter_parent_spec(s: SInterp) -> (SInterp, Result<(), SHalt>) {
    if s.parents.len() > 0 {
        let p = s.parents.last();
        let old = s.frame;
        let frame = if old.childs.len() == 0 && old.body.len() == 0 {
            p
        } else {
            SFrame { childs: p.childs.push(SChild::Frame(old)), ..p }
        };
        (SInterp { frame, parents: s.parents.drop_last(), ..s }, Ok(()))
    } else {
        (s, Err(SHalt::Error(SVal::Symbol("root-uplevel"@))))
    }
}

/// The outermost frame's definitions: (ambient, locals).
pub open spec fn root_defs(s: SInterp) -> (Map<Seq<char>, SVal>, Map<Seq<char>, SVal>) {
    if s.parents.len() > 0 {
        (s.parents[0].ambient, s.parents[0].locals)
    } else {
        (s.frame.ambient, s.frame.locals)
    }
}

/// What defining `name` as `d` does: a list carries the definitions seen
/// where it was defined (ambient, then locals over them), to run with.
pub open spec fn define_spec(s: SInterp, name: Seq<char>, d: SVal) -> SInterp {
    match d {
        SVal::List(items, _) => SInterp {
            frame: SFrame {
                locals: s.frame.locals.insert(name, SVal::List(items, Some(s.envs.len() as u64))),
                ..s.frame
            },
            envs: s.envs.push(s.frame.ambient.union_prefer_right(s.frame.locals)),
            ..s
        },
        _ => SInterp { frame: SFrame { locals: s.frame.locals.insert(name, d), ..s.frame }, ..s },
    }
}

impl Interpreter {
    /// Run for at most `steps` steps: until a host function is due, a
    /// pause or an error, or nothing is left (`Continue` if the steps ran
    /// out first).
    pub fn run(&mut self, steps: u64) -> (r: Step)
        ensures (final(self).model(), r.model()) == run_spec(old(self).model(), steps as nat),
    {
        let mut n = steps;
        loop
            invariant run_spec(old(self).model(), steps as nat) == run_spec(self.model(), n as nat),
            decreases n,
        {
            if n == 0 {
                return Step::Continue;
            }
            let r = self.step();
            match r {
                Step::Continue => {},
                _ => { return r; },
            }
            n = n - 1;
        }
    }

    /// Go back to the parent frame, keeping what is left of this one to run
    /// first there.
    pub fn enter_parent_frame(&mut self) -> (r: Result<(), Halt>)
        ensures (final(self).model(), result_model(r)) == enter_parent_spec(old(self).model()),
    {
        let ghost ps = self.parents@;
        match self.parents.pop() {
            Some(frame) => {
                proof { assert(frames_model(self.parents@) =~= frames_model(ps).drop_last()); }
                let mut frame = frame;
                std::mem::swap(&mut self.frame, &mut frame);
                if !frame.is_empty() {
                    let ghost cs = self.frame.childs@;
                    self.frame.childs.push(ChildFrame::Frame(frame));
                    proof { lemma_childs_push(cs, ChildFrame::Frame(frame)); }
                }
                Ok(())
            },
            None => Err(error_sym("root-uplevel")),
        }
    }

    /// Stop running everything, keeping the outermost frame's definitions.
    pub fn reset(&mut self)
        ensures
            final(self).model().parents.len() == 0,
            final(self).model().frame.childs.len() == 0,
            final(self).model().frame.body.len() == 0,
            (final(self).model().frame.ambient, final(self).model().frame.locals) == root_defs(old(self).model()),
            final(self).model().stack == old(self).model().stack,
            final(self).model().envs == old(self).model().envs,
    {
        loop
            invariant
                root_defs(self.model()) == root_defs(old(self).model()),
                self.model().stack == old(self).model().stack,
                self.model().envs == old(self).model().envs,
            ensures
                self.model().parents.len() == 0,
                root_defs(self.model()) == root_defs(old(self).model()),
                self.model().stack == old(self).model().stack,
                self.model().envs == old(self).model().envs,
            decreases self.parents@.len(),
        {
            let ghost before = self.model();
            let ghost n = self.parents@.len();
            let r = self.enter_parent_frame();
            match r {
                Ok(()) => {
                    proof {
                        if n > 1 {
                            assert(self.model().parents[0] == before.parents[0]);
                        }
                    }
                },
                Err(_) => { break; },
            }
        }
        self.frame.childs = Vec::new();
        self.frame.body = List::new();
        proof { assert(childs_model(self.frame.childs@) =~= Seq::<SChild>::empty()); }
    }
}


impl Interpreter {
    /// Define `name` as `def` in the running frame. A list carries the
    /// definitions seen here (ambient, then locals over them), to run with
    /// later.
    pub fn define(&mut self, name: String, def: Val)
        requires old(self).model().envs.len() < u64::MAX,
        ensures final(self).model() == define_spec(old(self).model(), name@, def.model()),
    {
        match def {
            Val::List(l) => {
                let id = self.envs.len() as u64;
                let env = self.frame.ambient.copy().merged_with(self.frame.locals.copy());
                let ghost es = self.envs@;
                self.envs.push(env);
                proof { assert(envs_model(self.envs@) =~= envs_model(es).push(env@)); }
                let l2 = List { data: l.data, env: Some(id) };
                self.frame.locals.insert(name, Val::List(l2));
            },
            other => {
                self.frame.locals.insert(name, other);
            },
        }
    }

    /// Add `def` to the running frame's local definitions as it is.
    pub fn add_definition(&mut self, name: String, def: Val)
        ensures
            final(self).model() == (SInterp {
                frame: SFrame { locals: old(self).model().frame.locals.insert(name@, def.model()), ..old(self).model().frame },
                ..old(self).model()
            }),
    {
        self.frame.locals.insert(name, def);
    }

    /// Define `name` as the host's builtin numbered `b`.
    pub fn add_builtin(&mut self, name: String, b: u64)
        ensures
            final(self).model() == (SInterp {
                frame: SFrame { locals: old(self).model().frame.locals.insert(name@, SVal::Builtin(b)), ..old(self).model().frame },
                ..old(self).model()
            }),
    {
        self.frame.locals.insert(name, Val::Builtin(b));
    }

    /// The definition of `name` in the running frame: locals first, then
    /// ambient definitions.
    pub fn resolve_definition(&self, name: &str) -> (r: Option<&Val>)
        ensures
            match lookup_spec(self.model().frame, name@) {
                Some(d) => r matches Some(v) && v.model() == d,
                None => r is None,
            },
    {
        self.frame.lookup(name)
    }

    /// The definition of `name` in the running frame, looked up in `scope`
    /// (see [scoped_lookup_spec]).
    pub fn get_definition(&self, name: &str, scope: Option<DefScope>) -> (r: Option<&Val>)
        ensures
            match scoped_lookup_spec(self.model().frame, name@, scope) {
                Some(d) => r matches Some(v) && v.model() == d,
                None => r is None,
            },
    {
        let only_defenv = match scope { Some(DefScope::DefEnv) => true, _ => false };
        let only_local = match scope { Some(DefScope::Local) => true, _ => false };
        if !only_defenv {
            match self.frame.locals.get(name) {
                Some(v) => { return Some(v); },
                None => {},
            }
        }
        if !only_local {
            match self.frame.ambient.get(name) {
                Some(v) => { return Some(v); },
                None => {},
            }
        }
        None
    }

    /// The running frame's ambient definitions.
    pub fn ambients_ref(&self) -> (r: &DefSet)
        ensures r@ == self.model().frame.ambient,
    {
        &self.frame.ambient
    }

    /// The running frame's local definitions.
    pub fn locals_ref(&self) -> (r: &DefSet)
        ensures r@ == self.model().frame.locals,
    {
        &self.frame.locals
    }

    /// The running frame's ambient definitions, to change.
    pub fn ambients_mut(&mut self) -> (r: &mut DefSet)
        ensures
            r@ == old(self).model().frame.ambient,
            final(self).model() == (SInterp {
                frame: SFrame { ambient: final(r)@, ..old(self).model().frame },
                ..old(self).model()
            }),
    {
        &mut self.frame.ambient
    }

    /// The running frame's local definitions, to change.
    pub fn locals_mut(&mut self) -> (r: &mut DefSet)
        ensures
            r@ == old(self).model().frame.locals,
            final(self).model() == (SInterp {
                frame: SFrame { locals: final(r)@, ..old(self).model().frame },
                ..old(self).model()
            }),
    {
        &mut self.frame.locals
    }

    /// Run the list `v` next, with the definitions it carries, or else
    /// with those seen here (ambient, then locals over them).
    pub fn eval_list_next(&mut self, v: List)
        ensures
            final(self).model() == (SInterp {
                frame: SFrame {
                    childs: old(self).model().frame.childs.push(SChild::Frame(SFrame {
                        body: v.model(),
                        ..empty_frame(match env_of(old(self).model(), v.env) {
                            Some(m) => m,
                            None => old(self).model().frame.ambient.union_prefer_right(old(self).model().frame.locals),
                        })
                    })),
                    ..old(self).model().frame
                },
                ..old(self).model()
            }),
    {
        let known = match v.env {
            Some(i) => i < self.envs.len() as u64,
            None => false,
        };
        let defs = if known {
            self.env_defs(v.env)
        } else {
            self.frame.ambient.copy().merged_with(self.frame.locals.copy())
        };
        let f = Frame::from_list_defs(v, defs);
        self.push_child(ChildFrame::Frame(f));
    }

    /// Run the host's one-off function numbered `f` next.
    pub fn eval_next_once(&mut self, f: u64)
        ensures
            final(self).model() == (SInterp {
                frame: SFrame { childs: old(self).model().frame.childs.push(SChild::Once(f)), ..old(self).model().frame },
                ..old(self).model()
            }),
    {
        self.push_child(ChildFrame::Once(f));
    }

    /// [Interpreter::eval_list_next] for a list, [Interpreter::eval_next]
    /// for anything else.
    pub fn eval_any_next(&mut self, v: Val) -> (r: Result<(), Halt>)
        ensures
            v.model() is List ==> r is Ok,
            !(v.model() is List) ==> (final(self).model(), as_step(result_model(r))) == eval_next_spec(old(self).model(), v.model()),
            v matches Val::List(l) ==> final(self).model() == (SInterp {
                frame: SFrame {
                    childs: old(self).model().frame.childs.push(SChild::Frame(SFrame {
                        body: l.model(),
                        ..empty_frame(match env_of(old(self).model(), l.env) {
                            Some(m) => m,
                            None => old(self).model().frame.ambient.union_prefer_right(old(self).model().frame.locals),
                        })
                    })),
                    ..old(self).model().frame
                },
                ..old(self).model()
            }),
    {
        match v {
            Val::List(l) => {
                self.eval_list_next(l);
                Ok(())
            },
            other => self.eval_next(other),
        }
    }

    /// The value stack.
    pub fn stack_ref(&self) -> (r: &List)
        ensures r.model() == self.model().stack,
    {
        &self.stack
    }

    /// The value stack, to change.
    pub fn stack_mut(&mut self) -> (r: &mut List)
        ensures
            r.model() == old(self).model().stack,
            final(self).model() == (SInterp { stack: final(r).model(), ..old(self).model() }),
    {
        &mut self.stack
    }

    /// Take the whole value stack out, as a value stack of the standard
    /// library with no transaction, leaving the interpreter's stack empty.
    pub fn take_stack(&mut self) -> (r: Stack)
        ensures
            r@ == machine_to_stack(old(self).model().stack),
            r.log() is None,
            final(self).model() == (SInterp { stack: Seq::empty(), ..old(self).model() }),
    {
        let mut l = List::new();
        std::mem::swap(&mut l, &mut self.stack);
        let ghost orig = l.model();
        let mut s = Stack::new();
        loop
            invariant
                l.model() == orig.take(l.model().len() as int),
                l.model().len() <= orig.len(),
                s@ == machine_to_stack(orig.skip(l.model().len() as int)),
                s.log() is None,
                self.stack.model() == Seq::<SVal>::empty(),
            ensures
                s@ == machine_to_stack(orig),
                s.log() is None,
                self.stack.model() == Seq::<SVal>::empty(),
            decreases l.model().len(),
        {
            let ghost k = l.model().len() as int;
            match l.pop_tail() {
                Some(v) => {
                    proof {
                        assert(orig.skip(k - 1).drop_first() =~= orig.skip(k));
                        assert(orig.skip(k - 1)[0] == orig[k - 1]);
                        assert(l.model() =~= orig.take(k - 1));
                    }
                    s.push(Datum::new(v));
                },
                None => {
                    proof {
                        assert(l.model().len() == 0);
                        assert(orig.skip(0) =~= orig);
                    }
                    break;
                },
            }
        }
        proof { assert(self.model().stack == Seq::<SVal>::empty()); }
        s
    }

    /// Put a value stack of the standard library back as the whole
    /// interpreter's stack (top first, sources dropped).
    pub fn put_stack(&mut self, s: Stack)
        ensures final(self).model() == (SInterp { stack: stack_to_machine(s@), ..old(self).model() }),
    {
        let mut s = s;
        let ghost orig = s@;
        let mut l = List::new();
        loop
            invariant
                l.model() + stack_to_machine(s@) == stack_to_machine(orig),
            ensures l.model() == stack_to_machine(orig),
            decreases s@.len(),
        {
            let ghost before = s@;
            match s.pop_datum() {
                Ok(d) => {
                    let ghost lm = l.model();
                    l.push_tail(d.value);
                    proof {
                        assert(stack_to_machine(before) == seq![before.last().value] + stack_to_machine(before.drop_last()));
                        assert(lm.push(before.last().value) + stack_to_machine(before.drop_last())
                            =~= lm + (seq![before.last().value] + stack_to_machine(before.drop_last())));
                    }
                },
                Err(_) => {
                    proof { assert(l.model() + Seq::<SVal>::empty() =~= l.model()); }
                    break;
                },
            }
        }
        self.stack = l;
    }

    /// Put `v` on top of the stack.
    pub fn stack_push(&mut self, v: Val)
        ensures final(self).model() == (SInterp { stack: seq![v.model()] + old(self).model().stack, ..old(self).model() }),
    {
        self.stack.push(v);
    }

    /// Put an error value on top of the stack. (Values carry no error mark
    /// here; the value goes on the stack as it is.)
    pub fn stack_push_error(&mut self, v: Val)
        ensures final(self).model() == (SInterp { stack: seq![v.model()] + old(self).model().stack, ..old(self).model() }),
    {
        self.stack.push(v);
    }

    /// Put `v` on top of the stack, or `#f` if there is none.
    pub fn stack_push_option(&mut self, v: Option<Val>)
        ensures
            final(self).model() == (SInterp {
                stack: seq![match v { Some(x) => x.model(), None => SVal::Bool(false) }] + old(self).model().stack,
                ..old(self).model()
            }),
    {
        match v {
            Some(x) => self.stack.push(x),
            None => self.stack.push(Val::Bool(false)),
        }
    }

    /// Put `v` on top of the stack, or `#f` as an error if there is none.
    pub fn stack_push_opterr(&mut self, v: Option<Val>)
        ensures
            final(self).model() == (SInterp {
                stack: seq![match v { Some(x) => x.model(), None => SVal::Bool(false) }] + old(self).model().stack,
                ..old(self).model()
            }),
    {
        match v {
            Some(x) => self.stack.push(x),
            None => self.stack_push_error(Val::Bool(false)),
        }
    }

    /// Put the value of `v` on top of the stack, whether it is `Ok` or an
    /// error.
    pub fn stack_push_result(&mut self, v: Result<Val, Val>)
        ensures
            final(self).model() == (SInterp {
                stack: seq![match v { Ok(x) => x.model(), Err(e) => e.model() }] + old(self).model().stack,
                ..old(self).model()
            }),
    {
        match v {
            Ok(x) => self.stack_push(x),
            Err(e) => self.stack_push_error(e),
        }
    }

    /// Take the top value off the stack; `stack-empty` if there is none.
    pub fn stack_pop_val(&mut self) -> (r: Result<Val, Halt>)
        ensures
            old(self).model().stack.len() == 0 ==> (r matches Err(h)
                && h.model() == SHalt::Error(SVal::Symbol("stack-empty"@)) && final(self).model() == old(self).model()),
            old(self).model().stack.len() > 0 ==> (r matches Ok(v) && v.model() == old(self).model().stack[0]
                && final(self).model() == (SInterp { stack: old(self).model().stack.drop_first(), ..old(self).model() })),
    {
        match self.stack.pop() {
            Some(v) => Ok(v),
            None => Err(error_sym("stack-empty")),
        }
    }

    /// A copy of the top value of the stack; `stack-empty` if there is none.
    pub fn stack_top_val(&self) -> (r: Result<Val, Halt>)
        ensures
            self.model().stack.len() == 0 ==> (r matches Err(h) && h.model() == SHalt::Error(SVal::Symbol("stack-empty"@))),
            self.model().stack.len() > 0 ==> (r matches Ok(v) && v.model() == self.model().stack[0]),
    {
        match self.stack.top() {
            Some(v) => Ok(v.deep_clone()),
            None => Err(error_sym("stack-empty")),
        }
    }

    /// Take the top value off the stack if it has the kind `kind`; a value
    /// of another kind is taken off too, and the error is
    /// `(wrong-type value found wanted "wanted")`, with the kinds by name.
    pub fn stack_pop(&mut self, kind: ValKind) -> (r: Result<Val, Halt>)
        ensures
            old(self).model().stack.len() == 0 ==> (r matches Err(h)
                && h.model() == SHalt::Error(SVal::Symbol("stack-empty"@)) && final(self).model() == old(self).model()),
            old(self).model().stack.len() > 0 ==> final(self).model()
                == (SInterp { stack: old(self).model().stack.drop_first(), ..old(self).model() }),
            old(self).model().stack.len() > 0 && old(self).model().stack[0].kind() == kind ==>
                (r matches Ok(v) && v.model() == old(self).model().stack[0]),
            old(self).model().stack.len() > 0 && old(self).model().stack[0].kind() != kind ==>
                (r matches Err(h) && h.model() == SHalt::Error(wrong_type_spec(old(self).model().stack[0], kind))),
    {
        let v = self.stack_pop_val()?;
        if v.kind() == kind {
            Ok(v)
        } else {
            Err(wrong_type(v, kind))
        }
    }

    /// [Interpreter::stack_pop], then put a copy back.
    pub fn stack_top(&mut self, kind: ValKind) -> (r: Result<Val, Halt>)
        ensures
            old(self).model().stack.len() == 0 ==> (r matches Err(h)
                && h.model() == SHalt::Error(SVal::Symbol("stack-empty"@)) && final(self).model() == old(self).model()),
            old(self).model().stack.len() > 0 && old(self).model().stack[0].kind() == kind ==>
                (r matches Ok(v) && v.model() == old(self).model().stack[0]
                && final(self).model() == old(self).model()),
            old(self).model().stack.len() > 0 && old(self).model().stack[0].kind() != kind ==>
                (r matches Err(h) && h.model() == SHalt::Error(wrong_type_spec(old(self).model().stack[0], kind))
                && final(self).model() == (SInterp { stack: old(self).model().stack.drop_first(), ..old(self).model() })),
    {
        let v = self.stack_pop(kind)?;
        let c = v.deep_clone();
        self.stack_push(c);
        proof { assert(seq![c.model()] + old(self).model().stack.drop_first() =~= old(self).model().stack); }
        Ok(v)
    }

    /// What is left of the running frame's body.
    pub fn body_ref(&self) -> (r: &List)
        ensures r.model() == self.model().frame.body,
    {
        &self.frame.body
    }

    /// What is left of the running frame's body, to change.
    pub fn body_mut(&mut self) -> (r: &mut List)
        ensures
            r.model() == old(self).model().frame.body,
            final(self).model() == (SInterp {
                frame: SFrame { body: final(r).model(), ..old(self).model().frame },
                ..old(self).model()
            }),
    {
        &mut self.frame.body
    }

    /// Pause running with `v`.
    pub fn pause(&self, v: Val) -> (r: Result<(), Halt>)
        ensures r matches Err(h) && h.model() == SHalt::Pause(v.model()),
    {
        Err(Halt::Pause(v))
    }

    /// Stop running with the error `v`.
    pub fn error(&mut self, v: Val) -> (r: Result<(), Halt>)
        ensures r matches Err(h) && h.model() == SHalt::Error(v.model()), final(self).model() == old(self).model(),
    {
        Err(Halt::Error(v))
    }
}


impl Default for Interpreter {
    /// An interpreter with nothing to run and nothing defined.
    fn default() -> (r: Interpreter)
        ensures
            r.model() == (SInterp {
                frame: empty_frame(Map::empty()),
                parents: Seq::empty(),
                stack: Seq::empty(),
                envs: Seq::empty(),
            }),
    {
        let r = Interpreter::new(List::new());
        proof { assert(r.model().frame =~= empty_frame(Map::empty())); }
        r
    }
}

/// Values given to `eval_next` one after the other run in reverse order:
/// with two builtins, the one given last is called first, then the other.
pub proof fn law_eval_next_reverse_order(s: SInterp, a: u64, b: u64)
    ensures ({
        let s2 = eval_value_spec(eval_value_spec(s, SVal::Builtin(a)), SVal::Builtin(b));
        let (s3, o1) = step_spec(s2);
        let (s4, o2) = step_spec(s3);
        &&& o1 == SStep::CallBuiltin(b)
        &&& o2 == SStep::CallBuiltin(a)
        &&& s4 == s
    }),
{
    let s2 = eval_value_spec(eval_value_spec(s, SVal::Builtin(a)), SVal::Builtin(b));
    assert(s2.frame.childs.drop_last() == s.frame.childs.push(SChild::Builtin(a)));
    assert(s.frame.childs.push(SChild::Builtin(a)).drop_last() == s.frame.childs);
    let (s3, o1) = step_spec(s2);
    let (s4, o2) = step_spec(s3);
    assert(s4.frame == s.frame);
}

} // verus!
