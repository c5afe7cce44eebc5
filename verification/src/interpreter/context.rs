//! Where running code is: a tree of frames, each with code still to run.
//!
//! The frame in focus may have child frames, which run before its own
//! code, last child first; when its code runs out, its parent's turn
//! comes again. [Context::next] finds the next value to run this way.

use vstd::prelude::*;
use std::collections::VecDeque;
use crate::data::{Datum, SDatum, Symbol, datum_models};
use crate::interpreter::definition::Definition;
use crate::interpreter::env::Env;
use crate::interpreter::exec::Failure;
use crate::parser::data::Source;

verus! {

/// A frame of running code and its surroundings.
pub struct Context {
    source: Option<Source>,
    code: VecDeque<Datum>,
    env: Env,
    parent: Option<Box<Context>>,
    children: Vec<Context>,
    name: Option<String>,
}

/// What a frame and its children still have to run, ignoring its parent.
pub closed spec fn own_pending(c: Context) -> Seq<SDatum>
    decreases c, 1int,
{
    children_pending(c.children@) + datum_models(c.code@)
}

/// What a list of child frames still has to run: the last first.
pub closed spec fn children_pending(ch: Seq<Context>) -> Seq<SDatum>
    decreases ch, 0int,
{
    if ch.len() == 0 {
        Seq::empty()
    } else {
        own_pending(ch.last()) + children_pending(ch.drop_last())
    }
}


/// What a frame still has to run before the whole tree is done: its own
/// and its children's, then its parent's.
pub closed spec fn pending(c: Context) -> Seq<SDatum>
    decreases c,
{
    own_pending(c) + match c.parent {
        Some(p) => pending(*p),
        None => Seq::empty(),
    }
}

/// The number of frames in a frame's own subtree.
spec fn sub_size(c: Context) -> nat
    decreases c, 1int,
{
    1 + children_size(c.children@)
}

/// The number of frames in child subtrees.
spec fn children_size(ch: Seq<Context>) -> nat
    decreases ch, 0int,
{
    if ch.len() == 0 {
        0
    } else {
        sub_size(ch.last()) + children_size(ch.drop_last())
    }
}

/// The number of frames in the whole tree, seen from `c`.
spec fn total_size(c: Context) -> nat
    decreases c,
{
    sub_size(c) + match c.parent {
        Some(p) => total_size(*p),
        None => 0,
    }
}

/// The outermost frame.
pub closed spec fn root(c: Context) -> Context
    decreases c,
{
    match c.parent {
        Some(p) => root(*p),
        None => c,
    }
}

/// The definition of `name` in the nearest frame, going outwards, that
/// defines it.
pub closed spec fn resolve_spec(c: Context, name: Seq<char>) -> Option<Definition>
    decreases c,
{
    if c.env@.dom().contains(name) {
        Some(c.env@[name])
    } else {
        match c.parent {
            Some(p) => resolve_spec(*p, name),
            None => None,
        }
    }
}

/// Where each frame, from this one outwards, was read from.
pub closed spec fn sources(c: Context) -> Seq<Option<Source>>
    decreases c,
{
    seq![c.source] + match c.parent {
        Some(p) => sources(*p),
        None => Seq::empty(),
    }
}

impl Context {
    /// Where this frame was read from.
    pub closed spec fn source_spec(&self) -> Option<Source> {
        self.source
    }

    /// The name of this frame.
    pub closed spec fn name_spec(&self) -> Option<String> {
        self.name
    }

    /// The definitions of this frame.
    pub closed spec fn env_spec(&self) -> Env {
        self.env
    }

    /// Whether this frame is outermost.
    pub closed spec fn is_root_spec(&self) -> bool {
        self.parent is None
    }

    /// The models of the code this frame still has, not counting children.
    pub closed spec fn code_spec(&self) -> Seq<SDatum> {
        datum_models(self.code@)
    }

    /// What the children of this frame still have to run.
    pub closed spec fn waiting(&self) -> Seq<SDatum> {
        children_pending(self.children@)
    }

    /// What the frames outside this one still have to run.
    pub closed spec fn outer_pending(&self) -> Seq<SDatum> {
        match self.parent {
            Some(p) => pending(*p),
            None => Seq::empty(),
        }
    }

    /// The parent frame.
    pub closed spec fn parent_spec(&self) -> Option<Context> {
        match self.parent {
            Some(p) => Some(*p),
            None => None,
        }
    }

    /// Whether this frame has children waiting.
    pub closed spec fn has_children(&self) -> bool {
        self.children@.len() > 0
    }

    /// A single frame with nothing to run and nothing defined.
    pub fn new() -> (r: Context)
        ensures
            pending(r) == Seq::<SDatum>::empty(),
            r.is_root_spec(),
            r.source_spec() is None,
            r.name_spec() is None,
            r.env_spec()@ == Map::<Seq<char>, Definition>::empty(),
            r.code_spec() == Seq::<SDatum>::empty(),
            r.waiting() == Seq::<SDatum>::empty(),
            r.outer_pending() == Seq::<SDatum>::empty(),
            !r.has_children(),
    {
        let r = Context {
            source: None,
            code: VecDeque::new(),
            env: Env::new(),
            parent: None,
            children: Vec::new(),
            name: None,
        };
        proof {
            assert(datum_models(r.code@) =~= Seq::<SDatum>::empty());
            assert(children_pending(r.children@) =~= Seq::<SDatum>::empty());
            assert(pending(r) =~= Seq::<SDatum>::empty());
        }
        r
    }

    /// Where this frame was read from.
    pub fn source(&self) -> (r: Option<&Source>)
        ensures
            match self.source_spec() {
                Some(s) => r == Some(&s),
                None => r is None,
            },
    {
        match self.source {
            Some(ref s) => Some(s),
            None => None,
        }
    }

    /// The name of this frame.
    pub fn name(&self) -> (r: Option<&str>)
        ensures
            match self.name_spec() {
                Some(n) => r matches Some(x) && x@ == n@,
                None => r is None,
            },
    {
        match self.name {
            Some(ref n) => Some(n.as_str()),
            None => None,
        }
    }

    /// Name this frame.
    pub fn set_name(&mut self, name: Option<String>)
        ensures
            final(self).name_spec() == name,
            pending(*final(self)) == pending(*old(self)),
            final(self).source_spec() == old(self).source_spec(),
    {
        self.name = name;
    }

    /// Whether this frame is outermost.
    pub fn is_root(&self) -> (r: bool)
        ensures r == self.is_root_spec(),
    {
        self.parent.is_none()
    }

    /// Make `child` the frame in focus, with this frame as its parent.
    fn into_child_context(&mut self, child: Context)
        ensures
            *final(self) == (Context { parent: Some(Box::new(*old(self))), ..child }),
            pending(*final(self)) == own_pending(child) + pending(*old(self)),
            total_size(*final(self)) == sub_size(child) + total_size(*old(self)),
    {
        let mut child = child;
        let mut swap = Context::new();
        std::mem::swap(self, &mut swap);
        child.parent = Some(Box::new(swap));
        std::mem::swap(self, &mut child);
    }

    /// Focus on a new, empty frame read from `source` (used to show where
    /// an error happened).
    pub fn push_source(&mut self, source: Option<Source>)
        ensures
            pending(*final(self)) == pending(*old(self)),
            final(self).source_spec() == source,
            !final(self).is_root_spec(),
            final(self).parent_spec() == Some(*old(self)),
            sources(*final(self)) == seq![source] + sources(*old(self)),
            forall|n: Seq<char>| #[trigger] resolve_spec(*final(self), n) == resolve_spec(*old(self), n),
            final(self).env_spec()@ == Map::<Seq<char>, Definition>::empty(),
            final(self).code_spec() == Seq::<SDatum>::empty(),
            !final(self).has_children(),
            final(self).name_spec() is None,
    {
        let mut ctx = Context::new();
        ctx.source = source;
        proof { assert(own_pending(ctx) =~= Seq::<SDatum>::empty()); }
        self.into_child_context(ctx);
        proof {
            assert(pending(*self) =~= pending(*old(self)));
            assert(sources(*self) == seq![source] + sources(*old(self)));
            assert forall|n: Seq<char>| #[trigger] resolve_spec(*self, n) == resolve_spec(*old(self), n) by {
                assert(!self.env@.dom().contains(n));
            }
        }
    }

    /// Run the body of `def`, read from `source`, before anything else.
    /// A frame with nothing left of its own code is reused (so that a call
    /// in last position does not nest deeper); otherwise a new frame is
    /// started.
    pub fn push_def(&mut self, source: Option<Source>, def: &Definition)
        ensures
            final(self).source_spec() == source,
            old(self).is_root_spec() || old(self).code_spec().len() > 0 ==>
                pending(*final(self)) == datum_models(def.body_spec()) + pending(*old(self)),
            !(old(self).is_root_spec() || old(self).code_spec().len() > 0) ==>
                pending(*final(self)) == old(self).waiting() + datum_models(def.body_spec()) + old(self).outer_pending(),
    {
        if self.is_root() || self.code.len() > 0 {
            let c = Context::new();
            proof { assert(own_pending(c) =~= Seq::<SDatum>::empty()); }
            self.into_child_context(c);
        }
        self.source = source;
        let body = def.program();
        let mut code: VecDeque<Datum> = VecDeque::new();
        let mut i: usize = 0;
        while i < body.len()
            invariant
                i <= body@.len(),
                datum_models(code@) == datum_models(body@.take(i as int)),
            decreases body@.len() - i,
        {
            let ghost c0 = code@;
            code.push_back(body[i].deep_clone());
            proof {
                assert(datum_models(code@) =~= datum_models(c0).push(body@[i as int].model()));
                assert(datum_models(body@.take(i + 1)) =~= datum_models(body@.take(i as int)).push(body@[i as int].model()));
            }
            i += 1;
        }
        proof { assert(body@.take(body@.len() as int) == body@); }
        let ghost before = *self;
        self.code = code;
        proof {
            assert(own_pending(*self) == children_pending(before.children@) + datum_models(def.body_spec()));
            if old(self).is_root_spec() || old(self).code_spec().len() > 0 {
                assert(children_pending(before.children@) =~= Seq::<SDatum>::empty());
                assert(datum_models(before.code@) =~= Seq::<SDatum>::empty());
            }
        }
    }
}


/// Moving a child out of the list and into focus keeps the frame count.
proof fn lemma_children_pop(ch: Seq<Context>)
    requires ch.len() > 0,
    ensures
        children_size(ch) == sub_size(ch.last()) + children_size(ch.drop_last()),
        children_pending(ch) == own_pending(ch.last()) + children_pending(ch.drop_last()),
{
}

/// Adding a child at the end puts its code first.
proof fn lemma_children_push(ch: Seq<Context>, c: Context)
    ensures children_pending(ch.push(c)) == own_pending(c) + children_pending(ch),
{
    assert(ch.push(c).drop_last() == ch);
}

impl Context {
    /// Go back out to the outermost frame and drop all code.
    pub fn reset(&mut self)
        ensures
            final(self).is_root_spec(),
            pending(*final(self)) == Seq::<SDatum>::empty(),
            final(self).source_spec() == root(*old(self)).source_spec(),
            final(self).env_spec() == root(*old(self)).env_spec(),
            final(self).name_spec() == root(*old(self)).name_spec(),
    {
        loop
            invariant root(*self) == root(*old(self)),
            ensures self.parent is None, root(*self) == root(*old(self)),
            decreases total_size(*self),
        {
            match self.parent.take() {
                Some(p) => {
                    *self = *p;
                },
                None => {
                    break;
                },
            }
        }
        self.code.clear();
        self.children.clear();
        proof {
            assert(datum_models(self.code@) =~= Seq::<SDatum>::empty());
            assert(children_pending(self.children@) =~= Seq::<SDatum>::empty());
            assert(pending(*self) =~= Seq::<SDatum>::empty());
        }
    }

    /// Focus on the parent frame, leaving this frame as its child to run
    /// first. What is left to run does not change; only where definitions
    /// go and are found does.
    pub fn uplevel(&mut self, source: Option<Source>) -> (r: Result<(), Failure>)
        ensures
            old(self).is_root_spec() ==> (r matches Err(f) && f.name_spec() == "uplevel-in-root-context"@
                && f.args_spec() == Seq::<SDatum>::empty() && *final(self) == *old(self)),
            !old(self).is_root_spec() ==> (r is Ok && pending(*final(self)) == pending(*old(self))),
            old(self).parent_spec() matches Some(p) ==> (final(self).env_spec() == p.env_spec()
                && final(self).source_spec() == p.source_spec()
                && final(self).name_spec() == p.name_spec()
                && final(self).code_spec() == p.code_spec()
                && final(self).waiting() == old(self).waiting() + old(self).code_spec() + p.waiting()
                && final(self).outer_pending() == p.outer_pending()),
    {
        let parent = self.parent.take();
        match parent {
            None => {
                let args: Vec<Datum> = Vec::new();
                proof { assert(datum_models(args@) =~= Seq::<SDatum>::empty()); }
                let f = Failure::new("uplevel-in-root-context".to_string(), args);
                Err(f)
            },
            Some(p) => {
                let ghost pp = *p;
                let mut old_self = *p;
                std::mem::swap(self, &mut old_self);
                proof {
                    assert(old_self.children == old(self).children && old_self.code == old(self).code);
                    assert(own_pending(old_self) == own_pending(*old(self)));
                    assert(pending(*old(self)) == own_pending(*old(self)) + pending(pp));
                }
                let ghost ch = self.children@;
                self.children.push(old_self);
                proof {
                    lemma_children_push(ch, old_self);
                    assert(pending(*self) == own_pending(*self) + self.outer_pending());
                    assert(own_pending(*self) == own_pending(old_self) + children_pending(ch) + datum_models(pp.code@));
                }
                Ok(())
            },
        }
    }
}


impl Context {
    /// Take the next value of this frame's own code.
    pub fn next_top(&mut self) -> (r: Option<Datum>)
        ensures
            old(self).code_spec().len() == 0 ==> (r is None && final(self).code_spec() == old(self).code_spec()),
            old(self).code_spec().len() > 0 ==> (r matches Some(d) && d.model() == old(self).code_spec()[0]
                && final(self).code_spec() == old(self).code_spec().drop_first()),
            final(self).waiting() == old(self).waiting(),
            final(self).outer_pending() == old(self).outer_pending(),
    {
        let ghost c = self.code@;
        proof { assert(datum_models(c).len() == c.len()); }
        let r = self.code.pop_front();
        proof {
            if c.len() > 0 {
                assert(datum_models(self.code@) =~= datum_models(c).drop_first());
            }
        }
        r
    }

    /// The next value to run: enter child frames, last first, as long as
    /// there are any; then take from this frame's code; when that has run
    /// out, go back to the parent and look again. `None` when the whole
    /// tree has nothing left.
    pub fn next(&mut self) -> (r: Result<Option<Datum>, Failure>)
        ensures
            r matches Ok(Some(d)) ==> pending(*old(self)) == seq![d.model()] + pending(*final(self)),
            pending(*old(self)).len() > 0 ==> (r matches Ok(Some(d)) && d.model() == pending(*old(self))[0]
                && pending(*final(self)) == pending(*old(self)).drop_first()),
            r matches Ok(None) ==> pending(*old(self)) == Seq::<SDatum>::empty()
                && pending(*final(self)) == Seq::<SDatum>::empty() && final(self).is_root_spec(),
            r is Ok,
    {
        loop
            invariant pending(*self) == pending(*old(self)),
            decreases total_size(*self),
        {
            let ghost t = total_size(*self);
            while self.children.len() > 0
                invariant
                    pending(*self) == pending(*old(self)),
                    total_size(*self) == t,
                decreases sub_size(*self),
            {
                let ghost ch = self.children@;
                let child = self.children.pop().unwrap();
                proof {
                    assert(self.children@ == ch.drop_last());
                    lemma_children_pop(ch);
                }
                self.into_child_context(child);
            }
            let ghost c = self.code@;
            match self.code.pop_front() {
                Some(n) => {
                    proof {
                        assert(children_pending(self.children@) =~= Seq::<SDatum>::empty());
                        assert(datum_models(self.code@) =~= datum_models(c).drop_first());
                        assert(pending(*old(self)) == seq![n.model()] + pending(*self));
                        assert(pending(*old(self)).drop_first() =~= pending(*self));
                    }
                    return Ok(Some(n));
                },
                None => {},
            }
            proof {
                assert(children_pending(self.children@) =~= Seq::<SDatum>::empty());
                assert(datum_models(self.code@) =~= Seq::<SDatum>::empty());
                assert(own_pending(*self) =~= Seq::<SDatum>::empty());
            }
            match self.parent.take() {
                None => {
                    return Ok(None);
                },
                Some(p) => {
                    *self = *p;
                },
            }
        }
    }

    /// Add a value at the end of this frame's own code.
    pub fn add_code(&mut self, code: Datum)
        ensures
            final(self).code_spec() == old(self).code_spec().push(code.model()),
            final(self).waiting() == old(self).waiting(),
            final(self).outer_pending() == old(self).outer_pending(),
            pending(*final(self)) == old(self).waiting() + old(self).code_spec().push(code.model())
                + old(self).outer_pending(),
    {
        let ghost c = self.code@;
        self.code.push_back(code);
        proof { assert(datum_models(self.code@) =~= datum_models(c).push(code.model())); }
    }

    /// The names this frame defines.
    pub fn current_defines(&self) -> (r: Vec<&Symbol>)
        ensures
            forall|k: Seq<char>| self.env_spec()@.dom().contains(k) <==> exists|i: int| 0 <= i < r@.len() && (#[trigger] r@[i])@ == k,
            forall|i: int, j: int| 0 <= i < j < r@.len() ==> (#[trigger] r@[i])@ != (#[trigger] r@[j])@,
    {
        self.env.current_defines()
    }

    /// The definition of `name` in the nearest frame, going outwards, that
    /// defines it.
    pub fn resolve(&self, name: &Symbol) -> (r: Option<&Definition>)
        ensures
            match resolve_spec(*self, name@) {
                Some(d) => r == Some(&d),
                None => r is None,
            },
        decreases *self,
    {
        match self.env.get_definition(name) {
            Some(def) => { return Some(def); },
            None => {},
        }
        match self.parent {
            Some(ref p) => p.resolve(name),
            None => None,
        }
    }

    /// Where each frame, from this one outwards, was read from.
    pub fn stack_sources(&self) -> (r: Vec<Option<Source>>)
        ensures r@ == sources(*self),
        decreases *self,
    {
        let mut out: Vec<Option<Source>> = Vec::new();
        out.push(match self.source {
            Some(ref s) => Some(s.copy()),
            None => None,
        });
        match self.parent {
            Some(ref p) => {
                let rest = p.stack_sources();
                let ghost o = out@;
                let mut i: usize = 0;
                while i < rest.len()
                    invariant
                        i <= rest@.len(),
                        out@ == o + rest@.take(i as int),
                    decreases rest@.len() - i,
                {
                    let x = match rest[i] {
                        Some(ref s) => Some(s.copy()),
                        None => None,
                    };
                    out.push(x);
                    proof { assert(rest@.take(i + 1) == rest@.take(i as int).push(rest@[i as int])); }
                    i += 1;
                }
                proof { assert(rest@.take(rest@.len() as int) == rest@); }
            },
            None => {
                proof { assert(out@ =~= seq![self.source] + Seq::<Option<Source>>::empty()); }
            },
        }
        out
    }

    /// Where each upleveled frame was read from (not recorded: always
    /// empty).
    pub fn stack_uplevel_sources(&self) -> (r: Vec<Vec<Option<Source>>>)
        ensures r@.len() == 0,
    {
        Vec::new()
    }

    /// This frame's definitions, to change.
    pub fn env_mut(&mut self) -> (r: &mut Env)
        ensures
            *r == old(self).env_spec(),
            final(self).env_spec() == *final(r),
            pending(*final(self)) == pending(*old(self)),
            final(self).source_spec() == old(self).source_spec(),
    {
        &mut self.env
    }

    /// This frame's definitions.
    pub fn env(&self) -> (r: &Env)
        ensures *r == self.env_spec(),
    {
        &self.env
    }
}

/// A frame's own definitions come first: a name it defines resolves to
/// its own definition whatever the frames outside hold (two frames with
/// the same definitions resolve it alike, whatever their parents), and a
/// name it does not define resolves as in its parent.
pub proof fn law_nearest_definition_wins(c: Context, d: Context, n: Seq<char>)
    ensures
        c.env_spec()@.dom().contains(n) ==> resolve_spec(c, n) == Some(c.env_spec()@[n]),
        c.env_spec() == d.env_spec() && c.env_spec()@.dom().contains(n) ==> resolve_spec(c, n) == resolve_spec(d, n),
        !c.env_spec()@.dom().contains(n) ==> resolve_spec(c, n) == match c.parent_spec() {
            Some(p) => resolve_spec(p, n),
            None => None::<Definition>,
        },
{
}

/// What is left to run in the whole tree, seen from a frame: its waiting
/// children's code, then its own code, then what the frames outside it
/// have left.
pub proof fn law_pending_parts(c: Context)
    ensures pending(c) == c.waiting() + c.code_spec() + c.outer_pending(),
{
}

impl Default for Context {
    fn default() -> (r: Context)
        ensures
            pending(r) == Seq::<SDatum>::empty(),
            r.is_root_spec(),
            r.source_spec() is None,
            r.name_spec() is None,
            r.env_spec()@ == Map::<Seq<char>, Definition>::empty(),
    {
        Context::new()
    }
}

} // verus!
