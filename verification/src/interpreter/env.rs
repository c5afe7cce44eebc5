//! A set of definitions, one for each name.

use vstd::prelude::*;
use crate::data::Symbol;
use crate::interpreter::definition::Definition;

verus! {

/// The definitions of a list of (name, definition) pairs, later pairs
/// winning.
pub open spec fn defs_map(s: Seq<(Symbol, Definition)>) -> Map<Seq<char>, Definition>
    decreases s.len(),
{
    if s.len() == 0 {
        Map::empty()
    } else {
        defs_map(s.drop_last()).insert(s.last().0@, s.last().1)
    }
}

/// No name occurs twice.
pub open spec fn names_unique(s: Seq<(Symbol, Definition)>) -> bool {
    forall|i: int, j: int| 0 <= i < j < s.len() ==> (#[trigger] s[i]).0@ != (#[trigger] s[j]).0@
}

/// The map of a list holds exactly its names, each with its definition.
pub proof fn lemma_defs_map(s: Seq<(Symbol, Definition)>)
    requires names_unique(s),
    ensures
        forall|k: Seq<char>| defs_map(s).dom().contains(k) <==> exists|i: int| 0 <= i < s.len() && (#[trigger] s[i]).0@ == k,
        forall|i: int| 0 <= i < s.len() ==> defs_map(s)[(#[trigger] s[i]).0@] == s[i].1,
    decreases s.len(),
{
    if s.len() > 0 {
        let t = s.drop_last();
        assert(names_unique(t)) by {
            assert forall|i: int, j: int| 0 <= i < j < t.len() implies (#[trigger] t[i]).0@ != (#[trigger] t[j]).0@ by {
                assert(t[i] == s[i] && t[j] == s[j]);
            }
        }
        lemma_defs_map(t);
        assert forall|k: Seq<char>| defs_map(s).dom().contains(k) <==> exists|i: int| 0 <= i < s.len() && (#[trigger] s[i]).0@ == k by {
            if defs_map(s).dom().contains(k) {
                if k == s.last().0@ {
                    assert(s[s.len() - 1].0@ == k);
                } else {
                    assert(defs_map(t).dom().contains(k));
                    let i = choose|i: int| 0 <= i < t.len() && (#[trigger] t[i]).0@ == k;
                    assert(s[i] == t[i]);
                }
            }
            if exists|i: int| 0 <= i < s.len() && (#[trigger] s[i]).0@ == k {
                let i = choose|i: int| 0 <= i < s.len() && (#[trigger] s[i]).0@ == k;
                if i < s.len() - 1 {
                    assert(t[i] == s[i]);
                    assert(defs_map(t).dom().contains(k));
                }
            }
        }
        assert forall|i: int| 0 <= i < s.len() implies defs_map(s)[(#[trigger] s[i]).0@] == s[i].1 by {
            if i < s.len() - 1 {
                assert(t[i] == s[i]);
                assert(s[i].0@ != s[s.len() - 1].0@);
            }
        }
    }
}

/// Removing a pair removes its name.
pub proof fn lemma_defs_map_remove(s: Seq<(Symbol, Definition)>, i: int)
    requires names_unique(s), 0 <= i < s.len(),
    ensures
        names_unique(s.remove(i)),
        defs_map(s.remove(i)) == defs_map(s).remove(s[i].0@),
{
    let r = s.remove(i);
    assert(names_unique(r)) by {
        assert forall|a: int, b: int| 0 <= a < b < r.len() implies (#[trigger] r[a]).0@ != (#[trigger] r[b]).0@ by {
            let a1 = if a < i { a } else { a + 1 };
            let b1 = if b < i { b } else { b + 1 };
            assert(r[a] == s[a1] && r[b] == s[b1]);
        }
    }
    lemma_defs_map(s);
    lemma_defs_map(r);
    assert forall|k: Seq<char>| defs_map(r).dom().contains(k) <==> defs_map(s).remove(s[i].0@).dom().contains(k) by {
        if defs_map(r).dom().contains(k) {
            let a = choose|a: int| 0 <= a < r.len() && (#[trigger] r[a]).0@ == k;
            let a1 = if a < i { a } else { a + 1 };
            assert(r[a] == s[a1]);
        }
        if defs_map(s).remove(s[i].0@).dom().contains(k) {
            let a = choose|a: int| 0 <= a < s.len() && (#[trigger] s[a]).0@ == k;
            assert(a != i);
            if a < i { assert(r[a] == s[a]); } else { assert(r[a - 1] == s[a]); }
        }
    }
    assert forall|k: Seq<char>| #[trigger] defs_map(r).dom().contains(k) implies defs_map(r)[k] == defs_map(s)[k] by {
        let a = choose|a: int| 0 <= a < r.len() && (#[trigger] r[a]).0@ == k;
        let a1 = if a < i { a } else { a + 1 };
        assert(r[a] == s[a1]);
    }
    assert(defs_map(r) =~= defs_map(s).remove(s[i].0@));
}

/// Replacing a pair's definition under the same name.
pub proof fn lemma_defs_map_update(s: Seq<(Symbol, Definition)>, i: int, x: (Symbol, Definition))
    requires names_unique(s), 0 <= i < s.len(), x.0@ == s[i].0@,
    ensures
        names_unique(s.update(i, x)),
        defs_map(s.update(i, x)) == defs_map(s).insert(x.0@, x.1),
{
    let r = s.update(i, x);
    assert(names_unique(r)) by {
        assert forall|a: int, b: int| 0 <= a < b < r.len() implies (#[trigger] r[a]).0@ != (#[trigger] r[b]).0@ by {
            assert(r[a].0@ == s[a].0@ && r[b].0@ == s[b].0@);
        }
    }
    lemma_defs_map(s);
    lemma_defs_map(r);
    assert forall|k: Seq<char>| defs_map(r).dom().contains(k) <==> defs_map(s).insert(x.0@, x.1).dom().contains(k) by {
        if defs_map(r).dom().contains(k) {
            let a = choose|a: int| 0 <= a < r.len() && (#[trigger] r[a]).0@ == k;
            assert(s[a].0@ == k);
        }
        if defs_map(s).dom().contains(k) {
            let a = choose|a: int| 0 <= a < s.len() && (#[trigger] s[a]).0@ == k;
            assert(r[a].0@ == k);
        }
        if k == x.0@ {
            assert(r[i].0@ == k);
        }
    }
    assert forall|k: Seq<char>| #[trigger] defs_map(r).dom().contains(k) implies defs_map(r)[k] == defs_map(s).insert(x.0@, x.1)[k] by {
        let a = choose|a: int| 0 <= a < r.len() && (#[trigger] r[a]).0@ == k;
        if a != i {
            assert(r[a] == s[a]);
            assert(s[a].0@ != s[i].0@);
        }
    }
    assert(defs_map(r) =~= defs_map(s).insert(x.0@, x.1));
}

/// Definitions by name.
pub struct Env {
    defs: Vec<(Symbol, Definition)>,
}

impl Env {
    #[verifier::type_invariant]
    spec fn inv(&self) -> bool {
        names_unique(self.defs@)
    }

    /// The definition of each name.
    pub closed spec fn view(&self) -> Map<Seq<char>, Definition> {
        defs_map(self.defs@)
    }

    /// Where `name` is defined, if it is.
    fn find(&self, name: &Symbol) -> (r: Option<usize>)
        ensures
            match r {
                Some(i) => i < self.defs@.len() && self.defs@[i as int].0@ == name@,
                None => forall|i: int| 0 <= i < self.defs@.len() ==> (#[trigger] self.defs@[i]).0@ != name@,
            },
    {
        let mut i: usize = 0;
        while i < self.defs.len()
            invariant
                i <= self.defs@.len(),
                forall|j: int| 0 <= j < i ==> (#[trigger] self.defs@[j]).0@ != name@,
            decreases self.defs@.len() - i,
        {
            if self.defs[i].0 == *name {
                return Some(i);
            }
            i += 1;
        }
        None
    }

    /// No definitions.
    pub fn new() -> (r: Env)
        ensures r@ == Map::<Seq<char>, Definition>::empty(),
    {
        Env { defs: Vec::new() }
    }

    /// Define `name` as `def`, replacing any definition it had.
    pub fn define(&mut self, name: Symbol, def: Definition)
        ensures final(self)@ == old(self)@.insert(name@, def),
    {
        proof { use_type_invariant(&*self); }
        let found = self.find(&name);
        let mut defs: Vec<(Symbol, Definition)> = Vec::new();
        std::mem::swap(&mut defs, &mut self.defs);
        match found {
            Some(i) => {
                proof { lemma_defs_map_update(defs@, i as int, (name, def)); }
                defs.set(i, (name, def));
            },
            None => {
                let ghost s = defs@;
                defs.push((name, def));
                proof {
                    assert(defs@.drop_last() == s);
                    assert(names_unique(defs@)) by {
                        assert forall|a: int, b: int| 0 <= a < b < defs@.len()
                            implies (#[trigger] defs@[a]).0@ != (#[trigger] defs@[b]).0@ by {
                            if b == s.len() {
                                assert(defs@[a] == s[a]);
                            } else {
                                assert(defs@[a] == s[a] && defs@[b] == s[b]);
                            }
                        }
                    }
                }
            },
        }
        self.defs = defs;
    }

    /// Remove the definition of `name`, giving it back if there was one.
    pub fn undefine(&mut self, name: &Symbol) -> (r: Option<Definition>)
        ensures
            final(self)@ == old(self)@.remove(name@),
            r == (if old(self)@.dom().contains(name@) { Some(old(self)@[name@]) } else { None::<Definition> }),
    {
        proof { use_type_invariant(&*self); lemma_defs_map(self.defs@); }
        match self.find(name) {
            Some(i) => {
                proof { lemma_defs_map_remove(self.defs@, i as int); }
                let mut defs: Vec<(Symbol, Definition)> = Vec::new();
                std::mem::swap(&mut defs, &mut self.defs);
                let (_, d) = defs.remove(i);
                self.defs = defs;
                Some(d)
            },
            None => {
                proof { assert(self@.remove(name@) =~= self@); }
                None
            },
        }
    }

    /// Whether `name` is defined.
    pub fn is_defined(&self, name: &Symbol) -> (r: bool)
        ensures r == self@.dom().contains(name@),
    {
        proof { use_type_invariant(self); lemma_defs_map(self.defs@); }
        self.find(name).is_some()
    }

    /// The definition of `name`, if it has one.
    pub fn get_definition(&self, name: &Symbol) -> (r: Option<&Definition>)
        ensures
            self@.dom().contains(name@) ==> r == Some(&self@[name@]),
            !self@.dom().contains(name@) ==> r is None,
    {
        proof { use_type_invariant(self); lemma_defs_map(self.defs@); }
        match self.find(name) {
            Some(i) => Some(&self.defs[i].1),
            None => None,
        }
    }

    /// The names defined, each once.
    pub fn current_defines(&self) -> (r: Vec<&Symbol>)
        ensures
            r@.len() == self@.dom().len(),
            forall|k: Seq<char>| self@.dom().contains(k) <==> exists|i: int| 0 <= i < r@.len() && (#[trigger] r@[i])@ == k,
            forall|i: int, j: int| 0 <= i < j < r@.len() ==> (#[trigger] r@[i])@ != (#[trigger] r@[j])@,
    {
        proof { use_type_invariant(self); lemma_defs_map(self.defs@); }
        let mut out: Vec<&Symbol> = Vec::new();
        let mut i: usize = 0;
        while i < self.defs.len()
            invariant
                i <= self.defs@.len(),
                out@.len() == i,
                names_unique(self.defs@),
                forall|j: int| 0 <= j < i ==> (#[trigger] out@[j])@ == self.defs@[j].0@,
            decreases self.defs@.len() - i,
        {
            out.push(&self.defs[i].0);
            i += 1;
        }
        proof {
            lemma_defs_map_len(self.defs@);
            assert forall|k: Seq<char>| self@.dom().contains(k) <==> exists|i: int| 0 <= i < out@.len() && (#[trigger] out@[i])@ == k by {
                if self@.dom().contains(k) {
                    let a = choose|a: int| 0 <= a < self.defs@.len() && (#[trigger] self.defs@[a]).0@ == k;
                    assert(out@[a]@ == k);
                }
                if exists|i: int| 0 <= i < out@.len() && (#[trigger] out@[i])@ == k {
                    let a = choose|a: int| 0 <= a < out@.len() && (#[trigger] out@[a])@ == k;
                    assert(self.defs@[a].0@ == k);
                }
            }
            assert forall|a: int, b: int| 0 <= a < b < out@.len() implies (#[trigger] out@[a])@ != (#[trigger] out@[b])@ by {
                assert(self.defs@[a].0@ != self.defs@[b].0@);
            }
        }
        out
    }
}

/// A list with no name twice has as many names as pairs.
pub proof fn lemma_defs_map_len(s: Seq<(Symbol, Definition)>)
    requires names_unique(s),
    ensures defs_map(s).dom().finite(), defs_map(s).dom().len() == s.len(),
    decreases s.len(),
{
    if s.len() > 0 {
        let t = s.drop_last();
        assert(names_unique(t)) by {
            assert forall|i: int, j: int| 0 <= i < j < t.len() implies (#[trigger] t[i]).0@ != (#[trigger] t[j]).0@ by {
                assert(t[i] == s[i] && t[j] == s[j]);
            }
        }
        lemma_defs_map_len(t);
        lemma_defs_map(t);
        assert(!defs_map(t).dom().contains(s.last().0@)) by {
            if defs_map(t).dom().contains(s.last().0@) {
                let i = choose|i: int| 0 <= i < t.len() && (#[trigger] t[i]).0@ == s.last().0@;
                assert(s[i] == t[i]);
            }
        }
    }
}


/// What a read gives back of a write: after defining `name` as `d`, the
/// name is defined as `d`, every other name as before; after undefining
/// it, it is not defined and the rest is as before.
pub proof fn law_define_undefine(e: Map<Seq<char>, Definition>, name: Seq<char>, other: Seq<char>, d: Definition)
    requires other != name,
    ensures
        e.insert(name, d).dom().contains(name),
        e.insert(name, d)[name] == d,
        e.insert(name, d).dom().contains(other) == e.dom().contains(other),
        e.dom().contains(other) ==> e.insert(name, d)[other] == e[other],
        !e.remove(name).dom().contains(name),
        e.remove(name).dom().contains(other) == e.dom().contains(other),
        e.insert(name, d).remove(name) == e.remove(name),
{
    assert(e.insert(name, d).remove(name) =~= e.remove(name));
}

} // verus!
