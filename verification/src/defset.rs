//! Sets of definitions: values by name, kept in a persistent hash map
//! (`im_rc::HashMap`), so that copies share their contents.

use vstd::prelude::*;
use crate::data::{Val, SVal};

verus! {

#[verifier::external_type_specification]
#[verifier::external_body]
#[verifier::reject_recursive_types(K)]
#[verifier::reject_recursive_types(V)]
#[verifier::reject_recursive_types(S)]
pub struct ExImHashMap<K, V, S>(im_rc::HashMap<K, V, S>);

/// The map that holds definitions.
pub type DefMap = im_rc::HashMap<String, Val>;

/// What a map of definitions holds: the model of the value under each name.
pub uninterp spec fn defs_contents(m: DefMap) -> Map<Seq<char>, SVal>;

/// No definitions.
pub open spec fn no_defs() -> Map<Seq<char>, SVal> {
    Map::empty()
}

/// A finite map with `n` names.
pub open spec fn sized(m: Map<Seq<char>, SVal>, n: nat) -> bool {
    m.dom().finite() && m.dom().len() == n
}

/// `im_rc::HashMap::new`: an empty map.
#[verifier::external_body]
fn map_new() -> (r: DefMap)
    ensures defs_contents(r) == no_defs(),
{
    im_rc::HashMap::new()
}

/// `im_rc::HashMap::insert`: `k` now maps to `v`, replacing any value it
/// had; nothing else changes.
#[verifier::external_body]
fn map_insert(m: &mut DefMap, k: String, v: Val)
    ensures defs_contents(*final(m)) == defs_contents(*old(m)).insert(k@, v.model()),
{
    m.insert(k, v);
}

/// `im_rc::HashMap::get`: the value under `k`, if there is one.
#[verifier::external_body]
fn map_get<'a>(m: &'a DefMap, k: &str) -> (r: Option<&'a Val>)
    ensures
        r is Some <==> defs_contents(*m).dom().contains(k@),
        r matches Some(v) ==> v.model() == defs_contents(*m)[k@],
{
    m.get(k)
}

/// `im_rc::HashMap::remove`: take out the value under `k`, if any.
#[verifier::external_body]
fn map_remove(m: &mut DefMap, k: &str) -> (r: Option<Val>)
    ensures
        defs_contents(*final(m)) == defs_contents(*old(m)).remove(k@),
        r is Some <==> defs_contents(*old(m)).dom().contains(k@),
        r matches Some(v) ==> v.model() == defs_contents(*old(m))[k@],
{
    m.remove(k)
}

/// `im_rc::HashMap::len`: the number of names.
#[verifier::external_body]
fn map_len(m: &DefMap) -> (r: usize)
    ensures sized(defs_contents(*m), r as nat),
{
    m.len()
}

/// `im_rc::HashMap::clone`: a map with the same contents (sharing them).
#[verifier::external_body]
fn map_clone(m: &DefMap) -> (r: DefMap)
    ensures defs_contents(r) == defs_contents(*m),
{
    m.clone()
}

/// `im_rc::HashMap::iter`: every name once, with its value, in the map's
/// own order (which is not stated).
#[verifier::external_body]
fn map_entries<'a>(m: &'a DefMap) -> (r: Vec<(&'a String, &'a Val)>)
    ensures
        sized(defs_contents(*m), r@.len()),
        forall|i: int| 0 <= i < r@.len() ==> #[trigger] entry_ref_in(defs_contents(*m), r@[i]),
        forall|i: int, j: int| 0 <= i < j < r@.len() ==> (#[trigger] r@[i]).0@ != (#[trigger] r@[j]).0@,
{
    m.iter().collect()
}

/// A set of definitions: at most one value for each name.
pub struct DefSet(DefMap);

impl DefSet {
    /// The model of the value under each name.
    pub closed spec fn view(&self) -> Map<Seq<char>, SVal> {
        defs_contents(self.0)
    }

    /// No definitions.
    pub fn new() -> (r: DefSet)
        ensures r@ == Map::<Seq<char>, SVal>::empty(),
    {
        DefSet(map_new())
    }

    /// Define `key` as `val`, replacing any definition.
    pub fn insert(&mut self, key: String, val: Val)
        ensures final(self)@ == old(self)@.insert(key@, val.model()),
    {
        map_insert(&mut self.0, key, val);
    }

    /// The definition of `key`, if any.
    pub fn get(&self, key: &str) -> (r: Option<&Val>)
        ensures
            self@.dom().contains(key@) ==> (r matches Some(v) && v.model() == self@[key@]),
            !self@.dom().contains(key@) ==> r is None,
    {
        map_get(&self.0, key)
    }

    /// Remove the definition of `key`, giving it back if there was one.
    pub fn remove(&mut self, key: &str) -> (r: Option<Val>)
        ensures
            final(self)@ == old(self)@.remove(key@),
            old(self)@.dom().contains(key@) ==> (r matches Some(v) && v.model() == old(self)@[key@]),
            !old(self)@.dom().contains(key@) ==> r is None,
    {
        map_remove(&mut self.0, key)
    }

    /// Whether `key` is defined.
    pub fn contains(&self, key: &str) -> (r: bool)
        ensures r == self@.dom().contains(key@),
    {
        map_get(&self.0, key).is_some()
    }

    /// The number of definitions.
    pub fn len(&self) -> (r: usize)
        ensures r == self@.dom().len(), self@.dom().finite(),
    {
        map_len(&self.0)
    }

    /// Whether there are no definitions.
    pub fn is_empty(&self) -> (r: bool)
        ensures r == (self@.dom().len() == 0), self@.dom().finite(),
    {
        map_len(&self.0) == 0
    }

    /// A copy with the same definitions.
    pub fn copy(&self) -> (r: DefSet)
        ensures r@ == self@,
    {
        DefSet(map_clone(&self.0))
    }

    /// The names and their definitions, each name once.
    pub fn iter(&self) -> (r: Vec<(String, Val)>)
        ensures
            r@.len() == self@.dom().len(),
            self@.dom().finite(),
            forall|i: int| 0 <= i < r@.len() ==> #[trigger] entry_in(self@, r@[i]),
            forall|i: int, j: int| 0 <= i < j < r@.len() ==> (#[trigger] r@[i]).0@ != (#[trigger] r@[j]).0@,
    {
        let refs = map_entries(&self.0);
        let mut out: Vec<(String, Val)> = Vec::new();
        let mut i: usize = 0;
        while i < refs.len()
            invariant
                i <= refs@.len(),
                out@.len() == i,
                forall|j: int| 0 <= j < i ==> (#[trigger] out@[j]).0@ == refs@[j].0@
                    && out@[j].1.model() == refs@[j].1.model(),
            decreases refs@.len() - i,
        {
            let (k, v) = refs[i];
            out.push((k.clone(), v.deep_clone()));
            i += 1;
        }
        proof {
            assert forall|j: int| 0 <= j < out@.len() implies #[trigger] entry_in(self@, out@[j]) by {
                assert(entry_ref_in(self@, refs@[j]));
            }
            assert forall|a: int, b: int| 0 <= a < b < out@.len() implies (#[trigger] out@[a]).0@ != (#[trigger] out@[b]).0@ by {
                assert(refs@[a].0@ != refs@[b].0@);
            }
        }
        out
    }

    /// Make lookups quicker; the definitions do not change.
    pub fn normalise(&mut self)
        ensures final(self)@ == old(self)@,
    {
    }

    /// Take in every definition of `thee`, replacing those of the same name.
    pub fn merge(&mut self, thee: DefSet)
        ensures final(self)@ == old(self)@.union_prefer_right(thee@),
    {
        if self.len() == 0 {
            proof { assert(old(self)@ =~= Map::<Seq<char>, SVal>::empty()); }
            proof { assert(old(self)@.union_prefer_right(thee@) =~= thee@); }
            *self = thee;
        } else {
            let entries = thee.iter();
            self.insert_all(&entries, &thee);
        }
    }

    /// Insert each entry; the entries are all of `thee`, each name once.
    fn insert_all(&mut self, entries: &Vec<(String, Val)>, thee: &DefSet)
        requires
            entries@.len() == thee@.dom().len(),
            thee@.dom().finite(),
            forall|i: int| 0 <= i < entries@.len() ==> #[trigger] entry_in(thee@, entries@[i]),
            forall|i: int, j: int| 0 <= i < j < entries@.len() ==> (#[trigger] entries@[i]).0@ != (#[trigger] entries@[j]).0@,
        ensures final(self)@ == old(self)@.union_prefer_right(thee@),
    {
        let n = entries.len();
        let mut i: usize = 0;
        proof { assert(old(self)@.union_prefer_right(thee@.restrict(keys_upto(entries@, 0))) =~= old(self)@); }
        while i < n
            invariant
                n == entries@.len(),
                i <= n,
                self@ == old(self)@.union_prefer_right(thee@.restrict(keys_upto(entries@, i as int))),
                forall|j: int| 0 <= j < entries@.len() ==> #[trigger] entry_in(thee@, entries@[j]),
            decreases n - i,
        {
            let k = entries[i].0.clone();
            let v = entries[i].1.deep_clone();
            let ghost before = self@;
            self.insert(k, v);
            proof {
                assert(entry_in(thee@, entries@[i as int]));
                assert(keys_upto(entries@, i + 1) =~= keys_upto(entries@, i as int).insert(k@)) by {
                    assert forall|x: Seq<char>| keys_upto(entries@, i + 1).contains(x) implies
                        keys_upto(entries@, i as int).insert(k@).contains(x) by {
                        let j = choose|j: int| 0 <= j < i + 1 && (#[trigger] entries@[j]).0@ == x;
                        if j < i { assert(keys_upto(entries@, i as int).contains(x)); }
                    }
                    assert forall|x: Seq<char>| keys_upto(entries@, i as int).insert(k@).contains(x) implies
                        keys_upto(entries@, i + 1).contains(x) by {
                        if x == k@ {
                            assert(entries@[i as int].0@ == x);
                        } else {
                            let j = choose|j: int| 0 <= j < i && (#[trigger] entries@[j]).0@ == x;
                            assert(0 <= j < i + 1 && entries@[j].0@ == x);
                        }
                    }
                }
                assert(self@ =~= old(self)@.union_prefer_right(thee@.restrict(keys_upto(entries@, i + 1))));
            }
            i += 1;
        }
        proof {
            assert(keys_upto(entries@, n as int) =~= thee@.dom()) by {
                assert forall|x: Seq<char>| thee@.dom().contains(x) implies keys_upto(entries@, n as int).contains(x) by {
                    lemma_entries_cover(entries@, thee@, x);
                }
                assert forall|x: Seq<char>| keys_upto(entries@, n as int).contains(x) implies thee@.dom().contains(x) by {
                    let j = choose|j: int| 0 <= j < n && (#[trigger] entries@[j]).0@ == x;
                    assert(entry_in(thee@, entries@[j]));
                }
            }
            assert(thee@.restrict(thee@.dom()) =~= thee@);
        }
    }

    /// Chainable [DefSet::merge].
    pub fn merged_with(self, thee: DefSet) -> (r: DefSet)
        ensures r@ == self@.union_prefer_right(thee@),
    {
        let mut me = self;
        me.merge(thee);
        me
    }

    /// Take everything from `thee`, replacing definitions of the same name.
    pub fn append(&mut self, thee: &DefSet)
        ensures final(self)@ == old(self)@.union_prefer_right(thee@),
    {
        let t = thee.copy();
        self.merge(t);
    }

    /// Take everything from `thee` whose name is not defined here.
    pub fn prepend(&mut self, thee: &DefSet)
        ensures final(self)@ == thee@.union_prefer_right(old(self)@),
    {
        let mut t = thee.copy();
        let mut me = DefSet::new();
        std::mem::swap(self, &mut me);
        t.merge(me);
        *self = t;
    }
}

/// A name and value that a map holds.
pub open spec fn entry_in(m: Map<Seq<char>, SVal>, e: (String, Val)) -> bool {
    m.dom().contains(e.0@) && m[e.0@] == e.1.model()
}

/// A name and its value, by reference, is an entry of the map.
pub open spec fn entry_ref_in(m: Map<Seq<char>, SVal>, e: (&String, &Val)) -> bool {
    m.dom().contains(e.0@) && m[e.0@] == e.1.model()
}

/// The names of the first `i` entries.
pub open spec fn keys_upto(e: Seq<(String, Val)>, i: int) -> Set<Seq<char>> {
    Set::new(|x: Seq<char>| exists|j: int| 0 <= j < i && (#[trigger] e[j]).0@ == x)
}

/// Distinct entries as many as a finite map's names, each a name of the
/// map, name every name of the map.
proof fn lemma_entries_cover(e: Seq<(String, Val)>, m: Map<Seq<char>, SVal>, k: Seq<char>)
    requires
        m.dom().finite(),
        e.len() == m.dom().len(),
        forall|i: int| 0 <= i < e.len() ==> #[trigger] entry_in(m, e[i]),
        forall|i: int, j: int| 0 <= i < j < e.len() ==> (#[trigger] e[i]).0@ != (#[trigger] e[j]).0@,
        m.dom().contains(k),
    ensures exists|j: int| 0 <= j < e.len() && (#[trigger] e[j]).0@ == k,
{
    let names = Set::new(|x: Seq<char>| exists|j: int| 0 <= j < e.len() && (#[trigger] e[j]).0@ == x);
    let keys = e.map_values(|p: (String, Val)| p.0@);
    assert forall|i: int, j: int| 0 <= i < j < keys.len() implies keys[i] != keys[j] by {
        assert(keys[i] == e[i].0@ && keys[j] == e[j].0@);
    }
    assert(keys.no_duplicates());
    keys.unique_seq_to_set();
    assert(keys.to_set() =~= names) by {
        assert forall|x: Seq<char>| keys.to_set().contains(x) <==> names.contains(x) by {
            if keys.to_set().contains(x) {
                let j = choose|j: int| 0 <= j < keys.len() && keys[j] == x;
                assert(e[j].0@ == x);
            }
            if names.contains(x) {
                let j = choose|j: int| 0 <= j < e.len() && (#[trigger] e[j]).0@ == x;
                assert(keys[j] == x);
            }
        }
    }
    assert forall|x: Seq<char>| names.contains(x) implies m.dom().contains(x) by {
        let j = choose|j: int| 0 <= j < e.len() && (#[trigger] e[j]).0@ == x;
        assert(entry_in(m, e[j]));
    }
    assert(names.subset_of(m.dom()));
    if !names.contains(k) {
        vstd::set_lib::lemma_len_subset(names.insert(k), m.dom());
    }
}


/// Merging: a name defined in the merged-in set takes its definition from
/// there; any other name keeps its own. Prepending keeps the set's own
/// definitions and takes the others'.
pub proof fn law_merge_prefers_newer(mine: Map<Seq<char>, SVal>, thee: Map<Seq<char>, SVal>, k: Seq<char>)
    ensures
        thee.dom().contains(k) ==> mine.union_prefer_right(thee)[k] == thee[k],
        !thee.dom().contains(k) && mine.dom().contains(k) ==> mine.union_prefer_right(thee)[k] == mine[k],
        mine.dom().contains(k) ==> thee.union_prefer_right(mine)[k] == mine[k],
        mine.union_prefer_right(thee).dom().contains(k) == (mine.dom().contains(k) || thee.dom().contains(k)),
{
}

} // verus!
