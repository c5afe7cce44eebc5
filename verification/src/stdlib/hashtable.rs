//! Hash tables: values keyed by values.

use vstd::prelude::*;
use crate::data::{Val, SVal, Datum, SDatum};

verus! {

/// The entries of a list of (key, value) pairs, later pairs winning.
pub open spec fn table_map(s: Seq<(Val, Datum)>) -> Map<SVal, SDatum>
    decreases s.len(),
{
    if s.len() == 0 {
        Map::empty()
    } else {
        table_map(s.drop_last()).insert(s.last().0.model(), s.last().1.model())
    }
}

/// No key occurs twice.
pub open spec fn keys_unique(s: Seq<(Val, Datum)>) -> bool {
    forall|i: int, j: int| 0 <= i < j < s.len() ==> (#[trigger] s[i]).0.model() != (#[trigger] s[j]).0.model()
}

/// The map of a list holds exactly its keys, each with its value.
pub proof fn lemma_table_map(s: Seq<(Val, Datum)>)
    requires keys_unique(s),
    ensures
        forall|k: SVal| table_map(s).dom().contains(k) <==> exists|i: int| 0 <= i < s.len() && (#[trigger] s[i]).0.model() == k,
        forall|i: int| 0 <= i < s.len() ==> table_map(s)[(#[trigger] s[i]).0.model()] == s[i].1.model(),
    decreases s.len(),
{
    if s.len() > 0 {
        let t = s.drop_last();
        assert(keys_unique(t)) by {
            assert forall|i: int, j: int| 0 <= i < j < t.len() implies (#[trigger] t[i]).0.model() != (#[trigger] t[j]).0.model() by {
                assert(t[i] == s[i] && t[j] == s[j]);
            }
        }
        lemma_table_map(t);
        assert forall|k: SVal| table_map(s).dom().contains(k) <==> exists|i: int| 0 <= i < s.len() && (#[trigger] s[i]).0.model() == k by {
            if table_map(s).dom().contains(k) {
                if k == s.last().0.model() {
                    assert(s[s.len() - 1].0.model() == k);
                } else {
                    assert(table_map(t).dom().contains(k));
                    let i = choose|i: int| 0 <= i < t.len() && (#[trigger] t[i]).0.model() == k;
                    assert(s[i] == t[i]);
                }
            }
            if exists|i: int| 0 <= i < s.len() && (#[trigger] s[i]).0.model() == k {
                let i = choose|i: int| 0 <= i < s.len() && (#[trigger] s[i]).0.model() == k;
                if i < s.len() - 1 {
                    assert(t[i] == s[i]);
                    assert(table_map(t).dom().contains(k));
                }
            }
        }
        assert forall|i: int| 0 <= i < s.len() implies table_map(s)[(#[trigger] s[i]).0.model()] == s[i].1.model() by {
            if i < s.len() - 1 {
                assert(t[i] == s[i]);
                assert(s[i].0.model() != s[s.len() - 1].0.model());
            }
        }
    }
}

/// Removing a pair removes its key.
pub proof fn lemma_table_map_remove(s: Seq<(Val, Datum)>, i: int)
    requires keys_unique(s), 0 <= i < s.len(),
    ensures
        keys_unique(s.remove(i)),
        table_map(s.remove(i)) == table_map(s).remove(s[i].0.model()),
{
    let r = s.remove(i);
    assert(keys_unique(r)) by {
        assert forall|a: int, b: int| 0 <= a < b < r.len() implies (#[trigger] r[a]).0.model() != (#[trigger] r[b]).0.model() by {
            let a1 = if a < i { a } else { a + 1 };
            let b1 = if b < i { b } else { b + 1 };
            assert(r[a] == s[a1] && r[b] == s[b1]);
        }
    }
    lemma_table_map(s);
    lemma_table_map(r);
    assert forall|k: SVal| table_map(r).dom().contains(k) <==> table_map(s).remove(s[i].0.model()).dom().contains(k) by {
        if table_map(r).dom().contains(k) {
            let a = choose|a: int| 0 <= a < r.len() && (#[trigger] r[a]).0.model() == k;
            let a1 = if a < i { a } else { a + 1 };
            assert(r[a] == s[a1]);
        }
        if table_map(s).remove(s[i].0.model()).dom().contains(k) {
            let a = choose|a: int| 0 <= a < s.len() && (#[trigger] s[a]).0.model() == k;
            assert(a != i);
            if a < i { assert(r[a] == s[a]); } else { assert(r[a - 1] == s[a]); }
        }
    }
    assert forall|k: SVal| #[trigger] table_map(r).dom().contains(k) implies table_map(r)[k] == table_map(s)[k] by {
        let a = choose|a: int| 0 <= a < r.len() && (#[trigger] r[a]).0.model() == k;
        let a1 = if a < i { a } else { a + 1 };
        assert(r[a] == s[a1]);
    }
    assert(table_map(r) =~= table_map(s).remove(s[i].0.model()));
}

/// Replacing a pair's value under the same key.
pub proof fn lemma_table_map_update(s: Seq<(Val, Datum)>, i: int, x: (Val, Datum))
    requires keys_unique(s), 0 <= i < s.len(), x.0.model() == s[i].0.model(),
    ensures
        keys_unique(s.update(i, x)),
        table_map(s.update(i, x)) == table_map(s).insert(x.0.model(), x.1.model()),
{
    let r = s.update(i, x);
    assert(keys_unique(r)) by {
        assert forall|a: int, b: int| 0 <= a < b < r.len() implies (#[trigger] r[a]).0.model() != (#[trigger] r[b]).0.model() by {
            assert(r[a].0.model() == s[a].0.model() && r[b].0.model() == s[b].0.model());
        }
    }
    lemma_table_map(s);
    lemma_table_map(r);
    assert forall|k: SVal| table_map(r).dom().contains(k) <==> table_map(s).insert(x.0.model(), x.1.model()).dom().contains(k) by {
        if table_map(r).dom().contains(k) {
            let a = choose|a: int| 0 <= a < r.len() && (#[trigger] r[a]).0.model() == k;
            assert(s[a].0.model() == k);
        }
        if table_map(s).dom().contains(k) {
            let a = choose|a: int| 0 <= a < s.len() && (#[trigger] s[a]).0.model() == k;
            assert(r[a].0.model() == k);
        }
        if k == x.0.model() {
            assert(r[i].0.model() == k);
        }
    }
    assert forall|k: SVal| #[trigger] table_map(r).dom().contains(k) implies table_map(r)[k] == table_map(s).insert(x.0.model(), x.1.model())[k] by {
        let a = choose|a: int| 0 <= a < r.len() && (#[trigger] r[a]).0.model() == k;
        if a != i {
            assert(r[a] == s[a]);
            assert(s[a].0.model() != s[i].0.model());
        }
    }
    assert(table_map(r) =~= table_map(s).insert(x.0.model(), x.1.model()));
}

/// A list with no key twice has as many keys as pairs.
pub proof fn lemma_table_map_len(s: Seq<(Val, Datum)>)
    requires keys_unique(s),
    ensures table_map(s).dom().finite(), table_map(s).dom().len() == s.len(),
    decreases s.len(),
{
    if s.len() > 0 {
        let t = s.drop_last();
        assert(keys_unique(t)) by {
            assert forall|i: int, j: int| 0 <= i < j < t.len() implies (#[trigger] t[i]).0.model() != (#[trigger] t[j]).0.model() by {
                assert(t[i] == s[i] && t[j] == s[j]);
            }
        }
        lemma_table_map_len(t);
        lemma_table_map(t);
        assert(!table_map(t).dom().contains(s.last().0.model())) by {
            if table_map(t).dom().contains(s.last().0.model()) {
                let i = choose|i: int| 0 <= i < t.len() && (#[trigger] t[i]).0.model() == s.last().0.model();
                assert(s[i] == t[i]);
            }
        }
    }
}


/// A table of values, keyed by values (keys are compared by their models;
/// where a key was read from is not kept).
pub struct HashTable {
    entries: Vec<(Val, Datum)>,
}

impl HashTable {
    #[verifier::type_invariant]
    spec fn inv(&self) -> bool {
        keys_unique(self.entries@)
    }

    /// The value under each key.
    pub closed spec fn view(&self) -> Map<SVal, SDatum> {
        table_map(self.entries@)
    }

    /// Where `k` is, if it is a key.
    fn find(&self, k: &Val) -> (r: Option<usize>)
        ensures
            match r {
                Some(i) => i < self.entries@.len() && self.entries@[i as int].0.model() == k.model(),
                None => forall|i: int| 0 <= i < self.entries@.len() ==> (#[trigger] self.entries@[i]).0.model() != k.model(),
            },
    {
        let mut i: usize = 0;
        while i < self.entries.len()
            invariant
                i <= self.entries@.len(),
                forall|j: int| 0 <= j < i ==> (#[trigger] self.entries@[j]).0.model() != k.model(),
            decreases self.entries@.len() - i,
        {
            if self.entries[i].0.equals(k) {
                return Some(i);
            }
            i += 1;
        }
        None
    }

    /// An empty table.
    pub fn new() -> (r: HashTable)
        ensures r@ == Map::<SVal, SDatum>::empty(),
    {
        HashTable { entries: Vec::new() }
    }

    /// The number of keys.
    pub fn size(&self) -> (r: usize)
        ensures r == self@.dom().len(), self@.dom().finite(),
    {
        proof { use_type_invariant(self); lemma_table_map_len(self.entries@); }
        self.entries.len()
    }

    /// Put `v` under the key `k`, replacing what was there.
    pub fn set(&mut self, k: Datum, v: Datum)
        ensures final(self)@ == old(self)@.insert(k.value.model(), v.model()),
    {
        proof { use_type_invariant(&*self); }
        let key = k.value;
        let found = self.find(&key);
        let mut entries: Vec<(Val, Datum)> = Vec::new();
        std::mem::swap(&mut entries, &mut self.entries);
        match found {
            Some(i) => {
                proof { lemma_table_map_update(entries@, i as int, (key, v)); }
                entries.set(i, (key, v));
            },
            None => {
                let ghost s = entries@;
                entries.push((key, v));
                proof {
                    assert(entries@.drop_last() == s);
                    assert(keys_unique(entries@)) by {
                        assert forall|a: int, b: int| 0 <= a < b < entries@.len()
                            implies (#[trigger] entries@[a]).0.model() != (#[trigger] entries@[b]).0.model() by {
                            if b == s.len() {
                                assert(entries@[a] == s[a]);
                            } else {
                                assert(entries@[a] == s[a] && entries@[b] == s[b]);
                            }
                        }
                    }
                }
            },
        }
        self.entries = entries;
    }

    /// Whether `k` is a key.
    pub fn has_key(&self, k: &Datum) -> (r: bool)
        ensures r == self@.dom().contains(k.value.model()),
    {
        proof { use_type_invariant(self); lemma_table_map(self.entries@); }
        self.find(&k.value).is_some()
    }

    /// Take out the value under `k`, if any.
    pub fn take(&mut self, k: &Datum) -> (r: Option<Datum>)
        ensures
            final(self)@ == old(self)@.remove(k.value.model()),
            old(self)@.dom().contains(k.value.model()) ==> (r matches Some(d) && d.model() == old(self)@[k.value.model()]),
            !old(self)@.dom().contains(k.value.model()) ==> r is None,
    {
        proof { use_type_invariant(&*self); lemma_table_map(self.entries@); }
        match self.find(&k.value) {
            Some(i) => {
                proof { lemma_table_map_remove(self.entries@, i as int); }
                let mut entries: Vec<(Val, Datum)> = Vec::new();
                std::mem::swap(&mut entries, &mut self.entries);
                let (_, d) = entries.remove(i);
                self.entries = entries;
                Some(d)
            },
            None => {
                proof { assert(self@.remove(k.value.model()) =~= self@); }
                None
            },
        }
    }

    /// The value under `k`, if any.
    pub fn get(&self, k: &Datum) -> (r: Option<&Datum>)
        ensures
            self@.dom().contains(k.value.model()) ==> (r matches Some(d) && d.model() == self@[k.value.model()]),
            !self@.dom().contains(k.value.model()) ==> r is None,
    {
        proof { use_type_invariant(self); lemma_table_map(self.entries@); }
        match self.find(&k.value) {
            Some(i) => Some(&self.entries[i].1),
            None => None,
        }
    }

    /// The keys, each once.
    pub fn keys(&self) -> (r: Vec<&Val>)
        ensures
            forall|k: SVal| self@.dom().contains(k) <==> exists|i: int| 0 <= i < r@.len() && (#[trigger] r@[i]).model() == k,
            forall|i: int, j: int| 0 <= i < j < r@.len() ==> (#[trigger] r@[i]).model() != (#[trigger] r@[j]).model(),
    {
        proof { use_type_invariant(self); lemma_table_map(self.entries@); }
        let mut out: Vec<&Val> = Vec::new();
        let mut i: usize = 0;
        while i < self.entries.len()
            invariant
                i <= self.entries@.len(),
                out@.len() == i,
                keys_unique(self.entries@),
                forall|j: int| 0 <= j < i ==> (#[trigger] out@[j]).model() == self.entries@[j].0.model(),
            decreases self.entries@.len() - i,
        {
            out.push(&self.entries[i].0);
            i += 1;
        }
        proof {
            assert forall|k: SVal| self@.dom().contains(k) <==> exists|i: int| 0 <= i < out@.len() && (#[trigger] out@[i]).model() == k by {
                if self@.dom().contains(k) {
                    let a = choose|a: int| 0 <= a < self.entries@.len() && (#[trigger] self.entries@[a]).0.model() == k;
                    assert(out@[a].model() == k);
                }
                if exists|i: int| 0 <= i < out@.len() && (#[trigger] out@[i]).model() == k {
                    let a = choose|a: int| 0 <= a < out@.len() && (#[trigger] out@[a]).model() == k;
                    assert(self.entries@[a].0.model() == k);
                }
            }
            assert forall|a: int, b: int| 0 <= a < b < out@.len() implies (#[trigger] out@[a]).model() != (#[trigger] out@[b]).model() by {
                assert(self.entries@[a].0.model() != self.entries@[b].0.model());
            }
        }
        out
    }

    /// Some key, if there is one (which one is not said).
    pub fn random_key(&self) -> (r: Option<Datum>)
        ensures
            self@.dom().len() == 0 <==> r is None,
            r matches Some(d) ==> (self@.dom().contains(d.value.model()) && d.source is None),
    {
        proof { use_type_invariant(self); lemma_table_map(self.entries@); lemma_table_map_len(self.entries@); }
        if self.entries.len() == 0 {
            None
        } else {
            let k = self.entries[0].0.deep_clone();
            Some(Datum::new(k))
        }
    }

    /// Take out some key and its value, if there is one (which one is not
    /// said).
    pub fn take_random_pair(&mut self) -> (r: Option<(Datum, Datum)>)
        ensures
            old(self)@.dom().len() == 0 <==> r is None,
            r is None ==> final(self)@ == old(self)@,
            r matches Some((k, v)) ==> (old(self)@.dom().contains(k.value.model()) && k.source is None
                && v.model() == old(self)@[k.value.model()]
                && final(self)@ == old(self)@.remove(k.value.model())),
    {
        proof { use_type_invariant(&*self); lemma_table_map(self.entries@); lemma_table_map_len(self.entries@); }
        if self.entries.len() == 0 {
            return None;
        }
        proof { lemma_table_map_remove(self.entries@, 0); }
        let mut entries: Vec<(Val, Datum)> = Vec::new();
        std::mem::swap(&mut entries, &mut self.entries);
        let (k, v) = entries.remove(0);
        self.entries = entries;
        Some((Datum::new(k), v))
    }
}

/// Taking from an empty table.
pub struct HashTableEmpty();

impl HashTableEmpty {
    /// `Hashtable empty`.
    pub fn message(&self) -> (r: &'static str)
        ensures r@ == "Hashtable empty"@,
    {
        "Hashtable empty"
    }
}

/// Looking up a key that is not there.
pub struct NoSuchKey();

impl NoSuchKey {
    /// `Key does not exist`.
    pub fn message(&self) -> (r: &'static str)
        ensures r@ == "Key does not exist"@,
    {
        "Key does not exist"
    }
}


/// What a read gives back of a write: after setting `k` to `v`, `k` is
/// there with `v`; after taking `k`, it is not there; other keys keep
/// their values.
pub proof fn law_set_take(t: Map<SVal, SDatum>, k: SVal, other: SVal, v: SDatum)
    requires other != k,
    ensures
        t.insert(k, v).dom().contains(k) && t.insert(k, v)[k] == v,
        !t.remove(k).dom().contains(k),
        t.insert(k, v).dom().contains(other) == t.dom().contains(other),
        t.dom().contains(other) ==> t.insert(k, v)[other] == t[other] && t.remove(k)[other] == t[other],
{
}

} // verus!
