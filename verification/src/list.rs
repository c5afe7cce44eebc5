//! A list of values, stored back to front so that the front is cheap to
//! take and put.

use vstd::prelude::*;
use crate::data::{Val, SVal, ValKind, models, models_rev, lemma_models_rev_len, lemma_models_rev_index,
    lemma_models_rev_push, lemma_models_rev_append};

verus! {

/// A list of [Val]s. Index 0 is the front.
#[derive(Debug)]
pub struct List {
    /// Storage: the front of the list is the last element.
    pub data: Vec<Val>,
    /// The definitions this list carries for when it is run, by their
    /// number in the interpreter that holds them.
    pub env: Option<u64>,
}

impl List {
    /// The models of the elements, front first.
    pub open spec fn model(&self) -> Seq<SVal> {
        models_rev(self.data@)
    }

    /// An empty list.
    pub fn new() -> (r: List)
        ensures r.model() == Seq::<SVal>::empty(), r.env is None,
    {
        List { data: Vec::new(), env: None }
    }

    /// Build a list from values given front first.
    pub fn from_vec(v: Vec<Val>) -> (r: List)
        ensures r.model() == models(v@), r.env is None,
    {
        let mut data = v;
        let ghost orig = data@;
        vec_reverse(&mut data);
        proof { lemma_models_rev_reverse(orig); }
        List { data, env: None }
    }

    /// A copy of this list with the same model.
    pub fn deep_clone(&self) -> (r: List)
        ensures r.model() == self.model(), r.env == self.env,
        decreases self,
    {
        let mut out: Vec<Val> = Vec::new();
        let mut i: usize = 0;
        while i < self.data.len()
            invariant
                i <= self.data.len(),
                out@.len() == i,
                forall|j: int| 0 <= j < i ==> (#[trigger] out@[j]).model() == self.data@[j].model(),
            decreases self.data.len() - i,
        {
            let v = self.data[i].deep_clone();
            out.push(v);
            i += 1;
        }
        let r = List { data: out, env: self.env };
        proof { lemma_models_rev_ext(r.data@, self.data@); }
        r
    }

    /// Get the number of values in this list.
    pub fn len(&self) -> (r: usize)
        ensures r == self.model().len(),
    {
        proof { lemma_models_rev_len(self.data@); }
        self.data.len()
    }

    /// Get a value by index, if the index is in range. 0 is at the front.
    pub fn get(&self, i: usize) -> (r: Option<&Val>)
        ensures
            r is Some <==> i < self.model().len(),
            r matches Some(v) ==> v.model() == self.model()[i as int],
    {
        proof { lemma_models_rev_len(self.data@); }
        if i < self.data.len() {
            proof { lemma_models_rev_index(self.data@, i as int); }
            Some(&self.data[self.data.len() - 1 - i])
        } else {
            None
        }
    }

    /// Mutable access to the values front to back: the value at index `i`
    /// (0 is the front), where the list has one.
    pub fn iter_mut(&mut self, i: usize) -> (r: Option<&mut Val>)
        ensures
            i < old(self).data@.len() ==> (r matches Some(v) && *v == old(self).data@[old(self).data@.len() - 1 - i]
                && final(self).data@ == old(self).data@.update(old(self).data@.len() - 1 - i, *final(v))
                && final(self).env == old(self).env),
            i >= old(self).data@.len() ==> r is None && *final(self) == *old(self),
    {
        let n = self.data.len();
        if i < n {
            Some(&mut self.data[n - 1 - i])
        } else {
            None
        }
    }

    /// Is this list devoid of contents?
    pub fn is_empty(&self) -> (r: bool)
        ensures r == (self.model().len() == 0),
    {
        proof { lemma_models_rev_len(self.data@); }
        self.data.len() == 0
    }

    /// The values of this list front to back, as copies.
    pub fn iter(&self) -> (r: Vec<Val>)
        ensures
            r@.len() == self.model().len(),
            forall|i: int| 0 <= i < r@.len() ==> (#[trigger] r@[i]).model() == self.model()[i],
    {
        proof { lemma_models_rev_len(self.data@); }
        let mut out: Vec<Val> = Vec::new();
        let n = self.data.len();
        let mut i: usize = 0;
        while i < n
            invariant
                n == self.data.len(),
                i <= n,
                out@.len() == i,
                forall|j: int| 0 <= j < i ==> (#[trigger] out@[j]).model() == self.model()[j],
            decreases n - i,
        {
            proof { lemma_models_rev_index(self.data@, i as int); }
            let v = self.data[n - 1 - i].deep_clone();
            out.push(v);
            i += 1;
        }
        out
    }

    /// Take the front value from this list, if it isn't empty.
    pub fn pop(&mut self) -> (r: Option<Val>)
        ensures
            old(self).model().len() == 0 ==> r is None && final(self).model() == old(self).model(),
            old(self).model().len() > 0 ==> (r matches Some(v) && v.model() == old(self).model()[0]
                && final(self).model() == old(self).model().drop_first()),
            final(self).env == old(self).env,
    {
        proof { lemma_models_rev_len(self.data@); }
        let ghost d = self.data@;
        let r = self.data.pop();
        proof {
            if d.len() > 0 {
                lemma_models_rev_push(d.drop_last(), d.last());
                assert(d.drop_last().push(d.last()) == d);
            }
        }
        r
    }

    /// Put just one value at the front of this list.
    pub fn push(&mut self, v: Val)
        ensures final(self).model() == seq![v.model()] + old(self).model(), final(self).env == old(self).env,
    {
        let ghost d = self.data@;
        self.data.push(v);
        proof { lemma_models_rev_push(d, v); }
    }

    /// Put the contents of an entire list in front of this list.
    pub fn prepend(&mut self, other: List)
        ensures final(self).model() == other.model() + old(self).model(), final(self).env == old(self).env,
    {
        let mut o = other;
        let ghost a = self.data@;
        let ghost b = o.data@;
        self.data.append(&mut o.data);
        proof { lemma_models_rev_append(a, b); }
    }

    /// Get the value at the front of this list, if it isn't empty.
    pub fn top(&self) -> (r: Option<&Val>)
        ensures
            r is Some <==> self.model().len() > 0,
            r matches Some(v) ==> v.model() == self.model()[0],
    {
        self.get(0)
    }

    /// Put a value at the end of this list.
    pub fn push_tail(&mut self, v: Val)
        ensures final(self).model() == old(self).model().push(v.model()), final(self).env == old(self).env,
    {
        let ghost d = self.data@;
        self.data.insert(0, v);
        proof {
            assert(self.data@ == seq![v] + d);
            lemma_models_rev_append(seq![v], d);
            lemma_models_rev_one(v);
            assert(models_rev(d) + seq![v.model()] =~= models_rev(d).push(v.model()));
        }
    }

    /// Take the value at the end of this list, if it isn't empty.
    pub fn pop_tail(&mut self) -> (r: Option<Val>)
        ensures
            old(self).model().len() == 0 ==> (r is None && final(self).model() == old(self).model()),
            old(self).model().len() > 0 ==> (r matches Some(v) && v.model() == old(self).model().last()
                && final(self).model() == old(self).model().drop_last()),
            final(self).env == old(self).env,
    {
        proof { lemma_models_rev_len(self.data@); }
        if self.data.len() == 0 {
            return None;
        }
        let ghost d = self.data@;
        let v = self.data.remove(0);
        proof {
            assert(d == seq![d[0]] + self.data@);
            lemma_models_rev_append(seq![d[0]], self.data@);
            lemma_models_rev_one(d[0]);
            lemma_models_rev_len(self.data@);
        }
        Some(v)
    }

    /// Put the contents of `other` at the end of this list.
    pub fn append(&mut self, other: List)
        ensures final(self).model() == old(self).model() + other.model(), final(self).env == old(self).env,
    {
        let mut o = other;
        let ghost a = self.data@;
        let ghost b = o.data@;
        o.data.append(&mut self.data);
        std::mem::swap(&mut self.data, &mut o.data);
        proof { lemma_models_rev_append(b, a); }
    }

    /// Swap the values at `i` and `j` (counted from the front).
    pub fn swap(&mut self, i: usize, j: usize)
        requires i < old(self).model().len(), j < old(self).model().len(),
        ensures
            final(self).model() == old(self).model().update(i as int, old(self).model()[j as int])
                .update(j as int, old(self).model()[i as int]),
            final(self).env == old(self).env,
    {
        proof { lemma_models_rev_len(self.data@); }
        let n = self.data.len();
        let ghost d = self.data@;
        let a = n - 1 - i;
        let b = n - 1 - j;
        if a == b {
            proof {
                assert(models_rev(d).update(i as int, models_rev(d)[j as int]).update(j as int, models_rev(d)[i as int])
                    =~= models_rev(d));
            }
            return;
        }
        let mut tmp = Val::Bool(false);
        let ghost f = tmp;
        std::mem::swap(&mut self.data[a], &mut tmp);
        assert(tmp == d[a as int] && self.data@ == d.update(a as int, f));
        let ghost d1 = self.data@;
        std::mem::swap(&mut self.data[b], &mut tmp);
        assert(tmp == d1[b as int] && self.data@ == d1.update(b as int, d[a as int]));
        let ghost d2 = self.data@;
        std::mem::swap(&mut self.data[a], &mut tmp);
        assert(self.data@ == d2.update(a as int, d1[b as int]));
        proof {
            assert(self.data@ =~= d.update(a as int, d[b as int]).update(b as int, d[a as int]));
            lemma_models_rev_len(self.data@);
            assert forall|k: int| 0 <= k < n implies #[trigger] models_rev(self.data@)[k]
                == models_rev(d).update(i as int, models_rev(d)[j as int]).update(j as int, models_rev(d)[i as int])[k] by {
                lemma_models_rev_index(self.data@, k);
                lemma_models_rev_index(d, k);
                lemma_models_rev_index(d, i as int);
                lemma_models_rev_index(d, j as int);
            }
            assert(models_rev(self.data@) =~= models_rev(d).update(i as int, models_rev(d)[j as int]).update(j as int, models_rev(d)[i as int]));
        }
    }

    /// Build a list shaped like `(key value key value ...)` from pairs; the
    /// pairs come out in the reverse of the order given, so the last pair
    /// given is at the front.
    pub fn from_pairs(src: Vec<(Val, Val)>) -> (r: List)
        ensures
            r.model().len() == 2 * src@.len(),
            r.env is None,
            forall|i: int| 0 <= i < src@.len() ==>
                r.model()[2 * i] == (#[trigger] src@[src@.len() - 1 - i]).0.model()
                && r.model()[2 * i + 1] == src@[src@.len() - 1 - i].1.model(),
    {
        let mut data: Vec<Val> = Vec::new();
        let n = src.len();
        let ghost s = src@;
        let mut rest = src;
        vec_pairs_reverse(&mut rest);
        let mut j: usize = 0;
        while j < n
            invariant
                j <= n,
                n == s.len(),
                rest@.len() == n - j,
                forall|m: int| 0 <= m < n - j ==> #[trigger] rest@[m] == s[n - 1 - m],
                data@.len() == 2 * j,
                forall|i: int| 0 <= i < j ==> data@[2 * i].model() == (#[trigger] s[i]).1.model()
                    && data@[2 * i + 1].model() == s[i].0.model(),
            decreases n - j,
        {
            proof { assert(rest@[n - j - 1] == s[j as int]); }
            let (key, val) = rest.pop().unwrap();
            data.push(val);
            data.push(key);
            j += 1;
        }
        let r = List { data, env: None };
        proof {
            lemma_models_rev_len(r.data@);
            assert forall|i: int| 0 <= i < s.len() implies r.model()[2 * i] == (#[trigger] s[s.len() - 1 - i]).0.model()
                && r.model()[2 * i + 1] == s[s.len() - 1 - i].1.model() by {
                lemma_models_rev_index(r.data@, 2 * i);
                lemma_models_rev_index(r.data@, 2 * i + 1);
                let k = n - 1 - i;
                assert(r.data@.len() - 1 - 2 * i == 2 * k + 1);
                assert(r.data@.len() - 1 - (2 * i + 1) == 2 * k);
                assert(data@[2 * k].model() == s[k].1.model());
            }
        }
        r
    }

    /// Reverse the list in-place.
    pub fn reverse(&mut self)
        ensures final(self).model() == old(self).model().reverse(), final(self).env == old(self).env,
    {
        let ghost d = self.data@;
        vec_reverse(&mut self.data);
        proof {
            lemma_models_rev_reverse(d);
            lemma_models_rev_rev_rev(d);
        }
    }

    /// Check if this contains a value of the given kind.
    pub fn contains(&self, kind: ValKind) -> (r: bool)
        ensures r == exists|i: int| 0 <= i < self.model().len() && (#[trigger] self.model()[i]).kind() == kind,
    {
        proof { lemma_models_rev_len(self.data@); }
        let n = self.data.len();
        let mut i: usize = 0;
        while i < n
            invariant
                n == self.data.len(),
                n == self.model().len(),
                i <= n,
                forall|j: int| 0 <= j < i ==> (#[trigger] self.model()[j]).kind() != kind,
            decreases n - i,
        {
            proof { lemma_models_rev_index(self.data@, i as int); }
            if self.data[n - 1 - i].kind() == kind {
                assert(self.model()[i as int].kind() == kind);
                return true;
            }
            i += 1;
        }
        false
    }

    /// Find the first value of the given kind.
    pub fn first_ref(&self, kind: ValKind) -> (r: Option<&Val>)
        ensures
            r is None <==> !exists|i: int| 0 <= i < self.model().len() && (#[trigger] self.model()[i]).kind() == kind,
            r matches Some(v) ==> exists|i: int| 0 <= i < self.model().len() && v.model() == self.model()[i]
                && v.model().kind() == kind
                && (forall|j: int| 0 <= j < i ==> (#[trigger] self.model()[j]).kind() != kind),
    {
        proof { lemma_models_rev_len(self.data@); }
        let n = self.data.len();
        let mut i: usize = 0;
        while i < n
            invariant
                n == self.data.len(),
                n == self.model().len(),
                i <= n,
                forall|j: int| 0 <= j < i ==> (#[trigger] self.model()[j]).kind() != kind,
            decreases n - i,
        {
            proof { lemma_models_rev_index(self.data@, i as int); }
            if self.data[n - 1 - i].kind() == kind {
                assert(self.model()[i as int].kind() == kind);
                return Some(&self.data[n - 1 - i]);
            }
            i += 1;
        }
        None
    }
}

/// Reverse a vector of pairs.
fn vec_pairs_reverse(v: &mut Vec<(Val, Val)>)
    ensures
        final(v)@.len() == old(v)@.len(),
        forall|m: int| 0 <= m < old(v)@.len() ==> #[trigger] final(v)@[m] == old(v)@[old(v)@.len() - 1 - m],
{
    let n = v.len();
    let mut out: Vec<(Val, Val)> = Vec::new();
    let ghost orig = v@;
    while v.len() > 0
        invariant
            v@.len() + out@.len() == n,
            n == orig.len(),
            forall|m: int| 0 <= m < v@.len() ==> #[trigger] v@[m] == orig[m],
            forall|m: int| 0 <= m < out@.len() ==> #[trigger] out@[m] == orig[n - 1 - m],
        decreases v@.len(),
    {
        let x = v.pop().unwrap();
        out.push(x);
    }
    *v = out;
}

/// Reverse a vector of values.
fn vec_reverse(v: &mut Vec<Val>)
    ensures final(v)@ == old(v)@.reverse(),
{
    let n = v.len();
    let mut out: Vec<Val> = Vec::new();
    let ghost orig = v@;
    while v.len() > 0
        invariant
            orig.len() == n,
            v@ == orig.take(v@.len() as int),
            out@.len() == n - v@.len(),
            forall|j: int| 0 <= j < out@.len() ==> #[trigger] out@[j] == orig[n - 1 - j],
        decreases v.len(),
    {
        let x = v.pop().unwrap();
        proof { assert(orig.take((v@.len() + 1) as int).drop_last() == orig.take(v@.len() as int)); }
        out.push(x);
    }
    *v = out;
    proof { assert(v@ == orig.reverse()); }
}

/// Two storage sequences with element-wise equal models have equal models.
pub proof fn lemma_models_rev_ext(a: Seq<Val>, b: Seq<Val>)
    requires
        a.len() == b.len(),
        forall|j: int| 0 <= j < a.len() ==> (#[trigger] a[j]).model() == b[j].model(),
    ensures
        models_rev(a) == models_rev(b),
    decreases a.len(),
{
    if a.len() > 0 {
        lemma_models_rev_ext(a.drop_last(), b.drop_last());
        assert(a.last().model() == b.last().model());
    }
}

/// The model of reversed storage is the reversed model.
pub proof fn lemma_models_rev_reverse(d: Seq<Val>)
    ensures models_rev(d.reverse()) == models_rev(d).reverse(),
{
    lemma_models_rev_len(d);
    lemma_models_rev_len(d.reverse());
    assert forall|i: int| 0 <= i < d.len() implies #[trigger] models_rev(d.reverse())[i] == models_rev(d).reverse()[i] by {
        lemma_models_rev_index(d.reverse(), i);
        lemma_models_rev_index(d, d.len() - 1 - i);
    }
    assert(models_rev(d.reverse()) =~= models_rev(d).reverse());
}

proof fn lemma_models_rev_rev_rev(d: Seq<Val>)
    ensures models_rev(d).reverse().reverse() == models_rev(d),
{
    assert(models_rev(d).reverse().reverse() =~= models_rev(d));
}

impl Clone for List {
    /// A copy with the same model.
    fn clone(&self) -> (r: List)
        ensures r.model() == self.model(), r.env == self.env,
    {
        self.deep_clone()
    }
}

/// The model of storage with one value.
proof fn lemma_models_rev_one(v: Val)
    ensures models_rev(seq![v]) == seq![v.model()],
{
    assert(seq![v].drop_last() =~= Seq::<Val>::empty());
    assert(seq![v].last() == v);
    assert(models_rev(Seq::<Val>::empty()) =~= Seq::<SVal>::empty());
    assert(seq![v.model()] + Seq::<SVal>::empty() =~= seq![v.model()]);
}

} // verus!
