//! Records: values of a named record type with numbered slots.

use vstd::prelude::*;
use std::rc::Rc;
use crate::data::{Datum, SDatum, datum_models};

verus! {

/// A record type: a name, shared by the records of that type.
pub struct RecordType(Rc<String>);

impl RecordType {
    /// The name of this type.
    pub closed spec fn name_spec(&self) -> Seq<char> {
        (*self.0)@
    }

    /// A new record type named `name`.
    pub fn new(name: String) -> (r: RecordType)
        ensures r.name_spec() == name@,
    {
        RecordType(Rc::new(name))
    }

    /// The name of this type.
    pub fn name(&self) -> (r: &str)
        ensures r@ == self.name_spec(),
    {
        self.0.as_str()
    }

    /// Another handle on the same type.
    pub fn share(&self) -> (r: RecordType)
        ensures r.name_spec() == self.name_spec(),
    {
        RecordType(Rc::clone(&self.0))
    }
}

/// A slot index outside a record's slots: the valid range from `start` up
/// to (not including) `end`, and the index asked for.
pub struct OutOfRange {
    pub start: usize,
    pub end: usize,
    pub index: usize,
}

/// A record: its type and its slots.
pub struct Record {
    ty: RecordType,
    slots: Vec<Datum>,
}

impl Record {
    /// The models of the slots.
    pub closed spec fn slots_spec(&self) -> Seq<SDatum> {
        datum_models(self.slots@)
    }

    /// The type's name.
    pub closed spec fn kind_name(&self) -> Seq<char> {
        self.ty.name_spec()
    }

    /// A record of type `ty` with no slots.
    pub fn new(ty: RecordType) -> (r: Record)
        ensures r.slots_spec() == Seq::<SDatum>::empty(), r.kind_name() == ty.name_spec(),
    {
        let r = Record { ty, slots: Vec::new() };
        proof { assert(datum_models(r.slots@) =~= Seq::<SDatum>::empty()); }
        r
    }

    /// The type and the slots.
    pub fn deconstruct(self) -> (r: (RecordType, Vec<Datum>))
        ensures r.0.name_spec() == self.kind_name(), datum_models(r.1@) == self.slots_spec(),
    {
        (self.ty, self.slots)
    }

    /// The type.
    pub fn type_ref(&self) -> (r: &RecordType)
        ensures r.name_spec() == self.kind_name(),
    {
        &self.ty
    }

    /// The number of slots.
    pub fn slot_count(&self) -> (r: usize)
        ensures r == self.slots_spec().len(),
    {
        self.slots.len()
    }

    /// Fail unless `idx` is a slot.
    fn assert_in_range(&self, idx: usize) -> (r: Result<(), OutOfRange>)
        ensures
            idx < self.slots_spec().len() <==> r is Ok,
            r matches Err(e) ==> e == (OutOfRange { start: 0, end: self.slots_spec().len() as usize, index: idx }),
    {
        let len = self.slots.len();
        if idx >= len {
            return Err(OutOfRange { start: 0, end: len, index: idx });
        }
        Ok(())
    }

    /// Add a slot at the end.
    pub fn slot_add(&mut self, datum: Datum)
        ensures
            final(self).slots_spec() == old(self).slots_spec().push(datum.model()),
            final(self).kind_name() == old(self).kind_name(),
    {
        let ghost s = self.slots@;
        self.slots.push(datum);
        proof { assert(datum_models(self.slots@) =~= datum_models(s).push(datum.model())); }
    }

    /// Put `datum` in slot `idx`, giving back what was there.
    pub fn slot_swap(&mut self, idx: usize, datum: Datum) -> (r: Result<Datum, OutOfRange>)
        ensures
            final(self).kind_name() == old(self).kind_name(),
            idx >= old(self).slots_spec().len() ==> final(self).slots_spec() == old(self).slots_spec(),
            idx >= old(self).slots_spec().len() ==> (r matches Err(e)
                && e == (OutOfRange { start: 0, end: old(self).slots_spec().len() as usize, index: idx })),
            idx < old(self).slots_spec().len() ==> (r matches Ok(d) && d.model() == old(self).slots_spec()[idx as int]
                && final(self).slots_spec() == old(self).slots_spec().update(idx as int, datum.model())),
    {
        match self.assert_in_range(idx) {
            Err(e) => { return Err(e); },
            Ok(()) => {},
        }
        let ghost s = self.slots@;
        let mut d = datum;
        std::mem::swap(&mut self.slots[idx], &mut d);
        proof { assert(datum_models(self.slots@) =~= datum_models(s).update(idx as int, datum.model())); }
        Ok(d)
    }
}

} // verus!
