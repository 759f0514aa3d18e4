//! Variable slots and the values in them.
use crate::values::{GVal, Val, copy_val, val};
use std::collections::HashMap;
use vstd::prelude::*;

verus! {

broadcast use vstd::std_specs::hash::group_hash_axioms;

/// The values of the variables.
#[derive(Debug)]
pub struct Slots {
    map: HashMap<u32, GVal>,
}

impl View for Slots {
    type V = Map<u32, Val>;

    closed spec fn view(&self) -> Map<u32, Val> {
        self.map@.map_values(|g: GVal| val(g))
    }
}

impl Slots {
    /// No variable has a value.
    pub fn new() -> (s: Self)
        ensures
            s@ == Map::<u32, Val>::empty(),
    {
        let s = Slots { map: HashMap::new() };
        assert(s@ =~= Map::<u32, Val>::empty());
        s
    }

    /// A copy of the value in a slot.
    pub fn get(&self, slot: u32) -> (r: Option<GVal>)
        ensures
            match r {
                Some(g) => self@.contains_key(slot) && val(g) == self@[slot],
                None => !self@.contains_key(slot),
            },
    {
        match self.map.get(&slot) {
            Some(g) => Some(copy_val(g)),
            None => None,
        }
    }

    /// Sets the value in a slot.
    pub fn set(&mut self, slot: u32, g: GVal)
        ensures
            final(self)@ == old(self)@.insert(slot, val(g)),
    {
        self.map.insert(slot, g);
        assert(self@ =~= old(self)@.insert(slot, val(g)));
    }

    /// Empties a slot.
    pub fn unset(&mut self, slot: u32)
        ensures
            final(self)@ == old(self)@.remove(slot),
    {
        self.map.remove(&slot);
        assert(self@ =~= old(self)@.remove(slot));
    }
}

} // verus!
