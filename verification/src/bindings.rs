use crate::number::Number;
use std::collections::HashMap;
use vstd::prelude::*;

verus! {

broadcast use vstd::std_specs::hash::group_hash_axioms;

/// The values of variables during one evaluation: a map from a variable's
/// name to its number, with at most one number for a name.
///
/// The numbers are kept in a hash map keyed by the name's code point.
pub struct Bindings {
    slots: HashMap<u32, Number>,
}

impl View for Bindings {
    type V = Map<char, Number>;

    closed spec fn view(&self) -> Map<char, Number> {
        Map::new(
            |name: char| self.slots@.contains_key(name as u32),
            |name: char| self.slots@[name as u32],
        )
    }
}

/// Two names with one code point are one name.
proof fn lemma_code_points_differ(a: char, b: char)
    requires
        a != b,
    ensures
        a as u32 != b as u32,
{
}

impl Bindings {
    /// No variable has a value.
    pub fn new() -> (bindings: Bindings)
        ensures
            bindings@ == Map::<char, Number>::empty(),
    {
        Bindings { slots: HashMap::new() }
    }

    /// Gives `name` the value `value`, in place of the value it had, if any.
    pub fn insert(&mut self, name: char, value: Number)
        ensures
            final(self)@ == old(self)@.insert(name, value),
    {
        self.slots.insert(name as u32, value);
        assert forall|other: char| #[trigger]
            self@.contains_key(other) == old(self)@.insert(name, value).contains_key(other) by {
            if other != name {
                lemma_code_points_differ(other, name);
            }
        }
        assert forall|other: char| #[trigger] self@.contains_key(other) implies self@[other] == old(
            self,
        )@.insert(name, value)[other] by {
            if other != name {
                lemma_code_points_differ(other, name);
            }
        }
    }

    /// The value of `name`, if it has one.
    pub fn get(&self, name: char) -> (value: Option<Number>)
        ensures
            value == if self@.contains_key(name) {
                Some(self@[name])
            } else {
                None::<Number>
            },
    {
        match self.slots.get(&(name as u32)) {
            Some(value) => Some(*value),
            None => None,
        }
    }
}

} // verus!
