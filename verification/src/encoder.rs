//! Numeric codes for the states of a grid cell.

use std::collections::HashMap;
use vstd::prelude::*;

verus! {

broadcast use vstd::std_specs::hash::group_hash_axioms;

/// The states that a cell can be in: start, frozen, hole, goal and margin.
pub open spec fn known_states() -> Seq<char> {
    seq!['S', 'F', 'H', 'G', 'M']
}

/// A table from cell states to their codes.
pub struct StateEncoder {
    pub(crate) states: Vec<char>,
    pub(crate) encoding_map: HashMap<u32, i8>,
}

impl StateEncoder {
    /// The states that the encoder lists.
    pub open(crate) spec fn states(&self) -> Seq<char> {
        self.states@
    }

    /// The code of each state that has one, by the state's code point.
    pub open(crate) spec fn codes(&self) -> Map<u32, i8> {
        self.encoding_map@
    }

    /// An encoder that lists no state and knows no code.
    pub fn empty() -> (r: StateEncoder)
        ensures
            r.states() == Seq::<char>::empty(),
            r.codes() == Map::<u32, i8>::empty(),
    {
        StateEncoder { states: Vec::new(), encoding_map: HashMap::new() }
    }

    /// Lists the known states, in their fixed order. The codes stay as they
    /// are.
    pub fn new(&mut self)
        ensures
            final(self).states() == known_states(),
            final(self).codes() == old(self).codes(),
    {
        let mut states: Vec<char> = Vec::new();
        states.push('S');
        states.push('F');
        states.push('H');
        states.push('G');
        states.push('M');
        assert(states@ =~= known_states());
        self.states = states;
    }

    /// Gives `state` the code `code`, in place of any it had.
    pub fn assign(&mut self, state: char, code: i8)
        ensures
            final(self).states() == old(self).states(),
            final(self).codes() == old(self).codes().insert(state as u32, code),
    {
        self.encoding_map.insert(state as u32, code);
    }

    /// Whether `state` has a code.
    pub fn knows(&self, state: char) -> (r: bool)
        ensures
            r == self.codes().dom().contains(state as u32),
    {
        self.encoding_map.contains_key(&(state as u32))
    }

    /// The code of `state`, which must have one.
    pub fn encode(&self, state: char) -> (r: i8)
        requires
            self.codes().dom().contains(state as u32),
        ensures
            r == self.codes()[state as u32],
    {
        let key: u32 = state as u32;
        match self.encoding_map.get(&key) {
            Some(code) => *code,
            None => 0,
        }
    }
}

} // verus!
