//! Units and their outgoing connections.

use crate::inbox::{emit_into, Inbox};
use crate::signal::{add_saturating, batch_sum, saturate, sum};
use vstd::prelude::*;

verus! {

/// A directed, weighted connection to the unit named `neuron_id`.
pub struct Dendrite {
    pub(crate) neuron_id: String,
    pub(crate) strength: i64,
}

impl View for Dendrite {
    type V = (Seq<char>, i64);

    open(crate) spec fn view(&self) -> (Seq<char>, i64) {
        (self.neuron_id@, self.strength)
    }
}

impl Dendrite {
    /// A connection to `neuron_id` that carries `strength`.
    pub fn new(neuron_id: String, strength: i64) -> (r: Dendrite)
        ensures
            r@ == (neuron_id@, strength),
    {
        Dendrite { neuron_id, strength }
    }

    /// Strengthens the connection by `step`.
    pub fn inc_strength(&mut self, step: i64)
        ensures
            final(self)@ == (old(self)@.0, saturate(old(self)@.1 + step) as i64),
    {
        self.strength = add_saturating(self.strength, step);
    }

    /// Weakens the connection by `step`.
    pub fn dec_strength(&mut self, step: i64)
        ensures
            final(self)@ == (old(self)@.0, saturate(old(self)@.1 - step) as i64),
    {
        let wide: i128 = self.strength as i128 - step as i128;
        self.strength = if wide < i64::MIN as i128 {
            i64::MIN
        } else if wide > i64::MAX as i128 {
            i64::MAX
        } else {
            wide as i64
        };
    }

    /// The identifier of the unit that the connection leads to.
    pub fn get_neuron_id(&self) -> (r: &String)
        ensures
            r@ == self@.0,
    {
        &self.neuron_id
    }

    /// The weight that the connection carries.
    pub fn get_strength(&self) -> (r: i64)
        ensures
            r == self@.1,
    {
        self.strength
    }
}

/// What a unit is: its identifier, its firing threshold, the potential it has
/// accumulated, and its outgoing connections as `(target, weight)` pairs in
/// the order in which they were made.
pub struct NeuronView {
    pub name: Seq<char>,
    pub threshold: i64,
    pub potential: i64,
    pub outgoing: Seq<(Seq<char>, i64)>,
}

impl NeuronView {
    /// A unit fires when its potential has reached its threshold.
    pub open spec fn fires(self) -> bool {
        self.potential >= self.threshold
    }

    /// The unit after `delta` was added to its potential.
    pub open spec fn charged(self, delta: i64) -> NeuronView {
        NeuronView { potential: saturate(self.potential + delta) as i64, ..self }
    }

    /// The unit after its potential was reset.
    pub open spec fn discharged(self) -> NeuronView {
        NeuronView { potential: 0, ..self }
    }

    /// The unit after one more connection was made.
    pub open spec fn connected(self, target: Seq<char>, weight: i64) -> NeuronView {
        NeuronView { outgoing: self.outgoing.push((target, weight)), ..self }
    }
}

/// A threshold unit.
pub struct Neuron {
    pub(crate) post_synaptic_connections: Vec<Dendrite>,
    pub(crate) name: String,
    pub potential: i64,
    pub threshold: i64,
}

impl View for Neuron {
    type V = NeuronView;

    open(crate) spec fn view(&self) -> NeuronView {
        NeuronView {
            name: self.name@,
            threshold: self.threshold,
            potential: self.potential,
            outgoing: Seq::new(
                self.post_synaptic_connections@.len(),
                |k: int| self.post_synaptic_connections@[k]@,
            ),
        }
    }
}

/// `Uuid::new_v4` followed by `to_string`: a random version-4 identifier in
/// its hyphenated form, which is 36 characters long. Nothing else is claimed
/// of it; two calls may return different text.
#[verifier::external_body]
pub(crate) fn fresh_name() -> (r: String)
    ensures
        r@.len() == 36,
{
    uuid::Uuid::new_v4().to_string()
}

impl Neuron {
    /// A unit without a name or connections that never fires on its own: its
    /// threshold is the largest magnitude.
    pub fn empty() -> (r: Neuron)
        ensures
            r@ == (NeuronView {
                name: Seq::<char>::empty(),
                threshold: i64::MAX,
                potential: 0,
                outgoing: Seq::<(Seq<char>, i64)>::empty(),
            }),
    {
        let r = Neuron {
            post_synaptic_connections: Vec::new(),
            name: String::new(),
            potential: 0,
            threshold: i64::MAX,
        };
        assert(r@.outgoing =~= Seq::<(Seq<char>, i64)>::empty());
        r
    }

    /// A resting unit called `name`, without connections.
    pub fn named(threshold: i64, name: String) -> (r: Neuron)
        ensures
            r@ == (NeuronView {
                name: name@,
                threshold,
                potential: 0,
                outgoing: Seq::<(Seq<char>, i64)>::empty(),
            }),
    {
        let r = Neuron { post_synaptic_connections: Vec::new(), name, potential: 0, threshold };
        assert(r@.outgoing =~= Seq::<(Seq<char>, i64)>::empty());
        r
    }

    /// A resting unit without connections. It is called `name` where one is
    /// given, and gets a freshly generated identifier otherwise.
    pub fn new(threshold: i64, name: Option<String>) -> (r: Neuron)
        ensures
            r@.threshold == threshold,
            r@.potential == 0,
            r@.outgoing == Seq::<(Seq<char>, i64)>::empty(),
            name is Some ==> r@.name == name->0@,
    {
        match name {
            Some(given) => Neuron::named(threshold, given),
            None => Neuron::named(threshold, fresh_name()),
        }
    }

    /// Renames the unit.
    pub fn set_name(&mut self, new_name: String)
        ensures
            final(self)@ == (NeuronView { name: new_name@, ..old(self)@ }),
    {
        self.name = new_name;
    }

    /// The unit's identifier.
    pub fn get_name(&self) -> (r: &String)
        ensures
            r@ == self@.name,
    {
        &self.name
    }

    /// Appends a connection to `post_neuron_id`. Its weight is `strength`, or
    /// zero where none is given. Whether the target exists is not asked here.
    pub fn connect_to(&mut self, post_neuron_id: String, strength: Option<i64>)
        ensures
            final(self)@ == old(self)@.connected(
                post_neuron_id@,
                match strength {
                    Some(w) => w,
                    None => 0,
                },
            ),
    {
        let weight: i64 = match strength {
            Some(w) => w,
            None => 0,
        };
        self.post_synaptic_connections.push(Dendrite::new(post_neuron_id, weight));
        assert(self@.outgoing =~= old(self)@.outgoing.push((post_neuron_id@, weight)));
    }

    /// Delivers the weight of every outgoing connection to its target's batch
    /// in `activated_neurons`, first connection first. The unit is not changed.
    pub fn transmit(&mut self, activated_neurons: &mut Inbox)
        ensures
            final(self)@ == old(self)@,
            final(activated_neurons)@ == emit_into(old(activated_neurons)@, old(self)@.outgoing),
    {
        let mut i: usize = 0;
        while i < self.post_synaptic_connections.len()
            invariant
                i <= self.post_synaptic_connections@.len(),
                self@ == old(self)@,
                activated_neurons@ == emit_into(
                    old(activated_neurons)@,
                    self@.outgoing.take(i as int),
                ),
            decreases self.post_synaptic_connections@.len() - i,
        {
            proof {
                assert(self@.outgoing.take(i as int + 1).drop_last() =~= self@.outgoing.take(
                    i as int,
                ));
            }
            let target = self.post_synaptic_connections[i].neuron_id.clone();
            activated_neurons.push(target, self.post_synaptic_connections[i].strength);
            i += 1;
        }
        proof {
            assert(self@.outgoing.take(i as int) =~= self@.outgoing);
        }
    }

    /// Combines one round's incoming signals into a single change of
    /// potential: their sum.
    pub fn process_signals(&self, signals: &Vec<i64>) -> (r: Option<i64>)
        ensures
            r == Some(saturate(batch_sum(signals@)) as i64),
    {
        Some(sum(signals))
    }

    /// Adds `diff` to the potential.
    pub fn update_potential(&mut self, diff: i64)
        ensures
            final(self)@ == old(self)@.charged(diff),
    {
        self.potential = add_saturating(self.potential, diff);
    }
}

} // verus!
