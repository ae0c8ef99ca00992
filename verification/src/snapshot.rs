//! Plain records of a registry's units, and a registry rebuilt from them.

use crate::neuron::{Dendrite, Neuron, NeuronView};
use crate::scheduler::{
    has_unit, lemma_rank_is_split, lemma_split_has_unit, registered, sorted_by_name, Scheduler,
    SchedulerError, SchedulerView,
};
use vstd::prelude::*;

verus! {

/// A unit written down as plain values.
pub struct NeuronRecord {
    pub id: String,
    pub threshold: i64,
    pub potential: i64,
    pub outgoing: Vec<(String, i64)>,
}

impl View for NeuronRecord {
    type V = NeuronView;

    open spec fn view(&self) -> NeuronView {
        NeuronView {
            name: self.id@,
            threshold: self.threshold,
            potential: self.potential,
            outgoing: Seq::new(
                self.outgoing@.len(),
                |k: int| (self.outgoing@[k].0@, self.outgoing@[k].1),
            ),
        }
    }
}

/// The units that a list of records describes, in its order.
pub open spec fn views_of(records: Seq<NeuronRecord>) -> Seq<NeuronView> {
    Seq::new(records.len(), |k: int| records[k]@)
}

/// The pool that registering `units` one after the other builds, or `None`
/// where two of them share an identifier.
pub open spec fn rebuilt(units: Seq<NeuronView>) -> Option<Seq<NeuronView>>
    decreases units.len(),
{
    if units.len() == 0 {
        Some(Seq::empty())
    } else {
        match rebuilt(units.drop_last()) {
            Some(pool) => if has_unit(pool, units.last().name) {
                None
            } else {
                Some(registered(pool, units.last()))
            },
            None => None,
        }
    }
}

impl Neuron {
    /// The unit as a record.
    pub fn to_record(&self) -> (r: NeuronRecord)
        ensures
            r@ == self@,
    {
        let mut outgoing: Vec<(String, i64)> = Vec::new();
        let mut i: usize = 0;
        while i < self.post_synaptic_connections.len()
            invariant
                i <= self.post_synaptic_connections@.len(),
                outgoing@.len() == i,
                forall|k: int|
                    0 <= k < i ==> (#[trigger] outgoing@[k]).0@ == self@.outgoing[k].0
                        && outgoing@[k].1 == self@.outgoing[k].1,
            decreases self.post_synaptic_connections@.len() - i,
        {
            let link = &self.post_synaptic_connections[i];
            outgoing.push((link.get_neuron_id().clone(), link.get_strength()));
            i += 1;
        }
        let r = NeuronRecord {
            id: self.name.clone(),
            threshold: self.threshold,
            potential: self.potential,
            outgoing,
        };
        proof {
            assert(r@.outgoing =~= self@.outgoing);
        }
        r
    }

    /// The unit that a record describes.
    pub fn from_record(record: &NeuronRecord) -> (r: Neuron)
        ensures
            r@ == record@,
    {
        let mut links: Vec<Dendrite> = Vec::new();
        let mut i: usize = 0;
        while i < record.outgoing.len()
            invariant
                i <= record.outgoing@.len(),
                links@.len() == i,
                forall|k: int| 0 <= k < i ==> (#[trigger] links@[k])@ == record@.outgoing[k],
            decreases record.outgoing@.len() - i,
        {
            links.push(Dendrite::new(record.outgoing[i].0.clone(), record.outgoing[i].1));
            i += 1;
        }
        let r = Neuron {
            post_synaptic_connections: links,
            name: record.id.clone(),
            potential: record.potential,
            threshold: record.threshold,
        };
        proof {
            assert(r@.outgoing =~= record@.outgoing);
        }
        r
    }
}

impl Scheduler {
    /// A record of every unit, in the registry's order.
    pub fn snapshot(&self) -> (r: Vec<NeuronRecord>)
        ensures
            views_of(r@) == self@.pool,
    {
        let mut out: Vec<NeuronRecord> = Vec::new();
        let mut i: usize = 0;
        while i < self.pool.len()
            invariant
                i <= self.pool@.len(),
                out@.len() == i,
                forall|k: int| 0 <= k < i ==> (#[trigger] out@[k])@ == self@.pool[k],
            decreases self.pool@.len() - i,
        {
            out.push(self.pool[i].to_record());
            i += 1;
        }
        proof {
            assert(views_of(out@) =~= self@.pool);
        }
        out
    }

    /// A scheduler at round zero, with the default round budget, that holds
    /// the units which `records` describe. Records may come in any order, but
    /// no two may share an identifier.
    pub fn restore(records: &Vec<NeuronRecord>) -> (r: Result<Scheduler, SchedulerError>)
        ensures
            r is Ok <==> rebuilt(views_of(records@)) is Some,
            r is Ok ==> r->Ok_0.wf() && r->Ok_0@ == (SchedulerView {
                pool: rebuilt(views_of(records@))->0,
                time: 0,
                max_rounds: 10_000,
            }),
            r is Err ==> r->Err_0 == SchedulerError::DuplicateName,
    {
        let mut scheduler = Scheduler::new();
        let mut i: usize = 0;
        proof {
            assert(views_of(records@).take(0) =~= Seq::<NeuronView>::empty());
        }
        while i < records.len()
            invariant
                i <= records@.len(),
                scheduler.wf(),
                scheduler@.time == 0,
                scheduler@.max_rounds == 10_000,
                rebuilt(views_of(records@).take(i as int)) == Some(scheduler@.pool),
            decreases records@.len() - i,
        {
            proof {
                assert(views_of(records@).take(i as int + 1).drop_last() =~= views_of(
                    records@,
                ).take(i as int));
                assert(views_of(records@).take(i as int + 1).last() == records@[i as int]@);
            }
            match scheduler.register(Neuron::from_record(&records[i])) {
                Ok(_) => {},
                Err(_) => {
                    proof {
                        lemma_rebuilt_prefix(views_of(records@), i as int + 1);
                    }
                    return Err(SchedulerError::DuplicateName);
                },
            }
            i += 1;
        }
        proof {
            assert(views_of(records@).take(i as int) =~= views_of(records@));
        }
        Ok(scheduler)
    }
}

/// Where a first part of the units cannot be registered, neither can all.
pub proof fn lemma_rebuilt_prefix(units: Seq<NeuronView>, n: int)
    requires
        0 <= n <= units.len(),
        rebuilt(units.take(n)) is None,
    ensures
        rebuilt(units) is None,
    decreases units.len(),
{
    if n < units.len() {
        assert(units.drop_last().take(n) =~= units.take(n));
        lemma_rebuilt_prefix(units.drop_last(), n);
    } else {
        assert(units.take(n) =~= units);
    }
}

/// Registering the units of an ordered pool one after the other, in the
/// pool's order, builds that pool again.
pub proof fn lemma_rebuilt_sorted(pool: Seq<NeuronView>)
    requires
        sorted_by_name(pool),
    ensures
        rebuilt(pool) == Some(pool),
    decreases pool.len(),
{
    if pool.len() > 0 {
        let front = pool.drop_last();
        let unit = pool.last();
        lemma_rebuilt_sorted(front);
        assert forall|k: int| 0 <= k < front.len() implies crate::ident::name_before(
            #[trigger] front[k].name,
            unit.name,
        ) by {
            assert(front[k] == pool[k]);
        }
        lemma_split_has_unit(front, unit.name, front.len() as int);
        lemma_rank_is_split(front, unit.name, front.len() as int);
        assert(registered(front, unit) =~= pool);
    } else {
        assert(pool =~= Seq::<NeuronView>::empty());
    }
}

} // verus!
