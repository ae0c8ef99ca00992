//! The registry of units and the rounds of a cascade.

use crate::ident::{
    lemma_name_irreflexive, lemma_name_total, lemma_name_transitive, name_before, name_precedes,
    names_of,
};
use crate::inbox::{emit_into, Inbox};
use crate::neuron::{fresh_name, Neuron, NeuronView};
use crate::signal::{batch_sum, saturate};
use vstd::prelude::*;

verus! {

/// Why an operation of the scheduler did not do its work.
#[derive(Clone, Copy, Debug, PartialEq, Eq, Structural)]
pub enum SchedulerError {
    /// The registry holds no unit with the given identifier.
    NotFound,
    /// The registry already holds a unit with the given identifier.
    DuplicateName,
    /// Units were still firing when the round budget was used up.
    RunawayCascade,
}

/// Whether the units stand in strictly ascending order of identifier, which
/// also means that no identifier occurs twice.
pub open spec fn sorted_by_name(pool: Seq<NeuronView>) -> bool {
    forall|i: int, j: int|
        0 <= i < j < pool.len() ==> name_before(#[trigger] pool[i].name, #[trigger] pool[j].name)
}

/// Whether the pool holds a unit called `id`.
pub open spec fn has_unit(pool: Seq<NeuronView>, id: Seq<char>) -> bool {
    exists|i: int| 0 <= i < pool.len() && #[trigger] pool[i].name == id
}

/// The place of the unit called `id` in a pool that holds one.
pub open spec fn place_of(pool: Seq<NeuronView>, id: Seq<char>) -> int {
    choose|i: int| 0 <= i < pool.len() && #[trigger] pool[i].name == id
}

/// How many units of the pool have an identifier that comes before `id`.
pub open spec fn rank(pool: Seq<NeuronView>, id: Seq<char>) -> int
    decreases pool.len(),
{
    if pool.len() == 0 {
        0
    } else {
        rank(pool.drop_last(), id) + if name_before(pool.last().name, id) {
            1int
        } else {
            0int
        }
    }
}

/// A resting unit without connections.
pub open spec fn resting_unit(id: Seq<char>, threshold: i64) -> NeuronView {
    NeuronView { name: id, threshold, potential: 0, outgoing: Seq::empty() }
}

/// The pool after the unit `unit` was registered.
pub open spec fn registered(pool: Seq<NeuronView>, unit: NeuronView) -> Seq<NeuronView> {
    pool.insert(rank(pool, unit.name), unit)
}

/// The pool after the unit called `pre` got a connection to `post`.
pub open spec fn connected_pool(
    pool: Seq<NeuronView>,
    pre: Seq<char>,
    post: Seq<char>,
    weight: i64,
) -> Seq<NeuronView> {
    Seq::new(
        pool.len(),
        |k: int|
            if pool[k].name == pre {
                pool[k].connected(post, weight)
            } else {
                pool[k]
            },
    )
}

/// In an ordered pool, the units before `id` are exactly the first
/// `rank(pool, id)` ones.
pub proof fn lemma_rank_is_split(pool: Seq<NeuronView>, id: Seq<char>, i: int)
    requires
        0 <= i <= pool.len(),
        forall|k: int| 0 <= k < i ==> name_before(#[trigger] pool[k].name, id),
        forall|k: int| i <= k < pool.len() ==> !name_before(#[trigger] pool[k].name, id),
    ensures
        rank(pool, id) == i,
    decreases pool.len(),
{
    if pool.len() > 0 {
        let rest = pool.drop_last();
        if i == pool.len() {
            lemma_rank_is_split(rest, id, i - 1);
        } else {
            lemma_rank_is_split(rest, id, i);
        }
    }
}

/// Registering a unit under an identifier that the pool does not hold keeps
/// the pool in order.
pub proof fn lemma_registered_sorted(pool: Seq<NeuronView>, unit: NeuronView)
    requires
        sorted_by_name(pool),
        !has_unit(pool, unit.name),
    ensures
        sorted_by_name(registered(pool, unit)),
        has_unit(registered(pool, unit), unit.name),
{
    let id = unit.name;
    let i = first_not_before(pool, id, 0);
    lemma_first_not_before(pool, id, 0);
    lemma_rank_is_split(pool, id, i);
    let after = pool.insert(i, unit);
    assert forall|a: int, b: int| 0 <= a < b < after.len() implies name_before(
        #[trigger] after[a].name,
        #[trigger] after[b].name,
    ) by {
        if b < i {
            assert(after[a] == pool[a] && after[b] == pool[b]);
        } else if b == i {
            assert(after[a] == pool[a]);
        } else if a < i {
            assert(after[a] == pool[a] && after[b] == pool[b - 1]);
            if a < b - 1 {
            } else {
                assert(false);
            }
        } else if a == i {
            assert(after[b] == pool[b - 1]);
            lemma_name_total(pool[b - 1].name, id);
            assert(pool[b - 1].name != id);
        } else {
            assert(after[a] == pool[a - 1] && after[b] == pool[b - 1]);
        }
    }
    assert(after[i].name == id);
}

/// The first place at or after `from` whose unit does not come before `id`.
pub open spec fn first_not_before(pool: Seq<NeuronView>, id: Seq<char>, from: int) -> int
    decreases pool.len() - from,
{
    if 0 <= from < pool.len() && name_before(pool[from].name, id) {
        first_not_before(pool, id, from + 1)
    } else {
        from
    }
}

/// In an ordered pool whose units before `from` all come before `id`, the
/// units split at `first_not_before`.
pub proof fn lemma_first_not_before(pool: Seq<NeuronView>, id: Seq<char>, from: int)
    requires
        sorted_by_name(pool),
        0 <= from <= pool.len(),
        forall|k: int| 0 <= k < from ==> name_before(#[trigger] pool[k].name, id),
    ensures
        from <= first_not_before(pool, id, from) <= pool.len(),
        forall|k: int|
            0 <= k < first_not_before(pool, id, from) ==> name_before(#[trigger] pool[k].name, id),
        forall|k: int|
            first_not_before(pool, id, from) <= k < pool.len() ==> !name_before(
                #[trigger] pool[k].name,
                id,
            ),
    decreases pool.len() - from,
{
    if from < pool.len() && name_before(pool[from].name, id) {
        lemma_first_not_before(pool, id, from + 1);
    } else {
        assert forall|k: int| from <= k < pool.len() implies !name_before(
            #[trigger] pool[k].name,
            id,
        ) by {
            if k > from && name_before(pool[k].name, id) {
                lemma_name_transitive(pool[from].name, pool[k].name, id);
            }
        }
    }
}

/// In an ordered pool no identifier occurs twice.
pub proof fn lemma_sorted_unique(pool: Seq<NeuronView>, i: int, j: int)
    requires
        sorted_by_name(pool),
        0 <= i < pool.len(),
        0 <= j < pool.len(),
        pool[i].name == pool[j].name,
    ensures
        i == j,
{
    lemma_name_irreflexive(pool[i].name);
    if i < j {
        assert(name_before(pool[i].name, pool[j].name));
    } else if j < i {
        assert(name_before(pool[j].name, pool[i].name));
    }
}

/// In an ordered pool that splits at `i` around `id`, a unit called `id` can
/// only stand at `i`.
pub proof fn lemma_split_has_unit(pool: Seq<NeuronView>, id: Seq<char>, i: int)
    requires
        sorted_by_name(pool),
        0 <= i <= pool.len(),
        forall|k: int| 0 <= k < i ==> name_before(#[trigger] pool[k].name, id),
        forall|k: int| i <= k < pool.len() ==> !name_before(#[trigger] pool[k].name, id),
    ensures
        has_unit(pool, id) <==> (i < pool.len() && pool[i].name == id),
{
    if has_unit(pool, id) {
        let j = place_of(pool, id);
        lemma_name_irreflexive(id);
        if j < i {
            assert(name_before(pool[j].name, id));
        } else if j > i {
            assert(name_before(pool[i].name, pool[j].name));
        }
    }
}

/// A pool that carries the names of an ordered pool, place by place, is in
/// order too.
pub proof fn lemma_same_names_sorted(before: Seq<NeuronView>, after: Seq<NeuronView>)
    requires
        sorted_by_name(before),
        after.len() == before.len(),
        forall|k: int| 0 <= k < before.len() ==> (#[trigger] after[k]).name == before[k].name,
    ensures
        sorted_by_name(after),
        forall|id: Seq<char>| has_unit(after, id) <==> has_unit(before, id),
{
    assert forall|i: int, j: int| 0 <= i < j < after.len() implies name_before(
        #[trigger] after[i].name,
        #[trigger] after[j].name,
    ) by {
        assert(name_before(before[i].name, before[j].name));
    }
    assert forall|id: Seq<char>| has_unit(after, id) <==> has_unit(before, id) by {
        if has_unit(after, id) {
            let k = place_of(after, id);
            assert(before[k].name == id);
        }
        if has_unit(before, id) {
            let k = place_of(before, id);
            assert(after[k].name == id);
        }
    }
}

/// The unit after it has taken in its batch of `incoming`, if it has one:
/// the sum of the batch is added to its potential.
pub open spec fn absorb(unit: NeuronView, incoming: Map<Seq<char>, Seq<i64>>) -> NeuronView {
    if incoming.dom().contains(unit.name) {
        unit.charged(saturate(batch_sum(incoming[unit.name])) as i64)
    } else {
        unit
    }
}

/// The pool after every unit has taken in its batch of `incoming`.
pub open spec fn absorbed(pool: Seq<NeuronView>, incoming: Map<Seq<char>, Seq<i64>>) -> Seq<
    NeuronView,
> {
    Seq::new(pool.len(), |k: int| absorb(pool[k], incoming))
}

/// The identifiers, in the pool's order, of the units that have a batch in
/// `incoming` and whose potential reaches their threshold once they have
/// taken it in.
pub open spec fn firing_names(pool: Seq<NeuronView>, incoming: Map<Seq<char>, Seq<i64>>) -> Seq<
    Seq<char>,
>
    decreases pool.len(),
{
    if pool.len() == 0 {
        Seq::empty()
    } else {
        let earlier = firing_names(pool.drop_last(), incoming);
        let unit = pool.last();
        if incoming.dom().contains(unit.name) && absorb(unit, incoming).fires() {
            earlier.push(unit.name)
        } else {
            earlier
        }
    }
}

/// How often `id` occurs in `ids`.
pub open spec fn count_of(ids: Seq<Seq<char>>, id: Seq<char>) -> nat
    decreases ids.len(),
{
    if ids.len() == 0 {
        0
    } else {
        count_of(ids.drop_last(), id) + if ids.last() == id {
            1nat
        } else {
            0nat
        }
    }
}

/// The connections of `outgoing`, `n` times over.
pub open spec fn repeated(outgoing: Seq<(Seq<char>, i64)>, n: nat) -> Seq<(Seq<char>, i64)>
    decreases n,
{
    if n == 0 {
        Seq::empty()
    } else {
        repeated(outgoing, (n - 1) as nat) + outgoing
    }
}

/// Every delivery that firing the units named in `ids` makes, in order: the
/// units are taken in the pool's order, and a unit named `n` times delivers
/// its connections `n` times over.
pub open spec fn emitted(pool: Seq<NeuronView>, ids: Seq<Seq<char>>) -> Seq<(Seq<char>, i64)>
    decreases pool.len(),
{
    if pool.len() == 0 {
        Seq::empty()
    } else {
        emitted(pool.drop_last(), ids) + repeated(
            pool.last().outgoing,
            count_of(ids, pool.last().name),
        )
    }
}

/// The signals that firing the units named in `ids` delivers, by target.
pub open spec fn collected(pool: Seq<NeuronView>, ids: Seq<Seq<char>>) -> Map<
    Seq<char>,
    Seq<i64>,
> {
    emit_into(Map::empty(), emitted(pool, ids))
}

/// The pool after the units named in `ids` have been reset.
pub open spec fn rested(pool: Seq<NeuronView>, ids: Seq<Seq<char>>) -> Seq<NeuronView> {
    Seq::new(
        pool.len(),
        |k: int|
            if count_of(ids, pool[k].name) > 0 {
                pool[k].discharged()
            } else {
                pool[k]
            },
    )
}

/// One round: the units named in `ids` fire, then every unit that was sent
/// a signal takes its batch in. The result is the pool after the round and
/// the identifiers of the units that fire next.
pub open spec fn round(pool: Seq<NeuronView>, ids: Seq<Seq<char>>) -> (
    Seq<NeuronView>,
    Seq<Seq<char>>,
) {
    let incoming = collected(pool, ids);
    let quiet = rested(pool, ids);
    (absorbed(quiet, incoming), firing_names(quiet, incoming))
}

/// A cascade of at most `budget` rounds that starts with the units named in
/// `ids` firing. The result is the pool at its end, the identifiers of the
/// units that were still to fire, and the number of rounds that were run.
pub open spec fn cascade(pool: Seq<NeuronView>, ids: Seq<Seq<char>>, budget: nat) -> (
    Seq<NeuronView>,
    Seq<Seq<char>>,
    nat,
)
    decreases budget,
{
    if ids.len() == 0 || budget == 0 {
        (pool, ids, 0)
    } else {
        let next = round(pool, ids);
        let end = cascade(next.0, next.1, (budget - 1) as nat);
        (end.0, end.1, end.2 + 1)
    }
}

/// The identifier and potential of every unit, in the pool's order.
pub open spec fn readings(pool: Seq<NeuronView>) -> Seq<(Seq<char>, i64)> {
    Seq::new(pool.len(), |k: int| (pool[k].name, pool[k].potential))
}

/// The rounds that a cascade may still take: the configured budget, or the
/// rounds that the round counter can still count if those are fewer.
pub open spec fn round_budget(s: SchedulerView) -> nat {
    if s.max_rounds <= u64::MAX - s.time {
        s.max_rounds as nat
    } else {
        (u64::MAX - s.time) as nat
    }
}

/// Counts how often `id` occurs in `ids`.
pub fn occurrences(ids: &Vec<String>, id: &String) -> (n: usize)
    ensures
        n == count_of(names_of(ids@), id@),
{
    let mut n: usize = 0;
    let mut i: usize = 0;
    while i < ids.len()
        invariant
            i <= ids@.len(),
            n <= i,
            n == count_of(names_of(ids@).take(i as int), id@),
        decreases ids@.len() - i,
    {
        proof {
            assert(names_of(ids@).take(i as int + 1).drop_last() =~= names_of(ids@).take(i as int));
        }
        if ids[i] == *id {
            n += 1;
        }
        i += 1;
    }
    proof {
        assert(names_of(ids@).take(i as int) =~= names_of(ids@));
    }
    n
}

/// What a scheduler is: its units in ascending order of identifier, the
/// number of rounds it has run, and the most rounds one cascade may take.
pub struct SchedulerView {
    pub pool: Seq<NeuronView>,
    pub time: u64,
    pub max_rounds: u64,
}

/// The registry of units together with the round counter.
pub struct Scheduler {
    pub(crate) pool: Vec<Neuron>,
    pub time: u64,
    pub(crate) max_rounds: u64,
}

impl View for Scheduler {
    type V = SchedulerView;

    open(crate) spec fn view(&self) -> SchedulerView {
        SchedulerView {
            pool: Seq::new(self.pool@.len(), |k: int| self.pool@[k]@),
            time: self.time,
            max_rounds: self.max_rounds,
        }
    }
}

impl Scheduler {
    /// The registry's invariant: its units are in ascending order of
    /// identifier, so no identifier occurs twice.
    pub open spec fn wf(&self) -> bool {
        sorted_by_name(self@.pool)
    }

    /// A scheduler without units, at round zero, with a budget of ten
    /// thousand rounds for each cascade.
    pub fn new() -> (r: Scheduler)
        ensures
            r.wf(),
            r@ == (SchedulerView { pool: Seq::<NeuronView>::empty(), time: 0, max_rounds: 10_000 }),
    {
        let r = Scheduler { pool: Vec::new(), time: 0, max_rounds: 10_000 };
        assert(r@.pool =~= Seq::<NeuronView>::empty());
        r
    }

    /// Sets the most rounds that one cascade may take.
    pub fn set_max_rounds(&mut self, max_rounds: u64)
        ensures
            final(self)@ == (SchedulerView { max_rounds, ..old(self)@ }),
    {
        self.max_rounds = max_rounds;
    }

    /// The most rounds that one cascade may take.
    pub fn max_rounds(&self) -> (r: u64)
        ensures
            r == self@.max_rounds,
    {
        self.max_rounds
    }

    /// The number of registered units.
    pub fn len(&self) -> (r: usize)
        ensures
            r == self@.pool.len(),
    {
        self.pool.len()
    }

    /// The place of the unit called `neuron_id`, if the registry holds one.
    pub fn position(&self, neuron_id: &String) -> (r: Option<usize>)
        ensures
            r is Some <==> has_unit(self@.pool, neuron_id@),
            r is Some ==> r->0 < self@.pool.len() && self@.pool[r->0 as int].name == neuron_id@,
    {
        let mut i: usize = 0;
        while i < self.pool.len()
            invariant
                i <= self.pool@.len(),
                forall|k: int| 0 <= k < i ==> (#[trigger] self@.pool[k]).name != neuron_id@,
            decreases self.pool@.len() - i,
        {
            if self.pool[i].name == *neuron_id {
                assert(self@.pool[i as int].name == neuron_id@);
                return Some(i);
            }
            i += 1;
        }
        None
    }
}

impl Scheduler {
    /// The unit called `neuron_id`, if the registry holds one.
    pub fn find_neuron_by_id(&self, neuron_id: &String) -> (r: Option<&Neuron>)
        requires
            self.wf(),
        ensures
            r is Some <==> has_unit(self@.pool, neuron_id@),
            r is Some ==> r->0@ == self@.pool[place_of(self@.pool, neuron_id@)],
    {
        match self.position(neuron_id) {
            Some(i) => {
                proof {
                    lemma_sorted_unique(self@.pool, i as int, place_of(self@.pool, neuron_id@));
                }
                Some(&self.pool[i])
            },
            None => None,
        }
    }

    /// The unit called `neuron_id`, if the registry holds one, for the caller
    /// to change. The registry stays in order as long as the caller leaves the
    /// unit's name alone.
    pub fn find_neuron_by_id_mut(&mut self, neuron_id: &String) -> (r: Option<&mut Neuron>)
        requires
            old(self).wf(),
        ensures
            r is Some <==> has_unit(old(self)@.pool, neuron_id@),
            r is None ==> final(self)@ == old(self)@,
            match r {
                Some(unit) => {
                    &&& unit@ == old(self)@.pool[place_of(old(self)@.pool, neuron_id@)]
                    &&& final(self)@.pool =~= old(self)@.pool.update(
                        place_of(old(self)@.pool, neuron_id@),
                        final(unit)@,
                    )
                    &&& final(self)@.time == old(self)@.time
                    &&& final(self)@.max_rounds == old(self)@.max_rounds
                },
                None => true,
            },
    {
        match self.position(neuron_id) {
            Some(i) => {
                proof {
                    lemma_sorted_unique(self@.pool, i as int, place_of(self@.pool, neuron_id@));
                }
                Some(&mut self.pool[i])
            },
            None => None,
        }
    }

    /// Removes the unit called `neuron_id` from the registry and hands it to
    /// the caller, if the registry holds one.
    pub fn take_neuron_by_id(&mut self, neuron_id: &String) -> (r: Option<Neuron>)
        requires
            old(self).wf(),
        ensures
            final(self).wf(),
            r is Some <==> has_unit(old(self)@.pool, neuron_id@),
            r is None ==> final(self)@ == old(self)@,
            r is Some ==> r->0@ == old(self)@.pool[place_of(old(self)@.pool, neuron_id@)],
            r is Some ==> final(self)@ == (SchedulerView {
                pool: old(self)@.pool.remove(place_of(old(self)@.pool, neuron_id@)),
                ..old(self)@
            }),
    {
        match self.position(neuron_id) {
            Some(i) => {
                proof {
                    lemma_sorted_unique(self@.pool, i as int, place_of(self@.pool, neuron_id@));
                }
                let unit = self.pool.remove(i);
                proof {
                    assert(self@.pool =~= old(self)@.pool.remove(i as int));
                }
                Some(unit)
            },
            None => None,
        }
    }

    /// Registers `unit` under its own name. The name must be new to the
    /// registry: where it is not, nothing changes and the name is reported as
    /// a duplicate. Returns the unit's identifier.
    pub fn register(&mut self, unit: Neuron) -> (r: Result<String, SchedulerError>)
        requires
            old(self).wf(),
        ensures
            final(self).wf(),
            r is Ok <==> !has_unit(old(self)@.pool, unit@.name),
            r is Ok ==> r->Ok_0@ == unit@.name && final(self)@ == (SchedulerView {
                pool: registered(old(self)@.pool, unit@),
                ..old(self)@
            }),
            r is Err ==> r->Err_0 == SchedulerError::DuplicateName && final(self)@ == old(self)@,
    {
        let ghost name = unit@.name;
        let mut i: usize = 0;
        while i < self.pool.len() && name_precedes(&self.pool[i].name, &unit.name)
            invariant
                i <= self.pool@.len(),
                name == unit@.name,
                forall|k: int| 0 <= k < i ==> name_before(#[trigger] self@.pool[k].name, name),
            decreases self.pool@.len() - i,
        {
            i += 1;
        }
        proof {
            assert forall|k: int| i <= k < self@.pool.len() implies !name_before(
                #[trigger] self@.pool[k].name,
                name,
            ) by {
                if k > i && name_before(self@.pool[k].name, name) {
                    lemma_name_transitive(self@.pool[i as int].name, self@.pool[k].name, name);
                }
            }
            lemma_split_has_unit(self@.pool, name, i as int);
            lemma_rank_is_split(self@.pool, name, i as int);
        }
        if i < self.pool.len() && self.pool[i].name == unit.name {
            return Err(SchedulerError::DuplicateName);
        }
        let id = unit.name.clone();
        self.pool.insert(i, unit);
        proof {
            assert(self@.pool =~= registered(old(self)@.pool, unit@));
            lemma_registered_sorted(old(self)@.pool, unit@);
        }
        Ok(id)
    }

    /// Registers a resting unit called `name`. The name must be new to the
    /// registry: where it is not, nothing changes and the name is reported as
    /// a duplicate.
    pub fn add_named(&mut self, threshold: i64, name: String) -> (r: Result<String, SchedulerError>)
        requires
            old(self).wf(),
        ensures
            final(self).wf(),
            r is Ok <==> !has_unit(old(self)@.pool, name@),
            r is Ok ==> r->Ok_0@ == name@ && final(self)@ == (SchedulerView {
                pool: registered(old(self)@.pool, resting_unit(name@, threshold)),
                ..old(self)@
            }),
            r is Err ==> r->Err_0 == SchedulerError::DuplicateName && final(self)@ == old(self)@,
    {
        self.register(Neuron::named(threshold, name))
    }

    /// Registers a resting unit and returns its identifier: `name` where one
    /// is given, a freshly generated identifier otherwise. An identifier that
    /// the registry already holds is reported as a duplicate, and nothing
    /// changes.
    pub fn add_neuron(&mut self, threshold: i64, name: Option<String>) -> (r: Result<
        String,
        SchedulerError,
    >)
        requires
            old(self).wf(),
        ensures
            final(self).wf(),
            name is Some ==> (r is Ok <==> !has_unit(old(self)@.pool, name->0@)),
            name is Some && r is Ok ==> r->Ok_0@ == name->0@,
            r is Ok ==> !has_unit(old(self)@.pool, r->Ok_0@) && final(self)@ == (SchedulerView {
                pool: registered(old(self)@.pool, resting_unit(r->Ok_0@, threshold)),
                ..old(self)@
            }),
            r is Err ==> r->Err_0 == SchedulerError::DuplicateName && final(self)@ == old(self)@,
    {
        match name {
            Some(given) => self.add_named(threshold, given),
            None => self.add_named(threshold, fresh_name()),
        }
    }

    /// Gives the unit called `pre_id` a connection to `post_id`, with weight
    /// `strength`, or zero where none is given. Whether `post_id` names a
    /// unit is not asked. Without a unit called `pre_id` nothing changes.
    pub fn connect_neurons(
        &mut self,
        pre_id: &String,
        post_id: &String,
        strength: Option<i64>,
    ) -> (r: Result<(), SchedulerError>)
        requires
            old(self).wf(),
        ensures
            final(self).wf(),
            r is Ok <==> has_unit(old(self)@.pool, pre_id@),
            r is Ok ==> final(self)@ == (SchedulerView {
                pool: connected_pool(
                    old(self)@.pool,
                    pre_id@,
                    post_id@,
                    match strength {
                        Some(w) => w,
                        None => 0,
                    },
                ),
                ..old(self)@
            }),
            r is Err ==> r->Err_0 == SchedulerError::NotFound && final(self)@ == old(self)@,
    {
        match self.position(pre_id) {
            Some(i) => {
                self.pool[i].connect_to(post_id.clone(), strength);
                proof {
                    let w: i64 = match strength {
                        Some(w) => w,
                        None => 0,
                    };
                    let target = connected_pool(old(self)@.pool, pre_id@, post_id@, w);
                    assert forall|k: int| 0 <= k < target.len() implies self@.pool[k]
                        == target[k] by {
                        if k != i && old(self)@.pool[k].name == pre_id@ {
                            lemma_sorted_unique(old(self)@.pool, i as int, k);
                        }
                    }
                    assert(self@.pool =~= target);
                    lemma_same_names_sorted(old(self)@.pool, self@.pool);
                }
                Ok(())
            },
            None => Err(SchedulerError::NotFound),
        }
    }

    /// Lets every unit take in the batch that `activated_neurons` holds for
    /// it: the sum of the batch is added to the unit's potential. Units are
    /// taken in the registry's order; a batch for an identifier that the
    /// registry does not hold is passed over. Returns the identifiers of the
    /// units that had a batch and whose potential now reaches their
    /// threshold, in the registry's order.
    pub fn prepare_next_layer(&mut self, activated_neurons: Inbox) -> (r: Vec<String>)
        requires
            old(self).wf(),
        ensures
            final(self).wf(),
            final(self)@ == (SchedulerView {
                pool: absorbed(old(self)@.pool, activated_neurons@),
                ..old(self)@
            }),
            names_of(r@) == firing_names(old(self)@.pool, activated_neurons@),
    {
        let mut next: Vec<String> = Vec::new();
        let mut i: usize = 0;
        while i < self.pool.len()
            invariant
                i <= self.pool@.len(),
                self@.pool.len() == old(self)@.pool.len(),
                self@.time == old(self)@.time,
                self@.max_rounds == old(self)@.max_rounds,
                forall|k: int|
                    0 <= k < i ==> #[trigger] self@.pool[k] == absorb(
                        old(self)@.pool[k],
                        activated_neurons@,
                    ),
                forall|k: int|
                    i <= k < self@.pool.len() ==> #[trigger] self@.pool[k] == old(self)@.pool[k],
                names_of(next@) == firing_names(old(self)@.pool.take(i as int), activated_neurons@),
            decreases self.pool@.len() - i,
        {
            proof {
                assert(old(self)@.pool.take(i as int + 1).drop_last() =~= old(self)@.pool.take(
                    i as int,
                ));
            }
            let ghost fired_before = names_of(next@);
            let ghost pool_before = self@.pool;
            match activated_neurons.batch(&self.pool[i].name) {
                Some(signals) => {
                    match self.pool[i].process_signals(&signals) {
                        Some(diff) => {
                            self.pool[i].update_potential(diff);
                            proof {
                                assert(self@.pool =~= pool_before.update(
                                    i as int,
                                    pool_before[i as int].charged(diff),
                                ));
                            }
                            if self.pool[i].potential >= self.pool[i].threshold {
                                let id = self.pool[i].name.clone();
                                next.push(id);
                                proof {
                                    assert(id@ == old(self)@.pool[i as int].name);
                                    assert(names_of(next@) =~= fired_before.push(id@));
                                }
                            }
                        },
                        None => {},
                    }
                },
                None => {},
            }
            i += 1;
        }
        proof {
            assert(old(self)@.pool.take(i as int) =~= old(self)@.pool);
            assert(self@.pool =~= absorbed(old(self)@.pool, activated_neurons@));
            lemma_same_names_sorted(old(self)@.pool, self@.pool);
        }
        next
    }

    /// Fires the units named in `activated_neurons`: each of them is reset to
    /// potential zero and delivers the weights of its connections. Units are
    /// taken in the registry's order whatever the order of the identifiers;
    /// a unit named several times delivers that many times over; an
    /// identifier that the registry does not hold is passed over. Returns the
    /// signals delivered, by target.
    pub fn discharge(&mut self, activated_neurons: &Vec<String>) -> (r: Inbox)
        requires
            old(self).wf(),
        ensures
            final(self).wf(),
            final(self)@ == (SchedulerView {
                pool: rested(old(self)@.pool, names_of(activated_neurons@)),
                ..old(self)@
            }),
            r@ == collected(old(self)@.pool, names_of(activated_neurons@)),
            forall|k: int|
                0 <= k < final(self)@.pool.len() && count_of(
                    names_of(activated_neurons@),
                    old(self)@.pool[k].name,
                ) > 0 ==> (#[trigger] final(self)@.pool[k]).potential == 0,
    {
        let ghost ids = names_of(activated_neurons@);
        let mut inbox = Inbox::new();
        let mut k: usize = 0;
        proof {
            assert(old(self)@.pool.take(0) =~= Seq::<NeuronView>::empty());
        }
        while k < self.pool.len()
            invariant
                k <= self.pool@.len(),
                ids == names_of(activated_neurons@),
                self@.pool.len() == old(self)@.pool.len(),
                self@.time == old(self)@.time,
                self@.max_rounds == old(self)@.max_rounds,
                forall|j: int|
                    0 <= j < k ==> #[trigger] self@.pool[j] == rested(old(self)@.pool, ids)[j],
                forall|j: int|
                    k <= j < self@.pool.len() ==> #[trigger] self@.pool[j] == old(self)@.pool[j],
                inbox@ == emit_into(Map::empty(), emitted(old(self)@.pool.take(k as int), ids)),
            decreases self.pool@.len() - k,
        {
            let ghost unit = old(self)@.pool[k as int];
            let ghost so_far = emitted(old(self)@.pool.take(k as int), ids);
            proof {
                assert(old(self)@.pool.take(k as int + 1).drop_last() =~= old(self)@.pool.take(
                    k as int,
                ));
            }
            proof {
                assert(self@.pool[k as int] == unit);
                assert(old(self)@.pool.take(k as int + 1).last() == unit);
            }
            let n = occurrences(activated_neurons, &self.pool[k].name);
            if n > 0 {
                let ghost pool_before = self@.pool;
                self.pool[k].potential = 0;
                proof {
                    assert(self@.pool =~= pool_before.update(k as int, unit.discharged()));
                    assert(so_far + repeated(unit.outgoing, 0) =~= so_far);
                }
                let mut j: usize = 0;
                while j < n
                    invariant
                        j <= n,
                        k < self.pool@.len(),
                        pool_before.len() == self.pool@.len(),
                        self@.pool == pool_before.update(k as int, unit.discharged()),
                        self@.time == old(self)@.time,
                        self@.max_rounds == old(self)@.max_rounds,
                        inbox@ == emit_into(
                            Map::empty(),
                            so_far + repeated(unit.outgoing, j as nat),
                        ),
                    decreases n - j,
                {
                    let ghost pool_mid = self@.pool;
                    proof {
                        assert(pool_mid[k as int].outgoing == unit.outgoing);
                    }
                    self.pool[k].transmit(&mut inbox);
                    proof {
                        assert(self@.pool =~= pool_mid);
                        crate::inbox::lemma_emit_into_concat(
                            Map::empty(),
                            so_far + repeated(unit.outgoing, j as nat),
                            unit.outgoing,
                        );
                        assert((so_far + repeated(unit.outgoing, j as nat)) + unit.outgoing
                            =~= so_far + repeated(unit.outgoing, (j + 1) as nat));
                    }
                    j += 1;
                }
            } else {
                proof {
                    assert(so_far + repeated(unit.outgoing, 0) =~= so_far);
                }
            }
            k += 1;
        }
        proof {
            assert(old(self)@.pool.take(k as int) =~= old(self)@.pool);
            assert(self@.pool =~= rested(old(self)@.pool, ids));
            lemma_same_names_sorted(old(self)@.pool, self@.pool);
        }
        inbox
    }

    /// Runs a cascade: the units named in `activated_neurons` fire, the
    /// round counter advances, the units that were sent signals take them
    /// in, and those that reach their threshold fire in the next round. The
    /// cascade ends when no unit is left to fire, and the number of rounds it
    /// took is returned. It is cut short, and reported as runaway, when units
    /// are still to fire after the round budget is used up; the registry then
    /// stands as the last round left it.
    pub fn send_action_potential(&mut self, activated_neurons: Vec<String>) -> (r: Result<
        u64,
        SchedulerError,
    >)
        requires
            old(self).wf(),
        ensures
            final(self).wf(),
            final(self)@.max_rounds == old(self)@.max_rounds,
            ({
                let end = cascade(
                    old(self)@.pool,
                    names_of(activated_neurons@),
                    round_budget(old(self)@),
                );
                &&& final(self)@.pool == end.0
                &&& final(self)@.time == old(self)@.time + end.2
                &&& r is Ok <==> end.1.len() == 0
                &&& r is Ok ==> r->Ok_0 == end.2
                &&& r is Err ==> r->Err_0 == SchedulerError::RunawayCascade
            }),
    {
        let budget: u64 = if self.max_rounds <= u64::MAX - self.time {
            self.max_rounds
        } else {
            u64::MAX - self.time
        };
        let ghost start = names_of(activated_neurons@);
        let mut current = activated_neurons;
        let mut rounds: u64 = 0;
        while current.len() > 0 && rounds < budget
            invariant
                self.wf(),
                rounds <= budget,
                budget == round_budget(old(self)@),
                self@.time == old(self)@.time + rounds,
                self@.max_rounds == old(self)@.max_rounds,
                ({
                    let whole = cascade(old(self)@.pool, start, budget as nat);
                    let rest = cascade(self@.pool, names_of(current@), (budget - rounds) as nat);
                    whole.0 == rest.0 && whole.1 == rest.1 && whole.2 == rest.2 + rounds
                }),
            decreases budget - rounds,
        {
            let inbox = self.discharge(&current);
            self.time = self.time + 1;
            current = self.prepare_next_layer(inbox);
            rounds += 1;
        }
        if current.len() == 0 {
            Ok(rounds)
        } else {
            Err(SchedulerError::RunawayCascade)
        }
    }

    /// The state of the registry as a diagnostic would print it: for every
    /// unit, in the registry's order, its identifier and its potential.
    pub fn print_pool(&self) -> (r: Vec<(String, i64)>)
        ensures
            Seq::new(r@.len(), |k: int| (r@[k].0@, r@[k].1)) == readings(self@.pool),
    {
        let mut out: Vec<(String, i64)> = Vec::new();
        let mut i: usize = 0;
        while i < self.pool.len()
            invariant
                i <= self.pool@.len(),
                out@.len() == i,
                forall|k: int|
                    0 <= k < i ==> (#[trigger] out@[k]).0@ == self@.pool[k].name && out@[k].1
                        == self@.pool[k].potential,
            decreases self.pool@.len() - i,
        {
            out.push((self.pool[i].name.clone(), self.pool[i].potential));
            i += 1;
        }
        proof {
            assert(Seq::new(out@.len(), |k: int| (out@[k].0@, out@[k].1)) =~= readings(
                self@.pool,
            ));
        }
        out
    }
}

} // verus!
