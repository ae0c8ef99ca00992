//! What holds of every registry and every round.

use crate::inbox::emit_into;
use crate::neuron::NeuronView;
use crate::scheduler::{
    absorb, cascade, collected, connected_pool, count_of, emitted, firing_names,
    lemma_sorted_unique, repeated, rested, round, sorted_by_name,
};
use crate::signal::batch_sum;
use crate::snapshot::{lemma_rebuilt_sorted, rebuilt};
use vstd::prelude::*;

verus! {

/// A unit is among those that fire next exactly if it was sent a batch and
/// its potential, once the batch is taken in, reaches its threshold.
pub proof fn theorem_fires_iff_threshold_reached(
    pool: Seq<NeuronView>,
    incoming: Map<Seq<char>, Seq<i64>>,
    id: Seq<char>,
)
    ensures
        firing_names(pool, incoming).contains(id) <==> exists|k: int|
            0 <= k < pool.len() && (#[trigger] pool[k]).name == id && incoming.dom().contains(id)
                && absorb(pool[k], incoming).fires(),
    decreases pool.len(),
{
    let fired = firing_names(pool, incoming);
    if pool.len() > 0 {
        let front = pool.drop_last();
        let earlier = firing_names(front, incoming);
        let unit = pool.last();
        theorem_fires_iff_threshold_reached(front, incoming, id);
        let last_fires = incoming.dom().contains(unit.name) && absorb(unit, incoming).fires();
        if fired.contains(id) {
            let at = choose|j: int| 0 <= j < fired.len() && fired[j] == id;
            if last_fires && at == earlier.len() {
                assert(pool[pool.len() - 1].name == id);
            } else {
                assert(earlier[at] == id);
                let k = choose|k: int|
                    0 <= k < front.len() && (#[trigger] front[k]).name == id
                        && incoming.dom().contains(id) && absorb(front[k], incoming).fires();
                assert(pool[k] == front[k]);
            }
        }
        if exists|k: int|
            0 <= k < pool.len() && (#[trigger] pool[k]).name == id && incoming.dom().contains(id)
                && absorb(pool[k], incoming).fires() {
            let k = choose|k: int|
                0 <= k < pool.len() && (#[trigger] pool[k]).name == id && incoming.dom().contains(
                    id,
                ) && absorb(pool[k], incoming).fires();
            if k == pool.len() - 1 {
                assert(fired[earlier.len() as int] == id);
            } else {
                assert(front[k] == pool[k]);
                let at = choose|j: int| 0 <= j < earlier.len() && earlier[j] == id;
                assert(fired[at] == id);
            }
        }
    }
}

/// A resting unit whose threshold is zero or less fires as soon as it is
/// sent a batch that sums to zero, an empty one included.
pub proof fn theorem_threshold_at_most_zero_fires_at_once(
    pool: Seq<NeuronView>,
    incoming: Map<Seq<char>, Seq<i64>>,
    k: int,
)
    requires
        0 <= k < pool.len(),
        pool[k].potential == 0,
        pool[k].threshold <= 0,
        incoming.dom().contains(pool[k].name),
        batch_sum(incoming[pool[k].name]) == 0,
    ensures
        firing_names(pool, incoming).contains(pool[k].name),
{
    theorem_fires_iff_threshold_reached(pool, incoming, pool[k].name);
}

/// Where none of the units is named in `ids`, firing delivers nothing.
pub proof fn lemma_emitted_none(pool: Seq<NeuronView>, ids: Seq<Seq<char>>)
    requires
        forall|k: int| 0 <= k < pool.len() ==> count_of(ids, #[trigger] pool[k].name) == 0,
    ensures
        emitted(pool, ids) == Seq::<(Seq<char>, i64)>::empty(),
    decreases pool.len(),
{
    if pool.len() > 0 {
        let front = pool.drop_last();
        assert forall|k: int| 0 <= k < front.len() implies count_of(ids, #[trigger] front[k].name)
            == 0 by {
            assert(front[k] == pool[k]);
        }
        lemma_emitted_none(front, ids);
        assert(count_of(ids, pool[pool.len() - 1].name) == 0);
        assert(emitted(pool, ids) =~= Seq::<(Seq<char>, i64)>::empty());
    }
}

/// Where only the unit at `i` is named in `ids`, firing delivers that
/// unit's connections, once for each time it is named.
pub proof fn lemma_emitted_single(pool: Seq<NeuronView>, ids: Seq<Seq<char>>, i: int)
    requires
        0 <= i < pool.len(),
        forall|k: int|
            0 <= k < pool.len() && k != i ==> count_of(ids, #[trigger] pool[k].name) == 0,
    ensures
        emitted(pool, ids) == repeated(pool[i].outgoing, count_of(ids, pool[i].name)),
    decreases pool.len(),
{
    let front = pool.drop_last();
    assert forall|k: int| 0 <= k < front.len() && k != i implies count_of(
        ids,
        #[trigger] front[k].name,
    ) == 0 by {
        assert(front[k] == pool[k]);
    }
    if i == pool.len() - 1 {
        lemma_emitted_none(front, ids);
        assert(emitted(pool, ids) =~= repeated(pool[i].outgoing, count_of(ids, pool[i].name)));
    } else {
        lemma_emitted_single(front, ids, i);
        assert(front[i] == pool[i]);
        assert(count_of(ids, pool[pool.len() - 1].name) == 0);
        assert(emitted(pool, ids) =~= repeated(pool[i].outgoing, count_of(ids, pool[i].name)));
    }
}

/// A unit without connections that is connected to `target` with `weight`
/// and then fired delivers exactly `weight` to `target`, and nothing else.
/// Named twice among the units to fire, it delivers twice: a repeated
/// identifier counts again.
pub proof fn theorem_connection_delivers_its_weight(
    pool: Seq<NeuronView>,
    i: int,
    target: Seq<char>,
    weight: i64,
)
    requires
        sorted_by_name(pool),
        0 <= i < pool.len(),
        pool[i].outgoing.len() == 0,
    ensures
        collected(connected_pool(pool, pool[i].name, target, weight), seq![pool[i].name])
            == Map::<Seq<char>, Seq<i64>>::empty().insert(target, seq![weight]),
        collected(
            connected_pool(pool, pool[i].name, target, weight),
            seq![pool[i].name, pool[i].name],
        ) == Map::<Seq<char>, Seq<i64>>::empty().insert(target, seq![weight, weight]),
{
    let a = pool[i].name;
    let joined = connected_pool(pool, a, target, weight);
    let once = seq![a];
    let twice = seq![a, a];
    let link = seq![(target, weight)];
    reveal_with_fuel(count_of, 3);
    assert(joined[i].outgoing =~= link);
    assert(once.drop_last() =~= Seq::<Seq<char>>::empty());
    assert(twice.drop_last() =~= once);
    assert(once.last() == a && twice.last() == a);
    assert forall|k: int| 0 <= k < joined.len() && k != i implies count_of(
        once,
        #[trigger] joined[k].name,
    ) == 0 && count_of(twice, joined[k].name) == 0 by {
        if pool[k].name == a {
            lemma_sorted_unique(pool, i, k);
        }
    }
    assert(count_of(once, a) == 1);
    assert(count_of(twice, a) == 2);
    lemma_emitted_single(joined, once, i);
    lemma_emitted_single(joined, twice, i);
    assert(repeated(link, 0) =~= Seq::<(Seq<char>, i64)>::empty());
    assert(repeated(link, 1) =~= link);
    assert(repeated(link, 2) =~= seq![(target, weight), (target, weight)]);
    let empty = Map::<Seq<char>, Seq<i64>>::empty();
    assert(link.drop_last() =~= Seq::<(Seq<char>, i64)>::empty());
    assert(emit_into(empty, link.drop_last()) == empty);
    assert(Seq::<i64>::empty().push(weight) =~= seq![weight]);
    assert(emit_into(empty, link) =~= empty.insert(target, seq![weight]));
    let both = seq![(target, weight), (target, weight)];
    assert(both.drop_last() =~= link);
    assert(seq![weight].push(weight) =~= seq![weight, weight]);
    assert(emit_into(empty, both) =~= empty.insert(target, seq![weight, weight]));
}

/// A unit that fires is at potential zero before the round's signals are
/// taken in; a unit that does not fire keeps its potential.
pub proof fn theorem_fired_unit_rests(pool: Seq<NeuronView>, ids: Seq<Seq<char>>, k: int)
    requires
        0 <= k < pool.len(),
    ensures
        count_of(ids, pool[k].name) > 0 ==> rested(pool, ids)[k].potential == 0,
        count_of(ids, pool[k].name) == 0 ==> rested(pool, ids)[k] == pool[k],
{
}

/// A cascade never takes more rounds than its budget.
pub proof fn theorem_cascade_within_budget(
    pool: Seq<NeuronView>,
    ids: Seq<Seq<char>>,
    budget: nat,
)
    ensures
        cascade(pool, ids, budget).2 <= budget,
        cascade(pool, ids, budget).1.len() > 0 ==> cascade(pool, ids, budget).2 == budget,
    decreases budget,
{
    if ids.len() != 0 && budget != 0 {
        let next = round(pool, ids);
        theorem_cascade_within_budget(next.0, next.1, (budget - 1) as nat);
    }
}

/// A registry that is written down unit by unit and built again from the
/// records is the same registry: one round run on it delivers the same
/// signals and leaves the same units.
pub proof fn theorem_rebuilt_registry_fires_alike(pool: Seq<NeuronView>, ids: Seq<Seq<char>>)
    requires
        sorted_by_name(pool),
    ensures
        rebuilt(pool) == Some(pool),
        collected(rebuilt(pool)->0, ids) == collected(pool, ids),
        round(rebuilt(pool)->0, ids) == round(pool, ids),
{
    lemma_rebuilt_sorted(pool);
}

} // verus!
