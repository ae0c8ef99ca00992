//! The signals that one round delivers, grouped by the unit they are for.

use vstd::prelude::*;

verus! {

/// The batch that `m` holds for `id`: empty where it holds none.
pub open spec fn batch_of(m: Map<Seq<char>, Seq<i64>>, id: Seq<char>) -> Seq<i64> {
    if m.dom().contains(id) {
        m[id]
    } else {
        Seq::empty()
    }
}

/// `m` after one more signal has arrived for `id`: the signal is appended to
/// the batch of `id`, which is created if there was none.
pub open spec fn deliver(m: Map<Seq<char>, Seq<i64>>, id: Seq<char>, signal: i64) -> Map<
    Seq<char>,
    Seq<i64>,
> {
    m.insert(id, batch_of(m, id).push(signal))
}

/// `m` after every connection of `outgoing` has delivered its weight to its
/// target, first connection first.
pub open spec fn emit_into(m: Map<Seq<char>, Seq<i64>>, outgoing: Seq<(Seq<char>, i64)>) -> Map<
    Seq<char>,
    Seq<i64>,
>
    decreases outgoing.len(),
{
    if outgoing.len() == 0 {
        m
    } else {
        deliver(emit_into(m, outgoing.drop_last()), outgoing.last().0, outgoing.last().1)
    }
}

/// The weights that the connections of `outgoing` carry to `id`, in order.
pub open spec fn weights_to(outgoing: Seq<(Seq<char>, i64)>, id: Seq<char>) -> Seq<i64>
    decreases outgoing.len(),
{
    if outgoing.len() == 0 {
        Seq::empty()
    } else if outgoing.last().0 == id {
        weights_to(outgoing.drop_last(), id).push(outgoing.last().1)
    } else {
        weights_to(outgoing.drop_last(), id)
    }
}

/// Every batch of `m` holds at least one signal.
pub open spec fn batches_nonempty(m: Map<Seq<char>, Seq<i64>>) -> bool {
    forall|id: Seq<char>| m.dom().contains(id) ==> (#[trigger] m[id]).len() > 0
}

/// Emitting appends to the batch of each target the weights sent to it, and
/// touches no other batch.
pub proof fn lemma_emit_into_batch(
    m: Map<Seq<char>, Seq<i64>>,
    outgoing: Seq<(Seq<char>, i64)>,
    id: Seq<char>,
)
    ensures
        batch_of(emit_into(m, outgoing), id) == batch_of(m, id) + weights_to(outgoing, id),
        emit_into(m, outgoing).dom().contains(id) <==> m.dom().contains(id) || weights_to(
            outgoing,
            id,
        ).len() > 0,
    decreases outgoing.len(),
{
    if outgoing.len() == 0 {
        assert(batch_of(m, id) + Seq::<i64>::empty() =~= batch_of(m, id));
    } else {
        let rest = outgoing.drop_last();
        lemma_emit_into_batch(m, rest, id);
        if outgoing.last().0 == id {
            assert((batch_of(m, id) + weights_to(rest, id)).push(outgoing.last().1) =~= batch_of(
                m,
                id,
            ) + weights_to(outgoing, id));
        }
    }
}

/// Emitting into a map without empty batches leaves none.
pub proof fn lemma_emit_into_nonempty(m: Map<Seq<char>, Seq<i64>>, outgoing: Seq<(Seq<char>, i64)>)
    requires
        batches_nonempty(m),
    ensures
        batches_nonempty(emit_into(m, outgoing)),
    decreases outgoing.len(),
{
    if outgoing.len() > 0 {
        lemma_emit_into_nonempty(m, outgoing.drop_last());
    }
}

/// Emitting two runs of connections one after the other is emitting their
/// concatenation.
pub proof fn lemma_emit_into_concat(
    m: Map<Seq<char>, Seq<i64>>,
    first: Seq<(Seq<char>, i64)>,
    second: Seq<(Seq<char>, i64)>,
)
    ensures
        emit_into(emit_into(m, first), second) == emit_into(m, first + second),
    decreases second.len(),
{
    if second.len() == 0 {
        assert(first + second =~= first);
    } else {
        assert((first + second).drop_last() =~= first + second.drop_last());
        lemma_emit_into_concat(m, first, second.drop_last());
    }
}

/// Incoming signals of one round: for each unit that was sent any, the batch
/// of magnitudes in the order of their arrival.
pub struct Inbox {
    pub(crate) log: Vec<(String, i64)>,
}

impl Inbox {
    /// The deliveries so far, oldest first.
    pub open(crate) spec fn deliveries(&self) -> Seq<(Seq<char>, i64)> {
        Seq::new(self.log@.len(), |k: int| (self.log@[k].0@, self.log@[k].1))
    }
}

impl View for Inbox {
    type V = Map<Seq<char>, Seq<i64>>;

    open(crate) spec fn view(&self) -> Map<Seq<char>, Seq<i64>> {
        emit_into(Map::empty(), self.deliveries())
    }
}

impl Inbox {
    /// An inbox that holds no signal.
    pub fn new() -> (r: Inbox)
        ensures
            r@ == Map::<Seq<char>, Seq<i64>>::empty(),
    {
        Inbox { log: Vec::new() }
    }

    /// No batch of an inbox is empty: a unit either has signals or no entry.
    pub proof fn lemma_batches_nonempty(&self)
        ensures
            batches_nonempty(self@),
    {
        lemma_emit_into_nonempty(Map::empty(), self.deliveries());
    }

    /// Delivers one signal to the unit `id`.
    pub fn push(&mut self, id: String, signal: i64)
        ensures
            final(self)@ == deliver(old(self)@, id@, signal),
    {
        let ghost before = self.deliveries();
        self.log.push((id, signal));
        proof {
            assert(self.deliveries().drop_last() =~= before);
        }
    }

    /// Whether no signal has been delivered.
    pub fn is_empty(&self) -> (r: bool)
        ensures
            r == (self@.dom() =~= Set::<Seq<char>>::empty()),
    {
        proof {
            if self.log@.len() > 0 {
                let d = self.deliveries();
                assert(self@.dom().contains(d.last().0));
            }
        }
        self.log.len() == 0
    }

    /// The batch delivered to the unit `id`, if any signal was.
    pub fn batch(&self, id: &String) -> (r: Option<Vec<i64>>)
        ensures
            r is Some <==> self@.dom().contains(id@),
            r is Some ==> r->0@ == self@[id@],
    {
        let mut out: Vec<i64> = Vec::new();
        let mut i: usize = 0;
        while i < self.log.len()
            invariant
                i <= self.log@.len(),
                out@ == weights_to(self.deliveries().take(i as int), id@),
            decreases self.log@.len() - i,
        {
            proof {
                assert(self.deliveries().take(i as int + 1).drop_last() =~= self.deliveries().take(
                    i as int,
                ));
            }
            if self.log[i].0 == *id {
                out.push(self.log[i].1);
            }
            i += 1;
        }
        proof {
            assert(self.deliveries().take(i as int) =~= self.deliveries());
            lemma_emit_into_batch(Map::empty(), self.deliveries(), id@);
            assert(Seq::<i64>::empty() + weights_to(self.deliveries(), id@) =~= weights_to(
                self.deliveries(),
                id@,
            ));
        }
        if out.len() == 0 {
            None
        } else {
            Some(out)
        }
    }
}

} // verus!
