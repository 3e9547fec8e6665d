//! What holds of a channel over a whole run.
//!
//! A run is a sequence of steps: attempts to send and attempts to receive,
//! each receive made by one consumer with so many handles alive. The queue
//! after a run, what its sends got in and what its receives served are
//! functions of the run; the laws below relate them.

use vstd::prelude::*;
use vstd::set_lib::lemma_int_range;
use vstd::set_lib::lemma_len_subset;
use vstd::set_lib::lemma_subset_equality;
use vstd::set_lib::set_int_range;
use crate::queue::Queue;

verus! {

/// One step of a run.
pub enum Step<T> {
    /// An attempt to send `item`.
    Send { item: T },
    /// An attempt to receive, made by consumer `who` while `producers`
    /// senders and `consumers` receivers are alive.
    Receive { who: int, producers: nat, consumers: nat },
}

/// The queue after one step.
pub open spec fn step<T>(queue: Queue<T>, step: Step<T>) -> Queue<T> {
    match step {
        Step::Send { item } => queue.send(item),
        Step::Receive { producers, consumers, .. } => queue.receive(producers, consumers),
    }
}

/// The queue after the steps of `trace`, taken in order from `start`.
pub open spec fn run<T>(start: Queue<T>, trace: Seq<Step<T>>) -> Queue<T>
    decreases trace.len(),
{
    if trace.len() == 0 {
        start
    } else {
        step(run(start, trace.drop_last()), trace.last())
    }
}

/// The items that the sends of `trace` got into the queue, in order.
pub open spec fn accepted<T>(start: Queue<T>, trace: Seq<Step<T>>) -> Seq<T>
    decreases trace.len(),
{
    if trace.len() == 0 {
        Seq::empty()
    } else {
        let earlier = accepted(start, trace.drop_last());
        match trace.last() {
            Step::Send { item } if !run(start, trace.drop_last()).is_full() => earlier.push(item),
            _ => earlier,
        }
    }
}

/// The values that the receives of `trace` served to consumer `who`, in
/// order. A served value is handed over itself on the last read of its slot,
/// as a clone before.
pub open spec fn served<T>(start: Queue<T>, trace: Seq<Step<T>>, who: int) -> Seq<T>
    decreases trace.len(),
{
    if trace.len() == 0 {
        Seq::empty()
    } else {
        let before = run(start, trace.drop_last());
        let earlier = served(start, trace.drop_last(), who);
        match trace.last() {
            Step::Receive { who: reader, producers, consumers } if reader == who && before.serves(
                producers,
            ) => earlier.push(before.slots[0].value),
            _ => earlier,
        }
    }
}

/// The number of slots that the receives of `trace` took out of the queue.
pub open spec fn drained<T>(start: Queue<T>, trace: Seq<Step<T>>) -> nat
    decreases trace.len(),
{
    if trace.len() == 0 {
        0
    } else {
        let before = run(start, trace.drop_last());
        let earlier = drained(start, trace.drop_last());
        match trace.last() {
            Step::Receive { producers, consumers, .. } if before.serves(producers)
                && before.front_read_is_last(consumers) => earlier + 1,
            _ => earlier,
        }
    }
}

/// The queue never outgrows its capacity, and every slot is accounted for:
/// what is queued after a run is what was queued before, plus what the sends
/// got in, minus what the receives took out. So a run gets in no more items
/// than the room it started with and the slots it drained.
pub proof fn lemma_capacity_bound<T>(start: Queue<T>, trace: Seq<Step<T>>)
    requires
        start.within_capacity(),
    ensures
        run(start, trace).capacity == start.capacity,
        run(start, trace).within_capacity(),
        run(start, trace).slots.len() + drained(start, trace) == start.slots.len() + accepted(
            start,
            trace,
        ).len(),
        accepted(start, trace).len() <= start.capacity - start.slots.len() + drained(start, trace),
    decreases trace.len(),
{
    if trace.len() > 0 {
        lemma_capacity_bound(start, trace.drop_last());
    }
}

/// A full queue refuses every send until a receive takes a slot out: over a
/// run that drains nothing, a queue that starts full gets nothing in and
/// stays as long as it was.
pub proof fn lemma_full_until_drained<T>(start: Queue<T>, trace: Seq<Step<T>>)
    requires
        start.within_capacity(),
        start.is_full(),
        drained(start, trace) == 0,
    ensures
        accepted(start, trace) == Seq::<T>::empty(),
        run(start, trace).is_full(),
        run(start, trace).values() == start.values(),
    decreases trace.len(),
{
    if trace.len() > 0 {
        let earlier = trace.drop_last();
        lemma_full_until_drained(start, earlier);
        let before = run(start, earlier);
        match trace.last() {
            Step::Send { item } => {},
            Step::Receive { who, producers, consumers } => {
                if before.serves(producers) {
                    assert(run(start, trace).values() =~= before.values());
                }
            },
        }
    }
}

/// A channel of capacity zero never takes an item: whatever the run, its
/// queue stays empty, no send gets anything in, and nobody is served.
pub proof fn lemma_zero_capacity<T>(trace: Seq<Step<T>>, who: int)
    ensures
        run(Queue::<T>::empty(0), trace) == Queue::<T>::empty(0),
        accepted(Queue::<T>::empty(0), trace) == Seq::<T>::empty(),
        served(Queue::<T>::empty(0), trace, who) == Seq::<T>::empty(),
    decreases trace.len(),
{
    if trace.len() > 0 {
        lemma_zero_capacity::<T>(trace.drop_last(), who);
    }
}

/// Every receive of `trace` is made with no sender alive.
pub open spec fn after_last_sender<T>(trace: Seq<Step<T>>) -> bool {
    forall|i: int|
        0 <= i < trace.len() ==> (#[trigger] trace[i] matches Step::Receive { producers, .. }
            ==> producers == 0)
}

/// Once the senders are gone the stream has ended for good: no receive
/// serves anything or takes anything out, whatever is still queued.
pub proof fn lemma_ended_stays_ended<T>(start: Queue<T>, trace: Seq<Step<T>>, who: int)
    requires
        after_last_sender(trace),
    ensures
        served(start, trace, who) == Seq::<T>::empty(),
        drained(start, trace) == 0,
        start.values().is_prefix_of(run(start, trace).values()),
    decreases trace.len(),
{
    if trace.len() > 0 {
        let earlier = trace.drop_last();
        assert forall|i: int| 0 <= i < earlier.len() implies (#[trigger] earlier[i] matches Step::Receive {
            producers,
            ..
        } ==> producers == 0) by {
            assert(earlier[i] == trace[i]);
        }
        lemma_ended_stays_ended(start, earlier, who);
        let before = run(start, earlier);
        assert(trace.last() == trace[trace.len() - 1]);
        match trace.last() {
            Step::Send { item } => {
                if !before.is_full() {
                    assert(run(start, trace).values() =~= before.values().push(item));
                }
            },
            Step::Receive { who, producers, consumers } => {},
        }
    }
}

/// Every receive of `trace` is made with `population` receivers alive.
pub open spec fn steady<T>(trace: Seq<Step<T>>, population: nat) -> bool {
    forall|i: int|
        0 <= i < trace.len() ==> (#[trigger] trace[i] matches Step::Receive { consumers, .. }
            ==> consumers == population)
}

/// While the number of consumers stays the same, a slot is read only at the
/// front of the queue, and it is gone before it has been read as often as
/// there are consumers.
pub proof fn lemma_read_counts<T>(start: Queue<T>, trace: Seq<Step<T>>, population: nat)
    requires
        population > 0,
        start.slots.len() > 0 ==> start.slots[0].seen < population,
        start.unread_behind_front(),
        steady(trace, population),
    ensures
        run(start, trace).unread_behind_front(),
        run(start, trace).slots.len() > 0 ==> run(start, trace).slots[0].seen < population,
    decreases trace.len(),
{
    if trace.len() > 0 {
        let earlier = trace.drop_last();
        assert forall|i: int| 0 <= i < earlier.len() implies (#[trigger] earlier[i] matches Step::Receive {
            consumers,
            ..
        } ==> consumers == population) by {
            assert(earlier[i] == trace[i]);
        }
        lemma_read_counts(start, earlier, population);
        let before = run(start, earlier);
        let after = run(start, trace);
        assert(trace.last() == trace[trace.len() - 1]);
        assert forall|i: int| 0 < i < after.slots.len() implies (#[trigger] after.slots[i]).seen
            == 0 by {
            if after.slots.len() < before.slots.len() {
                assert(after.slots[i] == before.slots[i + 1]);
            } else if i < before.slots.len() {
                assert(after.slots[i] == before.slots[i]);
            }
        }
        if 0 < after.slots.len() < before.slots.len() {
            assert(after.slots[0] == before.slots[1]);
        }
    }
}

/// A slot owes its reads to the consumers alive when it is read, not to
/// those alive when it was sent: a consumer that joins before an unread slot
/// leaves the queue gets a read of it. With two consumers alive the first
/// read leaves the slot at the front, counted once, and the second takes it
/// out; the slots behind it keep their order.
pub proof fn lemma_late_consumer_is_owed_a_read<T>(queue: Queue<T>, producers: nat)
    requires
        queue.serves(producers),
        queue.slots[0].seen == 0,
    ensures
        queue.receive(producers, 2).slots == queue.slots.update(0, queue.slots[0].read_once_more()),
        queue.receive(producers, 2).values() == queue.values(),
        queue.receive(producers, 2).receive(producers, 2).slots == queue.slots.drop_first(),
{
    let once = queue.receive(producers, 2);
    assert(once.values() =~= queue.values());
    assert(once.slots.drop_first() =~= queue.slots.drop_first());
}

/// The consumers who have read the slot that stands at the front after
/// `trace`. The queue itself only counts them.
pub open spec fn front_readers<T>(start: Queue<T>, trace: Seq<Step<T>>) -> Set<int>
    decreases trace.len(),
{
    if trace.len() == 0 {
        Set::empty()
    } else {
        let before = run(start, trace.drop_last());
        let earlier = front_readers(start, trace.drop_last());
        match trace.last() {
            Step::Receive { who, producers, consumers } if before.serves(producers) => {
                if before.front_read_is_last(consumers) {
                    Set::empty()
                } else {
                    earlier.insert(who)
                }
            },
            _ => earlier,
        }
    }
}

/// The consumers of `trace` take turns: there are `population` of them,
/// numbered from 0, all alive from the first step to the last, as is some
/// sender, and none of them receives again from a slot that it has read.
pub open spec fn takes_turns<T>(start: Queue<T>, trace: Seq<Step<T>>, population: nat) -> bool
    decreases trace.len(),
{
    trace.len() > 0 ==> {
        &&& takes_turns(start, trace.drop_last(), population)
        &&& trace.last() matches Step::Receive { who, producers, consumers } ==> {
            &&& producers > 0
            &&& consumers == population
            &&& 0 <= who < population
            &&& !front_readers(start, trace.drop_last()).contains(who)
        }
    }
}

/// The queued values that consumer `who` has yet to read after `trace`: all
/// of them, but for the front one where `who` has read it.
pub open spec fn unread<T>(start: Queue<T>, trace: Seq<Step<T>>, who: int) -> Seq<T> {
    if front_readers(start, trace).contains(who) {
        run(start, trace).values().drop_first()
    } else {
        run(start, trace).values()
    }
}

/// What the queue's counters say of the readers while consumers take turns:
/// only the front slot has been read, by as many consumers as it counts, all
/// of them of the population and fewer than that.
spec fn counts_readers<T>(queue: Queue<T>, readers: Set<int>, population: nat) -> bool {
    &&& queue.unread_behind_front()
    &&& readers.finite()
    &&& readers.subset_of(set_int_range(0, population as int))
    &&& queue.slots.len() == 0 ==> readers.len() == 0
    &&& queue.slots.len() > 0 ==> readers.len() == queue.slots[0].seen && queue.slots[0].seen
        < population
}

/// A consumer of the population who has not read the front slot, and whose
/// read is the last that the slot owes, is the only one who had not.
proof fn lemma_last_reader(readers: Set<int>, population: nat, reader: int, other: int)
    requires
        readers.finite(),
        readers.subset_of(set_int_range(0, population as int)),
        0 <= reader < population,
        !readers.contains(reader),
        readers.len() + 1 >= population,
        0 <= other < population,
    ensures
        other == reader || readers.contains(other),
{
    let everyone = set_int_range(0, population as int);
    lemma_int_range(0, population as int);
    let joined = readers.insert(reader);
    assert(joined.subset_of(everyone));
    lemma_len_subset(joined, everyone);
    lemma_subset_equality(joined, everyone);
    assert(everyone.contains(other));
}

/// With its consumers taking turns, a queue that nobody has read yet serves
/// every one of them the same values in the same order: what was queued at
/// the start and what the sends got in is, for each consumer, what it has
/// been served followed by what it has yet to read.
pub proof fn lemma_fan_out<T>(start: Queue<T>, trace: Seq<Step<T>>, population: nat, who: int)
    requires
        0 <= who < population,
        start.slots.len() > 0 ==> start.slots[0].seen == 0,
        start.unread_behind_front(),
        takes_turns(start, trace, population),
    ensures
        start.values() + accepted(start, trace) == served(start, trace, who) + unread(
            start,
            trace,
            who,
        ),
{
    lemma_fan_out_counted(start, trace, population, who);
}

/// The law of `lemma_fan_out`, proved along with what the counters say of
/// the readers.
proof fn lemma_fan_out_counted<T>(start: Queue<T>, trace: Seq<Step<T>>, population: nat, who: int)
    requires
        0 <= who < population,
        start.slots.len() > 0 ==> start.slots[0].seen == 0,
        start.unread_behind_front(),
        takes_turns(start, trace, population),
    ensures
        start.values() + accepted(start, trace) == served(start, trace, who) + unread(
            start,
            trace,
            who,
        ),
        counts_readers(run(start, trace), front_readers(start, trace), population),
    decreases trace.len(),
{
    if trace.len() == 0 {
        assert(start.values() + Seq::<T>::empty() =~= Seq::<T>::empty() + start.values());
    } else {
        let earlier = trace.drop_last();
        lemma_fan_out_counted(start, earlier, population, who);
        let before = run(start, earlier);
        let after = run(start, trace);
        let readers = front_readers(start, earlier);
        let total = start.values() + accepted(start, earlier);
        let got = served(start, earlier, who);
        match trace.last() {
            Step::Send { item } => {
                if !before.is_full() {
                    assert(after.values() =~= before.values().push(item));
                    if readers.contains(who) {
                        assert(before.slots.len() > 0);
                        assert(after.values().drop_first() =~= before.values().drop_first().push(
                            item,
                        ));
                    }
                    assert(start.values() + accepted(start, trace) =~= total.push(item));
                    assert(got + unread(start, trace, who) =~= (got + unread(
                        start,
                        earlier,
                        who,
                    )).push(item));
                    assert forall|i: int| 0 < i < after.slots.len() implies (
                    #[trigger] after.slots[i]).seen == 0 by {
                        if i < before.slots.len() {
                            assert(after.slots[i] == before.slots[i]);
                        }
                    }
                }
            },
            Step::Receive { who: reader, producers, consumers } => {
                if before.serves(producers) {
                    let front = before.slots[0].value;
                    assert(before.values()[0] == front);
                    if before.front_read_is_last(consumers) {
                        lemma_last_reader(readers, population, reader, who);
                        assert(after.values() =~= before.values().drop_first());
                        assert(front_readers(start, trace) =~= Set::<int>::empty());
                        if reader == who {
                            assert(got.push(front) + before.values().drop_first() =~= got
                                + before.values());
                        }
                        assert forall|i: int| 0 < i < after.slots.len() implies (
                        #[trigger] after.slots[i]).seen == 0 by {
                            assert(after.slots[i] == before.slots[i + 1]);
                        }
                        if after.slots.len() > 0 {
                            assert(after.slots[0] == before.slots[1]);
                        }
                    } else {
                        assert(after.values() =~= before.values());
                        if reader == who {
                            assert(got.push(front) + before.values().drop_first() =~= got
                                + before.values());
                        }
                        assert forall|i: int| 0 < i < after.slots.len() implies (
                        #[trigger] after.slots[i]).seen == 0 by {
                            assert(after.slots[i] == before.slots[i]);
                        }
                    }
                }
            },
        }
    }
}

/// A single consumer receives what was sent, in the order in which it was
/// sent: with one consumer alive, what was queued at the start and what the
/// sends got in is what the consumer has been served followed by what is
/// still queued.
pub proof fn lemma_fifo<T>(start: Queue<T>, trace: Seq<Step<T>>)
    requires
        start.slots.len() > 0 ==> start.slots[0].seen == 0,
        start.unread_behind_front(),
        takes_turns(start, trace, 1),
    ensures
        start.values() + accepted(start, trace) == served(start, trace, 0) + run(
            start,
            trace,
        ).values(),
{
    lemma_fan_out_counted(start, trace, 1, 0);
    front_readers(start, trace).lemma_len0_is_empty();
}

} // verus!
