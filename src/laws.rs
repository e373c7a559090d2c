//! Properties of the adapter that hold of every execution.

use crate::adapter::{Action, BatchView, Event, Output, Phase};
use vstd::prelude::*;

verus! {

/// Every transition from a well-formed state, on an event that the state
/// accepts, leads to a well-formed state.
pub proof fn lemma_takes_preserves_wf<T, U, E>(
    s: BatchView<T, U>,
    event: Event<T, U, E>,
    next: BatchView<T, U>,
    action: Action<T, U, E>,
)
    requires
        s.wf(),
        s.accepts(event),
        s.takes(event, next, action),
    ensures
        next.wf(),
{
    match event {
        Event::SourceItem(t) => {
            assert(next.batches.flatten() + next.accumulated =~= s.received.push(t));
        },
        Event::BatchDone(r) => {
            s.results.lemma_flatten_push(r@);
            let mid = BatchView {
                pending: false,
                queued: s.queued + r@,
                results: s.results.push(r@),
                ..s
            };
            assert(mid.delivered + mid.queued =~= mid.results.flatten());
            lemma_absorbs_wf(mid, next, action);
        },
        Event::SourceExhausted => {
            lemma_begins_batch_wf(BatchView { source_done: true, ..s }, next, action);
        },
        Event::SourcePending => {
            lemma_begins_batch_wf(s, next, action);
        },
        Event::Resume => {
            if !s.failed && s.queued.len() == 0 && s.source_done {
                lemma_begins_batch_wf(s, next, action);
            } else if !s.failed && s.queued.len() > 0 {
                lemma_concludes_wf(s, next, action);
            }
        },
        Event::BatchPending => {
            lemma_concludes_wf(s, next, action);
        },
        _ => {},
    }
}

proof fn lemma_concludes_wf<T, U, E>(s: BatchView<T, U>, next: BatchView<T, U>, action: Action<T, U, E>)
    requires
        s.consistent(),
        !s.failed,
        !s.pending ==> s.accumulated.len() == 0,
        s.concludes(next, action),
    ensures
        next.wf(),
{
    if s.queued.len() > 0 {
        assert(s.queued =~= seq![s.queued[0]] + next.queued);
        assert(next.delivered + next.queued =~= s.delivered + s.queued);
    }
}

proof fn lemma_absorbs_wf<T, U, E>(s: BatchView<T, U>, next: BatchView<T, U>, action: Action<T, U, E>)
    requires
        s.consistent(),
        !s.failed,
        !s.pending,
        s.absorbs(next, action),
    ensures
        next.wf(),
{
    if s.queued.len() > 0 && s.accumulated.len() > 0 {
        s.batches.lemma_flatten_push(s.accumulated);
        assert(next.batches.flatten() + next.accumulated =~= s.batches.flatten() + s.accumulated);
        assert forall|i: int| 0 <= i < next.batches.len() implies #[trigger] next.batches[i].len() > 0 by {
            if i < s.batches.len() {
                assert(next.batches[i] == s.batches[i]);
            }
        }
        assert(s.queued =~= seq![s.queued[0]] + next.queued);
        assert(next.delivered + next.queued =~= s.delivered + s.queued);
    } else {
        lemma_begins_batch_wf(s, next, action);
    }
}

proof fn lemma_begins_batch_wf<T, U, E>(s: BatchView<T, U>, next: BatchView<T, U>, action: Action<T, U, E>)
    requires
        s.consistent(),
        !s.failed,
        s.accumulated.len() > 0 || s.pending ==> s.queued.len() == 0,
        s.begins_batch(next, action),
    ensures
        next.wf(),
{
    if s.accumulated.len() > 0 && !s.pending {
        s.batches.lemma_flatten_push(s.accumulated);
        assert(next.batches.flatten() + next.accumulated =~= s.batches.flatten() + s.accumulated);
        assert forall|i: int| 0 <= i < next.batches.len() implies #[trigger] next.batches[i].len() > 0 by {
            if i < s.batches.len() {
                assert(next.batches[i] == s.batches[i]);
            }
        }
    } else if !s.pending {
        lemma_concludes_wf(s, next, action);
    }
}

/// Order preservation: the emitted items followed by the queued ones are the
/// outputs of the finished batches concatenated in batch order, and the
/// batches concatenated, followed by the accumulator, are the source's items
/// in arrival order. Once the sequence has ended without a failure, the
/// emitted items are exactly the concatenated results of all batches, and
/// the batches together hold every item that the source produced.
pub proof fn lemma_order_preserved<T, U>(s: BatchView<T, U>)
    requires
        s.wf(),
    ensures
        s.delivered + s.queued == s.results.flatten(),
        s.batches.flatten() + s.accumulated == s.received,
        s.is_finished() && !s.failed && s.phase == Phase::Idle ==> {
            &&& s.delivered == s.results.flatten()
            &&& s.batches.flatten() == s.received
            &&& s.results.len() == s.batches.len()
        },
{
    if s.is_finished() && !s.failed && s.phase == Phase::Idle {
        assert(s.delivered =~= s.delivered + s.queued);
        assert(s.batches.flatten() =~= s.batches.flatten() + s.accumulated);
    }
}

/// At most one batch in flight: every batch but possibly the last has its
/// result, and a batch is only started once all earlier ones have finished.
pub proof fn lemma_one_batch_in_flight<T, U, E>(
    s: BatchView<T, U>,
    event: Event<T, U, E>,
    next: BatchView<T, U>,
    action: Action<T, U, E>,
)
    requires
        s.wf(),
        s.accepts(event),
        s.takes(event, next, action),
    ensures
        s.batches.len() <= s.results.len() + 1,
        action matches Action::StartBatch(b) ==> {
            &&& next.batches == s.batches.push(b@)
            &&& next.results.len() == s.batches.len()
        },
        action matches Action::StartBatchAndEmit(b, _) ==> {
            &&& next.batches == s.batches.push(b@)
            &&& next.results.len() == s.batches.len()
        },
{
}

/// Whenever no batch is in flight between resumptions of an adapter that has
/// not failed, the accumulator is empty.
pub proof fn lemma_idle_accumulator_empty<T, U>(s: BatchView<T, U>)
    requires
        s.wf(),
        s.phase == Phase::Idle,
        !s.pending,
        !s.failed,
    ensures
        s.accumulated.len() == 0,
{
}

/// The batches still to run: the one in flight and one of the accumulated
/// items.
pub open spec fn batches_left<T, U>(s: BatchView<T, U>) -> nat {
    (if s.pending { 1nat } else { 0nat }) + (if s.accumulated.len() > 0 { 1nat } else { 0nat })
}

/// `next` is closer to the end than `s`: fewer batches left, or as many and
/// fewer queued outputs.
pub open spec fn closer_to_end<T, U>(next: BatchView<T, U>, s: BatchView<T, U>) -> bool {
    ||| batches_left(next) < batches_left(s)
    ||| batches_left(next) == batches_left(s) && next.queued.len() < s.queued.len()
}

/// Termination: once the source is exhausted, the source is never polled
/// again; every successful completion of a batch, and every resumption that
/// emits an item, brings the adapter closer to the end by a well-founded
/// measure; a resumption that emits nothing either asks for work on a batch
/// without moving away from the end, or ends the sequence. The end of the
/// sequence is emitted only after every queued output has been emitted, and
/// a finished adapter stays finished.
pub proof fn lemma_exhausted_source_terminates<T, U, E>(
    s: BatchView<T, U>,
    event: Event<T, U, E>,
    next: BatchView<T, U>,
    action: Action<T, U, E>,
)
    requires
        s.wf(),
        s.source_done,
        !s.failed,
        s.accepts(event),
        s.takes(event, next, action),
    ensures
        action != Action::<T, U, E>::PollSource,
        event is BatchDone ==> closer_to_end(next, s),
        action matches Action::Emit(Output::Item(_)) ==> closer_to_end(next, s),
        event is Resume ==> {
            ||| action matches Action::Emit(Output::Item(_))
            ||| action == Action::<T, U, E>::Emit(Output::Done)
            ||| (action is StartBatch || action is PollBatch) && batches_left(next) == batches_left(s)
        },
        action == Action::<T, U, E>::Emit(Output::Done) ==> {
            &&& next.is_finished()
            &&& next.queued.len() == 0
            &&& next.accumulated.len() == 0
            &&& next.delivered == next.results.flatten()
            &&& next.batches.flatten() == next.received
        },
{
    lemma_takes_preserves_wf(s, event, next, action);
    if action == Action::<T, U, E>::Emit(Output::Done) {
        assert(next.delivered =~= next.delivered + next.queued);
        assert(next.batches.flatten() =~= next.batches.flatten() + next.accumulated);
    }
}

/// A finished adapter that has not failed stays finished: a resumption ends
/// the sequence again at once, asks for no work and changes nothing.
pub proof fn lemma_finished_is_final<T, U, E>(
    s: BatchView<T, U>,
    next: BatchView<T, U>,
    action: Action<T, U, E>,
)
    requires
        s.wf(),
        s.phase == Phase::Idle,
        s.is_finished(),
        s.takes(Event::<T, U, E>::Resume, next, action),
    ensures
        action == Action::<T, U, E>::Emit(Output::Done),
        next == s,
{
}

/// An adapter over a source that is exhausted at once ends the sequence on
/// its first resumption, without starting any batch.
pub proof fn lemma_empty_source<T, U, E>(
    a1: Action<T, U, E>,
    s1: BatchView<T, U>,
    a2: Action<T, U, E>,
    s2: BatchView<T, U>,
)
    requires
        BatchView::<T, U>::initial().takes(Event::<T, U, E>::Resume, s1, a1),
        s1.takes(Event::<T, U, E>::SourceExhausted, s2, a2),
    ensures
        a1 == Action::<T, U, E>::PollSource,
        a2 == Action::<T, U, E>::Emit(Output::Done),
        s2.batches.len() == 0,
        s2.is_finished(),
{
}

/// An adapter made over a source that is exhausted already is finished, and
/// ends the sequence on its first resumption without starting any batch.
pub proof fn lemma_exhausted_at_start<T, U, E>(a: Action<T, U, E>, s: BatchView<T, U>)
    requires
        (BatchView { source_done: true, ..BatchView::<T, U>::initial() }).takes(
            Event::<T, U, E>::Resume,
            s,
            a,
        ),
    ensures
        (BatchView { source_done: true, ..BatchView::<T, U>::initial() }).is_finished(),
        a == Action::<T, U, E>::Emit(Output::Done),
        s.batches.len() == 0,
        s.is_finished(),
{
}

/// A run: `states[i]` takes `events[i]` to `states[i + 1]`, answering
/// `actions[i]`.
pub open spec fn is_run<T, U, E>(
    states: Seq<BatchView<T, U>>,
    events: Seq<Event<T, U, E>>,
    actions: Seq<Action<T, U, E>>,
) -> bool {
    &&& states.len() == events.len() + 1
    &&& actions.len() == events.len()
    &&& forall|i: int|
        #![trigger events[i]]
        0 <= i < events.len() ==> states[i].accepts(events[i]) && states[i].takes(
            events[i],
            states[i + 1],
            actions[i],
        )
}

/// The number of outputs that the finished batches of `events` supplied.
pub open spec fn supplied<T, U, E>(events: Seq<Event<T, U, E>>) -> nat
    decreases events.len(),
{
    if events.len() == 0 {
        0
    } else {
        supplied(events.drop_last()) + match events.last() {
            Event::BatchDone(r) => r@.len(),
            _ => 0,
        }
    }
}

/// What is left to do before the end of the sequence, once the source is
/// exhausted.
pub open spec fn potential<T, U>(s: BatchView<T, U>) -> nat {
    2 * s.queued.len() + 4 * batches_left(s) + if s.phase == Phase::Idle { 1nat } else { 0nat }
}

proof fn lemma_potential_step<T, U, E>(
    s: BatchView<T, U>,
    event: Event<T, U, E>,
    next: BatchView<T, U>,
    action: Action<T, U, E>,
)
    requires
        s.wf(),
        s.source_done,
        !s.failed,
        s.accepts(event),
        s.takes(event, next, action),
        !(event is BatchPending),
        !(event is BatchFailed),
        action != Action::<T, U, E>::Emit(Output::Done),
    ensures
        next.wf(),
        next.source_done,
        !next.failed,
        potential(next) + 1 <= potential(s) + 2 * match event {
            Event::BatchDone(r) => r@.len(),
            _ => 0,
        },
{
    lemma_takes_preserves_wf(s, event, next, action);
}

/// Termination of a whole run: once the source is exhausted, a run in which
/// every batch finishes successfully when advanced and the end of the
/// sequence is never emitted has at most as many steps as the potential of
/// its first state plus twice the number of outputs the batches supplied.
/// So with finitely many outputs per batch every such run ends the sequence
/// after finitely many steps; by `lemma_exhausted_source_terminates` it does
/// so only once every output has been emitted.
pub proof fn lemma_run_ends<T, U, E>(
    states: Seq<BatchView<T, U>>,
    events: Seq<Event<T, U, E>>,
    actions: Seq<Action<T, U, E>>,
)
    requires
        is_run(states, events, actions),
        states[0].wf(),
        states[0].source_done,
        !states[0].failed,
        forall|i: int|
            0 <= i < events.len() ==> !(#[trigger] events[i] is BatchPending) && !(
            events[i] is BatchFailed),
        forall|i: int|
            0 <= i < actions.len() ==> #[trigger] actions[i] != Action::<T, U, E>::Emit(
                Output::Done,
            ),
    ensures
        events.len() + potential(states.last()) <= potential(states[0]) + 2 * supplied(events),
        states.last().wf(),
        states.last().source_done,
        !states.last().failed,
    decreases events.len(),
{
    if events.len() > 0 {
        let n = events.len() - 1;
        let ps = states.drop_last();
        let pe = events.drop_last();
        let pa = actions.drop_last();
        assert forall|i: int| #![trigger pe[i]] 0 <= i < pe.len() implies ps[i].accepts(pe[i])
            && ps[i].takes(pe[i], ps[i + 1], pa[i]) by {
            assert(events[i] == pe[i]);
        }
        assert forall|i: int| 0 <= i < pe.len() implies !(#[trigger] pe[i] is BatchPending) && !(
        pe[i] is BatchFailed) by {
            assert(events[i] == pe[i]);
        }
        assert forall|i: int| 0 <= i < pa.len() implies #[trigger] pa[i] != Action::<
            T,
            U,
            E,
        >::Emit(Output::Done) by {
            assert(actions[i] == pa[i]);
        }
        lemma_run_ends(ps, pe, pa);
        assert(ps.last() == states[n]);
        assert(events[n] == events.last());
        assert(states.last() == states[n + 1]);
        lemma_potential_step(states[n], events[n], states[n + 1], actions[n]);
    }
}

} // verus!
