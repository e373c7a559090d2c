use std::collections::VecDeque;
use vstd::prelude::*;

verus! {

/// Where the adapter stands within one resumption.
#[derive(Clone, Copy, Debug, PartialEq, Eq, Structural)]
pub enum Phase {
    /// Between resumptions: the only point at which `Event::Resume` is taken.
    Idle,
    /// The driver is polling the source for items.
    Draining,
    /// The driver is advancing the batch in flight.
    Awaiting,
}

/// What the driver reports to the adapter.
pub enum Event<T, U, E> {
    /// A new resumption: the consumer asks for the next item.
    Resume,
    /// The source handed over an item.
    SourceItem(T),
    /// The source has no item right now.
    SourcePending,
    /// The source is exhausted and will produce nothing more.
    SourceExhausted,
    /// The source failed.
    SourceFailed(E),
    /// The batch in flight is not finished yet.
    BatchPending,
    /// The batch in flight finished with these outputs, in order.
    BatchDone(Vec<U>),
    /// The batch in flight failed.
    BatchFailed(E),
}

/// What the adapter hands to the consumer at the end of a resumption.
pub enum Output<U, E> {
    /// The next output item.
    Item(U),
    /// A failure of the source or of the transform.
    Failed(E),
    /// No item right now: resume later.
    Pending,
    /// The sequence is finished.
    Done,
}

/// What the adapter asks the driver to do next.
pub enum Action<T, U, E> {
    /// Poll the source once and report the outcome.
    PollSource,
    /// Hand this batch to the transform, keep the computation as the batch in
    /// flight, advance it once and report the outcome.
    StartBatch(Vec<T>),
    /// Hand this batch to the transform and keep the computation as the batch
    /// in flight without advancing it, then end the resumption with this
    /// output. The batch is advanced once the queued outputs are emitted.
    StartBatchAndEmit(Vec<T>, U),
    /// Advance the batch in flight once and report the outcome.
    PollBatch,
    /// End the resumption with this output.
    Emit(Output<U, E>),
}

/// The abstract state of a [`BatchMap`], with the history of what went
/// through it.
pub struct BatchView<T, U> {
    pub phase: Phase,
    /// The source has reported exhaustion.
    pub source_done: bool,
    /// A batch is in flight.
    pub pending: bool,
    /// A failure has been emitted; the adapter is finished for good.
    pub failed: bool,
    /// Items taken from the source and not yet handed to the transform.
    pub accumulated: Seq<T>,
    /// Outputs of finished batches not yet emitted.
    pub queued: Seq<U>,
    /// Every item taken from the source, in arrival order.
    pub received: Seq<T>,
    /// Every batch handed to the transform, in order.
    pub batches: Seq<Seq<T>>,
    /// The outputs of every batch that finished, in order.
    pub results: Seq<Seq<U>>,
    /// Every item emitted, in order.
    pub delivered: Seq<U>,
}

impl<T, U> BatchView<T, U> {
    /// The state of a fresh adapter.
    pub open spec fn initial() -> Self {
        BatchView {
            phase: Phase::Idle,
            source_done: false,
            pending: false,
            failed: false,
            accumulated: Seq::empty(),
            queued: Seq::empty(),
            received: Seq::empty(),
            batches: Seq::empty(),
            results: Seq::empty(),
            delivered: Seq::empty(),
        }
    }

    /// The histories agree with the buffers: every received item is in a
    /// batch or in the accumulator, in arrival order; every output of a
    /// finished batch is emitted or queued, in batch order; only the last
    /// batch may lack its result; no batch is empty.
    pub open spec fn consistent(self) -> bool {
        &&& self.batches.flatten() + self.accumulated == self.received
        &&& self.delivered + self.queued == self.results.flatten()
        &&& self.batches.len() == self.results.len() + if self.pending { 1int } else { 0int }
        &&& forall|i: int| 0 <= i < self.batches.len() ==> #[trigger] self.batches[i].len() > 0
    }

    /// The invariant that every reachable state satisfies.
    pub open spec fn wf(self) -> bool {
        &&& self.consistent()
        &&& self.phase == Phase::Draining ==> !self.source_done && !self.failed
        &&& self.phase == Phase::Awaiting ==> self.pending && !self.failed
        &&& self.phase != Phase::Idle ==> self.queued.len() == 0
        &&& self.failed ==> self.phase == Phase::Idle
        &&& (self.phase == Phase::Idle && !self.pending && !self.failed) ==> self.accumulated.len()
            == 0
    }

    /// The sequence has ended: after a failure, or once the source is
    /// exhausted, no batch is in flight and every output has been emitted.
    pub open spec fn is_finished(self) -> bool {
        self.failed || (self.source_done && !self.pending && self.queued.len() == 0)
    }

    /// The events the adapter takes in its current phase.
    pub open spec fn accepts<E>(self, event: Event<T, U, E>) -> bool {
        match event {
            Event::Resume => self.phase == Phase::Idle,
            Event::SourceItem(_) | Event::SourcePending | Event::SourceExhausted
            | Event::SourceFailed(_) => self.phase == Phase::Draining,
            Event::BatchPending | Event::BatchDone(_) | Event::BatchFailed(_) => self.phase
                == Phase::Awaiting,
        }
    }

    /// `next` is `self` in another phase.
    pub open spec fn moved_to(self, next: Self, phase: Phase) -> bool {
        next == BatchView { phase, ..self }
    }

    /// The end of a resumption: the front output if there is one, else the
    /// end of the sequence once nothing more can come, else a suspension.
    pub open spec fn concludes<E>(self, next: Self, action: Action<T, U, E>) -> bool {
        if self.queued.len() > 0 {
            &&& action == Action::<T, U, E>::Emit(Output::Item(self.queued[0]))
            &&& next == BatchView {
                phase: Phase::Idle,
                queued: self.queued.drop_first(),
                delivered: self.delivered.push(self.queued[0]),
                ..self
            }
        } else if self.source_done && !self.pending {
            &&& action == Action::<T, U, E>::Emit(Output::Done)
            &&& self.moved_to(next, Phase::Idle)
        } else {
            &&& action == Action::<T, U, E>::Emit(Output::Pending)
            &&& self.moved_to(next, Phase::Idle)
        }
    }

    /// After the source has been drained: start a batch of everything
    /// accumulated when none is in flight, else advance the one in flight,
    /// else end the resumption.
    pub open spec fn begins_batch<E>(self, next: Self, action: Action<T, U, E>) -> bool {
        if self.accumulated.len() > 0 && !self.pending {
            &&& action matches Action::StartBatch(b) && b@ == self.accumulated
            &&& next == BatchView {
                phase: Phase::Awaiting,
                pending: true,
                accumulated: Seq::empty(),
                batches: self.batches.push(self.accumulated),
                ..self
            }
        } else if self.pending {
            &&& action == Action::<T, U, E>::PollBatch
            &&& self.moved_to(next, Phase::Awaiting)
        } else {
            self.concludes(next, action)
        }
    }

    /// A failure ends the resumption and the sequence; it is only observed
    /// once every output of the finished batches has been emitted.
    pub open spec fn fails<E>(self, next: Self, action: Action<T, U, E>, e: E) -> bool {
        &&& self.queued.len() == 0
        &&& action == Action::<T, U, E>::Emit(Output::Failed(e))
        &&& next == BatchView { phase: Phase::Idle, failed: true, ..self }
    }

    /// After a batch has finished: while its outputs wait to be emitted,
    /// items waiting in the accumulator become the next batch, which is not
    /// advanced before those outputs are out; otherwise as after a drain.
    pub open spec fn absorbs<E>(self, next: Self, action: Action<T, U, E>) -> bool {
        if self.queued.len() > 0 && self.accumulated.len() > 0 && !self.pending {
            &&& action matches Action::StartBatchAndEmit(b, u) && b@ == self.accumulated && u
                == self.queued[0]
            &&& next == BatchView {
                phase: Phase::Idle,
                pending: true,
                accumulated: Seq::empty(),
                batches: self.batches.push(self.accumulated),
                queued: self.queued.drop_first(),
                delivered: self.delivered.push(self.queued[0]),
                ..self
            }
        } else {
            self.begins_batch(next, action)
        }
    }

    /// One transition of the adapter on `event`.
    pub open spec fn takes<E>(self, event: Event<T, U, E>, next: Self, action: Action<T, U, E>) -> bool {
        match event {
            Event::Resume => if self.failed {
                &&& action == Action::<T, U, E>::Emit(Output::Done)
                &&& next == self
            } else if self.queued.len() > 0 {
                self.concludes(next, action)
            } else if !self.source_done {
                &&& action == Action::<T, U, E>::PollSource
                &&& self.moved_to(next, Phase::Draining)
            } else {
                self.begins_batch(next, action)
            },
            Event::SourceItem(t) => {
                &&& action == Action::<T, U, E>::PollSource
                &&& next == BatchView {
                    accumulated: self.accumulated.push(t),
                    received: self.received.push(t),
                    ..self
                }
            },
            Event::SourcePending => self.begins_batch(next, action),
            Event::SourceExhausted => BatchView { source_done: true, ..self }.begins_batch(
                next,
                action,
            ),
            Event::SourceFailed(e) => self.fails(next, action, e),
            Event::BatchPending => self.concludes(next, action),
            Event::BatchDone(r) => BatchView {
                pending: false,
                queued: self.queued + r@,
                results: self.results.push(r@),
                ..self
            }.absorbs(next, action),
            Event::BatchFailed(e) => self.fails(next, action, e),
        }
    }
}

/// The batching state machine.
///
/// Each resumption starts with `Event::Resume` and ends with an
/// `Action::Emit`; in between, the adapter asks its driver to poll the source
/// or the batch in flight and is told the outcome. A failure is terminal: it
/// is emitted once, and every later resumption reports the end of the
/// sequence without touching the source or the transform again.
pub struct BatchMap<T, U> {
    phase: Phase,
    source_done: bool,
    pending: bool,
    failed: bool,
    input: Vec<T>,
    output: VecDeque<U>,
    received: Ghost<Seq<T>>,
    batches: Ghost<Seq<Seq<T>>>,
    results: Ghost<Seq<Seq<U>>>,
    delivered: Ghost<Seq<U>>,
}

impl<T, U> View for BatchMap<T, U> {
    type V = BatchView<T, U>;

    closed spec fn view(&self) -> BatchView<T, U> {
        BatchView {
            phase: self.phase,
            source_done: self.source_done,
            pending: self.pending,
            failed: self.failed,
            accumulated: self.input@,
            queued: self.output@,
            received: self.received@,
            batches: self.batches@,
            results: self.results@,
            delivered: self.delivered@,
        }
    }
}

impl<T, U> BatchMap<T, U> {
    /// A fresh adapter over a source that is exhausted already or not:
    /// nothing taken from the source, nothing in flight.
    pub fn new(source_done: bool) -> (r: Self)
        ensures
            r@ == (BatchView { source_done, ..BatchView::<T, U>::initial() }),
            r@.wf(),
    {
        BatchMap {
            phase: Phase::Idle,
            source_done,
            pending: false,
            failed: false,
            input: Vec::new(),
            output: VecDeque::new(),
            received: Ghost(Seq::empty()),
            batches: Ghost(Seq::empty()),
            results: Ghost(Seq::empty()),
            delivered: Ghost(Seq::empty()),
        }
    }

    /// Where the adapter stands within a resumption.
    pub fn phase(&self) -> (r: Phase)
        ensures
            r == self@.phase,
    {
        self.phase
    }

    /// Whether the sequence has ended.
    pub fn is_terminated(&self) -> (r: bool)
        requires
            self@.wf(),
        ensures
            r == self@.is_finished(),
            r && !self@.failed && self@.phase == Phase::Idle ==> self@.accumulated.len() == 0,
    {
        self.failed || (self.source_done && !self.pending && self.output.len() == 0)
    }

    /// Ends the resumption (steps after the batch has been advanced).
    fn conclude<E>(&mut self) -> (action: Action<T, U, E>)
        requires
            old(self)@.consistent(),
            !old(self)@.failed,
            !old(self)@.pending ==> old(self)@.accumulated.len() == 0,
        ensures
            old(self)@.concludes(final(self)@, action),
            final(self)@.wf(),
    {
        self.phase = Phase::Idle;
        match self.output.pop_front() {
            Some(u) => {
                proof {
                    let ghost d = self.delivered@;
                    self.delivered = Ghost(d.push(u));
                    assert(old(self)@.queued == seq![u] + self.output@);
                    assert(self.delivered@ + self.output@ =~= d + old(self)@.queued);
                }
                Action::Emit(Output::Item(u))
            },
            None => {
                if self.source_done && !self.pending {
                    Action::Emit(Output::Done)
                } else {
                    Action::Emit(Output::Pending)
                }
            },
        }
    }

    /// Starts a batch of everything accumulated, advances the one in flight,
    /// or ends the resumption.
    fn begin_batch<E>(&mut self) -> (action: Action<T, U, E>)
        requires
            old(self)@.consistent(),
            !old(self)@.failed,
            old(self)@.accumulated.len() > 0 || old(self)@.pending ==> old(self)@.queued.len() == 0,
        ensures
            old(self)@.begins_batch(final(self)@, action),
            final(self)@.wf(),
    {
        if self.input.len() > 0 && !self.pending {
            let mut batch: Vec<T> = Vec::new();
            std::mem::swap(&mut self.input, &mut batch);
            proof {
                let ghost b = self.batches@;
                self.batches = Ghost(b.push(batch@));
                b.lemma_flatten_push(batch@);
                assert(self.batches@.flatten() + self.input@ =~= b.flatten() + batch@);
                assert forall|i: int| 0 <= i < self.batches@.len() implies #[trigger] self.batches@[i].len() > 0 by {
                    if i < b.len() {
                        assert(self.batches@[i] == b[i]);
                    }
                }
            }
            self.pending = true;
            self.phase = Phase::Awaiting;
            Action::StartBatch(batch)
        } else if self.pending {
            self.phase = Phase::Awaiting;
            Action::PollBatch
        } else {
            self.conclude()
        }
    }

    /// Takes the driver's report `event` and says what to do next.
    ///
    /// A resumption first hands out an output left from an earlier batch.
    /// Otherwise it drains the source for as long as items come without
    /// blocking, starts a batch of all accumulated items when none is in
    /// flight, advances the batch in flight, and ends with the front output,
    /// with the end of the sequence, or with a suspension. When a batch
    /// finishes while items wait in the accumulator, those items become the
    /// next batch at once, so that no item waits at the end of a resumption
    /// without a batch in flight; if the finished batch left outputs, that
    /// batch is only advanced after they have all been emitted, so a failure
    /// never hides an output of an earlier batch.
    pub fn step<E>(&mut self, event: Event<T, U, E>) -> (action: Action<T, U, E>)
        requires
            old(self)@.wf(),
            old(self)@.accepts(event),
        ensures
            old(self)@.takes(event, final(self)@, action),
            final(self)@.wf(),
    {
        match event {
            Event::Resume => {
                if self.failed {
                    Action::Emit(Output::Done)
                } else if self.output.len() > 0 {
                    self.conclude()
                } else if !self.source_done {
                    self.phase = Phase::Draining;
                    Action::PollSource
                } else {
                    self.begin_batch()
                }
            },
            Event::SourceItem(t) => {
                proof {
                    let ghost r = self.received@;
                    self.received = Ghost(r.push(t));
                }
                self.input.push(t);
                proof {
                    assert(self.batches@.flatten() + self.input@ =~= old(self)@.received.push(t));
                }
                Action::PollSource
            },
            Event::SourcePending => self.begin_batch(),
            Event::SourceExhausted => {
                self.source_done = true;
                self.begin_batch()
            },
            Event::SourceFailed(e) => {
                self.phase = Phase::Idle;
                self.failed = true;
                Action::Emit(Output::Failed(e))
            },
            Event::BatchPending => self.conclude(),
            Event::BatchDone(r) => {
                let ghost produced = r@;
                proof {
                    let ghost res = self.results@;
                    self.results = Ghost(res.push(produced));
                    res.lemma_flatten_push(produced);
                }
                let mut queue: VecDeque<U> = VecDeque::new();
                std::mem::swap(&mut self.output, &mut queue);
                let ghost queued0 = queue@;
                for u in it: r
                    invariant
                        queue@ == queued0 + it.seq().take(it.index() as int),
                        it.seq() == produced,
                {
                    queue.push_back(u);
                    proof {
                        assert(it.seq().take(it.index() + 1) =~= it.seq().take(it.index() as int).push(u));
                    }
                }
                self.output = queue;
                proof {
                    assert(self.output@ =~= queued0 + produced);
                    assert(self.delivered@ + self.output@ =~= self.results@.flatten());
                }
                self.pending = false;
                let front = if self.input.len() > 0 {
                    self.output.pop_front()
                } else {
                    None
                };
                match front {
                    Some(u) => {
                        let mut batch: Vec<T> = Vec::new();
                        std::mem::swap(&mut self.input, &mut batch);
                        proof {
                            let ghost d = self.delivered@;
                            self.delivered = Ghost(d.push(u));
                            assert(queued0 + produced == seq![u] + self.output@);
                            assert(self.delivered@ + self.output@ =~= d + (queued0 + produced));
                            let ghost b = self.batches@;
                            self.batches = Ghost(b.push(batch@));
                            b.lemma_flatten_push(batch@);
                            assert(self.batches@.flatten() + self.input@ =~= b.flatten() + batch@);
                            assert forall|i: int| 0 <= i < self.batches@.len() implies #[trigger] self.batches@[i].len() > 0 by {
                                if i < b.len() {
                                    assert(self.batches@[i] == b[i]);
                                }
                            }
                        }
                        self.pending = true;
                        self.phase = Phase::Idle;
                        Action::StartBatchAndEmit(batch, u)
                    },
                    None => self.begin_batch(),
                }
            },
            Event::BatchFailed(e) => {
                self.phase = Phase::Idle;
                self.failed = true;
                Action::Emit(Output::Failed(e))
            },
        }
    }
}

} // verus!
