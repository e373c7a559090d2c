use batch_map::adapter::{Action, BatchMap, Event, Output, Phase};
use std::collections::VecDeque;

#[derive(Clone, Copy)]
enum Src {
    Item(i32),
    Pending,
    End,
    Fail(&'static str),
}

struct Source {
    script: VecDeque<Src>,
    polls_after_end: usize,
}

impl Source {
    fn new(script: Vec<Src>) -> Self {
        Source { script: script.into(), polls_after_end: 0 }
    }

    fn poll(&mut self) -> Event<i32, i32, &'static str> {
        match self.script.pop_front() {
            Some(Src::Item(x)) => Event::SourceItem(x),
            Some(Src::Pending) => Event::SourcePending,
            Some(Src::Fail(e)) => Event::SourceFailed(e),
            Some(Src::End) | None => {
                self.polls_after_end += 1;
                self.script.clear();
                Event::SourceExhausted
            }
        }
    }
}

type Outcome = Result<Vec<i32>, &'static str>;

struct Transform {
    f: Box<dyn FnMut(&[i32]) -> Outcome>,
    delay: usize,
    current: Option<(Vec<i32>, usize)>,
    batches: Vec<Vec<i32>>,
    in_flight: usize,
    max_in_flight: usize,
}

impl Transform {
    fn new(delay: usize, f: impl FnMut(&[i32]) -> Outcome + 'static) -> Self {
        Transform { f: Box::new(f), delay, current: None, batches: vec![], in_flight: 0, max_in_flight: 0 }
    }

    fn start(&mut self, batch: Vec<i32>) {
        self.in_flight += 1;
        self.max_in_flight = self.max_in_flight.max(self.in_flight);
        self.batches.push(batch.clone());
        self.current = Some((batch, self.delay));
    }

    fn poll(&mut self) -> Event<i32, i32, &'static str> {
        let (batch, left) = self.current.take().expect("no batch in flight");
        if left > 0 {
            self.current = Some((batch, left - 1));
            return Event::BatchPending;
        }
        self.in_flight -= 1;
        match (self.f)(&batch) {
            Ok(out) => Event::BatchDone(out),
            Err(e) => Event::BatchFailed(e),
        }
    }
}

fn resume(m: &mut BatchMap<i32, i32>, src: &mut Source, tr: &mut Transform) -> Output<i32, &'static str> {
    assert_eq!(m.phase(), Phase::Idle);
    let mut event = Event::Resume;
    loop {
        match m.step(event) {
            Action::PollSource => event = src.poll(),
            Action::StartBatch(b) => {
                assert!(!b.is_empty());
                tr.start(b);
                event = tr.poll();
            }
            Action::StartBatchAndEmit(b, u) => {
                assert!(!b.is_empty());
                tr.start(b);
                return Output::Item(u);
            }
            Action::PollBatch => event = tr.poll(),
            Action::Emit(o) => return o,
        }
    }
}

#[derive(Debug, PartialEq)]
enum Seen {
    Item(i32),
    Failed(&'static str),
    Pending,
    Done,
}

fn seen(o: Output<i32, &'static str>) -> Seen {
    match o {
        Output::Item(x) => Seen::Item(x),
        Output::Failed(e) => Seen::Failed(e),
        Output::Pending => Seen::Pending,
        Output::Done => Seen::Done,
    }
}

/// Resumes until the end of the sequence (or `limit` resumptions).
fn run(src: &mut Source, tr: &mut Transform, limit: usize) -> (Vec<Seen>, BatchMap<i32, i32>) {
    let mut m = BatchMap::new(false);
    let mut out = vec![];
    for _ in 0..limit {
        let s = seen(resume(&mut m, src, tr));
        let done = s == Seen::Done;
        out.push(s);
        if done {
            break;
        }
    }
    (out, m)
}

fn identity(b: &[i32]) -> Outcome {
    Ok(b.to_vec())
}

#[test]
fn doubled_and_reversed_single_batch() {
    let mut src = Source::new(vec![Src::Item(1), Src::Item(2), Src::Item(3), Src::End]);
    let mut tr = Transform::new(0, |b: &[i32]| Ok(b.iter().rev().map(|x| 2 * x).collect()));
    let (out, m) = run(&mut src, &mut tr, 10);
    assert_eq!(out, vec![Seen::Item(6), Seen::Item(4), Seen::Item(2), Seen::Done]);
    assert_eq!(tr.batches, vec![vec![1, 2, 3]]);
    assert!(m.is_terminated());
}

#[test]
fn suspension_splits_batches() {
    let mut src = Source::new(vec![Src::Item(1), Src::Pending, Src::Item(2), Src::Item(3), Src::End]);
    let mut tr = Transform::new(0, identity);
    let (out, _) = run(&mut src, &mut tr, 10);
    assert_eq!(out, vec![Seen::Item(1), Seen::Item(2), Seen::Item(3), Seen::Done]);
    assert_eq!(tr.batches.len(), 2);
    assert_eq!(tr.batches, vec![vec![1], vec![2, 3]]);
}

#[test]
fn failing_first_batch_surfaces_error_and_no_items() {
    let mut src = Source::new(vec![Src::Item(1), Src::Item(2), Src::Pending, Src::Item(3), Src::End]);
    let mut calls = 0;
    let mut tr = Transform::new(0, move |b: &[i32]| {
        calls += 1;
        if calls == 1 {
            Err("E1")
        } else {
            Ok(b.to_vec())
        }
    });
    let (out, m) = run(&mut src, &mut tr, 10);
    assert_eq!(out[0], Seen::Failed("E1"));
    assert!(!out.contains(&Seen::Item(1)));
    assert!(!out.contains(&Seen::Item(2)));
    assert_eq!(out, vec![Seen::Failed("E1"), Seen::Done]);
    assert!(m.is_terminated());
}

#[test]
fn empty_source_finishes_on_first_resumption() {
    let mut src = Source::new(vec![Src::End]);
    let mut tr = Transform::new(0, identity);
    let mut m = BatchMap::new(false);
    assert!(!m.is_terminated());
    assert_eq!(seen(resume(&mut m, &mut src, &mut tr)), Seen::Done);
    assert!(tr.batches.is_empty());
    assert!(m.is_terminated());
}

#[test]
fn finished_adapter_stays_finished() {
    let mut src = Source::new(vec![Src::Item(5), Src::End]);
    let mut tr = Transform::new(0, identity);
    let (out, mut m) = run(&mut src, &mut tr, 10);
    assert_eq!(out, vec![Seen::Item(5), Seen::Done]);
    let polls = src.polls_after_end;
    assert_eq!(seen(resume(&mut m, &mut src, &mut tr)), Seen::Done);
    assert_eq!(src.polls_after_end, polls);
    assert_eq!(tr.batches.len(), 1);
}

#[test]
fn at_most_one_batch_in_flight() {
    let mut script = vec![];
    for i in 0..6 {
        script.push(Src::Item(i));
        script.push(Src::Pending);
    }
    script.push(Src::End);
    let mut src = Source::new(script);
    let mut tr = Transform::new(2, identity);
    let (out, m) = run(&mut src, &mut tr, 100);
    assert_eq!(tr.max_in_flight, 1);
    let items: Vec<i32> = out
        .iter()
        .filter_map(|s| match s {
            Seen::Item(x) => Some(*x),
            _ => None,
        })
        .collect();
    assert_eq!(items, vec![0, 1, 2, 3, 4, 5]);
    let flat: Vec<i32> = tr.batches.concat();
    assert_eq!(flat, vec![0, 1, 2, 3, 4, 5]);
    assert!(tr.batches.len() < 6);
    assert_eq!(out.last(), Some(&Seen::Done));
    assert!(m.is_terminated());
}

#[test]
fn outputs_are_batch_results_in_order() {
    let mut src = Source::new(vec![
        Src::Item(1),
        Src::Item(2),
        Src::Pending,
        Src::Item(3),
        Src::Pending,
        Src::Item(4),
        Src::Item(5),
        Src::End,
    ]);
    let mut tr = Transform::new(1, |b: &[i32]| Ok(vec![b.iter().sum(), b.len() as i32]));
    let (out, _) = run(&mut src, &mut tr, 100);
    let mut expected = vec![];
    for b in &tr.batches {
        expected.push(Seen::Item(b.iter().sum()));
        expected.push(Seen::Item(b.len() as i32));
    }
    let items: Vec<Seen> = out.into_iter().filter(|s| *s != Seen::Pending).collect();
    expected.push(Seen::Done);
    assert_eq!(items, expected);
    assert_eq!(tr.batches.concat(), vec![1, 2, 3, 4, 5]);
}

#[test]
fn pending_batch_suspends_resumption() {
    let mut src = Source::new(vec![Src::Item(7), Src::Pending, Src::End]);
    let mut tr = Transform::new(1, identity);
    let mut m = BatchMap::new(false);
    assert_eq!(seen(resume(&mut m, &mut src, &mut tr)), Seen::Pending);
    assert!(!m.is_terminated());
    assert_eq!(seen(resume(&mut m, &mut src, &mut tr)), Seen::Item(7));
    assert_eq!(seen(resume(&mut m, &mut src, &mut tr)), Seen::Done);
}

#[test]
fn empty_result_with_waiting_items_starts_next_batch() {
    // The first batch finishes with no outputs while an item waits and the
    // source is already exhausted: the waiting item is batched at once.
    let mut src = Source::new(vec![Src::Item(1), Src::Pending, Src::Item(2), Src::End]);
    let mut first = true;
    let mut tr = Transform::new(1, move |b: &[i32]| {
        if first {
            first = false;
            Ok(vec![])
        } else {
            Ok(b.iter().map(|x| x * 10).collect())
        }
    });
    let (out, m) = run(&mut src, &mut tr, 10);
    assert_eq!(out, vec![Seen::Pending, Seen::Pending, Seen::Item(20), Seen::Done]);
    assert_eq!(tr.batches, vec![vec![1], vec![2]]);
    assert!(m.is_terminated());
}

#[test]
fn source_failure_is_terminal() {
    let mut src = Source::new(vec![Src::Item(1), Src::Fail("bad source"), Src::Item(2), Src::End]);
    let mut tr = Transform::new(0, identity);
    let (out, m) = run(&mut src, &mut tr, 10);
    assert_eq!(out, vec![Seen::Failed("bad source"), Seen::Done]);
    assert!(tr.batches.is_empty());
    assert!(m.is_terminated());
}

#[test]
fn queued_outputs_drain_before_source_is_polled() {
    let mut src = Source::new(vec![Src::Item(1), Src::Pending, Src::Item(9), Src::End]);
    let mut tr = Transform::new(0, |b: &[i32]| Ok(vec![b[0], b[0] + 1, b[0] + 2]));
    let mut m = BatchMap::new(false);
    assert_eq!(seen(resume(&mut m, &mut src, &mut tr)), Seen::Item(1));
    let left = src.script.len();
    assert_eq!(seen(resume(&mut m, &mut src, &mut tr)), Seen::Item(2));
    assert_eq!(seen(resume(&mut m, &mut src, &mut tr)), Seen::Item(3));
    assert_eq!(src.script.len(), left);
    assert_eq!(seen(resume(&mut m, &mut src, &mut tr)), Seen::Item(9));
}

#[test]
fn failing_batch_after_finished_one_keeps_its_outputs() {
    let mut src = Source::new(vec![Src::Item(1), Src::Pending, Src::Item(2), Src::Pending, Src::End]);
    let mut tr = Transform::new(1, |b: &[i32]| if b == [1] { Ok(vec![10]) } else { Err("E2") });
    let (out, m) = run(&mut src, &mut tr, 10);
    assert_eq!(out, vec![Seen::Pending, Seen::Item(10), Seen::Pending, Seen::Failed("E2"), Seen::Done]);
    assert_eq!(tr.batches, vec![vec![1], vec![2]]);
    assert_eq!(tr.max_in_flight, 1);
    assert!(m.is_terminated());
}

#[test]
fn finished_batch_outputs_come_before_next_batch_is_advanced() {
    let mut src = Source::new(vec![Src::Item(1), Src::Pending, Src::Item(2), Src::Pending, Src::End]);
    let mut tr = Transform::new(1, |b: &[i32]| Ok(vec![b[0] * 10, b[0] * 10 + 1]));
    let mut m = BatchMap::new(false);
    assert_eq!(seen(resume(&mut m, &mut src, &mut tr)), Seen::Pending);
    assert_eq!(seen(resume(&mut m, &mut src, &mut tr)), Seen::Item(10));
    // The batch [2] has started but is not advanced while 11 is queued.
    assert_eq!(tr.batches, vec![vec![1], vec![2]]);
    assert_eq!(tr.current, Some((vec![2], 1)));
    assert_eq!(seen(resume(&mut m, &mut src, &mut tr)), Seen::Item(11));
    assert_eq!(tr.current, Some((vec![2], 1)));
    assert_eq!(seen(resume(&mut m, &mut src, &mut tr)), Seen::Pending);
    assert_eq!(seen(resume(&mut m, &mut src, &mut tr)), Seen::Item(20));
    assert_eq!(seen(resume(&mut m, &mut src, &mut tr)), Seen::Item(21));
    assert_eq!(seen(resume(&mut m, &mut src, &mut tr)), Seen::Done);
}

#[test]
fn adapter_over_exhausted_source_is_finished_at_once() {
    let mut m: BatchMap<i32, i32> = BatchMap::new(true);
    assert!(m.is_terminated());
    let mut src = Source::new(vec![Src::Item(1)]);
    let mut tr = Transform::new(0, identity);
    assert_eq!(seen(resume(&mut m, &mut src, &mut tr)), Seen::Done);
    assert_eq!(src.script.len(), 1);
    assert!(tr.batches.is_empty());
}
