//! A run: the object a caller logs to and finishes.
//!
//! Every operation is one step of a state machine over [`RunView`]. A step
//! never waits. Where the caller would have to wait, for room in the queue or
//! for the flush, the step answers `Pending` and the caller comes back later
//! with a newer instant; once the deadline has passed the step gives the
//! final answer instead.

use crate::clock::deadline;
use crate::clock::deadline_after;
use crate::event::Event;
use crate::event::EventView;
use crate::event::Outbox;
use crate::event::offer;
use crate::limits::Limits;
use crate::queue::RecordQueue;
use crate::queue::all_wf;
use crate::queue::views;
use crate::record::Fields;
use crate::record::MetricRecord;
use crate::record::RecordView;
use crate::rng::draw_of;
use crate::rng::next_state;
use crate::sampler::Sampler;
use vstd::prelude::*;

verus! {

/// Where a run stands in its life.
#[derive(Clone, Copy, Debug, PartialEq, Eq, Structural)]
pub enum RunState {
    /// Registered; nothing logged yet.
    Created,
    /// At least one log call has succeeded.
    Running,
    /// Finish was asked for; the flush is under way.
    Finishing,
    /// The flush completed or its deadline passed.
    Finished,
}

/// Where the dispatcher stands with a run.
#[derive(Clone, Copy, Debug, PartialEq, Eq, Structural)]
pub enum Phase {
    /// Nothing has been taken from the run's queue yet.
    Idle,
    /// Batches are being taken and sent.
    Draining,
    /// The run is finishing and is served ahead of the others.
    Flushing,
    /// The run is finished and no longer served.
    Done,
}

/// Why a call on a run failed.
#[derive(Clone, Copy, Debug, PartialEq, Eq, Structural)]
pub enum RunError {
    /// The run no longer takes the operation.
    InvalidState,
    /// The queue stayed full until the deadline.
    QueueFull,
    /// The run finished with this many records not acknowledged.
    PartialFlush(u64),
}

/// What a log step did.
#[derive(Clone, Copy, Debug, PartialEq, Eq, Structural)]
pub enum LogStep {
    /// The record was queued under this sequence number.
    Accepted(u64),
    /// The record was sampled out; nothing was queued.
    Skipped,
    /// The queue is full and the deadline has not passed: call again.
    Pending,
}

/// What a finish step did.
#[derive(Clone, Copy, Debug, PartialEq, Eq, Structural)]
pub enum FinishStep {
    /// The run is finished and every queued record was acknowledged.
    Flushed,
    /// Records are still on their way and the deadline has not passed: call again.
    Pending,
}

/// What the dispatcher is to do for a run next.
#[derive(Clone, Copy, Debug, PartialEq, Eq, Structural)]
pub enum Action {
    /// Send the batch in flight to the collector now.
    Transmit,
    /// Leave the batch in flight alone until this instant.
    Backoff(u64),
    /// Nothing to send.
    Idle,
    /// Stop serving the run.
    Retire,
}

/// A run as plain values.
pub struct RunView {
    pub id: Seq<char>,
    pub state: RunState,
    /// Records that wait to be taken by the dispatcher, oldest first.
    pub queue: Seq<RecordView>,
    pub capacity: nat,
    /// The sequence number of the next accepted record: how many were accepted so far.
    pub next_sequence: u64,
    /// The batch the dispatcher has taken and not yet settled.
    pub in_flight: Seq<RecordView>,
    /// How often the batch in flight has failed.
    pub attempts: u32,
    /// The instant from which the batch in flight may be sent.
    pub retry_at: u64,
    /// How many records the collector has acknowledged.
    pub delivered: u64,
    /// How many records were given up.
    pub failed: u64,
    /// The sequence number of the last record that the collector acknowledged.
    pub last_acked: Option<u64>,
    pub sample_limit: u64,
    pub sample_state: u64,
    pub events: Seq<EventView>,
    pub event_capacity: nat,
    pub enqueue_timeout: u64,
    pub finish_timeout: u64,
}

/// What holds of every run. Each accepted record is in exactly one place:
/// acknowledged, given up, in flight or queued. The records in flight
/// followed by the queued ones carry the run's id and consecutive sequence
/// numbers, starting right after the settled ones, and so above the last
/// acknowledged one.
pub open spec fn valid(v: RunView) -> bool {
    &&& v.queue.len() <= v.capacity
    &&& v.delivered + v.failed + v.in_flight.len() + v.queue.len() == v.next_sequence
    &&& forall|i: int|
        0 <= i < v.in_flight.len() ==> (#[trigger] v.in_flight[i]).run_id == v.id
            && v.in_flight[i].sequence == v.delivered + v.failed + i
    &&& forall|j: int|
        0 <= j < v.queue.len() ==> (#[trigger] v.queue[j]).run_id == v.id && v.queue[j].sequence
            == v.delivered + v.failed + v.in_flight.len() + j
    &&& (v.in_flight.len() == 0 ==> v.attempts == 0)
    &&& (v.state is Created ==> v.next_sequence == 0)
    &&& match v.last_acked {
        Some(mark) => v.delivered > 0 && mark < v.delivered + v.failed,
        None => v.delivered == 0,
    }
}

/// The dispatcher's phase, read off the run.
pub open spec fn phase_of(v: RunView) -> Phase {
    if v.state is Finished {
        Phase::Done
    } else if v.state is Finishing {
        Phase::Flushing
    } else if v.delivered + v.failed + v.in_flight.len() > 0 {
        Phase::Draining
    } else {
        Phase::Idle
    }
}

/// The run takes log calls: finish was not asked for and a sequence number is left.
pub open spec fn accepts_logs(v: RunView) -> bool {
    (v.state is Created || v.state is Running) && v.next_sequence < u64::MAX
}

/// The sampling stream keeps the next record.
pub open spec fn keeps_next(v: RunView) -> bool {
    draw_of(next_state(v.sample_state)) < v.sample_limit
}

/// The record that a log call at `now` queues.
pub open spec fn record_of(v: RunView, fields: Map<Seq<char>, u64>, now: u64) -> RecordView {
    RecordView { run_id: v.id, sequence: v.next_sequence, timestamp: now, fields }
}

/// The answer of a log step.
pub open spec fn log_outcome(v: RunView, now: u64, deadline: u64) -> Result<LogStep, RunError> {
    if !accepts_logs(v) {
        Err(RunError::InvalidState)
    } else if !keeps_next(v) {
        Ok(LogStep::Skipped)
    } else if v.queue.len() >= v.capacity {
        if now >= deadline {
            Err(RunError::QueueFull)
        } else {
            Ok(LogStep::Pending)
        }
    } else {
        Ok(LogStep::Accepted(v.next_sequence))
    }
}

/// The run after a log step. Only a decided record moves anything: an
/// accepted one is queued last and announced, a skipped one only moves the
/// sampling stream. A refused or pending call leaves the run as it was.
pub open spec fn log_next(v: RunView, fields: Map<Seq<char>, u64>, now: u64, deadline: u64) -> RunView {
    match log_outcome(v, now, deadline) {
        Ok(LogStep::Accepted(sequence)) => RunView {
            state: RunState::Running,
            queue: v.queue.push(record_of(v, fields, now)),
            next_sequence: (v.next_sequence + 1) as u64,
            sample_state: next_state(v.sample_state),
            events: offer(
                v.events,
                v.event_capacity,
                EventView::LogAccepted { run_id: v.id, sequence },
            ),
            ..v
        },
        Ok(LogStep::Skipped) => RunView {
            state: RunState::Running,
            sample_state: next_state(v.sample_state),
            ..v
        },
        _ => v,
    }
}

/// How many accepted records the collector has not acknowledged.
pub open spec fn undelivered(v: RunView) -> int {
    v.next_sequence - v.delivered
}

/// Nothing waits and nothing is in flight.
pub open spec fn drained(v: RunView) -> bool {
    v.queue.len() == 0 && v.in_flight.len() == 0
}

/// What a finished run reports.
pub open spec fn verdict(v: RunView) -> Result<FinishStep, RunError> {
    if undelivered(v) == 0 {
        Ok(FinishStep::Flushed)
    } else {
        Err(RunError::PartialFlush(undelivered(v) as u64))
    }
}

/// The answer of a finish step.
pub open spec fn finish_outcome(v: RunView, now: u64, deadline: u64) -> Result<
    FinishStep,
    RunError,
> {
    if v.state is Finished || drained(v) || now >= deadline {
        verdict(v)
    } else {
        Ok(FinishStep::Pending)
    }
}

/// The run after a finish step. A finished run stays as it is. Otherwise the
/// run is finished once it is drained or the deadline has passed, and is
/// finishing until then.
pub open spec fn finish_next(v: RunView, now: u64, deadline: u64) -> RunView {
    if v.state is Finished {
        v
    } else if drained(v) || now >= deadline {
        RunView {
            state: RunState::Finished,
            events: offer(v.events, v.event_capacity, EventView::RunFinished { run_id: v.id }),
            ..v
        }
    } else {
        RunView { state: RunState::Finishing, ..v }
    }
}

/// How many records the dispatcher takes from the queue at once.
pub open spec fn pull_size(v: RunView, batch_size: usize) -> int {
    if batch_size <= v.queue.len() {
        batch_size as int
    } else {
        v.queue.len() as int
    }
}

/// The dispatcher may take a fresh batch: the run is served, nothing is in
/// flight and something waits.
pub open spec fn pulls(v: RunView, batch_size: usize) -> bool {
    !(v.state is Finished) && v.in_flight.len() == 0 && pull_size(v, batch_size) > 0
}

/// What the dispatcher is to do for the run at `now`.
pub open spec fn dispatch_action(v: RunView, batch_size: usize, now: u64) -> Action {
    if v.state is Finished {
        Action::Retire
    } else if v.in_flight.len() > 0 {
        if now >= v.retry_at {
            Action::Transmit
        } else {
            Action::Backoff(v.retry_at)
        }
    } else if pull_size(v, batch_size) > 0 {
        Action::Transmit
    } else {
        Action::Idle
    }
}

/// The run after the dispatcher looked at it: where a fresh batch may be
/// taken, the oldest queued records move into flight, in their order.
pub open spec fn dispatch_next(v: RunView, batch_size: usize, now: u64) -> RunView {
    if pulls(v, batch_size) {
        RunView {
            in_flight: v.queue.subrange(0, pull_size(v, batch_size)),
            queue: v.queue.subrange(pull_size(v, batch_size), v.queue.len() as int),
            retry_at: now,
            ..v
        }
    } else {
        v
    }
}

/// A batch is in flight for a run that is still served.
pub open spec fn awaiting(v: RunView) -> bool {
    !(v.state is Finished) && v.in_flight.len() > 0
}

/// The run after the collector acknowledged the batch in flight: its records
/// count as delivered and the last of them is the last acknowledged.
pub open spec fn ack_next(v: RunView) -> RunView {
    if awaiting(v) {
        RunView {
            delivered: (v.delivered + v.in_flight.len()) as u64,
            last_acked: Some((v.delivered + v.failed + v.in_flight.len() - 1) as u64),
            in_flight: Seq::empty(),
            attempts: 0,
            ..v
        }
    } else {
        v
    }
}

/// The run after a failed attempt that will be repeated from `retry_at`.
pub open spec fn retry_next(v: RunView, retry_at: u64) -> RunView {
    RunView { attempts: (v.attempts + 1) as u32, retry_at, ..v }
}

/// The run after the batch in flight was given up.
pub open spec fn drop_next(v: RunView) -> RunView {
    RunView {
        failed: (v.failed + v.in_flight.len()) as u64,
        in_flight: Seq::empty(),
        attempts: 0,
        ..v
    }
}

/// One logical stream of metric records, from creation to the final flush.
pub struct Run {
    id: String,
    state: RunState,
    queue: RecordQueue,
    next_sequence: u64,
    in_flight: Vec<MetricRecord>,
    attempts: u32,
    retry_at: u64,
    delivered: u64,
    failed: u64,
    last_acked: Option<u64>,
    sampler: Sampler,
    events: Outbox,
    enqueue_timeout: u64,
    finish_timeout: u64,
}

impl View for Run {
    type V = RunView;

    closed spec fn view(&self) -> RunView {
        RunView {
            id: self.id@,
            state: self.state,
            queue: self.queue@,
            capacity: self.queue.bound(),
            next_sequence: self.next_sequence,
            in_flight: views(self.in_flight@),
            attempts: self.attempts,
            retry_at: self.retry_at,
            delivered: self.delivered,
            failed: self.failed,
            last_acked: self.last_acked,
            sample_limit: self.sampler.limit(),
            sample_state: self.sampler.state(),
            events: self.events@,
            event_capacity: self.events.bound(),
            enqueue_timeout: self.enqueue_timeout,
            finish_timeout: self.finish_timeout,
        }
    }
}

impl Run {
    /// The run is valid, its parts are well formed, and its queue is closed
    /// exactly when finish was asked for.
    pub closed spec fn wf(&self) -> bool {
        &&& valid(self@)
        &&& self.queue.wf()
        &&& all_wf(self.in_flight@)
        &&& self.queue.sealed() == (self.state is Finishing || self.state is Finished)
    }

    /// A well-formed run is valid.
    pub proof fn lemma_valid(&self)
        requires
            self.wf(),
        ensures
            valid(self@),
    {
    }

    /// A fresh run in state `Created` with an open, empty queue.
    pub(crate) fn open(id: String, sampler: Sampler, limits: &Limits) -> (run: Run)
        ensures
            run.wf(),
            run@ == (RunView {
                id: id@,
                state: RunState::Created,
                queue: Seq::empty(),
                capacity: limits.queue_capacity as nat,
                next_sequence: 0,
                in_flight: Seq::empty(),
                attempts: 0,
                retry_at: 0,
                delivered: 0,
                failed: 0,
                last_acked: None,
                sample_limit: sampler.limit(),
                sample_state: sampler.state(),
                events: Seq::empty(),
                event_capacity: limits.event_capacity as nat,
                enqueue_timeout: limits.enqueue_timeout_ms,
                finish_timeout: limits.finish_timeout_ms,
            }),
    {
        let run = Run {
            id,
            state: RunState::Created,
            queue: RecordQueue::new(limits.queue_capacity),
            next_sequence: 0,
            in_flight: Vec::new(),
            attempts: 0,
            retry_at: 0,
            delivered: 0,
            failed: 0,
            last_acked: None,
            sampler,
            events: Outbox::new(limits.event_capacity),
            enqueue_timeout: limits.enqueue_timeout_ms,
            finish_timeout: limits.finish_timeout_ms,
        };
        assert(run@.in_flight =~= Seq::<RecordView>::empty());
        run
    }

    /// One step of logging `fields` at the instant `now`, for a call that
    /// gives up waiting for room at `deadline`.
    ///
    /// A run that is finishing or finished, or that has used up its sequence
    /// numbers, refuses with `InvalidState`. Otherwise the sampling stream
    /// decides: a record it rejects is `Skipped`. A record it keeps is queued
    /// under the next sequence number if there is room; if there is none the
    /// answer is `Pending` before the deadline and `QueueFull` from the
    /// deadline on, and the record is not lost silently: the run is unchanged
    /// and the caller still holds `fields`.
    pub fn log(&mut self, fields: &Fields, now: u64, deadline: u64) -> (outcome: Result<
        LogStep,
        RunError,
    >)
        requires
            old(self).wf(),
            fields.wf(),
        ensures
            final(self).wf(),
            outcome == log_outcome(old(self)@, now, deadline),
            final(self)@ == log_next(old(self)@, fields@, now, deadline),
    {
        match self.state {
            RunState::Finishing | RunState::Finished => {
                return Err(RunError::InvalidState);
            },
            _ => {},
        }
        if self.next_sequence == u64::MAX {
            return Err(RunError::InvalidState);
        }
        if !self.sampler.peek() {
            self.sampler.advance();
            self.state = RunState::Running;
            return Ok(LogStep::Skipped);
        }
        if self.queue.is_full() {
            if now >= deadline {
                return Err(RunError::QueueFull);
            } else {
                return Ok(LogStep::Pending);
            }
        }
        let sequence: u64 = self.next_sequence;
        let record = MetricRecord::new(self.id.clone(), sequence, now, fields.duplicate());
        let pushed = self.queue.push(record);
        assert(pushed is Ok);
        self.next_sequence = sequence + 1;
        self.sampler.advance();
        self.state = RunState::Running;
        let _ = self.events.emit(Event::LogAccepted { run_id: self.id.clone(), sequence });
        Ok(LogStep::Accepted(sequence))
    }

    /// One step of finishing the run at the instant `now`, for a call that
    /// gives up waiting for the flush at `deadline`.
    ///
    /// The first step closes the queue. The run becomes `Finished` once
    /// nothing waits and nothing is in flight, or once the deadline has
    /// passed; the answer is then `Flushed` if every accepted record was
    /// acknowledged and `PartialFlush` with the number that were not
    /// otherwise. Until then the answer is `Pending`. A finished run gives
    /// the same answer again and does not change.
    pub fn finish(&mut self, now: u64, deadline: u64) -> (outcome: Result<FinishStep, RunError>)
        requires
            old(self).wf(),
        ensures
            final(self).wf(),
            outcome == finish_outcome(old(self)@, now, deadline),
            final(self)@ == finish_next(old(self)@, now, deadline),
    {
        match self.state {
            RunState::Finished => {
                return self.report();
            },
            _ => {},
        }
        self.queue.close();
        if (self.queue.is_empty() && self.in_flight.len() == 0) || now >= deadline {
            self.state = RunState::Finished;
            let _ = self.events.emit(Event::RunFinished { run_id: self.id.clone() });
            self.report()
        } else {
            self.state = RunState::Finishing;
            Ok(FinishStep::Pending)
        }
    }

    /// What the run reports once finished.
    fn report(&self) -> (outcome: Result<FinishStep, RunError>)
        requires
            valid(self@),
        ensures
            outcome == verdict(self@),
    {
        let missing: u64 = self.next_sequence - self.delivered;
        if missing == 0 {
            Ok(FinishStep::Flushed)
        } else {
            Err(RunError::PartialFlush(missing))
        }
    }

    /// The dispatcher's look at the run: takes a fresh batch into flight
    /// where one may be taken, and says what to do.
    pub(crate) fn dispatch(&mut self, batch_size: usize, now: u64) -> (action: Action)
        requires
            old(self).wf(),
        ensures
            final(self).wf(),
            action == dispatch_action(old(self)@, batch_size, now),
            final(self)@ == dispatch_next(old(self)@, batch_size, now),
    {
        match self.state {
            RunState::Finished => {
                return Action::Retire;
            },
            _ => {},
        }
        if self.in_flight.len() > 0 {
            if now >= self.retry_at {
                return Action::Transmit;
            } else {
                return Action::Backoff(self.retry_at);
            }
        }
        if batch_size == 0 || self.queue.is_empty() {
            return Action::Idle;
        }
        let batch = self.queue.drain(batch_size);
        self.in_flight = batch;
        self.retry_at = now;
        proof {
            let v = old(self)@;
            let k = pull_size(v, batch_size);
            assert(self@.in_flight =~= v.queue.subrange(0, k));
            assert(self@.queue =~= v.queue.subrange(k, v.queue.len() as int));
        }
        Action::Transmit
    }

    /// Settles the batch in flight as acknowledged.
    pub(crate) fn acknowledge(&mut self) -> (settled: bool)
        requires
            old(self).wf(),
        ensures
            final(self).wf(),
            settled == awaiting(old(self)@),
            final(self)@ == ack_next(old(self)@),
    {
        match self.state {
            RunState::Finished => {
                return false;
            },
            _ => {},
        }
        let count: usize = self.in_flight.len();
        if count == 0 {
            return false;
        }
        self.last_acked = Some(self.delivered + self.failed + (count as u64) - 1);
        self.delivered = self.delivered + (count as u64);
        self.in_flight = Vec::new();
        self.attempts = 0;
        assert(self@.in_flight =~= Seq::<RecordView>::empty());
        true
    }

    /// Notes one more failed attempt on the batch in flight, to be repeated
    /// from `retry_at`.
    pub(crate) fn postpone(&mut self, retry_at: u64)
        requires
            old(self).wf(),
            awaiting(old(self)@),
            old(self)@.attempts < u32::MAX,
        ensures
            final(self).wf(),
            final(self)@ == retry_next(old(self)@, retry_at),
    {
        self.attempts = self.attempts + 1;
        self.retry_at = retry_at;
    }

    /// Gives up the batch in flight and returns how many records it held.
    pub(crate) fn abandon(&mut self) -> (count: u64)
        requires
            old(self).wf(),
            awaiting(old(self)@),
        ensures
            final(self).wf(),
            final(self)@ == drop_next(old(self)@),
            count == old(self)@.in_flight.len(),
    {
        let count: u64 = self.in_flight.len() as u64;
        self.failed = self.failed + count;
        self.in_flight = Vec::new();
        self.attempts = 0;
        assert(self@.in_flight =~= Seq::<RecordView>::empty());
        count
    }

    /// The run's identity.
    pub fn id(&self) -> (id: &String)
        ensures
            id@ == self@.id,
    {
        &self.id
    }

    /// Where the run stands in its life.
    pub fn state(&self) -> (state: RunState)
        ensures
            state == self@.state,
    {
        self.state
    }

    /// Where the dispatcher stands with the run.
    pub fn phase(&self) -> (phase: Phase)
        requires
            self.wf(),
        ensures
            phase == phase_of(self@),
    {
        match self.state {
            RunState::Finished => Phase::Done,
            RunState::Finishing => Phase::Flushing,
            _ => {
                if self.delivered > 0 || self.failed > 0 || self.in_flight.len() > 0 {
                    Phase::Draining
                } else {
                    Phase::Idle
                }
            },
        }
    }

    /// How many records were accepted so far.
    pub fn accepted(&self) -> (n: u64)
        ensures
            n == self@.next_sequence,
    {
        self.next_sequence
    }

    /// How many records the collector has acknowledged.
    pub fn delivered(&self) -> (n: u64)
        ensures
            n == self@.delivered,
    {
        self.delivered
    }

    /// The sequence number of the last record that the collector
    /// acknowledged, if it has acknowledged any.
    pub fn last_acknowledged(&self) -> (mark: Option<u64>)
        ensures
            mark == self@.last_acked,
    {
        self.last_acked
    }

    /// How many records were given up.
    pub fn failed(&self) -> (n: u64)
        ensures
            n == self@.failed,
    {
        self.failed
    }

    /// How many records wait in the queue.
    pub fn queued(&self) -> (n: usize)
        ensures
            n == self@.queue.len(),
    {
        self.queue.len()
    }

    /// How often the batch in flight has failed.
    pub fn attempts(&self) -> (n: u32)
        ensures
            n == self@.attempts,
    {
        self.attempts
    }

    /// The instant from which the batch in flight may be sent.
    pub fn retry_at(&self) -> (at: u64)
        ensures
            at == self@.retry_at,
    {
        self.retry_at
    }

    /// The batch in flight, oldest record first: what a `Transmit` sends.
    pub fn in_flight(&self) -> (batch: &Vec<MetricRecord>)
        requires
            self.wf(),
        ensures
            views(batch@) == self@.in_flight,
            all_wf(batch@),
    {
        &self.in_flight
    }

    /// Hands over the run's waiting events, oldest first.
    pub fn take_events(&mut self) -> (events: Vec<Event>)
        requires
            old(self).wf(),
        ensures
            final(self).wf(),
            crate::event::event_views(events@) == old(self)@.events,
            final(self)@ == (RunView { events: Seq::empty(), ..old(self)@ }),
    {
        self.events.take()
    }

    /// The deadline of a log call that starts at `now`.
    pub fn log_deadline(&self, now: u64) -> (at: u64)
        ensures
            at == deadline_after(now, self@.enqueue_timeout),
    {
        deadline(now, self.enqueue_timeout)
    }

    /// The deadline of a finish call that starts at `now`: after `timeout`
    /// where the caller names one, after the configured one where not.
    pub fn finish_deadline(&self, now: u64, timeout: Option<u64>) -> (at: u64)
        ensures
            at == deadline_after(
                now,
                match timeout {
                    Some(t) => t,
                    None => self@.finish_timeout,
                },
            ),
    {
        match timeout {
            Some(t) => deadline(now, t),
            None => deadline(now, self.finish_timeout),
        }
    }
}

} // verus!
