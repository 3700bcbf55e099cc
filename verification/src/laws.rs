//! What holds of the pipeline as a whole, proved over the state machines
//! that the operations' contracts are stated in.
//!
//! A pipeline here is one run together with the dispatcher that serves it,
//! both as plain values; a trace is any list of steps taken on it, in any
//! interleaving.

use crate::dispatcher::Demand;
use crate::dispatcher::DispatcherView;
use crate::dispatcher::FailureStep;
use crate::dispatcher::ack_next_dispatcher;
use crate::dispatcher::distance;
use crate::dispatcher::exhausted;
use crate::dispatcher::failure_next;
use crate::dispatcher::failure_next_run;
use crate::dispatcher::failure_outcome;
use crate::dispatcher::nearest;
use crate::dispatcher::round_start;
use crate::dispatcher::selects;
use crate::event::EventView;
use crate::event::offer;
use crate::record::RecordView;
use crate::run::Action;
use crate::run::FinishStep;
use crate::run::LogStep;
use crate::run::Phase;
use crate::run::RunError;
use crate::run::RunView;
use crate::run::accepts_logs;
use crate::run::ack_next;
use crate::run::awaiting;
use crate::run::dispatch_action;
use crate::run::dispatch_next;
use crate::run::drained;
use crate::run::finish_next;
use crate::run::finish_outcome;
use crate::run::keeps_next;
use crate::run::log_next;
use crate::run::log_outcome;
use crate::run::phase_of;
use crate::run::pull_size;
use crate::run::pulls;
use crate::run::record_of;
use crate::run::valid;
use crate::run::verdict;
use vstd::prelude::*;

verus! {

/// One operation on a pipeline.
pub enum Step {
    /// A log step with these readings.
    Log { fields: Map<Seq<char>, u64>, now: u64, deadline: u64 },
    /// A finish step.
    Finish { now: u64, deadline: u64 },
    /// The dispatcher looks at the run.
    Dispatch { now: u64 },
    /// The collector acknowledged the batch in flight.
    Ack,
    /// The collector refused the batch in flight.
    Failure { now: u64 },
}

/// A run and the dispatcher that serves it.
pub struct Pipeline {
    pub dispatcher: DispatcherView,
    pub run: RunView,
}

/// The pipeline after one step.
pub open spec fn step(p: Pipeline, s: Step) -> Pipeline {
    match s {
        Step::Log { fields, now, deadline } => Pipeline {
            run: log_next(p.run, fields, now, deadline),
            ..p
        },
        Step::Finish { now, deadline } => Pipeline { run: finish_next(p.run, now, deadline), ..p },
        Step::Dispatch { now } => Pipeline {
            run: dispatch_next(p.run, p.dispatcher.batch_size, now),
            ..p
        },
        Step::Ack => Pipeline {
            dispatcher: ack_next_dispatcher(p.dispatcher, p.run),
            run: ack_next(p.run),
        },
        Step::Failure { now } => Pipeline {
            dispatcher: failure_next(p.dispatcher, p.run, now),
            run: failure_next_run(p.dispatcher, p.run, now),
        },
    }
}

/// The records that a step moves from the queue into the dispatcher's hands.
pub open spec fn taken(p: Pipeline, s: Step) -> Seq<RecordView> {
    match s {
        Step::Dispatch { now } => if pulls(p.run, p.dispatcher.batch_size) {
            dispatch_next(p.run, p.dispatcher.batch_size, now).in_flight
        } else {
            Seq::empty()
        },
        _ => Seq::empty(),
    }
}

/// The records that a step hands to the collector: the batch in flight,
/// whenever the dispatcher is told to transmit.
pub open spec fn transmitted(p: Pipeline, s: Step) -> Seq<RecordView> {
    match s {
        Step::Dispatch { now } => if dispatch_action(p.run, p.dispatcher.batch_size, now)
            is Transmit {
            dispatch_next(p.run, p.dispatcher.batch_size, now).in_flight
        } else {
            Seq::empty()
        },
        _ => Seq::empty(),
    }
}

/// The pipeline after a trace.
pub open spec fn after(p: Pipeline, steps: Seq<Step>) -> Pipeline
    decreases steps.len(),
{
    if steps.len() == 0 {
        p
    } else {
        step(after(p, steps.drop_last()), steps.last())
    }
}

/// Every record that the dispatcher takes in the course of a trace, in the
/// order in which it takes them.
pub open spec fn observed(p: Pipeline, steps: Seq<Step>) -> Seq<RecordView>
    decreases steps.len(),
{
    if steps.len() == 0 {
        Seq::empty()
    } else {
        observed(p, steps.drop_last()) + taken(after(p, steps.drop_last()), steps.last())
    }
}

/// How many records the dispatcher has taken from the run so far.
pub open spec fn handed_over(v: RunView) -> int {
    v.delivered + v.failed + v.in_flight.len()
}

/// How many accepted records are neither acknowledged nor given up.
pub open spec fn outstanding(v: RunView) -> nat {
    v.in_flight.len() + v.queue.len()
}

/// Every step keeps a valid run valid, keeps its id, and moves the count of
/// records handed over by exactly the records it takes, which continue the
/// run's numbering.
pub proof fn law_step_keeps_valid(p: Pipeline, s: Step)
    requires
        valid(p.run),
    ensures
        valid(step(p, s).run),
        step(p, s).run.id == p.run.id,
        step(p, s).dispatcher.batch_size == p.dispatcher.batch_size,
        handed_over(step(p, s).run) == handed_over(p.run) + taken(p, s).len(),
        forall|i: int|
            0 <= i < taken(p, s).len() ==> (#[trigger] taken(p, s)[i]).sequence == handed_over(
                p.run,
            ) + i && taken(p, s)[i].run_id == p.run.id,
{
    let v = p.run;
    let w = step(p, s).run;
    match s {
        Step::Log { fields, now, deadline } => {
            if log_outcome(v, now, deadline) is Ok && log_outcome(v, now, deadline)->Ok_0
                is Accepted {
                assert forall|j: int| 0 <= j < w.queue.len() implies (#[trigger] w.queue[j]).run_id
                    == w.id && w.queue[j].sequence == w.delivered + w.failed + w.in_flight.len()
                    + j by {
                    if j < v.queue.len() {
                        assert(w.queue[j] == v.queue[j]);
                    }
                }
            }
        },
        Step::Finish { now, deadline } => {},
        Step::Dispatch { now } => {
            if pulls(v, p.dispatcher.batch_size) {
                let k = pull_size(v, p.dispatcher.batch_size);
                assert forall|i: int| 0 <= i < w.in_flight.len() implies (
                #[trigger] w.in_flight[i]).run_id == w.id && w.in_flight[i].sequence == w.delivered
                    + w.failed + i by {
                    assert(w.in_flight[i] == v.queue[i]);
                }
                assert forall|j: int| 0 <= j < w.queue.len() implies (#[trigger] w.queue[j]).run_id
                    == w.id && w.queue[j].sequence == w.delivered + w.failed + w.in_flight.len()
                    + j by {
                    assert(w.queue[j] == v.queue[k + j]);
                }
            }
        },
        Step::Ack => {
            if awaiting(v) {
                assert forall|j: int| 0 <= j < w.queue.len() implies (#[trigger] w.queue[j]).run_id
                    == w.id && w.queue[j].sequence == w.delivered + w.failed + w.in_flight.len()
                    + j by {
                    assert(w.queue[j] == v.queue[j]);
                }
            }
        },
        Step::Failure { now } => {
            if awaiting(v) && exhausted(p.dispatcher, v) {
                assert forall|j: int| 0 <= j < w.queue.len() implies (#[trigger] w.queue[j]).run_id
                    == w.id && w.queue[j].sequence == w.delivered + w.failed + w.in_flight.len()
                    + j by {
                    assert(w.queue[j] == v.queue[j]);
                }
            }
        },
    }
}

/// Over any trace on a valid run, the records that the dispatcher takes
/// carry the run's id and consecutive sequence numbers: strictly
/// increasing, without a gap, continuing from what it had taken before.
pub proof fn law_observed_sequence(p: Pipeline, steps: Seq<Step>)
    requires
        valid(p.run),
    ensures
        valid(after(p, steps).run),
        after(p, steps).run.id == p.run.id,
        after(p, steps).dispatcher.batch_size == p.dispatcher.batch_size,
        handed_over(after(p, steps).run) == handed_over(p.run) + observed(p, steps).len(),
        forall|i: int|
            0 <= i < observed(p, steps).len() ==> (#[trigger] observed(p, steps)[i]).sequence
                == handed_over(p.run) + i && observed(p, steps)[i].run_id == p.run.id,
    decreases steps.len(),
{
    if steps.len() > 0 {
        let head = steps.drop_last();
        law_observed_sequence(p, head);
        law_step_keeps_valid(after(p, head), steps.last());
        let before = observed(p, head);
        let fresh = taken(after(p, head), steps.last());
        assert forall|i: int| 0 <= i < observed(p, steps).len() implies (#[trigger] observed(
            p,
            steps,
        )[i]).sequence == handed_over(p.run) + i && observed(p, steps)[i].run_id == p.run.id by {
            if i < before.len() {
                assert(observed(p, steps)[i] == before[i]);
            } else {
                assert(observed(p, steps)[i] == fresh[i - before.len()]);
            }
        }
    }
}

/// On a run that starts out fresh, the dispatcher observes the sequence
/// numbers 0, 1, 2 and so on, whatever the trace.
pub proof fn law_fresh_run_counts_from_zero(p: Pipeline, steps: Seq<Step>)
    requires
        valid(p.run),
        p.run.state is Created,
    ensures
        forall|i: int|
            0 <= i < observed(p, steps).len() ==> (#[trigger] observed(p, steps)[i]).sequence == i,
{
    law_observed_sequence(p, steps);
}

/// What the dispatcher hands to the collector is the batch in flight, and no
/// record in it was settled before: each lies above the last acknowledged
/// one, so an acknowledged record is never sent again.
pub proof fn law_transmits_only_unsettled(p: Pipeline, s: Step)
    requires
        valid(p.run),
    ensures
        transmitted(p, s).len() > 0 ==> transmitted(p, s) == step(p, s).run.in_flight,
        forall|i: int|
            0 <= i < transmitted(p, s).len() ==> (#[trigger] transmitted(p, s)[i]).sequence
                >= p.run.delivered + p.run.failed,
        p.run.in_flight.len() > 0 && transmitted(p, s).len() > 0 ==> transmitted(p, s)
            == p.run.in_flight,
        forall|i: int|
            0 <= i < transmitted(p, s).len() && p.run.last_acked is Some ==> (
            #[trigger] transmitted(p, s)[i]).sequence > p.run.last_acked->0,
{
    law_step_keeps_valid(p, s);
    let w = step(p, s).run;
    assert forall|i: int| 0 <= i < transmitted(p, s).len() implies (#[trigger] transmitted(
        p,
        s,
    )[i]).sequence >= p.run.delivered + p.run.failed by {
        assert(transmitted(p, s)[i] == w.in_flight[i]);
    }
}

/// The record that a step queues, if it queues one.
pub open spec fn accepted_by(p: Pipeline, s: Step) -> Seq<RecordView> {
    match s {
        Step::Log { fields, now, deadline } => match log_outcome(p.run, now, deadline) {
            Ok(LogStep::Accepted(_)) => seq![record_of(p.run, fields, now)],
            _ => Seq::empty(),
        },
        _ => Seq::empty(),
    }
}

/// Every record queued in the course of a trace, in the order of the log
/// calls that were accepted.
pub open spec fn accepted(p: Pipeline, steps: Seq<Step>) -> Seq<RecordView>
    decreases steps.len(),
{
    if steps.len() == 0 {
        Seq::empty()
    } else {
        accepted(p, steps.drop_last()) + accepted_by(after(p, steps.drop_last()), steps.last())
    }
}

/// First in, first out: over any trace, what the dispatcher has taken
/// followed by what still waits is what waited at the start followed by
/// what was accepted since, record for record and in that order. So the
/// dispatcher sees the records as they were logged, changes none, skips
/// none and sees none twice.
pub proof fn law_first_in_first_out(p: Pipeline, steps: Seq<Step>)
    ensures
        observed(p, steps) + after(p, steps).run.queue == p.run.queue + accepted(p, steps),
    decreases steps.len(),
{
    if steps.len() == 0 {
        assert(observed(p, steps) + after(p, steps).run.queue =~= p.run.queue + accepted(
            p,
            steps,
        ));
    } else {
        let head = steps.drop_last();
        let q = after(p, head);
        let s = steps.last();
        law_first_in_first_out(p, head);
        let w = step(q, s).run;
        assert(taken(q, s) + w.queue =~= q.run.queue + accepted_by(q, s));
        assert(observed(p, steps) + w.queue =~= observed(p, head) + (taken(q, s) + w.queue));
        assert(p.run.queue + accepted(p, steps) =~= (p.run.queue + accepted(p, head))
            + accepted_by(q, s));
        assert(observed(p, head) + (q.run.queue + accepted_by(q, s)) =~= (observed(p, head)
            + q.run.queue) + accepted_by(q, s));
    }
}

/// The records that a step settles as acknowledged.
pub open spec fn acknowledged_by(p: Pipeline, s: Step) -> Seq<RecordView> {
    match s {
        Step::Ack => if awaiting(p.run) {
            p.run.in_flight
        } else {
            Seq::empty()
        },
        _ => Seq::empty(),
    }
}

/// Every record acknowledged in the course of a trace, in the order of the
/// acknowledgements.
pub open spec fn acknowledged(p: Pipeline, steps: Seq<Step>) -> Seq<RecordView>
    decreases steps.len(),
{
    if steps.len() == 0 {
        Seq::empty()
    } else {
        acknowledged(p, steps.drop_last()) + acknowledged_by(
            after(p, steps.drop_last()),
            steps.last(),
        )
    }
}

/// How many records are settled: acknowledged or given up.
pub open spec fn settled(v: RunView) -> int {
    v.delivered + v.failed
}

/// Over any trace on a valid run, the acknowledged records come in the
/// order of their sequence numbers and none is acknowledged twice; each was
/// unsettled when the trace began and is settled when it ends; and the
/// count of delivered records grows by exactly their number.
pub proof fn law_acknowledged_once(p: Pipeline, steps: Seq<Step>)
    requires
        valid(p.run),
    ensures
        forall|i: int, j: int|
            0 <= i < j < acknowledged(p, steps).len() ==> (#[trigger] acknowledged(
                p,
                steps,
            )[i]).sequence < (#[trigger] acknowledged(p, steps)[j]).sequence,
        forall|i: int|
            0 <= i < acknowledged(p, steps).len() ==> settled(p.run) <= (#[trigger] acknowledged(
                p,
                steps,
            )[i]).sequence < settled(after(p, steps).run),
        after(p, steps).run.delivered == p.run.delivered + acknowledged(p, steps).len(),
        settled(p.run) <= settled(after(p, steps).run),
    decreases steps.len(),
{
    if steps.len() > 0 {
        let head = steps.drop_last();
        let q = after(p, head);
        law_acknowledged_once(p, head);
        law_observed_sequence(p, head);
        law_step_keeps_valid(q, steps.last());
        let before = acknowledged(p, head);
        let fresh = acknowledged_by(q, steps.last());
        let all = acknowledged(p, steps);
        assert(settled(q.run) <= settled(step(q, steps.last()).run));
        assert forall|i: int| 0 <= i < fresh.len() implies (#[trigger] fresh[i]).sequence
            == settled(q.run) + i by {
            assert(fresh[i] == q.run.in_flight[i]);
        }
        assert forall|i: int| 0 <= i < all.len() implies settled(p.run) <= (#[trigger] all[i]).sequence
            < settled(after(p, steps).run) by {
            if i < before.len() {
                assert(all[i] == before[i]);
            } else {
                assert(all[i] == fresh[i - before.len()]);
            }
        }
        assert forall|i: int, j: int| 0 <= i < j < all.len() implies (#[trigger] all[i]).sequence < (
        #[trigger] all[j]).sequence by {
            if j < before.len() {
                assert(all[i] == before[i]);
                assert(all[j] == before[j]);
            } else if i < before.len() {
                assert(all[i] == before[i]);
                assert(all[j] == fresh[j - before.len()]);
            } else {
                assert(all[i] == fresh[i - before.len()]);
                assert(all[j] == fresh[j - before.len()]);
            }
        }
    }
}

/// The place of a phase in the order idle, draining, flushing, done.
pub open spec fn phase_rank(phase: Phase) -> nat {
    match phase {
        Phase::Idle => 0,
        Phase::Draining => 1,
        Phase::Flushing => 2,
        Phase::Done => 3,
    }
}

/// The dispatcher's phase of a run only moves forward: from idle to
/// draining, from there to flushing, and at last to done.
pub proof fn law_phase_moves_forward(p: Pipeline, s: Step)
    requires
        valid(p.run),
    ensures
        phase_rank(phase_of(step(p, s).run)) >= phase_rank(phase_of(p.run)),
{
}

/// Once a run is finished no step changes it: logging is refused, finishing
/// again gives the verdict it gave before, and the dispatcher retires the
/// run without sending anything.
pub proof fn law_finished_is_final(p: Pipeline, s: Step)
    requires
        p.run.state is Finished,
    ensures
        step(p, s).run == p.run,
        transmitted(p, s).len() == 0,
        forall|now: u64, deadline: u64| #[trigger]
            finish_outcome(p.run, now, deadline) == verdict(p.run),
        forall|now: u64, deadline: u64| #[trigger]
            log_outcome(p.run, now, deadline) == Err::<LogStep, RunError>(RunError::InvalidState),
        forall|now: u64| #[trigger]
            dispatch_action(p.run, p.dispatcher.batch_size, now) == Action::Retire,
{
}

/// Finishing is idempotent: once a finish step has given its final answer,
/// every later finish step gives the same answer and leaves the run as it
/// is, whatever instants it is called with.
pub proof fn law_finish_idempotent(v: RunView, now: u64, deadline: u64, later: u64, limit: u64)
    requires
        finish_outcome(v, now, deadline) != Ok::<FinishStep, RunError>(FinishStep::Pending),
    ensures
        finish_next(v, now, deadline).state is Finished,
        finish_outcome(finish_next(v, now, deadline), later, limit) == finish_outcome(
            v,
            now,
            deadline,
        ),
        finish_next(finish_next(v, now, deadline), later, limit) == finish_next(v, now, deadline),
{
}

/// Finishing stays idempotent under any trace that follows: after the final
/// answer, whatever else is done to the pipeline, a finish step repeats that
/// answer and nothing is handed to the collector.
pub proof fn law_finish_idempotent_after(
    p: Pipeline,
    now: u64,
    deadline: u64,
    steps: Seq<Step>,
    later: u64,
    limit: u64,
)
    requires
        finish_outcome(p.run, now, deadline) != Ok::<FinishStep, RunError>(FinishStep::Pending),
    ensures
        after(step(p, Step::Finish { now, deadline }), steps).run == finish_next(
            p.run,
            now,
            deadline,
        ),
        finish_outcome(after(step(p, Step::Finish { now, deadline }), steps).run, later, limit)
            == finish_outcome(p.run, now, deadline),
        observed(step(p, Step::Finish { now, deadline }), steps).len() == 0,
    decreases steps.len(),
{
    let q = step(p, Step::Finish { now, deadline });
    if steps.len() > 0 {
        law_finish_idempotent_after(p, now, deadline, steps.drop_last(), later, limit);
        law_finished_is_final(after(q, steps.drop_last()), steps.last());
    }
}

/// Backpressure: while the queue is full, a log call whose record the
/// sampler keeps is told to wait before its deadline and is refused with
/// `QueueFull` from the deadline on. Either way the run is unchanged:
/// nothing that was queued is dropped to make room.
pub proof fn law_backpressure(v: RunView, fields: Map<Seq<char>, u64>, now: u64, deadline: u64)
    requires
        accepts_logs(v),
        keeps_next(v),
        v.queue.len() >= v.capacity,
    ensures
        now < deadline ==> log_outcome(v, now, deadline) == Ok::<LogStep, RunError>(
            LogStep::Pending,
        ),
        now >= deadline ==> log_outcome(v, now, deadline) == Err::<LogStep, RunError>(
            RunError::QueueFull,
        ),
        log_next(v, fields, now, deadline) == v,
{
}

/// Backpressure ends when room frees: once the dispatcher has taken a batch
/// from a full queue, the waiting log call is accepted under the next
/// sequence number, and its record goes last.
pub proof fn law_backpressure_release(
    v: RunView,
    batch_size: usize,
    at: u64,
    fields: Map<Seq<char>, u64>,
    now: u64,
    deadline: u64,
)
    requires
        valid(v),
        accepts_logs(v),
        keeps_next(v),
        v.queue.len() >= v.capacity,
        pulls(v, batch_size),
    ensures
        log_outcome(dispatch_next(v, batch_size, at), now, deadline) == Ok::<LogStep, RunError>(
            LogStep::Accepted(v.next_sequence),
        ),
        log_next(dispatch_next(v, batch_size, at), fields, now, deadline).queue.last().fields
            == fields,
        log_next(dispatch_next(v, batch_size, at), fields, now, deadline).queue.last().sequence
            == v.next_sequence,
{
}

/// A failed attempt never loses a record silently: while retries are left
/// the batch stays in flight as it was, and once they are used up the batch
/// is counted as failed and one `FailedDelivery` event with its size is
/// offered to the dispatcher's outbox.
pub proof fn law_failure_is_observable(d: DispatcherView, v: RunView, now: u64)
    requires
        valid(v),
        awaiting(v),
    ensures
        valid(failure_next_run(d, v, now)),
        !exhausted(d, v) ==> failure_next_run(d, v, now).in_flight == v.in_flight
            && failure_next_run(d, v, now).attempts == v.attempts + 1 && failure_next(
            d,
            v,
            now,
        ).events == d.events,
        exhausted(d, v) ==> failure_outcome(d, v, now) == FailureStep::Dropped(
            v.in_flight.len() as u64,
        ) && failure_next_run(d, v, now).failed == v.failed + v.in_flight.len() && failure_next(
            d,
            v,
            now,
        ).events == offer(
            d.events,
            d.event_capacity,
            EventView::FailedDelivery { run_id: v.id, count: v.in_flight.len() as u64 },
        ),
        outstanding(failure_next_run(d, v, now)) + failure_next_run(d, v, now).failed
            == outstanding(v) + v.failed,
{
    law_step_keeps_valid(Pipeline { dispatcher: d, run: v }, Step::Failure { now });
}

/// The run after `rounds` rounds of service in which the collector
/// acknowledges every batch.
pub open spec fn served(v: RunView, batch_size: usize, now: u64, rounds: nat) -> RunView
    decreases rounds,
{
    if rounds == 0 {
        v
    } else {
        ack_next(dispatch_next(served(v, batch_size, now, (rounds - 1) as nat), batch_size, now))
    }
}

/// One acknowledged round settles at least one outstanding record, if there
/// is one, and counts every record it settles as delivered.
pub proof fn law_round_makes_progress(v: RunView, batch_size: usize, now: u64)
    requires
        valid(v),
        !(v.state is Finished),
        batch_size >= 1,
    ensures
        valid(served(v, batch_size, now, 1)),
        served(v, batch_size, now, 1).state == v.state,
        served(v, batch_size, now, 1).failed == v.failed,
        served(v, batch_size, now, 1).next_sequence == v.next_sequence,
        served(v, batch_size, now, 1).in_flight.len() == 0,
        outstanding(v) > 0 ==> outstanding(served(v, batch_size, now, 1)) < outstanding(v),
        outstanding(v) == 0 ==> served(v, batch_size, now, 1) == v,
{
    reveal_with_fuel(served, 2);
    let d = DispatcherView {
        batch_size,
        max_retries: 0,
        base_delay: 0,
        max_delay: 0,
        jitter_state: 0,
        cursor: 0,
        events: Seq::empty(),
        event_capacity: 0,
    };
    let p = Pipeline { dispatcher: d, run: v };
    law_step_keeps_valid(p, Step::Dispatch { now });
    let q = step(p, Step::Dispatch { now });
    law_step_keeps_valid(q, Step::Ack);
    assert(served(v, batch_size, now, 1) == step(q, Step::Ack).run);
}

/// Round trip: where the collector acknowledges every batch, a run is
/// drained after as many rounds as it has outstanding records, every one of
/// them counts as delivered, none as failed, and a finish step then ends
/// the run at once, with `Flushed` if nothing had failed before.
pub proof fn law_service_drains(v: RunView, batch_size: usize, now: u64, rounds: nat)
    requires
        valid(v),
        !(v.state is Finished),
        batch_size >= 1,
        rounds >= outstanding(v),
    ensures
        valid(served(v, batch_size, now, rounds)),
        drained(served(v, batch_size, now, rounds)),
        served(v, batch_size, now, rounds).delivered == v.delivered + outstanding(v),
        served(v, batch_size, now, rounds).failed == v.failed,
        served(v, batch_size, now, rounds).next_sequence == v.next_sequence,
        forall|at: u64, deadline: u64| #[trigger]
            finish_outcome(served(v, batch_size, now, rounds), at, deadline) == (if v.failed == 0 {
                Ok::<FinishStep, RunError>(FinishStep::Flushed)
            } else {
                Err(RunError::PartialFlush(v.failed))
            }),
{
    law_served(v, batch_size, now, rounds);
}

/// What `rounds` acknowledged rounds leave outstanding: nothing once there
/// were enough of them, and otherwise at least `rounds` records fewer.
proof fn law_served(v: RunView, batch_size: usize, now: u64, rounds: nat)
    requires
        valid(v),
        !(v.state is Finished),
        batch_size >= 1,
    ensures
        valid(served(v, batch_size, now, rounds)),
        served(v, batch_size, now, rounds).state == v.state,
        served(v, batch_size, now, rounds).failed == v.failed,
        served(v, batch_size, now, rounds).next_sequence == v.next_sequence,
        rounds >= 1 ==> served(v, batch_size, now, rounds).in_flight.len() == 0,
        outstanding(served(v, batch_size, now, rounds)) <= (if outstanding(v) >= rounds {
            outstanding(v) - rounds
        } else {
            0
        }),
    decreases rounds,
{
    if rounds > 0 {
        let prior = served(v, batch_size, now, (rounds - 1) as nat);
        law_served(v, batch_size, now, (rounds - 1) as nat);
        law_round_makes_progress(prior, batch_size, now);
        reveal_with_fuel(served, 2);
        assert(served(v, batch_size, now, rounds) == served(prior, batch_size, now, 1));
    }
}

/// A finishing run that can be served is never passed over for one that
/// is not finishing.
pub proof fn law_urgent_first(demands: Seq<Demand>, start: nat, choice: Option<usize>, j: int)
    requires
        selects(demands, start, choice),
        0 <= j < demands.len(),
        demands[j] == Demand::Urgent,
    ensures
        choice is Some,
        demands[choice->0 as int] == Demand::Urgent,
{
}

/// No run is passed over for ever: when a run is served, every other run
/// with the same demand comes nearer to the start of the next round.
pub proof fn law_selection_rotates(
    demands: Seq<Demand>,
    start: nat,
    wanted: Demand,
    i: int,
    j: int,
)
    requires
        start < demands.len(),
        nearest(demands, start, wanted, i),
        0 <= j < demands.len(),
        demands[j] == wanted,
        j != i,
    ensures
        distance(round_start((i + 1) as nat, demands.len()), demands.len(), j) < distance(
            start,
            demands.len(),
            j,
        ),
{
}

} // verus!
