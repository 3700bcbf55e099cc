//! The dispatcher: which run is served next, what is sent, and what happens
//! when the collector answers.
//!
//! The dispatcher holds the policy and the runs hold the records. The caller
//! that drives it asks [`Dispatcher::select`] for the run to serve, asks
//! [`Dispatcher::dispatch`] what to do for it, carries a `Transmit` out
//! against the collector, and reports the answer with
//! [`Dispatcher::on_ack`] or [`Dispatcher::on_failure`].

use crate::clock::deadline;
use crate::clock::deadline_after;
use crate::event::Event;
use crate::event::EventView;
use crate::event::Outbox;
use crate::event::event_views;
use crate::event::offer;
use crate::limits::Limits;
use crate::rng::Rng;
use crate::rng::draw_of;
use crate::rng::next_state;
use crate::run::Action;
use crate::run::Run;
use crate::run::RunState;
use crate::run::RunView;
use crate::run::ack_next;
use crate::run::awaiting;
use crate::run::dispatch_action;
use crate::run::dispatch_next;
use crate::run::drop_next;
use crate::run::retry_next;
use vstd::arithmetic::power2::lemma2_to64;
use vstd::arithmetic::power2::lemma_pow2_pos;
use vstd::arithmetic::power2::lemma_pow2_strictly_increases;
use vstd::arithmetic::power2::lemma_pow2_unfold;
use vstd::arithmetic::power2::pow2;
use vstd::prelude::*;

verus! {

/// The backoff before a retry, before jitter: the base delay doubled once
/// for each failure that came before, held at the largest delay.
pub open spec fn backoff_ceiling(base: u64, cap: u64, doublings: u32) -> u64 {
    if base * pow2(doublings as nat) >= cap {
        cap
    } else {
        (base * pow2(doublings as nat)) as u64
    }
}

/// The backoff before a retry with jitter: between half the ceiling and the
/// ceiling, placed by `draw`.
pub open spec fn backoff_delay(base: u64, cap: u64, doublings: u32, draw: u64) -> u64 {
    let ceiling = backoff_ceiling(base, cap, doublings);
    let floor = ceiling / 2;
    (floor + draw % ((ceiling - floor + 1) as u64)) as u64
}

/// Doubling more often never gives less.
proof fn lemma_scaled_monotonic(base: u64, lo: nat, hi: nat)
    requires
        lo <= hi,
    ensures
        base * pow2(lo) <= base * pow2(hi),
{
    if lo < hi {
        lemma_pow2_strictly_increases(lo, hi);
    }
    assert(base * pow2(lo) <= base * pow2(hi)) by (nonlinear_arith)
        requires
            pow2(lo) <= pow2(hi),
    ;
}

/// Computes the backoff ceiling.
pub fn ceiling_for(base: u64, cap: u64, doublings: u32) -> (ceiling: u64)
    ensures
        ceiling == backoff_ceiling(base, cap, doublings),
        ceiling <= cap,
{
    proof {
        lemma2_to64();
        lemma_pow2_pos(doublings as nat);
    }
    if base >= cap {
        assert(base * pow2(doublings as nat) >= base) by (nonlinear_arith)
            requires
                pow2(doublings as nat) >= 1,
        ;
        return cap;
    }
    if base == 0 {
        assert(base * pow2(doublings as nat) == 0) by (nonlinear_arith)
            requires
                base == 0,
        ;
        return 0;
    }
    let mut d: u64 = base;
    let mut i: u32 = 0;
    assert(base * pow2(0) == base) by (nonlinear_arith)
        requires
            pow2(0) == 1,
    ;
    while i < doublings && d < cap
        invariant
            i <= doublings,
            d <= cap,
            d == (if base * pow2(i as nat) >= cap {
                cap
            } else {
                (base * pow2(i as nat)) as u64
            }),
        decreases doublings - i,
    {
        proof {
            lemma_pow2_unfold((i + 1) as nat);
            assert(base * (2 * pow2(i as nat)) == 2 * (base * pow2(i as nat)))
                by (nonlinear_arith);
        }
        if d > cap / 2 {
            d = cap;
        } else {
            d = d * 2;
        }
        i = i + 1;
    }
    proof {
        lemma_scaled_monotonic(base, i as nat, doublings as nat);
    }
    d
}

/// Computes the backoff with jitter.
pub fn delay_for(base: u64, cap: u64, doublings: u32, draw: u64) -> (delay: u64)
    ensures
        delay == backoff_delay(base, cap, doublings, draw),
        backoff_ceiling(base, cap, doublings) / 2 <= delay <= backoff_ceiling(
            base,
            cap,
            doublings,
        ),
{
    let ceiling: u64 = ceiling_for(base, cap, doublings);
    let floor: u64 = ceiling / 2;
    let span: u64 = ceiling - floor + 1;
    floor + draw % span
}

/// How much a run wants the dispatcher at some instant.
#[derive(Clone, Copy, Debug, PartialEq, Eq, Structural)]
pub enum Demand {
    /// A batch can be sent now and the run is finishing.
    Urgent,
    /// A batch can be sent now.
    Ready,
    /// Nothing can be sent now.
    Resting,
    /// The run is finished.
    Retired,
}

/// The demand of a run on a dispatcher that takes `batch_size` records at once.
pub open spec fn demand_of(v: RunView, batch_size: usize, now: u64) -> Demand {
    if v.state is Finished {
        Demand::Retired
    } else if dispatch_action(v, batch_size, now) is Transmit {
        if v.state is Finishing {
            Demand::Urgent
        } else {
            Demand::Ready
        }
    } else {
        Demand::Resting
    }
}

/// Where the round over `n` runs starts for a dispatcher whose last round
/// ended at `cursor`.
pub open spec fn round_start(cursor: nat, n: nat) -> nat {
    if cursor < n {
        cursor
    } else {
        0
    }
}

/// How far run `i` is from the start of the round, going up and wrapping
/// at `n`.
pub open spec fn distance(start: nat, n: nat, i: int) -> int {
    if i >= start {
        i - start
    } else {
        i + n - start
    }
}

/// Run `i` is the nearest to the start of the round among those with the
/// demand `wanted`.
pub open spec fn nearest(demands: Seq<Demand>, start: nat, wanted: Demand, i: int) -> bool {
    &&& 0 <= i < demands.len()
    &&& demands[i] == wanted
    &&& forall|j: int|
        0 <= j < demands.len() && #[trigger] demands[j] == wanted ==> distance(
            start,
            demands.len(),
            i,
        ) <= distance(start, demands.len(), j)
}

/// No run has the demand `wanted`.
pub open spec fn absent(demands: Seq<Demand>, wanted: Demand) -> bool {
    forall|j: int| 0 <= j < demands.len() ==> #[trigger] demands[j] != wanted
}

/// The run to serve: the nearest urgent one; the nearest ready one where
/// none is urgent; none where none is ready either.
pub open spec fn selects(demands: Seq<Demand>, start: nat, choice: Option<usize>) -> bool {
    match choice {
        Some(i) => nearest(demands, start, Demand::Urgent, i as int) || (absent(
            demands,
            Demand::Urgent,
        ) && nearest(demands, start, Demand::Ready, i as int)),
        None => absent(demands, Demand::Urgent) && absent(demands, Demand::Ready),
    }
}

/// What the dispatcher did about a failed attempt.
#[derive(Clone, Copy, Debug, PartialEq, Eq, Structural)]
pub enum FailureStep {
    /// The batch stays in flight and may be sent again from this instant.
    Retry(u64),
    /// The retries are used up: the batch of this many records was given up.
    Dropped(u64),
    /// No batch was in flight, or the run is finished.
    Ignored,
}

/// A dispatcher as plain values.
pub struct DispatcherView {
    pub batch_size: usize,
    pub max_retries: u32,
    pub base_delay: u64,
    pub max_delay: u64,
    /// State of the stream that places the jitter.
    pub jitter_state: u64,
    /// Where the next round over the runs starts.
    pub cursor: nat,
    pub events: Seq<EventView>,
    pub event_capacity: nat,
}

/// The retries of the batch in flight are used up.
pub open spec fn exhausted(d: DispatcherView, v: RunView) -> bool {
    v.attempts >= d.max_retries
}

/// The instant from which a batch that just failed at `now` may be sent
/// again: `now` plus the backoff for the failures that came before.
pub open spec fn retry_instant(d: DispatcherView, v: RunView, now: u64) -> u64 {
    deadline_after(
        now,
        backoff_delay(
            d.base_delay,
            d.max_delay,
            v.attempts,
            draw_of(next_state(d.jitter_state)),
        ),
    )
}

/// The answer to a failed attempt.
pub open spec fn failure_outcome(d: DispatcherView, v: RunView, now: u64) -> FailureStep {
    if !awaiting(v) {
        FailureStep::Ignored
    } else if exhausted(d, v) {
        FailureStep::Dropped(v.in_flight.len() as u64)
    } else {
        FailureStep::Retry(retry_instant(d, v, now))
    }
}

/// The run after a failed attempt.
pub open spec fn failure_next_run(d: DispatcherView, v: RunView, now: u64) -> RunView {
    if !awaiting(v) {
        v
    } else if exhausted(d, v) {
        drop_next(v)
    } else {
        retry_next(v, retry_instant(d, v, now))
    }
}

/// The dispatcher after a failed attempt: a drop is announced once, a retry
/// moves the jitter stream.
pub open spec fn failure_next(d: DispatcherView, v: RunView, now: u64) -> DispatcherView {
    if !awaiting(v) {
        d
    } else if exhausted(d, v) {
        DispatcherView {
            events: offer(
                d.events,
                d.event_capacity,
                EventView::FailedDelivery { run_id: v.id, count: v.in_flight.len() as u64 },
            ),
            ..d
        }
    } else {
        DispatcherView { jitter_state: next_state(d.jitter_state), ..d }
    }
}

/// The dispatcher after an acknowledgement: progress is announced.
pub open spec fn ack_next_dispatcher(d: DispatcherView, v: RunView) -> DispatcherView {
    if awaiting(v) {
        DispatcherView {
            events: offer(
                d.events,
                d.event_capacity,
                EventView::FlushProgress {
                    run_id: v.id,
                    delivered: ack_next(v).delivered,
                    total: v.next_sequence,
                },
            ),
            ..d
        }
    } else {
        d
    }
}

/// The policy that moves records from runs to the collector.
pub struct Dispatcher {
    batch_size: usize,
    max_retries: u32,
    base_delay: u64,
    max_delay: u64,
    jitter: Rng,
    cursor: usize,
    events: Outbox,
}

impl View for Dispatcher {
    type V = DispatcherView;

    closed spec fn view(&self) -> DispatcherView {
        DispatcherView {
            batch_size: self.batch_size,
            max_retries: self.max_retries,
            base_delay: self.base_delay,
            max_delay: self.max_delay,
            jitter_state: self.jitter@,
            cursor: self.cursor as nat,
            events: self.events@,
            event_capacity: self.events.bound(),
        }
    }
}

impl Dispatcher {
    /// A dispatcher with the given limits whose jitter stream starts from `seed`.
    pub(crate) fn new(limits: &Limits, seed: u64) -> (dispatcher: Dispatcher)
        ensures
            dispatcher@ == (DispatcherView {
                batch_size: limits.batch_size,
                max_retries: limits.max_retries,
                base_delay: limits.base_delay_ms,
                max_delay: limits.max_delay_ms,
                jitter_state: seed,
                cursor: 0,
                events: Seq::empty(),
                event_capacity: limits.event_capacity as nat,
            }),
    {
        Dispatcher {
            batch_size: limits.batch_size,
            max_retries: limits.max_retries,
            base_delay: limits.base_delay_ms,
            max_delay: limits.max_delay_ms,
            jitter: Rng::new(seed),
            cursor: 0,
            events: Outbox::new(limits.event_capacity),
        }
    }

    /// How much `run` wants the dispatcher at the instant `now`.
    pub fn demand(&self, run: &Run, now: u64) -> (demand: Demand)
        requires
            run.wf(),
        ensures
            demand == demand_of(run@, self@.batch_size, now),
    {
        match run.state() {
            RunState::Finished => Demand::Retired,
            state => {
                let sendable: bool = if run.in_flight().len() > 0 {
                    now >= run.retry_at()
                } else {
                    self.batch_size > 0 && run.queued() > 0
                };
                if !sendable {
                    Demand::Resting
                } else {
                    match state {
                        RunState::Finishing => Demand::Urgent,
                        _ => Demand::Ready,
                    }
                }
            },
        }
    }

    /// The first run in the round from `start` that has the demand `wanted`.
    fn scan(demands: &Vec<Demand>, start: usize, wanted: Demand) -> (found: Option<usize>)
        requires
            start < demands@.len(),
        ensures
            match found {
                Some(i) => nearest(demands@, start as nat, wanted, i as int),
                None => absent(demands@, wanted),
            },
    {
        let n: usize = demands.len();
        let mut k: usize = 0;
        while k < n
            invariant
                n == demands@.len(),
                start < n,
                k <= n,
                forall|j: int|
                    0 <= j < n && distance(start as nat, n as nat, j) < k ==> #[trigger] demands@[j]
                        != wanted,
            decreases n - k,
        {
            let i: usize = if k < n - start {
                start + k
            } else {
                k - (n - start)
            };
            assert(distance(start as nat, n as nat, i as int) == k);
            if demands[i] == wanted {
                return Some(i);
            }
            assert forall|j: int|
                0 <= j < n && distance(start as nat, n as nat, j) < k + 1 implies #[trigger] demands@[j]
                != wanted by {
                if distance(start as nat, n as nat, j) == k {
                    assert(j == i);
                }
            }
            k = k + 1;
        }
        None
    }

    /// Picks the run to serve among those whose demands are listed, one
    /// entry per run, and moves the start of the next round past it.
    ///
    /// A finishing run that can be served goes before every other run.
    /// Within a class the rounds rotate, so that no run is passed over
    /// for ever.
    pub fn select(&mut self, demands: &Vec<Demand>) -> (choice: Option<usize>)
        ensures
            selects(demands@, round_start(old(self)@.cursor, demands@.len()), choice),
            final(self)@ == (DispatcherView {
                cursor: match choice {
                    Some(i) => (i + 1) as nat,
                    None => old(self)@.cursor,
                },
                ..old(self)@
            }),
    {
        let n: usize = demands.len();
        if n == 0 {
            return None;
        }
        let start: usize = if self.cursor < n {
            self.cursor
        } else {
            0
        };
        let choice: Option<usize> = match Self::scan(demands, start, Demand::Urgent) {
            Some(i) => Some(i),
            None => Self::scan(demands, start, Demand::Ready),
        };
        match choice {
            Some(i) => {
                self.cursor = i + 1;
            },
            None => {},
        }
        choice
    }

    /// Says what to do for `run` at the instant `now`; where a fresh batch
    /// may be taken from its queue, takes it into flight.
    pub fn dispatch(&self, run: &mut Run, now: u64) -> (action: Action)
        requires
            old(run).wf(),
        ensures
            final(run).wf(),
            action == dispatch_action(old(run)@, self@.batch_size, now),
            final(run)@ == dispatch_next(old(run)@, self@.batch_size, now),
    {
        run.dispatch(self.batch_size, now)
    }

    /// Takes the collector's acknowledgement of the batch in flight: its
    /// records count as delivered and progress is announced. Without a
    /// batch in flight, or on a finished run, nothing happens.
    pub fn on_ack(&mut self, run: &mut Run) -> (settled: bool)
        requires
            old(run).wf(),
        ensures
            final(run).wf(),
            settled == awaiting(old(run)@),
            final(run)@ == ack_next(old(run)@),
            final(self)@ == ack_next_dispatcher(old(self)@, old(run)@),
    {
        if run.acknowledge() {
            let _ = self.events.emit(
                Event::FlushProgress {
                    run_id: run.id().clone(),
                    delivered: run.delivered(),
                    total: run.accepted(),
                },
            );
            true
        } else {
            false
        }
    }

    /// Takes the collector's refusal of the batch in flight at the instant
    /// `now`. While retries are left, the batch stays in flight and waits
    /// out a backoff that doubles with every failure. Once they are used up
    /// the batch is given up and the loss is announced. Without a batch in
    /// flight, or on a finished run, nothing happens.
    pub fn on_failure(&mut self, run: &mut Run, now: u64) -> (step: FailureStep)
        requires
            old(run).wf(),
        ensures
            final(run).wf(),
            step == failure_outcome(old(self)@, old(run)@, now),
            final(run)@ == failure_next_run(old(self)@, old(run)@, now),
            final(self)@ == failure_next(old(self)@, old(run)@, now),
    {
        match run.state() {
            RunState::Finished => {
                return FailureStep::Ignored;
            },
            _ => {},
        }
        if run.in_flight().len() == 0 {
            return FailureStep::Ignored;
        }
        let attempts: u32 = run.attempts();
        if attempts >= self.max_retries {
            let count: u64 = run.abandon();
            let _ = self.events.emit(Event::FailedDelivery { run_id: run.id().clone(), count });
            FailureStep::Dropped(count)
        } else {
            let draw: u64 = self.jitter.next();
            let delay: u64 = delay_for(self.base_delay, self.max_delay, attempts, draw);
            let at: u64 = deadline(now, delay);
            run.postpone(at);
            FailureStep::Retry(at)
        }
    }

    /// Hands over the dispatcher's waiting events, oldest first.
    pub fn take_events(&mut self) -> (events: Vec<Event>)
        ensures
            event_views(events@) == old(self)@.events,
            final(self)@ == (DispatcherView { events: Seq::empty(), ..old(self)@ }),
    {
        self.events.take()
    }

    /// Most records sent to the collector in one call.
    pub fn batch_size(&self) -> (n: usize)
        ensures
            n == self@.batch_size,
    {
        self.batch_size
    }

    /// How often a failed batch is sent again before it is given up.
    pub fn max_retries(&self) -> (n: u32)
        ensures
            n == self@.max_retries,
    {
        self.max_retries
    }
}

} // verus!
