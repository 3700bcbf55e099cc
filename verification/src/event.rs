//! Lifecycle and progress events, and the bounded outbox they wait in.
//!
//! Whoever renders progress collects events from an outbox at its own pace.
//! An outbox never makes its writer wait: when it is full, a new event is
//! dropped.

use vstd::prelude::*;

verus! {

/// Something that happened to a run.
#[derive(Debug)]
pub enum Event {
    /// A run was registered; `url` is where the collector shows it.
    RunCreated { id: String, url: Option<String> },
    /// A record was queued under `sequence`.
    LogAccepted { run_id: String, sequence: u64 },
    /// The collector has acknowledged `delivered` of the `total` records queued so far.
    FlushProgress { run_id: String, delivered: u64, total: u64 },
    /// The run reached its final state.
    RunFinished { run_id: String },
    /// `count` records were given up after the last retry failed.
    FailedDelivery { run_id: String, count: u64 },
}

/// An event as plain values.
pub enum EventView {
    RunCreated { id: Seq<char>, url: Option<Seq<char>> },
    LogAccepted { run_id: Seq<char>, sequence: u64 },
    FlushProgress { run_id: Seq<char>, delivered: u64, total: u64 },
    RunFinished { run_id: Seq<char> },
    FailedDelivery { run_id: Seq<char>, count: u64 },
}

impl View for Event {
    type V = EventView;

    open spec fn view(&self) -> EventView {
        match *self {
            Event::RunCreated { id, url } => EventView::RunCreated {
                id: id@,
                url: match url {
                    Some(u) => Some(u@),
                    None => None,
                },
            },
            Event::LogAccepted { run_id, sequence } => EventView::LogAccepted {
                run_id: run_id@,
                sequence,
            },
            Event::FlushProgress { run_id, delivered, total } => EventView::FlushProgress {
                run_id: run_id@,
                delivered,
                total,
            },
            Event::RunFinished { run_id } => EventView::RunFinished { run_id: run_id@ },
            Event::FailedDelivery { run_id, count } => EventView::FailedDelivery {
                run_id: run_id@,
                count,
            },
        }
    }
}

/// The events of a list as plain values, in the list's order.
pub open spec fn event_views(s: Seq<Event>) -> Seq<EventView> {
    Seq::new(s.len(), |i: int| s[i]@)
}

/// What an outbox with the given contents and bound holds after an event is
/// offered to it: the event goes last if there is room and is dropped if not.
pub open spec fn offer(pending: Seq<EventView>, bound: nat, event: EventView) -> Seq<EventView> {
    if pending.len() < bound {
        pending.push(event)
    } else {
        pending
    }
}

/// A bounded list of events that wait to be collected, oldest first.
pub struct Outbox {
    pending: Vec<Event>,
    capacity: usize,
}

impl View for Outbox {
    type V = Seq<EventView>;

    closed spec fn view(&self) -> Seq<EventView> {
        event_views(self.pending@)
    }
}

impl Outbox {
    /// The most events the outbox may hold.
    pub closed spec fn bound(&self) -> nat {
        self.capacity as nat
    }

    /// An empty outbox that holds at most `capacity` events.
    pub fn new(capacity: usize) -> (outbox: Outbox)
        ensures
            outbox@ == Seq::<EventView>::empty(),
            outbox.bound() == capacity,
    {
        let outbox = Outbox { pending: Vec::new(), capacity };
        assert(outbox@ =~= Seq::<EventView>::empty());
        outbox
    }

    /// Offers an event; returns whether there was room for it.
    pub fn emit(&mut self, event: Event) -> (kept: bool)
        ensures
            final(self).bound() == old(self).bound(),
            final(self)@ == offer(old(self)@, old(self).bound(), event@),
            kept == (old(self)@.len() < old(self).bound()),
    {
        if self.pending.len() < self.capacity {
            self.pending.push(event);
            assert(self@ =~= old(self)@.push(event@));
            true
        } else {
            false
        }
    }

    /// Hands over every waiting event, oldest first, and leaves the outbox empty.
    pub fn take(&mut self) -> (events: Vec<Event>)
        ensures
            final(self).bound() == old(self).bound(),
            final(self)@ == Seq::<EventView>::empty(),
            event_views(events@) == old(self)@,
    {
        let mut events: Vec<Event> = Vec::new();
        std::mem::swap(&mut self.pending, &mut events);
        assert(self@ =~= Seq::<EventView>::empty());
        events
    }

    /// How many events wait.
    pub fn len(&self) -> (n: usize)
        ensures
            n == self@.len(),
    {
        self.pending.len()
    }

    /// The most events the outbox may hold.
    pub fn capacity(&self) -> (capacity: usize)
        ensures
            capacity == self.bound(),
    {
        self.capacity
    }
}

} // verus!
