//! The bounded first-in, first-out buffer between a run and the dispatcher.

use crate::record::MetricRecord;
use crate::record::RecordView;
use std::collections::VecDeque;
use vstd::prelude::*;

verus! {

/// The records of a list as plain values, in the list's order.
pub open spec fn views(s: Seq<MetricRecord>) -> Seq<RecordView> {
    Seq::new(s.len(), |i: int| s[i]@)
}

/// Every record of the list is well formed.
pub open spec fn all_wf(s: Seq<MetricRecord>) -> bool {
    forall|i: int| 0 <= i < s.len() ==> (#[trigger] s[i]).wf()
}

/// Why a push was refused.
#[derive(Clone, Copy, Debug, PartialEq, Eq)]
pub enum PushError {
    /// The queue takes no more records.
    Closed,
    /// The queue holds as many records as it may.
    Full,
}

/// A bounded queue of records, oldest first.
pub struct RecordQueue {
    items: VecDeque<MetricRecord>,
    capacity: usize,
    closed: bool,
}

impl View for RecordQueue {
    type V = Seq<RecordView>;

    closed spec fn view(&self) -> Seq<RecordView> {
        views(self.items@)
    }
}

impl RecordQueue {
    /// The most records the queue may hold.
    pub closed spec fn bound(&self) -> nat {
        self.capacity as nat
    }

    /// Whether the queue has stopped taking records.
    pub closed spec fn sealed(&self) -> bool {
        self.closed
    }

    /// The bound is kept and every held record is well formed.
    pub closed spec fn wf(&self) -> bool {
        &&& self.items@.len() <= self.capacity
        &&& all_wf(self.items@)
    }

    /// A well-formed queue holds no more than its bound.
    pub proof fn lemma_within_bound(&self)
        requires
            self.wf(),
        ensures
            self@.len() <= self.bound(),
            self.bound() <= usize::MAX,
    {
    }

    /// An open, empty queue that holds at most `capacity` records.
    pub fn new(capacity: usize) -> (queue: RecordQueue)
        ensures
            queue.wf(),
            queue@ == Seq::<RecordView>::empty(),
            queue.bound() == capacity,
            !queue.sealed(),
    {
        let queue = RecordQueue { items: VecDeque::new(), capacity, closed: false };
        assert(queue@ =~= Seq::<RecordView>::empty());
        queue
    }

    /// Appends `record` unless the queue is closed or full; a refused push
    /// leaves the queue as it was.
    pub fn push(&mut self, record: MetricRecord) -> (outcome: Result<(), PushError>)
        requires
            old(self).wf(),
            record.wf(),
        ensures
            final(self).wf(),
            final(self).bound() == old(self).bound(),
            final(self).sealed() == old(self).sealed(),
            outcome == (if old(self).sealed() {
                Err::<(), PushError>(PushError::Closed)
            } else if old(self)@.len() >= old(self).bound() {
                Err(PushError::Full)
            } else {
                Ok(())
            }),
            final(self)@ == (if outcome is Ok {
                old(self)@.push(record@)
            } else {
                old(self)@
            }),
    {
        if self.closed {
            return Err(PushError::Closed);
        }
        if self.items.len() >= self.capacity {
            return Err(PushError::Full);
        }
        self.items.push_back(record);
        assert(self@ =~= old(self)@.push(record@));
        Ok(())
    }

    /// Removes and returns the oldest records, at most `max_batch_size` of
    /// them, oldest first.
    pub fn drain(&mut self, max_batch_size: usize) -> (batch: Vec<MetricRecord>)
        requires
            old(self).wf(),
        ensures
            final(self).wf(),
            final(self).bound() == old(self).bound(),
            final(self).sealed() == old(self).sealed(),
            all_wf(batch@),
            batch@.len() == (if max_batch_size <= old(self)@.len() {
                max_batch_size as int
            } else {
                old(self)@.len() as int
            }),
            views(batch@) == old(self)@.subrange(0, batch@.len() as int),
            final(self)@ == old(self)@.subrange(batch@.len() as int, old(self)@.len() as int),
    {
        let mut batch: Vec<MetricRecord> = Vec::new();
        while batch.len() < max_batch_size && self.items.len() > 0
            invariant
                self.capacity == old(self).capacity,
                self.closed == old(self).closed,
                batch@.len() <= max_batch_size,
                batch@.len() + self.items@.len() == old(self).items@.len(),
                forall|i: int| 0 <= i < batch@.len() ==> batch@[i] == old(self).items@[i],
                forall|i: int|
                    0 <= i < self.items@.len() ==> self.items@[i] == old(self).items@[batch@.len()
                        + i],
                old(self).wf(),
            decreases self.items@.len(),
        {
            match self.items.pop_front() {
                Some(record) => {
                    batch.push(record);
                },
                None => {},
            }
        }
        assert(views(batch@) =~= old(self)@.subrange(0, batch@.len() as int));
        assert(self@ =~= old(self)@.subrange(batch@.len() as int, old(self)@.len() as int));
        batch
    }

    /// How many records wait in the queue.
    pub fn len(&self) -> (n: usize)
        ensures
            n == self@.len(),
    {
        self.items.len()
    }

    /// True when no record waits.
    pub fn is_empty(&self) -> (empty: bool)
        ensures
            empty == (self@.len() == 0),
    {
        self.items.len() == 0
    }

    /// True when a push would be refused for want of room.
    pub fn is_full(&self) -> (full: bool)
        ensures
            full == (self@.len() >= self.bound()),
    {
        self.items.len() >= self.capacity
    }

    /// The most records the queue may hold.
    pub fn capacity(&self) -> (capacity: usize)
        ensures
            capacity == self.bound(),
    {
        self.capacity
    }

    /// Whether the queue has stopped taking records.
    pub fn is_closed(&self) -> (closed: bool)
        ensures
            closed == self.sealed(),
    {
        self.closed
    }

    /// Stops the queue from taking records; what it holds stays.
    pub fn close(&mut self)
        ensures
            final(self).sealed(),
            final(self)@ == old(self)@,
            final(self).bound() == old(self).bound(),
            old(self).wf() ==> final(self).wf(),
    {
        self.closed = true;
    }
}

} // verus!
