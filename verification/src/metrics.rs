//! The bounded queue of runtime metrics records read from the XR runtime:
//! the oldest record is dropped when it is full.
use vstd::prelude::*;
use std::collections::VecDeque;

verus! {

/// Capacity of the queue plus one: a push that reaches it drops the oldest.
pub const RECORD_QUEUE_SIZE: usize = 500;

/// Records in arrival order, oldest first.
pub struct RecordQueue<T> {
    pub records: VecDeque<T>,
}

/// The records after `r` arrived.
pub open spec fn pushed<T>(q: Seq<T>, r: T) -> Seq<T> {
    let p = q.push(r);
    if p.len() >= RECORD_QUEUE_SIZE { p.drop_first() } else { p }
}

impl<T> RecordQueue<T> {
    /// An empty queue.
    pub fn new() -> (q: Self)
        ensures
            q.records@.len() == 0,
    {
        RecordQueue { records: VecDeque::new() }
    }

    /// Takes a record; the oldest one is dropped when the queue is full.
    pub fn push(&mut self, record: T)
        requires
            old(self).records@.len() < RECORD_QUEUE_SIZE,
        ensures
            final(self).records@ == pushed(old(self).records@, record),
    {
        self.records.push_back(record);
        if self.records.len() >= RECORD_QUEUE_SIZE {
            let _ = self.records.pop_front();
        }
    }

    /// Hands out every record, oldest first, and empties the queue.
    pub fn dump_records(&mut self) -> (r: Vec<T>)
        ensures
            r@ == old(self).records@,
            final(self).records@.len() == 0,
    {
        let ghost all = self.records@;
        let mut out: Vec<T> = Vec::new();
        while self.records.len() > 0
            invariant
                out@ + self.records@ == all,
            decreases self.records@.len(),
        {
            let ghost before = self.records@;
            match self.records.pop_front() {
                Some(r) => {
                    out.push(r);
                    proof {
                        assert(out@ + self.records@ =~= all);
                    }
                },
                None => {},
            }
        }
        assert(out@ =~= all);
        out
    }

    /// Whether the next record drops the oldest one.
    pub fn is_full(&self) -> (r: bool)
        ensures
            r == (self.records@.len() >= RECORD_QUEUE_SIZE - 1),
    {
        self.records.len() >= RECORD_QUEUE_SIZE - 1
    }
}

/// The queue never holds more than `RECORD_QUEUE_SIZE - 1` records, and a
/// push keeps the newest records in order.
pub proof fn law_queue_bounded<T>(q: Seq<T>, r: T)
    requires
        q.len() < RECORD_QUEUE_SIZE,
    ensures
        pushed(q, r).len() < RECORD_QUEUE_SIZE,
        pushed(q, r).last() == r,
        q.len() < RECORD_QUEUE_SIZE - 1 ==> pushed(q, r) == q.push(r),
        q.len() == RECORD_QUEUE_SIZE - 1 ==> pushed(q, r) == q.drop_first().push(r),
{
    if q.len() == RECORD_QUEUE_SIZE - 1 {
        assert(q.push(r).drop_first() =~= q.drop_first().push(r));
    }
}

} // verus!
