//! A capacity-bounded time series of readings: only the most recent
//! `capacity` readings are retained, in arrival order.
use vstd::prelude::*;

verus! {

/// The last `k` elements of `s` (all of `s` when it is shorter).
pub open spec fn most_recent<T>(s: Seq<T>, k: nat) -> Seq<T> {
    if s.len() <= k {
        s
    } else {
        s.subrange(s.len() - k, s.len() as int)
    }
}

/// The retained readings after appending each of `readings` in turn to a
/// store that holds `start` and keeps at most `capacity` readings.
pub open spec fn append_all<T>(start: Seq<T>, readings: Seq<T>, capacity: nat) -> Seq<T>
    decreases readings.len(),
{
    if readings.len() == 0 {
        start
    } else {
        let before = append_all(start, readings.drop_last(), capacity);
        most_recent(before.push(readings.last()), capacity)
    }
}

/// The most recent readings, oldest first, never more than `capacity`.
pub struct RollingHistory<T> {
    readings: Vec<T>,
    capacity: usize,
}

impl<T> View for RollingHistory<T> {
    type V = Seq<T>;

    closed spec fn view(&self) -> Seq<T> {
        self.readings@
    }
}

impl<T: Copy> RollingHistory<T> {
    /// Maximum number of readings retained.
    pub closed spec fn spec_capacity(&self) -> nat {
        self.capacity as nat
    }

    /// The store holds no more readings than its capacity.
    pub open spec fn wf(&self) -> bool {
        self@.len() <= self.spec_capacity()
    }

    /// An empty store that retains at most `capacity` readings.
    pub fn new(capacity: usize) -> (r: Self)
        ensures
            r@ == Seq::<T>::empty(),
            r.spec_capacity() == capacity,
            r.wf(),
    {
        RollingHistory { readings: Vec::new(), capacity }
    }

    /// Maximum number of readings retained.
    pub fn capacity(&self) -> (r: usize)
        ensures
            r == self.spec_capacity(),
    {
        self.capacity
    }

    /// Number of readings held.
    pub fn len(&self) -> (r: usize)
        ensures
            r == self@.len(),
    {
        self.readings.len()
    }

    /// Whether no reading is held.
    pub fn is_empty(&self) -> (r: bool)
        ensures
            r == (self@.len() == 0),
    {
        self.readings.len() == 0
    }

    /// Records a reading as the most recent one, dropping the oldest when
    /// the store is full.
    pub fn append(&mut self, reading: T)
        requires
            old(self).wf(),
        ensures
            final(self).wf(),
            final(self).spec_capacity() == old(self).spec_capacity(),
            final(self)@ == most_recent(old(self)@.push(reading), old(self).spec_capacity()),
    {
        self.readings.push(reading);
        if self.readings.len() > self.capacity {
            self.readings.remove(0);
            assert(self.readings@ =~= most_recent(old(self)@.push(reading), self.capacity as nat));
        }
    }

    /// The `last_n` most recent readings (all of them when fewer are held),
    /// oldest first.
    pub fn snapshot(&self, last_n: usize) -> (r: Vec<T>)
        ensures
            r@ == most_recent(self@, last_n as nat),
    {
        let len = self.readings.len();
        let start: usize = if len <= last_n {
            0
        } else {
            len - last_n
        };
        let mut out: Vec<T> = Vec::new();
        let mut i: usize = start;
        while i < len
            invariant
                len == self@.len(),
                start <= i <= len,
                out@ == self@.subrange(start as int, i as int),
            decreases len - i,
        {
            out.push(self.readings[i]);
            i = i + 1;
            assert(out@ =~= self@.subrange(start as int, i as int));
        }
        assert(out@ =~= most_recent(self@, last_n as nat));
        out
    }
}

/// However many readings are appended, a store never holds more than its
/// capacity, and what it holds is exactly the most recent readings of the
/// whole stream, in arrival order.
pub proof fn lemma_history_keeps_most_recent<T>(start: Seq<T>, readings: Seq<T>, capacity: nat)
    requires
        start.len() <= capacity,
    ensures
        append_all(start, readings, capacity).len() <= capacity,
        append_all(start, readings, capacity) == most_recent(start + readings, capacity),
    decreases readings.len(),
{
    if readings.len() > 0 {
        let prefix = readings.drop_last();
        lemma_history_keeps_most_recent(start, prefix, capacity);
        let before = append_all(start, prefix, capacity);
        let all = start + readings;
        assert(all =~= (start + prefix).push(readings.last()));
        assert(most_recent(before.push(readings.last()), capacity) =~= most_recent(all, capacity));
    } else {
        assert(start + readings =~= start);
    }
}

} // verus!
