//! Bounded sample history: a fixed-capacity FIFO ring of scalar readings.
//! Appending to a full buffer evicts the oldest entry, so the buffer always
//! holds the newest samples, oldest first, and its length never exceeds the
//! capacity chosen at construction.

use std::collections::VecDeque;
use vstd::prelude::*;

verus! {

/// The contents of a bounded history after appending `value` to contents `s`
/// under capacity `capacity`: the value goes on the end, and the oldest entry
/// leaves first when the buffer is already full.
pub open spec fn push_model<T>(s: Seq<T>, capacity: nat, value: T) -> Seq<T> {
    if s.len() < capacity {
        s.push(value)
    } else {
        s.drop_first().push(value)
    }
}

/// The contents of a bounded history of capacity `capacity` that started as
/// `init` and then took every element of `values` in order, one push each.
pub open spec fn pushed_all<T>(init: Seq<T>, capacity: nat, values: Seq<T>) -> Seq<T>
    decreases values.len(),
{
    if values.len() == 0 {
        init
    } else {
        push_model(pushed_all(init, capacity, values.drop_last()), capacity, values.last())
    }
}

/// The suffix of `values` a buffer of capacity `capacity` retains: all of
/// them when they fit, otherwise exactly the last `capacity` of them.
pub open spec fn retained<T>(values: Seq<T>, capacity: nat) -> Seq<T> {
    if values.len() <= capacity {
        values
    } else {
        values.skip(values.len() - capacity)
    }
}

/// Fixed-capacity history of samples. Oldest entry first; pushing onto a
/// full buffer drops the oldest entry.
pub struct HistoryBuffer<T> {
    entries: VecDeque<T>,
    capacity: usize,
}

impl<T> View for HistoryBuffer<T> {
    type V = Seq<T>;

    closed spec fn view(&self) -> Seq<T> {
        self.entries@
    }
}

impl<T> HistoryBuffer<T> {
    /// Capacity fixed at construction; never changes afterwards.
    pub closed spec fn spec_capacity(&self) -> nat {
        self.capacity as nat
    }

    /// Well-formedness: a positive capacity, and never more entries than it.
    pub open spec fn wf(&self) -> bool {
        &&& self.spec_capacity() >= 1
        &&& self@.len() <= self.spec_capacity()
    }

    /// An empty buffer that will retain at most `capacity` samples.
    pub fn new(capacity: usize) -> (buffer: HistoryBuffer<T>)
        requires
            capacity >= 1,
        ensures
            buffer.wf(),
            buffer@ == Seq::<T>::empty(),
            buffer.spec_capacity() == capacity,
    {
        HistoryBuffer { entries: VecDeque::new(), capacity }
    }

    /// The capacity chosen at construction.
    pub fn capacity(&self) -> (capacity: usize)
        ensures
            capacity == self.spec_capacity(),
    {
        self.capacity
    }

    /// How many samples are currently retained.
    pub fn length(&self) -> (length: usize)
        ensures
            length == self@.len(),
    {
        self.entries.len()
    }

    /// Appends one sample, evicting the oldest entry first when the buffer
    /// is full. The length never exceeds the capacity.
    pub fn push(&mut self, value: T)
        requires
            old(self).wf(),
        ensures
            final(self).wf(),
            final(self).spec_capacity() == old(self).spec_capacity(),
            final(self)@ == push_model(old(self)@, old(self).spec_capacity(), value),
            final(self)@.len() <= old(self).spec_capacity(),
    {
        if self.entries.len() == self.capacity {
            self.entries.pop_front();
        }
        self.entries.push_back(value);
    }
}

impl<T: Copy> HistoryBuffer<T> {
    /// The current contents, oldest sample first. Does not mutate the buffer.
    pub fn snapshot(&self) -> (out: Vec<T>)
        ensures
            out@ == self@,
    {
        let mut out: Vec<T> = Vec::new();
        let mut i: usize = 0;
        while i < self.entries.len()
            invariant
                i <= self.entries@.len(),
                out@ == self.entries@.take(i as int),
            decreases self.entries@.len() - i,
        {
            out.push(self.entries[i]);
            i = i + 1;
        }
        assert(self.entries@.take(self.entries@.len() as int) == self.entries@);
        out
    }
}

/// However many values are pushed, a buffer that starts within its capacity
/// never exceeds that capacity.
pub proof fn lemma_history_length_bounded<T>(init: Seq<T>, capacity: nat, values: Seq<T>)
    requires
        capacity >= 1,
        init.len() <= capacity,
    ensures
        pushed_all(init, capacity, values).len() <= capacity,
    decreases values.len(),
{
    if values.len() > 0 {
        lemma_history_length_bounded(init, capacity, values.drop_last());
    }
}

/// A buffer fed `values` from empty holds exactly the retained suffix of
/// `values`: all of them while they fit, afterwards the newest `capacity`
/// of them, in push order.
pub proof fn lemma_history_is_retained_suffix<T>(capacity: nat, values: Seq<T>)
    requires
        capacity >= 1,
    ensures
        pushed_all(Seq::<T>::empty(), capacity, values) == retained(values, capacity),
    decreases values.len(),
{
    if values.len() == 0 {
        assert(pushed_all(Seq::<T>::empty(), capacity, values) =~= retained(values, capacity));
    } else {
        let prefix = values.drop_last();
        lemma_history_is_retained_suffix(capacity, prefix);
        lemma_history_length_bounded(Seq::<T>::empty(), capacity, prefix);
        assert(pushed_all(Seq::<T>::empty(), capacity, values) == push_model(
            retained(prefix, capacity),
            capacity,
            values.last(),
        ));
        assert(push_model(retained(prefix, capacity), capacity, values.last()) =~= retained(
            values,
            capacity,
        ));
    }
}

/// Fed `values.len() <= capacity` values from empty, the buffer holds all of
/// them, in push order.
pub proof fn lemma_history_keeps_all<T>(capacity: nat, values: Seq<T>)
    requires
        capacity >= 1,
        values.len() <= capacity,
    ensures
        pushed_all(Seq::<T>::empty(), capacity, values) == values,
{
    lemma_history_is_retained_suffix(capacity, values);
}

/// Fed more values than its capacity from empty, the buffer holds exactly
/// the last `capacity` values pushed, in push order.
pub proof fn lemma_history_keeps_newest<T>(capacity: nat, values: Seq<T>)
    requires
        capacity >= 1,
        values.len() > capacity,
    ensures
        pushed_all(Seq::<T>::empty(), capacity, values) == values.skip(values.len() - capacity),
        pushed_all(Seq::<T>::empty(), capacity, values).len() == capacity,
{
    lemma_history_is_retained_suffix(capacity, values);
}

} // verus!
