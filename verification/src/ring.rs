//! Fixed-length sliding window over numeric samples.
//!
//! The buffer is created full (every slot holding a fill value) and keeps its
//! length forever: pushing a value appends it as the newest entry and evicts
//! the single oldest one. Storage is a circular array, so a push costs O(1).

use vstd::prelude::*;

verus! {

/// A fixed-capacity FIFO window. The view is the stored sequence from oldest
/// to newest; its length never changes after construction.
pub struct RingBuffer<T> {
    slots: Vec<T>,
    start: usize,
}

impl<T> View for RingBuffer<T> {
    type V = Seq<T>;

    closed spec fn view(&self) -> Seq<T> {
        self.slots@.subrange(self.start as int, self.slots@.len() as int)
            + self.slots@.subrange(0, self.start as int)
    }
}

impl<T: Copy> RingBuffer<T> {
    /// The slot index of the oldest entry stays in range.
    pub closed spec fn wf(&self) -> bool {
        self.start < self.slots.len()
    }

    /// A window of exactly `capacity` slots, each holding `fill`.
    pub fn new(capacity: usize, fill: T) -> (r: Self)
        requires
            capacity > 0,
        ensures
            r.wf(),
            r@ == Seq::new(capacity as nat, |i: int| fill),
    {
        let mut slots: Vec<T> = Vec::new();
        let mut i: usize = 0;
        while i < capacity
            invariant
                i <= capacity,
                slots@ == Seq::new(i as nat, |j: int| fill),
            decreases capacity - i,
        {
            slots.push(fill);
            proof {
                assert(slots@ =~= Seq::new((i + 1) as nat, |j: int| fill));
            }
            i = i + 1;
        }
        let r = RingBuffer { slots, start: 0 };
        proof {
            assert(r@ =~= Seq::new(capacity as nat, |i: int| fill));
        }
        r
    }

    /// Number of stored samples; constant for the life of the buffer.
    pub fn len(&self) -> (n: usize)
        requires
            self.wf(),
        ensures
            n == self@.len(),
    {
        self.slots.len()
    }

    /// The sample at position `i`, counting from the oldest.
    pub fn get(&self, i: usize) -> (r: T)
        requires
            self.wf(),
            i < self@.len(),
        ensures
            r == self@[i as int],
    {
        let len = self.slots.len();
        let j = if i < len - self.start {
            self.start + i
        } else {
            i - (len - self.start)
        };
        self.slots[j]
    }

    /// Appends `value` as the newest sample and evicts the oldest one.
    pub fn push(&mut self, value: T)
        requires
            old(self).wf(),
        ensures
            final(self).wf(),
            final(self)@ == old(self)@.subrange(1, old(self)@.len() as int).push(value),
            final(self)@ == slide(old(self)@, value),
    {
        let len = self.slots.len();
        self.slots.set(self.start, value);
        self.start = if self.start + 1 == len {
            0
        } else {
            self.start + 1
        };
        proof {
            assert(self@ =~= old(self)@.subrange(1, old(self)@.len() as int).push(value));
        }
    }

    /// The whole window as a vector, oldest first.
    pub fn to_vec(&self) -> (r: Vec<T>)
        requires
            self.wf(),
        ensures
            r@ == self@,
    {
        let len = self.slots.len();
        let mut r: Vec<T> = Vec::new();
        let mut i: usize = 0;
        while i < len
            invariant
                self.wf(),
                len == self@.len(),
                i <= len,
                r@ == self@.subrange(0, i as int),
            decreases len - i,
        {
            r.push(self.get(i));
            proof {
                assert(r@ =~= self@.subrange(0, (i + 1) as int));
            }
            i = i + 1;
        }
        proof {
            assert(r@ =~= self@);
        }
        r
    }
}

/// One push step on a window: drop the oldest entry, append the new value.
/// A window of capacity zero stays empty.
pub open spec fn slide<T>(window: Seq<T>, value: T) -> Seq<T> {
    if window.len() == 0 {
        window
    } else {
        window.subrange(1, window.len() as int).push(value)
    }
}

/// The window contents after pushing each value of `values` in order.
pub open spec fn pushed_all<T>(window: Seq<T>, values: Seq<T>) -> Seq<T>
    decreases values.len(),
{
    if values.len() == 0 {
        window
    } else {
        pushed_all(slide(window, values[0]), values.subrange(1, values.len() as int))
    }
}

/// Pushing a run of values slides the window along the concatenation of the
/// old contents and the pushed values.
proof fn lemma_pushed_all_concat<T>(window: Seq<T>, values: Seq<T>)
    ensures
        pushed_all(window, values) == (window + values).subrange(
            values.len() as int,
            (values.len() + window.len()) as int,
        ),
    decreases values.len(),
{
    if values.len() == 0 {
        assert(pushed_all(window, values) =~= (window + values).subrange(
            values.len() as int,
            (values.len() + window.len()) as int,
        ));
    } else if window.len() == 0 {
        let values2 = values.subrange(1, values.len() as int);
        lemma_pushed_all_concat(window, values2);
        assert((window + values2) =~= values2);
        assert(pushed_all(window, values) =~= (window + values).subrange(
            values.len() as int,
            (values.len() + window.len()) as int,
        ));
    } else {
        let window2 = window.subrange(1, window.len() as int).push(values[0]);
        let values2 = values.subrange(1, values.len() as int);
        lemma_pushed_all_concat(window2, values2);
        assert((window2 + values2) =~= (window + values).subrange(
            1,
            (window.len() + values.len()) as int,
        ));
        assert((window2 + values2).subrange(values2.len() as int, (values2.len() + window2.len()) as int)
            =~= (window + values).subrange(values.len() as int, (values.len() + window.len()) as int));
    }
}

/// Law: after pushing at least as many values as the window holds, the window
/// keeps its fixed length and holds exactly the last `window.len()` pushed
/// values, in order.
pub proof fn lemma_window_holds_last_pushed<T>(window: Seq<T>, values: Seq<T>)
    requires
        values.len() >= window.len(),
    ensures
        pushed_all(window, values).len() == window.len(),
        pushed_all(window, values) == values.subrange(
            values.len() - window.len(),
            values.len() as int,
        ),
{
    lemma_pushed_all_concat(window, values);
    assert((window + values).subrange(values.len() as int, (values.len() + window.len()) as int)
        =~= values.subrange(values.len() - window.len(), values.len() as int));
}

} // verus!
