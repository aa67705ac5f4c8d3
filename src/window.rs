use vstd::prelude::*;

verus! {

/// Samples are fixed-point fractions: `LOAD_SCALE` stands for a fully loaded
/// CPU (1.0) and 0 for an idle one.
pub const LOAD_SCALE: u32 = 10000;

/// How many samples the dashboard's history holds: one per column of its graph.
pub const HISTORY_LEN: usize = 17;

/// Where the `i`-th oldest sample lives in a ring of `capacity` slots whose
/// oldest sample sits at `head`.
spec fn ring_slot(head: int, i: int, capacity: int) -> int {
    if head + i < capacity {
        head + i
    } else {
        head + i - capacity
    }
}

/// The window after one push: the oldest sample leaves, `value` comes in last.
pub open spec fn pushed(window: Seq<u32>, value: u32) -> Seq<u32> {
    window.drop_first().push(value)
}

/// The window after pushing each of `values` in turn.
pub open spec fn pushed_all(window: Seq<u32>, values: Seq<u32>) -> Seq<u32>
    decreases values.len(),
{
    if values.len() == 0 {
        window
    } else {
        pushed(pushed_all(window, values.drop_last()), values.last())
    }
}

/// A window of `capacity` idle samples.
pub open spec fn idle_window(capacity: nat) -> Seq<u32> {
    Seq::new(capacity, |i: int| 0u32)
}

/// Pushing never changes how many samples a window holds.
pub proof fn lemma_pushes_keep_length(window: Seq<u32>, values: Seq<u32>)
    requires
        window.len() > 0,
    ensures
        pushed_all(window, values).len() == window.len(),
    decreases values.len(),
{
    if values.len() > 0 {
        lemma_pushes_keep_length(window, values.drop_last());
    }
}

/// After any run of pushes the window holds the latest `window.len()` values
/// of its old contents followed by the pushed values, oldest first.
pub proof fn lemma_pushes_keep_latest(window: Seq<u32>, values: Seq<u32>)
    requires
        window.len() > 0,
    ensures
        pushed_all(window, values) == (window + values).subrange(
            values.len() as int,
            (values.len() + window.len()) as int,
        ),
    decreases values.len(),
{
    if values.len() > 0 {
        let n = values.len() - 1;
        let earlier = values.drop_last();
        lemma_pushes_keep_latest(window, earlier);
        assert((window + earlier).subrange(n as int, (n + window.len()) as int).drop_first().push(values.last())
            =~= (window + values).subrange(n + 1, (n + 1 + window.len()) as int));
    }
}

/// Pushing `capacity + 1` values into an idle window of that capacity leaves
/// every value but the first, in the order they were pushed.
pub proof fn lemma_fifo_order(capacity: nat, values: Seq<u32>)
    requires
        capacity > 0,
        values.len() == capacity + 1,
    ensures
        pushed_all(idle_window(capacity), values) == values.drop_first(),
{
    lemma_pushes_keep_latest(idle_window(capacity), values);
    assert((idle_window(capacity) + values).subrange(
        values.len() as int,
        (values.len() + capacity) as int,
    ) =~= values.drop_first());
}

/// A rolling window of the most recent `capacity` samples, oldest first.
///
/// The samples live in a ring of `capacity` slots, so a push overwrites the
/// oldest slot instead of shifting every sample.
pub struct LoadStorage {
    capacity: usize,
    slots: Vec<u32>,
    head: usize,
}

impl LoadStorage {
    /// The ring is consistent: one slot per sample, `head` among them.
    pub closed spec fn wf(&self) -> bool {
        &&& 0 < self.capacity
        &&& self.slots.len() == self.capacity
        &&& self.head < self.capacity
    }

    /// The samples, oldest first.
    pub closed spec fn view(&self) -> Seq<u32> {
        Seq::new(
            self.capacity as nat,
            |i: int| self.slots@[ring_slot(self.head as int, i, self.capacity as int)],
        )
    }

    /// A window of `capacity` idle samples.
    pub fn new(capacity: usize) -> (r: Self)
        requires
            capacity > 0,
        ensures
            r.wf(),
            r@ == idle_window(capacity as nat),
    {
        let slots: Vec<u32> = vec![0u32; capacity];
        let r = LoadStorage { capacity, slots, head: 0 };
        assert(r@ =~= idle_window(capacity as nat));
        r
    }

    /// Drops the oldest sample and appends `value` as the newest one.
    ///
    /// The value is stored as it is: a sample above `LOAD_SCALE` is kept and
    /// only the renderer clamps it.
    pub fn push(&mut self, value: u32)
        requires
            old(self).wf(),
        ensures
            final(self).wf(),
            final(self)@ == pushed(old(self)@, value),
    {
        let head = self.head;
        let next = if head + 1 == self.capacity {
            0
        } else {
            head + 1
        };
        self.slots.set(head, value);
        self.head = next;
        assert(self@ =~= pushed(old(self)@, value));
    }

    /// How many samples the window holds.
    pub fn capacity(&self) -> (r: usize)
        requires
            self.wf(),
        ensures
            r == self@.len(),
            r > 0,
    {
        self.capacity
    }

    /// The `i`-th oldest sample.
    pub fn get(&self, i: usize) -> (r: u32)
        requires
            self.wf(),
            i < self@.len(),
        ensures
            r == self@[i as int],
    {
        let to_end = self.capacity - self.head;
        let slot = if i < to_end {
            self.head + i
        } else {
            i - to_end
        };
        self.slots[slot]
    }

    /// A copy of the samples, oldest first.
    pub fn samples(&self) -> (r: Vec<u32>)
        requires
            self.wf(),
        ensures
            r@ == self@,
    {
        let n = self.capacity();
        let mut r: Vec<u32> = Vec::new();
        let mut i: usize = 0;
        while i < n
            invariant
                self.wf(),
                n == self@.len(),
                i <= n,
                r@ == self@.subrange(0, i as int),
            decreases n - i,
        {
            r.push(self.get(i));
            i = i + 1;
            assert(r@ =~= self@.subrange(0, i as int));
        }
        assert(r@ =~= self@);
        r
    }
}

} // verus!
