use vstd::prelude::*;

verus! {

/// Where logical position `i` of a ring that starts at `head` sits in a buffer of `cap` slots.
pub open spec fn slot(head: int, i: int, cap: int) -> int {
    if head + i < cap {
        head + i
    } else {
        head + i - cap
    }
}

/// A fixed-capacity FIFO of samples kept in a ring buffer: appending to a full
/// window drops the oldest sample.
pub struct SlidingWindow {
    buf: Vec<i64>,
    head: usize,
    len: usize,
}

impl View for SlidingWindow {
    type V = Seq<i64>;

    /// The samples, oldest first.
    closed spec fn view(&self) -> Seq<i64> {
        Seq::new(
            self.len as nat,
            |i: int| self.buf@[slot(self.head as int, i, self.buf@.len() as int)],
        )
    }
}

impl SlidingWindow {
    /// The most samples the window holds.
    pub closed spec fn capacity_spec(&self) -> nat {
        self.buf@.len()
    }

    /// The ring's start and length fit its buffer.
    pub closed spec fn wf(&self) -> bool {
        &&& self.buf@.len() > 0
        &&& self.head < self.buf@.len()
        &&& self.len <= self.buf@.len()
    }

    /// An empty window of the given capacity.
    pub fn new(capacity: usize) -> (r: SlidingWindow)
        requires
            capacity > 0,
        ensures
            r.wf(),
            r@.len() == 0,
            r.capacity_spec() == capacity,
    {
        let r = SlidingWindow { buf: vec![0i64; capacity], head: 0, len: 0 };
        assert(r@ =~= Seq::<i64>::empty());
        r
    }

    /// The most samples the window holds.
    pub fn capacity(&self) -> (r: usize)
        ensures
            r == self.capacity_spec(),
    {
        self.buf.len()
    }

    /// How many samples the window holds.
    pub fn len(&self) -> (r: usize)
        requires
            self.wf(),
        ensures
            r == self@.len(),
    {
        self.len
    }

    /// Appends `value` as the newest sample; when the window is full the oldest
    /// sample leaves first.
    pub fn append(&mut self, value: i64)
        requires
            old(self).wf(),
        ensures
            final(self).wf(),
            final(self).capacity_spec() == old(self).capacity_spec(),
            final(self)@ == if old(self)@.len() == old(self).capacity_spec() {
                old(self)@.drop_first().push(value)
            } else {
                old(self)@.push(value)
            },
            final(self)@.len() <= final(self).capacity_spec(),
    {
        let ghost before = self@;
        let cap = self.buf.len();
        if self.len < cap {
            let at = if self.len < cap - self.head {
                self.head + self.len
            } else {
                self.len - (cap - self.head)
            };
            self.buf.set(at, value);
            self.len = self.len + 1;
            assert(self@ =~= before.push(value));
        } else {
            let h = self.head;
            self.buf.set(h, value);
            self.head = if h < cap - 1 { h + 1 } else { 0 };
            assert(self@ =~= before.drop_first().push(value));
        }
    }

    /// The samples, oldest first; the window is left as it is.
    pub fn snapshot(&self) -> (r: Vec<i64>)
        requires
            self.wf(),
        ensures
            r@ == self@,
    {
        let cap = self.buf.len();
        let mut out: Vec<i64> = Vec::with_capacity(self.len);
        let mut i: usize = 0;
        while i < self.len
            invariant
                self.wf(),
                cap == self.buf@.len(),
                0 <= i <= self.len,
                out@ == self@.take(i as int),
            decreases self.len - i,
        {
            let at = if i < cap - self.head { self.head + i } else { i - (cap - self.head) };
            out.push(self.buf[at]);
            i = i + 1;
            assert(out@ =~= self@.take(i as int));
        }
        assert(self@.take(self.len as int) =~= self@);
        out
    }
}

} // verus!
