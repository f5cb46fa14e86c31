use vstd::prelude::*;
use ringbuf::HeapRb;
use ringbuf::traits::{Consumer, Producer};

verus! {

/// A ring buffer of ringbuf (`HeapRb<u32>`). Verus cannot be told of
/// ringbuf's type (its bound names ringbuf's `Storage` trait), so it is held
/// here, out of Verus's sight, and seen through `rb_contents` and
/// `rb_capacity`.
#[verifier::external_body]
pub struct SampleRb {
    rb: HeapRb<u32>,
}

/// The samples that a ring buffer holds, eldest first.
pub uninterp spec fn rb_contents(rb: SampleRb) -> Seq<u32>;

/// The capacity that a ring buffer was made with.
pub uninterp spec fn rb_capacity(rb: SampleRb) -> nat;

/// ringbuf's `HeapRb::new`: an empty ring of
/// `capacity` places; it panics on a zero capacity.
#[verifier::external_body]
fn rb_new(capacity: usize) -> (rb: SampleRb)
    requires
        capacity > 0,
    ensures
        rb_contents(rb) == Seq::<u32>::empty(),
        rb_capacity(rb) == capacity,
{
    SampleRb { rb: HeapRb::<u32>::new(capacity) }
}

/// `Producer::try_push`: appends `x` unless the ring is full.
#[verifier::external_body]
fn rb_try_push(rb: &mut SampleRb, x: u32) -> (pushed: bool)
    ensures
        rb_capacity(*final(rb)) == rb_capacity(*old(rb)),
        pushed == (rb_contents(*old(rb)).len() < rb_capacity(*old(rb))),
        pushed ==> rb_contents(*final(rb)) == rb_contents(*old(rb)).push(x),
        !pushed ==> rb_contents(*final(rb)) == rb_contents(*old(rb)),
{
    rb.rb.try_push(x).is_ok()
}

/// `Consumer::try_pop`: removes and returns the eldest sample, if any.
#[verifier::external_body]
fn rb_try_pop(rb: &mut SampleRb) -> (r: Option<u32>)
    ensures
        rb_capacity(*final(rb)) == rb_capacity(*old(rb)),
        rb_contents(*old(rb)).len() == 0 ==> r is None && rb_contents(*final(rb)) == rb_contents(*old(rb)),
        rb_contents(*old(rb)).len() > 0 ==> r == Some(rb_contents(*old(rb))[0])
            && rb_contents(*final(rb)) == rb_contents(*old(rb)).drop_first(),
{
    rb.rb.try_pop()
}

/// The samples a ring holds after offering it `samples` one by one: those
/// that find a free place are appended, the rest are dropped.
pub open spec fn after_push(contents: Seq<u32>, capacity: nat, samples: Seq<u32>) -> Seq<u32> {
    let room = if contents.len() < capacity { capacity - contents.len() } else { 0int };
    let taken = if samples.len() < room { samples.len() as int } else { room };
    contents + samples.take(taken)
}

/// The `count` samples read from a ring holding `contents`: the eldest
/// ones, then zeros once the ring is empty.
pub open spec fn popped(contents: Seq<u32>, count: nat) -> Seq<u32> {
    Seq::new(count, |i: int| if i < contents.len() { contents[i] } else { 0u32 })
}

/// What a ring holds after `count` samples were read from it.
pub open spec fn after_pop(contents: Seq<u32>, count: nat) -> Seq<u32> {
    if count < contents.len() {
        contents.skip(count as int)
    } else {
        Seq::empty()
    }
}

/// A first-in first-out ring of samples (as bit patterns) of fixed capacity.
pub struct SampleRing {
    rb: SampleRb,
}

impl View for SampleRing {
    /// (contents, eldest first; capacity)
    type V = (Seq<u32>, nat);

    closed spec fn view(&self) -> (Seq<u32>, nat) {
        (rb_contents(self.rb), rb_capacity(self.rb))
    }
}

impl SampleRing {
    /// An empty ring of `capacity` places; the capacity must not be zero.
    pub fn new(capacity: usize) -> (r: SampleRing)
        requires
            capacity > 0,
        ensures
            r@ == (Seq::<u32>::empty(), capacity as nat),
    {
        SampleRing { rb: rb_new(capacity) }
    }

    /// Offers each sample in turn; those that find the ring full are
    /// dropped. Answers how many were taken.
    pub fn push_samples(&mut self, samples: &[u32]) -> (taken: usize)
        ensures
            final(self)@.1 == old(self)@.1,
            final(self)@.0 == after_push(old(self)@.0, old(self)@.1, samples@),
            final(self)@.0.len() == old(self)@.0.len() + taken,
    {
        let ghost c0 = self@.0;
        let ghost cap = self@.1;
        let mut taken: usize = 0;
        for i in 0..samples.len()
            invariant
                self@.1 == cap,
                taken <= i,
                self@.0 == after_push(c0, cap, samples@.take(i as int)),
                self@.0.len() == c0.len() + taken,
        {
            let pushed = rb_try_push(&mut self.rb, samples[i]);
            proof {
                let room = if c0.len() < cap { cap - c0.len() } else { 0int };
                let prev = samples@.take(i as int);
                let next = samples@.take(i + 1);
                assert(next == prev.push(samples@[i as int]));
                if prev.len() < room {
                    assert(next.take(prev.len() + 1int) == next);
                    assert(prev.take(prev.len() as int) == prev);
                } else {
                    assert(next.take(room) == prev.take(room));
                }
            }
            if pushed {
                taken = taken + 1;
            }
        }
        assert(samples@.take(samples@.len() as int) == samples@);
        taken
    }

    /// Reads `count` samples: the eldest ones the ring holds, then zeros
    /// once it is empty.
    pub fn pop_samples(&mut self, count: usize) -> (out: Vec<u32>)
        ensures
            final(self)@.1 == old(self)@.1,
            out@ == popped(old(self)@.0, count as nat),
            final(self)@.0 == after_pop(old(self)@.0, count as nat),
    {
        let ghost c0 = self@.0;
        let mut out: Vec<u32> = Vec::new();
        for i in 0..count
            invariant
                self@.1 == old(self)@.1,
                c0 == old(self)@.0,
                out@ == popped(c0, i as nat),
                self@.0 == after_pop(c0, i as nat),
        {
            let x = match rb_try_pop(&mut self.rb) {
                Some(x) => x,
                None => 0,
            };
            out.push(x);
            proof {
                assert(out@ =~= popped(c0, (i + 1) as nat));
                if i < c0.len() {
                    assert(c0.skip(i as int).drop_first() =~= after_pop(c0, (i + 1) as nat));
                }
            }
        }
        out
    }
}

/// Samples pushed into an empty ring that has room for all of them are read
/// back in the order they were pushed, and the ring is then empty.
pub proof fn lemma_ring_first_in_first_out(capacity: nat, samples: Seq<u32>)
    requires
        samples.len() <= capacity,
    ensures
        popped(after_push(Seq::empty(), capacity, samples), samples.len()) == samples,
        after_pop(after_push(Seq::empty(), capacity, samples), samples.len()) == Seq::<u32>::empty(),
{
    let c = after_push(Seq::empty(), capacity, samples);
    assert(samples.take(samples.len() as int) == samples);
    assert(c =~= samples);
    assert(popped(c, samples.len()) =~= samples);
}

/// A ring never holds more than its capacity.
pub proof fn lemma_ring_bounded(contents: Seq<u32>, capacity: nat, samples: Seq<u32>)
    requires
        contents.len() <= capacity,
    ensures
        after_push(contents, capacity, samples).len() <= capacity,
{
}

} // verus!
