//! A fixed-capacity FIFO of comet-trail particles, backed by a
//! `heapless::spsc::Queue` with 128 slots and a `u16` index type.
//!
//! Each stored item is a plain tuple `(r, g, b, position)`. The queue's
//! contents are modelled by the uninterpreted sequence [`queue_model`]; the
//! wrapper methods below state, over that model, what the heapless queue
//! does according to its source.

use vstd::prelude::*;

verus! {

/// The number of slots in the backing queue.
pub const QUEUE_CAPACITY: usize = 128;

/// A FIFO holding `(r, g, b, position)` items, at most [`QUEUE_CAPACITY`]
/// of them. The front of the queue is the oldest item.
#[verifier::external_body]
pub struct ParticleQueue {
    queue: heapless::spsc::Queue<(u8, u8, u8, u16), heapless::consts::U128, u16>,
}

/// The items currently in the queue, front (oldest) first.
pub uninterp spec fn queue_model(q: ParticleQueue) -> Seq<(u8, u8, u8, u16)>;

impl ParticleQueue {
    /// Relies on `heapless::spsc::Queue::u16`: creates an empty queue.
    #[verifier::external_body]
    pub fn new() -> (q: ParticleQueue)
        ensures
            queue_model(q) == Seq::<(u8, u8, u8, u16)>::empty(),
    {
        ParticleQueue { queue: heapless::spsc::Queue::u16() }
    }

    /// Relies on `heapless::spsc::Queue::len`: the number of items held.
    #[verifier::external_body]
    pub fn len(&self) -> (n: usize)
        ensures
            n == queue_model(*self).len(),
    {
        self.queue.len() as usize
    }

    /// Relies on `heapless::spsc::Queue::enqueue`: appends at the back and
    /// returns `Ok` when a slot is free, returns the item back (here
    /// flattened to `Err(())`) when all 128 slots are taken.
    #[verifier::external_body]
    pub fn enqueue(&mut self, item: (u8, u8, u8, u16)) -> (r: Result<(), ()>)
        ensures
            queue_model(*old(self)).len() < QUEUE_CAPACITY ==> {
                &&& r == Ok::<(), ()>(())
                &&& queue_model(*final(self)) == queue_model(*old(self)).push(item)
            },
            queue_model(*old(self)).len() >= QUEUE_CAPACITY ==> {
                &&& r == Err::<(), ()>(())
                &&& queue_model(*final(self)) == queue_model(*old(self))
            },
    {
        self.queue.enqueue(item).map_err(|_| ())
    }

    /// Relies on `heapless::spsc::Queue::dequeue`: removes and returns the
    /// front item, or returns `None` when the queue is empty.
    #[verifier::external_body]
    pub fn dequeue(&mut self) -> (r: Option<(u8, u8, u8, u16)>)
        ensures
            queue_model(*old(self)).len() == 0 ==> {
                &&& r == Option::<(u8, u8, u8, u16)>::None
                &&& queue_model(*final(self)) == queue_model(*old(self))
            },
            queue_model(*old(self)).len() > 0 ==> {
                &&& r == Some(queue_model(*old(self))[0])
                &&& queue_model(*final(self)) == queue_model(*old(self)).subrange(
                    1,
                    queue_model(*old(self)).len() as int,
                )
            },
    {
        self.queue.dequeue()
    }

    /// Relies on `heapless::spsc::Queue::peek`: a copy of the front item,
    /// or `None` when the queue is empty.
    #[verifier::external_body]
    pub fn peek(&self) -> (r: Option<(u8, u8, u8, u16)>)
        ensures
            queue_model(*self).len() == 0 ==> r == Option::<(u8, u8, u8, u16)>::None,
            queue_model(*self).len() > 0 ==> r == Some(queue_model(*self)[0]),
    {
        self.queue.peek().map(|item| *item)
    }

    /// Relies on `heapless::spsc::Queue::iter` and its
    /// `DoubleEndedIterator` impl: a copy of the back (most recently
    /// enqueued) item, or `None` when the queue is empty.
    #[verifier::external_body]
    pub fn peek_back(&self) -> (r: Option<(u8, u8, u8, u16)>)
        ensures
            queue_model(*self).len() == 0 ==> r == Option::<(u8, u8, u8, u16)>::None,
            queue_model(*self).len() > 0 ==> r == Some(queue_model(*self).last()),
    {
        self.queue.iter().next_back().map(|item| *item)
    }

    /// Relies on `heapless::spsc::Queue::iter`: copies the items out, front
    /// first.
    #[verifier::external_body]
    pub fn to_vec(&self) -> (v: Vec<(u8, u8, u8, u16)>)
        ensures
            v@ == queue_model(*self),
    {
        self.queue.iter().map(|item| *item).collect()
    }
}

} // verus!
