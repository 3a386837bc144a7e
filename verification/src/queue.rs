//! Trusted face of the lock-free single-producer/single-consumer queues.
//!
//! The engine moves sample blocks and queue endpoints between its two
//! execution contexts through `rtrb` ring buffers.  Every operation here is
//! non-blocking.  The opposite endpoint of a queue may live on another
//! thread, so no wrapper promises anything about what a queue holds: a pop
//! may yield an element or nothing, and the callers state what holds of
//! every outcome.

use crate::block::Block;
use vstd::prelude::*;

verus! {

#[verifier::external_type_specification]
#[verifier::external_body]
#[verifier::reject_recursive_types(T)]
pub struct ExProducer<T>(rtrb::Producer<T>);

#[verifier::external_type_specification]
#[verifier::external_body]
#[verifier::reject_recursive_types(T)]
pub struct ExConsumer<T>(rtrb::Consumer<T>);

/// Relies on rtrb::RingBuffer::new: builds an empty bounded SPSC queue with
/// the given capacity and returns its two endpoints.
#[verifier::external_body]
pub(crate) fn spsc_new<T>(capacity: usize) -> (r: (rtrb::Producer<T>, rtrb::Consumer<T>)) {
    rtrb::RingBuffer::new(capacity)
}

/// The bound the block queue behind this producer was built with.  The
/// capacity of an rtrb ring buffer is fixed at creation, so the name is a
/// function of the endpoint alone; what the queue currently holds gets no
/// name, since the other endpoint may live on another thread.
pub uninterp spec fn block_queue_bound(p: rtrb::Producer<Block>) -> nat;

/// Relies on rtrb::RingBuffer::new: builds the empty block queue with the
/// given fixed capacity and returns its two endpoints.
#[verifier::external_body]
pub(crate) fn block_queue_new(capacity: usize) -> (r: (
    rtrb::Producer<Block>,
    rtrb::Consumer<Block>,
))
    ensures
        block_queue_bound(r.0) == capacity as nat,
{
    rtrb::RingBuffer::new(capacity)
}

/// Relies on rtrb::Producer::push: moves the element into the queue, or, when
/// the queue is full at this instant, hands the same element back.
#[verifier::external_body]
pub(crate) fn spsc_push<T>(p: &mut rtrb::Producer<T>, value: T) -> (r: Option<T>)
    ensures
        r matches Some(v) ==> v == value,
{
    match p.push(value) {
        Ok(()) => None,
        Err(rtrb::PushError::Full(v)) => Some(v),
    }
}

/// Relies on rtrb::Consumer::pop: moves the oldest element out of the queue,
/// or returns nothing when the queue is empty at this instant.
#[verifier::external_body]
pub(crate) fn spsc_pop<T>(c: &mut rtrb::Consumer<T>) -> (r: Option<T>) {
    c.pop().ok()
}

/// Relies on rtrb::Producer::slots: the number of free slots at this instant.
/// A consumer on another thread can only increase it.
#[verifier::external_body]
pub(crate) fn spsc_free_slots<T>(p: &rtrb::Producer<T>) -> (r: usize) {
    p.slots()
}

} // verus!
