//! The lock-free single-producer single-consumer queues of `rtrb` that carry
//! samples and loops between the audio callbacks and the control thread.
//!
//! The other end of each queue lives on another thread, so what a pop hands
//! back, and whether a push finds room, depends on that thread too. The
//! contracts below state what holds of every outcome, over the history of
//! items that passed through this end of the queue. Samples travel as the
//! bit patterns of IEEE-754 single-precision values.
use vstd::prelude::*;

verus! {

#[verifier::external_type_specification]
#[verifier::external_body]
#[verifier::reject_recursive_types(T)]
pub struct ExProducer<T>(rtrb::Producer<T>);

#[verifier::external_type_specification]
#[verifier::external_body]
#[verifier::reject_recursive_types(T)]
pub struct ExConsumer<T>(rtrb::Consumer<T>);

/// The samples handed out so far through this consumer end, in the order
/// its `pop` returned them.
pub uninterp spec fn samples_popped(consumer: rtrb::Consumer<u32>) -> Seq<u32>;

/// The loops handed out so far through this consumer end, in the order its
/// `pop` returned them.
pub uninterp spec fn loops_popped(consumer: rtrb::Consumer<Vec<u32>>) -> Seq<Seq<u32>>;

/// The loops accepted so far through this producer end, in the order its
/// `push` accepted them.
pub uninterp spec fn loops_pushed(producer: rtrb::Producer<Vec<u32>>) -> Seq<Seq<u32>>;

/// Calls `rtrb::Consumer::pop` on a queue of samples: `Some` with the oldest
/// queued sample, which joins the end of the consumer's history, or `None`
/// when the queue was empty, leaving the history as it was. Which sample
/// comes back, and whether one does, depends on the producer thread and is
/// not claimed.
#[verifier::external_body]
pub(crate) fn pop_sample(consumer: &mut rtrb::Consumer<u32>) -> (item: Option<u32>)
    ensures
        item matches Some(v) ==> samples_popped(*final(consumer)) == samples_popped(
            *old(consumer),
        ).push(v),
        item is None ==> samples_popped(*final(consumer)) == samples_popped(*old(consumer)),
{
    consumer.pop().ok()
}

/// Calls `rtrb::Consumer::pop` on a queue of loops: `Some` with the oldest
/// queued loop, which joins the end of the consumer's history, or `None` when
/// the queue was empty, leaving the history as it was. Which loop comes back,
/// and whether one does, depends on the producer thread and is not claimed.
#[verifier::external_body]
pub(crate) fn pop_loop(consumer: &mut rtrb::Consumer<Vec<u32>>) -> (item: Option<Vec<u32>>)
    ensures
        item matches Some(v) ==> loops_popped(*final(consumer)) == loops_popped(
            *old(consumer),
        ).push(v@),
        item is None ==> loops_popped(*final(consumer)) == loops_popped(*old(consumer)),
{
    consumer.pop().ok()
}

/// Calls `rtrb::Consumer::slots`: the number of items ready to be read at
/// this moment. The producer may add more at any time, so no bound is claimed.
#[verifier::external_body]
pub(crate) fn readable_slots<T>(consumer: &rtrb::Consumer<T>) -> (n: usize) {
    consumer.slots()
}

/// Calls `rtrb::Producer::push` on a queue of loops. When it is accepted the
/// loop joins the end of the producer's history; when the queue is full the
/// loop is handed back unchanged (`PushError::Full(value)` in the crate's
/// source) and nothing is written. Whether there is room depends on the
/// consumer thread and is not claimed.
#[verifier::external_body]
pub(crate) fn push_loop(producer: &mut rtrb::Producer<Vec<u32>>, value: Vec<u32>) -> (r: Result<
    (),
    Vec<u32>,
>)
    ensures
        r is Ok ==> loops_pushed(*final(producer)) == loops_pushed(*old(producer)).push(value@),
        r matches Err(v) ==> v == value && loops_pushed(*final(producer)) == loops_pushed(
            *old(producer),
        ),
{
    match producer.push(value) {
        Ok(()) => Ok(()),
        Err(rtrb::PushError::Full(v)) => Err(v),
    }
}

} // verus!
