//! Trusted boundary around the bounded multi-producer/multi-consumer channels
//! that connect the pipeline stages.
//!
//! The channels themselves are an external collaborator: a channel's content is
//! shared mutable state that other threads change concurrently, so nothing can
//! be promised about which value a receive yields.  The contracts below state
//! only what holds of every outcome.

use vstd::prelude::*;

verus! {

#[verifier::external_type_specification]
#[verifier::external_body]
#[verifier::reject_recursive_types(T)]
pub struct ExSender<T>(crossbeam_channel::Sender<T>);

#[verifier::external_type_specification]
#[verifier::external_body]
#[verifier::reject_recursive_types(T)]
pub struct ExReceiver<T>(crossbeam_channel::Receiver<T>);

/// Relies on crossbeam_channel::bounded: a fixed-capacity channel with
/// blocking send and receive.  Its documentation says it panics only when
/// the capacity is too large, so the pipeline, which only ever asks for the
/// one-slot hand-off channel of its design, admits exactly that capacity.
#[verifier::external_body]
pub fn bounded_channel<T>(cap: usize) -> (r: (crossbeam_channel::Sender<T>, crossbeam_channel::Receiver<T>))
    requires
        cap == 1,
{
    crossbeam_channel::bounded(cap)
}

/// Relies on crossbeam_channel::Sender::send: blocks until the message is
/// accepted by the channel (Ok), or, once every receiver of the channel is
/// gone, hands the message itself back (Err).
#[verifier::external_body]
pub fn send<T>(tx: &crossbeam_channel::Sender<T>, item: T) -> (r: Result<(), T>)
    ensures
        r matches Err(t) ==> t == item,
{
    match tx.send(item) {
        Ok(()) => Ok(()),
        Err(crossbeam_channel::SendError(t)) => Err(t),
    }
}

/// Relies on crossbeam_channel::Receiver::recv: blocks until a message
/// arrives (Some), or reports that the channel is closed and drained (None).
/// Which message arrives depends on the other threads, so nothing more is
/// promised.
#[verifier::external_body]
pub fn recv<T>(rx: &crossbeam_channel::Receiver<T>) -> (r: Option<T>)
{
    rx.recv().ok()
}

} // verus!
