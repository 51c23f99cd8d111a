//! The producer handle of the shared queue: std's mpsc `Sender`.
//!
//! The queue is an unbounded, ordered, multi-producer/single-consumer
//! channel. The capture front-end holds the producer handle and enqueues
//! one encoded message per enabled record; the delivery back-end's caller
//! owns the receiving end.

use vstd::prelude::*;

verus! {

/// std's mpsc `Sender`, declared so the library can hold the producer
/// handle of the queue and call `send` on it.
#[verifier::external_type_specification]
#[verifier::external_body]
#[verifier::reject_recursive_types(T)]
pub struct ExSender<T>(std::sync::mpsc::Sender<T>);

/// std's mpsc `SendError`, which hands the unsent message back.
#[verifier::external_type_specification]
#[verifier::reject_recursive_types(T)]
pub struct ExSendError<T>(std::sync::mpsc::SendError<T>);

/// Relies on `std::sync::mpsc::Sender::send`: enqueues the message on the
/// channel; never blocks. It fails only when the receiving end has been
/// dropped, and then the error hands back the message unchanged, as its
/// documentation states.
pub assume_specification<T>[ std::sync::mpsc::Sender::<T>::send ](
    s: &std::sync::mpsc::Sender<T>,
    t: T,
) -> (r: Result<(), std::sync::mpsc::SendError<T>>)
    ensures
        r matches Err(e) ==> e.0 == t,
;

} // verus!
