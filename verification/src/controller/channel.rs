//! The queues between the parts of the controller.

use std::sync::mpsc::{Receiver, Sender};
use vstd::prelude::*;

verus! {

/// std's `mpsc::Sender`, carried through as it is.
#[verifier::external_type_specification]
#[verifier::external_body]
#[verifier::reject_recursive_types(T)]
pub struct ExSender<T>(Sender<T>);

/// std's `mpsc::Receiver`, carried through as it is.
#[verifier::external_type_specification]
#[verifier::external_body]
#[verifier::reject_recursive_types(T)]
pub struct ExReceiver<T>(Receiver<T>);

/// `Sender::send`, which never blocks. Trusted; whether the message is taken
/// depends on whether the receiving half is still there, so nothing is
/// claimed of the result. `true` stands for `Ok`.
#[verifier::external_body]
pub(crate) fn send<T>(sender: &Sender<T>, message: T) -> (r: bool) {
    sender.send(message).is_ok()
}

/// `Receiver::try_recv`, which never blocks. Trusted; what comes back
/// depends on what was sent, so nothing is claimed of it. `None` stands for
/// both of its errors.
#[verifier::external_body]
pub(crate) fn try_recv<T>(receiver: &Receiver<T>) -> (r: Option<T>) {
    receiver.try_recv().ok()
}

} // verus!
