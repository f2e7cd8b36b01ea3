//! The signal channel, as far as the relay touches it.

use vstd::prelude::*;
use crate::shutdown::{SendOutcome, ShutdownSignal};

verus! {

/// The sending half of a `crossbeam_channel` channel. Nothing is known of
/// what the channel holds: other threads take from it at any time.
#[verifier::external_type_specification]
#[verifier::external_body]
#[verifier::reject_recursive_types(T)]
pub struct ExSender<T>(crossbeam_channel::Sender<T>);

/// Calls `crossbeam_channel::Sender::try_send` with one shutdown signal and
/// reports how it ended: delivered, refused because the channel was full, or
/// refused because every receiver is gone. The call never blocks. Which of
/// the three comes back depends on the channel and is not foretold.
#[verifier::external_body]
pub(crate) fn try_send_signal(sender: &crossbeam_channel::Sender<ShutdownSignal>) -> (outcome:
    SendOutcome) {
    match sender.try_send(ShutdownSignal) {
        Ok(()) => SendOutcome::Delivered,
        Err(crossbeam_channel::TrySendError::Full(_)) => SendOutcome::Full,
        Err(crossbeam_channel::TrySendError::Disconnected(_)) => SendOutcome::Closed,
    }
}

} // verus!
