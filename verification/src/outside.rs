//! The calls into tokio and uuid. Verus takes the contracts in this file on
//! trust: it does not read the bodies, and nothing is proved of them.

use vstd::prelude::*;
use crate::types::ServerMessages;

verus! {

/// The sending half of tokio's unbounded channel, `tokio::sync::mpsc::UnboundedSender`.
/// Verus sees nothing inside a value of it.
#[verifier::external_type_specification]
#[verifier::external_body]
#[verifier::reject_recursive_types(T)]
pub struct ExUnboundedSender<T>(tokio::sync::mpsc::UnboundedSender<T>);

/// Calls `UnboundedSender::send`, which puts `message` on the channel's queue
/// without waiting, and tells whether the channel took it: it does not once its
/// receiving half is closed or dropped. That depends on what the receiver's
/// owner did, so nothing is claimed of the result. (tokio ends the process in
/// the one case that the count of waiting messages would pass half of
/// `usize::MAX`.)
#[verifier::external_body]
pub(crate) fn enqueue(
    tx: &tokio::sync::mpsc::UnboundedSender<ServerMessages>,
    message: ServerMessages,
) -> (accepted: bool) {
    tx.send(message).is_ok()
}

/// Calls `uuid::Uuid::new_v4`, which draws a random version-4 UUID, and writes
/// it out with the UUID's `Display`. The value is random, so nothing is claimed
/// of the result.
#[verifier::external_body]
pub(crate) fn random_id() -> (id: String) {
    uuid::Uuid::new_v4().to_string()
}

} // verus!
