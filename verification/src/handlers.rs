//! What the relay does on a client's command: the change of the state, the
//! answer on the caller's queue, and what goes out to others.

use vstd::prelude::*;
use crate::outside::enqueue;
use crate::registry::{attempted, Delivery};
use crate::types::{ServerMessages, ServerMessagesView};
use tokio::sync::mpsc::UnboundedSender;

pub mod connections;
pub mod room;

verus! {

/// What was done on one command.
#[derive(Debug, PartialEq, Eq)]
pub struct Handled {
    /// The answer that was put on the caller's queue, if the command has one.
    pub reply: Option<ServerMessages>,
    /// Whether the caller's queue took the answer; `true` where there was none.
    pub accepted: bool,
    /// The event that went out to others, if the command has one.
    pub announcement: Option<ServerMessages>,
    /// What became of the announcement, recipient by recipient.
    pub deliveries: Vec<Delivery>,
}

/// What an event holds, if there is one.
pub open spec fn event_view(event: Option<ServerMessages>) -> Option<ServerMessagesView> {
    match event {
        Some(e) => Some(e@),
        None => None,
    }
}

impl Handled {
    /// Nothing was put on any queue. Silence counts as accepted.
    pub open spec fn silent(&self) -> bool {
        &&& self.reply is None
        &&& self.accepted
        &&& self.announcement is None
        &&& self.deliveries@.len() == 0
    }

    /// The caller got `reply`, and nothing went out to others.
    pub open spec fn only_replies(&self, reply: ServerMessagesView) -> bool {
        &&& event_view(self.reply) == Some(reply)
        &&& self.announcement is None
        &&& self.deliveries@.len() == 0
    }

    /// `event` went out to each of `to`, in that order, against the registry
    /// `registered`.
    pub open spec fn announces(
        &self,
        event: ServerMessagesView,
        to: Seq<Seq<char>>,
        registered: Seq<Seq<char>>,
    ) -> bool {
        &&& event_view(self.announcement) == Some(event)
        &&& attempted(self.deliveries@, to, registered)
    }
}

/// The event that says that a room does not exist.
pub open spec fn room_not_found() -> ServerMessagesView {
    ServerMessagesView::Error { message: "Room not found"@ }
}

/// Builds the event that says that a room does not exist.
pub fn room_not_found_event() -> (event: ServerMessages)
    ensures
        event@ == room_not_found(),
{
    ServerMessages::Error { message: "Room not found".to_owned() }
}

/// Puts `reply` on the caller's queue and records it.
pub(crate) fn answer(
    tx: &UnboundedSender<ServerMessages>,
    reply: ServerMessages,
) -> (handled: Handled)
    ensures
        handled.only_replies(reply@),
{
    let accepted = enqueue(tx, reply.clone());
    Handled { reply: Some(reply), accepted, announcement: None, deliveries: Vec::new() }
}

} // verus!
