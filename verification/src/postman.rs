//! The postman: the one worker that writes queued messages to sockets.

use crate::client_handler::{Client, ClientView};
use crate::registration::{RegistrationAction, RegistrationMessage, RegistrationMessageView};
use vstd::prelude::*;

verus! {

/// One message for one client.
#[derive(Debug)]
pub struct PostmanMessage {
    pub client: Client,
    pub content: String,
}

/// What a [`PostmanMessage`] stands for in contracts.
pub struct PostmanMessageView {
    pub client: ClientView,
    pub content: Seq<char>,
}

impl View for PostmanMessage {
    type V = PostmanMessageView;

    open spec fn view(&self) -> PostmanMessageView {
        PostmanMessageView { client: self.client@, content: self.content@ }
    }
}

/// The views of a sequence of messages.
pub open spec fn postman_views(messages: Seq<PostmanMessage>) -> Seq<PostmanMessageView> {
    messages.map_values(|m: PostmanMessage| m@)
}

/// How writing a message to a client's socket, and flushing it, ended.
#[derive(Clone, Copy, Debug, PartialEq, Eq, Structural)]
pub enum DeliveryOutcome {
    /// Written and flushed.
    Delivered,
    /// The write or the flush failed: the pipe is broken.
    BrokenPipe,
    /// The write or the flush failed: the peer reset the connection.
    ConnectionReset,
    /// The write or the flush failed in any other way.
    Failed,
}

/// Whether the outcome shows that the client is gone.
pub open spec fn connection_lost(outcome: DeliveryOutcome) -> bool {
    outcome is BrokenPipe || outcome is ConnectionReset
}

/// What the postman sends on after a delivery: nothing, unless the outcome
/// shows that the client is gone; then the event that unregisters it. A
/// message that failed in another way is dropped.
pub open spec fn delivery_step(
    message: PostmanMessageView,
    outcome: DeliveryOutcome,
) -> Option<RegistrationMessageView> {
    if connection_lost(outcome) {
        Some(
            RegistrationMessageView { client: message.client, action: RegistrationAction::LEAVE },
        )
    } else {
        None
    }
}

/// Decides what follows the delivery of `message`.
pub fn after_delivery(message: PostmanMessage, outcome: DeliveryOutcome) -> (unregister: Option<
    RegistrationMessage,
>)
    ensures
        unregister is Some <==> delivery_step(message@, outcome) is Some,
        unregister is Some ==> unregister->0@ == delivery_step(message@, outcome)->0,
{
    match outcome {
        DeliveryOutcome::BrokenPipe | DeliveryOutcome::ConnectionReset => Some(
            RegistrationMessage { client: message.client, action: RegistrationAction::LEAVE },
        ),
        _ => None,
    }
}

} // verus!
