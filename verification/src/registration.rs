//! The session registry: the list of registered clients.

use crate::channels::{has_member, remove_member, ChannelMessage, ChannelMessageView};
use crate::client_handler::{
    client_views, distinct_ids, lemma_with_client_keeps_distinct, lemma_without_keeps_distinct,
    with_client, without, Client, ClientView,
};
use crate::postman::{PostmanMessage, PostmanMessageView};
use crate::protocol::{welcome_reply, welcome_text};
use vstd::prelude::*;

verus! {

/// What a registration event asks for.
#[allow(non_camel_case_types)]
#[derive(Clone, Copy, Debug, PartialEq, Eq, Structural)]
pub enum RegistrationAction {
    /// Add the client to the registry.
    REGISTER,
    /// Remove the client from the registry and from every channel.
    LEAVE,
}

/// A registration event.
#[derive(Debug)]
pub struct RegistrationMessage {
    pub client: Client,
    pub action: RegistrationAction,
}

/// What a [`RegistrationMessage`] stands for in contracts.
pub struct RegistrationMessageView {
    pub client: ClientView,
    pub action: RegistrationAction,
}

impl View for RegistrationMessage {
    type V = RegistrationMessageView;

    open spec fn view(&self) -> RegistrationMessageView {
        RegistrationMessageView { client: self.client@, action: self.action }
    }
}

/// What the session registry sends after one event.
#[derive(Debug)]
pub enum RegistrationEffect {
    /// The greeting for a new client, for the postman.
    Welcome(PostmanMessage),
    /// The order to take a client out of every channel, for the channel
    /// registry.
    Purge(ChannelMessage),
}

/// What a [`RegistrationEffect`] stands for in contracts.
pub enum RegistrationEffectView {
    Welcome(PostmanMessageView),
    Purge(ChannelMessageView),
}

impl View for RegistrationEffect {
    type V = RegistrationEffectView;

    open spec fn view(&self) -> RegistrationEffectView {
        match self {
            RegistrationEffect::Welcome(m) => RegistrationEffectView::Welcome(m@),
            RegistrationEffect::Purge(m) => RegistrationEffectView::Purge(m@),
        }
    }
}

/// The greeting for `client`.
pub open spec fn welcome(client: ClientView) -> PostmanMessageView {
    PostmanMessageView { client, content: welcome_text(client.username) }
}

/// The order to take `client` out of every channel: it names no channel
/// and carries no parting words.
pub open spec fn leave_all(client: ClientView) -> ChannelMessageView {
    ChannelMessageView { client, channel: None, body: None, leave: true, all_channels: true }
}

/// A registry and what was sent while it was brought about.
pub struct RegistryStep {
    pub clients: Seq<ClientView>,
    pub effect: RegistrationEffectView,
}

/// What the session registry does with one event.
pub open spec fn registry_step(
    clients: Seq<ClientView>,
    message: RegistrationMessageView,
) -> RegistryStep {
    match message.action {
        RegistrationAction::REGISTER => RegistryStep {
            clients: with_client(clients, message.client),
            effect: RegistrationEffectView::Welcome(welcome(message.client)),
        },
        RegistrationAction::LEAVE => RegistryStep {
            clients: without(clients, message.client.id),
            effect: RegistrationEffectView::Purge(leave_all(message.client)),
        },
    }
}

/// The session registry never holds an id twice: each of its steps keeps
/// the ids of the list distinct.
pub proof fn lemma_registry_keeps_distinct(
    clients: Seq<ClientView>,
    message: RegistrationMessageView,
)
    requires
        distinct_ids(clients),
    ensures
        distinct_ids(registry_step(clients, message).clients),
{
    lemma_with_client_keeps_distinct(clients, message.client);
    lemma_without_keeps_distinct(clients, message.client.id);
}

/// Greets `client` and puts it on the list, unless a client with its id is
/// on it already.
pub fn register_client(client: Client, clients: &mut Vec<Client>) -> (greeting: PostmanMessage)
    ensures
        greeting@ == welcome(client@),
        client_views(final(clients)@) == with_client(client_views(old(clients)@), client@),
        distinct_ids(client_views(old(clients)@)) ==> distinct_ids(client_views(final(clients)@)),
{
    proof {
        if distinct_ids(client_views(clients@)) {
            lemma_with_client_keeps_distinct(client_views(clients@), client@);
        }
    }
    let greeting = PostmanMessage {
        client: client.clone(),
        content: welcome_reply(client.username.clone()),
    };
    if !has_member(clients, client.id) {
        assert(client_views(clients@.push(client)) =~= client_views(clients@).push(client@));
        clients.push(client);
    }
    greeting
}

/// Takes `client` off the list and orders it out of every channel.
pub fn unregister_client(client: Client, clients: &mut Vec<Client>) -> (order: ChannelMessage)
    ensures
        order@ == leave_all(client@),
        client_views(final(clients)@) == without(client_views(old(clients)@), client.id),
        distinct_ids(client_views(old(clients)@)) ==> distinct_ids(client_views(final(clients)@)),
{
    proof {
        if distinct_ids(client_views(clients@)) {
            lemma_without_keeps_distinct(client_views(clients@), client.id);
        }
    }
    remove_member(clients, client.id);
    ChannelMessage { client, channel: None, body: None, leave: true, all_channels: true }
}

/// Serves one event to the session registry.
pub fn handle_registration(message: RegistrationMessage, clients: &mut Vec<Client>) -> (effect:
    RegistrationEffect)
    ensures
        client_views(final(clients)@) == registry_step(client_views(old(clients)@), message@).clients,
        effect@ == registry_step(client_views(old(clients)@), message@).effect,
        distinct_ids(client_views(old(clients)@)) ==> distinct_ids(client_views(final(clients)@)),
{
    match message.action {
        RegistrationAction::REGISTER => RegistrationEffect::Welcome(
            register_client(message.client, clients),
        ),
        RegistrationAction::LEAVE => RegistrationEffect::Purge(
            unregister_client(message.client, clients),
        ),
    }
}

} // verus!
