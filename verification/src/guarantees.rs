//! What holds of the workers together, proved over their step functions.
//!
//! Each statement is over the models that the contracts of the executable
//! functions use, so it holds of every run of those functions.

use crate::router::{
    deliveries, lemma_sender_excluded, receives, recipients, BroadcastMessageView,
};
use crate::channels::{
    channel_step, departures, has_channel, join_step, leave_step, lemma_position, position, purged,
    table_wf, unchanged, without_member, ChannelEffectView, ChannelMessageView, ChannelView,
};
use crate::client_handler::{
    closed_step, distinct_ids, has_id, lemma_with_client_keeps_distinct, lemma_without_absent,
    lemma_without_has_not, session_step, with_client, without, ClientView, CommandView,
    SessionEffectView,
};
use crate::postman::{connection_lost, delivery_step, DeliveryOutcome, PostmanMessageView};
use crate::protocol::{join_text, members_text};
use crate::registration::{
    leave_all, registry_step, RegistrationAction, RegistrationEffectView, RegistrationMessageView,
};
use vstd::prelude::*;

verus! {

/// The clients that have this id.
pub open spec fn with_id(id: u128) -> spec_fn(ClientView) -> bool {
    |c: ClientView| c.id == id
}

/// How many times a client with this id stands in `clients`.
pub open spec fn times(clients: Seq<ClientView>, id: u128) -> nat {
    clients.filter(with_id(id)).len()
}

/// An id that is not in a list occurs zero times in it; one that is in a
/// list without repeated ids occurs once.
pub proof fn lemma_times(clients: Seq<ClientView>, id: u128)
    ensures
        !has_id(clients, id) ==> times(clients, id) == 0,
        has_id(clients, id) && distinct_ids(clients) ==> times(clients, id) == 1,
    decreases clients.len(),
{
    reveal(Seq::filter);
    if clients.len() > 0 {
        let front = clients.drop_last();
        let last = clients.last();
        lemma_times(front, id);
        assert(forall|i: int| 0 <= i < front.len() ==> front[i] == clients[i]);
        if has_id(front, id) {
            let i = choose|i: int| 0 <= i < front.len() && #[trigger] front[i].id == id;
            assert(clients[i].id == id);
        }
        if has_id(clients, id) {
            let i = choose|i: int| 0 <= i < clients.len() && #[trigger] clients[i].id == id;
            if i < front.len() {
                assert(front[i].id == id);
            }
        }
        if last.id == id {
            assert(clients[clients.len() - 1].id == id);
            if distinct_ids(clients) {
                if has_id(front, id) {
                    let i = choose|i: int| 0 <= i < front.len() && #[trigger] front[i].id == id;
                    assert(clients[i].id != clients[clients.len() - 1].id);
                }
            }
        }
    }
}

/// Membership after a join: the client that joined a channel of the table
/// stands in that channel exactly once, whether it was a member before or
/// not.
pub proof fn lemma_joined_exactly_once(table: Seq<ChannelView>, client: ClientView, name: Seq<char>)
    requires
        table_wf(table),
        has_channel(table, name),
    ensures
        ({
            let k = position(table, name, 0);
            let after = join_step(table, client, name).table;
            &&& after[k].name == name
            &&& has_id(after[k].clients, client.id)
            &&& times(after[k].clients, client.id) == 1
        }),
{
    let k = position(table, name, 0);
    lemma_position(table, name, 0);
    let members = with_client(table[k].clients, client);
    lemma_with_client_keeps_distinct(table[k].clients, client);
    if !has_id(table[k].clients, client.id) {
        assert(members[members.len() - 1].id == client.id);
    }
    lemma_times(members, client.id);
}

/// Membership after a leave: the client that left a channel is not in it.
pub proof fn lemma_left_is_gone(
    table: Seq<ChannelView>,
    client: ClientView,
    name: Seq<char>,
    body: Option<Seq<char>>,
)
    requires
        has_channel(table, name),
    ensures
        ({
            let k = position(table, name, 0);
            let after = leave_step(table, client, name, body).table;
            &&& after[k].name == name
            &&& !has_id(after[k].clients, client.id)
            &&& times(after[k].clients, client.id) == 0
        }),
{
    let k = position(table, name, 0);
    lemma_position(table, name, 0);
    lemma_without_has_not(table[k].clients, client.id);
    lemma_times(without(table[k].clients, client.id), client.id);
}

/// Membership after a disconnect: the client that was taken out of all
/// channels is in none of them, and the other members are where they were.
pub proof fn lemma_purged_everywhere(table: Seq<ChannelView>, client: ClientView)
    ensures
        ({
            let after = channel_step(table, leave_all(client)).table;
            &&& after.len() == table.len()
            &&& forall|i: int|
                0 <= i < after.len() ==> {
                    &&& !has_id((#[trigger] after[i]).clients, client.id)
                    &&& after[i].clients == without(table[i].clients, client.id)
                }
        }),
{
    let after = channel_step(table, leave_all(client)).table;
    assert forall|i: int| 0 <= i < after.len() implies !has_id(
        (#[trigger] after[i]).clients,
        client.id,
    ) by {
        lemma_without_has_not(table[i].clients, client.id);
    }
}

/// Order of a join: the registry sends five things, and the confirmation
/// to the client that joined is the first of them. The announcement to the
/// channel follows it and reaches no client with the id of the one that
/// joined, whatever the table holds; the member list, which holds the
/// client itself, comes after both.
pub proof fn lemma_join_confirms_first(
    table: Seq<ChannelView>,
    client: ClientView,
    name: Seq<char>,
    seen: Seq<ChannelView>,
)
    requires
        has_channel(table, name),
    ensures
        ({
            let k = position(table, name, 0);
            let step = join_step(table, client, name);
            let confirmation = PostmanMessageView {
                client,
                content: join_text(client.username, client.domain, name),
            };
            let snapshot = PostmanMessageView {
                client,
                content: members_text(client.username, name, step.table[k].clients),
            };
            &&& step.effects.len() == 5
            &&& step.effects[0] == ChannelEffectView::Direct(confirmation)
            &&& step.effects[1] is Relay
            &&& !has_id(recipients(seen, step.effects[1]->Relay_0), client.id)
            &&& step.effects[2] is Direct
            &&& step.effects[3] == ChannelEffectView::Direct(snapshot)
            &&& step.effects[4] is Direct
            &&& has_id(step.table[k].clients, client.id)
        }),
{
    let k = position(table, name, 0);
    lemma_position(table, name, 0);
    lemma_sender_excluded(seen, join_step(table, client, name).effects[1]->Relay_0);
    if !has_id(table[k].clients, client.id) {
        let members = with_client(table[k].clients, client);
        assert(members[members.len() - 1].id == client.id);
    }
}

/// A broadcast reaches every member of its channel but the one that is
/// left out: for each member that `receives` lets through, the router
/// hands the postman a message for that member with the content of the
/// broadcast.
pub proof fn lemma_broadcast_reaches_members(
    table: Seq<ChannelView>,
    message: BroadcastMessageView,
    i: int,
)
    requires
        has_channel(table, message.channel),
        0 <= i < table[position(table, message.channel, 0)].clients.len(),
        message.send_to_sender || table[position(table, message.channel, 0)].clients[i].id
            != message.sender.id,
    ensures
        exists|j: int|
            0 <= j < deliveries(table, message).len() && #[trigger] deliveries(table, message)[j]
                == (PostmanMessageView {
                client: table[position(table, message.channel, 0)].clients[i],
                content: message.content,
            }),
{
    let members = table[position(table, message.channel, 0)].clients;
    let to = recipients(table, message);
    members.lemma_filter_contains(receives(message), i);
    let j = choose|j: int| 0 <= j < to.len() && to[j] == members[i];
    assert(deliveries(table, message)[j] == (PostmanMessageView {
        client: members[i],
        content: message.content,
    }));
}

/// The client of a session is fixed once it has registered: no command
/// changes it, and only `QUIT` ends the session.
pub proof fn lemma_session_keeps_client(
    command: CommandView,
    domain: Seq<char>,
    client: ClientView,
    fresh: u128,
)
    ensures
        session_step(command, domain, Some(client), fresh).current == Some(client),
        session_step(command, domain, Some(client), fresh).connected <==> !(command is Quit),
{
}

/// A client never gets its own `PRIVMSG`: the session of a registered
/// client turns it into a broadcast that no client with the sender's id
/// receives, whatever the table holds.
pub proof fn lemma_privmsg_skips_sender(
    command: CommandView,
    domain: Seq<char>,
    client: ClientView,
    fresh: u128,
    table: Seq<ChannelView>,
)
    requires
        command is Privmsg,
    ensures
        session_step(command, domain, Some(client), fresh).effect is Relay,
        ({
            let message = session_step(command, domain, Some(client), fresh).effect->Relay_0;
            &&& message.sender == client
            &&& !message.send_to_sender
            &&& !has_id(recipients(table, message), client.id)
        }),
{
    let message = session_step(command, domain, Some(client), fresh).effect->Relay_0;
    lemma_sender_excluded(table, message);
}

/// A client that leaves a channel gets one confirmation, through the
/// postman, and no copy of the announcement: the registry sends exactly the
/// announcement and the confirmation, and the announcement reaches no
/// client with the id of the one that left, whatever the table holds.
pub proof fn lemma_part_confirms_once(
    table: Seq<ChannelView>,
    client: ClientView,
    name: Seq<char>,
    body: Option<Seq<char>>,
    seen: Seq<ChannelView>,
)
    requires
        has_channel(table, name),
    ensures
        ({
            let step = leave_step(table, client, name, body);
            &&& step.effects.len() == 2
            &&& step.effects[0] is Relay
            &&& step.effects[1] is Post
            &&& step.effects[1]->Post_0.client == client
            &&& step.effects[1]->Post_0.content == step.effects[0]->Relay_0.content
            &&& !has_id(recipients(seen, step.effects[0]->Relay_0), client.id)
        }),
{
    let step = leave_step(table, client, name, body);
    lemma_sender_excluded(seen, step.effects[0]->Relay_0);
}

/// A client that is taken out of all channels is told nothing: the
/// registry only announces, once for each channel the client was in, and no
/// announcement reaches a client with its id, whatever the table holds.
pub proof fn lemma_purge_only_announces(
    table: Seq<ChannelView>,
    client: ClientView,
    seen: Seq<ChannelView>,
)
    ensures
        ({
            let effects = channel_step(table, leave_all(client)).effects;
            forall|i: int|
                0 <= i < effects.len() ==> {
                    &&& (#[trigger] effects[i]) is Relay
                    &&& effects[i]->Relay_0.sender == client
                    &&& !has_id(recipients(seen, effects[i]->Relay_0), client.id)
                }
        }),
{
    let effects = channel_step(table, leave_all(client)).effects;
    lemma_departures_from(table, client);
    assert forall|i: int| 0 <= i < effects.len() implies {
        &&& (#[trigger] effects[i]) is Relay
        &&& effects[i]->Relay_0.sender == client
        &&& !has_id(recipients(seen, effects[i]->Relay_0), client.id)
    } by {
        assert(effects[i]->Relay_0 == departures(table, client)[i]);
        lemma_sender_excluded(seen, effects[i]->Relay_0);
    }
}

/// Every announcement of a departure names the client that is gone as its
/// sender and is not meant to come back to it.
pub proof fn lemma_departures_from(table: Seq<ChannelView>, client: ClientView)
    ensures
        forall|i: int|
            0 <= i < departures(table, client).len() ==> {
                &&& (#[trigger] departures(table, client)[i]).sender == client
                &&& !departures(table, client)[i].send_to_sender
            },
    decreases table.len(),
{
    if table.len() > 0 {
        let front = departures(table.drop_last(), client);
        lemma_departures_from(table.drop_last(), client);
        assert forall|i: int| 0 <= i < departures(table, client).len() implies {
            &&& (#[trigger] departures(table, client)[i]).sender == client
            &&& !departures(table, client)[i].send_to_sender
        } by {
            if i < front.len() {
                assert(departures(table, client)[i] == front[i]);
            }
        }
    }
}

/// However a client goes, it goes everywhere: a `QUIT`, a connection that
/// can no longer be read and a delivery that finds the connection lost all
/// hand the session registry the same event, and what the registry then
/// orders takes the client out of every channel.
pub proof fn lemma_departure_cascades(
    client: ClientView,
    domain: Seq<char>,
    fresh: u128,
    content: Seq<char>,
    outcome: DeliveryOutcome,
    clients: Seq<ClientView>,
    table: Seq<ChannelView>,
)
    requires
        connection_lost(outcome),
    ensures
        ({
            let leave = RegistrationMessageView { client, action: RegistrationAction::LEAVE };
            let order = leave_all(client);
            let after = channel_step(table, order).table;
            &&& session_step(CommandView::Quit, domain, Some(client), fresh).effect
                == SessionEffectView::Register(leave)
            &&& !session_step(CommandView::Quit, domain, Some(client), fresh).connected
            &&& closed_step(Some(client)) == SessionEffectView::Register(leave)
            &&& delivery_step(PostmanMessageView { client, content }, outcome) == Some(leave)
            &&& registry_step(clients, leave).effect == RegistrationEffectView::Purge(order)
            &&& !has_id(registry_step(clients, leave).clients, client.id)
            &&& after.len() == table.len()
            &&& forall|i: int| 0 <= i < after.len() ==> !has_id((#[trigger] after[i]).clients, client.id)
        }),
{
    lemma_without_has_not(clients, client.id);
    lemma_purged_everywhere(table, client);
}

/// Unregistering a client a second time changes nothing: the registry and
/// the table are as after the first time, and the second time announces
/// nothing.
pub proof fn lemma_unregister_twice(
    clients: Seq<ClientView>,
    table: Seq<ChannelView>,
    client: ClientView,
)
    ensures
        ({
            let message = RegistrationMessageView { client, action: RegistrationAction::LEAVE };
            let once = registry_step(clients, message);
            let twice = registry_step(once.clients, message);
            &&& once.effect == RegistrationEffectView::Purge(leave_all(client))
            &&& twice.clients == once.clients
            &&& twice.effect == once.effect
        }),
        ({
            let once = channel_step(table, leave_all(client));
            let twice = channel_step(once.table, leave_all(client));
            &&& twice.table == once.table
            &&& twice.effects == Seq::<ChannelEffectView>::empty()
        }),
{
    let id = client.id;
    lemma_without_has_not(clients, id);
    lemma_without_absent(without(clients, id), id);
    let once = purged(table, id);
    assert forall|i: int| 0 <= i < once.len() implies without_member(#[trigger] once[i], id)
        == once[i] by {
        lemma_without_has_not(table[i].clients, id);
        lemma_without_absent(without(table[i].clients, id), id);
    }
    assert(purged(once, id) =~= once);
    lemma_no_departures(once, client);
    assert(departures(once, client).map_values(
        |m: BroadcastMessageView| ChannelEffectView::Relay(m),
    ) =~= Seq::<ChannelEffectView>::empty());
}

/// Nothing is announced for a client that is in no channel.
pub proof fn lemma_no_departures(table: Seq<ChannelView>, client: ClientView)
    requires
        forall|i: int| 0 <= i < table.len() ==> !has_id((#[trigger] table[i]).clients, client.id),
    ensures
        departures(table, client) == Seq::<BroadcastMessageView>::empty(),
    decreases table.len(),
{
    if table.len() > 0 {
        let front = table.drop_last();
        assert(forall|i: int| 0 <= i < front.len() ==> front[i] == table[i]);
        assert(table.last() == table[table.len() - 1]);
        lemma_no_departures(front, client);
    }
}

/// A request to join or to leave a channel that the table does not hold
/// changes no membership and sends nothing.
pub proof fn lemma_unknown_channel(table: Seq<ChannelView>, message: ChannelMessageView)
    requires
        message.channel is Some,
        !has_channel(table, message.channel->0),
        !(message.leave && message.all_channels),
    ensures
        channel_step(table, message) == unchanged(table),
{
}

} // verus!
