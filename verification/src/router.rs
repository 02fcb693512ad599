//! The router: one message to every member of a channel.

use crate::channels::{find_channel, position, table_view, Channel, ChannelView};
use crate::client_handler::{client_views, has_id, Client, ClientView};
use crate::postman::{postman_views, PostmanMessage, PostmanMessageView};
use vstd::prelude::*;

verus! {

/// A message for the members of one channel.
#[derive(Debug)]
pub struct BroadcastMessage {
    pub content: String,
    pub sender: Client,
    pub channel: String,
    /// Whether the sender, if a member, gets the message too.
    pub send_to_sender: bool,
}

/// What a [`BroadcastMessage`] stands for in contracts.
pub struct BroadcastMessageView {
    pub content: Seq<char>,
    pub sender: ClientView,
    pub channel: Seq<char>,
    pub send_to_sender: bool,
}

impl View for BroadcastMessage {
    type V = BroadcastMessageView;

    open spec fn view(&self) -> BroadcastMessageView {
        BroadcastMessageView {
            content: self.content@,
            sender: self.sender@,
            channel: self.channel@,
            send_to_sender: self.send_to_sender,
        }
    }
}

/// Whether a member of the channel gets the message: everyone does, but
/// for the sender when the message is not meant to come back to it.
pub open spec fn receives(message: BroadcastMessageView) -> spec_fn(ClientView) -> bool {
    |member: ClientView| message.send_to_sender || member.id != message.sender.id
}

/// The clients that get the message: the members of the channel that it
/// names, in their order, that `receives` lets through. A channel that the
/// table does not hold has none.
pub open spec fn recipients(table: Seq<ChannelView>, message: BroadcastMessageView) -> Seq<
    ClientView,
> {
    let k = position(table, message.channel, 0);
    if k < table.len() {
        table[k].clients.filter(receives(message))
    } else {
        Seq::empty()
    }
}

/// The message as it is handed to the postman for one member.
pub open spec fn addressed(message: BroadcastMessageView) -> spec_fn(
    ClientView,
) -> PostmanMessageView {
    |member: ClientView| PostmanMessageView { client: member, content: message.content }
}

/// What the router hands to the postman for one broadcast: one message for
/// each recipient, each with the content of the broadcast.
pub open spec fn deliveries(table: Seq<ChannelView>, message: BroadcastMessageView) -> Seq<
    PostmanMessageView,
> {
    recipients(table, message).map_values(addressed(message))
}

/// A message that is not meant for its sender reaches no client with the
/// sender's id, whether the sender is in the channel or not and whatever
/// the table holds.
pub proof fn lemma_sender_excluded(table: Seq<ChannelView>, message: BroadcastMessageView)
    requires
        !message.send_to_sender,
    ensures
        !has_id(recipients(table, message), message.sender.id),
        forall|i: int|
            0 <= i < deliveries(table, message).len() ==> (#[trigger] deliveries(
                table,
                message,
            )[i]).client.id != message.sender.id,
{
    let to = recipients(table, message);
    let k = position(table, message.channel, 0);
    assert forall|i: int| 0 <= i < to.len() implies (#[trigger] to[i]).id
        != message.sender.id by {
        table[k].clients.lemma_filter_pred(receives(message), i);
    }
}

/// Fans one message out to the members of its channel: what is returned
/// is what goes to the postman, in order. A message that is not meant for
/// its sender goes to no client with the sender's id.
pub fn route_broadcast(message: &BroadcastMessage, channels: &Vec<Channel>) -> (out: Vec<
    PostmanMessage,
>)
    ensures
        postman_views(out@) == deliveries(table_view(channels@), message@),
        !message.send_to_sender ==> forall|i: int|
            0 <= i < out.len() ==> (#[trigger] out[i]).client.id != message.sender.id,
{
    let mut out: Vec<PostmanMessage> = Vec::new();
    let k = find_channel(channels, &message.channel);
    if k >= channels.len() {
        assert(postman_views(out@) =~= Seq::<PostmanMessageView>::empty());
        assert(Seq::<ClientView>::empty().map_values(addressed(message@)) =~= Seq::<
            PostmanMessageView,
        >::empty());
        return out;
    }
    let members = &channels[k].clients;
    let ghost all = client_views(members@);
    let n = members.len();
    let mut i: usize = 0;
    proof {
        reveal(Seq::filter);
        assert(all.take(0).filter(receives(message@)).map_values(addressed(message@))
            =~= postman_views(out@));
    }
    while i < n
        invariant
            n == members.len(),
            i <= n,
            all == client_views(members@),
            postman_views(out@) == all.take(i as int).filter(receives(message@)).map_values(
                addressed(message@),
            ),
        decreases n - i,
    {
        let member = &members[i];
        proof {
            assert(all.take(i + 1) =~= all.take(i as int).push(member@));
            all.take(i as int).lemma_filter_push(member@, receives(message@));
        }
        if message.send_to_sender || member.id != message.sender.id {
            let delivery = PostmanMessage {
                client: member.clone(),
                content: message.content.clone(),
            };
            proof {
                let ghost kept = all.take(i as int).filter(receives(message@));
                assert(postman_views(out@.push(delivery)) =~= postman_views(out@).push(delivery@));
                assert(kept.push(member@).map_values(addressed(message@)) =~= kept.map_values(
                    addressed(message@),
                ).push(delivery@));
            }
            out.push(delivery);
        }
        i += 1;
    }
    proof {
        assert(all.take(n as int) =~= all);
        if !message.send_to_sender {
            lemma_sender_excluded(table_view(channels@), message@);
            assert forall|i: int| 0 <= i < out.len() implies (#[trigger] out[i]).client.id
                != message.sender.id by {
                assert(postman_views(out@)[i] == out[i]@);
            }
        }
    }
    out
}

} // verus!
