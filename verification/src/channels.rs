//! The channel registry: the fixed table of channels and their members.

use crate::router::{BroadcastMessage, BroadcastMessageView};
use crate::client_handler::{
    client_views, distinct_ids, has_id, lemma_with_client_keeps_distinct, lemma_without_absent,
    lemma_without_keeps_distinct, other_than, with_client, without, Client, ClientView,
};
use crate::postman::{PostmanMessage, PostmanMessageView};
use crate::protocol::{
    end_members_text, header_text, join_end_members, join_header, join_members, join_message,
    join_text, members_text, part_msg, part_text,
};
use crate::text::{chars_of, strip_breaks, without_breaks};
use vstd::prelude::*;
use vstd::string::*;

verus! {

/// A request to the channel registry.
#[derive(Debug)]
pub struct ChannelMessage {
    pub client: Client,
    /// The channel to join or leave; unused when leaving all channels.
    pub channel: Option<String>,
    /// The parting words of a client that leaves one channel.
    pub body: Option<String>,
    pub leave: bool,
    pub all_channels: bool,
}

/// What a [`ChannelMessage`] stands for in contracts.
pub struct ChannelMessageView {
    pub client: ClientView,
    pub channel: Option<Seq<char>>,
    pub body: Option<Seq<char>>,
    pub leave: bool,
    pub all_channels: bool,
}

impl View for ChannelMessage {
    type V = ChannelMessageView;

    open spec fn view(&self) -> ChannelMessageView {
        ChannelMessageView {
            client: self.client@,
            channel: self.channel.deep_view(),
            body: self.body.deep_view(),
            leave: self.leave,
            all_channels: self.all_channels,
        }
    }
}

/// A channel and the clients that are in it.
#[derive(Debug)]
pub struct Channel {
    pub name: String,
    pub description: String,
    pub clients: Vec<Client>,
}

/// What a [`Channel`] stands for in contracts.
pub struct ChannelView {
    pub name: Seq<char>,
    pub description: Seq<char>,
    pub clients: Seq<ClientView>,
}

impl View for Channel {
    type V = ChannelView;

    open spec fn view(&self) -> ChannelView {
        ChannelView {
            name: self.name@,
            description: self.description@,
            clients: client_views(self.clients@),
        }
    }
}

/// The views of a table of channels.
pub open spec fn table_view(channels: Seq<Channel>) -> Seq<ChannelView> {
    channels.map_values(|c: Channel| c@)
}

/// What the channel registry sends after one request, in the order sent.
#[derive(Debug)]
pub enum ChannelEffect {
    /// Written to the client's own connection before the registry goes on.
    Direct(PostmanMessage),
    /// Handed to the router, for the members of a channel.
    Relay(BroadcastMessage),
    /// Handed to the postman.
    Post(PostmanMessage),
}

/// What a [`ChannelEffect`] stands for in contracts.
pub enum ChannelEffectView {
    Direct(PostmanMessageView),
    Relay(BroadcastMessageView),
    Post(PostmanMessageView),
}

impl View for ChannelEffect {
    type V = ChannelEffectView;

    open spec fn view(&self) -> ChannelEffectView {
        match self {
            ChannelEffect::Direct(m) => ChannelEffectView::Direct(m@),
            ChannelEffect::Relay(m) => ChannelEffectView::Relay(m@),
            ChannelEffect::Post(m) => ChannelEffectView::Post(m@),
        }
    }
}

/// The views of a sequence of effects.
pub open spec fn effect_views(effects: Seq<ChannelEffect>) -> Seq<ChannelEffectView> {
    effects.map_values(|e: ChannelEffect| e@)
}

/// The views of a sequence of broadcast messages.
pub open spec fn broadcast_views(messages: Seq<BroadcastMessage>) -> Seq<BroadcastMessageView> {
    messages.map_values(|m: BroadcastMessage| m@)
}

/// A table is well formed when no two channels share a name and no channel
/// holds a client twice.
pub open spec fn table_wf(table: Seq<ChannelView>) -> bool {
    &&& forall|i: int, j: int|
        0 <= i < j < table.len() ==> #[trigger] table[i].name != #[trigger] table[j].name
    &&& forall|i: int|
        0 <= i < table.len() ==> distinct_ids(#[trigger] table[i].clients)
}

/// The table the server starts with: `#rust` and `#java`, both empty.
pub open spec fn default_table() -> Seq<ChannelView> {
    seq![
        ChannelView {
            name: "#rust"@,
            description: "Un endroit pour discuter du rust"@,
            clients: Seq::empty(),
        },
        ChannelView {
            name: "#java"@,
            description: "Un endroit pour discuter du java"@,
            clients: Seq::empty(),
        },
    ]
}

/// The position of the first channel called `name` at or after `i`, or the
/// length of the table if there is none.
pub open spec fn position(table: Seq<ChannelView>, name: Seq<char>, i: int) -> int
    decreases table.len() - i,
{
    if 0 <= i < table.len() && table[i].name != name {
        position(table, name, i + 1)
    } else {
        i
    }
}

/// Whether the table has a channel called `name`.
pub open spec fn has_channel(table: Seq<ChannelView>, name: Seq<char>) -> bool {
    position(table, name, 0) < table.len()
}

/// `position` finds a channel of that name if and only if there is one.
pub proof fn lemma_position(table: Seq<ChannelView>, name: Seq<char>, i: int)
    requires
        0 <= i <= table.len(),
    ensures
        i <= position(table, name, i) <= table.len(),
        forall|k: int| i <= k < position(table, name, i) ==> #[trigger] table[k].name != name,
        position(table, name, i) < table.len() ==> table[position(table, name, i)].name == name,
    decreases table.len() - i,
{
    if i < table.len() && table[i].name != name {
        lemma_position(table, name, i + 1);
    }
}

/// `channel` with `client` among its members.
pub open spec fn with_member(channel: ChannelView, client: ClientView) -> ChannelView {
    ChannelView { clients: with_client(channel.clients, client), ..channel }
}

/// `channel` without the client that has this id.
pub open spec fn without_member(channel: ChannelView, id: u128) -> ChannelView {
    ChannelView { clients: without(channel.clients, id), ..channel }
}

/// A table and what was sent while it was brought about.
pub struct ChannelStep {
    pub table: Seq<ChannelView>,
    pub effects: Seq<ChannelEffectView>,
}

/// A request that changes nothing and sends nothing.
pub open spec fn unchanged(table: Seq<ChannelView>) -> ChannelStep {
    ChannelStep { table, effects: Seq::empty() }
}

/// What the registry sends when `client` has joined `channel`, in order:
/// the confirmation to the client itself, the announcement to the channel,
/// then topic, member list and end of list to the client.
pub open spec fn join_effects(client: ClientView, channel: ChannelView) -> Seq<ChannelEffectView> {
    let joined = join_text(client.username, client.domain, channel.name);
    seq![
        ChannelEffectView::Direct(PostmanMessageView { client, content: joined }),
        ChannelEffectView::Relay(
            BroadcastMessageView {
                content: joined,
                sender: client,
                channel: channel.name,
                send_to_sender: false,
            },
        ),
        ChannelEffectView::Direct(
            PostmanMessageView {
                client,
                content: header_text(client.username, channel.name, channel.description),
            },
        ),
        ChannelEffectView::Direct(
            PostmanMessageView {
                client,
                content: members_text(client.username, channel.name, channel.clients),
            },
        ),
        ChannelEffectView::Direct(
            PostmanMessageView { client, content: end_members_text(client.username, channel.name) },
        ),
    ]
}

/// A client asks to join the channel called `name`. A name that the table
/// does not hold changes nothing and sends nothing.
pub open spec fn join_step(table: Seq<ChannelView>, client: ClientView, name: Seq<char>) -> ChannelStep {
    let k = position(table, name, 0);
    if k < table.len() {
        let channel = with_member(table[k], client);
        ChannelStep { table: table.update(k, channel), effects: join_effects(client, channel) }
    } else {
        unchanged(table)
    }
}

/// The parting words of a client: what it gave, without line breaks, or
/// `Bye bye`.
pub open spec fn parting_words(body: Option<Seq<char>>) -> Seq<char> {
    match body {
        Some(text) => strip_breaks(text),
        None => "Bye bye"@,
    }
}

/// What the registry sends when `client` has left the channel called
/// `name`: the announcement to those who stay, then the confirmation to the
/// client itself, through the postman.
pub open spec fn leave_effects(client: ClientView, name: Seq<char>, body: Option<Seq<char>>) -> Seq<
    ChannelEffectView,
> {
    let parted = part_text(client.username, client.domain, name, parting_words(body));
    seq![
        ChannelEffectView::Relay(
            BroadcastMessageView {
                content: parted,
                sender: client,
                channel: name,
                send_to_sender: false,
            },
        ),
        ChannelEffectView::Post(PostmanMessageView { client, content: parted }),
    ]
}

/// A client asks to leave the channel called `name`. A name that the table
/// does not hold changes nothing and sends nothing.
pub open spec fn leave_step(
    table: Seq<ChannelView>,
    client: ClientView,
    name: Seq<char>,
    body: Option<Seq<char>>,
) -> ChannelStep {
    let k = position(table, name, 0);
    if k < table.len() {
        ChannelStep {
            table: table.update(k, without_member(table[k], client.id)),
            effects: leave_effects(client, name, body),
        }
    } else {
        unchanged(table)
    }
}

/// The table with the client of this id taken out of every channel.
pub open spec fn purged(table: Seq<ChannelView>, id: u128) -> Seq<ChannelView> {
    table.map_values(|channel: ChannelView| without_member(channel, id))
}

/// The announcement that `client` is gone from the channel called `name`.
pub open spec fn departure(client: ClientView, name: Seq<char>) -> BroadcastMessageView {
    BroadcastMessageView {
        content: part_text(client.username, client.domain, name, "User left"@),
        sender: client,
        channel: name,
        send_to_sender: false,
    }
}

/// The announcements sent when `client` is taken out of every channel: one
/// for each channel it was in, in the order of the table.
pub open spec fn departures(table: Seq<ChannelView>, client: ClientView) -> Seq<BroadcastMessageView>
    decreases table.len(),
{
    if table.len() == 0 {
        Seq::empty()
    } else if has_id(table.last().clients, client.id) {
        departures(table.drop_last(), client).push(departure(client, table.last().name))
    } else {
        departures(table.drop_last(), client)
    }
}

/// Broadcast messages as effects of the registry.
pub open spec fn announced(messages: Seq<BroadcastMessageView>) -> Seq<ChannelEffectView> {
    messages.map_values(|m: BroadcastMessageView| ChannelEffectView::Relay(m))
}

/// A request to join: it needs the name of a channel.
pub open spec fn join_request(table: Seq<ChannelView>, message: ChannelMessageView) -> ChannelStep {
    match message.channel {
        Some(name) => join_step(table, message.client, name),
        None => unchanged(table),
    }
}

/// A request to leave: every channel, or the one that is named.
pub open spec fn leave_request(table: Seq<ChannelView>, message: ChannelMessageView) -> ChannelStep {
    if message.all_channels {
        ChannelStep {
            table: purged(table, message.client.id),
            effects: announced(departures(table, message.client)),
        }
    } else {
        match message.channel {
            Some(name) => leave_step(table, message.client, name, message.body),
            None => unchanged(table),
        }
    }
}

/// What the channel registry does with one request.
pub open spec fn channel_step(table: Seq<ChannelView>, message: ChannelMessageView) -> ChannelStep {
    if message.leave {
        leave_request(table, message)
    } else {
        join_request(table, message)
    }
}

/// The table the server starts with is well formed.
pub proof fn lemma_default_table_wf()
    ensures
        table_wf(default_table()),
{
    reveal_strlit("#rust");
    reveal_strlit("#java");
    let table = default_table();
    assert("#rust"@[1] != "#java"@[1]);
    assert forall|i: int, j: int| 0 <= i < j < table.len() implies #[trigger] table[i].name
        != #[trigger] table[j].name by {
        assert(i == 0 && j == 1);
    }
}

/// The channel registry keeps its table well formed: each of its steps
/// keeps the names of the channels as they are, and so distinct, and holds
/// no client twice in a channel.
pub proof fn lemma_channels_keep_wf(table: Seq<ChannelView>, message: ChannelMessageView)
    requires
        table_wf(table),
    ensures
        table_wf(channel_step(table, message).table),
        channel_step(table, message).table.len() == table.len(),
        forall|i: int|
            0 <= i < table.len() ==> {
                &&& (#[trigger] channel_step(table, message).table[i]).name == table[i].name
                &&& channel_step(table, message).table[i].description == table[i].description
            },
{
    let after = channel_step(table, message).table;
    let id = message.client.id;
    if message.channel is Some {
        lemma_position(table, message.channel->0, 0);
    }
    assert forall|i: int| 0 <= i < table.len() implies distinct_ids(#[trigger] after[i].clients) by {
        lemma_without_keeps_distinct(table[i].clients, id);
        lemma_with_client_keeps_distinct(table[i].clients, message.client);
    }
    assert forall|i: int, j: int| 0 <= i < j < after.len() implies #[trigger] after[i].name
        != #[trigger] after[j].name by {
        assert(after[i].name == table[i].name);
        assert(after[j].name == table[j].name);
    }
}

/// The position of the channel called `name`, or the length of the table.
pub fn find_channel(channels: &Vec<Channel>, name: &String) -> (k: usize)
    ensures
        k == position(table_view(channels@), name@, 0),
        k <= channels.len(),
{
    let n = channels.len();
    let mut k: usize = 0;
    while k < n && channels[k].name != *name
        invariant
            n == channels.len(),
            k <= n,
            position(table_view(channels@), name@, 0) == position(
                table_view(channels@),
                name@,
                k as int,
            ),
        decreases n - k,
    {
        k += 1;
    }
    k
}

/// Whether a client with this id is among `clients`.
pub fn has_member(clients: &Vec<Client>, id: u128) -> (found: bool)
    ensures
        found == has_id(client_views(clients@), id),
{
    let n = clients.len();
    let mut i: usize = 0;
    while i < n
        invariant
            n == clients.len(),
            i <= n,
            forall|k: int| 0 <= k < i ==> client_views(clients@)[k].id != id,
        decreases n - i,
    {
        if clients[i].id == id {
            assert(client_views(clients@)[i as int].id == id);
            return true;
        }
        i += 1;
    }
    false
}

/// Takes the client with this id out of `clients`; the others keep their
/// order.
pub fn remove_member(clients: &mut Vec<Client>, id: u128)
    ensures
        client_views(final(clients)@) == without(client_views(old(clients)@), id),
{
    let ghost before = client_views(clients@);
    let mut i: usize = 0;
    let ghost mut j: int = 0;
    proof {
        reveal(Seq::filter);
        assert(before.take(0).filter(other_than(id)) =~= client_views(clients@).take(0));
        assert(before.skip(0) =~= before);
    }
    while i < clients.len()
        invariant
            i <= clients.len(),
            0 <= j <= before.len(),
            i <= j,
            clients.len() - i == before.len() - j,
            client_views(clients@).take(i as int) == before.take(j).filter(other_than(id)),
            client_views(clients@).skip(i as int) == before.skip(j),
        decreases clients.len() - i,
    {
        let ghost now = client_views(clients@);
        proof {
            assert(now[i as int] == now.skip(i as int)[0]);
            assert(before[j] == before.skip(j)[0]);
            assert(before.take(j + 1) =~= before.take(j).push(before[j]));
            before.take(j).lemma_filter_push(before[j], other_than(id));
        }
        if clients[i].id == id {
            clients.remove(i);
            proof {
                let ghost after = client_views(clients@);
                assert(after =~= now.remove(i as int));
                assert(after.take(i as int) =~= now.take(i as int));
                assert(after.skip(i as int) =~= now.skip(i as int).skip(1));
                assert(before.skip(j + 1) =~= before.skip(j).skip(1));
                j = j + 1;
            }
        } else {
            proof {
                assert(now.take(i + 1) =~= now.take(i as int).push(now[i as int]));
                assert(now.skip(i + 1) =~= now.skip(i as int).skip(1));
                assert(before.skip(j + 1) =~= before.skip(j).skip(1));
                j = j + 1;
            }
            i += 1;
        }
    }
    proof {
        assert(client_views(clients@).take(i as int) =~= client_views(clients@));
        assert(before.take(j) =~= before);
    }
}

/// Sets up the table the server starts with, whatever `channels` held.
pub fn init_default_channels(channels: &mut Vec<Channel>)
    ensures
        table_view(final(channels)@) == default_table(),
        table_wf(table_view(final(channels)@)),
{
    let rust_channel = Channel {
        name: String::from_str("#rust"),
        description: String::from_str("Un endroit pour discuter du rust"),
        clients: Vec::new(),
    };
    let java_channel = Channel {
        name: String::from_str("#java"),
        description: String::from_str("Un endroit pour discuter du java"),
        clients: Vec::new(),
    };
    channels.clear();
    channels.push(rust_channel);
    channels.push(java_channel);
    proof {
        assert(client_views(Seq::<Client>::empty()) =~= Seq::<ClientView>::empty());
        assert(table_view(channels@) =~= default_table());
        lemma_default_table_wf();
    }
}

/// Lets the client of `message` into the channel that it names and tells
/// the client and the channel.
pub fn join_channel(message: ChannelMessage, channels: &mut Vec<Channel>) -> (effects: Vec<
    ChannelEffect,
>)
    ensures
        table_view(final(channels)@) == join_request(table_view(old(channels)@), message@).table,
        effect_views(effects@) == join_request(table_view(old(channels)@), message@).effects,
        table_wf(table_view(old(channels)@)) ==> table_wf(table_view(final(channels)@)),
{
    let ghost before = table_view(channels@);
    proof {
        if table_wf(before) {
            lemma_channels_keep_wf(before, ChannelMessageView { leave: false, ..message@ });
        }
    }
    let mut effects: Vec<ChannelEffect> = Vec::new();
    assert(effect_views(effects@) =~= Seq::<ChannelEffectView>::empty());
    let client = message.client;
    let name = match message.channel {
        Some(name) => name,
        None => {
            return effects;
        },
    };
    let k = find_channel(channels, &name);
    if k >= channels.len() {
        return effects;
    }
    proof {
        lemma_position(before, name@, 0);
    }
    if !has_member(&channels[k].clients, client.id) {
        let ghost members = channels[k as int].clients@;
        channels[k].clients.push(client.clone());
        assert(client_views(members.push(client)) =~= client_views(members).push(client@));
    }
    assert(table_view(channels@) =~= before.update(k as int, with_member(before[k as int], client@)));

    let joined = join_message(client.username.clone(), client.domain.clone(), name.clone());
    effects.push(
        ChannelEffect::Direct(PostmanMessage { client: client.clone(), content: joined.clone() }),
    );
    effects.push(
        ChannelEffect::Relay(
            BroadcastMessage {
                content: joined,
                sender: client.clone(),
                channel: name,
                send_to_sender: false,
            },
        ),
    );
    let header = join_header(client.username.clone(), &channels[k]);
    effects.push(ChannelEffect::Direct(PostmanMessage { client: client.clone(), content: header }));
    let members = join_members(client.username.clone(), &channels[k]);
    effects.push(ChannelEffect::Direct(PostmanMessage { client: client.clone(), content: members }));
    let end = join_end_members(client.username.clone(), &channels[k]);
    effects.push(ChannelEffect::Direct(PostmanMessage { client, content: end }));
    assert(effect_views(effects@) =~= join_effects(
        message@.client,
        with_member(before[k as int], message@.client),
    ));
    effects
}

/// Takes `sender` out of every channel and returns the announcements for
/// the channels it was in, in the order of the table.
pub fn unregister_from_all_channels(sender: Client, channels: &mut Vec<Channel>) -> (announcements:
    Vec<BroadcastMessage>)
    ensures
        table_view(final(channels)@) == purged(table_view(old(channels)@), sender.id),
        broadcast_views(announcements@) == departures(table_view(old(channels)@), sender@),
        table_wf(table_view(old(channels)@)) ==> table_wf(table_view(final(channels)@)),
{
    let ghost before = table_view(channels@);
    proof {
        if table_wf(before) {
            lemma_channels_keep_wf(
                before,
                ChannelMessageView {
                    client: sender@,
                    channel: None,
                    body: None,
                    leave: true,
                    all_channels: true,
                },
            );
        }
    }
    let n = channels.len();
    let mut announcements: Vec<BroadcastMessage> = Vec::new();
    let mut i: usize = 0;
    assert(broadcast_views(announcements@) =~= departures(before.take(0), sender@));
    while i < n
        invariant
            n == channels.len(),
            n == before.len(),
            i <= n,
            forall|k: int| 0 <= k < i ==> (#[trigger] channels@[k])@ == without_member(before[k], sender.id),
            forall|k: int| i <= k < n ==> (#[trigger] channels@[k])@ == before[k],
            broadcast_views(announcements@) == departures(before.take(i as int), sender@),
        decreases n - i,
    {
        proof {
            assert(before.take(i + 1).drop_last() =~= before.take(i as int));
            assert(before.take(i + 1).last() == before[i as int]);
        }
        if has_member(&channels[i].clients, sender.id) {
            let content = part_msg(
                sender.username.clone(),
                sender.domain.clone(),
                channels[i].name.clone(),
                String::from_str("User left"),
            );
            let announcement = BroadcastMessage {
                content,
                sender: sender.clone(),
                channel: channels[i].name.clone(),
                send_to_sender: false,
            };
            assert(broadcast_views(announcements@.push(announcement)) =~= broadcast_views(
                announcements@,
            ).push(announcement@));
            announcements.push(announcement);
            remove_member(&mut channels[i].clients, sender.id);
        } else {
            proof {
                lemma_without_absent(before[i as int].clients, sender.id);
            }
        }
        i += 1;
    }
    proof {
        assert(before.take(n as int) =~= before);
        assert(table_view(channels@) =~= purged(before, sender.id));
    }
    announcements
}

/// Carries out a request to leave: all channels, or the one that the
/// message names. The client that leaves one channel is told so through the
/// postman, after those who stay.
pub fn leave_channel(change_channel_message: ChannelMessage, channels: &mut Vec<Channel>) -> (effects:
    Vec<ChannelEffect>)
    ensures
        table_view(final(channels)@) == leave_request(
            table_view(old(channels)@),
            change_channel_message@,
        ).table,
        effect_views(effects@) == leave_request(
            table_view(old(channels)@),
            change_channel_message@,
        ).effects,
        table_wf(table_view(old(channels)@)) ==> table_wf(table_view(final(channels)@)),
{
    let ghost before = table_view(channels@);
    proof {
        if table_wf(before) {
            lemma_channels_keep_wf(
                before,
                ChannelMessageView { leave: true, ..change_channel_message@ },
            );
        }
    }
    let mut effects: Vec<ChannelEffect> = Vec::new();
    assert(effect_views(effects@) =~= Seq::<ChannelEffectView>::empty());
    let sender = change_channel_message.client;

    if change_channel_message.all_channels {
        let announcements = unregister_from_all_channels(sender, channels);
        let ghost all = broadcast_views(announcements@);
        assert(announced(all.take(0)) =~= effect_views(effects@));
        for announcement in it: announcements
            invariant
                it.seq() == announcements@,
                all == broadcast_views(announcements@),
                effect_views(effects@) == announced(all.take(it.index() as int)),
        {
            proof {
                let ghost done = it.index() as int;
                let ghost effect = ChannelEffect::Relay(announcement);
                assert(effect_views(effects@.push(effect)) =~= effect_views(effects@).push(effect@));
                assert(announced(all.take(done + 1)) =~= announced(all.take(done)).push(
                    ChannelEffectView::Relay(all[done]),
                ));
            }
            effects.push(ChannelEffect::Relay(announcement));
        }
        assert(all.take(announcements@.len() as int) =~= all);
        return effects;
    }
    let channel_to_leave = match change_channel_message.channel {
        Some(channel) => channel,
        None => {
            return effects;
        },
    };
    let k = find_channel(channels, &channel_to_leave);
    if k >= channels.len() {
        return effects;
    }
    let body = match change_channel_message.body {
        Some(body) => {
            let chars = chars_of(body.as_str());
            proof {
                assert(chars@.subrange(0, chars.len() as int) =~= body@);
            }
            without_breaks(&chars, 0)
        },
        None => String::from_str("Bye bye"),
    };
    let content = part_msg(
        sender.username.clone(),
        sender.domain.clone(),
        channel_to_leave.clone(),
        body,
    );
    effects.push(
        ChannelEffect::Relay(
            BroadcastMessage {
                content: content.clone(),
                sender: sender.clone(),
                channel: channel_to_leave,
                send_to_sender: false,
            },
        ),
    );
    remove_member(&mut channels[k].clients, sender.id);
    effects.push(ChannelEffect::Post(PostmanMessage { client: sender, content }));
    proof {
        assert(table_view(channels@) =~= before.update(
            k as int,
            without_member(before[k as int], change_channel_message@.client.id),
        ));
        assert(effect_views(effects@) =~= leave_effects(
            change_channel_message@.client,
            change_channel_message@.channel->0,
            change_channel_message@.body,
        ));
    }
    effects
}

/// Serves one request to the channel registry.
pub fn handle_channel_message(message: ChannelMessage, channels: &mut Vec<Channel>) -> (effects:
    Vec<ChannelEffect>)
    ensures
        table_view(final(channels)@) == channel_step(table_view(old(channels)@), message@).table,
        effect_views(effects@) == channel_step(table_view(old(channels)@), message@).effects,
        table_wf(table_view(old(channels)@)) ==> table_wf(table_view(final(channels)@)),
{
    if message.leave {
        leave_channel(message, channels)
    } else {
        join_channel(message, channels)
    }
}

} // verus!
