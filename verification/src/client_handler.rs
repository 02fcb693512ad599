//! Clients, and the per-connection session that turns protocol lines into
//! events for the workers.

use crate::router::{BroadcastMessage, BroadcastMessageView};
use crate::channels::{ChannelMessage, ChannelMessageView};
use crate::protocol::{pong, pong_text, priv_msg, priv_text};
use crate::registration::{RegistrationAction, RegistrationMessage, RegistrationMessageView};
use crate::text::{body_of, line_body, split_words, views, words};
use vstd::prelude::*;
use vstd::std_specs::cmp::PartialEqSpecImpl;
use vstd::string::*;

verus! {

/// A connected user. Two clients are the same client when their ids are
/// equal, whatever their names and addresses.
#[derive(Debug)]
pub struct Client {
    /// Unique for the lifetime of the connection.
    pub id: u128,
    /// The nickname; not necessarily unique.
    pub username: String,
    /// The network address the client connected from.
    pub domain: String,
}

/// What a [`Client`] stands for in contracts.
pub struct ClientView {
    pub id: u128,
    pub username: Seq<char>,
    pub domain: Seq<char>,
}

impl View for Client {
    type V = ClientView;

    open spec fn view(&self) -> ClientView {
        ClientView { id: self.id, username: self.username@, domain: self.domain@ }
    }
}

impl Clone for Client {
    fn clone(&self) -> (res: Self)
        ensures
            res == *self,
    {
        Client { id: self.id, username: self.username.clone(), domain: self.domain.clone() }
    }
}

impl PartialEq for Client {
    fn eq(&self, other: &Self) -> (r: bool) {
        self.id == other.id
    }
}

impl PartialEqSpecImpl for Client {
    open spec fn obeys_eq_spec() -> bool {
        true
    }

    open spec fn eq_spec(&self, other: &Self) -> bool {
        self.id == other.id
    }
}

/// The views of a sequence of clients.
pub open spec fn client_views(clients: Seq<Client>) -> Seq<ClientView> {
    clients.map_values(|c: Client| c@)
}

/// Whether a client with this id stands in `clients`.
pub open spec fn has_id(clients: Seq<ClientView>, id: u128) -> bool {
    exists|i: int| 0 <= i < clients.len() && #[trigger] clients[i].id == id
}

/// No id occurs twice in `clients`.
pub open spec fn distinct_ids(clients: Seq<ClientView>) -> bool {
    forall|i: int, j: int|
        0 <= i < j < clients.len() ==> #[trigger] clients[i].id != #[trigger] clients[j].id
}

/// The clients whose id is not `id`.
pub open spec fn other_than(id: u128) -> spec_fn(ClientView) -> bool {
    |c: ClientView| c.id != id
}

/// `clients` without the client that has this id.
pub open spec fn without(clients: Seq<ClientView>, id: u128) -> Seq<ClientView> {
    clients.filter(other_than(id))
}

/// `clients` with `client` among them: it is put at the end, unless a
/// client with its id is there already.
pub open spec fn with_client(clients: Seq<ClientView>, client: ClientView) -> Seq<ClientView> {
    if has_id(clients, client.id) {
        clients
    } else {
        clients.push(client)
    }
}

/// Taking out an id that is not there changes nothing.
pub proof fn lemma_without_absent(clients: Seq<ClientView>, id: u128)
    requires
        !has_id(clients, id),
    ensures
        without(clients, id) == clients,
    decreases clients.len(),
{
    reveal(Seq::filter);
    if clients.len() > 0 {
        let front = clients.drop_last();
        assert(!has_id(front, id)) by {
            if has_id(front, id) {
                let i = choose|i: int| 0 <= i < front.len() && #[trigger] front[i].id == id;
                assert(clients[i].id == id);
            }
        }
        lemma_without_absent(front, id);
        assert(clients.last().id != id) by {
            assert(clients[clients.len() - 1].id == clients.last().id);
        }
        assert(front.push(clients.last()) =~= clients);
    }
}

/// After an id has been taken out it is not there.
pub proof fn lemma_without_has_not(clients: Seq<ClientView>, id: u128)
    ensures
        !has_id(without(clients, id), id),
{
    let rest = without(clients, id);
    if has_id(rest, id) {
        let i = choose|i: int| 0 <= i < rest.len() && #[trigger] rest[i].id == id;
        clients.lemma_filter_pred(other_than(id), i);
    }
}

/// Taking a client out of a list without repeated ids leaves no repeated
/// ids.
pub proof fn lemma_without_keeps_distinct(clients: Seq<ClientView>, id: u128)
    requires
        distinct_ids(clients),
    ensures
        distinct_ids(without(clients, id)),
    decreases clients.len(),
{
    reveal(Seq::filter);
    if clients.len() > 0 {
        let front = clients.drop_last();
        let last = clients.last();
        assert(forall|i: int| 0 <= i < front.len() ==> front[i] == clients[i]);
        lemma_without_keeps_distinct(front, id);
        let rest = without(front, id);
        if last.id != id {
            let all = rest.push(last);
            assert forall|i: int, j: int| 0 <= i < j < all.len() implies #[trigger] all[i].id
                != #[trigger] all[j].id by {
                if j == rest.len() {
                    front.lemma_filter_contains_rev(other_than(id), rest[i]);
                    let k = choose|k: int| 0 <= k < front.len() && front[k] == rest[i];
                    assert(clients[k].id != clients[clients.len() - 1].id);
                }
            }
        }
    }
}

/// Putting a client into a list without repeated ids leaves no repeated
/// ids.
pub proof fn lemma_with_client_keeps_distinct(clients: Seq<ClientView>, client: ClientView)
    requires
        distinct_ids(clients),
    ensures
        distinct_ids(with_client(clients, client)),
{
    if !has_id(clients, client.id) {
        let all = clients.push(client);
        assert forall|i: int, j: int| 0 <= i < j < all.len() implies #[trigger] all[i].id
            != #[trigger] all[j].id by {
            if j == clients.len() {
                assert(clients[i].id != client.id);
            }
        }
    }
}

/// A protocol line, read.
#[derive(Debug)]
pub enum Command {
    /// `NICK <username>`
    Nick { username: String },
    /// `JOIN <channel>`
    Join { channel: String },
    /// `PING <token>`
    Ping { token: String },
    /// `PRIVMSG <channel> :<content>`
    Privmsg { channel: String, content: String },
    /// `PART <channel>` with or without `:<body>`
    Part { channel: String, body: Option<String> },
    /// `QUIT`
    Quit,
    /// An empty line, an unknown command word, or a command that lacks an
    /// argument: nothing is done for it.
    Ignored,
}

/// What a [`Command`] stands for in contracts.
pub enum CommandView {
    Nick { username: Seq<char> },
    Join { channel: Seq<char> },
    Ping { token: Seq<char> },
    Privmsg { channel: Seq<char>, content: Seq<char> },
    Part { channel: Seq<char>, body: Option<Seq<char>> },
    Quit,
    Ignored,
}

impl View for Command {
    type V = CommandView;

    open spec fn view(&self) -> CommandView {
        match self {
            Command::Nick { username } => CommandView::Nick { username: username@ },
            Command::Join { channel } => CommandView::Join { channel: channel@ },
            Command::Ping { token } => CommandView::Ping { token: token@ },
            Command::Privmsg { channel, content } => CommandView::Privmsg {
                channel: channel@,
                content: content@,
            },
            Command::Part { channel, body } => CommandView::Part {
                channel: channel@,
                body: body.deep_view(),
            },
            Command::Quit => CommandView::Quit,
            Command::Ignored => CommandView::Ignored,
        }
    }
}

/// The command a line holds. The first word names it and the second word is
/// its argument; the free text after the first `':'` is its body.
pub open spec fn command_of(line: Seq<char>) -> CommandView {
    let args = words(line);
    if args.len() == 0 {
        CommandView::Ignored
    } else if args[0] == "QUIT"@ {
        CommandView::Quit
    } else if args.len() < 2 {
        CommandView::Ignored
    } else if args[0] == "NICK"@ {
        CommandView::Nick { username: args[1] }
    } else if args[0] == "JOIN"@ {
        CommandView::Join { channel: args[1] }
    } else if args[0] == "PING"@ {
        CommandView::Ping { token: args[1] }
    } else if args[0] == "PRIVMSG"@ {
        match body_of(line) {
            Some(content) => CommandView::Privmsg { channel: args[1], content },
            None => CommandView::Ignored,
        }
    } else if args[0] == "PART"@ {
        CommandView::Part { channel: args[1], body: body_of(line) }
    } else {
        CommandView::Ignored
    }
}

/// Whether `word` reads exactly as `name`.
fn is_named(word: &String, name: &str) -> (same: bool)
    ensures
        same == (word@ == name@),
{
    *word == String::from_str(name)
}

/// Reads one protocol line.
pub fn parse_command(line: &str) -> (command: Command)
    ensures
        command@ == command_of(line@),
{
    let args = split_words(line);
    proof {
        assert(views(args@).len() == args@.len());
        if args@.len() > 0 {
            assert(views(args@)[0] == args@[0]@);
        }
        if args@.len() > 1 {
            assert(views(args@)[1] == args@[1]@);
        }
    }
    if args.len() == 0 {
        Command::Ignored
    } else if is_named(&args[0], "QUIT") {
        Command::Quit
    } else if args.len() < 2 {
        Command::Ignored
    } else if is_named(&args[0], "NICK") {
        Command::Nick { username: args[1].clone() }
    } else if is_named(&args[0], "JOIN") {
        Command::Join { channel: args[1].clone() }
    } else if is_named(&args[0], "PING") {
        Command::Ping { token: args[1].clone() }
    } else if is_named(&args[0], "PRIVMSG") {
        match line_body(line) {
            Some(content) => Command::Privmsg { channel: args[1].clone(), content },
            None => Command::Ignored,
        }
    } else if is_named(&args[0], "PART") {
        Command::Part { channel: args[1].clone(), body: line_body(line) }
    } else {
        Command::Ignored
    }
}

/// What the session hands on after one line.
#[derive(Debug)]
pub enum SessionEffect {
    /// The line asks for nothing, or was dropped.
    Nothing,
    /// An event for the session registry.
    Register(RegistrationMessage),
    /// An event for the channel registry.
    Channel(ChannelMessage),
    /// An event for the router: a message for the members of a channel.
    Relay(BroadcastMessage),
    /// Text to write back on this connection at once.
    Reply(String),
}

/// What a [`SessionEffect`] stands for in contracts.
pub enum SessionEffectView {
    Nothing,
    Register(RegistrationMessageView),
    Channel(ChannelMessageView),
    Relay(BroadcastMessageView),
    Reply(Seq<char>),
}

impl View for SessionEffect {
    type V = SessionEffectView;

    open spec fn view(&self) -> SessionEffectView {
        match self {
            SessionEffect::Nothing => SessionEffectView::Nothing,
            SessionEffect::Register(m) => SessionEffectView::Register(m@),
            SessionEffect::Channel(m) => SessionEffectView::Channel(m@),
            SessionEffect::Relay(m) => SessionEffectView::Relay(m@),
            SessionEffect::Reply(line) => SessionEffectView::Reply(line@),
        }
    }
}

/// The client of a session, if it has registered.
pub open spec fn session_view(current: Option<Client>) -> Option<ClientView> {
    match current {
        Some(client) => Some(client@),
        None => None,
    }
}

/// The outcome of one command in a session.
pub struct SessionStep {
    /// The client of the session after the command.
    pub current: Option<ClientView>,
    /// Whether the session goes on reading.
    pub connected: bool,
    /// What is handed on.
    pub effect: SessionEffectView,
}

/// A command that changes nothing and sends nothing.
pub open spec fn dropped(current: Option<ClientView>) -> SessionStep {
    SessionStep { current, connected: true, effect: SessionEffectView::Nothing }
}

/// What a session does with a command. `current` is its client, unset until
/// it has registered; `fresh` is the id a new client would get.
///
/// Only `PING` is served before registration, and `NICK` only then. `QUIT`
/// ends the session; every other command leaves it connected.
pub open spec fn session_step(
    command: CommandView,
    domain: Seq<char>,
    current: Option<ClientView>,
    fresh: u128,
) -> SessionStep {
    match command {
        CommandView::Ping { token } => SessionStep {
            current,
            connected: true,
            effect: SessionEffectView::Reply(pong_text(token)),
        },
        CommandView::Nick { username } => match current {
            Some(_) => dropped(current),
            None => {
                let client = ClientView { id: fresh, username, domain };
                SessionStep {
                    current: Some(client),
                    connected: true,
                    effect: SessionEffectView::Register(
                        RegistrationMessageView { client, action: RegistrationAction::REGISTER },
                    ),
                }
            },
        },
        CommandView::Join { channel } => match current {
            Some(client) => SessionStep {
                current,
                connected: true,
                effect: SessionEffectView::Channel(
                    ChannelMessageView {
                        client,
                        channel: Some(channel),
                        body: None,
                        leave: false,
                        all_channels: false,
                    },
                ),
            },
            None => dropped(current),
        },
        CommandView::Privmsg { channel, content } => match current {
            Some(client) => SessionStep {
                current,
                connected: true,
                effect: SessionEffectView::Relay(
                    BroadcastMessageView {
                        content: priv_text(client.username, client.domain, channel, content),
                        sender: client,
                        channel,
                        send_to_sender: false,
                    },
                ),
            },
            None => dropped(current),
        },
        CommandView::Part { channel, body } => match current {
            Some(client) => SessionStep {
                current,
                connected: true,
                effect: SessionEffectView::Channel(
                    ChannelMessageView {
                        client,
                        channel: Some(channel),
                        body,
                        leave: true,
                        all_channels: false,
                    },
                ),
            },
            None => dropped(current),
        },
        CommandView::Quit => match current {
            Some(client) => SessionStep {
                current,
                connected: false,
                effect: SessionEffectView::Register(
                    RegistrationMessageView { client, action: RegistrationAction::LEAVE },
                ),
            },
            None => dropped(current),
        },
        CommandView::Ignored => dropped(current),
    }
}

/// Whether `id` is laid out as a random UUID: version 4, variant `10`.
pub open spec fn is_random_uuid(id: u128) -> bool {
    (id >> 76) & 0xf == 4 && (id >> 62) & 0x3 == 2
}

/// A new client id.
///
/// Trusted: calls `Uuid::new_v4` of the crate `uuid`, which draws 128 bits
/// from the system's random source and overwrites the version and variant
/// bits, and `Uuid::as_u128`, which gives the sixteen bytes as one number,
/// first byte highest. Nothing is claimed about the other bits. `new_v4`
/// panics if the system has no random source.
#[verifier::external_body]
fn fresh_id() -> (id: u128)
    ensures
        is_random_uuid(id),
{
    uuid::Uuid::new_v4().as_u128()
}

/// Makes the client of a session from a given id, and the event that
/// registers it.
pub fn register_with_id(
    id: u128,
    domain: String,
    username: String,
    current_client: &mut Option<Client>,
) -> (message: RegistrationMessage)
    ensures
        message@ == (RegistrationMessageView {
            client: ClientView { id, username: username@, domain: domain@ },
            action: RegistrationAction::REGISTER,
        }),
        *final(current_client) == Some(message.client),
{
    let client = Client { id, username, domain };
    *current_client = Some(client.clone());
    RegistrationMessage { client, action: RegistrationAction::REGISTER }
}

/// Makes the client of a session under a fresh random id, and the event
/// that registers it.
pub fn register_client(domain: String, username: String, current_client: &mut Option<Client>) -> (message:
    RegistrationMessage)
    ensures
        is_random_uuid(message.client.id),
        message@ == (RegistrationMessageView {
            client: ClientView { id: message.client.id, username: username@, domain: domain@ },
            action: RegistrationAction::REGISTER,
        }),
        *final(current_client) == Some(message.client),
{
    register_with_id(fresh_id(), domain, username, current_client)
}

/// The event that removes `client` from the server.
pub fn unregister_client(client: Client) -> (message: RegistrationMessage)
    ensures
        message.client == client,
        message.action == RegistrationAction::LEAVE,
{
    RegistrationMessage { client, action: RegistrationAction::LEAVE }
}

/// Carries out one command of a session. `fresh` is the id a new client
/// gets; it is used by a `NICK` in a session that has not registered, and
/// by nothing else.
pub fn dispatch_command(
    command: Command,
    domain: String,
    fresh: u128,
    current_client: &mut Option<Client>,
) -> (r: (bool, SessionEffect))
    ensures
        ({
            let step = session_step(command@, domain@, session_view(*old(current_client)), fresh);
            &&& r.0 == step.connected
            &&& r.1@ == step.effect
            &&& session_view(*final(current_client)) == step.current
        }),
{
    match command {
        Command::Ping { token } => (true, SessionEffect::Reply(pong(token))),
        Command::Nick { username } => {
            if current_client.is_some() {
                (true, SessionEffect::Nothing)
            } else {
                let message = register_with_id(fresh, domain, username, current_client);
                (true, SessionEffect::Register(message))
            }
        },
        Command::Join { channel } => match current_client {
            Some(client) => {
                let message = ChannelMessage {
                    client: client.clone(),
                    channel: Some(channel),
                    body: None,
                    leave: false,
                    all_channels: false,
                };
                (true, SessionEffect::Channel(message))
            },
            None => (true, SessionEffect::Nothing),
        },
        Command::Privmsg { channel, content } => match current_client {
            Some(client) => {
                let sender = client.clone();
                let content = priv_msg(
                    sender.username.clone(),
                    sender.domain.clone(),
                    channel.clone(),
                    content,
                );
                let message = BroadcastMessage { content, sender, channel, send_to_sender: false };
                (true, SessionEffect::Relay(message))
            },
            None => (true, SessionEffect::Nothing),
        },
        Command::Part { channel, body } => match current_client {
            Some(client) => {
                let message = ChannelMessage {
                    client: client.clone(),
                    channel: Some(channel),
                    body,
                    leave: true,
                    all_channels: false,
                };
                (true, SessionEffect::Channel(message))
            },
            None => (true, SessionEffect::Nothing),
        },
        Command::Quit => match current_client {
            Some(client) => (false, SessionEffect::Register(unregister_client(client.clone()))),
            None => (true, SessionEffect::Nothing),
        },
        Command::Ignored => (true, SessionEffect::Nothing),
    }
}

/// What a session hands on when its connection failed or was closed by the
/// peer: the event that unregisters its client, if it has one.
pub open spec fn closed_step(current: Option<ClientView>) -> SessionEffectView {
    match current {
        Some(client) => SessionEffectView::Register(
            RegistrationMessageView { client, action: RegistrationAction::LEAVE },
        ),
        None => SessionEffectView::Nothing,
    }
}

/// Ends a session whose connection can no longer be read.
pub fn connection_closed(current_client: &Option<Client>) -> (effect: SessionEffect)
    ensures
        effect@ == closed_step(session_view(*current_client)),
{
    match current_client {
        Some(client) => SessionEffect::Register(unregister_client(client.clone())),
        None => SessionEffect::Nothing,
    }
}

/// Whether this command makes a new client in a session in this state.
pub open spec fn registers(command: CommandView, current: Option<ClientView>) -> bool {
    command is Nick && current is None
}

/// The id of the client of a session, or 0 if it has none.
pub open spec fn session_id(current: Option<Client>) -> u128 {
    match current {
        Some(client) => client.id,
        None => 0,
    }
}

/// Handles one line read from a connection: reads the command and carries
/// it out. `domain` is the address of the peer. Returns whether the session
/// goes on, and what has to be handed on.
///
/// A client made here gets a fresh random id; the outcome is otherwise
/// fixed by the line and the state of the session.
pub fn dispatch_message(msg: String, domain: String, current_client: &mut Option<Client>) -> (r: (
    bool,
    SessionEffect,
))
    ensures
        ({
            let step = session_step(
                command_of(msg@),
                domain@,
                session_view(*old(current_client)),
                session_id(*final(current_client)),
            );
            &&& r.0 == step.connected
            &&& r.1@ == step.effect
            &&& session_view(*final(current_client)) == step.current
        }),
        registers(command_of(msg@), session_view(*old(current_client))) ==> is_random_uuid(
            session_id(*final(current_client)),
        ),
{
    let command = parse_command(msg.as_str());
    let makes_client = match &command {
        Command::Nick { .. } => current_client.is_none(),
        _ => false,
    };
    let fresh: u128 = if makes_client {
        fresh_id()
    } else {
        0
    };
    dispatch_command(command, domain, fresh, current_client)
}

} // verus!
