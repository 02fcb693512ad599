use std::collections::{HashMap, HashSet, VecDeque};

use irc_server::router::{route_broadcast, BroadcastMessage};
use irc_server::channels::{handle_channel_message, init_default_channels, Channel, ChannelEffect, ChannelMessage};
use irc_server::client_handler::{dispatch_message, Client, SessionEffect};
use irc_server::postman::{after_delivery, DeliveryOutcome, PostmanMessage};
use irc_server::registration::{handle_registration, RegistrationEffect, RegistrationMessage};

enum Event {
    Registration(RegistrationMessage),
    Channel(ChannelMessage),
    Relay(BroadcastMessage),
    Delivery(PostmanMessage),
}

struct Server {
    registry: Vec<Client>,
    channels: Vec<Channel>,
    queue: VecDeque<Event>,
    inbox: HashMap<u128, Vec<String>>,
    reset: HashSet<u128>,
}

fn start() -> Server {
    let mut channels = Vec::new();
    init_default_channels(&mut channels);
    Server {
        registry: Vec::new(),
        channels,
        queue: VecDeque::new(),
        inbox: HashMap::new(),
        reset: HashSet::new(),
    }
}

fn write(server: &mut Server, message: &PostmanMessage) -> DeliveryOutcome {
    if server.reset.contains(&message.client.id) {
        DeliveryOutcome::ConnectionReset
    } else {
        server.inbox.entry(message.client.id).or_default().push(message.content.clone());
        DeliveryOutcome::Delivered
    }
}

fn run(server: &mut Server) {
    while let Some(event) = server.queue.pop_front() {
        match event {
            Event::Registration(message) => match handle_registration(message, &mut server.registry) {
                RegistrationEffect::Welcome(greeting) => server.queue.push_back(Event::Delivery(greeting)),
                RegistrationEffect::Purge(order) => server.queue.push_back(Event::Channel(order)),
            },
            Event::Channel(message) => {
                for effect in handle_channel_message(message, &mut server.channels) {
                    match effect {
                        ChannelEffect::Direct(direct) => {
                            write(server, &direct);
                        }
                        ChannelEffect::Relay(b) => server.queue.push_back(Event::Relay(b)),
                        ChannelEffect::Post(p) => server.queue.push_back(Event::Delivery(p)),
                    }
                }
            }
            Event::Relay(message) => {
                for delivery in route_broadcast(&message, &server.channels) {
                    server.queue.push_back(Event::Delivery(delivery));
                }
            }
            Event::Delivery(message) => {
                let outcome = write(server, &message);
                if let Some(unregister) = after_delivery(message, outcome) {
                    server.queue.push_back(Event::Registration(unregister));
                }
            }
        }
    }
}

fn say(server: &mut Server, session: &mut Option<Client>, address: &str, text: &str) -> (bool, Option<String>) {
    let (connected, effect) = dispatch_message(text.to_string(), address.to_string(), session);
    let mut reply = None;
    match effect {
        SessionEffect::Nothing => {}
        SessionEffect::Register(m) => server.queue.push_back(Event::Registration(m)),
        SessionEffect::Channel(m) => server.queue.push_back(Event::Channel(m)),
        SessionEffect::Relay(m) => server.queue.push_back(Event::Relay(m)),
        SessionEffect::Reply(text) => reply = Some(text),
    }
    run(server);
    (connected, reply)
}

fn take(server: &mut Server, id: u128) -> Vec<String> {
    server.inbox.remove(&id).unwrap_or_default()
}

fn members(server: &Server, name: &str) -> Vec<String> {
    let channel = server.channels.iter().find(|c| c.name == name).unwrap();
    channel.clients.iter().map(|c| c.username.clone()).collect()
}

#[test]
fn two_clients_chat_and_one_drops() {
    let mut server = start();
    let mut a = None;
    let mut b = None;

    say(&mut server, &mut a, "10.0.0.1", "NICK alice\r\n");
    let alice = a.clone().unwrap().id;
    assert_eq!(
        take(&mut server, alice),
        vec![":guyot-gondange.fr 001 alice :Bienvenue sur notre serveur sûr et efficace !\r\n"]
    );

    say(&mut server, &mut a, "10.0.0.1", "JOIN #rust\r\n");
    assert_eq!(
        take(&mut server, alice),
        vec![
            ":alice!alice@10.0.0.1 JOIN #rust\r\n",
            ":guyot-gondange.fr 332 alice #rust :Un endroit pour discuter du rust\r\n",
            ":guyot-gondange.fr 353 alice = #rust :alice \r\n",
            ":guyot-gondange.fr 366 alice #rust :End of NAMES list\r\n",
        ]
    );

    say(&mut server, &mut b, "10.0.0.2", "NICK bob\r\n");
    let bob = b.clone().unwrap().id;
    assert_ne!(alice, bob);
    assert_eq!(take(&mut server, bob).len(), 1);
    assert_eq!(server.registry.iter().map(|c| c.username.as_str()).collect::<Vec<_>>(), vec!["alice", "bob"]);

    say(&mut server, &mut b, "10.0.0.2", "JOIN #rust\r\n");
    assert_eq!(take(&mut server, alice), vec![":bob!bob@10.0.0.2 JOIN #rust\r\n"]);
    assert_eq!(
        take(&mut server, bob),
        vec![
            ":bob!bob@10.0.0.2 JOIN #rust\r\n",
            ":guyot-gondange.fr 332 bob #rust :Un endroit pour discuter du rust\r\n",
            ":guyot-gondange.fr 353 bob = #rust :alice bob \r\n",
            ":guyot-gondange.fr 366 bob #rust :End of NAMES list\r\n",
        ]
    );

    say(&mut server, &mut a, "10.0.0.1", "PRIVMSG #rust :hi\r\n");
    assert_eq!(take(&mut server, bob), vec![":alice!alice@10.0.0.1 PRIVMSG #rust :hi\r\n"]);
    assert!(take(&mut server, alice).is_empty());

    server.reset.insert(bob);
    say(&mut server, &mut a, "10.0.0.1", "PRIVMSG #rust :still there?\r\n");
    assert_eq!(take(&mut server, alice), vec![":bob!bob@10.0.0.2 PART #rust :User left\r\n"]);
    assert!(take(&mut server, bob).is_empty());
    assert_eq!(members(&server, "#rust"), vec!["alice"]);
    assert!(members(&server, "#java").is_empty());
    assert_eq!(server.registry.iter().map(|c| c.username.as_str()).collect::<Vec<_>>(), vec!["alice"]);
}

#[test]
fn part_confirms_to_the_leaver_once() {
    let mut server = start();
    let mut a = None;
    let mut b = None;
    say(&mut server, &mut a, "10.0.0.1", "NICK alice\r\n");
    say(&mut server, &mut b, "10.0.0.2", "NICK bob\r\n");
    say(&mut server, &mut a, "10.0.0.1", "JOIN #java\r\n");
    say(&mut server, &mut b, "10.0.0.2", "JOIN #java\r\n");
    let alice = a.clone().unwrap().id;
    let bob = b.clone().unwrap().id;
    take(&mut server, alice);
    take(&mut server, bob);

    say(&mut server, &mut b, "10.0.0.2", "PART #java :later\r\n");
    assert_eq!(take(&mut server, bob), vec![":bob!bob@10.0.0.2 PART #java :later\r\n"]);
    assert_eq!(take(&mut server, alice), vec![":bob!bob@10.0.0.2 PART #java :later\r\n"]);
    assert_eq!(members(&server, "#java"), vec!["alice"]);
}

#[test]
fn quit_leaves_every_channel_and_the_registry() {
    let mut server = start();
    let mut a = None;
    let mut b = None;
    say(&mut server, &mut a, "10.0.0.1", "NICK alice\r\n");
    say(&mut server, &mut b, "10.0.0.2", "NICK bob\r\n");
    for channel in ["#rust", "#java"] {
        say(&mut server, &mut a, "10.0.0.1", &format!("JOIN {}\r\n", channel));
        say(&mut server, &mut b, "10.0.0.2", &format!("JOIN {}\r\n", channel));
    }
    let alice = a.clone().unwrap().id;
    let bob = b.clone().unwrap().id;
    take(&mut server, alice);
    take(&mut server, bob);

    let (connected, _) = say(&mut server, &mut b, "10.0.0.2", "QUIT\r\n");
    assert!(!connected);
    assert_eq!(
        take(&mut server, alice),
        vec![":bob!bob@10.0.0.2 PART #rust :User left\r\n", ":bob!bob@10.0.0.2 PART #java :User left\r\n"]
    );
    assert!(take(&mut server, bob).is_empty());
    assert_eq!(members(&server, "#rust"), vec!["alice"]);
    assert_eq!(members(&server, "#java"), vec!["alice"]);
    assert_eq!(server.registry.len(), 1);
}

#[test]
fn unknown_channel_and_unregistered_commands_get_no_answer() {
    let mut server = start();
    let mut a = None;
    let (connected, reply) = say(&mut server, &mut a, "10.0.0.1", "JOIN #rust\r\n");
    assert!(connected && reply.is_none());
    assert!(members(&server, "#rust").is_empty());
    let (_, reply) = say(&mut server, &mut a, "10.0.0.1", "PING 77\r\n");
    assert_eq!(reply, Some("PONG guyot-gondange.fr 77\r\n".to_string()));

    say(&mut server, &mut a, "10.0.0.1", "NICK alice\r\n");
    let alice = a.clone().unwrap().id;
    take(&mut server, alice);
    say(&mut server, &mut a, "10.0.0.1", "JOIN #go\r\n");
    say(&mut server, &mut a, "10.0.0.1", "PART #go :bye\r\n");
    say(&mut server, &mut a, "10.0.0.1", "PRIVMSG #go :anyone?\r\n");
    assert!(take(&mut server, alice).is_empty());
    assert!(members(&server, "#rust").is_empty());
    assert!(members(&server, "#java").is_empty());
    assert_eq!(server.channels.len(), 2);
}
