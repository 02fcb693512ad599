//! The lines the server writes, as text.
//!
//! Each function has a spec function beside it that gives the line as a
//! sequence of characters; the executable function builds exactly that.

use crate::channels::Channel;
use crate::client_handler::ClientView;
use crate::text::{push_three_digits, three_digits};
use vstd::prelude::*;
use vstd::string::*;

verus! {

/// A numeric reply: `:guyot-gondange.fr <code> <nick> :<content>`, the code
/// zero-filled to three digits, closed by CR LF.
pub open spec fn response_text(code: nat, nick: Seq<char>, content: Seq<char>) -> Seq<char> {
    ":guyot-gondange.fr "@ + three_digits(code) + " "@ + nick + " :"@ + content + "\r\n"@
}

/// The greeting a client gets when it has registered.
pub open spec fn welcome_text(nick: Seq<char>) -> Seq<char> {
    response_text(1, nick, "Bienvenue sur notre serveur sûr et efficace !"@)
}

/// `:<nick>!<nick>@<domain> JOIN <channel>`, closed by CR LF.
pub open spec fn join_text(nick: Seq<char>, domain: Seq<char>, channel: Seq<char>) -> Seq<char> {
    ":"@ + nick + "!"@ + nick + "@"@ + domain + " JOIN "@ + channel + "\r\n"@
}

/// The topic line of a channel (reply 332) for the client `nick`.
pub open spec fn header_text(nick: Seq<char>, name: Seq<char>, description: Seq<char>) -> Seq<
    char,
> {
    ":guyot-gondange.fr 332 "@ + nick + " "@ + name + " :"@ + description + "\r\n"@
}

/// The nicknames of `clients` in order, each followed by one space.
pub open spec fn names_text(clients: Seq<ClientView>) -> Seq<char>
    decreases clients.len(),
{
    if clients.len() == 0 {
        Seq::empty()
    } else {
        names_text(clients.drop_last()) + clients.last().username + " "@
    }
}

/// The member list of a channel (reply 353) for the client `nick`.
pub open spec fn members_text(nick: Seq<char>, name: Seq<char>, clients: Seq<ClientView>) -> Seq<
    char,
> {
    ":guyot-gondange.fr 353 "@ + nick + " = "@ + name + " :"@ + names_text(clients) + "\r\n"@
}

/// The line that closes a member list (reply 366).
pub open spec fn end_members_text(nick: Seq<char>, name: Seq<char>) -> Seq<char> {
    ":guyot-gondange.fr 366 "@ + nick + " "@ + name + " :End of NAMES list\r\n"@
}

/// The answer to a ping: `PONG guyot-gondange.fr <token>`, closed by
/// CR LF.
pub open spec fn pong_text(token: Seq<char>) -> Seq<char> {
    "PONG guyot-gondange.fr "@ + token + "\r\n"@
}

/// `:<nick>!<nick>@<domain> PRIVMSG <channel> :<content>`, closed by CR LF.
pub open spec fn priv_text(
    nick: Seq<char>,
    domain: Seq<char>,
    channel: Seq<char>,
    content: Seq<char>,
) -> Seq<char> {
    ":"@ + nick + "!"@ + nick + "@"@ + domain + " PRIVMSG "@ + channel + " :"@ + content + "\r\n"@
}

/// `:<nick>!<nick>@<domain> PART <channel> :<content>`, closed by CR LF.
pub open spec fn part_text(
    nick: Seq<char>,
    domain: Seq<char>,
    channel: Seq<char>,
    content: Seq<char>,
) -> Seq<char> {
    ":"@ + nick + "!"@ + nick + "@"@ + domain + " PART "@ + channel + " :"@ + content + "\r\n"@
}

/// Builds a numeric reply of the server.
pub fn generate_response(code: u16, nick: String, content: String) -> (line: String)
    ensures
        line@ == response_text(code as nat, nick@, content@),
{
    let mut line = String::from_str(":guyot-gondange.fr ");
    push_three_digits(&mut line, code);
    line.append(" ");
    line.append(nick.as_str());
    line.append(" :");
    line.append(content.as_str());
    line.append("\r\n");
    line
}

/// The first line a client receives.
pub fn welcome_reply(nick: String) -> (line: String)
    ensures
        line@ == welcome_text(nick@),
{
    generate_response(1, nick, String::from_str("Bienvenue sur notre serveur sûr et efficace !"))
}

/// The line that tells a channel, and the client itself, that it joined.
pub fn join_message(nick: String, domain: String, channel: String) -> (line: String)
    ensures
        line@ == join_text(nick@, domain@, channel@),
{
    let mut line = String::from_str(":");
    line.append(nick.as_str());
    line.append("!");
    line.append(nick.as_str());
    line.append("@");
    line.append(domain.as_str());
    line.append(" JOIN ");
    line.append(channel.as_str());
    line.append("\r\n");
    line
}

/// The topic line sent to a client that joined `channel`.
pub fn join_header(nick: String, channel: &Channel) -> (line: String)
    ensures
        line@ == header_text(nick@, channel@.name, channel@.description),
{
    let mut line = String::from_str(":guyot-gondange.fr 332 ");
    line.append(nick.as_str());
    line.append(" ");
    line.append(channel.name.as_str());
    line.append(" :");
    line.append(channel.description.as_str());
    line.append("\r\n");
    line
}

/// The member list sent to a client that joined `channel`.
pub fn join_members(nick: String, channel: &Channel) -> (line: String)
    ensures
        line@ == members_text(nick@, channel@.name, channel@.clients),
{
    let mut names = String::new();
    let n = channel.clients.len();
    let mut i: usize = 0;
    while i < n
        invariant
            n == channel.clients.len(),
            i <= n,
            names@ == names_text(channel@.clients.take(i as int)),
        decreases n - i,
    {
        proof {
            let ghost next = channel@.clients.take(i + 1);
            assert(next.drop_last() =~= channel@.clients.take(i as int));
            assert(next.last() == channel.clients[i as int]@);
        }
        names.append(channel.clients[i].username.as_str());
        names.append(" ");
        i += 1;
    }
    assert(channel@.clients.take(n as int) =~= channel@.clients);
    let mut line = String::from_str(":guyot-gondange.fr 353 ");
    line.append(nick.as_str());
    line.append(" = ");
    line.append(channel.name.as_str());
    line.append(" :");
    line.append(names.as_str());
    line.append("\r\n");
    line
}

/// The line that closes the member list.
pub fn join_end_members(nick: String, channel: &Channel) -> (line: String)
    ensures
        line@ == end_members_text(nick@, channel@.name),
{
    let mut line = String::from_str(":guyot-gondange.fr 366 ");
    line.append(nick.as_str());
    line.append(" ");
    line.append(channel.name.as_str());
    line.append(" :End of NAMES list\r\n");
    line
}

/// The answer to `PING <token>`.
pub fn pong(domain: String) -> (line: String)
    ensures
        line@ == pong_text(domain@),
{
    let mut line = String::from_str("PONG guyot-gondange.fr ");
    line.append(domain.as_str());
    line.append("\r\n");
    line
}

/// The line that carries a message to the members of a channel.
pub fn priv_msg(nick: String, domain: String, channel: String, content: String) -> (line: String)
    ensures
        line@ == priv_text(nick@, domain@, channel@, content@),
{
    let mut line = String::from_str(":");
    line.append(nick.as_str());
    line.append("!");
    line.append(nick.as_str());
    line.append("@");
    line.append(domain.as_str());
    line.append(" PRIVMSG ");
    line.append(channel.as_str());
    line.append(" :");
    line.append(content.as_str());
    line.append("\r\n");
    line
}

/// The line that tells a channel, and the client itself, that it left.
pub fn part_msg(nick: String, domain: String, channel: String, content: String) -> (line: String)
    ensures
        line@ == part_text(nick@, domain@, channel@, content@),
{
    let mut line = String::from_str(":");
    line.append(nick.as_str());
    line.append("!");
    line.append(nick.as_str());
    line.append("@");
    line.append(domain.as_str());
    line.append(" PART ");
    line.append(channel.as_str());
    line.append(" :");
    line.append(content.as_str());
    line.append("\r\n");
    line
}

} // verus!
