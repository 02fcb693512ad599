//! Messages as they are shown on a terminal: dated, and styled with ANSI
//! escape codes.

use vstd::prelude::*;
use vstd::string::*;

verus! {

/// A point in time, in UTC.
#[derive(Clone, Copy, Debug, PartialEq, Eq, Structural)]
pub struct Timestamp {
    /// Whole seconds since 1970-01-01 00:00:00, leap seconds not counted.
    pub seconds: i64,
    /// Nanoseconds past that second. A thousand million or more stands for
    /// a leap second, which can only follow the last second of a minute.
    pub nanos: u32,
}

/// The dates that RFC 2822 can write: those of the years 0 to 9999, with
/// nanoseconds below a thousand million, or below two thousand million in
/// the last second of a minute.
pub open spec fn is_datable(date: Timestamp) -> bool {
    &&& -62_167_219_200 <= date.seconds <= 253_402_300_799
    &&& (date.nanos < 1_000_000_000 || (date.nanos < 2_000_000_000 && date.seconds % 60 == 59))
}

impl Timestamp {
    /// Whether RFC 2822 can write this date.
    pub fn datable(&self) -> (yes: bool)
        ensures
            yes == is_datable(*self),
    {
        if self.seconds < -62_167_219_200 || self.seconds > 253_402_300_799 {
            return false;
        }
        // The first second of year 0 starts a minute.
        let second_of_minute: i64 = (self.seconds + 62_167_219_200) % 60;
        self.nanos < 1_000_000_000 || (self.nanos < 2_000_000_000 && second_of_minute == 59)
    }
}

/// The date and time `seconds` after 1970-01-01 00:00:00 UTC, written as
/// RFC 2822 asks, in UTC: such as `Tue, 1 Jul 2003 10:52:37 +0000`. With
/// `nanos` of a thousand million or more the second is written as `60`.
pub uninterp spec fn rfc2822_text(seconds: i64, nanos: u32) -> Seq<char>;

/// Writes a time as an RFC 2822 date.
///
/// Trusted: calls `DateTime::from_timestamp` of the crate `chrono`, which
/// gives the UTC date and time for a number of seconds since the epoch and
/// a number of nanoseconds, and `DateTime::to_rfc2822`, which writes it.
/// The text depends on the two numbers alone. `to_rfc2822` panics for a
/// year outside 0 to 9999, and `from_timestamp` gives a date for every
/// pair that `is_datable` admits.
#[verifier::external_body]
fn rfc2822(date: Timestamp) -> (text: String)
    requires
        is_datable(date),
    ensures
        text@ == rfc2822_text(date.seconds, date.nanos),
{
    match chrono::DateTime::from_timestamp(date.seconds, date.nanos) {
        Some(date) => date.to_rfc2822(),
        None => String::new(),
    }
}

/// `text` in italics: between the codes that switch italics on and all
/// styles off.
pub open spec fn italic_text(text: Seq<char>) -> Seq<char> {
    "\x1b[3m"@ + text + "\x1b[0m"@
}

/// `text` in bold red: between the codes that switch bold and red on and
/// all styles off.
pub open spec fn bold_red_text(text: Seq<char>) -> Seq<char> {
    "\x1b[1;31m"@ + text + "\x1b[0m"@
}

/// Styles `text` as italic.
///
/// Trusted: calls `Style::new`, `Style::italic` and `Style::paint` of the
/// crate `ansi_term` and writes the result out, which puts `ESC [ 3 m`
/// before the text and `ESC [ 0 m` after it.
#[verifier::external_body]
fn paint_italic(text: &str) -> (painted: String)
    ensures
        painted@ == italic_text(text@),
{
    ansi_term::Style::new().italic().paint(text).to_string()
}

/// Styles `text` as bold and red.
///
/// Trusted: calls `Colour::bold` on `Colour::Red` and `Style::paint` of the
/// crate `ansi_term` and writes the result out, which puts `ESC [ 1 ; 3 1 m`
/// before the text and `ESC [ 0 m` after it.
#[verifier::external_body]
fn paint_bold_red(text: &str) -> (painted: String)
    ensures
        painted@ == bold_red_text(text@),
{
    ansi_term::Colour::Red.bold().paint(text).to_string()
}

/// The line for what a user said: `[<date>] <username> <content>`, the
/// name in italics, closed by CR LF.
pub open spec fn user_text(date: Seq<char>, username: Seq<char>, content: Seq<char>) -> Seq<char> {
    "["@ + date + "] "@ + italic_text(username) + " "@ + content + "\r\n"@
}

/// The line for what the system says: `[<date>] SYSTEM <content>` and
/// CR LF, all of it in bold red.
pub open spec fn system_text(date: Seq<char>, content: Seq<char>) -> Seq<char> {
    bold_red_text("["@ + date + "] SYSTEM "@ + content + "\r\n"@)
}

/// Builds the line for what a user said, from the date as text.
pub fn user_line(date: &str, username: &str, content: &str) -> (line: String)
    ensures
        line@ == user_text(date@, username@, content@),
{
    let painted = paint_italic(username);
    let mut line = String::from_str("[");
    line.append(date);
    line.append("] ");
    line.append(painted.as_str());
    line.append(" ");
    line.append(content);
    line.append("\r\n");
    line
}

/// Builds the line for what the system says, from the date as text.
pub fn system_line(date: &str, content: &str) -> (line: String)
    ensures
        line@ == system_text(date@, content@),
{
    let mut plain = String::from_str("[");
    plain.append(date);
    plain.append("] SYSTEM ");
    plain.append(content);
    plain.append("\r\n");
    paint_bold_red(plain.as_str())
}

/// Something a user said.
#[derive(Debug)]
pub struct UserMessage {
    pub username: String,
    pub content: String,
    /// When it was said.
    pub date: Timestamp,
}

/// Something the server itself says.
#[derive(Debug)]
pub struct SystemMessage {
    pub content: String,
    /// When it was said.
    pub date: Timestamp,
}

/// A message that can be shown on a terminal.
pub trait Message {
    /// Whether the message can be shown: its date can be written.
    spec fn showable(&self) -> bool;

    /// The line that shows the message.
    spec fn shown(&self) -> Seq<char>;

    /// Writes the message as one line for a terminal.
    fn beautify(&self) -> (line: String)
        requires
            self.showable(),
        ensures
            line@ == self.shown(),
    ;
}

impl Message for UserMessage {
    open spec fn showable(&self) -> bool {
        is_datable(self.date)
    }

    open spec fn shown(&self) -> Seq<char> {
        user_text(rfc2822_text(self.date.seconds, self.date.nanos), self.username@, self.content@)
    }

    fn beautify(&self) -> (line: String) {
        let date = rfc2822(self.date);
        user_line(date.as_str(), self.username.as_str(), self.content.as_str())
    }
}

impl Message for SystemMessage {
    open spec fn showable(&self) -> bool {
        is_datable(self.date)
    }

    open spec fn shown(&self) -> Seq<char> {
        system_text(rfc2822_text(self.date.seconds, self.date.nanos), self.content@)
    }

    fn beautify(&self) -> (line: String) {
        let date = rfc2822(self.date);
        system_line(date.as_str(), self.content.as_str())
    }
}

} // verus!
