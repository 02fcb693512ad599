//! The session and channel engine of a small IRC-like chat server.
//!
//! Each worker of the server owns one piece of state and is written here as
//! a step function: it takes the state and one event and returns what has
//! to be sent on, in order. Reading sockets, writing to them and moving
//! events between the workers is left to the program around this library.

pub mod channels;
pub mod client_handler;
pub mod guarantees;
pub mod messages;
pub mod postman;
pub mod protocol;
pub mod registration;
pub mod router;
pub mod text;
