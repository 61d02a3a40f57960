//! Control and data client core for a networked distance scanner that speaks
//! a delimiter-framed ASCII command protocol.
//!
//! The crate holds everything that can be decided without touching a socket:
//! the wire encoding of commands, the incremental decoder of inbound
//! telegrams, and the bring-up and ready-poll state machine. A driver feeds it
//! the bytes it reads and performs the telegram writes and pauses it asks for.

pub mod ascii;

pub mod hex;
pub mod telegram;
pub mod grammar;
pub mod decode;
pub mod streaming;
pub mod letter_case;
pub mod encode;
pub mod round_trip;
pub mod codec;
pub mod poller;
pub mod session;
