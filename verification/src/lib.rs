//! Core of a small client that asks a local daemon for per-agent
//! configuration over a stream connection.
//!
//! The crate owns the protocol logic: the length-prefixed wire framing
//! (`codec`), the connect/send/receive/close lifecycle of one framed
//! channel (`channel`), the request text and the interpretation of a
//! response (`message`), and the bounded retry policy that drives one
//! exchange per agent identifier (`driver`).  The actual socket, the
//! console and the clock live outside the crate; they hand byte vectors
//! in and take byte vectors and decisions out.

pub mod channel;
pub mod codec;
pub mod driver;
pub mod errors;
pub mod message;
