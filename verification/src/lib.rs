//! # `greetd` IPC protocol library
//!
//! This library implements the [greetd](https://git.sr.ht/~kennylevinsen/greetd) IPC protocol, as
//! far as it can be decided without touching a socket.
//!
//! The library exposes a [Request] and a [Response] enum, representing the valid protocol
//! messages. [Greetd] says which requests may be sent at a given moment and gives the bytes to
//! send; [GreetdSource] says what a response leads to. Additional types are part of the different
//! request and response values.
//!
//! # Format
//!
//! The message format is as follows:
//!
//! ```text
//! +----------+-------------------+
//! | len: u32 | JSON payload: str |
//! +----------+-------------------+
//! ```
//!
//! Length is in native byte-order. The JSON payload is a variant of the
//! Request or Response enums.
//!
//! # What is proved
//!
//! Every function states in its contract what it returns. The module `laws` states what holds
//! across several calls, the module `json` what the text of a request is in terms of JSON, and the
//! module `exact` what the texts, the messages and the reactions are, written out.

pub mod exact;
pub mod frame;
pub mod greetd;
pub mod hint;
pub mod json;
pub mod laws;
pub mod request;
pub mod response;
pub mod source;
mod utf8;

pub use frame::{write_msg, ByteOrder};
pub use greetd::{Greetd, GreetdError};
pub use request::Request;
pub use response::{AuthMessageType, ErrorType, ReadStep, Response};
pub use source::{Cancelled, Delivery, GreetdSource, PostAction, Reaction, Registration};
