//! Network clipboard synchronisation: the wire framing, the content model,
//! the server-side history store, the configuration model and the decisions
//! that the server, the client and the history command take on each message.
//!
//! Everything here is verified with Verus; sockets, timers, the platform
//! clipboard and (de)serialisation live in the application around it.

pub mod buffer;
pub mod client;
pub mod clipboard;
pub mod config;
pub mod discovery;
pub mod history;
pub mod png;
pub mod protocol;
pub mod server;
pub mod text;

