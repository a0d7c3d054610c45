//! A multi-client chat relay: the wire protocol, its framing, the per-connection
//! state machine, the registry of live sessions with its broadcast fan-out, and
//! the pure parts of the credential store and the client; and the line-oriented
//! text transformations.
pub mod client;
pub mod connection;
pub mod framing;
pub mod protocol;
pub mod registry;
pub mod store;
pub mod transform;
