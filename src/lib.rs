//! Protocol core for realtime servers whose clients move their live session
//! between independent authorities.
//!
//! The library holds the application contract ([`Authority`] and its simple
//! form [`SimpleAuthority`]), the tagged wire messages and their codec, the
//! passport transfer protocol and the per-connection lifecycle.

pub mod authority;
pub mod connection;
pub mod identity;
pub mod json;
pub mod text;
pub mod wire;

pub use authority::{Authority, ImportResult, Rejection, Session, SimpleAuthority};
pub use connection::{Admission, Connection, IntentError};
pub use identity::Identity;
pub use json::Json;
pub use text::{from_json, from_json_str, to_json, to_json_string};
pub use wire::{ClientWire, DecodeError, EncodeError, ServerWire, Wire};

use vstd::prelude::*;

verus! {

/// Manifest describing a server's capabilities and requirements.
#[derive(Debug, Clone)]
pub struct Manifest {
    /// Server's identity.
    pub identity: Identity,
    /// Human-readable server name.
    pub name: String,
    /// Substrate hash, if there is one.
    pub substrate: Option<String>,
    /// Additional metadata, defined by the application.
    pub metadata: Json,
}

/// Connection lifecycle state.
#[derive(Debug, Clone, Copy, PartialEq, Eq, Structural)]
pub enum ConnectionState {
    /// Before an authentication message is accepted.
    Connecting,
    /// Authenticated and registered; no snapshot delivered yet.
    Syncing,
    /// First snapshot delivered; intents are accepted.
    Live,
    /// Authority lost while the socket stays open: read-only.
    Ghosted,
}

} // verus!
