//! A real-time text relay: peers connect, identify themselves, and every
//! message one of them sends is handed to all the others.
//!
//! `codec` reads and writes the wire envelope, `registry` holds the connected
//! peers and fans messages out, `connection` decides what each transport
//! event does to a connection and to the registry, and `config` holds the
//! process settings.

pub mod message;
pub mod codec;
pub mod registry;
pub mod connection;
pub mod config;

pub use codec::{decode, encode, DecodeError};
pub use config::{string_to_log_level, LogLevel, LogSettings, ServerSettings, Settings};
pub use connection::{Connection, ConnectionEvent, ConnectionState, Outcome};
pub use message::ChatMessage;
pub use registry::{BroadcastReport, Delivery, PeerRegistry};
