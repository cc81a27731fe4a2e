//! A bidirectional message relay bridging a component-based publish/subscribe
//! abstraction onto WebSocket transport.
//!
//! The crate verifies the relay's decision logic: configuration resolution,
//! the wire-envelope codec, the component directory, the session registry and
//! the routing rules. The surrounding I/O (sockets, tasks, timers) is left to
//! an embedding binary, which drives this library with plain values.

pub mod codec;
pub mod config;
pub mod errors;
pub mod hex;
pub mod message;
pub mod provider;
pub mod server;
pub mod session;
pub mod smap;
pub mod tasks;
pub mod wire;

pub use config::{default_session_tracking, default_timeout, default_uri};
pub use config::{ConnectionConfig, Mode};
pub use errors::RelayError;
pub use message::BrokerMessage;
pub use provider::{SendRoute, WebSocketClientBundle, WebSocketMessagingProvider};
pub use server::ServerState;
pub use session::SessionInfo;
