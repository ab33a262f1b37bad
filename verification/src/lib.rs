//! Core logic of a WebSocket username-search gateway.
//!
//! The library holds the verified pieces of the gateway: the frame codec for
//! the JSON wire protocol, the per-connection session state machine with its
//! authentication gate and heartbeat liveness protocol, the outbound frame
//! queue that keeps writes from several logical producers ordered, the
//! request router of the accept path, and the builder for search-backend
//! queries. All I/O (sockets, HTTP upgrades, timers, the search backend's
//! HTTP round trip) lives outside the library and talks to it through plain
//! values: frames in, frames and actions out.

pub mod codec;
pub mod json;
pub mod queue;
pub mod route;
pub mod search;
pub mod session;
pub mod tools;
