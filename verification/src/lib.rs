//! Network synchronization layer for a client/server game: the wire message
//! format, the transport-side message queues and peer registry, and the
//! per-tick drain/dispatch/broadcast logic of both sides.
//!
//! Socket I/O itself (binding, sending and receiving UDP datagrams) lives
//! outside this library; callers feed received datagrams into the queues here
//! and transmit the datagrams these functions hand back.

pub mod codec;
pub mod game_message;
pub mod transport;
pub mod udp_client;
pub mod udp_server;
