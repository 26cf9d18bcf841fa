//! The relay server: the table of connected clients, the envelopes the
//! server writes, the heartbeat bookkeeping and the per-client session steps.

pub mod connection;
pub mod message;
pub mod heartbeat;
pub mod handler;
