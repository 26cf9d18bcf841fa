//! A relay for a group chat between two kinds of clients, "center" and
//! "local". The relay server admits at most one client of each kind per
//! group, rewrites the envelope of every message it receives, forwards the
//! message to the other member of the group, and drops clients whose
//! heartbeat has gone silent. The center side of the library builds the
//! envelopes a client sends and renders those it receives.

mod text;
mod table;
pub mod remote;
pub mod center;
pub mod laws;
