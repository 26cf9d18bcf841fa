//! The center client: the envelopes it sends, how it renders what it
//! receives, and the address of the server it dials.

pub mod message;
pub mod connection;
