//! A registry of named echo-channel sessions and the messages they exchange.
//!
//! The library decides; the program around it performs the socket work. Every
//! operation takes the current time and the outcome of the socket work as
//! plain values and answers with the new registry state and the text or frame
//! that is to be put on the wire.

pub mod text;
pub mod identity;
pub mod payload;
pub mod presence;
pub mod client_server;
