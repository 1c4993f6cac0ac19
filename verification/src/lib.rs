//! Core of a minimal handshake and discovery server: the protocol data
//! model, the stateless handshake service, the construction of endpoint
//! announcement events, and the start-up decision for the paired transports.
pub mod encoding;
pub mod protocol;
pub mod server;
