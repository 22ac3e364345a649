//! Serverbound packets: what this client sends to the server.
pub mod handshake;
pub mod login;
pub mod status;
