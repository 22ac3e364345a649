//! Clientbound packets: what the server sends to this client.
pub mod login;
pub mod status;
