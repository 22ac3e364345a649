//! The packets of the four phases, clientbound and serverbound.
pub mod client;
pub mod server;
