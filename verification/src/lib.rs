//! Verified core of the Orbien tunnel client and server.
pub mod client;
pub mod config;
pub mod dashboard;
pub mod msg;
pub mod mux;
pub mod names;
pub mod net;
pub mod order;
pub mod server;
pub mod text;
pub mod text_laws;
pub mod transport;
pub mod utf8;
