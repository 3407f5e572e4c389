//! The settings of the client and of the server: defaults, completion, checks.
pub mod client;
pub mod client_laws;
pub mod host_port;
pub mod host_port_laws;
pub mod message_laws;
pub mod server;
pub mod server_laws;
