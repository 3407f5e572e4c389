//! The client: it keeps a session with the server and serves its tunnels.
pub mod change_laws;
pub mod changes;
pub mod connector;
pub mod handle;
pub mod handle_laws;
pub mod register;
pub mod reload;
pub mod request_laws;
pub mod service;
pub mod service_laws;
pub mod session;
pub mod session_laws;
pub mod status;
pub mod tls_term;
