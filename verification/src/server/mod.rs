//! The server: it keeps the sessions of its clients and opens their tunnels to the
//! world.
pub mod control;
pub mod hour_counter;
pub mod ports;
pub mod register;
pub mod register_laws;
pub mod service;
pub mod session_laws;
