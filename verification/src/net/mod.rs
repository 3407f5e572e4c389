//! What passes between a visitor and a service.
pub mod http_lines;
pub mod tcp;
pub mod xff;
