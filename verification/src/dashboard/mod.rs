//! What the server shows of itself in a browser.
pub mod assets;
pub mod auth;
pub mod clock;
pub mod pages;
pub mod request_laws;
pub mod snapshot;
pub mod snapshot_laws;
pub mod system;
pub mod url;
