//! What a client is doing.
use vstd::prelude::*;

verus! {

#[derive(Debug, Clone, Copy, PartialEq, Eq, Structural)]
pub enum ClientStatus {
    Stopped,
    Starting,
    Running,
    Reconnecting,
    Stopping,
}

impl ClientStatus {
    /// Whether a client is at work, be it to stop.
    pub fn is_active(self) -> (r: bool)
        ensures
            r == (self != ClientStatus::Stopped),
    {
        match self {
            ClientStatus::Starting | ClientStatus::Running | ClientStatus::Reconnecting
            | ClientStatus::Stopping => true,
            ClientStatus::Stopped => false,
        }
    }
}

} // verus!
