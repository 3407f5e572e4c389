//! Signs of life on idle TCP connections.
use vstd::prelude::*;

verus! {

pub const DEFAULT_TCP_KEEPALIVE_IDLE_SECS: u64 = 30;

pub const DEFAULT_TCP_KEEPALIVE_INTERVAL_SECS: u64 = 10;

/// When a connection counts as idle and how often it is then probed.
#[derive(Debug, Clone, Copy, PartialEq, Eq, Structural)]
pub struct TcpKeepaliveConfig {
    pub idle_secs: u64,
    pub interval_secs: u64,
}

impl Default for TcpKeepaliveConfig {
    fn default() -> (r: Self)
        ensures
            r == (TcpKeepaliveConfig {
                idle_secs: DEFAULT_TCP_KEEPALIVE_IDLE_SECS,
                interval_secs: DEFAULT_TCP_KEEPALIVE_INTERVAL_SECS,
            }),
    {
        TcpKeepaliveConfig {
            idle_secs: DEFAULT_TCP_KEEPALIVE_IDLE_SECS,
            interval_secs: DEFAULT_TCP_KEEPALIVE_INTERVAL_SECS,
        }
    }
}

impl TcpKeepaliveConfig {
    /// Settings in which probing without an interval uses the usual one.
    pub fn new(idle_secs: u64, interval_secs: u64) -> (r: TcpKeepaliveConfig)
        ensures
            r.idle_secs == idle_secs,
            r.interval_secs == (if idle_secs > 0 && interval_secs == 0 {
                DEFAULT_TCP_KEEPALIVE_INTERVAL_SECS
            } else {
                interval_secs
            }),
    {
        TcpKeepaliveConfig {
            idle_secs,
            interval_secs: if idle_secs > 0 && interval_secs == 0 {
                DEFAULT_TCP_KEEPALIVE_INTERVAL_SECS
            } else {
                interval_secs
            },
        }
    }

    /// Whether idle connections are probed.
    pub fn enabled(self) -> (r: bool)
        ensures
            r == (self.idle_secs > 0),
    {
        self.idle_secs > 0
    }

    /// What to set on a socket: the seconds until the first probe and those between
    /// probes, at least one; nothing where idle connections are not probed.
    pub fn probe_secs(self) -> (r: Option<(u64, u64)>)
        ensures
            r == (if self.idle_secs == 0 {
                None::<(u64, u64)>
            } else if self.interval_secs == 0 {
                Some((self.idle_secs, 1u64))
            } else {
                Some((self.idle_secs, self.interval_secs))
            }),
    {
        if !self.enabled() {
            None
        } else if self.interval_secs == 0 {
            Some((self.idle_secs, 1))
        } else {
            Some((self.idle_secs, self.interval_secs))
        }
    }
}

} // verus!
