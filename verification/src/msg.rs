//! The messages that a client and a server exchange.
use vstd::prelude::*;
use vstd::string::*;

use crate::text::texts;

verus! {

/// A client that asks for a session.
#[derive(Debug)]
pub struct Login {
    pub version: String,
    pub hostname: String,
    pub os: String,
    pub arch: String,
    pub user: String,
    pub agent_id: String,
    pub auth_digest: String,
    pub timestamp: i64,
    /// The session that it had before, if any.
    pub session_id: String,
    pub pool_count: i32,
}

/// The answer to a login; a login that was not accepted has an error.
#[derive(Debug)]
pub struct LoginResp {
    pub version: String,
    pub session_id: String,
    pub error: String,
}

/// A client that asks for a tunnel.
///
/// The limit on its traffic is a number of the format IEEE 754 binary64, given by
/// its 64 bits.
#[derive(Debug)]
pub struct NewTunnel {
    pub tunnel_name: String,
    pub protocol: String,
    pub remote_port: i32,
    pub local_ip: String,
    pub local_port: i32,
    pub domains: Vec<String>,
    pub locations: Vec<String>,
    pub basic_auth_user: String,
    pub basic_auth_password: String,
    pub host_header_rewrite: String,
    pub headers: Vec<(String, String)>,
    pub response_headers: Vec<(String, String)>,
    pub bandwidth_bits: u64,
    pub bandwidth_limit_side: String,
}

#[verifier::ext_equal]
pub struct NewTunnelView {
    pub tunnel_name: Seq<char>,
    pub protocol: Seq<char>,
    pub remote_port: i32,
    pub local_ip: Seq<char>,
    pub local_port: i32,
    pub domains: Seq<Seq<char>>,
    pub locations: Seq<Seq<char>>,
    pub basic_auth_user: Seq<char>,
    pub basic_auth_password: Seq<char>,
    pub host_header_rewrite: Seq<char>,
    pub headers: Seq<(String, String)>,
    pub response_headers: Seq<(String, String)>,
    pub bandwidth_bits: u64,
    pub bandwidth_limit_side: Seq<char>,
}

impl View for NewTunnel {
    type V = NewTunnelView;

    open spec fn view(&self) -> NewTunnelView {
        NewTunnelView {
            tunnel_name: self.tunnel_name@,
            protocol: self.protocol@,
            remote_port: self.remote_port,
            local_ip: self.local_ip@,
            local_port: self.local_port,
            domains: texts(self.domains@),
            locations: texts(self.locations@),
            basic_auth_user: self.basic_auth_user@,
            basic_auth_password: self.basic_auth_password@,
            host_header_rewrite: self.host_header_rewrite@,
            headers: self.headers@,
            response_headers: self.response_headers@,
            bandwidth_bits: self.bandwidth_bits,
            bandwidth_limit_side: self.bandwidth_limit_side@,
        }
    }
}

/// The answer to a client that asked for a tunnel: where it can be reached, or why
/// it was not started.
#[derive(Debug)]
pub struct NewTunnelResp {
    pub tunnel_name: String,
    pub remote_addr: String,
    pub error: String,
}

/// A client that gives a tunnel up.
#[derive(Debug)]
pub struct CloseTunnel {
    pub tunnel_name: String,
}

/// A client that offers a connection for data.
#[derive(Debug)]
pub struct NewDataConn {
    pub session_id: String,
    pub auth_digest: String,
    pub timestamp: i64,
}

/// A server that takes a connection for data into use.
#[derive(Debug)]
pub struct StartDataConn {
    pub tunnel_name: String,
    pub error: String,
}

/// A sign of life of a client.
#[derive(Debug)]
pub struct Ping {
    pub auth_digest: String,
    pub timestamp: i64,
}

/// A server that throws a client out.
#[derive(Debug)]
pub struct KickOut {
    pub reason: String,
}

} // verus!
