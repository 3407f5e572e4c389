//! Asking the server for a tunnel.
use vstd::prelude::*;
use vstd::string::*;

use crate::config::client::{ClientConfigError, ClientFault, TunnelConfig, TunnelView};
use crate::msg::{NewTunnel, NewTunnelView};
use crate::text::{last_of, lower_all, trim};
use crate::text::{copy_texts, find_last_end, same, to_chars, trim_lower, trim_str};
use crate::text::{lemma_last_of, lemma_trim_ends, lemma_trim_tight};

verus! {

/// The side on which traffic is limited, as it is sent: the client limits its own
/// traffic, so that its side goes without saying.
pub open spec fn sent_side(side: Seq<char>) -> Seq<char> {
    let s = lower_all(trim(side));
    if s == "client"@ {
        ""@
    } else {
        s
    }
}

pub fn omit_client_side(side: &str) -> (r: String)
    ensures
        r@ == sent_side(side@),
{
    let s = trim_lower(side);
    if same(s.as_str(), "client") {
        "".to_owned()
    } else {
        s
    }
}

/// The host part of a server address: what stands before its last colon.
pub open spec fn server_part(server: Seq<char>) -> Seq<char> {
    let s = trim(server);
    if s.contains(':') {
        s.take(last_of(s, ':'))
    } else {
        s
    }
}

/// Where a tunnel can be reached, by what the server says: a bare port is one of the
/// server itself.
pub open spec fn remote_shown(server: Seq<char>, remote: Seq<char>) -> Seq<char> {
    let r = trim(remote);
    if r.len() > 1 && r[0] == ':' && server_part(server).len() > 0 {
        server_part(server) + r
    } else {
        r
    }
}

pub fn normalize_remote_addr(server_addr: &str, remote_addr: &str) -> (r: String)
    ensures
        r@ == remote_shown(server_addr@, remote_addr@),
{
    let remote = trim_str(remote_addr);
    let n: usize = remote.unicode_len();
    if n == 0 || remote.get_char(0) != ':' {
        return remote.to_owned();
    }
    let server = trim_str(server_addr);
    let v = to_chars(server);
    let end = find_last_end(v.as_slice(), ':');
    proof {
        lemma_last_of(server@, ':');
    }
    let host = if end > 0 {
        server.substring_char(0, end - 1)
    } else {
        server
    };
    assert(host@ =~= server_part(server_addr@));
    if !host.is_empty() && n > 1 {
        host.to_owned().concat(remote)
    } else {
        remote.to_owned()
    }
}

/// Why a tunnel is not asked for.
#[derive(Debug)]
pub enum TunnelError {
    Service(ClientConfigError),
    ServiceMissing { name: String },
    RemotePortMissing { name: String, protocol: String },
    Protocol { name: String, protocol: String },
}

pub enum TunnelFault {
    Service(ClientFault),
    ServiceMissing { name: Seq<char> },
    RemotePortMissing { name: Seq<char>, protocol: Seq<char> },
    Protocol { name: Seq<char>, protocol: Seq<char> },
}

impl View for TunnelError {
    type V = TunnelFault;

    open spec fn view(&self) -> TunnelFault {
        match *self {
            TunnelError::Service(e) => TunnelFault::Service(e@),
            TunnelError::ServiceMissing { name } => TunnelFault::ServiceMissing { name: name@ },
            TunnelError::RemotePortMissing { name, protocol } => TunnelFault::RemotePortMissing {
                name: name@,
                protocol: protocol@,
            },
            TunnelError::Protocol { name, protocol } => TunnelFault::Protocol {
                name: name@,
                protocol: protocol@,
            },
        }
    }
}

impl TunnelFault {
    /// The text that tells a user what is wrong; what is wrong with a service never
    /// holds a number.
    pub open spec fn text(self) -> Seq<char> {
        match self {
            TunnelFault::Service(e) => e.text(""@),
            TunnelFault::ServiceMissing { name } => "tunnel `"@ + name
                + "` requires service = \"host:port\" (local backend)"@,
            TunnelFault::RemotePortMissing { name, protocol } => "tunnel `"@ + name + "` type "@
                + protocol + " requires remotePort > 0"@,
            TunnelFault::Protocol { name, protocol } => "tunnel `"@ + name
                + "` unsupported protocol "@ + protocol,
        }
    }
}

impl TunnelError {
    pub fn message(&self) -> (r: String)
        ensures
            r@ == self@.text(),
    {
        match self {
            TunnelError::Service(e) => e.message(""),
            TunnelError::ServiceMissing { name } => "tunnel `".to_owned().concat(
                name.as_str(),
            ).concat("` requires service = \"host:port\" (local backend)"),
            TunnelError::RemotePortMissing { name, protocol } => "tunnel `".to_owned().concat(
                name.as_str(),
            ).concat("` type ").concat(protocol.as_str()).concat(" requires remotePort > 0"),
            TunnelError::Protocol { name, protocol } => "tunnel `".to_owned().concat(
                name.as_str(),
            ).concat("` unsupported protocol ").concat(protocol.as_str()),
        }
    }
}

/// Whether a tunnel is one of a port of the server.
pub open spec fn is_port_tunnel(protocol: Seq<char>) -> bool {
    protocol == "tcp"@ || protocol == "udp"@
}

pub open spec fn is_known_tunnel(protocol: Seq<char>) -> bool {
    is_port_tunnel(protocol) || protocol == "http"@ || protocol == "https"@
}

/// What keeps a tunnel from being asked for.
pub open spec fn tunnel_fault(t: TunnelView) -> Option<TunnelFault> {
    match t.service_addr() {
        Err(e) => Some(TunnelFault::Service(e)),
        Ok((_, port)) => if !t.has_plugin() && port == 0 {
            Some(TunnelFault::ServiceMissing { name: t.name })
        } else if t.remote_port == 0 && is_port_tunnel(t.protocol) {
            Some(TunnelFault::RemotePortMissing { name: t.name, protocol: t.protocol })
        } else if !is_known_tunnel(t.protocol) {
            Some(TunnelFault::Protocol { name: t.name, protocol: t.protocol })
        } else {
            None
        },
    }
}

/// What is wrong with the service of a tunnel is told without a number.
pub proof fn service_faults_hold_no_number(t: TunnelView, number: Seq<char>)
    ensures
        tunnel_fault(t) matches Some(TunnelFault::Service(e)) ==> e.text(number) == e.text(""@),
{
}

fn is_port(protocol: &str) -> (r: bool)
    ensures
        r == is_port_tunnel(protocol@),
{
    same(protocol, "tcp") || same(protocol, "udp")
}

/// Checks what the server will need to know of a tunnel.
pub fn validate_tunnel(p: &TunnelConfig) -> (r: Result<(), TunnelError>)
    ensures
        match r {
            Ok(_) => tunnel_fault(p@) is None,
            Err(e) => tunnel_fault(p@) == Some(e@),
        },
{
    let (_, port) = match p.service_host_port() {
        Ok(hp) => hp,
        Err(e) => {
            return Err(TunnelError::Service(e));
        },
    };
    if p.requires_local_service() && port == 0 {
        return Err(TunnelError::ServiceMissing { name: p.name.clone() });
    }
    if p.remote_port == 0 && is_port(p.protocol.as_str()) {
        return Err(
            TunnelError::RemotePortMissing { name: p.name.clone(), protocol: p.protocol.clone() },
        );
    }
    if is_port(p.protocol.as_str()) || same(p.protocol.as_str(), "http") || same(
        p.protocol.as_str(),
        "https",
    ) {
        Ok(())
    } else {
        Err(TunnelError::Protocol { name: p.name.clone(), protocol: p.protocol.clone() })
    }
}

/// What every tunnel is asked for with.
pub open spec fn tunnel_base(t: TunnelView, local_ip: Seq<char>, local_port: u16) -> NewTunnelView {
    NewTunnelView {
        tunnel_name: t.name,
        protocol: t.protocol,
        remote_port: if is_port_tunnel(t.protocol) {
            t.remote_port as i32
        } else {
            0
        },
        local_ip,
        local_port: local_port as i32,
        domains: seq![],
        locations: seq![],
        basic_auth_user: ""@,
        basic_auth_password: ""@,
        host_header_rewrite: ""@,
        headers: seq![],
        response_headers: seq![],
        bandwidth_bits: t.transport.bandwidth_bits,
        bandwidth_limit_side: sent_side(t.transport.bandwidth_limit_side),
    }
}

/// The request for a tunnel: one of a port names the port, one of web domains the
/// domains, and one that speaks HTTP also what the server does with requests.
pub open spec fn tunnel_request(t: TunnelView) -> Result<NewTunnelView, TunnelFault> {
    match t.service_addr() {
        Err(e) => Err(TunnelFault::Service(e)),
        Ok((local_ip, local_port)) => {
            let base = tunnel_base(t, local_ip, local_port);
            if is_port_tunnel(t.protocol) {
                Ok(base)
            } else if t.protocol == "http"@ {
                Ok(
                    NewTunnelView {
                        domains: t.domains,
                        locations: t.locations,
                        basic_auth_user: t.basic_auth_user,
                        basic_auth_password: t.basic_auth_password,
                        host_header_rewrite: t.host_header_rewrite,
                        ..base
                    },
                )
            } else if t.protocol == "https"@ {
                Ok(NewTunnelView { domains: t.domains, ..base })
            } else {
                Err(TunnelFault::Protocol { name: t.name, protocol: t.protocol })
            }
        },
    }
}

fn new_tunnel_base(p: &TunnelConfig, local_ip: String, local_port: u16) -> (r: NewTunnel)
    ensures
        r@ == tunnel_base(p@, local_ip@, local_port),
{
    let ghost ip = local_ip@;
    let remote_port: i32 = if is_port(p.protocol.as_str()) {
        p.remote_port as i32
    } else {
        0
    };
    let r = NewTunnel {
        tunnel_name: p.name.clone(),
        protocol: p.protocol.clone(),
        remote_port,
        local_ip,
        local_port: local_port as i32,
        domains: Vec::new(),
        locations: Vec::new(),
        basic_auth_user: "".to_owned(),
        basic_auth_password: "".to_owned(),
        host_header_rewrite: "".to_owned(),
        headers: Vec::new(),
        response_headers: Vec::new(),
        bandwidth_bits: p.transport.bandwidth_bits,
        bandwidth_limit_side: omit_client_side(p.transport.bandwidth_limit_side.as_str()),
    };
    assert(r@ =~= tunnel_base(p@, ip, local_port));
    r
}

/// Writes the request for a tunnel.
pub fn build_new_tunnel_message(p: &TunnelConfig) -> (r: Result<NewTunnel, TunnelError>)
    ensures
        match r {
            Ok(m) => tunnel_request(p@) == Ok::<NewTunnelView, TunnelFault>(m@),
            Err(e) => tunnel_request(p@) == Err::<NewTunnelView, TunnelFault>(e@),
        },
{
    let (local_ip, local_port) = match p.service_host_port() {
        Ok(hp) => hp,
        Err(e) => {
            return Err(TunnelError::Service(e));
        },
    };
    let ghost ip = local_ip@;
    let mut np = new_tunnel_base(p, local_ip, local_port);
    if is_port(p.protocol.as_str()) {
        Ok(np)
    } else if same(p.protocol.as_str(), "http") {
        np.domains = copy_texts(&p.domains);
        np.locations = copy_texts(&p.locations);
        np.basic_auth_user = p.basic_auth_user.clone();
        np.basic_auth_password = p.basic_auth_password.clone();
        np.host_header_rewrite = p.host_header_rewrite.clone();
        assert(np@ =~= NewTunnelView {
            domains: p@.domains,
            locations: p@.locations,
            basic_auth_user: p@.basic_auth_user,
            basic_auth_password: p@.basic_auth_password,
            host_header_rewrite: p@.host_header_rewrite,
            ..tunnel_base(p@, ip, local_port)
        });
        Ok(np)
    } else if same(p.protocol.as_str(), "https") {
        np.domains = copy_texts(&p.domains);
        assert(np@ =~= NewTunnelView {
            domains: p@.domains,
            ..tunnel_base(p@, ip, local_port)
        });
        Ok(np)
    } else {
        Err(TunnelError::Protocol { name: p.name.clone(), protocol: p.protocol.clone() })
    }
}

/// A tunnel that passes the check can be asked for.
pub proof fn checked_tunnels_can_be_asked_for(t: TunnelView)
    ensures
        tunnel_fault(t) is None ==> tunnel_request(t) is Ok,
{
}

/// A tunnel of a port names that port; no other tunnel names one.
pub proof fn only_port_tunnels_name_a_port(t: TunnelView)
    requires
        tunnel_fault(t) is None,
    ensures
        ({
            let m = tunnel_request(t)->Ok_0;
            &&& is_port_tunnel(t.protocol) ==> 1 <= m.remote_port <= 65535 && m.remote_port
                == t.remote_port
            &&& !is_port_tunnel(t.protocol) ==> m.remote_port == 0
        }),
{
    reveal_strlit("http");
    reveal_strlit("https");
    reveal_strlit("tcp");
    reveal_strlit("udp");
    assert("http"@[0] == 'h' && "https"@[0] == 'h' && "tcp"@[0] == 't' && "udp"@[0] == 'u');
}

/// What is shown of an address stays as it is when shown again, unless a host that
/// begins with a colon was put before it.
pub proof fn shown_address_settles(server: Seq<char>, remote: Seq<char>)
    requires
        remote_shown(server, remote) == trim(remote) || server_part(server)[0] != ':',
    ensures
        remote_shown(server, remote_shown(server, remote)) == remote_shown(server, remote),
{
    let r = trim(remote);
    let host = server_part(server);
    let shown = remote_shown(server, remote);
    lemma_trim_ends(remote);
    lemma_trim_ends(server);
    lemma_last_of(trim(server), ':');
    if shown != r {
        assert(shown.last() == r.last());
        assert(shown[0] == host[0]);
        assert(host[0] == trim(server)[0]);
        lemma_trim_tight(shown);
    }
}

} // verus!
