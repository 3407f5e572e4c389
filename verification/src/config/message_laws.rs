//! What the messages about wrong settings, refused tunnels and refused logins tell.
use vstd::prelude::*;

use crate::client::register::TunnelFault;
use crate::client::session::{DataConnError, LoginError};
use crate::config::client::{debug_quoted, ClientFault};
use crate::config::host_port::{host_port_message, HostPortFault};
use crate::config::server::ServerFault;
use crate::server::ports::PortError;
use crate::server::register::RegisterError;
use crate::text::{decimal, decimal_int, ends_with, has_part, part_at, starts_with};

verus! {

proof fn lemma_starts(s: Seq<char>, head: Seq<char>, rest: Seq<char>)
    requires
        s == head + rest,
    ensures
        starts_with(s, head),
{
    assert(s.take(head.len() as int) =~= head);
}

proof fn lemma_ends(s: Seq<char>, rest: Seq<char>, tail: Seq<char>)
    requires
        s == rest + tail,
    ensures
        ends_with(s, tail),
{
    assert(s.skip(s.len() - tail.len()) =~= tail);
}

proof fn lemma_holds(s: Seq<char>, a: Seq<char>, part: Seq<char>, b: Seq<char>)
    requires
        s == a + part + b,
    ensures
        has_part(s, part),
{
    assert(s.subrange(a.len() as int, a.len() as int + part.len()) =~= part);
    assert(part_at(s, part, a.len() as int));
}

/// The name of the tunnel that a fault is about, where it is about one.
pub open spec fn tunnel_at_fault(f: ClientFault) -> Option<Seq<char>> {
    match f {
        ClientFault::TunnelProtocol { name, .. } => Some(name),
        ClientFault::TunnelBandwidth { name, .. } => Some(name),
        ClientFault::TunnelBandwidthSide { name, .. } => Some(name),
        ClientFault::RemotePortMissing { name, .. } => Some(name),
        ClientFault::DomainsMissing { name, .. } => Some(name),
        ClientFault::ServiceInvalid { name, .. } => Some(name),
        ClientFault::ServicePortMissing { name, .. } => Some(name),
        ClientFault::PluginType { name, .. } => Some(name),
        ClientFault::PluginServiceMissing { name } => Some(name),
        ClientFault::PluginServiceInvalid { name, .. } => Some(name),
        ClientFault::PluginServicePort { name } => Some(name),
        ClientFault::Socks5Credentials { name } => Some(name),
        _ => None,
    }
}

/// A message about a tunnel of the client begins with the name of that tunnel.
pub proof fn messages_begin_with_the_tunnel(f: ClientFault, number: Seq<char>)
    ensures
        tunnel_at_fault(f) matches Some(name) ==> starts_with(
            f.text(number),
            "tunnel `"@ + name + "` "@,
        ),
{
    if let Some(name) = tunnel_at_fault(f) {
        let head = "tunnel `"@ + name + "` "@;
        let s = f.text(number);
        assert(s.take(head.len() as int) =~= head);
    }
}

/// A message about a wrong value ends with it, or with what is expected behind it.
pub proof fn messages_tell_the_wrong_value(
    name: Seq<char>,
    value: Seq<char>,
    number: Seq<char>,
    a: i64,
    b: i64,
    size: usize,
    bits: u64,
    count: i32,
)
    ensures
        ends_with(
            (ClientFault::TunnelProtocol { name, protocol: value }).text(number),
            debug_quoted(value),
        ),
        ends_with((ClientFault::TunnelBandwidth { name, bits }).text(number), number),
        ends_with(
            (ClientFault::TunnelBandwidthSide { name, side: value }).text(number),
            debug_quoted(value),
        ),
        ends_with((ClientFault::RemotePortMissing { name, protocol: value }).text(number), value),
        ends_with((ClientFault::DomainsMissing { name, protocol: value }).text(number), value),
        ends_with(
            (ClientFault::PluginType { name, plugin_type: value }).text(number),
            debug_quoted(value),
        ),
        ends_with(
            (ClientFault::ServicePortMissing { name, service: value }).text(number),
            debug_quoted(value) + ")"@,
        ),
        ends_with((ClientFault::PoolCount { count }).text(number), decimal_int(count as int)),
        ends_with((ClientFault::UdpPacketSize { size }).text(number), decimal(size as nat)),
        starts_with(
            (ClientFault::Heartbeat { timeout: a, interval: b }).text(number),
            "heartbeatTimeout ("@ + decimal_int(a as int) + ")"@,
        ),
        ends_with(
            (ClientFault::Heartbeat { timeout: a, interval: b }).text(number),
            "heartbeatInterval ("@ + decimal_int(b as int) + ")"@,
        ),
        ends_with((ClientFault::TunnelDuplicate { name }).text(number), "`"@ + name + "`"@),
{
    let about = "tunnel `"@ + name + "` "@;
    lemma_ends(
        (ClientFault::TunnelProtocol { name, protocol: value }).text(number),
        about + "unsupported protocol "@,
        debug_quoted(value),
    );
    lemma_ends(
        (ClientFault::TunnelBandwidth { name, bits }).text(number),
        about + "invalid bandwidth "@,
        number,
    );
    lemma_ends(
        (ClientFault::TunnelBandwidthSide { name, side: value }).text(number),
        about + "invalid bandwidthLimitSide "@,
        debug_quoted(value),
    );
    lemma_ends(
        (ClientFault::RemotePortMissing { name, protocol: value }).text(number),
        about + "remotePort is required for "@,
        value,
    );
    lemma_ends(
        (ClientFault::DomainsMissing { name, protocol: value }).text(number),
        about + "domains is required for "@,
        value,
    );
    lemma_ends(
        (ClientFault::PluginType { name, plugin_type: value }).text(number),
        about + "unsupported plugin.type "@,
        debug_quoted(value),
    );
    let s = (ClientFault::ServicePortMissing { name, service: value }).text(number);
    assert(s =~= about + "service must include a port (got "@ + (debug_quoted(value) + ")"@));
    lemma_ends(s, about + "service must include a port (got "@, debug_quoted(value) + ")"@);
    lemma_ends(
        (ClientFault::PoolCount { count }).text(number),
        "transport.poolCount must be >= 1, got "@,
        decimal_int(count as int),
    );
    lemma_ends(
        (ClientFault::UdpPacketSize { size }).text(number),
        "udpPacketSize out of range: "@,
        decimal(size as nat),
    );
    lemma_heartbeat(a, b, number);
    let d = (ClientFault::TunnelDuplicate { name }).text(number);
    reveal_strlit("duplicate tunnel name `");
    reveal_strlit("`");
    assert(d =~= "duplicate tunnel name `"@.drop_last() + ("`"@ + name + "`"@));
    lemma_ends(d, "duplicate tunnel name `"@.drop_last(), "`"@ + name + "`"@);
}

proof fn lemma_heartbeat(a: i64, b: i64, number: Seq<char>)
    ensures
        starts_with(
            (ClientFault::Heartbeat { timeout: a, interval: b }).text(number),
            "heartbeatTimeout ("@ + decimal_int(a as int) + ")"@,
        ),
        ends_with(
            (ClientFault::Heartbeat { timeout: a, interval: b }).text(number),
            "heartbeatInterval ("@ + decimal_int(b as int) + ")"@,
        ),
{
    let s = (ClientFault::Heartbeat { timeout: a, interval: b }).text(number);
    let mid = ") must be >= heartbeatInterval ("@;
    reveal_strlit(") must be >= heartbeatInterval (");
    reveal_strlit(")");
    reveal_strlit("heartbeatInterval (");
    let open = "heartbeatTimeout ("@ + decimal_int(a as int);
    let close = decimal_int(b as int) + ")"@;
    assert(mid =~= ")"@ + mid.skip(1));
    assert(mid =~= mid.take(13) + "heartbeatInterval ("@);
    assert(s =~= (open + ")"@) + (mid.skip(1) + close));
    lemma_starts(s, open + ")"@, mid.skip(1) + close);
    assert(s =~= (open + mid.take(13)) + ("heartbeatInterval ("@ + decimal_int(b as int) + ")"@));
    lemma_ends(s, open + mid.take(13), "heartbeatInterval ("@ + decimal_int(b as int) + ")"@);
}

/// A message about an address that cannot be read holds the address as it was given.
pub proof fn messages_hold_the_address(fault: HostPortFault, raw: Seq<char>)
    ensures
        has_part(host_port_message(fault, raw), raw),
{
    let s = host_port_message(fault, raw);
    match fault {
        HostPortFault::MissingBracket => lemma_holds(
            s,
            "invalid listen address '"@,
            raw,
            "': missing ']'"@,
        ),
        HostPortFault::EmptyHost => lemma_holds(
            s,
            "invalid listen address '"@,
            raw,
            "': empty IPv6 host"@,
        ),
        HostPortFault::ExpectedColon => lemma_holds(
            s,
            "invalid listen address '"@,
            raw,
            "': expected ':' after ']'"@,
        ),
        HostPortFault::BadPort => lemma_holds(s, "invalid listen port in '"@, raw, "'"@),
    }
}

/// A refusal tells the name, the port and the holder that it is about, and passes on an
/// error that it was given as it is.
pub proof fn refusals_hold_what_they_are_about(name: String, port: u16, error: String)
    ensures
        has_part((RegisterError::NameTaken { name }).text(), name@),
        has_part((RegisterError::AlreadyPresent { name }).text(), name@),
        (RegisterError::Limit { error }).text() == error@,
        (RegisterError::Start { error }).text() == error@,
        ends_with((RegisterError::Protocol { protocol: name }).text(), name@),
        RegisterError::Port(PortError::InUse { port, tunnel: name }).text() == (PortError::InUse {
            port,
            tunnel: name,
        }).text(),
        has_part((PortError::InUse { port, tunnel: name }).text(), decimal(port as nat)),
        has_part((PortError::InUse { port, tunnel: name }).text(), name@),
        has_part((ServerFault::QuicKcpPort { port }).text(), decimal(port as nat)),
        has_part((ServerFault::GwPorts { port }).text(), decimal(port as nat)),
        ends_with((TunnelFault::Protocol { name: name@, protocol: error@ }).text(), error@),
        ends_with((DataConnError::Refused { error }).text(), error@),
        ends_with(
            (LoginError::Unexpected { type_byte: port as u8 }).text(),
            decimal((port as u8) as nat),
        ),
{
    lemma_holds(
        (RegisterError::NameTaken { name }).text(),
        "tunnel `"@,
        name@,
        "` is already in use"@,
    );
    lemma_holds(
        (RegisterError::AlreadyPresent { name }).text(),
        "tunnel `"@,
        name@,
        "` already present in this session"@,
    );
    lemma_ends(
        (RegisterError::Protocol { protocol: name }).text(),
        "unsupported tunnel protocol: "@,
        name@,
    );
    let s = (PortError::InUse { port, tunnel: name }).text();
    assert(s =~= "remote port "@ + decimal(port as nat) + (" is already in use by tunnel `"@ + name@
        + "`"@));
    lemma_holds(
        s,
        "remote port "@,
        decimal(port as nat),
        " is already in use by tunnel `"@ + name@ + "`"@,
    );
    lemma_holds(
        s,
        "remote port "@ + decimal(port as nat) + " is already in use by tunnel `"@,
        name@,
        "`"@,
    );
    lemma_holds(
        (ServerFault::QuicKcpPort { port }).text(),
        "quicPort and kcpPort both use UDP and must differ (got "@,
        decimal(port as nat),
        ")"@,
    );
    lemma_holds(
        (ServerFault::GwPorts { port }).text(),
        "httpGwPort and httpsGwPort must differ (both set to "@,
        decimal(port as nat),
        ")"@,
    );
    lemma_ends(
        (TunnelFault::Protocol { name: name@, protocol: error@ }).text(),
        "tunnel `"@ + name@ + "` unsupported protocol "@,
        error@,
    );
    lemma_ends((DataConnError::Refused { error }).text(), "StartDataConn error: "@, error@);
    lemma_ends(
        (LoginError::Unexpected { type_byte: port as u8 }).text(),
        "expected LoginResp, got type "@,
        decimal((port as u8) as nat),
    );
}

} // verus!
