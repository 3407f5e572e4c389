//! Which settings of the client pass their check, in terms of the settings themselves.
use vstd::prelude::*;

use crate::config::client::{
    client_paths_found, client_paths_resolved, fault_at, faults_from, tunnel_paths_resolved,
    ClientConfig, ClientConfigView, ClientFault, LoadMode, TunnelConfig, TunnelView,
};
use crate::config::client::{bandwidth_by_fields, nan_by_fields};
use crate::config::host_port::host_port;
use crate::text::{is_blank, is_white, lower_all, trim, trim_end, trim_start};

verus! {

/// The names that settings use differ from one another.
proof fn lemma_words_differ()
    ensures
        "tcp"@ != "http"@,
        "tcp"@ != "https"@,
        "udp"@ != "http"@,
        "udp"@ != "https"@,
        "tcp"@ != "udp"@,
        "http"@ != "https"@,
        "socks5"@ != "tls-term"@,
        "socks5"@.len() > 0,
        "tls-term"@.len() > 0,
{
    reveal_strlit("tcp");
    reveal_strlit("udp");
    reveal_strlit("http");
    reveal_strlit("https");
    reveal_strlit("socks5");
    reveal_strlit("tls-term");
    assert("tcp"@[0] != "udp"@[0]);
    assert("http"@.len() == 4 && "https"@.len() == 5);
    assert("socks5"@.len() == 6 && "tls-term"@.len() == 8);
}

/// Whether every character is white space.
pub open spec fn all_white(s: Seq<char>) -> bool {
    forall|i: int| 0 <= i < s.len() ==> is_white(#[trigger] s[i])
}

proof fn lemma_trim_end_white(s: Seq<char>)
    ensures
        trim_end(s).len() == 0 <==> all_white(s),
    decreases s.len(),
{
    if s.len() > 0 {
        if is_white(s.last()) {
            lemma_trim_end_white(s.drop_last());
            if all_white(s.drop_last()) {
                assert forall|i: int| 0 <= i < s.len() implies is_white(#[trigger] s[i]) by {
                    if i < s.len() - 1 {
                        assert(s.drop_last()[i] == s[i]);
                    }
                }
            }
            if all_white(s) {
                assert forall|i: int| 0 <= i < s.len() - 1 implies is_white(
                    #[trigger] s.drop_last()[i],
                ) by {
                    assert(s.drop_last()[i] == s[i]);
                }
            }
        } else {
            assert(!is_white(s[s.len() - 1]));
        }
    }
}

proof fn lemma_trim_start_white(s: Seq<char>)
    ensures
        all_white(trim_start(s)) <==> all_white(s),
    decreases s.len(),
{
    if s.len() > 0 && is_white(s[0]) {
        lemma_trim_start_white(s.skip(1));
        if all_white(s.skip(1)) {
            assert forall|i: int| 0 <= i < s.len() implies is_white(#[trigger] s[i]) by {
                if i > 0 {
                    assert(s.skip(1)[i - 1] == s[i]);
                }
            }
        }
        if all_white(s) {
            assert forall|i: int| 0 <= i < s.len() - 1 implies is_white(
                #[trigger] s.skip(1)[i],
            ) by {
                assert(s.skip(1)[i] == s[i + 1]);
            }
        }
    }
}

/// A text is blank if and only if it holds nothing but white space.
pub proof fn blank_is_all_white(s: Seq<char>)
    ensures
        is_blank(s) <==> all_white(s),
{
    lemma_trim_end_white(trim_start(s));
    lemma_trim_start_white(s);
}

/// Whether a tunnel's limit of bandwidth is a number at a side that is known.
pub open spec fn limit_is_valid(t: TunnelView) -> bool {
    let side = lower_all(trim(t.transport.bandwidth_limit_side));
    &&& ((t.transport.bandwidth_bits >> 52) & 0x7ff) != 0x7ff
    &&& (t.transport.bandwidth_bits >> 63) == 0 || (t.transport.bandwidth_bits
        & 0x7fff_ffff_ffff_ffff) == 0
    &&& side.len() == 0 || side == "client"@ || side == "server"@
}

/// A tcp or udp tunnel with a port, a valid limit and a socks5 plugin passes the check
/// if and only if neither the user nor the password of the plugin is blank.
pub proof fn socks5_needs_user_and_password(t: TunnelView)
    requires
        lower_all(trim(t.protocol)) == "tcp"@ || lower_all(trim(t.protocol)) == "udp"@,
        t.remote_port != 0,
        limit_is_valid(t),
        t.plugin is Some,
        lower_all(trim(t.plugin->0.plugin_type)) == "socks5"@,
    ensures
        t.fault() is None <==> !all_white(t.plugin->0.username) && !all_white(
            t.plugin->0.password,
        ),
        t.fault() is Some ==> t.fault() == Some(ClientFault::Socks5Credentials { name: t.name }),
{
    lemma_words_differ();
    blank_is_all_white(t.plugin->0.username);
    blank_is_all_white(t.plugin->0.password);
    bandwidth_by_fields(t.transport.bandwidth_bits);
}

/// An http or https tunnel with domains, a valid limit and a plugin that terminates TLS
/// passes the check if and only if the plugin's service is a host with a port.
pub proof fn tls_term_needs_a_service(t: TunnelView)
    requires
        lower_all(trim(t.protocol)) == "http"@ || lower_all(trim(t.protocol)) == "https"@,
        t.domains.len() > 0,
        limit_is_valid(t),
        t.plugin is Some,
        lower_all(trim(t.plugin->0.plugin_type)) == "tls-term"@,
    ensures
        t.fault() is None <==> !all_white(t.plugin->0.service) && (host_port(
            t.plugin->0.service,
            0,
        ) matches Ok(hp) && hp.1 != 0),
        all_white(t.plugin->0.service) ==> t.fault() == Some(
            ClientFault::PluginServiceMissing { name: t.name },
        ),
{
    lemma_words_differ();
    blank_is_all_white(t.plugin->0.service);
    bandwidth_by_fields(t.transport.bandwidth_bits);
}

/// A plugin serves only tunnels of its own sort: socks5 those of tcp and udp, the
/// termination of TLS those of http and https. With another plugin none passes.
pub proof fn plugins_serve_their_own_tunnels(t: TunnelView)
    requires
        t.fault() is None,
        t.plugin is Some,
        trim(t.plugin->0.plugin_type).len() > 0,
    ensures
        ({
            let kind = lower_all(trim(t.plugin->0.plugin_type));
            let proto = lower_all(trim(t.protocol));
            &&& kind == "socks5"@ || kind == "tls-term"@
            &&& kind == "socks5"@ <==> (proto == "tcp"@ || proto == "udp"@)
            &&& kind == "tls-term"@ <==> (proto == "http"@ || proto == "https"@)
        }),
{
    lemma_words_differ();
}

/// A tunnel without a plugin passes the check if and only if its protocol is one of the
/// four, its limit is valid, a tcp or udp tunnel names a port and an http or https
/// tunnel a domain, and its service, where it has one, is a host with a port.
pub proof fn plain_tunnels_that_pass(t: TunnelView)
    requires
        t.plugin is None || all_white(t.plugin->0.plugin_type),
    ensures
        t.fault() is None <==> {
            let proto = lower_all(trim(t.protocol));
            &&& proto == "tcp"@ || proto == "udp"@ || proto == "http"@ || proto == "https"@
            &&& limit_is_valid(t)
            &&& proto == "tcp"@ || proto == "udp"@ ==> t.remote_port != 0
            &&& proto == "http"@ || proto == "https"@ ==> t.domains.len() > 0
            &&& trim(t.service).len() == 0 || (host_port(trim(t.service), 0) matches Ok(hp) && hp.1
                != 0)
        },
{
    lemma_words_differ();
    if t.plugin is Some {
        blank_is_all_white(t.plugin->0.plugin_type);
    }
    bandwidth_by_fields(t.transport.bandwidth_bits);
}

/// No tunnel of a list is at fault from a place on if and only if none of them is.
proof fn lemma_no_faults_from(tunnels: Seq<TunnelView>, from: int)
    requires
        0 <= from,
    ensures
        faults_from(tunnels, from) is None <==> forall|i: int|
            from <= i < tunnels.len() ==> #[trigger] fault_at(tunnels, i) is None,
    decreases tunnels.len() - from,
{
    if from < tunnels.len() {
        lemma_no_faults_from(tunnels, from + 1);
        if faults_from(tunnels, from) is None {
            assert forall|i: int| from <= i < tunnels.len() implies #[trigger] fault_at(
                tunnels,
                i,
            ) is None by {
                if i > from {
                    assert(faults_from(tunnels, from + 1) is None);
                }
            }
        }
    }
}

/// Of several tunnels at fault the first is told.
proof fn lemma_first_fault(tunnels: Seq<TunnelView>, from: int, i: int)
    requires
        0 <= from <= i < tunnels.len(),
        fault_at(tunnels, i) is Some,
        forall|j: int| from <= j < i ==> #[trigger] fault_at(tunnels, j) is None,
    ensures
        faults_from(tunnels, from) == fault_at(tunnels, i),
    decreases i - from,
{
    if from < i {
        assert(fault_at(tunnels, from) is None);
        lemma_first_fault(tunnels, from + 1, i);
    }
}

/// Whether everything but the tunnels is in order: a server that can be read, a known
/// transport, a pool, packets that fit, and no heartbeat slower than its timeout.
pub open spec fn connection_is_valid(c: ClientConfigView) -> bool {
    let t = c.transport;
    &&& !all_white(c.server)
    &&& host_port(c.server, 9527) is Ok
    &&& t.protocol == "tcp"@ || t.protocol == "quic"@ || t.protocol == "websocket"@ || t.protocol
        == "kcp"@
    &&& t.pool_count >= 1
    &&& 1 <= c.udp_packet_size <= 65535
    &&& t.heartbeat_timeout >= t.heartbeat_interval || t.heartbeat_timeout <= 0
        || t.heartbeat_interval <= 0
}

/// Settings pass the check if and only if the connection is in order and every tunnel
/// has a name that is not blank and that no tunnel ahead of it has, and passes its own
/// check.
pub proof fn settings_that_pass(c: ClientConfigView)
    ensures
        c.fault() is None <==> {
            &&& connection_is_valid(c)
            &&& forall|i: int|
                0 <= i < c.tunnels.len() ==> !all_white((#[trigger] c.tunnels[i]).name)
                    && c.tunnels[i].fault() is None
            &&& forall|i: int, j: int|
                0 <= j < i < c.tunnels.len() ==> (#[trigger] c.tunnels[j]).name != (
                #[trigger] c.tunnels[i]).name
        },
{
    blank_is_all_white(c.server);
    lemma_no_faults_from(c.tunnels, 0);
    assert forall|i: int| 0 <= i < c.tunnels.len() implies (fault_at(c.tunnels, i) is None <==> {
        &&& !all_white((#[trigger] c.tunnels[i]).name)
        &&& c.tunnels[i].fault() is None
        &&& forall|j: int| 0 <= j < i ==> (#[trigger] c.tunnels[j]).name != c.tunnels[i].name
    }) by {
        blank_is_all_white(c.tunnels[i].name);
    }
    if c.fault() is None {
        assert forall|i: int| 0 <= i < c.tunnels.len() implies !all_white(
            (#[trigger] c.tunnels[i]).name,
        ) && c.tunnels[i].fault() is None by {
            assert(fault_at(c.tunnels, i) is None);
        }
        assert forall|i: int, j: int| 0 <= j < i < c.tunnels.len() implies (
        #[trigger] c.tunnels[j]).name != (#[trigger] c.tunnels[i]).name by {
            assert(fault_at(c.tunnels, i) is None);
        }
    }
}

/// Where the connection is in order, the fault that is told is that of the first tunnel
/// at fault: a blank name, then a name that was there before, then what the tunnel's own
/// check finds.
pub proof fn first_fault_is_told(c: ClientConfigView, i: int)
    requires
        connection_is_valid(c),
        0 <= i < c.tunnels.len(),
        forall|j: int|
            0 <= j < i ==> !all_white((#[trigger] c.tunnels[j]).name) && c.tunnels[j].fault()
                is None,
        forall|k: int, j: int|
            0 <= j < k < i ==> (#[trigger] c.tunnels[j]).name != (#[trigger] c.tunnels[k]).name,
    ensures
        all_white(c.tunnels[i].name) ==> c.fault() == Some(ClientFault::TunnelNameMissing),
        !all_white(c.tunnels[i].name) && (exists|j: int|
            0 <= j < i && (#[trigger] c.tunnels[j]).name == c.tunnels[i].name) ==> c.fault()
            == Some(ClientFault::TunnelDuplicate { name: c.tunnels[i].name }),
        !all_white(c.tunnels[i].name) && (forall|j: int|
            0 <= j < i ==> (#[trigger] c.tunnels[j]).name != c.tunnels[i].name)
            && c.tunnels[i].fault() is Some ==> c.fault() == c.tunnels[i].fault(),
{
    blank_is_all_white(c.server);
    blank_is_all_white(c.tunnels[i].name);
    assert forall|j: int| 0 <= j < i implies #[trigger] fault_at(c.tunnels, j) is None by {
        blank_is_all_white(c.tunnels[j].name);
    }
    if fault_at(c.tunnels, i) is Some {
        lemma_first_fault(c.tunnels, 0, i);
    }
}

/// Each fault of the connection is told of settings that have it, with the value that is
/// wrong.
pub proof fn connection_faults_tell_the_value(c: ClientConfigView)
    requires
        !connection_is_valid(c),
    ensures
        ({
            let t = c.transport;
            c.fault() matches Some(f) && {
                ||| f is ServerMissing && all_white(c.server)
                ||| f matches ClientFault::ServerInvalid { server, cause } && server == c.server
                    && host_port(c.server, 9527) == Err::<(Seq<char>, u16), _>(cause)
                ||| f matches ClientFault::Protocol { protocol } && protocol == t.protocol
                    && protocol != "tcp"@ && protocol != "quic"@ && protocol != "websocket"@
                    && protocol != "kcp"@
                ||| f matches ClientFault::PoolCount { count } && count == t.pool_count && count < 1
                ||| f matches ClientFault::UdpPacketSize { size } && size == c.udp_packet_size && !(
                1 <= size <= 65535)
                ||| f matches ClientFault::Heartbeat { timeout, interval } && timeout
                    == t.heartbeat_timeout && interval == t.heartbeat_interval && 0 < timeout
                    < interval
            }
        }),
{
    blank_is_all_white(c.server);
}

/// Each fault of a tunnel is told of a tunnel that has it, with its name and the value
/// that is wrong.
pub proof fn tunnel_faults_tell_the_value(t: TunnelView)
    requires
        t.fault() is Some,
    ensures
        ({
            let proto = lower_all(trim(t.protocol));
            let side = lower_all(trim(t.transport.bandwidth_limit_side));
            let stream = proto == "tcp"@ || proto == "udp"@;
            let web = proto == "http"@ || proto == "https"@;
            let f = t.fault()->0;
            ||| f == (ClientFault::TunnelProtocol { name: t.name, protocol: t.protocol }) && !stream
                && !web
            ||| f == (ClientFault::TunnelBandwidth {
                name: t.name,
                bits: t.transport.bandwidth_bits,
            }) && !limit_is_valid(t)
            ||| f == (ClientFault::TunnelBandwidthSide {
                name: t.name,
                side: t.transport.bandwidth_limit_side,
            }) && side.len() > 0 && side != "client"@ && side != "server"@
            ||| f == (ClientFault::RemotePortMissing { name: t.name, protocol: proto }) && stream
                && t.remote_port == 0
            ||| f == (ClientFault::DomainsMissing { name: t.name, protocol: proto }) && web
                && t.domains.len() == 0
            ||| f matches ClientFault::ServiceInvalid { name, service, cause } && name == t.name
                && service == trim(t.service) && host_port(service, 0) == Err::<
                (Seq<char>, u16),
                _,
            >(cause)
            ||| f == (ClientFault::ServicePortMissing { name: t.name, service: trim(t.service) })
                && (host_port(trim(t.service), 0) matches Ok(hp) && hp.1 == 0)
            ||| f matches ClientFault::PluginType { name, plugin_type } && name == t.name
                && t.plugin is Some && plugin_type == lower_all(trim(t.plugin->0.plugin_type))
                && plugin_type != (if stream {
                "socks5"@
            } else {
                "tls-term"@
            })
            ||| f == (ClientFault::PluginServiceMissing { name: t.name }) && web && t.plugin is Some
                && all_white(t.plugin->0.service)
            ||| f matches ClientFault::PluginServiceInvalid { name, service, cause } && name
                == t.name && web && t.plugin is Some && service == t.plugin->0.service && host_port(
                service,
                0,
            ) == Err::<(Seq<char>, u16), _>(cause)
            ||| f == (ClientFault::PluginServicePort { name: t.name }) && web && t.plugin is Some
                && (host_port(t.plugin->0.service, 0) matches Ok(hp) && hp.1 == 0)
            ||| f == (ClientFault::Socks5Credentials { name: t.name }) && stream && t.plugin is Some
                && (all_white(t.plugin->0.username) || all_white(t.plugin->0.password))
        }),
{
    lemma_words_differ();
    if t.plugin is Some {
        blank_is_all_white(t.plugin->0.username);
        blank_is_all_white(t.plugin->0.password);
        blank_is_all_white(t.plugin->0.service);
    }
    bandwidth_by_fields(t.transport.bandwidth_bits);
}

/// Completing settings changes only what was left open: what the user set stays, over
/// quic TLS is on and no connections are shared, a client without shared connections
/// has a heartbeat, and a server name is taken from the server's own address.
pub proof fn completion_fills_what_was_open(c: ClientConfigView)
    ensures
        ({
            let d = c.completed();
            let quic = c.transport.protocol == "quic"@;
            let t = c.transport;
            let u = d.transport;
            &&& d.server == c.server && d.user == c.user && d.agent_id == c.agent_id && d.tunnels
                == c.tunnels
            &&& d.auth.token == c.auth.token
            &&& d.auth.auth_type == if all_white(c.auth.auth_type) {
                "token"@
            } else {
                c.auth.auth_type
            }
            &&& c.udp_packet_size != 0 ==> d.udp_packet_size == c.udp_packet_size
            &&& c.udp_packet_size == 0 ==> d.udp_packet_size == 1500
            &&& u.protocol == t.protocol && u.pool_count == t.pool_count && u.mux_keepalive_secs
                == t.mux_keepalive_secs && u.quic == t.quic
            &&& u.tcp_mux <==> t.tcp_mux && !quic
            &&& u.tls.enable <==> t.tls.enable || quic
            &&& u.tls.cert_file == t.tls.cert_file && u.tls.key_file == t.tls.key_file
                && u.tls.trusted_ca_file == t.tls.trusted_ca_file
            &&& !all_white(t.tls.server_name) ==> u.tls.server_name == t.tls.server_name
            &&& all_white(t.tls.server_name) && host_port(c.server, 9527) is Ok
                ==> u.tls.server_name == (host_port(c.server, 9527)->Ok_0).0
            &&& host_port(c.server, 9527) is Err ==> u.tls.server_name == t.tls.server_name
            &&& t.heartbeat_interval >= 0 || u.tcp_mux ==> u.heartbeat_interval
                == t.heartbeat_interval
            &&& t.heartbeat_timeout >= 0 || u.tcp_mux ==> u.heartbeat_timeout
                == t.heartbeat_timeout
            &&& t.heartbeat_interval < 0 && !u.tcp_mux ==> u.heartbeat_interval == 30
            &&& t.heartbeat_timeout < 0 && !u.tcp_mux ==> u.heartbeat_timeout == 90
        }),
{
    blank_is_all_white(c.auth.auth_type);
    blank_is_all_white(c.transport.tls.server_name);
    reveal_strlit("tcp");
    reveal_strlit("quic");
    reveal_strlit("websocket");
    assert("tcp"@.len() == 3 && "quic"@.len() == 4 && "websocket"@.len() == 9);
}

/// Settings that differ in anything but the tunnels need a new connection, and settings
/// that differ in the tunnels alone do not.
pub proof fn only_tunnels_change_without_reconnecting(a: ClientConfigView, b: ClientConfigView)
    ensures
        a.same_connection(b) <==> a == (ClientConfigView { tunnels: a.tunnels, ..b }),
{
}

/// The checks see the settings of a tunnel as they were written.
pub proof fn tunnels_are_checked_as_written(t: TunnelConfig, i: int)
    ensures
        t@.name == t.name@ && t@.protocol == t.protocol@ && t@.service == t.service@
            && t@.remote_port == t.remote_port,
        t@.domains.len() == t.domains@.len() && t@.locations.len() == t.locations@.len(),
        0 <= i < t.domains@.len() ==> t@.domains[i] == t.domains@[i]@,
        0 <= i < t.locations@.len() ==> t@.locations[i] == t.locations@[i]@,
        t@.basic_auth_user == t.basic_auth_user@ && t@.basic_auth_password == t.basic_auth_password@
            && t@.host_header_rewrite == t.host_header_rewrite@,
        t@.transport.bandwidth_bits == t.transport.bandwidth_bits
            && t@.transport.bandwidth_limit_side == t.transport.bandwidth_limit_side@
            && t@.transport.proxy_protocol_version == t.transport.proxy_protocol_version@,
        t@.plugin is Some <==> t.plugin is Some,
        t.plugin matches Some(p) ==> t@.plugin->0.plugin_type == p.plugin_type@
            && t@.plugin->0.service == p.service@ && t@.plugin->0.username == p.username@
            && t@.plugin->0.password == p.password@ && t@.plugin->0.host_header_rewrite
            == p.host_header_rewrite@ && t@.plugin->0.cert_file == p.cert_file@
            && t@.plugin->0.key_file == p.key_file@,
{
}

/// The checks see the settings of a client as they were written.
pub proof fn settings_are_checked_as_written(c: ClientConfig, i: int)
    ensures
        c@.server == c.server@ && c@.user == c.user@ && c@.agent_id == c.agent_id@
            && c@.udp_packet_size == c.udp_packet_size,
        c@.auth.auth_type == c.auth.auth_type@ && c@.auth.token == c.auth.token@,
        c@.transport.protocol == c.transport.protocol@ && c@.transport.pool_count
            == c.transport.pool_count && c@.transport.tcp_mux == c.transport.tcp_mux,
        c@.transport.mux_keepalive_secs == c.transport.mux_keepalive_secs
            && c@.transport.heartbeat_interval == c.transport.heartbeat_interval
            && c@.transport.heartbeat_timeout == c.transport.heartbeat_timeout,
        c@.transport.quic == c.transport.quic && c@.transport.ws_path == c.transport.ws_path@,
        c@.transport.tls.enable == c.transport.tls.enable && c@.transport.tls.server_name
            == c.transport.tls.server_name@ && c@.transport.tls.cert_file
            == c.transport.tls.cert_file@ && c@.transport.tls.key_file == c.transport.tls.key_file@
            && c@.transport.tls.trusted_ca_file == c.transport.tls.trusted_ca_file@,
        c@.tunnels.len() == c.tunnels@.len(),
        0 <= i < c.tunnels@.len() ==> c@.tunnels[i] == c.tunnels@[i]@,
{
}

/// Two tunnels count as the same only where every setting is the same; two limits of
/// bandwidth are the same number where their bits are, but that no number is not even the
/// same as itself and that zero has no sign.
pub proof fn same_tunnels_agree_in_everything(a: TunnelView, b: TunnelView)
    ensures
        a.same(b) ==> a.name == b.name && a.protocol == b.protocol && a.service == b.service
            && a.remote_port == b.remote_port && a.domains == b.domains && a.locations
            == b.locations && a.basic_auth_user == b.basic_auth_user && a.basic_auth_password
            == b.basic_auth_password && a.host_header_rewrite == b.host_header_rewrite && a.plugin
            == b.plugin,
        a.same(b) ==> a.transport.bandwidth_limit_side == b.transport.bandwidth_limit_side
            && a.transport.proxy_protocol_version == b.transport.proxy_protocol_version,
        a.same(b) ==> a.transport.bandwidth_bits == b.transport.bandwidth_bits || (
        a.transport.bandwidth_bits & 0x7fff_ffff_ffff_ffff == 0 && b.transport.bandwidth_bits
            & 0x7fff_ffff_ffff_ffff == 0),
        a == b && ((a.transport.bandwidth_bits >> 52) & 0x7ff) != 0x7ff ==> a.same(b),
        a.same(b) == b.same(a),
{
    let x = a.transport.bandwidth_bits;
    nan_by_fields(x);
    assert((0u64 & 0x7fff_ffff_ffff_ffff) == 0 && (0x8000_0000_0000_0000u64
        & 0x7fff_ffff_ffff_ffff) == 0) by (bit_vector);
    if a.same(b) {
        assert(b == TunnelView { transport: b.transport, ..a });
    }
    if b.same(a) {
        assert(a == TunnelView { transport: a.transport, ..b });
    }
}

/// Where paths are found, those of the client's certificate, key and trust store and of
/// each plugin's certificate and key are, each from its own setting; every other setting
/// stays as it was.
pub proof fn paths_are_found_each_from_its_own<F: Fn(&String) -> String>(
    resolve: F,
    before: ClientConfig,
    after: ClientConfig,
    i: int,
)
    requires
        client_paths_resolved(resolve, before, after),
    ensures
        call_ensures(resolve, (&before.transport.tls.cert_file,), after.transport.tls.cert_file),
        call_ensures(resolve, (&before.transport.tls.key_file,), after.transport.tls.key_file),
        call_ensures(
            resolve,
            (&before.transport.tls.trusted_ca_file,),
            after.transport.tls.trusted_ca_file,
        ),
        after.server == before.server && after.user == before.user && after.agent_id
            == before.agent_id && after.auth == before.auth && after.udp_packet_size
            == before.udp_packet_size,
        after.transport.tls.enable == before.transport.tls.enable
            && after.transport.tls.server_name == before.transport.tls.server_name
            && after.transport.protocol == before.transport.protocol && after.transport.tcp_mux
            == before.transport.tcp_mux && after.transport.ws_path == before.transport.ws_path,
        after.tunnels@.len() == before.tunnels@.len(),
        0 <= i < before.tunnels@.len() ==> ({
            let t = before.tunnels@[i];
            let u = after.tunnels@[i];
            &&& u.name == t.name && u.protocol == t.protocol && u.service == t.service
                && u.remote_port == t.remote_port && u.domains == t.domains && u.locations
                == t.locations && u.transport == t.transport
            &&& u.plugin is Some <==> t.plugin is Some
            &&& t.plugin is Some ==> call_ensures(
                resolve,
                (&t.plugin->0.cert_file,),
                u.plugin->0.cert_file,
            ) && call_ensures(resolve, (&t.plugin->0.key_file,), u.plugin->0.key_file)
                && u.plugin->0.service == t.plugin->0.service && u.plugin->0.username
                == t.plugin->0.username && u.plugin->0.password == t.plugin->0.password
                && u.plugin->0.plugin_type == t.plugin->0.plugin_type
        }),
{
    if 0 <= i < before.tunnels@.len() {
        assert(tunnel_paths_resolved(resolve, before.tunnels@[i], after.tunnels@[i]));
    }
}

/// Settings that are shown to be edited keep their paths as they were written; those of a
/// client that runs have them found.
pub proof fn paths_are_found_for_running_only<F: Fn(&String) -> String>(
    resolve: F,
    mode: LoadMode,
    before: ClientConfig,
    after: ClientConfig,
)
    requires
        client_paths_found(resolve, mode, before, after),
    ensures
        mode != LoadMode::Runtime ==> after == before,
        mode == LoadMode::Runtime ==> client_paths_resolved(resolve, before, after),
{
}

} // verus!
