//! Which settings of the server pass their check, and what completing them fills in, in
//! terms of the settings themselves.
use vstd::prelude::*;

use crate::config::client_laws::{all_white, blank_is_all_white};
use crate::config::host_port::host_port;
use crate::config::server::{
    listens_conflict, server_paths_resolved, ServerConfig, ServerConfigView, ServerFault,
};
use crate::text::{decimal, lower_all, trim};

verus! {

/// Whether two addresses can be listened on only once: they are the same but for case,
/// or one of them stands for every address.
pub open spec fn addresses_meet(a: Seq<char>, b: Seq<char>) -> bool {
    ||| all_white(a)
    ||| all_white(b)
    ||| trim(a) == "0.0.0.0"@ || trim(a) == "::"@ || trim(a) == "[::]"@
    ||| trim(b) == "0.0.0.0"@ || trim(b) == "::"@ || trim(b) == "[::]"@
    ||| lower_all(trim(a)) == lower_all(trim(b))
}

/// Two listeners get in each other's way if and only if they want the same port, which
/// is not zero, on addresses that meet.
pub proof fn listeners_that_conflict(a: Seq<char>, port_a: u16, b: Seq<char>, port_b: u16)
    ensures
        listens_conflict(a, port_a, b, port_b) <==> port_a == port_b && port_a != 0
            && addresses_meet(a, b),
{
    blank_is_all_white(a);
    blank_is_all_white(b);
}

/// Settings pass the check if and only if the address to listen on can be read, quic and
/// kcp do not share a port, no gateway shares one with the listener or with the other
/// gateway, and a dashboard that is on has a user and a password.
pub proof fn settings_that_pass(c: ServerConfigView)
    ensures
        c.fault() is None <==> (host_port(c.listen, 9527) matches Ok(hp) && {
            &&& c.quic_port == c.kcp_port ==> c.quic_port == 0
            &&& c.http_gw_port == hp.1 && c.http_gw_port != 0 ==> !addresses_meet(
                hp.0,
                c.proxy_addr,
            )
            &&& c.https_gw_port == hp.1 && c.https_gw_port != 0 ==> !addresses_meet(
                hp.0,
                c.proxy_addr,
            )
            &&& c.http_gw_port == c.https_gw_port ==> c.http_gw_port == 0
            &&& c.dashboard.port != 0 ==> !all_white(c.dashboard.user) && !all_white(
                c.dashboard.password,
            )
        }),
{
    if host_port(c.listen, 9527) is Ok {
        let hp = host_port(c.listen, 9527)->Ok_0;
        listeners_that_conflict(hp.0, hp.1, c.proxy_addr, c.http_gw_port);
        listeners_that_conflict(hp.0, hp.1, c.proxy_addr, c.https_gw_port);
    }
    blank_is_all_white(c.dashboard.user);
    blank_is_all_white(c.dashboard.password);
}

/// Each fault is told of settings that have it, with the values that are wrong.
pub proof fn faults_tell_the_value(c: ServerConfigView)
    requires
        c.fault() is Some,
    ensures
        ({
            let f = c.fault()->0;
            match host_port(c.listen, 9527) {
                Err(cause) => f == (ServerFault::InvalidListen {
                    listen: c.listen,
                    cause,
                    raw: c.listen,
                }),
                Ok((host, port)) => {
                    ||| f == (ServerFault::QuicKcpPort { port: c.quic_port }) && c.quic_port != 0
                        && c.quic_port == c.kcp_port
                    ||| f == (ServerFault::HttpGwListen {
                        port,
                        listen: c.listen,
                        listen_host: host,
                        proxy_addr: c.proxy_addr,
                    }) && c.http_gw_port == port && addresses_meet(host, c.proxy_addr)
                    ||| f == (ServerFault::HttpsGwListen {
                        port,
                        listen: c.listen,
                        listen_host: host,
                        proxy_addr: c.proxy_addr,
                    }) && c.https_gw_port == port && addresses_meet(host, c.proxy_addr)
                    ||| f == (ServerFault::GwPorts { port: c.http_gw_port }) && c.http_gw_port != 0
                        && c.http_gw_port == c.https_gw_port
                    ||| f is DashboardCredentials && c.dashboard.port != 0 && (all_white(
                        c.dashboard.user,
                    ) || all_white(c.dashboard.password))
                },
            }
        }),
{
    if host_port(c.listen, 9527) is Ok {
        let hp = host_port(c.listen, 9527)->Ok_0;
        listeners_that_conflict(hp.0, hp.1, c.proxy_addr, c.http_gw_port);
        listeners_that_conflict(hp.0, hp.1, c.proxy_addr, c.https_gw_port);
    }
    blank_is_all_white(c.dashboard.user);
    blank_is_all_white(c.dashboard.password);
}

/// Completing settings changes only what was left open: ports, names and secrets stay;
/// the address to listen on is written with its port; a trust store makes TLS a must; and
/// a heartbeat is waited for where connections are not shared.
pub proof fn completion_fills_what_was_open(c: ServerConfigView)
    ensures
        ({
            let d = c.completed();
            let t = c.transport;
            let u = d.transport;
            &&& d.quic_port == c.quic_port && d.kcp_port == c.kcp_port && d.http_gw_port
                == c.http_gw_port && d.https_gw_port == c.https_gw_port && d.root_domain
                == c.root_domain
            &&& d.auth.token == c.auth.token
            &&& d.auth.auth_type == if all_white(c.auth.auth_type) {
                "token"@
            } else {
                c.auth.auth_type
            }
            &&& d.listen == (match host_port(c.listen, 9527) {
                Ok((host, port)) => host + ":"@ + decimal(port as nat),
                Err(_) => "0.0.0.0"@ + ":"@ + decimal(9527),
            })
            &&& !all_white(c.proxy_addr) ==> d.proxy_addr == c.proxy_addr
            &&& all_white(c.proxy_addr) && host_port(d.listen, 9527) is Ok ==> d.proxy_addr == (
            host_port(d.listen, 9527)->Ok_0).0
            &&& c.udp_packet_size != 0 ==> d.udp_packet_size == c.udp_packet_size
            &&& c.udp_packet_size == 0 ==> d.udp_packet_size == 1500
            &&& d.dashboard.port == c.dashboard.port && d.dashboard.user == c.dashboard.user
                && d.dashboard.password == c.dashboard.password
            &&& d.dashboard.addr == if all_white(c.dashboard.addr) {
                "127.0.0.1"@
            } else {
                c.dashboard.addr
            }
            &&& u.tcp_mux == t.tcp_mux && u.mux_keepalive_secs == t.mux_keepalive_secs && u.quic
                == t.quic
            &&& t.max_conn_pool != 0 ==> u.max_conn_pool == t.max_conn_pool
            &&& t.max_conn_pool == 0 ==> u.max_conn_pool == 5
            &&& t.heartbeat_timeout != 0 ==> u.heartbeat_timeout == t.heartbeat_timeout
            &&& t.heartbeat_timeout == 0 && !t.tcp_mux ==> u.heartbeat_timeout == 90
            &&& t.heartbeat_timeout == 0 && t.tcp_mux ==> u.heartbeat_timeout == -1
            &&& u.tls.force <==> t.tls.force || !all_white(t.tls.trusted_ca_file)
            &&& u.tls.cert_file == t.tls.cert_file && u.tls.key_file == t.tls.key_file
                && u.tls.trusted_ca_file == t.tls.trusted_ca_file
        }),
{
    blank_is_all_white(c.auth.auth_type);
    blank_is_all_white(c.proxy_addr);
    blank_is_all_white(c.dashboard.addr);
    blank_is_all_white(c.transport.tls.trusted_ca_file);
}

/// Where paths are found, those of the certificate, the key and the trust store are, each
/// from its own setting; every other setting stays as it was.
pub proof fn paths_are_found_each_from_its_own<F: Fn(&String) -> String>(
    resolve: F,
    before: ServerConfig,
    after: ServerConfig,
)
    requires
        server_paths_resolved(resolve, before, after),
    ensures
        call_ensures(resolve, (&before.transport.tls.cert_file,), after.transport.tls.cert_file),
        call_ensures(resolve, (&before.transport.tls.key_file,), after.transport.tls.key_file),
        call_ensures(
            resolve,
            (&before.transport.tls.trusted_ca_file,),
            after.transport.tls.trusted_ca_file,
        ),
        after.transport.tls.force == before.transport.tls.force,
        after.listen == before.listen && after.auth == before.auth && after.dashboard
            == before.dashboard && after.proxy_addr == before.proxy_addr && after.root_domain
            == before.root_domain,
        after.http_gw_port == before.http_gw_port && after.https_gw_port == before.https_gw_port
            && after.quic_port == before.quic_port && after.kcp_port == before.kcp_port
            && after.udp_packet_size == before.udp_packet_size,
{
}

/// The checks see the settings of a server as they were written.
pub proof fn settings_are_checked_as_written(c: ServerConfig)
    ensures
        c@.listen == c.listen@ && c@.proxy_addr == c.proxy_addr@ && c@.root_domain == c.root_domain@,
        c@.quic_port == c.quic_port && c@.kcp_port == c.kcp_port && c@.http_gw_port
            == c.http_gw_port && c@.https_gw_port == c.https_gw_port && c@.udp_packet_size
            == c.udp_packet_size,
        c@.auth.auth_type == c.auth.auth_type@ && c@.auth.token == c.auth.token@,
        c@.dashboard.addr == c.dashboard.addr@ && c@.dashboard.port == c.dashboard.port
            && c@.dashboard.user == c.dashboard.user@ && c@.dashboard.password
            == c.dashboard.password@,
        c@.transport.tcp_mux == c.transport.tcp_mux && c@.transport.mux_keepalive_secs
            == c.transport.mux_keepalive_secs && c@.transport.max_conn_pool
            == c.transport.max_conn_pool && c@.transport.heartbeat_timeout
            == c.transport.heartbeat_timeout && c@.transport.quic == c.transport.quic
            && c@.transport.ws_path == c.transport.ws_path@,
        c@.transport.tls.force == c.transport.tls.force && c@.transport.tls.cert_file
            == c.transport.tls.cert_file@ && c@.transport.tls.key_file == c.transport.tls.key_file@
            && c@.transport.tls.trusted_ca_file == c.transport.tls.trusted_ca_file@,
{
}

} // verus!
