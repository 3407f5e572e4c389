//! What a request for a tunnel carries of the tunnel's settings.
use vstd::prelude::*;

use crate::client::register::{tunnel_fault, tunnel_request, TunnelFault};
use crate::config::client::{TunnelConfig, TunnelView};
use crate::config::host_port::host_port;
use crate::msg::{NewTunnel, NewTunnelView};
use crate::text::{lower_all, texts, trim};

verus! {

/// The four kinds of tunnels have four names.
proof fn lemma_kinds_differ()
    ensures
        "tcp"@ != "http"@,
        "tcp"@ != "https"@,
        "udp"@ != "http"@,
        "udp"@ != "https"@,
        "tcp"@ != "udp"@,
        "http"@ != "https"@,
{
    reveal_strlit("tcp");
    reveal_strlit("udp");
    reveal_strlit("http");
    reveal_strlit("https");
    assert("tcp"@[0] != "udp"@[0]);
    assert("http"@.len() == 4 && "https"@.len() == 5);
}

/// The request for an http tunnel carries the domains, the locations, the user and
/// password and the host rewrite of the settings, each as it stands there.
pub proof fn http_requests_carry_the_settings(t: TunnelView)
    requires
        t.protocol == "http"@,
        tunnel_fault(t) is None,
    ensures
        tunnel_request(t) matches Ok(m) && m.domains == t.domains && m.locations == t.locations
            && m.basic_auth_user == t.basic_auth_user && m.basic_auth_password
            == t.basic_auth_password && m.host_header_rewrite == t.host_header_rewrite,
{
    lemma_kinds_differ();
}

/// The request for an https tunnel carries the domains and nothing of what only the
/// server's http gateway reads.
pub proof fn https_requests_carry_the_domains(t: TunnelView)
    requires
        t.protocol == "https"@,
        tunnel_fault(t) is None,
    ensures
        tunnel_request(t) matches Ok(m) && m.domains == t.domains && m.locations.len() == 0
            && m.basic_auth_user.len() == 0 && m.basic_auth_password.len() == 0
            && m.host_header_rewrite.len() == 0,
{
    lemma_kinds_differ();
    reveal_strlit("");
}

/// The request for a tcp or udp tunnel carries the port to open, and nothing that is
/// meant for a gateway.
pub proof fn port_requests_carry_the_port(t: TunnelView)
    requires
        t.protocol == "tcp"@ || t.protocol == "udp"@,
        tunnel_fault(t) is None,
    ensures
        t.remote_port != 0,
        tunnel_request(t) matches Ok(m) && m.remote_port == t.remote_port && m.domains.len() == 0
            && m.locations.len() == 0 && m.basic_auth_user.len() == 0
            && m.basic_auth_password.len() == 0 && m.host_header_rewrite.len() == 0,
{
    lemma_kinds_differ();
    reveal_strlit("");
}

/// Every request carries the name, the protocol, the bandwidth and the address of the
/// service as the settings have them; a limit at the client is the server's no concern,
/// and any other side is sent in lower case.
pub proof fn requests_name_the_tunnel(t: TunnelView)
    requires
        tunnel_request(t) is Ok,
    ensures
        ({
            let m = tunnel_request(t)->Ok_0;
            let side = lower_all(trim(t.transport.bandwidth_limit_side));
            let raw = trim(t.service);
            &&& m.tunnel_name == t.name
            &&& m.protocol == t.protocol
            &&& m.bandwidth_bits == t.transport.bandwidth_bits
            &&& side == "client"@ ==> m.bandwidth_limit_side.len() == 0
            &&& side != "client"@ ==> m.bandwidth_limit_side == side
            &&& m.headers.len() == 0
            &&& m.response_headers.len() == 0
            &&& raw.len() == 0 ==> m.local_ip == "127.0.0.1"@ && m.local_port == 0
            &&& raw.len() > 0 ==> (host_port(raw, 0) matches Ok(hp) && hp.0 == m.local_ip && hp.1
                == m.local_port && hp.1 != 0)
            &&& t.protocol == "http"@ || t.protocol == "https"@ ==> m.remote_port == 0
        }),
{
    lemma_kinds_differ();
    reveal_strlit("");
}

/// A tunnel can be asked for if and only if its protocol is one of the four, a tcp or
/// udp tunnel names a port, and its service is a host with a port, or is left out where
/// a plugin serves the tunnel.
pub proof fn tunnels_that_can_be_asked_for(t: TunnelView)
    ensures
        tunnel_fault(t) is None <==> {
            &&& t.protocol == "tcp"@ || t.protocol == "udp"@ || t.protocol == "http"@ || t.protocol
                == "https"@
            &&& t.protocol == "tcp"@ || t.protocol == "udp"@ ==> t.remote_port != 0
            &&& if trim(t.service).len() == 0 {
                t.plugin is Some && trim(t.plugin->0.plugin_type).len() > 0
            } else {
                host_port(trim(t.service), 0) matches Ok(hp) && hp.1 != 0
            }
        },
{
    lemma_kinds_differ();
}

/// The message that asks for a tunnel, field by field against the settings of the tunnel:
/// none is lost, mixed up or made up on the way.
pub proof fn messages_carry_the_settings(t: TunnelConfig, m: NewTunnel)
    requires
        tunnel_request(t@) == Ok::<NewTunnelView, TunnelFault>(m@),
    ensures
        m.tunnel_name@ == t.name@,
        m.protocol@ == t.protocol@,
        m.bandwidth_bits == t.transport.bandwidth_bits,
        m.headers@.len() == 0 && m.response_headers@.len() == 0,
        t.protocol@ == "tcp"@ || t.protocol@ == "udp"@ ==> m.remote_port == t.remote_port
            && m.domains@.len() == 0 && m.locations@.len() == 0 && m.basic_auth_user@.len() == 0
            && m.basic_auth_password@.len() == 0 && m.host_header_rewrite@.len() == 0,
        t.protocol@ == "http"@ || t.protocol@ == "https"@ ==> m.remote_port == 0 && m.domains@.len()
            == t.domains@.len() && forall|i: int|
            0 <= i < t.domains@.len() ==> (#[trigger] m.domains@[i])@ == t.domains@[i]@,
        t.protocol@ == "http"@ ==> m.locations@.len() == t.locations@.len() && (forall|i: int|
            0 <= i < t.locations@.len() ==> (#[trigger] m.locations@[i])@ == t.locations@[i]@)
            && m.basic_auth_user@ == t.basic_auth_user@ && m.basic_auth_password@
            == t.basic_auth_password@ && m.host_header_rewrite@ == t.host_header_rewrite@,
        t.protocol@ == "https"@ ==> m.locations@.len() == 0 && m.basic_auth_user@.len() == 0
            && m.basic_auth_password@.len() == 0 && m.host_header_rewrite@.len() == 0,
{
    lemma_kinds_differ();
    reveal_strlit("");
    if t.protocol@ == "http"@ || t.protocol@ == "https"@ {
        assert(texts(m.domains@) == texts(t.domains@));
        assert(texts(m.domains@).len() == texts(t.domains@).len());
        assert forall|i: int| 0 <= i < t.domains@.len() implies (#[trigger] m.domains@[i])@
            == t.domains@[i]@ by {
            assert(texts(m.domains@)[i] == texts(t.domains@)[i]);
        }
    }
    if t.protocol@ == "http"@ {
        assert(texts(m.locations@) == texts(t.locations@));
        assert(texts(m.locations@).len() == texts(t.locations@).len());
        assert forall|i: int| 0 <= i < t.locations@.len() implies (#[trigger] m.locations@[i])@
            == t.locations@[i]@ by {
            assert(texts(m.locations@)[i] == texts(t.locations@)[i]);
        }
    } else {
        assert(texts(m.locations@).len() == 0);
    }
    if t.protocol@ == "tcp"@ || t.protocol@ == "udp"@ {
        assert(texts(m.domains@).len() == 0);
    }
}

} // verus!
