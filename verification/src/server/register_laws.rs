//! What a registration starts and when it is refused, in terms of the request and of
//! what is held.
use vstd::prelude::*;

use crate::msg::NewTunnel;
use crate::server::register::{
    all_detached, begun, completed, detached, is_late, kind_at, remote_addr, started_slot, Books,
    Gateways, OwnerView, RefusalView, SlotView, StartPlan, TunnelKind,
};
use crate::text::decimal;

verus! {

/// The four kinds of tunnels have four names.
proof fn lemma_kinds_differ()
    ensures
        "tcp"@ != "http"@,
        "tcp"@ != "https"@,
        "udp"@ != "http"@,
        "udp"@ != "https"@,
        "tcp"@ != "udp"@,
        "http"@ != "https"@,
{
    reveal_strlit("tcp");
    reveal_strlit("udp");
    reveal_strlit("http");
    reveal_strlit("https");
    assert("tcp"@[0] != "udp"@[0]);
    assert("http"@.len() == 4 && "https"@.len() == 5);
}

/// The tunnel that is started is of the kind that was asked for. It takes the port that
/// was asked for where it is a tunnel of tcp or udp, and otherwise stands behind the
/// gateway of its own kind.
pub proof fn tunnels_start_as_asked_for(
    b: Books,
    owner: OwnerView,
    closed: bool,
    np: NewTunnel,
    gws: Gateways,
    limit_error: Option<Seq<char>>,
)
    ensures
        begun(b, owner, closed, np, gws, limit_error).1 matches Ok(w) ==> {
            &&& w.kind.text() == np.protocol@
            &&& w.kind is Tcp <==> np.protocol@ == "tcp"@
            &&& w.kind is Udp <==> np.protocol@ == "udp"@
            &&& w.kind is Http <==> np.protocol@ == "http"@
            &&& w.kind is Https <==> np.protocol@ == "https"@
            &&& w.kind is Tcp || w.kind is Udp ==> w.gw_port is None && w.port is Some
                && w.port->0 == np.remote_port
            &&& w.kind is Http ==> w.port is None && w.gw_port is Some && w.gw_port == gws.http
            &&& w.kind is Https ==> w.port is None && w.gw_port is Some && w.gw_port == gws.https
        },
{
    lemma_kinds_differ();
}

/// Whether a name is free for this owner: nobody has it, or a tunnel of the owner's own
/// that makes way.
pub open spec fn name_is_free(b: Books, owner: OwnerView, name: Seq<char>) -> bool {
    b.shared.names.dom().contains(name) ==> b.tunnels.dom().contains(name) && b.shared.names[name]
        == owner
}

/// Whether the port asked for is free: nobody has it, or the tunnel that makes way does.
pub open spec fn port_is_free(b: Books, kind: TunnelKind, port: u16, name: Seq<char>) -> bool {
    let ports = if kind is Tcp {
        b.shared.tcp
    } else {
        b.shared.udp
    };
    ports.dom().contains(port) ==> {
        &&& ports[port] == name
        &&& b.tunnels.dom().contains(name)
        &&& b.tunnels[name].kind == kind
        &&& b.tunnels[name].port == Some(port)
    }
}

/// A registration goes on if and only if the session is open, the protocol is known and
/// can be served, no limit stands against it, and the name and the port are free.
pub proof fn registrations_that_go_on(
    b: Books,
    owner: OwnerView,
    closed: bool,
    np: NewTunnel,
    gws: Gateways,
    limit_error: Option<Seq<char>>,
)
    ensures
        begun(b, owner, closed, np, gws, limit_error).1 is Ok <==> {
            &&& !closed
            &&& limit_error is None
            &&& name_is_free(b, owner, np.tunnel_name@)
            &&& {
                ||| np.protocol@ == "tcp"@ && 0 < np.remote_port <= 65535 && port_is_free(
                    b,
                    TunnelKind::Tcp,
                    np.remote_port as u16,
                    np.tunnel_name@,
                )
                ||| np.protocol@ == "udp"@ && 0 < np.remote_port <= 65535 && port_is_free(
                    b,
                    TunnelKind::Udp,
                    np.remote_port as u16,
                    np.tunnel_name@,
                )
                ||| np.protocol@ == "http"@ && gws.http is Some
                ||| np.protocol@ == "https"@ && gws.https is Some
            }
        },
{
    lemma_kinds_differ();
}

/// Each refusal at the beginning of a registration tells what stood against it.
pub proof fn refusals_tell_the_reason(
    b: Books,
    owner: OwnerView,
    closed: bool,
    np: NewTunnel,
    gws: Gateways,
    limit_error: Option<Seq<char>>,
)
    ensures
        begun(b, owner, closed, np, gws, limit_error).1 matches Err(e) ==> {
            &&& e is Closed <==> closed
            &&& e is RemotePort ==> (np.protocol@ == "tcp"@ || np.protocol@ == "udp"@) && !(0
                < np.remote_port <= 65535)
            &&& e is HttpGwMissing ==> np.protocol@ == "http"@ && gws.http is None
            &&& e is HttpsGwMissing ==> np.protocol@ == "https"@ && gws.https is None
            &&& e matches RefusalView::Protocol { protocol } ==> protocol == np.protocol@
                && protocol != "tcp"@ && protocol != "udp"@ && protocol != "http"@ && protocol
                != "https"@
            &&& e matches RefusalView::Limit { error } ==> limit_error == Some(error)
            &&& e matches RefusalView::NameTaken { name } ==> name == np.tunnel_name@
                && b.shared.names.dom().contains(name) && (b.shared.names[name] != owner
                || !b.tunnels.dom().contains(name))
            &&& e matches RefusalView::PortInUse { port, holder } ==> {
                &&& port == np.remote_port
                &&& np.protocol@ == "tcp"@ ==> b.shared.tcp.dom().contains(port)
                    && b.shared.tcp[port] == holder
                &&& np.protocol@ == "udp"@ ==> b.shared.udp.dom().contains(port)
                    && b.shared.udp[port] == holder
                &&& np.protocol@ == "tcp"@ || np.protocol@ == "udp"@
            }
            &&& !(e is PortZero || e is Start || e is AlreadyPresent)
        },
{
    lemma_kinds_differ();
}

/// A registration that goes on takes the name for the owner and the port of its own
/// protocol for the tunnel, and leaves the ports of the other protocol alone.
pub proof fn registrations_take_name_and_port(
    b: Books,
    owner: OwnerView,
    np: NewTunnel,
    gws: Gateways,
)
    requires
        !b.tunnels.dom().contains(np.tunnel_name@),
        begun(b, owner, false, np, gws, None).1 is Ok,
    ensures
        ({
            let after = begun(b, owner, false, np, gws, None).0;
            let port = np.remote_port as u16;
            &&& after.tunnels == b.tunnels
            &&& after.shared.names == b.shared.names.insert(np.tunnel_name@, owner)
            &&& np.protocol@ == "tcp"@ ==> after.shared.tcp == b.shared.tcp.insert(
                port,
                np.tunnel_name@,
            )
            &&& np.protocol@ == "udp"@ ==> after.shared.udp == b.shared.udp.insert(
                port,
                np.tunnel_name@,
            )
            &&& np.protocol@ != "tcp"@ ==> after.shared.tcp == b.shared.tcp
            &&& np.protocol@ != "udp"@ ==> after.shared.udp == b.shared.udp
        }),
{
    lemma_kinds_differ();
}

/// A refused registration takes nothing. Before the owner's tunnel of that name has made
/// way nothing changes at all; after that, it alone is gone.
pub proof fn refused_registrations_take_nothing(
    b: Books,
    owner: OwnerView,
    closed: bool,
    np: NewTunnel,
    gws: Gateways,
    limit_error: Option<Seq<char>>,
    port: u16,
    name: Seq<char>,
)
    requires
        begun(b, owner, closed, np, gws, limit_error).1 is Err,
    ensures
        ({
            let (after, result) = begun(b, owner, closed, np, gws, limit_error);
            let e = result->Err_0;
            &&& !(e is NameTaken || e is PortInUse) ==> after == b
            &&& e is NameTaken || e is PortInUse ==> !after.tunnels.dom().contains(np.tunnel_name@)
            &&& name != np.tunnel_name@ ==> (after.tunnels.dom().contains(name)
                <==> b.tunnels.dom().contains(name))
            &&& after.shared.names.dom().contains(name) ==> b.shared.names.dom().contains(name)
                && after.shared.names[name] == b.shared.names[name]
            &&& after.shared.tcp.dom().contains(port) ==> b.shared.tcp.dom().contains(port)
                && after.shared.tcp[port] == b.shared.tcp[port]
            &&& after.shared.udp.dom().contains(port) ==> b.shared.udp.dom().contains(port)
                && after.shared.udp[port] == b.shared.udp[port]
        }),
{
}

/// A tunnel that is taken down is gone, and with it its name and its port where they
/// were its own; every other tunnel, name and port stays.
pub proof fn detaching_takes_one_tunnel(
    b: Books,
    name: Seq<char>,
    owner: OwnerView,
    other: Seq<char>,
    port: u16,
)
    requires
        b.tunnels.dom().contains(name),
    ensures
        ({
            let after = detached(b, name, owner);
            let slot = b.tunnels[name];
            &&& after.tunnels == b.tunnels.remove(name)
            &&& after.shared.names.dom().contains(name) <==> (b.shared.names.dom().contains(name)
                && b.shared.names[name] != owner)
            &&& other != name ==> (after.shared.names.dom().contains(other)
                <==> b.shared.names.dom().contains(other))
            &&& after.shared.names.dom().contains(other) ==> after.shared.names[other]
                == b.shared.names[other]
            &&& after.shared.tcp.dom().contains(port) <==> (b.shared.tcp.dom().contains(port) && !(
            slot.kind is Tcp && slot.port == Some(port) && b.shared.tcp[port] == name))
            &&& after.shared.tcp.dom().contains(port) ==> after.shared.tcp[port]
                == b.shared.tcp[port]
            &&& after.shared.udp.dom().contains(port) <==> (b.shared.udp.dom().contains(port) && !(
            slot.kind is Udp && slot.port == Some(port) && b.shared.udp[port] == name))
            &&& after.shared.udp.dom().contains(port) ==> after.shared.udp[port]
                == b.shared.udp[port]
        }),
{
}

/// A registration is completed if and only if the tunnel started and none of its name is
/// there; only then is it listed, and only a failed start is told as one.
pub proof fn completions_by_what_started(
    b: Books,
    owner: OwnerView,
    name: Seq<char>,
    slot: SlotView,
    start_error: Option<Seq<char>>,
)
    ensures
        ({
            let (after, result) = completed(b, owner, name, slot, start_error);
            &&& result is Ok <==> start_error is None && !b.tunnels.dom().contains(name)
            &&& result is Ok ==> after.tunnels == b.tunnels.insert(name, slot) && after.shared
                == b.shared
            &&& result is Err ==> after.tunnels == b.tunnels
            &&& start_error matches Some(error) ==> result == Err::<(), RefusalView>(
                RefusalView::Start { error },
            )
            &&& start_error is None && result is Err ==> result == Err::<(), RefusalView>(
                RefusalView::AlreadyPresent { name },
            )
            &&& result is Err && b.shared.names.dom().contains(name) && b.shared.names[name]
                == owner ==> !after.shared.names.dom().contains(name)
        }),
{
}

/// The address that is told of a tunnel is its port behind a colon, or each of its
/// domains with the port of the gateway.
pub proof fn addresses_name_the_port(port: u16, gw_port: Option<u16>, domain: Seq<char>)
    ensures
        remote_addr(Some(port), gw_port, seq![domain]) == seq![':'] + decimal(port as nat),
        remote_addr(None, Some(port), seq![domain]) == domain + seq![':'] + decimal(port as nat),
        remote_addr(None, Some(port), seq![]) == Seq::<char>::empty(),
{
    reveal_strlit(":");
    reveal_strlit("");
    assert(":"@ =~= seq![':']);
    assert(seq![domain].last() == domain);
}

/// The kind that is told of a tunnel that made way is the kind of the tunnel that was
/// there under the name, and none where there was none.
pub proof fn replaced_kinds_are_told(
    tunnels: Map<Seq<char>, SlotView>,
    name: Seq<char>,
    slot: SlotView,
)
    ensures
        kind_at(tunnels.insert(name, slot), name) == Some(slot.kind),
        kind_at(tunnels.remove(name), name) is None,
        kind_at(tunnels, name) is Some <==> tunnels.dom().contains(name),
{
}

/// Only a refusal that comes after the owner's own tunnel made way has changed anything.
pub proof fn early_refusals_change_nothing(
    b: Books,
    owner: OwnerView,
    closed: bool,
    np: NewTunnel,
    gws: Gateways,
    limit_error: Option<Seq<char>>,
)
    ensures
        begun(b, owner, closed, np, gws, limit_error).1 matches Err(e) ==> {
            &&& is_late(e) <==> e is NameTaken || e is PortInUse
            &&& !is_late(e) ==> begun(b, owner, closed, np, gws, limit_error).0 == b
            &&& is_late(e) ==> begun(b, owner, closed, np, gws, limit_error).0 == detached(
                b,
                np.tunnel_name@,
                owner,
            )
        },
{
}

/// Taking down a list of tunnels takes down each of them and no other.
pub proof fn listed_tunnels_are_taken_down(
    b: Books,
    names: Seq<Seq<char>>,
    owner: OwnerView,
    name: Seq<char>,
)
    ensures
        all_detached(b, names, owner).tunnels.dom().contains(name) <==> b.tunnels.dom().contains(
            name,
        ) && !names.contains(name),
        all_detached(b, names, owner).tunnels.dom().contains(name) ==> all_detached(
            b,
            names,
            owner,
        ).tunnels[name] == b.tunnels[name],
    decreases names.len(),
{
    if names.len() > 0 {
        listed_tunnels_are_taken_down(b, names.drop_last(), owner, name);
        assert(names.contains(name) <==> names.drop_last().contains(name) || names.last() == name)
            by {
            if names.contains(name) && names.last() != name {
                let i = choose|i: int| 0 <= i < names.len() && names[i] == name;
                assert(names.drop_last()[i] == name);
            }
            if names.drop_last().contains(name) {
                let i = choose|i: int| 0 <= i < names.len() - 1 && names.drop_last()[i] == name;
                assert(names[i] == name);
            }
            assert(names[names.len() - 1] == names.last());
        }
    }
}

/// What is noted of a tunnel that started is what was planned for it, where its service
/// stands, and the address at which it can be reached.
pub proof fn started_tunnels_are_noted(
    plan: StartPlan,
    started: Result<Vec<String>, String>,
    local: Seq<char>,
)
    ensures
        ({
            let slot = started_slot(plan, started, local);
            &&& slot.kind == plan.kind && slot.port == plan.port && slot.local == local
            &&& plan.port matches Some(p) ==> slot.remote == seq![':'] + decimal(p as nat)
        }),
{
    reveal_strlit(":");
    assert(":"@ =~= seq![':']);
}

} // verus!
