//! What holds of a client in a session: its heartbeat, what it makes of messages, and
//! the names and addresses that it shows.
use vstd::prelude::*;

use crate::client::register::{remote_shown, server_part, tunnel_fault};
use crate::client::request_laws::messages_carry_the_settings;
use crate::client::session::{
    asks_for, bears_name, first_set, is_silent, machine_name, message_taken, named, ping_interval,
    pong_timeout, Control, ServerMessage, SessionAction,
};
use crate::client::tls_term::{
    head_outcome, http_head, read_outcome, with_host, HeadError, HttpFault,
};
use crate::config::client::{ClientConfig, TransportView, TunnelConfig};
use crate::config::host_port::host_port;
use crate::msg::NewTunnel;
use crate::net::http_lines::{blank_index, is_header, line_ending};
use crate::net::http_lines::{lemma_blank_index, lemma_first_header};
use crate::text::{last_of, trim};
use crate::text::lemma_last_of;

verus! {

/// A client pings as often as it was told to; where it was not told, as often as shared
/// connections are kept alive; and otherwise not at all.
pub proof fn pings_as_told(t: TransportView)
    ensures
        t.heartbeat_interval > 0 ==> ping_interval(t) == t.heartbeat_interval,
        ping_interval(t) > 0 <==> t.heartbeat_interval > 0 || (t.tcp_mux && t.mux_keepalive_secs
            > 0),
        t.heartbeat_interval <= 0 && ping_interval(t) > 0 ==> ping_interval(t)
            == t.mux_keepalive_secs,
        ping_interval(t) <= 0 ==> ping_interval(t) == -1,
{
}

/// A client waits for an answer as long as it was told to; where it was told neither that
/// nor how often to ping, three times as long as it pauses between pings on a shared
/// connection; and otherwise without end.
pub proof fn waits_as_told(t: TransportView)
    ensures
        t.heartbeat_timeout > 0 ==> pong_timeout(t) == t.heartbeat_timeout,
        pong_timeout(t) > 0 <==> t.heartbeat_timeout > 0 || (t.heartbeat_interval <= 0 && t.tcp_mux
            && t.mux_keepalive_secs > 0),
        t.heartbeat_timeout <= 0 && pong_timeout(t) > 0 ==> (pong_timeout(t) == 3 * ping_interval(
            t,
        ) || (pong_timeout(t) == i64::MAX && 3 * ping_interval(t) > i64::MAX)),
        pong_timeout(t) <= 0 ==> pong_timeout(t) == -1,
{
}

/// The other end is silent once more than the timeout has passed since it was last
/// heard, and never before it was heard at all.
pub proof fn silence_is_counted_from_the_last_answer(last: i64, now: i64, timeout: i64)
    ensures
        last <= 0 ==> !is_silent(last, now, timeout),
        last > 0 && now <= last + timeout ==> !is_silent(last, now, timeout),
        last > 0 && now > last + timeout ==> is_silent(last, now, timeout),
{
}

/// What a client makes of a message: only an answer to a ping counts as a sign of life,
/// only what the server says of a tunnel ends the wait for that tunnel, an error among it
/// is kept, and only being thrown out makes it leave.
pub proof fn messages_have_their_effect(
    before: Control,
    after: Control,
    msg: ServerMessage,
    server: Seq<char>,
    now: i64,
    action: SessionAction,
    other: Seq<char>,
)
    requires
        message_taken(before, after, msg, server, now, action),
    ensures
        after.session() == before.session() && after.tunnels() == before.tunnels(),
        msg is Pong ==> after.last_pong() == now,
        msg !is Pong ==> after.last_pong() == before.last_pong(),
        action is Leave <==> msg is KickOut,
        action is OpenDataConn <==> msg is ReqDataConn,
        action is Ignored <==> msg is Other,
        msg matches ServerMessage::KickOut { reason } ==> action->reason@ == reason@,
        msg !is NewTunnelResp ==> after.watch() == before.watch(),
        msg matches ServerMessage::NewTunnelResp(resp) ==> {
            &&& !after.watch().pending().contains(resp.tunnel_name@)
            &&& other != resp.tunnel_name@ ==> after.watch().pending().contains(other)
                == before.watch().pending().contains(other)
            &&& action is TunnelStarted <==> resp.error@.len() == 0
            &&& action matches SessionAction::TunnelStarted { name, remote } ==> name@
                == resp.tunnel_name@ && remote@ == remote_shown(server, resp.remote_addr@)
            &&& resp.error@.len() == 0 ==> after.watch().errors() == before.watch().errors()
            &&& resp.error@.len() > 0 ==> after.watch().errors().dom().contains(resp.tunnel_name@)
                && after.watch().errors()[resp.tunnel_name@] == resp.error@
        },
{
}

/// A machine has the name that the system gives, or that of the first variable that is
/// set, without white space around it; a name that is blank is none.
pub proof fn machines_are_named(system: Option<Seq<char>>, vars: Seq<Option<Seq<char>>>, i: int)
    ensures
        machine_name(system, vars).len() > 0,
        system is Some && trim(system->0).len() > 0 ==> machine_name(system, vars) == trim(
            system->0,
        ),
        (system is None || trim(system->0).len() == 0) && 0 <= i < vars.len() && vars[i] is Some
            && (forall|j: int| 0 <= j < i ==> (#[trigger] vars[j]) is None) ==> machine_name(
            system,
            vars,
        ) == (if trim(vars[i]->0).len() > 0 {
            trim(vars[i]->0)
        } else {
            "unknown"@
        }),
        (system is None || trim(system->0).len() == 0) && (forall|j: int|
            0 <= j < vars.len() ==> (#[trigger] vars[j]) is None) ==> machine_name(system, vars)
            == "unknown"@,
{
    reveal_strlit("unknown");
    if 0 <= i < vars.len() && vars[i] is Some && (forall|j: int|
        0 <= j < i ==> (#[trigger] vars[j]) is None) {
        lemma_first_set(vars, i);
    }
    if forall|j: int| 0 <= j < vars.len() ==> (#[trigger] vars[j]) is None {
        lemma_none_set(vars);
    }
}

proof fn lemma_first_set(vars: Seq<Option<Seq<char>>>, i: int)
    requires
        0 <= i < vars.len(),
        vars[i] is Some,
        forall|j: int| 0 <= j < i ==> (#[trigger] vars[j]) is None,
    ensures
        first_set(vars) == vars[i],
    decreases i,
{
    if i > 0 {
        assert(vars[0] is None);
        assert forall|j: int| 0 <= j < i - 1 implies (#[trigger] vars.skip(1)[j]) is None by {
            assert(vars[j + 1] is None);
        }
        lemma_first_set(vars.skip(1), i - 1);
    }
}

proof fn lemma_none_set(vars: Seq<Option<Seq<char>>>)
    requires
        forall|j: int| 0 <= j < vars.len() ==> (#[trigger] vars[j]) is None,
    ensures
        first_set(vars) is None,
    decreases vars.len(),
{
    if vars.len() > 0 {
        assert(vars[0] is None);
        assert forall|j: int| 0 <= j < vars.len() - 1 implies (#[trigger] vars.skip(1)[j])
            is None by {
            assert(vars[j + 1] is None);
        }
        lemma_none_set(vars.skip(1));
    }
}

/// An address that is a port alone is shown behind the host that the client connects to;
/// every other address is shown as it came, without white space around it.
pub proof fn addresses_are_shown_whole(
    server: Seq<char>,
    remote: Seq<char>,
    host: Seq<char>,
    port: Seq<char>,
)
    ensures
        trim(remote).len() > 1 && trim(remote)[0] == ':' && server_part(server).len() > 0
            ==> remote_shown(server, remote) == server_part(server) + trim(remote),
        trim(remote).len() <= 1 || trim(remote)[0] != ':' || server_part(server).len() == 0
            ==> remote_shown(server, remote) == trim(remote),
        trim(server) == host + seq![':'] + port && !port.contains(':') ==> server_part(server)
            == host,
        !trim(server).contains(':') ==> server_part(server) == trim(server),
{
    let s = trim(server);
    if s == host + seq![':'] + port && !port.contains(':') {
        let k = host.len() as int;
        assert(s[k] == ':');
        assert(s.contains(':'));
        lemma_last_of(s, ':');
        let l = last_of(s, ':');
        if l > k {
            assert(port[l - k - 1] == ':');
        }
        assert(s.take(k) =~= host);
    }
}

/// The name that TLS checks is the one that was set, without white space around it, or
/// else the host of the server.
pub proof fn tls_checks_the_right_name(cfg: ClientConfig)
    ensures
        trim(cfg.transport.tls.server_name@).len() > 0 ==> cfg.tls_name() == trim(
            cfg.transport.tls.server_name@,
        ),
        trim(cfg.transport.tls.server_name@).len() == 0 && host_port(cfg.server@, 9527) is Ok
            ==> cfg.tls_name() == (host_port(cfg.server@, 9527)->Ok_0).0,
        trim(cfg.transport.tls.server_name@).len() == 0 && host_port(cfg.server@, 9527) is Err
            ==> cfg.tls_name() == "localhost"@,
{
}

/// A head is split off the bytes that were read exactly where the parser says that it
/// ends; nothing is lost or added, and an end of input or too many bytes are errors
/// whatever the bytes are.
pub proof fn heads_are_split_off(
    buf: Seq<u8>,
    chunk: Seq<u8>,
    parsed: Result<Option<nat>, HttpFault>,
)
    ensures
        head_outcome(buf, parsed) matches Ok(Some((head, body))) ==> parsed == Ok::<
            Option<nat>,
            HttpFault,
        >(Some(head.len())) && head + body == buf,
        head_outcome(buf, parsed) matches Ok(None) ==> parsed == Ok::<Option<nat>, HttpFault>(None),
        parsed matches Ok(Some(n)) && n <= buf.len() ==> head_outcome(buf, parsed) is Ok,
        parsed matches Ok(None) ==> head_outcome(buf, parsed) is Ok,
        parsed matches Err(e) ==> head_outcome(buf, parsed) == Err::<
            Option<(Seq<u8>, Seq<u8>)>,
            HeadError,
        >(HeadError::Malformed(e)),
        chunk.len() == 0 ==> read_outcome(buf, chunk) == Err::<
            Option<(Seq<u8>, Seq<u8>)>,
            HeadError,
        >(HeadError::Closed),
        chunk.len() > 0 && buf.len() + chunk.len() > 65536 ==> read_outcome(buf, chunk) == Err::<
            Option<(Seq<u8>, Seq<u8>)>,
            HeadError,
        >(HeadError::TooLarge),
        read_outcome(buf, chunk) == Err::<Option<(Seq<u8>, Seq<u8>)>, HeadError>(
            HeadError::Closed,
        ) ==> chunk.len() == 0,
        read_outcome(buf, chunk) == Err::<Option<(Seq<u8>, Seq<u8>)>, HeadError>(
            HeadError::TooLarge,
        ) ==> buf.len() + chunk.len() > 65536,
{
    if let Ok(Some(n)) = parsed {
        if n <= buf.len() {
            assert(buf.take(n as int) + buf.skip(n as int) =~= buf);
        }
    }
}

/// Rewriting the host changes one line of the head at most: every other line stays, and
/// in its order.
pub proof fn rewriting_the_host_spares_other_lines(
    lines: Seq<Seq<char>>,
    host: Seq<char>,
    i: int,
)
    requires
        0 <= i < blank_index(lines),
        i == 0 || !is_header(lines[i], "host"@),
    ensures
        blank_index(lines) > 0 ==> with_host(lines, host)[i] == lines[i],
        with_host(lines, host).len() == lines.len() || with_host(lines, host).len() == lines.len()
            + 1,
        with_host(lines, host).contains("Host: "@ + host + line_ending(lines)),
{
    lemma_blank_index(lines);
    lemma_first_header(lines, "host"@, 1, blank_index(lines));
    let blank = blank_index(lines);
    let k = crate::net::http_lines::first_header(lines, "host"@, 1, blank);
    let out = with_host(lines, host);
    if k < blank {
        assert(out[k] == "Host: "@ + host + line_ending(lines));
    } else {
        assert(out[blank] == "Host: "@ + host + line_ending(lines));
    }
}

/// Bytes within bounds are handed to the parser whole, with room for sixty-four headers,
/// and split where it says.
pub proof fn whole_heads_are_parsed(buf: Seq<u8>, chunk: Seq<u8>)
    requires
        chunk.len() > 0,
        buf.len() + chunk.len() <= 65536,
    ensures
        read_outcome(buf, chunk) == head_outcome(buf + chunk, http_head(buf + chunk, 64)),
{
}

/// The names of some tunnels are those that one of them bears; one tunnel more adds its
/// own name.
pub proof fn tunnels_bear_their_names(tunnels: Seq<TunnelConfig>, t: TunnelConfig)
    ensures
        forall|name: Seq<char>| !(#[trigger] named(seq![]).contains(name)),
        named(tunnels.push(t)) == named(tunnels).insert(t.name@),
{
    let all = tunnels.push(t);
    assert forall|name: Seq<char>| !(#[trigger] named(seq![]).contains(name)) by {
        if named(seq![]).contains(name) {
            let i = choose|i: int| bears_name(seq![], name, i);
            assert(bears_name(seq![], name, i));
        }
    }
    assert forall|name: Seq<char>| #[trigger] named(all).contains(name) <==> named(tunnels).insert(
        t.name@,
    ).contains(name) by {
        if named(all).contains(name) {
            let i = choose|i: int| bears_name(all, name, i);
            if i < tunnels.len() {
                assert(bears_name(tunnels, name, i));
            }
        }
        if named(tunnels).contains(name) {
            let i = choose|i: int| bears_name(tunnels, name, i);
            assert(bears_name(all, name, i));
        }
        if name == t.name@ {
            assert(bears_name(all, name, tunnels.len() as int));
        }
    }
    assert(named(all) =~= named(tunnels).insert(t.name@));
}

/// A message asks for a tunnel only where the tunnel passes its check, and then under the
/// tunnel's name and protocol.
pub proof fn tunnels_are_asked_for_by_name(m: NewTunnel, t: TunnelConfig)
    requires
        asks_for(m, t),
    ensures
        tunnel_fault(t@) is None,
        m.tunnel_name@ == t.name@,
        m.protocol@ == t.protocol@,
{
    messages_carry_the_settings(t, m);
}

} // verus!
