//! How addresses are taken apart, form by form.
use vstd::prelude::*;

use crate::config::host_port::{host_port, HostPortFault};
use crate::text::{first_of, last_of, trim, unsigned_value};
use crate::text::{lemma_first_of, lemma_first_of_is, lemma_last_of, lemma_last_of_is};
use crate::transport::{protocol_named, ws_path, Protocol};

verus! {

/// The port that a text names: none at all and zero stand for the default, and what is no
/// number up to the largest port is refused.
pub open spec fn names_port(
    text: Seq<char>,
    default_port: u16,
    r: Result<u16, HostPortFault>,
) -> bool {
    if text.len() == 0 {
        r == Ok::<u16, HostPortFault>(default_port)
    } else {
        match unsigned_value(text, 65535) {
            None => r == Err::<u16, HostPortFault>(HostPortFault::BadPort),
            Some(n) => n > 0 && r == Ok::<u16, HostPortFault>(n as u16) || n == 0 && r == Ok::<
                u16,
                HostPortFault,
            >(default_port),
        }
    }
}

/// An address that is blank stands for every address, and a host without a port for that
/// host, each at the default port.
pub proof fn hosts_without_port_get_the_default(raw: Seq<char>, default_port: u16)
    ensures
        trim(raw).len() == 0 ==> host_port(raw, default_port) == Ok::<
            (Seq<char>, u16),
            HostPortFault,
        >(("0.0.0.0"@, default_port)),
        trim(raw).len() > 0 && trim(raw)[0] != '[' && !trim(raw).contains(':') ==> host_port(
            raw,
            default_port,
        ) == Ok::<(Seq<char>, u16), HostPortFault>((trim(raw), default_port)),
{
    lemma_first_of(trim(raw), ':');
}

/// A host and a port are parted at the one colon between them.
pub proof fn hosts_and_ports_are_parted(
    raw: Seq<char>,
    host: Seq<char>,
    port: Seq<char>,
    default_port: u16,
)
    requires
        trim(raw) == host + seq![':'] + port,
        host.len() > 0,
        host[0] != '[',
        !host.contains(':'),
        !port.contains(':'),
    ensures
        host_port(raw, default_port) matches Ok(hp) ==> hp.0 == host,
        names_port(
            port,
            default_port,
            match host_port(raw, default_port) {
                Ok(hp) => Ok(hp.1),
                Err(e) => Err(e),
            },
        ),
{
    let s = trim(raw);
    let k = host.len() as int;
    assert(s[k] == ':');
    assert(s[0] == host[0]);
    assert forall|j: int| 0 <= j < k implies s[j] != ':' by {
        assert(host[j] == s[j]);
    }
    assert forall|j: int| k < j < s.len() implies s[j] != ':' by {
        assert(port[j - k - 1] == s[j]);
    }
    lemma_first_of_is(s, ':', k);
    lemma_last_of_is(s, ':', k);
    assert(s.take(k) =~= host);
    assert(s.skip(k + 1) =~= port);
}

/// A text with more than one colon, without brackets, is a host at the default port.
pub proof fn bare_addresses_of_many_colons_are_hosts(
    raw: Seq<char>,
    i: int,
    j: int,
    default_port: u16,
)
    requires
        0 <= i < j < trim(raw).len(),
        trim(raw)[i] == ':',
        trim(raw)[j] == ':',
        trim(raw)[0] != '[',
    ensures
        host_port(raw, default_port) == Ok::<(Seq<char>, u16), HostPortFault>(
            (trim(raw), default_port),
        ),
{
    lemma_first_of(trim(raw), ':');
    lemma_last_of(trim(raw), ':');
    let s = trim(raw);
    assert(first_of(s, ':') <= i) by {
        if first_of(s, ':') > i {
            assert(s[i] != ':');
        }
    }
    assert(last_of(s, ':') >= j) by {
        if last_of(s, ':') < j {
            assert(s[j] != ':');
        }
    }
}

/// A host in brackets keeps them; behind them stands nothing, or a colon and a port.
pub proof fn bracketed_hosts_keep_their_brackets(
    raw: Seq<char>,
    inner: Seq<char>,
    rest: Seq<char>,
    default_port: u16,
)
    requires
        trim(raw) == seq!['['] + inner + seq![']'] + rest,
        !inner.contains(']'),
    ensures
        inner.len() == 0 ==> host_port(raw, default_port) == Err::<
            (Seq<char>, u16),
            HostPortFault,
        >(HostPortFault::EmptyHost),
        inner.len() > 0 && rest.len() == 0 ==> host_port(raw, default_port) == Ok::<
            (Seq<char>, u16),
            HostPortFault,
        >((seq!['['] + inner + seq![']'], default_port)),
        inner.len() > 0 && rest.len() > 0 && rest[0] != ':' ==> host_port(raw, default_port)
            == Err::<(Seq<char>, u16), HostPortFault>(HostPortFault::ExpectedColon),
        inner.len() > 0 && rest.len() > 0 && rest[0] == ':' ==> names_port(
            rest.skip(1),
            default_port,
            match host_port(raw, default_port) {
                Ok(hp) => Ok(hp.1),
                Err(e) => Err(e),
            },
        ) && (host_port(raw, default_port) matches Ok(hp) ==> hp.0 == seq!['['] + inner + seq![
            ']',
        ]),
{
    let s = trim(raw);
    let k = inner.len() as int + 1;
    assert(s[0] == '[');
    assert(s[k] == ']');
    assert forall|j: int| 0 <= j < k implies s[j] != ']' by {
        if j > 0 {
            assert(inner[j - 1] == s[j]);
        }
    }
    lemma_first_of_is(s, ']', k);
    assert(s.take(k + 1) =~= seq!['['] + inner + seq![']']);
    assert(s.skip(k + 1) =~= rest);
}

/// A bracket that is not closed is refused.
pub proof fn open_brackets_are_refused(raw: Seq<char>, default_port: u16)
    requires
        trim(raw).len() > 0,
        trim(raw)[0] == '[',
        !trim(raw).contains(']'),
    ensures
        host_port(raw, default_port) == Err::<(Seq<char>, u16), HostPortFault>(
            HostPortFault::MissingBracket,
        ),
{
    lemma_first_of(trim(raw), ']');
}

/// Each transport has its own name, and no other text names one.
pub proof fn transports_have_their_names(name: Seq<char>)
    ensures
        protocol_named(name) == Some(Protocol::Tcp) <==> name == "tcp"@,
        protocol_named(name) == Some(Protocol::Quic) <==> name == "quic"@,
        protocol_named(name) == Some(Protocol::Websocket) <==> name == "websocket"@,
        protocol_named(name) == Some(Protocol::Kcp) <==> name == "kcp"@,
{
    reveal_strlit("tcp");
    reveal_strlit("quic");
    reveal_strlit("websocket");
    reveal_strlit("kcp");
    assert("tcp"@[0] != "kcp"@[0]);
    assert("tcp"@.len() == 3 && "quic"@.len() == 4 && "websocket"@.len() == 9 && "kcp"@.len() == 3);
}

/// The path of a websocket begins with one slash more than was written where it was
/// written without one, and is the usual one where none was written.
pub proof fn paths_begin_with_a_slash(raw: Seq<char>)
    ensures
        ws_path(raw).len() > 0 && ws_path(raw)[0] == '/',
        trim(raw).len() == 0 ==> ws_path(raw) == "/orbien"@,
        trim(raw).len() > 0 && trim(raw)[0] == '/' ==> ws_path(raw) == trim(raw),
        trim(raw).len() > 0 && trim(raw)[0] != '/' ==> ws_path(raw).skip(1) == trim(raw),
{
    reveal_strlit("/orbien");
    if trim(raw).len() > 0 && trim(raw)[0] != '/' {
        assert(ws_path(raw).skip(1) =~= trim(raw));
    }
}

} // verus!
