//! The transports a client can reach a server over.
use vstd::prelude::*;
use vstd::string::*;

use crate::text::{same, trim, trim_str};
use crate::text::{lemma_trim_ends, lemma_trim_tight};

verus! {

/// The path on which the server answers WebSocket requests unless told otherwise.
pub const ORBIEN_WEBSOCKET_PATH: &'static str = "/orbien";

/// The transport between client and server.
#[derive(Debug, Clone, Copy, PartialEq, Eq, Structural)]
pub enum Protocol {
    Tcp,
    Quic,
    Websocket,
    Kcp,
}

/// The transport that a name in the settings stands for.
pub open spec fn protocol_named(name: Seq<char>) -> Option<Protocol> {
    if name == "tcp"@ {
        Some(Protocol::Tcp)
    } else if name == "quic"@ {
        Some(Protocol::Quic)
    } else if name == "websocket"@ {
        Some(Protocol::Websocket)
    } else if name == "kcp"@ {
        Some(Protocol::Kcp)
    } else {
        None
    }
}

impl Protocol {
    /// Reads the name of a transport.
    pub fn parse(name: &str) -> (r: Option<Protocol>)
        ensures
            r == protocol_named(name@),
    {
        if same(name, "tcp") {
            Some(Protocol::Tcp)
        } else if same(name, "quic") {
            Some(Protocol::Quic)
        } else if same(name, "websocket") {
            Some(Protocol::Websocket)
        } else if same(name, "kcp") {
            Some(Protocol::Kcp)
        } else {
            None
        }
    }
}

/// The path that a setting stands for: without white space at its ends, with a
/// leading slash, and the usual path where nothing is set.
pub open spec fn ws_path(raw: Seq<char>) -> Seq<char> {
    let s = trim(raw);
    if s.len() == 0 {
        ORBIEN_WEBSOCKET_PATH@
    } else if s[0] == '/' {
        s
    } else {
        seq!['/'] + s
    }
}

/// Brings the WebSocket path of a setting into the form in which both ends compare it.
pub fn normalize_ws_path(raw: &str) -> (r: String)
    ensures
        r@ == ws_path(raw@),
{
    let s = trim_str(raw);
    if s.is_empty() {
        return ORBIEN_WEBSOCKET_PATH.to_owned();
    }
    if s.get_char(0) == '/' {
        s.to_owned()
    } else {
        let mut out = String::new();
        out.push('/');
        out.append(s);
        assert(out@ =~= seq!['/'] + s@);
        out
    }
}

/// A normalised path stays as it is when normalised again.
pub proof fn ws_path_settles(raw: Seq<char>)
    ensures
        ws_path(ws_path(raw)) == ws_path(raw),
{
    lemma_trim_ends(raw);
    reveal_strlit("/orbien");
    let p = ws_path(raw);
    assert(p[0] == '/');
    assert(p.last() == 'n' || p.last() == trim(raw).last());
    lemma_trim_tight(p);
}

} // verus!
