//! Addresses of the form `host`, `host:port`, `[ipv6]` and `[ipv6]:port`.
use vstd::prelude::*;
use vstd::string::*;

use crate::text::{decimal, decimal_str, first_of, is_white, last_of, trim, unsigned_value};
use crate::text::{find_first, find_last_end, parse_u16, to_chars, trim_str};
use crate::text::{
    decimal_reads_back, lemma_decimal, lemma_first_of, lemma_first_of_is, lemma_last_of_is,
    lemma_trim_tight,
};

verus! {

/// The host that an address without one stands for.
pub const DEFAULT_HOST: &'static str = "0.0.0.0";

/// What can be wrong with an address.
#[derive(Debug, Clone, Copy, PartialEq, Eq, Structural)]
pub enum HostPortFault {
    /// An opening bracket without a closing one.
    MissingBracket,
    /// Nothing between the brackets.
    EmptyHost,
    /// Something other than a colon behind the closing bracket.
    ExpectedColon,
    /// What stands behind the colon is no port number.
    BadPort,
}

/// An address that cannot be read, and why.
#[derive(Debug, Clone, PartialEq, Eq)]
pub struct HostPortError {
    pub fault: HostPortFault,
    pub raw: String,
}

/// The text that tells a user what is wrong with the address `raw`.
pub open spec fn host_port_message(fault: HostPortFault, raw: Seq<char>) -> Seq<char> {
    match fault {
        HostPortFault::MissingBracket => "invalid listen address '"@ + raw + "': missing ']'"@,
        HostPortFault::EmptyHost => "invalid listen address '"@ + raw + "': empty IPv6 host"@,
        HostPortFault::ExpectedColon => "invalid listen address '"@ + raw
            + "': expected ':' after ']'"@,
        HostPortFault::BadPort => "invalid listen port in '"@ + raw + "'"@,
    }
}

impl HostPortError {
    pub open spec fn text(&self) -> Seq<char> {
        host_port_message(self.fault, self.raw@)
    }

    /// The text that tells a user what is wrong.
    pub fn message(&self) -> (r: String)
        ensures
            r@ == self.text(),
    {
        let head = match self.fault {
            HostPortFault::BadPort => "invalid listen port in '",
            _ => "invalid listen address '",
        };
        let tail = match self.fault {
            HostPortFault::MissingBracket => "': missing ']'",
            HostPortFault::EmptyHost => "': empty IPv6 host",
            HostPortFault::ExpectedColon => "': expected ':' after ']'",
            HostPortFault::BadPort => "'",
        };
        head.to_owned().concat(self.raw.as_str()).concat(tail)
    }
}

/// The port that the text behind a colon stands for: nothing and 0 stand for
/// `default_port`.
pub open spec fn port_of(text: Seq<char>, default_port: u16) -> Result<u16, HostPortFault> {
    if text.len() == 0 {
        Ok(default_port)
    } else {
        match unsigned_value(text, u16::MAX as nat) {
            None => Err(HostPortFault::BadPort),
            Some(n) => Ok(
                if n == 0 {
                    default_port
                } else {
                    n as u16
                },
            ),
        }
    }
}

/// What stands behind the closing bracket, read as a port.
pub open spec fn bracket_port(after: Seq<char>, default_port: u16) -> Result<u16, HostPortFault> {
    if after.len() == 0 {
        Ok(default_port)
    } else if after[0] != ':' {
        Err(HostPortFault::ExpectedColon)
    } else {
        port_of(after.skip(1), default_port)
    }
}

/// The host and the port that `raw` names.
///
/// A host in brackets keeps them. An address with one colon, not at its start, is
/// a host and a port. Every other address is a host as it stands.
pub open spec fn host_port(raw: Seq<char>, default_port: u16) -> Result<
    (Seq<char>, u16),
    HostPortFault,
> {
    let s = trim(raw);
    if s.len() == 0 {
        Ok((DEFAULT_HOST@, default_port))
    } else if s[0] == '[' {
        let close = first_of(s, ']');
        if close == s.len() {
            Err(HostPortFault::MissingBracket)
        } else if close == 1 {
            Err(HostPortFault::EmptyHost)
        } else {
            match bracket_port(s.skip(close + 1), default_port) {
                Ok(port) => Ok((s.take(close + 1), port)),
                Err(fault) => Err(fault),
            }
        }
    } else {
        let colon = first_of(s, ':');
        if 0 < colon < s.len() && last_of(s, ':') == colon {
            match port_of(s.skip(colon + 1), default_port) {
                Ok(port) => Ok((s.take(colon), port)),
                Err(fault) => Err(fault),
            }
        } else {
            Ok((s, default_port))
        }
    }
}

/// Reads the text behind a colon.
fn parse_port(text: &[char], default_port: u16) -> (r: Result<u16, HostPortFault>)
    ensures
        r == port_of(text@, default_port),
{
    if text.len() == 0 {
        return Ok(default_port);
    }
    match parse_u16(text) {
        None => Err(HostPortFault::BadPort),
        Some(n) => if n == 0 {
            Ok(default_port)
        } else {
            Ok(n)
        },
    }
}

/// Splits an address into host and port; `default_port` stands in for a port that
/// is missing or 0.
pub fn parse_host_port(raw: &str, default_port: u16) -> (r: Result<(String, u16), HostPortError>)
    ensures
        match r {
            Ok(hp) => host_port(raw@, default_port) == Ok::<(Seq<char>, u16), HostPortFault>(
                (hp.0@, hp.1),
            ),
            Err(e) => host_port(raw@, default_port) == Err::<(Seq<char>, u16), HostPortFault>(
                e.fault,
            ) && e.raw@ == raw@,
        },
{
    let s = trim_str(raw);
    if s.is_empty() {
        return Ok((DEFAULT_HOST.to_owned(), default_port));
    }
    let v = to_chars(s);
    let n: usize = v.len();
    if v[0] == '[' {
        let close = find_first(v.as_slice(), ']');
        if close == n {
            return Err(HostPortError { fault: HostPortFault::MissingBracket, raw: raw.to_owned() });
        }
        proof {
            lemma_first_of(s@, ']');
        }
        if close == 1 {
            return Err(HostPortError { fault: HostPortFault::EmptyHost, raw: raw.to_owned() });
        }
        let ghost after = s@.skip(close + 1);
        let port = if close + 1 == n {
            Ok(default_port)
        } else if v[close + 1] != ':' {
            assert(after[0] == v@[close + 1]);
            Err(HostPortFault::ExpectedColon)
        } else {
            assert(after[0] == v@[close + 1]);
            let text = vstd::slice::slice_subrange(v.as_slice(), close + 2, n);
            assert(text@ =~= after.skip(1));
            parse_port(text, default_port)
        };
        assert(port == bracket_port(after, default_port));
        let host = s.substring_char(0, close + 1);
        assert(host@ =~= s@.take(close + 1));
        return match port {
            Ok(p) => Ok((host.to_owned(), p)),
            Err(fault) => Err(HostPortError { fault, raw: raw.to_owned() }),
        };
    }
    let colon = find_first(v.as_slice(), ':');
    let end = find_last_end(v.as_slice(), ':');
    if 0 < colon && colon < n && end == colon + 1 {
        let text = vstd::slice::slice_subrange(v.as_slice(), colon + 1, n);
        assert(text@ =~= s@.skip(colon + 1));
        let host = s.substring_char(0, colon);
        assert(host@ =~= s@.take(colon as int));
        return match parse_port(text, default_port) {
            Ok(p) => Ok((host.to_owned(), p)),
            Err(fault) => Err(HostPortError { fault, raw: raw.to_owned() }),
        };
    }
    Ok((s.to_owned(), default_port))
}

/// `host:port` as one text.
pub open spec fn joined(host: Seq<char>, port: u16) -> Seq<char> {
    host + ":"@ + decimal(port as nat)
}

/// `host:port` as one text.
pub fn join_host_port(host: &str, port: u16) -> (r: String)
    ensures
        r@ == joined(host@, port),
{
    host.to_owned().concat(":").concat(decimal_str(port as u64).as_str())
}

/// The host of an address that can be read is never empty.
pub proof fn host_is_never_empty(raw: Seq<char>, default_port: u16)
    ensures
        host_port(raw, default_port) matches Ok(hp) ==> hp.0.len() > 0,
{
    reveal_strlit("0.0.0.0");
    lemma_first_of(trim(raw), ']');
}

/// The port of an address that can be read is 0 only where 0 is the default.
pub proof fn port_is_zero_only_by_default(raw: Seq<char>, default_port: u16)
    ensures
        host_port(raw, default_port) matches Ok(hp) ==> hp.1 == 0 ==> default_port == 0,
{
}

/// A host that an address `host:port` can be made of and got back from: one
/// without colon and without white space at its ends, or one in brackets.
pub open spec fn is_plain_host(host: Seq<char>) -> bool {
    &&& host.len() > 0
    &&& !is_white(host[0])
    &&& if host[0] == '[' {
        host.len() > 2 && first_of(host, ']') == host.len() - 1
    } else {
        !host.contains(':')
    }
}

/// Joining a plain host with a port and splitting the text again gives both back.
pub proof fn joined_splits_back(host: Seq<char>, port: u16, default_port: u16)
    requires
        is_plain_host(host),
        port > 0,
    ensures
        host_port(joined(host, port), default_port) == Ok::<(Seq<char>, u16), HostPortFault>(
            (host, port),
        ),
{
    let d = decimal(port as nat);
    let s = joined(host, port);
    reveal_strlit(":");
    lemma_decimal(port as nat);
    decimal_reads_back(port as nat, u16::MAX as nat);
    assert(s.last() == d.last());
    assert(crate::text::is_digit(d[d.len() - 1]));
    lemma_trim_tight(s);
    assert(s[0] == host[0]);
    let n = host.len() as int;
    assert(s[n] == ':');
    assert(s.skip(n + 1) =~= d);
    if host[0] == '[' {
        lemma_first_of(host, ']');
        assert forall|j: int| 0 <= j < n - 1 implies s[j] != ']' by {
            assert(s[j] == host[j]);
        }
        assert(s[n - 1] == host[n - 1]);
        lemma_first_of_is(s, ']', n - 1);
        assert(s.take(n) =~= host);
        assert(s.skip(n)[0] == ':');
        assert(s.skip(n).skip(1) =~= d);
    } else {
        assert forall|j: int| 0 <= j < n implies s[j] != ':' by {
            assert(s[j] == host[j]);
            assert(host.contains(host[j]));
        }
        lemma_first_of_is(s, ':', n);
        assert forall|j: int| n < j < s.len() implies s[j] != ':' by {
            assert(s[j] == d[j - n - 1]);
            assert(crate::text::is_digit(d[j - n - 1]));
        }
        lemma_last_of_is(s, ':', n);
        assert(s.take(n) =~= host);
    }
}

} // verus!
