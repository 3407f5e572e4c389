//! The plugin that ends TLS on the client and speaks plain HTTP to the service.
use httparse::{Error, Status};
use vstd::prelude::*;
use vstd::string::*;
use vstd::utf8::*;

use crate::config::client::PluginConfig;
use crate::net::http_lines::{
    are_lines, blank_index, first_header, flat, is_blank_line, is_header, is_line, last_header,
    line_ending, lines_of, unindented, EmptyRequest,
};
use crate::net::http_lines::{ending_of, find_header, header_block_end, join_lines, split_lines};
use crate::net::http_lines::{
    lemma_are_lines, lemma_blank_index, lemma_first_header, lemma_flat_not_empty,
    lemma_last_header, lemma_last_header_is, lemma_no_lines, lines_split_back,
};
use crate::net::xff::{
    appended, chain, for_line, forwarded, forwarded_value, from_blank, proto_line, with_client,
    FORWARDED_FOR, FORWARDED_PROTO,
};
use crate::net::xff::apply_x_forwarded_for;
use crate::net::xff::{
    body_is_kept, lemma_added_line, lemma_blank_after_insert, lemma_blank_after_update,
    lemma_for_line, lemma_proto_line, visitor_is_listed_last,
};
use crate::text::{ends_with, lower_all, texts, trim};
use crate::text::trim_str;
use crate::utf8::{decode_lossy, encode, utf8_lossy};

verus! {

/// How many bytes the head of a request may have.
pub const MAX_HEAD: usize = 65536;

/// How many headers a request may have.
pub const MAX_HEADERS: usize = 64;

/// The header that names the host of a request, in lower case.
pub const HOST: &'static str = "host";

/// What is wrong with the head of a request.
#[derive(Debug, Clone, Copy, PartialEq, Eq, Structural)]
pub enum HttpFault {
    HeaderName,
    HeaderValue,
    NewLine,
    Status,
    Token,
    TooManyHeaders,
    Version,
}

/// What parsing a buffer as the head of a request, with room for so many headers,
/// gives: the length of the head, nothing while it is incomplete, or a fault.
pub uninterp spec fn http_head(buf: Seq<u8>, max_headers: nat) -> Result<Option<nat>, HttpFault>;

/// Calls `httparse::Request::parse` on a request with `max_headers` empty headers.
/// Which buffers hold a complete head, and where it ends, is what that parser says
/// and is not stated further.
#[verifier::external_body]
fn parse_request(buf: &[u8], max_headers: usize) -> (r: Result<Option<usize>, HttpFault>)
    ensures
        http_head(buf@, max_headers as nat) == (match r {
            Ok(Some(n)) => Ok(Some(n as nat)),
            Ok(None) => Ok(None::<nat>),
            Err(e) => Err(e),
        }),
{
    let mut headers = vec![httparse::EMPTY_HEADER; max_headers];
    match httparse::Request::new(&mut headers).parse(buf) {
        Ok(Status::Complete(n)) => Ok(Some(n)),
        Ok(Status::Partial) => Ok(None),
        Err(Error::HeaderName) => Err(HttpFault::HeaderName),
        Err(Error::HeaderValue) => Err(HttpFault::HeaderValue),
        Err(Error::NewLine) => Err(HttpFault::NewLine),
        Err(Error::Status) => Err(HttpFault::Status),
        Err(Error::Token) => Err(HttpFault::Token),
        Err(Error::TooManyHeaders) => Err(HttpFault::TooManyHeaders),
        Err(Error::Version) => Err(HttpFault::Version),
    }
}

/// Why no head of a request was read.
#[derive(Debug, Clone, Copy, PartialEq, Eq, Structural)]
pub enum HeadError {
    Closed,
    TooLarge,
    Malformed(HttpFault),
    BeyondBuffer,
}

impl HeadError {
    pub open spec fn text(&self) -> Seq<char> {
        match *self {
            HeadError::Closed => "client closed before http headers completed"@,
            HeadError::TooLarge => "http headers too large"@,
            HeadError::Malformed(HttpFault::HeaderName) => "invalid header name"@,
            HeadError::Malformed(HttpFault::HeaderValue) => "invalid header value"@,
            HeadError::Malformed(HttpFault::NewLine) => "invalid new line"@,
            HeadError::Malformed(HttpFault::Status) => "invalid response status"@,
            HeadError::Malformed(HttpFault::Token) => "invalid token"@,
            HeadError::Malformed(HttpFault::TooManyHeaders) => "too many headers"@,
            HeadError::Malformed(HttpFault::Version) => "invalid HTTP version"@,
            HeadError::BeyondBuffer => "httparse header length exceeds buffer"@,
        }
    }

    pub fn message(&self) -> (r: String)
        ensures
            r@ == self.text(),
    {
        let s = match *self {
            HeadError::Closed => "client closed before http headers completed",
            HeadError::TooLarge => "http headers too large",
            HeadError::Malformed(HttpFault::HeaderName) => "invalid header name",
            HeadError::Malformed(HttpFault::HeaderValue) => "invalid header value",
            HeadError::Malformed(HttpFault::NewLine) => "invalid new line",
            HeadError::Malformed(HttpFault::Status) => "invalid response status",
            HeadError::Malformed(HttpFault::Token) => "invalid token",
            HeadError::Malformed(HttpFault::TooManyHeaders) => "too many headers",
            HeadError::Malformed(HttpFault::Version) => "invalid HTTP version",
            HeadError::BeyondBuffer => "httparse header length exceeds buffer",
        };
        s.to_owned()
    }
}

/// The head of a request and what was read of its body.
#[derive(Debug)]
pub struct RequestHead {
    pub head: Vec<u8>,
    pub body: Vec<u8>,
}

/// What the parser's answer on `buf` means: the bytes of the head and those behind
/// it, or that more must be read.
pub open spec fn head_outcome(buf: Seq<u8>, parsed: Result<Option<nat>, HttpFault>) -> Result<
    Option<(Seq<u8>, Seq<u8>)>,
    HeadError,
> {
    match parsed {
        Err(fault) => Err(HeadError::Malformed(fault)),
        Ok(None) => Ok(None),
        Ok(Some(n)) => if n > buf.len() {
            Err(HeadError::BeyondBuffer)
        } else {
            Ok(Some((buf.take(n as int), buf.skip(n as int))))
        },
    }
}

/// What follows from reading `chunk` behind `buf`; an empty chunk is the end of the
/// stream.
pub open spec fn read_outcome(buf: Seq<u8>, chunk: Seq<u8>) -> Result<
    Option<(Seq<u8>, Seq<u8>)>,
    HeadError,
> {
    let whole = buf + chunk;
    if chunk.len() == 0 {
        Err(HeadError::Closed)
    } else if whole.len() > MAX_HEAD {
        Err(HeadError::TooLarge)
    } else {
        head_outcome(whole, http_head(whole, MAX_HEADERS as nat))
    }
}

/// A step of reading in the terms of `read_outcome`.
pub open spec fn step_view(r: Result<Option<RequestHead>, HeadError>) -> Result<
    Option<(Seq<u8>, Seq<u8>)>,
    HeadError,
> {
    match r {
        Ok(Some(h)) => Ok(Some((h.head@, h.body@))),
        Ok(None) => Ok(None),
        Err(e) => Err(e),
    }
}

/// Cuts the head off a buffer where the parser says it ends.
pub fn split_head(buf: &Vec<u8>, parsed: Result<Option<usize>, HttpFault>) -> (r: Result<
    Option<RequestHead>,
    HeadError,
>)
    ensures
        step_view(r) == head_outcome(
            buf@,
            match parsed {
                Ok(Some(n)) => Ok(Some(n as nat)),
                Ok(None) => Ok(None::<nat>),
                Err(e) => Err(e),
            },
        ),
{
    match parsed {
        Err(fault) => Err(HeadError::Malformed(fault)),
        Ok(None) => Ok(None),
        Ok(Some(n)) => {
            let len: usize = buf.len();
            if n > len {
                return Err(HeadError::BeyondBuffer);
            }
            let s = buf.as_slice();
            let head = vstd::slice::slice_to_vec(vstd::slice::slice_subrange(s, 0, n));
            let body = vstd::slice::slice_to_vec(vstd::slice::slice_subrange(s, n, len));
            assert(head@ =~= buf@.take(n as int));
            assert(body@ =~= buf@.skip(n as int));
            Ok(Some(RequestHead { head, body }))
        },
    }
}

/// Collects the head of a request from the chunks in which it arrives.
pub struct HeadReader {
    buf: Vec<u8>,
}

impl View for HeadReader {
    type V = Seq<u8>;

    closed spec fn view(&self) -> Seq<u8> {
        self.buf@
    }
}

impl HeadReader {
    pub fn new() -> (r: HeadReader)
        ensures
            r@ == Seq::<u8>::empty(),
    {
        HeadReader { buf: Vec::new() }
    }

    /// Takes the next chunk; an empty one is the end of the stream.
    pub fn read(&mut self, chunk: &[u8]) -> (r: Result<Option<RequestHead>, HeadError>)
        ensures
            final(self)@ == old(self)@ + chunk@,
            step_view(r) == read_outcome(old(self)@, chunk@),
    {
        let ghost before = self.buf@;
        self.buf.extend_from_slice(chunk);
        assert(self.buf@ =~= before + chunk@);
        if chunk.len() == 0 {
            return Err(HeadError::Closed);
        }
        if self.buf.len() > MAX_HEAD {
            return Err(HeadError::TooLarge);
        }
        let parsed = parse_request(self.buf.as_slice(), MAX_HEADERS);
        split_head(&self.buf, parsed)
    }
}

/// No byte is lost or moved by cutting the head off: head and body together are
/// what was read.
pub proof fn split_keeps_bytes(buf: Seq<u8>, chunk: Seq<u8>)
    ensures
        read_outcome(buf, chunk) matches Ok(Some((head, body))) ==> head + body == buf + chunk,
{
    if let Ok(Some((head, body))) = read_outcome(buf, chunk) {
        assert(head + body =~= buf + chunk);
    }
}

pub open spec fn host_line(host: Seq<char>, ending: Seq<char>) -> Seq<char> {
    "Host: "@ + host + ending
}

/// The lines of a request whose first `Host` header, added where there is none,
/// names `host`.
pub open spec fn with_host(lines: Seq<Seq<char>>, host: Seq<char>) -> Seq<Seq<char>> {
    let blank = blank_index(lines);
    let i = first_header(lines, HOST@, 1, blank);
    let line = host_line(host, line_ending(lines));
    if i < blank {
        lines.update(i, line)
    } else {
        lines.insert(blank, line)
    }
}

/// Rewrites the host that the head of a request names.
pub fn rewrite_host_text(text: &str, host: &str) -> (r: Result<String, EmptyRequest>)
    ensures
        match r {
            Ok(out) => text@.len() > 0 && out@ == flat(with_host(lines_of(text@), host@)),
            Err(_) => text@.len() == 0,
        },
{
    let mut lines = split_lines(text);
    let ghost before = lines_of(text@);
    proof {
        lemma_no_lines(text@);
        lemma_blank_index(before);
    }
    if lines.len() == 0 {
        return Err(EmptyRequest);
    }
    let ending = ending_of(&lines);
    let blank = header_block_end(&lines);
    let i = find_header(&lines, HOST, blank);
    let line = "Host: ".to_owned().concat(host).concat(ending);
    let ghost l = line@;
    assert(l =~= host_line(host@, ending@));
    if i < blank {
        lines.set(i, line);
        assert(texts(lines@) =~= before.update(i as int, l));
    } else {
        lines.insert(blank, line);
        assert(texts(lines@) =~= before.insert(blank as int, l));
    }
    Ok(join_lines(&lines))
}

/// Rewrites the host in the head of a request in place. Without a host to write the
/// head stays as it is; only a request without a byte is refused.
pub fn apply_host_rewrite(buf: &mut Vec<u8>, host_rewrite: &str) -> (r: Result<(), EmptyRequest>)
    ensures
        match r {
            Ok(_) => if host_rewrite@.len() == 0 {
                final(buf)@ == old(buf)@
            } else {
                old(buf)@.len() > 0 && final(buf)@ == encode_utf8(
                    flat(with_host(lines_of(utf8_lossy(old(buf)@)), host_rewrite@)),
                )
            },
            Err(_) => host_rewrite@.len() > 0 && old(buf)@.len() == 0 && final(buf)@ == old(buf)@,
        },
        host_rewrite@.len() > 0 && valid_utf8(old(buf)@) ==> utf8_lossy(old(buf)@) == decode_utf8(
            old(buf)@,
        ),
{
    if host_rewrite.is_empty() {
        return Ok(());
    }
    let text = decode_lossy(buf.as_slice());
    match rewrite_host_text(text.as_str(), host_rewrite) {
        Ok(out) => {
            *buf = encode(out.as_str());
            Ok(())
        },
        Err(e) => Err(e),
    }
}

proof fn lemma_host_line(host: Seq<char>, ending: Seq<char>)
    requires
        ending == "\r\n"@ || ending == "\n"@,
    ensures
        !is_blank_line(host_line(host, ending)),
        is_header(host_line(host, ending), HOST@),
{
    reveal_strlit("Host: ");
    reveal_strlit("host");
    reveal_strlit("\r\n");
    reveal_strlit("\n");
    let l = host_line(host, ending);
    assert(l[0] == 'H');
    assert(lower_all(l.take(4)) =~= HOST@);
    assert(l[4] == ':');
}

/// Rewriting the host leaves the body as it came.
pub proof fn host_rewrite_keeps_body(lines: Seq<Seq<char>>, host: Seq<char>)
    ensures
        from_blank(with_host(lines, host)) == from_blank(lines),
{
    let b = blank_index(lines);
    let i = first_header(lines, HOST@, 1, b);
    let l = host_line(host, line_ending(lines));
    lemma_blank_index(lines);
    lemma_first_header(lines, HOST@, 1, b);
    lemma_host_line(host, line_ending(lines));
    if i < b {
        lemma_blank_after_update(lines, i, l);
    } else {
        lemma_blank_after_insert(lines, l);
    }
}

/// The service sees the rewritten host: it is what the first `Host` header of the
/// request names. The first line must not be the empty one.
pub proof fn host_is_rewritten(lines: Seq<Seq<char>>, host: Seq<char>)
    requires
        blank_index(lines) > 0,
    ensures
        ({
            let out = with_host(lines, host);
            let i = first_header(out, HOST@, 1, blank_index(out));
            &&& i < blank_index(out)
            &&& out[i] == host_line(host, line_ending(lines))
        }),
{
    let b = blank_index(lines);
    let i = first_header(lines, HOST@, 1, b);
    let l = host_line(host, line_ending(lines));
    let out = with_host(lines, host);
    lemma_blank_index(lines);
    lemma_first_header(lines, HOST@, 1, b);
    lemma_host_line(host, line_ending(lines));
    if i < b {
        lemma_blank_after_update(lines, i, l);
    } else {
        lemma_blank_after_insert(lines, l);
    }
    lemma_first_header(out, HOST@, 1, blank_index(out));
    assert(out[i] == l);
    assert forall|j: int| 1 <= j < i implies !is_header(#[trigger] out[j], HOST@) by {
        assert(out[j] == lines[j]);
    }
}

/// Of two rewritings the last one counts, whatever host came before; a host that
/// ends with a carriage return would change how lines end.
pub proof fn last_rewrite_wins(lines: Seq<Seq<char>>, first: Seq<char>, second: Seq<char>)
    requires
        blank_index(lines) > 0,
        first.len() > 0 ==> first.last() != '\r',
    ensures
        with_host(with_host(lines, first), second) == with_host(lines, second),
{
    let b = blank_index(lines);
    let i = first_header(lines, HOST@, 1, b);
    let mid = with_host(lines, first);
    let ending = line_ending(lines);
    lemma_blank_index(lines);
    lemma_first_header(lines, HOST@, 1, b);
    lemma_blank_index(mid);
    lemma_first_header(mid, HOST@, 1, blank_index(mid));
    host_is_rewritten(lines, first);
    lemma_host_line(first, ending);
    let l = host_line(first, ending);
    if i < b {
        lemma_blank_after_update(lines, i, l);
    } else {
        lemma_blank_after_insert(lines, l);
    }
    assert(mid[i] == l);
    let k = first_header(mid, HOST@, 1, blank_index(mid));
    assert forall|j: int| 1 <= j < i implies !is_header(#[trigger] mid[j], HOST@) by {
        assert(mid[j] == lines[j]);
    }
    assert(k == i);
    reveal_strlit("Host: ");
    reveal_strlit("\r\n");
    reveal_strlit("\n");
    if ending == "\r\n"@ {
        assert(l.skip(l.len() - 2) =~= "\r\n"@);
        assert(ends_with(mid[i], "\r\n"@));
    } else {
        assert(l.skip(l.len() - 2)[0] == l[l.len() - 2]);
        assert(!ends_with(l, "\r\n"@));
        assert forall|j: int| 0 <= j < mid.len() implies !ends_with(
            #[trigger] mid[j],
            "\r\n"@,
        ) by {
            if i == b && j > b {
                assert(mid[j] == lines[j - 1]);
            } else if j != i {
                assert(mid[j] == lines[j]);
            }
        }
    }
    assert(line_ending(mid) == ending);
    assert(with_host(mid, second) =~= with_host(lines, second));
}

/// A complete head whose host was rewritten reads back line by line.
pub proof fn rewritten_text_reads_back(text: Seq<char>, host: Seq<char>)
    requires
        blank_index(lines_of(text)) < lines_of(text).len(),
        !host.contains('\n'),
    ensures
        lines_of(flat(with_host(lines_of(text), host))) == with_host(lines_of(text), host),
{
    let lines = lines_of(text);
    let b = blank_index(lines);
    let i = first_header(lines, HOST@, 1, b);
    let out = with_host(lines, host);
    lemma_are_lines(text);
    lemma_blank_index(lines);
    lemma_first_header(lines, HOST@, 1, b);
    reveal_strlit("Host: ");
    lemma_added_line("Host: "@, host, line_ending(lines));
    assert forall|j: int| 0 <= j < out.len() - 1 implies is_line(#[trigger] out[j]) by {
        if i == b && j > b {
            assert(out[j] == lines[j - 1]);
        }
    }
    assert(are_lines(out));
    lines_split_back(out);
}

/// No line carries both the host and the list of addresses, or the protocol.
proof fn lemma_host_alone(line: Seq<char>)
    ensures
        is_header(line, HOST@) ==> !is_header(line, FORWARDED_FOR@) && !is_header(
            line,
            FORWARDED_PROTO@,
        ),
{
    reveal_strlit("host");
    reveal_strlit("x-forwarded-for");
    reveal_strlit("x-forwarded-proto");
    let l = unindented(line);
    if is_header(line, HOST@) {
        assert(lower_all(l.take(4))[0] == 'h');
        if l.len() > 15 {
            assert(lower_all(l.take(15))[0] == lower_all(l.take(4))[0]);
        }
        if l.len() > 17 {
            assert(lower_all(l.take(17))[0] == lower_all(l.take(4))[0]);
        }
    }
}

/// Rewriting the host leaves the list of addresses alone.
pub proof fn host_rewrite_keeps_the_chain(lines: Seq<Seq<char>>, host: Seq<char>)
    requires
        blank_index(lines) > 0,
    ensures
        chain(with_host(lines, host)) == chain(lines),
{
    let b = blank_index(lines);
    let i = first_header(lines, HOST@, 1, b);
    let l = host_line(host, line_ending(lines));
    let out = with_host(lines, host);
    lemma_blank_index(lines);
    lemma_first_header(lines, HOST@, 1, b);
    lemma_host_line(host, line_ending(lines));
    lemma_host_alone(l);
    lemma_host_alone(lines[i]);
    if i < b {
        lemma_blank_after_update(lines, i, l);
    } else {
        lemma_blank_after_insert(lines, l);
    }
    let k = last_header(lines, FORWARDED_FOR@, b);
    lemma_last_header(lines, FORWARDED_FOR@, b);
    assert(k > 0 ==> out[k] == lines[k]);
    assert forall|j: int| 1 <= j < blank_index(out) && k < j implies !is_header(
        #[trigger] out[j],
        FORWARDED_FOR@,
    ) by {
        if j < b && j != i {
            assert(out[j] == lines[j]);
        }
    }
    lemma_last_header_is(out, FORWARDED_FOR@, blank_index(out), k);
}

/// Naming the visitor leaves the host alone.
pub proof fn forwarding_keeps_the_host(lines: Seq<Seq<char>>, ip: Seq<char>, proto: Seq<char>)
    requires
        first_header(lines, HOST@, 1, blank_index(lines)) < blank_index(lines),
    ensures
        ({
            let out = forwarded(lines, ip, proto);
            let i = first_header(lines, HOST@, 1, blank_index(lines));
            &&& first_header(out, HOST@, 1, blank_index(out)) == i
            &&& out[i] == lines[i]
        }),
{
    let ending = line_ending(lines);
    let b = blank_index(lines);
    let i = first_header(lines, HOST@, 1, b);
    let k = last_header(lines, FORWARDED_FOR@, b);
    let mid = with_client(lines, ip, ending);
    let out = forwarded(lines, ip, proto);
    lemma_blank_index(lines);
    lemma_first_header(lines, HOST@, 1, b);
    lemma_last_header(lines, FORWARDED_FOR@, b);
    let v = appended(forwarded_value(lines[k]), ip);
    lemma_for_line(v, ending);
    lemma_for_line(ip, ending);
    lemma_proto_line(proto, ending);
    lemma_host_alone(for_line(v, ending));
    lemma_host_alone(for_line(ip, ending));
    lemma_host_alone(proto_line(proto, ending));
    lemma_host_alone(lines[i]);
    if k > 0 {
        lemma_blank_after_update(lines, k, for_line(v, ending));
    }
    lemma_blank_after_insert(lines, for_line(ip, ending));
    lemma_blank_after_insert(mid, proto_line(proto, ending));
    lemma_blank_index(out);
    lemma_first_header(out, HOST@, 1, blank_index(out));
    assert(mid[i] == lines[i]);
    assert(out[i] == lines[i]);
    assert forall|j: int| 1 <= j < i implies !is_header(#[trigger] out[j], HOST@) by {
        assert(out[j] == mid[j]);
        if j != k {
            assert(mid[j] == lines[j]);
        }
    }
}

/// What the plugin makes of a complete head is what the service needs: it names the
/// host that was set, the visitor behind those whom the request came through, and has
/// the body that came.
pub proof fn service_learns_host_and_visitor(text: Seq<char>, host: Seq<char>, ip: Seq<char>)
    requires
        0 < blank_index(lines_of(text)) < lines_of(text).len(),
        !host.contains('\n'),
        ip.len() > 0,
        trim(ip) == ip,
    ensures
        ({
            let lines = lines_of(text);
            let out = forwarded(lines_of(flat(with_host(lines, host))), ip, "https"@);
            let i = first_header(out, HOST@, 1, blank_index(out));
            &&& i < blank_index(out) && out[i] == host_line(host, line_ending(lines))
            &&& chain(out) == appended(chain(lines), ip)
            &&& from_blank(out) == from_blank(lines)
        }),
{
    let lines = lines_of(text);
    let mid = with_host(lines, host);
    rewritten_text_reads_back(text, host);
    host_is_rewritten(lines, host);
    host_rewrite_keeps_the_chain(lines, host);
    host_rewrite_keeps_body(lines, host);
    lemma_blank_index(lines);
    lemma_blank_index(mid);
    lemma_host_line(host, line_ending(lines));
    let b = blank_index(lines);
    let i = first_header(lines, HOST@, 1, b);
    lemma_first_header(lines, HOST@, 1, b);
    if i < b {
        lemma_blank_after_update(lines, i, host_line(host, line_ending(lines)));
    } else {
        lemma_blank_after_insert(lines, host_line(host, line_ending(lines)));
    }
    visitor_is_listed_last(mid, ip, "https"@);
    body_is_kept(mid, ip, "https"@);
    forwarding_keeps_the_host(mid, ip, "https"@);
    lemma_blank_index(forwarded(mid, ip, "https"@));
    lemma_blank_of_forwarded(mid, ip, "https"@);
}

/// The head does not get shorter by naming the visitor.
proof fn lemma_blank_of_forwarded(lines: Seq<Seq<char>>, ip: Seq<char>, proto: Seq<char>)
    ensures
        blank_index(forwarded(lines, ip, proto)) >= blank_index(lines),
{
    let ending = line_ending(lines);
    let b = blank_index(lines);
    let k = last_header(lines, FORWARDED_FOR@, b);
    let mid = with_client(lines, ip, ending);
    lemma_blank_index(lines);
    lemma_last_header(lines, FORWARDED_FOR@, b);
    let v = appended(forwarded_value(lines[k]), ip);
    lemma_for_line(v, ending);
    lemma_for_line(ip, ending);
    lemma_proto_line(proto, ending);
    if k > 0 {
        lemma_blank_after_update(lines, k, for_line(v, ending));
    }
    lemma_blank_after_insert(lines, for_line(ip, ending));
    lemma_blank_after_insert(mid, proto_line(proto, ending));
}

proof fn lemma_rewritten_head_has_bytes(lines: Seq<Seq<char>>, host: Seq<char>)
    ensures
        encode_utf8(flat(with_host(lines, host))).len() > 0,
{
    let b = blank_index(lines);
    let i = first_header(lines, HOST@, 1, b);
    let out = with_host(lines, host);
    lemma_blank_index(lines);
    lemma_first_header(lines, HOST@, 1, b);
    reveal_strlit("Host: ");
    assert(out[i] == host_line(host, line_ending(lines)));
    lemma_flat_not_empty(out, i);
    encode_utf8_decode_utf8(flat(out));
}

/// A tunnel without a service to hand requests to.
#[derive(Debug, Clone, Copy, PartialEq, Eq, Structural)]
pub struct NoService;

impl NoService {
    pub fn message(&self) -> (r: String)
        ensures
            r@ == "tls-term requires plugin.service (e.g. \"127.0.0.1:80\")"@,
    {
        "tls-term requires plugin.service (e.g. \"127.0.0.1:80\")".to_owned()
    }
}

/// The settings of the plugin: where the service listens, which host it is told,
/// and for which name a certificate is made where none is given.
#[derive(Debug)]
pub struct TlsTermPlugin {
    pub local_addr: String,
    pub host_header_rewrite: String,
    pub cert_common_name: String,
}

impl TlsTermPlugin {
    pub fn new(cert_common_name: &str, cfg: &PluginConfig) -> (r: Result<TlsTermPlugin, NoService>)
        ensures
            match r {
                Ok(p) => {
                    &&& trim(cfg.service@).len() > 0
                    &&& p.local_addr@ == trim(cfg.service@)
                    &&& p.host_header_rewrite@ == cfg.host_header_rewrite@
                    &&& p.cert_common_name@ == (if cert_common_name@.len() == 0 {
                        "localhost"@
                    } else {
                        cert_common_name@
                    })
                },
                Err(_) => trim(cfg.service@).len() == 0,
            },
    {
        let local_addr = trim_str(cfg.service.as_str());
        if local_addr.is_empty() {
            return Err(NoService);
        }
        let cn = if cert_common_name.is_empty() {
            "localhost".to_owned()
        } else {
            cert_common_name.to_owned()
        };
        Ok(
            TlsTermPlugin {
                local_addr: local_addr.to_owned(),
                host_header_rewrite: cfg.host_header_rewrite.clone(),
                cert_common_name: cn,
            },
        )
    }

    pub fn name(&self) -> (r: &'static str)
        ensures
            r@ == "tls-term"@,
    {
        "tls-term"
    }

    /// The head as the service gets it: the host rewritten, then the visitor named
    /// as one who came by HTTPS.
    pub open spec fn sent(&self, head: Seq<u8>, src_addr: Seq<char>) -> Seq<u8> {
        let text = utf8_lossy(head);
        let hosted = if self.host_header_rewrite@.len() == 0 {
            text
        } else {
            flat(with_host(lines_of(text), self.host_header_rewrite@))
        };
        encode_utf8(flat(forwarded(lines_of(hosted), src_addr, "https"@)))
    }

    /// Prepares the head of a request for the service.
    pub fn prepare_head(&self, head: &mut Vec<u8>, src_addr: &str) -> (r: Result<(), EmptyRequest>)
        ensures
            match r {
                Ok(_) => final(head)@ == self.sent(old(head)@, src_addr@),
                Err(_) => old(head)@.len() == 0 && final(head)@ == old(head)@,
            },
            old(head)@.len() == 0 ==> r is Err,
            valid_utf8(old(head)@) ==> utf8_lossy(old(head)@) == decode_utf8(old(head)@),
    {
        proof {
            let hosted = flat(with_host(lines_of(utf8_lossy(head@)), self.host_header_rewrite@));
            encode_utf8_valid_utf8(hosted);
            encode_utf8_decode_utf8(hosted);
            lemma_rewritten_head_has_bytes(
                lines_of(utf8_lossy(head@)),
                self.host_header_rewrite@,
            );
        }
        match apply_host_rewrite(head, self.host_header_rewrite.as_str()) {
            Ok(_) => apply_x_forwarded_for(head, src_addr, "https"),
            Err(e) => Err(e),
        }
    }
}

} // verus!
