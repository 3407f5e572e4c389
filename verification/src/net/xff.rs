//! Telling a service behind the tunnel who the visitor is: the `X-Forwarded-For`
//! and `X-Forwarded-Proto` headers.
use vstd::prelude::*;
use vstd::string::*;
use vstd::utf8::*;

use crate::net::http_lines::{
    are_lines, blank_index, flat, headers_named, is_blank_line, is_header, is_line, last_header,
    line_ending, lines_of, unindented, EmptyRequest,
};
use crate::net::http_lines::{
    ending_of, find_last_header, header_block_end, join_lines, split_lines, unindent,
};
use crate::net::http_lines::{
    lemma_are_lines, lemma_blank_index, lemma_blank_index_is, lemma_last_header,
    lemma_last_header_is, lemma_no_lines, lemma_one_named, lemma_same_headers,
    lemma_unindented_is_tail, lines_split_back,
};
use crate::text::{lower_all, texts, trim, trim_end, trim_start};
use crate::text::trim_str;
use crate::text::{
    lemma_first_of, lemma_first_of_is, lemma_trim_ends, lemma_trim_is_part, lemma_trim_tight,
};
use crate::utf8::{decode_lossy, encode, utf8_lossy};

verus! {

/// The header that lists whom a request came through, in lower case.
pub const FORWARDED_FOR: &'static str = "x-forwarded-for";

/// The header that tells how the visitor reached the first proxy, in lower case.
pub const FORWARDED_PROTO: &'static str = "x-forwarded-proto";

/// The value of an `X-Forwarded-For` line.
pub open spec fn forwarded_value(line: Seq<char>) -> Seq<char> {
    trim(unindented(line).skip(FORWARDED_FOR@.len() + 1int))
}

/// A list of addresses with one more behind it.
pub open spec fn appended(value: Seq<char>, ip: Seq<char>) -> Seq<char> {
    if value.len() == 0 {
        ip
    } else {
        value + ", "@ + ip
    }
}

pub open spec fn for_line(value: Seq<char>, ending: Seq<char>) -> Seq<char> {
    "X-Forwarded-For: "@ + value + ending
}

pub open spec fn proto_line(proto: Seq<char>, ending: Seq<char>) -> Seq<char> {
    "X-Forwarded-Proto: "@ + proto + ending
}

/// The lines in which the last `X-Forwarded-For` header, added where there is none,
/// ends with `ip`.
pub open spec fn with_client(
    lines: Seq<Seq<char>>,
    ip: Seq<char>,
    ending: Seq<char>,
) -> Seq<Seq<char>> {
    let blank = blank_index(lines);
    let i = last_header(lines, FORWARDED_FOR@, blank);
    if ip.len() == 0 {
        lines
    } else if i > 0 {
        lines.update(i, for_line(appended(forwarded_value(lines[i]), ip), ending))
    } else {
        lines.insert(blank, for_line(ip, ending))
    }
}

/// The lines with an `X-Forwarded-Proto` header at the end of the head.
pub open spec fn with_proto(
    lines: Seq<Seq<char>>,
    proto: Seq<char>,
    ending: Seq<char>,
) -> Seq<Seq<char>> {
    lines.insert(blank_index(lines), proto_line(proto, ending))
}

/// The lines of a request as they are handed on for a visitor at `ip` who came by
/// `proto`. An empty `ip` or `proto` adds nothing, and a protocol that the request
/// already names is kept.
pub open spec fn forwarded(
    lines: Seq<Seq<char>>,
    ip: Seq<char>,
    proto: Seq<char>,
) -> Seq<Seq<char>> {
    let ending = line_ending(lines);
    let named = with_client(lines, ip, ending);
    if proto.len() > 0 && last_header(lines, FORWARDED_PROTO@, blank_index(lines)) == 0 {
        with_proto(named, proto, ending)
    } else {
        named
    }
}

/// Rewrites the head of a request for a visitor at `client_ip` who came by `proto`.
pub fn forward_text(text: &str, client_ip: &str, proto: &str) -> (r: Result<String, EmptyRequest>)
    ensures
        match r {
            Ok(out) => text@.len() > 0 && out@ == flat(
                forwarded(lines_of(text@), client_ip@, proto@),
            ),
            Err(_) => text@.len() == 0,
        },
{
    let mut lines = split_lines(text);
    let ghost before = lines_of(text@);
    proof {
        lemma_no_lines(text@);
        lemma_blank_index(before);
    }
    if lines.len() == 0 {
        return Err(EmptyRequest);
    }
    let ending = ending_of(&lines);
    let blank = header_block_end(&lines);
    let has_proto = find_last_header(&lines, FORWARDED_PROTO, blank) > 0;
    if !client_ip.is_empty() {
        let i = find_last_header(&lines, FORWARDED_FOR, blank);
        let mut line = "X-Forwarded-For: ".to_owned();
        if i > 0 {
            let trimmed = unindent(lines[i].as_str());
            proof {
                lemma_last_header(before, FORWARDED_FOR@, blank as int);
                assert(before[i as int] == lines@[i as int]@);
            }
            let n = FORWARDED_FOR.unicode_len();
            let len: usize = trimmed.unicode_len();
            let rest = trimmed.substring_char(n + 1, len);
            assert(rest@ =~= trimmed@.skip(n + 1));
            let value = trim_str(rest);
            if !value.is_empty() {
                line = line.concat(value).concat(", ");
            }
            line = line.concat(client_ip).concat(ending);
            proof {
                let v = forwarded_value(before[i as int]);
                assert(line@ =~= for_line(appended(v, client_ip@), ending@));
            }
            let ghost l = line@;
            lines.set(i, line);
            assert(texts(lines@) =~= before.update(i as int, l));
        } else {
            line = line.concat(client_ip).concat(ending);
            let ghost l = line@;
            assert(l =~= for_line(client_ip@, ending@));
            lines.insert(blank, line);
            assert(texts(lines@) =~= before.insert(blank as int, l));
        }
    }
    if !proto.is_empty() && !has_proto {
        let ghost mid = texts(lines@);
        let blank = header_block_end(&lines);
        let line = "X-Forwarded-Proto: ".to_owned().concat(proto).concat(ending);
        let ghost l = line@;
        assert(l =~= proto_line(proto@, ending@));
        lines.insert(blank, line);
        assert(texts(lines@) =~= mid.insert(blank as int, l));
    }
    Ok(join_lines(&lines))
}

/// The head of a request in UTF-8 once it has passed a proxy that names the visitor
/// and the protocol.
pub open spec fn passed_on(head: Seq<u8>, ip: Seq<char>, proto: Seq<char>) -> Seq<u8> {
    encode_utf8(flat(forwarded(lines_of(decode_utf8(head)), ip, proto)))
}

/// Rewrites the head of a request in place; bytes that are not text are decoded
/// lossily first. Only a request without a byte is refused, and left as it is.
pub fn apply_x_forwarded_for(head: &mut Vec<u8>, client_ip: &str, proto: &str) -> (r: Result<
    (),
    EmptyRequest,
>)
    ensures
        match r {
            Ok(_) => old(head)@.len() > 0 && final(head)@ == encode_utf8(
                flat(forwarded(lines_of(utf8_lossy(old(head)@)), client_ip@, proto@)),
            ),
            Err(_) => old(head)@.len() == 0 && final(head)@ == old(head)@,
        },
        valid_utf8(old(head)@) ==> utf8_lossy(old(head)@) == decode_utf8(old(head)@),
        r is Ok && valid_utf8(old(head)@) ==> final(head)@ == passed_on(
            old(head)@,
            client_ip@,
            proto@,
        ),
{
    let text = decode_lossy(head.as_slice());
    match forward_text(text.as_str(), client_ip, proto) {
        Ok(out) => {
            *head = encode(out.as_str());
            Ok(())
        },
        Err(e) => Err(e),
    }
}

/// The addresses that a request lists: the value of its last `X-Forwarded-For`
/// header, empty where it has none.
pub open spec fn chain(lines: Seq<Seq<char>>) -> Seq<char> {
    let i = last_header(lines, FORWARDED_FOR@, blank_index(lines));
    if i > 0 {
        forwarded_value(lines[i])
    } else {
        Seq::empty()
    }
}

/// The lines of the body with the empty line before them.
pub open spec fn from_blank(lines: Seq<Seq<char>>) -> Seq<Seq<char>> {
    lines.skip(blank_index(lines))
}

/// No line carries both headers.
proof fn lemma_one_header(line: Seq<char>)
    ensures
        !(is_header(line, FORWARDED_FOR@) && is_header(line, FORWARDED_PROTO@)),
{
    reveal_strlit("x-forwarded-for");
    reveal_strlit("x-forwarded-proto");
    let l = unindented(line);
    if is_header(line, FORWARDED_FOR@) && is_header(line, FORWARDED_PROTO@) {
        assert(lower_all(l.take(15))[12] == lower_all(l.take(17))[12]);
    }
}

pub proof fn lemma_for_line(value: Seq<char>, ending: Seq<char>)
    requires
        ending == "\r\n"@ || ending == "\n"@,
    ensures
        !is_blank_line(for_line(value, ending)),
        is_header(for_line(value, ending), FORWARDED_FOR@),
        !is_header(for_line(value, ending), FORWARDED_PROTO@),
        unindented(for_line(value, ending)) == for_line(value, ending),
{
    reveal_strlit("X-Forwarded-For: ");
    reveal_strlit("x-forwarded-for");
    reveal_strlit("x-forwarded-proto");
    reveal_strlit("\r\n");
    reveal_strlit("\n");
    let l = for_line(value, ending);
    assert(l[0] == 'X');
    assert(lower_all(l.take(15)) =~= FORWARDED_FOR@);
    assert(l[15] == ':');
    if l.len() > 17 {
        assert(lower_all(l.take(17))[12] == 'f');
    }
}

pub proof fn lemma_proto_line(proto: Seq<char>, ending: Seq<char>)
    requires
        ending == "\r\n"@ || ending == "\n"@,
    ensures
        !is_blank_line(proto_line(proto, ending)),
        is_header(proto_line(proto, ending), FORWARDED_PROTO@),
        !is_header(proto_line(proto, ending), FORWARDED_FOR@),
{
    reveal_strlit("X-Forwarded-Proto: ");
    reveal_strlit("x-forwarded-for");
    reveal_strlit("x-forwarded-proto");
    reveal_strlit("\r\n");
    reveal_strlit("\n");
    let l = proto_line(proto, ending);
    assert(l[0] == 'X');
    assert(lower_all(l.take(17)) =~= FORWARDED_PROTO@);
    assert(l[17] == ':');
    assert(lower_all(l.take(15))[12] == 'p');
}

/// Where the empty line stands after a line of the head was replaced.
pub proof fn lemma_blank_after_update(lines: Seq<Seq<char>>, i: int, l: Seq<char>)
    requires
        0 <= i < blank_index(lines),
        !is_blank_line(l),
    ensures
        blank_index(lines.update(i, l)) == blank_index(lines),
        from_blank(lines.update(i, l)) == from_blank(lines),
{
    lemma_blank_index(lines);
    lemma_blank_index_is(lines.update(i, l), blank_index(lines));
    assert(from_blank(lines.update(i, l)) =~= from_blank(lines));
}

/// Where the empty line stands after a line was added at the end of the head.
pub proof fn lemma_blank_after_insert(lines: Seq<Seq<char>>, l: Seq<char>)
    requires
        !is_blank_line(l),
    ensures
        blank_index(lines.insert(blank_index(lines), l)) == blank_index(lines) + 1,
        from_blank(lines.insert(blank_index(lines), l)) == from_blank(lines),
{
    lemma_blank_index(lines);
    let b = blank_index(lines);
    let out = lines.insert(b, l);
    assert forall|j: int| 0 <= j < b + 1 implies !is_blank_line(#[trigger] out[j]) by {
        if j < b {
            assert(out[j] == lines[j]);
        }
    }
    lemma_blank_index_is(out, b + 1);
    assert(from_blank(out) =~= from_blank(lines));
}

/// The body of a request is handed on as it came.
pub proof fn body_is_kept(lines: Seq<Seq<char>>, ip: Seq<char>, proto: Seq<char>)
    ensures
        from_blank(forwarded(lines, ip, proto)) == from_blank(lines),
{
    let ending = line_ending(lines);
    let b = blank_index(lines);
    let i = last_header(lines, FORWARDED_FOR@, b);
    lemma_blank_index(lines);
    lemma_last_header(lines, FORWARDED_FOR@, b);
    let v = appended(forwarded_value(lines[i]), ip);
    lemma_for_line(v, ending);
    lemma_for_line(ip, ending);
    lemma_proto_line(proto, ending);
    if i > 0 {
        lemma_blank_after_update(lines, i, for_line(v, ending));
    }
    lemma_blank_after_insert(lines, for_line(ip, ending));
    lemma_blank_after_insert(with_client(lines, ip, ending), proto_line(proto, ending));
}

/// White space around a text is trimmed off again.
proof fn lemma_trim_framed(v: Seq<char>, ending: Seq<char>)
    requires
        v.len() > 0,
        trim(v) == v,
        ending == "\r\n"@ || ending == "\n"@,
    ensures
        trim(seq![' '] + v + ending) == v,
{
    reveal_strlit("\r\n");
    reveal_strlit("\n");
    reveal_with_fuel(trim_start, 3);
    reveal_with_fuel(trim_end, 4);
    lemma_trim_ends(v);
    let s = seq![' '] + v + ending;
    let t = v + ending;
    assert(s.skip(1) =~= t);
    assert(trim_start(s) == t);
    if ending.len() == 1 {
        assert(t.drop_last() =~= v);
    } else {
        assert(t.drop_last().drop_last() =~= v);
    }
}

/// A request that names an address lists it last, behind what it listed before.
proof fn lemma_client_is_last(lines: Seq<Seq<char>>, ip: Seq<char>, ending: Seq<char>)
    requires
        blank_index(lines) > 0,
        ip.len() > 0,
        trim(ip) == ip,
        ending == "\r\n"@ || ending == "\n"@,
    ensures
        chain(with_client(lines, ip, ending)) == appended(chain(lines), ip),
{
    let b = blank_index(lines);
    let i = last_header(lines, FORWARDED_FOR@, b);
    let out = with_client(lines, ip, ending);
    lemma_blank_index(lines);
    lemma_last_header(lines, FORWARDED_FOR@, b);
    let v = appended(chain(lines), ip);
    let l = for_line(v, ending);
    lemma_for_line(v, ending);
    reveal_strlit("X-Forwarded-For: ");
    reveal_strlit("x-forwarded-for");
    reveal_strlit(", ");
    assert(l.skip(16) =~= seq![' '] + v + ending);
    lemma_trim_ends(ip);
    if i > 0 {
        lemma_trim_ends(unindented(lines[i]).skip(16));
    }
    assert(v.last() == ip.last());
    lemma_trim_tight(v);
    lemma_trim_framed(v, ending);
    assert(forwarded_value(l) == v);
    if i > 0 {
        lemma_blank_after_update(lines, i, l);
        lemma_last_header_is(out, FORWARDED_FOR@, b, i);
    } else {
        lemma_blank_after_insert(lines, l);
        lemma_last_header_is(out, FORWARDED_FOR@, b + 1, b);
    }
}

/// A request that is handed on names the visitor last, behind those it came
/// through before: its first line is kept for that, so it must not be empty, and
/// the address must have no white space around it.
pub proof fn visitor_is_listed_last(lines: Seq<Seq<char>>, ip: Seq<char>, proto: Seq<char>)
    requires
        blank_index(lines) > 0,
        ip.len() > 0,
        trim(ip) == ip,
    ensures
        chain(forwarded(lines, ip, proto)) == appended(chain(lines), ip),
{
    let ending = line_ending(lines);
    let mid = with_client(lines, ip, ending);
    lemma_client_is_last(lines, ip, ending);
    lemma_blank_index(mid);
    lemma_proto_line(proto, ending);
    lemma_blank_after_insert(mid, proto_line(proto, ending));
    let b = blank_index(mid);
    let i = last_header(mid, FORWARDED_FOR@, b);
    lemma_last_header(mid, FORWARDED_FOR@, b);
    let out = with_proto(mid, proto, ending);
    assert forall|j: int| 1 <= j < b + 1 && i < j implies !is_header(
        #[trigger] out[j],
        FORWARDED_FOR@,
    ) by {
        if j < b {
            assert(out[j] == mid[j]);
        }
    }
    lemma_last_header_is(out, FORWARDED_FOR@, b + 1, i);
}

/// The protocol is named once: a request that was handed on gets no second
/// `X-Forwarded-Proto` header.
pub proof fn protocol_is_named_once(
    lines: Seq<Seq<char>>,
    ip: Seq<char>,
    proto: Seq<char>,
    again: Seq<char>,
)
    requires
        blank_index(lines) > 0,
        proto.len() > 0,
    ensures
        ({
            let out = forwarded(lines, ip, proto);
            &&& last_header(out, FORWARDED_PROTO@, blank_index(out)) > 0
            &&& forwarded(out, Seq::empty(), again) == out
        }),
{
    let ending = line_ending(lines);
    let b = blank_index(lines);
    let i = last_header(lines, FORWARDED_FOR@, b);
    let p = last_header(lines, FORWARDED_PROTO@, b);
    let mid = with_client(lines, ip, ending);
    let out = forwarded(lines, ip, proto);
    lemma_blank_index(lines);
    lemma_last_header(lines, FORWARDED_FOR@, b);
    lemma_last_header(lines, FORWARDED_PROTO@, b);
    let v = appended(forwarded_value(lines[i]), ip);
    lemma_for_line(v, ending);
    lemma_for_line(ip, ending);
    lemma_proto_line(proto, ending);
    if i > 0 {
        lemma_blank_after_update(lines, i, for_line(v, ending));
    }
    lemma_blank_after_insert(lines, for_line(ip, ending));
    lemma_blank_after_insert(mid, proto_line(proto, ending));
    lemma_blank_index(out);
    lemma_last_header(out, FORWARDED_PROTO@, blank_index(out));
    if p == 0 {
        assert(out[blank_index(mid)] == proto_line(proto, ending));
    } else {
        lemma_one_header(lines[p]);
        assert(out[p] == lines[p]);
    }
}

/// A line that was added splits off as one line.
pub proof fn lemma_added_line(head: Seq<char>, value: Seq<char>, ending: Seq<char>)
    requires
        ending == "\r\n"@ || ending == "\n"@,
        !head.contains('\n'),
        !value.contains('\n'),
    ensures
        is_line(head + value + ending),
{
    reveal_strlit("\r\n");
    reveal_strlit("\n");
    let l = head + value + ending;
    assert forall|j: int| 0 <= j < l.len() - 1 implies l[j] != '\n' by {
        if j < head.len() {
            assert(head.contains(head[j]));
        } else if j < head.len() + value.len() {
            assert(value.contains(value[j - head.len()]));
        }
    }
    lemma_first_of_is(l, '\n', l.len() - 1);
}

/// A complete head that was rewritten for an address and a protocol without a
/// newline reads back line by line, so that it can be rewritten again.
pub proof fn forwarded_text_reads_back(text: Seq<char>, ip: Seq<char>, proto: Seq<char>)
    requires
        blank_index(lines_of(text)) < lines_of(text).len(),
        !ip.contains('\n'),
        !proto.contains('\n'),
    ensures
        lines_of(flat(forwarded(lines_of(text), ip, proto))) == forwarded(
            lines_of(text),
            ip,
            proto,
        ),
{
    let lines = lines_of(text);
    let ending = line_ending(lines);
    let b = blank_index(lines);
    let i = last_header(lines, FORWARDED_FOR@, b);
    let mid = with_client(lines, ip, ending);
    let out = forwarded(lines, ip, proto);
    lemma_are_lines(text);
    lemma_blank_index(lines);
    lemma_last_header(lines, FORWARDED_FOR@, b);
    reveal_strlit("X-Forwarded-For: ");
    reveal_strlit("X-Forwarded-Proto: ");
    reveal_strlit(", ");
    let value = forwarded_value(lines[i]);
    let v = appended(value, ip);
    if i > 0 {
        lemma_value_has_no_newline(lines[i]);
        assert(!v.contains('\n')) by {
            if v.contains('\n') {
                let k = v.index_of('\n');
                if value.len() == 0 {
                    assert(ip.contains(ip[k]));
                } else if k < value.len() {
                    assert(value.contains(value[k]));
                } else if k >= value.len() + 2 {
                    assert(ip.contains(ip[k - value.len() - 2]));
                }
            }
        }
        lemma_added_line("X-Forwarded-For: "@, v, ending);
    }
    lemma_added_line("X-Forwarded-For: "@, ip, ending);
    lemma_added_line("X-Forwarded-Proto: "@, proto, ending);
    assert(are_lines(mid)) by {
        lemma_for_line(v, ending);
        assert forall|j: int| 0 <= j < mid.len() - 1 implies is_line(#[trigger] mid[j]) by {
            if ip.len() > 0 && i == 0 && j > b {
                assert(mid[j] == lines[j - 1]);
            }
        }
    }
    lemma_for_line(v, ending);
    lemma_for_line(ip, ending);
    if i > 0 {
        lemma_blank_after_update(lines, i, for_line(v, ending));
    }
    lemma_blank_after_insert(lines, for_line(ip, ending));
    let bm = blank_index(mid);
    assert(are_lines(out)) by {
        assert forall|j: int| 0 <= j < out.len() - 1 implies is_line(#[trigger] out[j]) by {
            if out.len() > mid.len() && j > bm {
                assert(out[j] == mid[j - 1]);
            }
        }
    }
    lines_split_back(out);
}

/// The value of a header line holds no newline.
proof fn lemma_value_has_no_newline(line: Seq<char>)
    requires
        is_line(line),
        is_header(line, FORWARDED_FOR@),
    ensures
        !forwarded_value(line).contains('\n'),
{
    let u = unindented(line);
    let rest = u.skip(FORWARDED_FOR@.len() + 1int);
    let v = forwarded_value(line);
    lemma_unindented_is_tail(line);
    lemma_first_of(line, '\n');
    lemma_trim_is_part(rest);
    lemma_trim_ends(rest);
    if v.contains('\n') {
        let at = v.index_of('\n');
        let from = rest.len() - trim_start(rest).len();
        assert(rest.subrange(from, from + v.len())[at] == rest[from + at]);
        let whole = line.len() - rest.len() + from + at;
        assert(line[whole] == '\n');
        assert(at == v.len() - 1);
    }
}

/// What naming a visitor leaves and what it adds, line by line.
proof fn lemma_forwarded_lines(lines: Seq<Seq<char>>, ip: Seq<char>, proto: Seq<char>)
    requires
        0 < blank_index(lines) < lines.len(),
        ip.len() > 0,
        trim(ip) == ip,
    ensures
        ({
            let out = forwarded(lines, ip, proto);
            let b = blank_index(lines);
            let end = blank_index(out);
            let ending = line_ending(lines);
            &&& b <= end < out.len()
            &&& last_header(lines, FORWARDED_FOR@, b) == 0 ==> headers_named(
                out,
                FORWARDED_FOR@,
                end,
            ) == seq![for_line(ip, ending)]
            &&& last_header(lines, FORWARDED_PROTO@, b) == 0 && proto.len() > 0 ==> headers_named(
                out,
                FORWARDED_PROTO@,
                end,
            ) == seq![proto_line(proto, ending)]
        }),
{
    let ending = line_ending(lines);
    let b = blank_index(lines);
    let i = last_header(lines, FORWARDED_FOR@, b);
    let p = last_header(lines, FORWARDED_PROTO@, b);
    let mid = with_client(lines, ip, ending);
    let out = forwarded(lines, ip, proto);
    lemma_blank_index(lines);
    lemma_last_header(lines, FORWARDED_FOR@, b);
    lemma_last_header(lines, FORWARDED_PROTO@, b);
    let v = appended(forwarded_value(lines[i]), ip);
    lemma_for_line(v, ending);
    lemma_for_line(ip, ending);
    lemma_proto_line(proto, ending);
    if i > 0 {
        lemma_blank_after_update(lines, i, for_line(v, ending));
    }
    lemma_blank_after_insert(lines, for_line(ip, ending));
    let bm = blank_index(mid);
    lemma_blank_index(mid);
    lemma_blank_after_insert(mid, proto_line(proto, ending));
    let end = blank_index(out);
    if i == 0 {
        assert(out[b] == for_line(ip, ending));
        assert forall|j: int| 1 <= j < end && j != b implies !is_header(
            #[trigger] out[j],
            FORWARDED_FOR@,
        ) by {
            if j < b {
                assert(out[j] == lines[j]);
            } else {
                assert(out[j] == proto_line(proto, ending));
            }
        }
        lemma_one_named(out, FORWARDED_FOR@, end, b);
    }
    if p == 0 && proto.len() > 0 {
        assert(out[bm] == proto_line(proto, ending));
        assert forall|j: int| 1 <= j < end && j != bm implies !is_header(
            #[trigger] out[j],
            FORWARDED_PROTO@,
        ) by {
            assert(out[j] == mid[j]);
            if i > 0 && j == i {
                assert(mid[j] == for_line(v, ending));
            } else if i == 0 && j == b {
                assert(mid[j] == for_line(ip, ending));
            } else {
                assert(mid[j] == lines[j]);
            }
        }
        lemma_one_named(out, FORWARDED_PROTO@, end, bm);
    }
}

/// Naming one more visitor in a head that lists one changes that line only.
proof fn lemma_forwarded_again(lines: Seq<Seq<char>>, ip: Seq<char>, proto: Seq<char>)
    requires
        0 < blank_index(lines) < lines.len(),
        ip.len() > 0,
        trim(ip) == ip,
        last_header(lines, FORWARDED_FOR@, blank_index(lines)) > 0,
        proto.len() > 0 ==> last_header(lines, FORWARDED_PROTO@, blank_index(lines)) > 0,
    ensures
        ({
            let out = forwarded(lines, ip, proto);
            let b = blank_index(lines);
            &&& blank_index(out) == b
            &&& headers_named(out, FORWARDED_PROTO@, b) == headers_named(
                lines,
                FORWARDED_PROTO@,
                b,
            )
            &&& headers_named(lines, FORWARDED_FOR@, b).len() == 1 ==> headers_named(
                out,
                FORWARDED_FOR@,
                b,
            ) == seq![for_line(appended(chain(lines), ip), line_ending(lines))]
        }),
{
    let ending = line_ending(lines);
    let b = blank_index(lines);
    let i = last_header(lines, FORWARDED_FOR@, b);
    let l = for_line(appended(chain(lines), ip), ending);
    let out = forwarded(lines, ip, proto);
    lemma_last_header(lines, FORWARDED_FOR@, b);
    lemma_for_line(appended(chain(lines), ip), ending);
    lemma_blank_after_update(lines, i, l);
    assert(out == lines.update(i, l));
    lemma_one_header(lines[i]);
    lemma_same_headers(out, lines, FORWARDED_PROTO@, b);
    if headers_named(lines, FORWARDED_FOR@, b).len() == 1 {
        lemma_only_header(lines, FORWARDED_FOR@, b, i);
        assert forall|j: int| 1 <= j < b && j != i implies !is_header(
            #[trigger] out[j],
            FORWARDED_FOR@,
        ) by {
            assert(out[j] == lines[j]);
        }
        lemma_one_named(out, FORWARDED_FOR@, b, i);
    }
}

/// Where one line carries a header, the last that does is the only one.
proof fn lemma_only_header(lines: Seq<Seq<char>>, name: Seq<char>, end: int, i: int)
    requires
        headers_named(lines, name, end).len() == 1,
        1 <= i < end,
        is_header(lines[i], name),
    ensures
        forall|j: int| 1 <= j < end && j != i ==> !is_header(#[trigger] lines[j], name),
    decreases end,
{
    if i == end - 1 {
        lemma_none_named(lines, name, end - 1);
    } else {
        if is_header(lines[end - 1], name) {
            lemma_none_named(lines, name, end - 1);
            assert(!is_header(lines[i], name));
        }
        lemma_only_header(lines, name, end - 1, i);
    }
}

proof fn lemma_none_named(lines: Seq<Seq<char>>, name: Seq<char>, end: int)
    requires
        headers_named(lines, name, end).len() == 0,
    ensures
        forall|j: int| 1 <= j < end ==> !is_header(#[trigger] lines[j], name),
    decreases end,
{
    if end > 1 {
        lemma_none_named(lines, name, end - 1);
    }
}

/// A complete head that passes two proxies, of which each names whom it got the
/// request from, lists both in that order behind whom it listed before. Where it
/// listed nobody it has exactly one such header, and the second proxy adds no header
/// on the protocol: where there was none and the first names it, it is named once.
pub proof fn hops_are_listed_in_order(
    head: Seq<u8>,
    a: Seq<char>,
    b: Seq<char>,
    proto: Seq<char>,
)
    requires
        0 < blank_index(lines_of(decode_utf8(head))) < lines_of(decode_utf8(head)).len(),
        a.len() > 0 && trim(a) == a && !a.contains('\n'),
        b.len() > 0 && trim(b) == b && !b.contains('\n'),
        !proto.contains('\n'),
    ensures
        ({
            let once = passed_on(head, a, proto);
            let twice = passed_on(once, b, proto);
            let before = lines_of(decode_utf8(head));
            let first = lines_of(decode_utf8(once));
            let second = lines_of(decode_utf8(twice));
            let end = blank_index(second);
            &&& valid_utf8(once) && valid_utf8(twice)
            &&& chain(second) == appended(appended(chain(before), a), b)
            &&& last_header(before, FORWARDED_FOR@, blank_index(before)) == 0 ==> chain(second) == a
                + ", "@ + b && headers_named(second, FORWARDED_FOR@, end) == seq![
                for_line(a + ", "@ + b, line_ending(first)),
            ]
            &&& headers_named(second, FORWARDED_PROTO@, end) == headers_named(
                first,
                FORWARDED_PROTO@,
                blank_index(first),
            )
            &&& last_header(before, FORWARDED_PROTO@, blank_index(before)) == 0 && proto.len() > 0
                ==> headers_named(second, FORWARDED_PROTO@, end) == seq![
                proto_line(proto, line_ending(before)),
            ]
        }),
{
    let text = decode_utf8(head);
    let before = lines_of(text);
    let first = forwarded(before, a, proto);
    let second = forwarded(first, b, proto);
    forwarded_text_reads_back(text, a, proto);
    encode_utf8_valid_utf8(flat(first));
    encode_utf8_decode_utf8(flat(first));
    lemma_forwarded_lines(before, a, proto);
    visitor_is_listed_last(before, a, proto);
    assert(appended(chain(before), a).len() > 0);
    assert(last_header(first, FORWARDED_FOR@, blank_index(first)) > 0) by {
        lemma_last_header(first, FORWARDED_FOR@, blank_index(first));
    }
    if proto.len() > 0 {
        protocol_is_named_once(before, a, proto, proto);
    }
    forwarded_text_reads_back(flat(first), b, proto);
    encode_utf8_valid_utf8(flat(second));
    encode_utf8_decode_utf8(flat(second));
    lemma_forwarded_again(first, b, proto);
    visitor_is_listed_last(first, b, proto);
}

/// A visitor is put behind a comma where others are listed before, and alone where none
/// are.
pub proof fn visitors_are_parted_by_commas(
    lines: Seq<Seq<char>>,
    ip: Seq<char>,
    proto: Seq<char>,
)
    requires
        blank_index(lines) > 0,
        ip.len() > 0,
        trim(ip) == ip,
    ensures
        chain(lines).len() > 0 ==> chain(forwarded(lines, ip, proto)) == chain(lines) + seq![
            ',',
            ' ',
        ] + ip,
        chain(lines).len() == 0 ==> chain(forwarded(lines, ip, proto)) == ip,
{
    visitor_is_listed_last(lines, ip, proto);
    reveal_strlit(", ");
    assert(", "@ =~= seq![',', ' ']);
}

/// Without a visitor and without a protocol nothing is changed.
pub proof fn nothing_is_forwarded_of_nobody(lines: Seq<Seq<char>>)
    ensures
        forwarded(lines, seq![], seq![]) == lines,
{
}

/// The request line, and every line ahead of the blank one that names no visitor, stays
/// where it is.
pub proof fn other_lines_are_kept(
    lines: Seq<Seq<char>>,
    ip: Seq<char>,
    proto: Seq<char>,
    i: int,
)
    requires
        0 <= i < blank_index(lines),
        i == 0 || !is_header(lines[i], "x-forwarded-for"@),
    ensures
        forwarded(lines, ip, proto)[i] == lines[i],
{
    lemma_blank_index(lines);
    lemma_last_header(lines, FORWARDED_FOR@, blank_index(lines));
    let ending = line_ending(lines);
    let named = with_client(lines, ip, ending);
    let k = last_header(lines, FORWARDED_FOR@, blank_index(lines));
    if ip.len() > 0 && k > 0 {
        lemma_for_line(appended(forwarded_value(lines[k]), ip), ending);
        lemma_blank_after_update(
            lines,
            k,
            for_line(appended(forwarded_value(lines[k]), ip), ending),
        );
    } else if ip.len() > 0 {
        lemma_for_line(ip, ending);
        lemma_blank_after_insert(lines, for_line(ip, ending));
    }
    assert(named[i] == lines[i]);
    lemma_blank_index(named);
}

} // verus!
