//! The head of an HTTP request as a list of lines, each with its line ending.
use vstd::prelude::*;
use vstd::string::*;

use crate::text::{ends_with, first_of, lower_all, texts};
use crate::text::{ends_with_str, find_first, from_chars, lower_str, same, to_chars};
use crate::text::{lemma_first_of, lemma_first_of_is};

verus! {

/// The lines of a text: each ends with the newline that closes it, but for what
/// follows the last newline.
pub open spec fn lines_of(s: Seq<char>) -> Seq<Seq<char>>
    decreases s.len(),
{
    if s.len() == 0 {
        Seq::empty()
    } else if first_of(s, '\n') == s.len() {
        seq![s]
    } else {
        proof {
            lemma_first_of(s, '\n');
        }
        seq![s.take(first_of(s, '\n') + 1)] + lines_of(s.skip(first_of(s, '\n') + 1))
    }
}

/// The lines put together again.
pub open spec fn flat(lines: Seq<Seq<char>>) -> Seq<char>
    decreases lines.len(),
{
    if lines.len() == 0 {
        Seq::empty()
    } else {
        flat(lines.drop_last()) + lines.last()
    }
}

/// Putting together two lists of lines, one behind the other.
pub proof fn lemma_flat_concat(a: Seq<Seq<char>>, b: Seq<Seq<char>>)
    ensures
        flat(a + b) == flat(a) + flat(b),
    decreases b.len(),
{
    if b.len() == 0 {
        assert(a + b =~= a);
        assert(flat(a) + flat(b) =~= flat(a));
    } else {
        assert((a + b).drop_last() =~= a + b.drop_last());
        lemma_flat_concat(a, b.drop_last());
        assert(flat(a) + flat(b.drop_last()) + b.last() =~= flat(a) + (flat(b.drop_last())
            + b.last()));
    }
}

/// One line with a character is enough for a text with a character.
pub proof fn lemma_flat_not_empty(lines: Seq<Seq<char>>, i: int)
    requires
        0 <= i < lines.len(),
        lines[i].len() > 0,
    ensures
        flat(lines).len() > 0,
    decreases lines.len(),
{
    if i < lines.len() - 1 {
        lemma_flat_not_empty(lines.drop_last(), i);
    }
}

/// Splitting a text into lines loses nothing.
pub proof fn lines_join_back(s: Seq<char>)
    ensures
        flat(lines_of(s)) == s,
    decreases s.len(),
{
    lemma_first_of(s, '\n');
    reveal_with_fuel(flat, 2);
    if s.len() > 0 {
        let k = first_of(s, '\n');
        if k == s.len() {
            assert(seq![s].drop_last() =~= Seq::<Seq<char>>::empty());
            assert(flat(seq![s]) =~= s);
        } else {
            let a = s.take(k + 1);
            let b = s.skip(k + 1);
            lines_join_back(b);
            lemma_flat_concat(seq![a], lines_of(b));
            assert(seq![a].drop_last() =~= Seq::<Seq<char>>::empty());
            assert(flat(seq![a]) =~= a);
            assert(a + b =~= s);
        }
    }
}

/// A text has no lines only if it is empty.
pub proof fn lemma_no_lines(s: Seq<char>)
    ensures
        lines_of(s).len() == 0 <==> s.len() == 0,
{
    lemma_first_of(s, '\n');
}

/// Whether a text is one line: it ends with its only newline.
pub open spec fn is_line(l: Seq<char>) -> bool {
    l.len() > 0 && first_of(l, '\n') == l.len() - 1
}

/// Whether these are the lines of some text: each is one line, and only the last
/// may lack its newline.
pub open spec fn are_lines(lines: Seq<Seq<char>>) -> bool {
    &&& forall|i: int| 0 <= i < lines.len() - 1 ==> is_line(#[trigger] lines[i])
    &&& lines.len() > 0 ==> lines.last().len() > 0 && first_of(lines.last(), '\n')
        >= lines.last().len() - 1
}

/// The lines of a text are lines.
pub proof fn lemma_are_lines(s: Seq<char>)
    ensures
        are_lines(lines_of(s)),
    decreases s.len(),
{
    lemma_first_of(s, '\n');
    if s.len() > 0 && first_of(s, '\n') < s.len() {
        let k = first_of(s, '\n');
        let a = s.take(k + 1);
        let b = s.skip(k + 1);
        lemma_are_lines(b);
        lemma_first_of_is(a, '\n', k);
        let rest = lines_of(b);
        assert forall|i: int| 0 <= i < lines_of(s).len() - 1 implies is_line(
            #[trigger] lines_of(s)[i],
        ) by {
            if i > 0 {
                assert(lines_of(s)[i] == rest[i - 1]);
            }
        }
        if rest.len() > 0 {
            assert(lines_of(s).last() == rest.last());
        }
    }
}

/// Lines put together split into the same lines again.
pub proof fn lines_split_back(lines: Seq<Seq<char>>)
    requires
        are_lines(lines),
    ensures
        lines_of(flat(lines)) == lines,
    decreases lines.len(),
{
    reveal_with_fuel(flat, 2);
    reveal_with_fuel(lines_of, 2);
    if lines.len() > 0 {
        let a = lines[0];
        let rest = lines.skip(1);
        let s = flat(lines);
        assert(seq![a] + rest =~= lines);
        lemma_flat_concat(seq![a], rest);
        assert(seq![a].drop_last() =~= Seq::<Seq<char>>::empty());
        assert(flat(seq![a]) =~= a);
        lemma_first_of(a, '\n');
        if rest.len() == 0 {
            assert(rest =~= Seq::<Seq<char>>::empty());
            assert(s =~= a);
            if first_of(a, '\n') < a.len() {
                assert(s.skip(a.len() as int) =~= Seq::<char>::empty());
                assert(s.take(a.len() as int) =~= s);
                assert(lines_of(s) =~= seq![a]);
            }
            assert(lines =~= seq![a]);
        } else {
            assert forall|i: int| 0 <= i < rest.len() - 1 implies is_line(#[trigger] rest[i]) by {
                assert(rest[i] == lines[i + 1]);
            }
            lines_split_back(rest);
            let k = a.len() - 1;
            assert forall|j: int| 0 <= j < k implies s[j] != '\n' by {
                assert(s[j] == a[j]);
            }
            lemma_first_of_is(s, '\n', k);
            assert(s.take(k + 1) =~= a);
            assert(s.skip(k + 1) =~= flat(rest));
        }
    }
}

/// Whether a line is the empty one that closes the head of a request.
pub open spec fn is_blank_line(line: Seq<char>) -> bool {
    line == "\r\n"@ || line == "\n"@
}

/// The position of the first empty line; the number of lines where there is none.
pub open spec fn blank_index(lines: Seq<Seq<char>>) -> int
    decreases lines.len(),
{
    if lines.len() == 0 || is_blank_line(lines[0]) {
        0
    } else {
        1 + blank_index(lines.skip(1))
    }
}

/// What `blank_index` finds.
pub proof fn lemma_blank_index(lines: Seq<Seq<char>>)
    ensures
        0 <= blank_index(lines) <= lines.len(),
        blank_index(lines) < lines.len() ==> is_blank_line(lines[blank_index(lines)]),
        forall|j: int| 0 <= j < blank_index(lines) ==> !is_blank_line(#[trigger] lines[j]),
    decreases lines.len(),
{
    if lines.len() > 0 && !is_blank_line(lines[0]) {
        lemma_blank_index(lines.skip(1));
        assert forall|j: int| 0 <= j < blank_index(lines) implies !is_blank_line(
            #[trigger] lines[j],
        ) by {
            if j > 0 {
                assert(lines.skip(1)[j - 1] == lines[j]);
            }
        }
    }
}

/// The first empty line is determined by what stands there and before it.
pub proof fn lemma_blank_index_is(lines: Seq<Seq<char>>, k: int)
    requires
        0 <= k <= lines.len(),
        k < lines.len() ==> is_blank_line(lines[k]),
        forall|j: int| 0 <= j < k ==> !is_blank_line(#[trigger] lines[j]),
    ensures
        blank_index(lines) == k,
{
    lemma_blank_index(lines);
}

/// The line ending that added lines get: that of the text where one of its lines
/// ends with a carriage return and a newline.
pub open spec fn line_ending(lines: Seq<Seq<char>>) -> Seq<char> {
    if exists|i: int| 0 <= i < lines.len() && ends_with(#[trigger] lines[i], "\r\n"@) {
        "\r\n"@
    } else {
        "\n"@
    }
}

/// A line without the blanks and tabs that it begins with.
pub open spec fn unindented(line: Seq<char>) -> Seq<char>
    decreases line.len(),
{
    if line.len() > 0 && (line[0] == ' ' || line[0] == '\t') {
        unindented(line.skip(1))
    } else {
        line
    }
}

/// Unindenting a line takes something off its front only.
pub proof fn lemma_unindented_is_tail(line: Seq<char>)
    ensures
        unindented(line).len() <= line.len(),
        unindented(line) == line.skip(line.len() - unindented(line).len()),
    decreases line.len(),
{
    if line.len() > 0 && (line[0] == ' ' || line[0] == '\t') {
        lemma_unindented_is_tail(line.skip(1));
        assert(unindented(line) =~= line.skip(line.len() - unindented(line).len()));
    } else {
        assert(line.skip(0) =~= line);
    }
}

/// Whether a line, but for its indentation, begins with the header `name` (in lower
/// case) and a colon.
pub open spec fn is_header(line: Seq<char>, name: Seq<char>) -> bool {
    let l = unindented(line);
    &&& l.len() > name.len()
    &&& lower_all(l.take(name.len() as int)) == name
    &&& l[name.len() as int] == ':'
}

/// The last header line `name` before line `end`; 0 where there is none. The first
/// line is that of the request and never counts.
pub open spec fn last_header(lines: Seq<Seq<char>>, name: Seq<char>, end: int) -> int
    decreases end,
{
    if end <= 1 {
        0
    } else if is_header(lines[end - 1], name) {
        end - 1
    } else {
        last_header(lines, name, end - 1)
    }
}

/// The lines before `end` that carry a header, but for the first line of the request.
pub open spec fn headers_named(lines: Seq<Seq<char>>, name: Seq<char>, end: int) -> Seq<Seq<char>>
    decreases end,
{
    if end <= 1 {
        seq![]
    } else if is_header(lines[end - 1], name) {
        headers_named(lines, name, end - 1).push(lines[end - 1])
    } else {
        headers_named(lines, name, end - 1)
    }
}

/// The first header line `name` from line `from` on; `end` where there is none
/// before it.
pub open spec fn first_header(
    lines: Seq<Seq<char>>,
    name: Seq<char>,
    from: int,
    end: int,
) -> int
    decreases end - from,
{
    if from >= end {
        end
    } else if is_header(lines[from], name) {
        from
    } else {
        first_header(lines, name, from + 1, end)
    }
}

/// What `last_header` finds.
pub proof fn lemma_last_header(lines: Seq<Seq<char>>, name: Seq<char>, end: int)
    requires
        end <= lines.len(),
    ensures
        0 <= last_header(lines, name, end),
        last_header(lines, name, end) > 0 ==> last_header(lines, name, end) < end && is_header(
            lines[last_header(lines, name, end)],
            name,
        ),
        forall|j: int|
            1 <= j < end && last_header(lines, name, end) < j ==> !is_header(
                #[trigger] lines[j],
                name,
            ),
    decreases end,
{
    if end > 1 && !is_header(lines[end - 1], name) {
        lemma_last_header(lines, name, end - 1);
    }
}

/// The last header line is determined by what stands there and behind it.
pub proof fn lemma_last_header_is(lines: Seq<Seq<char>>, name: Seq<char>, end: int, k: int)
    requires
        end <= lines.len(),
        0 <= k,
        k > 0 ==> k < end && is_header(lines[k], name),
        forall|j: int| 1 <= j < end && k < j ==> !is_header(#[trigger] lines[j], name),
    ensures
        last_header(lines, name, end) == k,
{
    lemma_last_header(lines, name, end);
}

/// Only the lines before `end` decide which of them carry a header.
pub proof fn lemma_same_headers(
    a: Seq<Seq<char>>,
    b: Seq<Seq<char>>,
    name: Seq<char>,
    end: int,
)
    requires
        forall|j: int|
            1 <= j < end ==> (#[trigger] a[j]) == b[j] || (!is_header(a[j], name) && !is_header(
                b[j],
                name,
            )),
    ensures
        headers_named(a, name, end) == headers_named(b, name, end),
    decreases end,
{
    if end > 1 {
        assert(a[end - 1] == b[end - 1] || (!is_header(a[end - 1], name) && !is_header(
            b[end - 1],
            name,
        )));
        lemma_same_headers(a, b, name, end - 1);
    }
}

/// No line carries a header where there is no last one.
pub proof fn lemma_no_headers(lines: Seq<Seq<char>>, name: Seq<char>, end: int)
    requires
        forall|j: int| 1 <= j < end ==> !is_header(#[trigger] lines[j], name),
    ensures
        headers_named(lines, name, end) == Seq::<Seq<char>>::empty(),
    decreases end,
{
    if end > 1 {
        lemma_no_headers(lines, name, end - 1);
    }
}

/// A header that one line carries and no other.
pub proof fn lemma_one_named(lines: Seq<Seq<char>>, name: Seq<char>, end: int, i: int)
    requires
        1 <= i < end,
        is_header(lines[i], name),
        forall|j: int| 1 <= j < end && j != i ==> !is_header(#[trigger] lines[j], name),
    ensures
        headers_named(lines, name, end) == seq![lines[i]],
    decreases end,
{
    if i == end - 1 {
        lemma_no_headers(lines, name, end - 1);
        assert(headers_named(lines, name, end) =~= seq![lines[i]]);
    } else {
        lemma_one_named(lines, name, end - 1, i);
    }
}

/// What `first_header` finds.
pub proof fn lemma_first_header(lines: Seq<Seq<char>>, name: Seq<char>, from: int, end: int)
    requires
        0 <= from,
        end <= lines.len(),
    ensures
        first_header(lines, name, from, end) <= end,
        first_header(lines, name, from, end) < end ==> from <= first_header(lines, name, from, end)
            && is_header(lines[first_header(lines, name, from, end)], name),
        forall|j: int|
            from <= j < first_header(lines, name, from, end) ==> !is_header(
                #[trigger] lines[j],
                name,
            ),
    decreases end - from,
{
    if from < end && !is_header(lines[from], name) {
        lemma_first_header(lines, name, from + 1, end);
    }
}

/// Splits a text into its lines.
pub fn split_lines(s: &str) -> (r: Vec<String>)
    ensures
        texts(r@) == lines_of(s@),
{
    let v = to_chars(s);
    let n: usize = v.len();
    let mut out: Vec<String> = Vec::new();
    let mut from: usize = 0;
    assert(v@.skip(0) =~= v@);
    assert(texts(out@) + lines_of(v@) =~= lines_of(v@));
    while from < n
        invariant
            v@ == s@,
            n == v@.len(),
            from <= n,
            texts(out@) + lines_of(v@.skip(from as int)) == lines_of(s@),
        decreases n - from,
    {
        let rest = vstd::slice::slice_subrange(v.as_slice(), from, n);
        let k = find_first(rest, '\n');
        let ghost tail = v@.skip(from as int);
        assert(rest@ =~= tail);
        proof {
            lemma_first_of(tail, '\n');
        }
        let to = if k == rest.len() {
            n
        } else {
            from + k + 1
        };
        let line = from_chars(vstd::slice::slice_subrange(v.as_slice(), from, to));
        let ghost before = texts(out@);
        let ghost l = line@;
        out.push(line);
        assert(texts(out@) =~= before.push(l));
        proof {
            if k == tail.len() {
                assert(l =~= tail);
                assert(v@.skip(to as int) =~= Seq::<char>::empty());
                assert(texts(out@) + lines_of(v@.skip(to as int)) =~= before + seq![tail]);
            } else {
                assert(l =~= tail.take(k + 1));
                assert(tail.skip(k + 1) =~= v@.skip(to as int));
                assert(before.push(l) + lines_of(v@.skip(to as int)) =~= before + (seq![l]
                    + lines_of(v@.skip(to as int))));
            }
        }
        from = to;
    }
    assert(v@.skip(from as int) =~= Seq::<char>::empty());
    assert(texts(out@) + lines_of(v@.skip(from as int)) =~= texts(out@));
    out
}

/// Puts lines together again.
pub fn join_lines(lines: &Vec<String>) -> (r: String)
    ensures
        r@ == flat(texts(lines@)),
{
    let mut out = String::new();
    let mut i: usize = 0;
    assert(texts(lines@).take(0) =~= Seq::<Seq<char>>::empty());
    while i < lines.len()
        invariant
            i <= lines@.len(),
            out@ == flat(texts(lines@).take(i as int)),
        decreases lines@.len() - i,
    {
        out.append(lines[i].as_str());
        assert(texts(lines@).take(i + 1).drop_last() =~= texts(lines@).take(i as int));
        i += 1;
    }
    assert(texts(lines@).take(i as int) =~= texts(lines@));
    out
}

/// The position of the first empty line; the number of lines where there is none.
pub fn header_block_end(lines: &Vec<String>) -> (r: usize)
    ensures
        r == blank_index(texts(lines@)),
        r <= lines@.len(),
{
    let mut i: usize = 0;
    while i < lines.len() && !(same(lines[i].as_str(), "\r\n") || same(lines[i].as_str(), "\n"))
        invariant
            i <= lines@.len(),
            forall|j: int| 0 <= j < i ==> !is_blank_line(#[trigger] texts(lines@)[j]),
        decreases lines@.len() - i,
    {
        i += 1;
    }
    proof {
        lemma_blank_index_is(texts(lines@), i as int);
    }
    i
}

/// The line ending that added lines get.
pub fn ending_of(lines: &Vec<String>) -> (r: &'static str)
    ensures
        r@ == line_ending(texts(lines@)),
{
    let mut i: usize = 0;
    while i < lines.len()
        invariant
            i <= lines@.len(),
            forall|j: int| 0 <= j < i ==> !ends_with(#[trigger] texts(lines@)[j], "\r\n"@),
        decreases lines@.len() - i,
    {
        if ends_with_str(lines[i].as_str(), "\r\n") {
            assert(ends_with(texts(lines@)[i as int], "\r\n"@));
            return "\r\n";
        }
        i += 1;
    }
    "\n"
}

/// A line without the blanks and tabs that it begins with.
pub fn unindent<'a>(line: &'a str) -> (r: &'a str)
    ensures
        r@ == unindented(line@),
{
    let v = to_chars(line);
    let mut i: usize = 0;
    assert(v@.skip(0) =~= v@);
    while i < v.len() && (v[i] == ' ' || v[i] == '\t')
        invariant
            i <= v@.len(),
            v@ == line@,
            unindented(line@) == unindented(v@.skip(i as int)),
        decreases v@.len() - i,
    {
        assert(v@.skip(i as int).skip(1) =~= v@.skip(i + 1));
        i += 1;
    }
    assert(line@.skip(i as int) =~= line@.subrange(i as int, line@.len() as int));
    line.substring_char(i, v.len())
}

/// Whether a line carries the header `name`, which is given in lower case.
pub fn carries_header(line: &str, name: &str) -> (r: bool)
    ensures
        r == is_header(line@, name@),
{
    let l = unindent(line);
    let n = name.unicode_len();
    if l.unicode_len() <= n {
        return false;
    }
    let head = l.substring_char(0, n);
    assert(head@ =~= l@.take(n as int));
    same(lower_str(head).as_str(), name) && l.get_char(n) == ':'
}

/// The last header line `name` before line `end`; 0 where there is none.
pub fn find_last_header(lines: &Vec<String>, name: &str, end: usize) -> (r: usize)
    requires
        end <= lines@.len(),
    ensures
        r == last_header(texts(lines@), name@, end as int),
        r > 0 ==> r < end,
{
    let mut i: usize = end;
    while i > 1
        invariant
            i <= end,
            end <= lines@.len(),
            last_header(texts(lines@), name@, end as int) == last_header(
                texts(lines@),
                name@,
                i as int,
            ),
        decreases i,
    {
        if carries_header(lines[i - 1].as_str(), name) {
            return i - 1;
        }
        i -= 1;
    }
    0
}

/// The first header line `name` behind the first line; `end` where there is none
/// before it.
pub fn find_header(lines: &Vec<String>, name: &str, end: usize) -> (r: usize)
    requires
        end <= lines@.len(),
    ensures
        r == first_header(texts(lines@), name@, 1, end as int),
        r <= end,
{
    let mut i: usize = 1;
    while i < end
        invariant
            1 <= i,
            end >= 1 ==> i <= end,
            end <= lines@.len(),
            first_header(texts(lines@), name@, 1, end as int) == first_header(
                texts(lines@),
                name@,
                i as int,
                end as int,
            ),
        decreases end - i,
    {
        if carries_header(lines[i].as_str(), name) {
            return i;
        }
        i += 1;
    }
    end
}

/// A request without a single byte.
#[derive(Debug, Clone, Copy, PartialEq, Eq, Structural)]
pub struct EmptyRequest;

impl EmptyRequest {
    pub fn message(&self) -> (r: String)
        ensures
            r@ == "empty http request"@,
    {
        "empty http request".to_owned()
    }
}

/// A line is a header of a name if it begins with the name, in whatever case, and a
/// colon; spaces and tabs ahead of it do not count, and a name that only begins alike is
/// another.
pub proof fn headers_are_known_by_name(
    line: Seq<char>,
    written: Seq<char>,
    rest: Seq<char>,
    name: Seq<char>,
    indent: char,
)
    requires
        indent == ' ' || indent == '\t',
        written.len() > 0,
        written[0] != ' ' && written[0] != '\t',
    ensures
        is_header(seq![indent] + line, name) == is_header(line, name),
        lower_all(written) == name ==> is_header(written + seq![':'] + rest, name),
        is_header(written + seq![':'] + rest, name) && !written.contains(':') && !name.contains(':')
            ==> lower_all(written) == name,
        is_header(line, name) ==> line.contains(':'),
{
    let l = seq![indent] + line;
    assert(l[0] == indent);
    assert(l.skip(1) =~= line);
    let w = written + seq![':'] + rest;
    assert(w[0] == written[0]);
    assert(unindented(w) == w);
    assert(w[written.len() as int] == ':');
    if lower_all(written) == name {
        assert(lower_all(written).len() == written.len());
        assert(w.take(name.len() as int) =~= written);
    }
    if is_header(w, name) && !written.contains(':') && !name.contains(':') {
        let k = name.len() as int;
        assert(w[k] == ':');
        if k < written.len() {
            assert(written[k] == ':');
        }
        if k > written.len() {
            assert(w.take(k)[written.len() as int] == ':');
            assert(lower_all(w.take(k))[written.len() as int] == ':');
            assert(name[written.len() as int] == ':');
        }
        assert(w.take(k) =~= written);
    }
    if is_header(line, name) {
        lemma_unindented_is_tail(line);
        let u = unindented(line);
        let at = line.len() - u.len() + name.len();
        assert(line[at] == u[name.len() as int]);
    }
}

/// New lines end as one of the lines of the text does: with a carriage return where any
/// has one, and without where none has.
pub proof fn endings_follow_the_text(lines: Seq<Seq<char>>, i: int)
    ensures
        0 <= i < lines.len() && lines[i].len() >= 2 && lines[i][lines[i].len() - 2] == '\r'
            && lines[i][lines[i].len() - 1] == '\n' ==> line_ending(lines) == seq!['\r', '\n'],
        (forall|k: int|
            0 <= k < lines.len() ==> (#[trigger] lines[k]).len() < 2 || lines[k][lines[k].len() - 2]
                != '\r' || lines[k][lines[k].len() - 1] != '\n') ==> line_ending(lines) == seq!['\n'],
{
    reveal_strlit("\r\n");
    reveal_strlit("\n");
    let crlf = "\r\n"@;
    assert(crlf =~= seq!['\r', '\n']);
    assert("\n"@ =~= seq!['\n']);
    assert forall|k: int| 0 <= k < lines.len() implies (ends_with(#[trigger] lines[k], crlf)
        <==> lines[k].len() >= 2 && lines[k][lines[k].len() - 2] == '\r' && lines[k][lines[k].len()
        - 1] == '\n') by {
        let l = lines[k];
        if l.len() >= 2 {
            let tail = l.skip(l.len() - 2);
            assert(tail[0] == l[l.len() - 2] && tail[1] == l[l.len() - 1]);
            if tail[0] == '\r' && tail[1] == '\n' {
                assert(tail =~= crlf);
            }
        }
    }
}

/// A line is blank if it is an end of line alone, with or without a carriage return.
pub proof fn blank_lines_hold_nothing(line: Seq<char>)
    ensures
        is_blank_line(line) <==> line == seq!['\n'] || line == seq!['\r', '\n'],
{
    reveal_strlit("\r\n");
    reveal_strlit("\n");
    assert("\r\n"@ =~= seq!['\r', '\n']);
    assert("\n"@ =~= seq!['\n']);
}

} // verus!
