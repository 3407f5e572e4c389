//! What the dashboard makes of a request: who may see it, which name or file it means,
//! and which part of a list it gets.
use vstd::prelude::*;
use vstd::utf8::{decode_utf8, encode_utf8, valid_utf8};

use crate::dashboard::assets::{content_kind, is_safe, without_slashes};
use crate::dashboard::auth::{basic_token, credentials};
use crate::dashboard::pages::{is_meant, is_shown, on_page, page_shown, shown, size_shown};
use crate::dashboard::snapshot::{ClientInfo, TunnelInfo};
use crate::dashboard::url::{hex_value, unescaped};
use crate::text::{has_part, lower_all, part_at, trim};
use crate::text::lemma_first_of_is;

verus! {

/// A user without a colon and a password are read back from the bytes that join them by
/// a colon, whatever the password is.
pub proof fn credentials_are_read_back(user: Seq<char>, password: Seq<char>)
    requires
        !user.contains(':'),
    ensures
        credentials(Some(encode_utf8(user + seq![':'] + password))) == Some((user, password)),
{
    let s = user + seq![':'] + password;
    vstd::utf8::encode_utf8_valid_utf8(s);
    vstd::utf8::encode_utf8_decode_utf8(s);
    let k = user.len() as int;
    assert(s[k] == ':');
    assert forall|j: int| 0 <= j < k implies s[j] != ':' by {
        assert(user[j] == s[j]);
    }
    lemma_first_of_is(s, ':', k);
    assert(s.take(k) =~= user);
    assert(s.skip(k + 1) =~= password);
}

/// Bytes that are no text, or text without a colon, name nobody; neither does their
/// absence.
pub proof fn bad_credentials_name_nobody(bytes: Seq<u8>)
    ensures
        credentials(None) is None,
        credentials(Some(bytes)) is Some <==> valid_utf8(bytes) && decode_utf8(bytes).contains(':'),
{
}

/// A header carries a token if and only if it begins with the name of the scheme and a
/// space, the name all in lower case but for its first letter.
pub proof fn tokens_follow_the_scheme(header: Seq<char>, token: Seq<char>)
    ensures
        basic_token("Basic "@ + token) == Some(trim(token)),
        basic_token("basic "@ + token) == Some(trim(token)),
        basic_token(header) is Some ==> header.len() >= 6 && (header[0] == 'B' || header[0] == 'b')
            && header[1] == 'a' && header[2] == 's' && header[3] == 'i' && header[4] == 'c'
            && header[5] == ' ' && basic_token(header) == Some(trim(header.skip(6))),
        basic_token(header) is None ==> !(header.len() >= 6 && (header[0] == 'B' || header[0]
            == 'b') && header[1] == 'a' && header[2] == 's' && header[3] == 'i' && header[4] == 'c'
            && header[5] == ' '),
{
    reveal_strlit("Basic ");
    reveal_strlit("basic ");
    let a = "Basic "@;
    let b = "basic "@;
    assert((a + token).take(6) =~= a);
    assert((b + token).take(6) =~= b);
    assert((a + token).skip(6) =~= token);
    assert((b + token).skip(6) =~= token);
    if header.len() >= 6 {
        let h = header.take(6);
        if header[1] == 'a' && header[2] == 's' && header[3] == 'i' && header[4] == 'c' && header[5]
            == ' ' {
            if header[0] == 'B' {
                assert(h =~= a);
            }
            if header[0] == 'b' {
                assert(h =~= b);
            }
        }
        if h == a || h == b {
            assert(h[0] == header[0] && h[1] == header[1] && h[2] == header[2] && h[3] == header[3]
                && h[4] == header[4] && h[5] == header[5]);
        }
    }
}

/// A byte stands for a digit in base sixteen if and only if it is one of the ten digits
/// or one of the first six letters, in either case.
pub proof fn hex_digits_have_their_value(b: u8)
    ensures
        hex_value(b) is Some <==> (48 <= b <= 57 || 65 <= b <= 70 || 97 <= b <= 102),
        hex_value(b) matches Some(v) ==> v < 16,
        48 <= b <= 57 ==> hex_value(b) == Some((b - 48) as u8),
        65 <= b <= 70 ==> hex_value(b) == Some((b - 65 + 10) as u8) && hex_value(b) == hex_value(
            (b + 32) as u8,
        ),
{
}

/// What each beginning of a name in a request stands for: an escape for the byte with
/// that number, a plus for a space, everything else for itself; an escape that is no
/// number spoils the whole.
pub proof fn names_are_read_from_the_left(b: Seq<u8>, x: u8, h: u8, l: u8)
    ensures
        unescaped(seq![]) == Some(Seq::<u8>::empty()),
        hex_value(h) is Some && hex_value(l) is Some && unescaped(b) is Some ==> unescaped(
            seq![37u8, h, l] + b,
        ) == Some(seq![(hex_value(h)->0 * 16 + hex_value(l)->0) as u8] + unescaped(b)->0),
        hex_value(h) is None || hex_value(l) is None ==> unescaped(seq![37u8, h, l] + b) is None,
        x != 37 && unescaped(b) is Some ==> unescaped(seq![x] + b) == Some(
            seq![if x == 43 { 32u8 } else { x }] + unescaped(b)->0,
        ),
        x != 37 && unescaped(b) is None ==> unescaped(seq![x] + b) is None,
        b.len() < 2 && unescaped(b) is Some ==> unescaped(seq![37u8] + b) == Some(
            seq![37u8] + unescaped(b)->0,
        ),
{
    let e = seq![37u8, h, l] + b;
    assert(e[0] == 37 && e[1] == h && e[2] == l);
    assert(e.skip(3) =~= b);
    let y = seq![x] + b;
    assert(y[0] == x);
    assert(y.skip(1) =~= b);
    let z = seq![37u8] + b;
    assert(z[0] == 37);
    assert(z.skip(1) =~= b);
}

/// Of a path only slashes at its beginning are dropped, and all of these.
pub proof fn only_leading_slashes_are_dropped(path: Seq<char>)
    ensures
        ({
            let rest = without_slashes(path);
            let k = path.len() - rest.len();
            &&& 0 <= k
            &&& rest == path.skip(k)
            &&& forall|i: int| 0 <= i < k ==> #[trigger] path[i] == '/'
            &&& rest.len() > 0 ==> rest[0] != '/'
        }),
    decreases path.len(),
{
    if path.len() > 0 && path[0] == '/' {
        only_leading_slashes_are_dropped(path.skip(1));
        let rest = without_slashes(path);
        let k = path.len() - rest.len();
        assert(path.skip(1).skip(k - 1) =~= path.skip(k));
        assert forall|i: int| 0 <= i < k implies #[trigger] path[i] == '/' by {
            if i > 0 {
                assert(path.skip(1)[i - 1] == path[i]);
            }
        }
    } else {
        assert(path.skip(0) =~= path);
    }
}

/// No path with two dots in a row is looked up, wherever they stand, nor an empty one;
/// every other is.
pub proof fn paths_never_lead_up(path: Seq<char>)
    ensures
        is_safe(path) <==> path.len() > 0 && forall|i: int|
            0 <= i < path.len() - 1 && #[trigger] path[i] == '.' ==> path[i + 1] != '.',
{
    reveal_strlit("..");
    let dots = ".."@;
    if has_part(path, dots) {
        let i = choose|i: int| part_at(path, dots, i);
        assert(path.subrange(i, i + 2)[0] == path[i]);
        assert(path.subrange(i, i + 2)[1] == path[i + 1]);
    }
    if exists|i: int| 0 <= i < path.len() - 1 && #[trigger] path[i] == '.' && path[i + 1] == '.' {
        let i = choose|i: int|
            0 <= i < path.len() - 1 && #[trigger] path[i] == '.' && path[i + 1] == '.';
        assert(path.subrange(i, i + 2) =~= dots);
        assert(part_at(path, dots, i));
    }
}

/// Whatever page is asked for, one is shown, and its size lies between one and two
/// hundred; what is asked for within these bounds is what is shown.
pub proof fn pages_are_within_bounds(page: usize, page_size: usize)
    ensures
        page_shown(page) >= 1,
        page >= 1 ==> page_shown(page) == page,
        page == 0 ==> page_shown(page) == 1,
        1 <= size_shown(page_size) <= 200,
        1 <= page_size <= 200 ==> size_shown(page_size) == page_size,
        page_size > 200 ==> size_shown(page_size) == 200,
        page_size == 0 ==> size_shown(page_size) == 1,
{
}

/// A page is full unless the list ends on it or before it.
pub proof fn pages_are_full<T>(list: Seq<T>, page: usize, page_size: usize)
    requires
        page > 0,
        1 <= page_size <= 200,
    ensures
        page * page_size <= list.len() ==> on_page(list, page, page_size).len() == page_size,
        (page - 1) * page_size >= list.len() ==> on_page(list, page, page_size).len() == 0,
        (page - 1) * page_size < list.len() < page * page_size ==> on_page(
            list,
            page,
            page_size,
        ).len() == list.len() - (page - 1) * page_size,
{
    assert(page * page_size == (page - 1) * page_size + page_size) by (nonlinear_arith);
    assert((page - 1) * page_size >= 0) by (nonlinear_arith)
        requires
            page > 0,
    ;
}

/// A tunnel is shown if and only if it is of the session that was asked for, where one
/// was, and what was searched for occurs in its name, in whatever case.
pub proof fn searches_look_at_session_and_name(t: TunnelInfo, session_id: Seq<char>, needle: Seq<char>)
    ensures
        is_shown(t, session_id, needle) ==> trim(session_id).len() == 0 || t.session_id@ == trim(
            session_id,
        ),
        is_shown(t, session_id, needle) ==> trim(needle).len() == 0 || has_part(
            lower_all(t.name@),
            lower_all(trim(needle)),
        ),
        (trim(session_id).len() == 0 || t.session_id@ == trim(session_id)) && (trim(needle).len()
            == 0 || has_part(lower_all(t.name@), lower_all(trim(needle)))) ==> is_shown(
            t,
            session_id,
            needle,
        ),
{
}

/// Without a search every tunnel is shown, in its place.
pub proof fn everything_is_shown_without_a_search(list: Seq<TunnelInfo>)
    ensures
        shown(list, seq![], seq![]) == list,
    decreases list.len(),
{
    crate::text::lemma_trim_tight(Seq::<char>::empty());
    if list.len() > 0 {
        everything_is_shown_without_a_search(list.drop_last());
        assert(list.drop_last().push(list.last()) =~= list);
    }
}

/// A client is meant by the name of its session and by that of its agent.
pub proof fn clients_are_meant_by_either_name(c: ClientInfo, id: Seq<char>)
    ensures
        is_meant(c, c.session_id@),
        is_meant(c, c.agent_id@),
        is_meant(c, id) ==> id == c.session_id@ || id == c.agent_id@,
{
}

} // verus!
