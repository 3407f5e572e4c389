//! Who may see the dashboard.
use base64::Engine;
use vstd::prelude::*;
use vstd::string::*;
use vstd::utf8::*;

use crate::text::{first_of, starts_with, trim};
use crate::text::{find_first, same, starts_with_str, to_chars, trim_str};
use crate::text::lemma_first_of;

verus! {

/// What the standard Base64 alphabet with padding makes of a text; nothing where it
/// is not such a text.
pub uninterp spec fn base64_decoded(text: Seq<char>) -> Option<Seq<u8>>;

/// Calls `decode` of `base64::engine::general_purpose::STANDARD`. Which texts are
/// decoded, and to which bytes, is what that engine says and is not stated further.
#[verifier::external_body]
fn decode_base64(text: &str) -> (r: Option<Vec<u8>>)
    ensures
        base64_decoded(text@) == (match r {
            Some(bytes) => Some(bytes@),
            None => None,
        }),
{
    match base64::engine::general_purpose::STANDARD.decode(text) {
        Ok(bytes) => Some(bytes),
        Err(_) => None,
    }
}

/// The encoded credentials in an authorization header.
pub open spec fn basic_token(header: Seq<char>) -> Option<Seq<char>> {
    if starts_with(header, "Basic "@) || starts_with(header, "basic "@) {
        Some(trim(header.skip(6)))
    } else {
        None
    }
}

/// The user and the password that decoded credentials hold: what stands before and
/// behind the first colon of a text.
pub open spec fn credentials(decoded: Option<Seq<u8>>) -> Option<(Seq<char>, Seq<char>)> {
    match decoded {
        Some(bytes) => {
            let s = decode_utf8(bytes);
            if valid_utf8(bytes) && s.contains(':') {
                Some((s.take(first_of(s, ':')), s.skip(first_of(s, ':') + 1)))
            } else {
                None
            }
        },
        None => None,
    }
}

/// Whether decoded credentials are those of the user.
pub fn credentials_match(decoded: Option<Vec<u8>>, user: &str, password: &str) -> (r: bool)
    ensures
        r == (credentials(
            match decoded {
                Some(bytes) => Some(bytes@),
                None => None,
            },
        ) == Some((user@, password@))),
{
    let bytes = match decoded {
        Some(bytes) => bytes,
        None => {
            return false;
        },
    };
    let s = match String::from_utf8(bytes) {
        Ok(s) => s,
        Err(_) => {
            return false;
        },
    };
    let v = to_chars(s.as_str());
    let n: usize = v.len();
    let k = find_first(v.as_slice(), ':');
    proof {
        lemma_first_of(s@, ':');
    }
    if k == n {
        return false;
    }
    let u = s.as_str().substring_char(0, k);
    let p = s.as_str().substring_char(k + 1, n);
    assert(u@ =~= s@.take(k as int));
    assert(p@ =~= s@.skip(k + 1));
    same(u, user) && same(p, password)
}

/// Whether a request with this authorization header may see the dashboard.
pub fn authorized(header: Option<&str>, user: &str, password: &str) -> (r: bool)
    ensures
        r == (header is Some && basic_token(header->0@) is Some && credentials(
            base64_decoded(basic_token(header->0@)->0),
        ) == Some((user@, password@))),
{
    let h = match header {
        Some(h) => h,
        None => {
            return false;
        },
    };
    if !starts_with_str(h, "Basic ") && !starts_with_str(h, "basic ") {
        return false;
    }
    proof {
        reveal_strlit("Basic ");
        reveal_strlit("basic ");
    }
    let n: usize = h.unicode_len();
    let rest = h.substring_char(6, n);
    assert(rest@ =~= h@.skip(6));
    credentials_match(decode_base64(trim_str(rest)), user, password)
}

/// A user name with a colon in it lets nobody in: what is read never has one.
pub proof fn user_has_no_colon(decoded: Option<Seq<u8>>, user: Seq<char>, password: Seq<char>)
    requires
        credentials(decoded) == Some((user, password)),
    ensures
        !user.contains(':'),
        decoded is Some,
        decode_utf8(decoded->0) == user + ":"@ + password,
{
    let s = decode_utf8(decoded->0);
    lemma_first_of(s, ':');
    reveal_strlit(":");
    assert(s =~= user + ":"@ + password);
}

} // verus!
