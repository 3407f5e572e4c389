//! Names in the path of a request.
use vstd::prelude::*;
use vstd::string::*;
use vstd::utf8::*;

verus! {

/// The value of a hexadecimal digit.
pub open spec fn hex_value(b: u8) -> Option<u8> {
    if 48 <= b <= 57 {
        Some((b - 48) as u8)
    } else if 97 <= b <= 102 {
        Some((b - 87) as u8)
    } else if 65 <= b <= 70 {
        Some((b - 55) as u8)
    } else {
        None
    }
}

pub fn from_hex(b: u8) -> (r: Option<u8>)
    ensures
        r == hex_value(b),
{
    if 48 <= b && b <= 57 {
        Some(b - 48)
    } else if 97 <= b && b <= 102 {
        Some(b - 87)
    } else if 65 <= b && b <= 70 {
        Some(b - 55)
    } else {
        None
    }
}

/// The bytes that encoded bytes stand for: a percent sign with two digits behind it
/// stands for one byte, a plus sign for a blank, any other byte for itself; so does a
/// percent sign too close to the end. Nothing where other than digits follow.
pub open spec fn unescaped(b: Seq<u8>) -> Option<Seq<u8>>
    decreases b.len(),
{
    if b.len() == 0 {
        Some(seq![])
    } else if b[0] == 37 && b.len() > 2 {
        match (hex_value(b[1]), hex_value(b[2]), unescaped(b.skip(3))) {
            (Some(h), Some(l), Some(rest)) => Some(seq![(h * 16 + l) as u8] + rest),
            _ => None,
        }
    } else {
        match unescaped(b.skip(1)) {
            Some(rest) => Some(
                seq![
                    if b[0] == 43 {
                        32u8
                    } else {
                        b[0]
                    },
                ] + rest,
            ),
            None => None,
        }
    }
}

/// The text that an encoded text stands for; nothing where it is not one.
pub open spec fn decoded(s: Seq<char>) -> Option<Seq<char>> {
    match unescaped(encode_utf8(s)) {
        Some(bytes) => if valid_utf8(bytes) {
            Some(decode_utf8(bytes))
        } else {
            None
        },
        None => None,
    }
}

/// Whether some bytes go on as `tail` once `head` is decoded.
spec fn goes_on(whole: Seq<u8>, head: Seq<u8>, tail: Seq<u8>) -> bool {
    unescaped(whole) == (match unescaped(tail) {
        Some(rest) => Some(head + rest),
        None => None,
    })
}

pub fn percent_decode(input: &str) -> (r: Option<String>)
    ensures
        match r {
            Some(s) => decoded(input@) == Some(s@),
            None => decoded(input@) is None,
        },
{
    let bytes = input.as_bytes();
    let n: usize = bytes.len();
    let ghost whole = encode_utf8(input@);
    assert(bytes@ == whole);
    let mut out: Vec<u8> = Vec::new();
    let mut i: usize = 0;
    assert(whole.skip(0) =~= whole);
    proof {
        if unescaped(whole) is Some {
            assert(Seq::<u8>::empty() + unescaped(whole)->0 =~= unescaped(whole)->0);
        }
    }
    while i < n
        invariant
            i <= n,
            n == bytes@.len(),
            bytes@ == whole,
            whole == encode_utf8(input@),
            goes_on(whole, out@, whole.skip(i as int)),
        decreases n - i,
    {
        let ghost before = out@;
        let ghost tail = whole.skip(i as int);
        let c = bytes[i];
        assert(tail[0] == c);
        if c == 37 && n - i > 2 {
            assert(tail[1] == bytes@[i + 1]);
            assert(tail[2] == bytes@[i + 2]);
            let h = match from_hex(bytes[i + 1]) {
                Some(h) => h,
                None => {
                    return None;
                },
            };
            let l = match from_hex(bytes[i + 2]) {
                Some(l) => l,
                None => {
                    return None;
                },
            };
            out.push(h * 16 + l);
            proof {
                assert(tail.skip(3) =~= whole.skip(i + 3));
                if let Some(rest) = unescaped(whole.skip(i + 3)) {
                    assert(before + (seq![(h * 16 + l) as u8] + rest) =~= out@ + rest);
                }
            }
            i += 3;
        } else {
            let d: u8 = if c == 43 {
                32
            } else {
                c
            };
            out.push(d);
            proof {
                assert(tail.skip(1) =~= whole.skip(i + 1));
                if let Some(rest) = unescaped(whole.skip(i + 1)) {
                    assert(before + (seq![d] + rest) =~= out@ + rest);
                }
            }
            i += 1;
        }
    }
    proof {
        assert(whole.skip(i as int) =~= Seq::<u8>::empty());
        assert(out@ + Seq::<u8>::empty() =~= out@);
    }
    match String::from_utf8(out) {
        Ok(s) => Some(s),
        Err(_) => None,
    }
}

/// The text that an encoded text stands for; the text itself where it is not one.
pub fn urlencoding_decode(raw: &str) -> (r: String)
    ensures
        r@ == (match decoded(raw@) {
            Some(s) => s,
            None => raw@,
        }),
{
    match percent_decode(raw) {
        Some(s) => s,
        None => raw.to_owned(),
    }
}

proof fn lemma_plain_bytes(b: Seq<u8>)
    requires
        forall|i: int| 0 <= i < b.len() ==> #[trigger] b[i] != 37 && b[i] != 43,
    ensures
        unescaped(b) == Some(b),
    decreases b.len(),
{
    if b.len() > 0 {
        let rest = b.skip(1);
        assert forall|i: int| 0 <= i < rest.len() implies #[trigger] rest[i] != 37 && rest[i]
            != 43 by {
            assert(rest[i] == b[i + 1]);
        }
        lemma_plain_bytes(rest);
        assert(seq![b[0]] + rest =~= b);
    } else {
        assert(b =~= seq![]);
    }
}

/// A name in which no byte is a percent sign or a plus sign stands for itself.
pub proof fn plain_names_stand_for_themselves(s: Seq<char>)
    requires
        forall|i: int|
            0 <= i < encode_utf8(s).len() ==> #[trigger] encode_utf8(s)[i] != 37 && encode_utf8(
                s,
            )[i] != 43,
    ensures
        decoded(s) == Some(s),
{
    lemma_plain_bytes(encode_utf8(s));
    encode_utf8_valid_utf8(s);
    encode_utf8_decode_utf8(s);
}

/// The digit for a value below sixteen, in upper case.
pub open spec fn hex_digit(v: u8) -> u8 {
    if v < 10 {
        (48 + v) as u8
    } else {
        (55 + v) as u8
    }
}

/// Bytes of which each is written as a percent sign and two digits.
pub open spec fn escaped(b: Seq<u8>) -> Seq<u8>
    decreases b.len(),
{
    if b.len() == 0 {
        seq![]
    } else {
        seq![37u8, hex_digit(b[0] / 16), hex_digit(b[0] % 16)] + escaped(b.skip(1))
    }
}

/// Whatever bytes a name has, they can be written in the path of a request and are
/// read back.
pub proof fn escaped_bytes_are_read_back(b: Seq<u8>)
    ensures
        unescaped(escaped(b)) == Some(b),
    decreases b.len(),
{
    if b.len() > 0 {
        let rest = b.skip(1);
        let e = escaped(b);
        escaped_bytes_are_read_back(rest);
        assert(e.skip(3) =~= escaped(rest));
        assert(seq![b[0]] + rest =~= b);
    } else {
        assert(b =~= seq![]);
    }
}

/// Whether bytes can be written so in the path of a request: each as a percent sign
/// and two digits of either case, as itself where it is neither a percent sign nor a
/// plus sign, or as a plus sign where it is a blank.
pub open spec fn spells(e: Seq<u8>, b: Seq<u8>) -> bool
    decreases b.len(),
{
    if b.len() == 0 {
        e.len() == 0
    } else {
        ||| e.len() >= 3 && e[0] == 37 && hex_value(e[1]) == Some((b[0] / 16) as u8) && hex_value(
            e[2],
        ) == Some((b[0] % 16) as u8) && spells(e.skip(3), b.skip(1))
        ||| e.len() >= 1 && e[0] == b[0] && e[0] != 37 && e[0] != 43 && spells(
            e.skip(1),
            b.skip(1),
        )
        ||| e.len() >= 1 && e[0] == 43 && b[0] == 32 && spells(e.skip(1), b.skip(1))
    }
}

proof fn lemma_spelled_bytes(e: Seq<u8>, b: Seq<u8>)
    requires
        spells(e, b),
    ensures
        unescaped(e) == Some(b),
    decreases b.len(),
{
    if b.len() > 0 {
        assert(seq![b[0]] + b.skip(1) =~= b);
        if e[0] == 37 {
            lemma_spelled_bytes(e.skip(3), b.skip(1));
            assert((b[0] / 16) * 16 + b[0] % 16 == b[0]);
        } else {
            lemma_spelled_bytes(e.skip(1), b.skip(1));
        }
    } else {
        assert(e =~= seq![]);
        assert(b =~= seq![]);
    }
}

/// Whatever text a name is, it is read back from every text that spells its bytes.
pub proof fn spelled_names_are_read_back(input: Seq<char>, s: Seq<char>)
    requires
        spells(encode_utf8(input), encode_utf8(s)),
    ensures
        decoded(input) == Some(s),
{
    lemma_spelled_bytes(encode_utf8(input), encode_utf8(s));
    encode_utf8_valid_utf8(s);
    encode_utf8_decode_utf8(s);
}

} // verus!
