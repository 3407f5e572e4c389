//! What holds of trimming, of case, of numbers in text and of the order of texts.
use vstd::prelude::*;

use crate::order::text_before;
use crate::text::{
    decimal, decimal_int, is_white, lower, lower_all, trim, trim_end, trim_start, unsigned_value,
};

verus! {

/// Trimming cuts white space off both ends, all of it, and nothing else.
pub proof fn trimming_cuts_white_space_only(s: Seq<char>)
    ensures
        exists|i: int, j: int|
            0 <= i <= j <= s.len() && trim(s) == #[trigger] s.subrange(i, j) && (forall|k: int|
                0 <= k < i ==> is_white(#[trigger] s[k])) && (forall|k: int|
                j <= k < s.len() ==> is_white(#[trigger] s[k])),
        trim(s).len() > 0 ==> !is_white(trim(s)[0]) && !is_white(trim(s)[trim(s).len() - 1]),
{
    lemma_start(s);
    lemma_end(trim_start(s));
    crate::text::lemma_trim_ends(s);
    let i = s.len() - trim_start(s).len();
    let j = i + trim(s).len();
    assert(trim(s) =~= s.subrange(i, j));
    assert forall|k: int| j <= k < s.len() implies is_white(#[trigger] s[k]) by {
        assert(trim_start(s)[k - i] == s[k]);
    }
}

proof fn lemma_start(s: Seq<char>)
    ensures
        trim_start(s).len() <= s.len(),
        trim_start(s) == s.skip(s.len() - trim_start(s).len()),
        forall|k: int| 0 <= k < s.len() - trim_start(s).len() ==> is_white(#[trigger] s[k]),
    decreases s.len(),
{
    if s.len() > 0 && is_white(s[0]) {
        lemma_start(s.skip(1));
        assert(s.skip(1).skip(s.len() - 1 - trim_start(s).len()) =~= s.skip(
            s.len() - trim_start(s).len(),
        ));
        assert forall|k: int| 0 <= k < s.len() - trim_start(s).len() implies is_white(
            #[trigger] s[k],
        ) by {
            if k > 0 {
                assert(s.skip(1)[k - 1] == s[k]);
            }
        }
    } else {
        assert(s.skip(0) =~= s);
    }
}

proof fn lemma_end(s: Seq<char>)
    ensures
        trim_end(s).len() <= s.len(),
        trim_end(s) == s.take(trim_end(s).len() as int),
        forall|k: int| trim_end(s).len() <= k < s.len() ==> is_white(#[trigger] s[k]),
    decreases s.len(),
{
    if s.len() > 0 && is_white(s.last()) {
        lemma_end(s.drop_last());
        assert(s.drop_last().take(trim_end(s).len() as int) =~= s.take(trim_end(s).len() as int));
        assert forall|k: int| trim_end(s).len() <= k < s.len() implies is_white(#[trigger] s[k]) by {
            if k < s.len() - 1 {
                assert(s.drop_last()[k] == s[k]);
            }
        }
    } else {
        assert(s.take(s.len() as int) =~= s);
    }
}

/// Lowering changes the letters from A to Z and no other character; doing it twice is
/// doing it once.
pub proof fn lowering_changes_capitals_only(s: Seq<char>, i: int)
    ensures
        lower_all(s).len() == s.len(),
        0 <= i < s.len() && !('A' <= s[i] <= 'Z') ==> lower_all(s)[i] == s[i],
        0 <= i < s.len() && 'A' <= s[i] <= 'Z' ==> lower_all(s)[i] as u32 == s[i] as u32 + 32,
        lower_all(lower_all(s)) == lower_all(s),
{
    assert forall|k: int| 0 <= k < s.len() implies lower(lower(#[trigger] s[k])) == lower(s[k]) by {}
    assert(lower_all(lower_all(s)) =~= lower_all(s));
}

/// A negative number is written as a minus before the number without its sign, any other
/// as it is.
pub proof fn numbers_are_written_with_their_sign(n: int)
    ensures
        n >= 0 ==> decimal_int(n) == decimal(n as nat),
        n < 0 ==> decimal_int(n) == seq!['-'] + decimal((-n) as nat),
{
}

/// Two numbers that are written alike are the same.
pub proof fn numbers_are_told_apart(a: nat, b: nat)
    ensures
        decimal(a) == decimal(b) ==> a == b,
{
    crate::text::lemma_decimal(a);
    crate::text::lemma_decimal(b);
}

/// A number is read with or without a plus before it; nothing at all, a sign alone, and
/// anything else in it are no number, and neither is a number beyond the largest allowed.
pub proof fn numbers_are_read_from_digits(s: Seq<char>, max: nat, n: nat, i: int)
    ensures
        unsigned_value(seq![], max) is None,
        unsigned_value(seq!['+'], max) is None,
        unsigned_value(decimal(n), max) == (if n <= max {
            Some(n)
        } else {
            None
        }),
        unsigned_value(seq!['+'] + decimal(n), max) == (if n <= max {
            Some(n)
        } else {
            None
        }),
        0 <= i < s.len() && !('0' <= s[i] <= '9') && !(i == 0 && s[i] == '+') ==> unsigned_value(
            s,
            max,
        ) is None,
        unsigned_value(s, max) matches Some(v) ==> v <= max,
{
    crate::text::lemma_decimal(n);
    let d = decimal(n);
    let p = seq!['+'] + d;
    assert(p[0] == '+');
    assert(p.skip(1) =~= d);
    assert(seq!['+'].skip(1).len() == 0);
    if 0 <= i < s.len() && !('0' <= s[i] <= '9') && !(i == 0 && s[i] == '+') {
        if s[0] == '+' {
            assert(s.skip(1)[i - 1] == s[i]);
        }
    }
}

/// Texts are ordered by the first character in which they differ, and a text comes ahead
/// of every longer one that begins with it.
pub proof fn texts_are_ordered_by_the_first_difference(
    head: Seq<char>,
    a: char,
    b: char,
    x: Seq<char>,
    y: Seq<char>,
)
    ensures
        text_before(head, head + seq![a] + x),
        !text_before(head + seq![a] + x, head),
        !text_before(head, head),
        a != b ==> (text_before(head + seq![a] + x, head + seq![b] + y) <==> a < b),
    decreases head.len(),
{
    let p = head + seq![a] + x;
    let q = head + seq![b] + y;
    if head.len() > 0 {
        let rest = head.skip(1);
        texts_are_ordered_by_the_first_difference(rest, a, b, x, y);
        assert(p.skip(1) =~= rest + seq![a] + x);
        assert(q.skip(1) =~= rest + seq![b] + y);
        assert(p[0] == head[0] && q[0] == head[0]);
    } else {
        assert(p[0] == a && q[0] == b);
    }
}

} // verus!
