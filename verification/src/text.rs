//! Text as sequences of characters: the vocabulary in which the other modules
//! state what they read and write.
use vstd::prelude::*;
use vstd::string::*;

verus! {

/// Appending one character is what `String::push` documents: the string grows
/// by exactly that character at its end.
pub assume_specification[ String::push ](s: &mut String, c: char)
    ensures
        final(s)@ == old(s)@.push(c),
;

/// The texts that a list of strings holds.
pub open spec fn texts(v: Seq<String>) -> Seq<Seq<char>> {
    Seq::new(v.len(), |i: int| v[i]@)
}

/// A copy of a list of strings.
pub fn copy_texts(v: &Vec<String>) -> (r: Vec<String>)
    ensures
        texts(r@) == texts(v@),
{
    let mut out: Vec<String> = Vec::new();
    let mut i: usize = 0;
    while i < v.len()
        invariant
            i <= v@.len(),
            out@.len() == i,
            forall|j: int| 0 <= j < i ==> (#[trigger] out@[j])@ == v@[j]@,
        decreases v@.len() - i,
    {
        out.push(v[i].clone());
        i += 1;
    }
    assert(texts(out@) =~= texts(v@));
    out
}

/// The characters with the Unicode property `White_Space`.
pub open spec fn is_white(c: char) -> bool {
    ||| '\u{9}' <= c <= '\u{d}'
    ||| c == ' '
    ||| c == '\u{85}'
    ||| c == '\u{a0}'
    ||| c == '\u{1680}'
    ||| '\u{2000}' <= c <= '\u{200a}'
    ||| c == '\u{2028}'
    ||| c == '\u{2029}'
    ||| c == '\u{202f}'
    ||| c == '\u{205f}'
    ||| c == '\u{3000}'
}

/// `s` without its leading white space.
pub open spec fn trim_start(s: Seq<char>) -> Seq<char>
    decreases s.len(),
{
    if s.len() > 0 && is_white(s[0]) {
        trim_start(s.skip(1))
    } else {
        s
    }
}

/// `s` without its trailing white space.
pub open spec fn trim_end(s: Seq<char>) -> Seq<char>
    decreases s.len(),
{
    if s.len() > 0 && is_white(s.last()) {
        trim_end(s.drop_last())
    } else {
        s
    }
}

/// `s` without white space at either end.
pub open spec fn trim(s: Seq<char>) -> Seq<char> {
    trim_end(trim_start(s))
}

/// Whether `s` holds nothing but white space.
pub open spec fn is_blank(s: Seq<char>) -> bool {
    trim(s).len() == 0
}

/// The ASCII lower-case form of one character.
pub open spec fn lower(c: char) -> char {
    if 'A' <= c <= 'Z' {
        (c as u8 + 32) as char
    } else {
        c
    }
}

/// The ASCII lower-case form of a text.
pub open spec fn lower_all(s: Seq<char>) -> Seq<char> {
    Seq::new(s.len(), |i: int| lower(s[i]))
}

pub fn is_white_char(c: char) -> (r: bool)
    ensures
        r == is_white(c),
{
    ('\u{9}' <= c && c <= '\u{d}') || c == ' ' || c == '\u{85}' || c == '\u{a0}' || c == '\u{1680}'
        || ('\u{2000}' <= c && c <= '\u{200a}') || c == '\u{2028}' || c == '\u{2029}' || c
        == '\u{202f}' || c == '\u{205f}' || c == '\u{3000}'
}

pub fn lower_char(c: char) -> (r: char)
    ensures
        r == lower(c),
{
    if 'A' <= c && c <= 'Z' {
        (c as u8 + 32) as char
    } else {
        c
    }
}

/// The characters of `s`, in order.
pub fn to_chars(s: &str) -> (r: Vec<char>)
    ensures
        r@ == s@,
{
    let mut out: Vec<char> = Vec::new();
    for c in it: s.chars()
        invariant
            out@ == s@.take(it.index()),
            it.seq() == s@,
    {
        out.push(c);
        assert(s@.take(it.index() + 1) =~= s@.take(it.index()).push(c));
    }
    assert(s@.take(s@.len() as int) =~= s@);
    out
}

/// The text with exactly the characters `v`.
pub fn from_chars(v: &[char]) -> (r: String)
    ensures
        r@ == v@,
{
    let mut out = String::new();
    let mut i: usize = 0;
    while i < v.len()
        invariant
            i <= v@.len(),
            out@ == v@.take(i as int),
        decreases v@.len() - i,
    {
        out.push(v[i]);
        i += 1;
        assert(v@.take(i as int) =~= v@.take(i - 1).push(v@[i - 1]));
    }
    assert(v@.take(i as int) =~= v@);
    out
}


/// How many characters of white space `v` begins with.
fn white_prefix(v: &[char]) -> (r: usize)
    ensures
        r <= v@.len(),
        trim_start(v@) == v@.skip(r as int),
{
    let mut i: usize = 0;
    assert(v@.skip(0) =~= v@);
    while i < v.len() && is_white_char(v[i])
        invariant
            i <= v@.len(),
            trim_start(v@) == trim_start(v@.skip(i as int)),
        decreases v@.len() - i,
    {
        assert(v@.skip(i as int).skip(1) =~= v@.skip(i + 1));
        i += 1;
    }
    i
}

/// Where the last character of `v` that is not white space ends, not before `from`.
fn white_suffix(v: &[char], from: usize) -> (r: usize)
    requires
        from <= v@.len(),
    ensures
        from <= r <= v@.len(),
        trim_end(v@.skip(from as int)) == v@.subrange(from as int, r as int),
{
    let mut end: usize = v.len();
    assert(v@.skip(from as int) =~= v@.subrange(from as int, end as int));
    while end > from && is_white_char(v[end - 1])
        invariant
            from <= end <= v@.len(),
            trim_end(v@.skip(from as int)) == trim_end(v@.subrange(from as int, end as int)),
        decreases end,
    {
        assert(v@.subrange(from as int, end as int).drop_last() =~= v@.subrange(
            from as int,
            end - 1,
        ));
        end -= 1;
    }
    end
}

/// `s` without white space at either end.
pub fn trim_str<'a>(s: &'a str) -> (r: &'a str)
    ensures
        r@ == trim(s@),
{
    let v = to_chars(s);
    let from = white_prefix(v.as_slice());
    let to = white_suffix(v.as_slice(), from);
    s.substring_char(from, to)
}

/// Whether `s` holds nothing but white space.
pub fn is_blank_str(s: &str) -> (r: bool)
    ensures
        r == is_blank(s@),
{
    trim_str(s).is_empty()
}

/// Whether two texts are the same.
pub fn same(a: &str, b: &str) -> (r: bool)
    ensures
        r == (a@ == b@),
{
    a.to_owned() == b.to_owned()
}

/// Whether two lists hold the same texts.
pub fn same_texts(a: &Vec<String>, b: &Vec<String>) -> (r: bool)
    ensures
        r == (texts(a@) == texts(b@)),
{
    if a.len() != b.len() {
        assert(texts(a@).len() != texts(b@).len());
        return false;
    }
    let mut i: usize = 0;
    while i < a.len()
        invariant
            i <= a@.len(),
            a@.len() == b@.len(),
            forall|j: int| 0 <= j < i ==> (#[trigger] a@[j])@ == b@[j]@,
        decreases a@.len() - i,
    {
        if !same(a[i].as_str(), b[i].as_str()) {
            assert(texts(a@)[i as int] != texts(b@)[i as int]);
            return false;
        }
        i += 1;
    }
    assert(texts(a@) =~= texts(b@));
    true
}

/// The ASCII lower-case form of a text.
pub fn lower_str(s: &str) -> (r: String)
    ensures
        r@ == lower_all(s@),
{
    let v = to_chars(s);
    let mut out = String::new();
    let mut i: usize = 0;
    while i < v.len()
        invariant
            v@ == s@,
            i <= v@.len(),
            out@ == lower_all(s@).take(i as int),
        decreases v@.len() - i,
    {
        out.push(lower_char(v[i]));
        i += 1;
        assert(lower_all(s@).take(i as int) =~= lower_all(s@).take(i - 1).push(lower(s@[i - 1])));
    }
    assert(lower_all(s@).take(i as int) =~= lower_all(s@));
    out
}

/// `s` trimmed, in ASCII lower case.
pub fn trim_lower(s: &str) -> (r: String)
    ensures
        r@ == lower_all(trim(s@)),
{
    lower_str(trim_str(s))
}

/// Whether two texts agree up to the case of their ASCII letters.
pub fn same_ignoring_case(a: &str, b: &str) -> (r: bool)
    ensures
        r == (lower_all(a@) == lower_all(b@)),
{
    lower_str(a) == lower_str(b)
}

/// The first position of `c` in `s`; the length of `s` where there is none.
pub open spec fn first_of(s: Seq<char>, c: char) -> int
    decreases s.len(),
{
    if s.len() == 0 || s[0] == c {
        0
    } else {
        1 + first_of(s.skip(1), c)
    }
}

/// The last position of `c` in `s`; -1 where there is none.
pub open spec fn last_of(s: Seq<char>, c: char) -> int
    decreases s.len(),
{
    if s.len() == 0 || s.last() == c {
        s.len() - 1
    } else {
        last_of(s.drop_last(), c)
    }
}

/// What `first_of` finds: `c` stands there and nowhere before.
pub proof fn lemma_first_of(s: Seq<char>, c: char)
    ensures
        0 <= first_of(s, c) <= s.len(),
        first_of(s, c) < s.len() ==> s[first_of(s, c)] == c,
        forall|j: int| 0 <= j < first_of(s, c) ==> s[j] != c,
        s.contains(c) <==> first_of(s, c) < s.len(),
    decreases s.len(),
{
    if s.len() > 0 && s[0] != c {
        lemma_first_of(s.skip(1), c);
        assert forall|j: int| 0 <= j < first_of(s, c) implies s[j] != c by {
            if j > 0 {
                assert(s.skip(1)[j - 1] == s[j]);
            }
        }
    }
    if s.contains(c) {
        let k = s.index_of(c);
        assert(s[k] == c);
    }
}

/// The first position is determined by what stands there and before it.
pub proof fn lemma_first_of_is(s: Seq<char>, c: char, k: int)
    requires
        0 <= k <= s.len(),
        k < s.len() ==> s[k] == c,
        forall|j: int| 0 <= j < k ==> s[j] != c,
    ensures
        first_of(s, c) == k,
{
    lemma_first_of(s, c);
}

/// What `last_of` finds: `c` stands there and nowhere behind.
pub proof fn lemma_last_of(s: Seq<char>, c: char)
    ensures
        -1 <= last_of(s, c) < s.len(),
        last_of(s, c) >= 0 ==> s[last_of(s, c)] == c,
        forall|j: int| last_of(s, c) < j < s.len() ==> s[j] != c,
        s.contains(c) <==> last_of(s, c) >= 0,
    decreases s.len(),
{
    if s.len() > 0 && s.last() != c {
        lemma_last_of(s.drop_last(), c);
        assert forall|j: int| last_of(s, c) < j < s.len() implies s[j] != c by {
            if j < s.len() - 1 {
                assert(s.drop_last()[j] == s[j]);
            }
        }
    }
    if s.contains(c) {
        let k = s.index_of(c);
        assert(s[k] == c);
    }
}

/// The last position is determined by what stands there and behind it.
pub proof fn lemma_last_of_is(s: Seq<char>, c: char, k: int)
    requires
        -1 <= k < s.len(),
        k >= 0 ==> s[k] == c,
        forall|j: int| k < j < s.len() ==> s[j] != c,
    ensures
        last_of(s, c) == k,
{
    lemma_last_of(s, c);
}

/// The first position of `c` in `v`; the length of `v` where there is none.
pub fn find_first(v: &[char], c: char) -> (r: usize)
    ensures
        r == first_of(v@, c),
        r <= v@.len(),
{
    let mut i: usize = 0;
    while i < v.len() && v[i] != c
        invariant
            i <= v@.len(),
            forall|j: int| 0 <= j < i ==> v@[j] != c,
        decreases v@.len() - i,
    {
        i += 1;
    }
    proof {
        lemma_first_of_is(v@, c, i as int);
    }
    i
}

/// One past the last position of `c` in `v`; 0 where there is none.
pub fn find_last_end(v: &[char], c: char) -> (r: usize)
    ensures
        r == last_of(v@, c) + 1,
        r <= v@.len(),
{
    let mut i: usize = v.len();
    while i > 0 && v[i - 1] != c
        invariant
            i <= v@.len(),
            forall|j: int| i <= j < v@.len() ==> v@[j] != c,
        decreases i,
    {
        i -= 1;
    }
    proof {
        lemma_last_of_is(v@, c, i - 1);
    }
    i
}

/// Whether `s` begins with `head`.
pub open spec fn starts_with(s: Seq<char>, head: Seq<char>) -> bool {
    head.len() <= s.len() && s.take(head.len() as int) == head
}

/// Whether `s` ends with `tail`.
pub open spec fn ends_with(s: Seq<char>, tail: Seq<char>) -> bool {
    tail.len() <= s.len() && s.skip(s.len() - tail.len()) == tail
}

/// Whether `part` stands somewhere in `s`.
pub open spec fn has_part(s: Seq<char>, part: Seq<char>) -> bool {
    exists|i: int| #[trigger] part_at(s, part, i)
}

/// Whether `part` stands in `s` from position `i` on.
pub open spec fn part_at(s: Seq<char>, part: Seq<char>, i: int) -> bool {
    0 <= i && i + part.len() <= s.len() && s.subrange(i, i + part.len()) == part
}

/// Whether `part` stands in `v` from position `at` on.
fn is_part_at(v: &[char], part: &[char], at: usize) -> (r: bool)
    requires
        at <= v@.len(),
    ensures
        r == part_at(v@, part@, at as int),
{
    let n: usize = v.len();
    if part.len() > n - at {
        return false;
    }
    let mut i: usize = 0;
    while i < part.len()
        invariant
            n == v@.len(),
            i <= part@.len(),
            at + part@.len() <= n,
            forall|j: int| 0 <= j < i ==> v@[at + j] == part@[j],
        decreases part@.len() - i,
    {
        if v[at + i] != part[i] {
            assert(v@.subrange(at as int, at + part@.len())[i as int] != part@[i as int]);
            return false;
        }
        i += 1;
    }
    assert(v@.subrange(at as int, at + part@.len()) =~= part@);
    true
}

/// Whether `part` stands somewhere in `s`.
pub fn contains_str(s: &str, part: &str) -> (r: bool)
    ensures
        r == has_part(s@, part@),
{
    let v = to_chars(s);
    let p = to_chars(part);
    let mut i: usize = 0;
    while i <= v.len()
        invariant
            v@ == s@,
            p@ == part@,
            i <= v@.len() + 1,
            forall|j: int| 0 <= j < i ==> !part_at(s@, part@, j),
        decreases v@.len() + 1 - i,
    {
        if is_part_at(v.as_slice(), p.as_slice(), i) {
            return true;
        }
        if i == v.len() {
            return false;
        }
        i += 1;
    }
    false
}

/// Whether `s` begins with `head`.
pub fn starts_with_str(s: &str, head: &str) -> (r: bool)
    ensures
        r == starts_with(s@, head@),
{
    let v = to_chars(s);
    let p = to_chars(head);
    let r = is_part_at(v.as_slice(), p.as_slice(), 0);
    assert(head@.len() <= s@.len() ==> s@.subrange(0, head@.len() as int) =~= s@.take(
        head@.len() as int,
    ));
    r
}

/// Whether `s` ends with `tail`.
pub fn ends_with_str(s: &str, tail: &str) -> (r: bool)
    ensures
        r == ends_with(s@, tail@),
{
    let v = to_chars(s);
    let p = to_chars(tail);
    if p.len() > v.len() {
        return false;
    }
    assert(s@.subrange(s@.len() - tail@.len(), s@.len() as int) =~= s@.skip(
        s@.len() - tail@.len(),
    ));
    is_part_at(v.as_slice(), p.as_slice(), v.len() - p.len())
}

/// The decimal digit for a number below ten.
pub open spec fn digit(n: nat) -> char {
    ('0' as u8 + n) as char
}

/// `n` written in decimal.
pub open spec fn decimal(n: nat) -> Seq<char>
    decreases n,
{
    if n < 10 {
        seq![digit(n)]
    } else {
        decimal(n / 10).push(digit(n % 10))
    }
}

/// `n` written in decimal.
pub fn decimal_str(n: u64) -> (r: String)
    ensures
        r@ == decimal(n as nat),
    decreases n,
{
    if n < 10 {
        let mut s = String::new();
        s.push((48 + n as u8) as char);
        assert(s@ =~= seq![digit(n as nat)]);
        s
    } else {
        let mut s = decimal_str(n / 10);
        s.push((48 + (n % 10) as u8) as char);
        s
    }
}

/// `n` written in decimal, with a leading minus sign where it is negative.
pub open spec fn decimal_int(n: int) -> Seq<char> {
    if n < 0 {
        seq!['-'] + decimal((-n) as nat)
    } else {
        decimal(n as nat)
    }
}

/// `n` written in decimal, with a leading minus sign where it is negative.
pub fn decimal_int_str(n: i64) -> (r: String)
    ensures
        r@ == decimal_int(n as int),
{
    if n < 0 {
        let mut s = String::new();
        s.push('-');
        let m: u64 = (-(n as i128)) as u64;
        s.append(decimal_str(m).as_str());
        assert(s@ =~= seq!['-'] + decimal((-n) as nat));
        s
    } else {
        decimal_str(n as u64)
    }
}

pub open spec fn is_digit(c: char) -> bool {
    '0' <= c <= '9'
}

/// Whether `s` holds nothing but decimal digits.
pub open spec fn all_digits(s: Seq<char>) -> bool {
    forall|i: int| 0 <= i < s.len() ==> is_digit(#[trigger] s[i])
}

/// The number that a run of decimal digits denotes.
pub open spec fn digits_value(s: Seq<char>) -> nat
    decreases s.len(),
{
    if s.len() == 0 {
        0
    } else {
        digits_value(s.drop_last()) * 10 + (s.last() as u8 - '0' as u8) as nat
    }
}

/// The digits of a number that may carry a plus sign.
pub open spec fn unsigned_digits(s: Seq<char>) -> Seq<char> {
    if s.len() > 0 && s[0] == '+' {
        s.skip(1)
    } else {
        s
    }
}

/// The number up to `max` that `s` denotes: an optional plus sign, then at least
/// one digit, and nothing else.
pub open spec fn unsigned_value(s: Seq<char>, max: nat) -> Option<nat> {
    let d = unsigned_digits(s);
    if d.len() > 0 && all_digits(d) && digits_value(d) <= max {
        Some(digits_value(d))
    } else {
        None
    }
}

proof fn lemma_digits_value_grows(s: Seq<char>, k: int)
    requires
        0 <= k <= s.len(),
    ensures
        digits_value(s.take(k)) <= digits_value(s),
    decreases s.len() - k,
{
    if k < s.len() {
        lemma_digits_value_grows(s, k + 1);
        assert(s.take(k + 1).drop_last() =~= s.take(k));
    } else {
        assert(s.take(k) =~= s);
    }
}

/// The port number that `v` denotes.
pub fn parse_u16(v: &[char]) -> (r: Option<u16>)
    ensures
        match r {
            Some(n) => unsigned_value(v@, u16::MAX as nat) == Some(n as nat),
            None => unsigned_value(v@, u16::MAX as nat) is None,
        },
{
    let start: usize = if v.len() > 0 && v[0] == '+' {
        1
    } else {
        0
    };
    let ghost d = unsigned_digits(v@);
    assert(d =~= v@.skip(start as int));
    if start == v.len() {
        return None;
    }
    let mut n: u32 = 0;
    let mut i: usize = start;
    assert(d.take(0) =~= Seq::<char>::empty());
    while i < v.len()
        invariant
            start <= i <= v@.len(),
            start < v@.len(),
            d == unsigned_digits(v@),
            d == v@.skip(start as int),
            n <= u16::MAX,
            n == digits_value(d.take(i - start)),
            forall|j: int| 0 <= j < i - start ==> is_digit(#[trigger] d[j]),
        decreases v@.len() - i,
    {
        let c = v[i];
        assert(d[i - start] == c);
        if !('0' <= c && c <= '9') {
            return None;
        }
        assert(d.take(i - start + 1).drop_last() =~= d.take(i - start));
        n = n * 10 + (c as u8 - 48) as u32;
        if n > 65535 {
            proof {
                lemma_digits_value_grows(d, i - start + 1);
            }
            return None;
        }
        i += 1;
    }
    assert(d.take(i - start) =~= d);
    Some(n as u16)
}

/// Writing a number in decimal and reading it back gives the number.
pub proof fn decimal_reads_back(n: nat, max: nat)
    requires
        n <= max,
    ensures
        unsigned_value(decimal(n), max) == Some(n),
{
    lemma_decimal(n);
    assert(unsigned_digits(decimal(n)) =~= decimal(n));
}

/// A number in decimal is a non-empty run of digits that denotes it.
pub proof fn lemma_decimal(n: nat)
    ensures
        decimal(n).len() > 0,
        all_digits(decimal(n)),
        digits_value(decimal(n)) == n,
        is_digit(decimal(n)[0]),
    decreases n,
{
    if n < 10 {
        assert(decimal(n).drop_last() =~= Seq::<char>::empty());
        assert(digits_value(Seq::<char>::empty()) == 0);
    } else {
        lemma_decimal(n / 10);
        assert(decimal(n).drop_last() =~= decimal(n / 10));
        assert(decimal(n)[0] == decimal(n / 10)[0]);
    }
}

/// Nothing is lost by trimming a text that has no white space at its ends.
pub proof fn lemma_trim_tight(s: Seq<char>)
    requires
        s.len() > 0 ==> !is_white(s[0]) && !is_white(s.last()),
    ensures
        trim(s) == s,
{
}

/// What is left after trimming has no white space at its ends.
pub proof fn lemma_trim_ends(s: Seq<char>)
    ensures
        trim(s).len() > 0 ==> !is_white(trim(s)[0]) && !is_white(trim(s).last()),
        trim(trim(s)) == trim(s),
        trim(s).len() <= s.len(),
{
    lemma_trim_start_tight(s);
    lemma_trim_end_tight(trim_start(s));
    lemma_trim_tight(trim(s));
}

/// What is left after trimming stands in the text as one piece.
pub proof fn lemma_trim_is_part(s: Seq<char>)
    ensures
        part_at(s, trim(s), s.len() - trim_start(s).len()),
{
    lemma_trim_start_is_tail(s);
    lemma_trim_end_is_head(trim_start(s));
    let from = s.len() - trim_start(s).len();
    assert(s.subrange(from, from + trim(s).len()) =~= trim(s));
}

proof fn lemma_trim_start_is_tail(s: Seq<char>)
    ensures
        trim_start(s).len() <= s.len(),
        trim_start(s) == s.skip(s.len() - trim_start(s).len()),
    decreases s.len(),
{
    if s.len() > 0 && is_white(s[0]) {
        lemma_trim_start_is_tail(s.skip(1));
        assert(trim_start(s) =~= s.skip(s.len() - trim_start(s).len()));
    } else {
        assert(s.skip(0) =~= s);
    }
}

proof fn lemma_trim_end_is_head(s: Seq<char>)
    ensures
        trim_end(s).len() <= s.len(),
        trim_end(s) == s.take(trim_end(s).len() as int),
    decreases s.len(),
{
    if s.len() > 0 && is_white(s.last()) {
        lemma_trim_end_is_head(s.drop_last());
        assert(trim_end(s) =~= s.take(trim_end(s).len() as int));
    } else {
        assert(s.take(s.len() as int) =~= s);
    }
}

proof fn lemma_trim_start_tight(s: Seq<char>)
    ensures
        trim_start(s).len() > 0 ==> !is_white(trim_start(s)[0]),
        trim_start(s).len() <= s.len(),
    decreases s.len(),
{
    if s.len() > 0 && is_white(s[0]) {
        lemma_trim_start_tight(s.skip(1));
    }
}

proof fn lemma_trim_end_tight(s: Seq<char>)
    ensures
        trim_end(s).len() > 0 ==> !is_white(trim_end(s).last()) && trim_end(s)[0] == s[0],
        trim_end(s).len() <= s.len(),
    decreases s.len(),
{
    if s.len() > 0 && is_white(s.last()) {
        lemma_trim_end_tight(s.drop_last());
    }
}

} // verus!
