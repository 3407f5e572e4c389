//! Texts in order, and lists brought into order.
use vstd::prelude::*;
use vstd::string::*;

use crate::text::texts;
use crate::text::to_chars;

verus! {

/// Whether a text comes before another: by the first character in which they differ,
/// and a text before its continuations.
pub open spec fn text_before(a: Seq<char>, b: Seq<char>) -> bool
    decreases a.len(),
{
    if b.len() == 0 {
        false
    } else if a.len() == 0 {
        true
    } else if a[0] != b[0] {
        a[0] < b[0]
    } else {
        text_before(a.skip(1), b.skip(1))
    }
}

/// Of two texts at most one comes before the other.
pub proof fn lemma_text_asym(a: Seq<char>, b: Seq<char>)
    ensures
        !(text_before(a, b) && text_before(b, a)),
    decreases a.len(),
{
    if a.len() > 0 && b.len() > 0 && a[0] == b[0] {
        lemma_text_asym(a.skip(1), b.skip(1));
    }
}

/// Of two different texts one comes before the other.
pub proof fn lemma_text_total(a: Seq<char>, b: Seq<char>)
    ensures
        a == b || text_before(a, b) || text_before(b, a),
    decreases a.len(),
{
    if a.len() > 0 && b.len() > 0 && a[0] == b[0] {
        lemma_text_total(a.skip(1), b.skip(1));
        if a.skip(1) == b.skip(1) {
            assert(a =~= seq![a[0]] + a.skip(1));
            assert(b =~= seq![b[0]] + b.skip(1));
        }
    } else if a.len() == 0 && b.len() == 0 {
        assert(a =~= b);
    }
}

/// A text between two that are in order is behind the first or before the second.
pub proof fn lemma_text_between(a: Seq<char>, b: Seq<char>, c: Seq<char>)
    requires
        text_before(a, c),
    ensures
        text_before(a, b) || text_before(b, c),
    decreases a.len(),
{
    if a.len() > 0 && b.len() > 0 && c.len() > 0 && a[0] == c[0] && b[0] == a[0] {
        lemma_text_between(a.skip(1), b.skip(1), c.skip(1));
    }
}

/// Whether a text comes before another.
pub fn comes_before(a: &str, b: &str) -> (r: bool)
    ensures
        r == text_before(a@, b@),
{
    let x = to_chars(a);
    let y = to_chars(b);
    let mut i: usize = 0;
    assert(x@.skip(0) =~= x@);
    assert(y@.skip(0) =~= y@);
    while i < x.len() && i < y.len()
        invariant
            i <= x@.len(),
            i <= y@.len(),
            x@ == a@,
            y@ == b@,
            text_before(a@, b@) == text_before(x@.skip(i as int), y@.skip(i as int)),
        decreases x@.len() - i,
    {
        assert(x@.skip(i as int).skip(1) =~= x@.skip(i + 1));
        assert(y@.skip(i as int).skip(1) =~= y@.skip(i + 1));
        if x[i] != y[i] {
            return x[i] < y[i];
        }
        i += 1;
    }
    i < y.len()
}

/// Values of which some come before others; where neither of two does, they are on
/// a par.
pub trait Ordered: Sized {
    spec fn before(self, other: Self) -> bool;

    /// Of two values at most one comes before the other.
    proof fn lemma_asym(a: Self, b: Self)
        ensures
            !(a.before(b) && b.before(a)),
    ;

    /// A value between two that are in order is behind the first or before the
    /// second.
    proof fn lemma_between(a: Self, b: Self, c: Self)
        requires
            a.before(c),
        ensures
            a.before(b) || b.before(c),
    ;

    fn is_before(&self, other: &Self) -> (r: bool)
        ensures
            r == self.before(*other),
    ;
}

/// How a list was brought into order: position `i` of `to` holds what stood at
/// position `from[i]`. Nothing comes before what stands ahead of it, and values on a
/// par keep the order that they had.
pub open spec fn ordered_by<T: Ordered>(from: Seq<int>, list: Seq<T>, to: Seq<T>) -> bool {
    &&& from.len() == list.len()
    &&& to.len() == list.len()
    &&& forall|i: int|
        #![trigger from[i]]
        0 <= i < from.len() ==> 0 <= from[i] < list.len() && to[i] == list[from[i]]
    &&& forall|i: int, j: int|
        0 <= i < j < from.len() ==> #[trigger] from[i] != #[trigger] from[j]
    &&& forall|i: int, j: int|
        0 <= i < j < to.len() ==> in_turn(to, from, i, j)
}

/// Whether what stands at `i` may stand ahead of what stands at `j`.
pub open spec fn in_turn<T: Ordered>(to: Seq<T>, from: Seq<int>, i: int, j: int) -> bool {
    to[i].before(to[j]) || (!to[j].before(to[i]) && from[i] < from[j])
}

/// Whether `to` is `list` brought into order.
pub open spec fn is_ordered<T: Ordered>(list: Seq<T>, to: Seq<T>) -> bool {
    exists|from: Seq<int>| ordered_by(from, list, to)
}

/// Brings a list into order.
pub fn put_in_order<T: Ordered>(list: Vec<T>) -> (r: Vec<T>)
    ensures
        is_ordered(list@, r@),
        r@.len() == list@.len(),
{
    let ghost whole = list@;
    let mut rest = list;
    let mut out: Vec<T> = Vec::new();
    let ghost mut from: Seq<int> = seq![];
    while rest.len() > 0
        invariant
            rest@.len() <= whole.len(),
            rest@ == whole.take(rest@.len() as int),
            from.len() == whole.len() - rest@.len(),
            out@.len() == from.len(),
            forall|i: int|
                #![trigger from[i]]
                0 <= i < from.len() ==> rest@.len() <= from[i] < whole.len() && out@[i]
                    == whole[from[i]],
            forall|i: int, j: int|
                0 <= i < j < from.len() ==> #[trigger] from[i] != #[trigger] from[j],
            forall|i: int, j: int| 0 <= i < j < out@.len() ==> in_turn(out@, from, i, j),
        decreases rest@.len(),
    {
        let ghost before = out@;
        let ghost k = rest@.len() - 1;
        let item = match rest.pop() {
            Some(item) => item,
            None => {
                return out;
            },
        };
        assert(item == whole[k]);
        assert(rest@ =~= whole.take(k));
        let n: usize = out.len();
        let mut at: usize = 0;
        while at < n && out[at].is_before(&item)
            invariant
                at <= n,
                n == out@.len(),
                out@ == before,
                forall|j: int| 0 <= j < at ==> (#[trigger] out@[j]).before(item),
            decreases n - at,
        {
            at += 1;
        }
        let ghost x = item;
        out.insert(at, item);
        proof {
            let p = from;
            let q = from.insert(at as int, k);
            from = q;
            assert forall|i: int, j: int| 0 <= i < j < out@.len() implies in_turn(
                out@,
                from,
                i,
                j,
            ) by {
                let i2 = if i < at { i } else { i - 1 };
                let j2 = if j < at { j } else { j - 1 };
                if i != at && j != at {
                    assert(in_turn(before, p, i2, j2));
                } else if j == at {
                    assert(before[i].before(x));
                } else {
                    let c = before[j2];
                    assert(p[j2] > k);
                    if c.before(x) {
                        let b = before[at as int];
                        T::lemma_between(c, b, x);
                        if j2 != at {
                            assert(in_turn(before, p, at as int, j2));
                            T::lemma_asym(b, c);
                        } else {
                            assert(!before[at as int].before(x));
                        }
                    }
                }
            }
            assert forall|i: int, j: int| 0 <= i < j < from.len() implies #[trigger] from[i]
                != #[trigger] from[j] by {
                let i2 = if i < at { i } else { i - 1 };
                let j2 = if j < at { j } else { j - 1 };
                if i == at {
                    assert(p[j2] > k);
                } else if j == at {
                    assert(p[i2] > k);
                } else {
                    assert(p[i2] != p[j2]);
                }
            }
            assert forall|i: int|
                #![trigger from[i]]
                0 <= i < from.len() implies rest@.len() <= from[i] < whole.len() && out@[i]
                == whole[from[i]] by {
                let i2 = if i < at { i } else { i - 1 };
                if i != at {
                    assert(p[i2] == from[i]);
                    assert(out@[i] == before[i2]);
                }
            }
        }
    }
    proof {
        assert(ordered_by(from, whole, out@));
    }
    out
}

/// A list that was brought into order holds exactly what it held before.
pub proof fn order_keeps_items<T: Ordered>(list: Seq<T>, to: Seq<T>)
    requires
        is_ordered(list, to),
    ensures
        to.to_multiset() == list.to_multiset(),
{
    let from = choose|from: Seq<int>| ordered_by(from, list, to);
    lemma_rearranged(from, list, to);
}

/// A list that was brought into order has nothing before what stands ahead of it.
pub proof fn order_is_kept<T: Ordered>(list: Seq<T>, to: Seq<T>, i: int, j: int)
    requires
        is_ordered(list, to),
        0 <= i < j < to.len(),
    ensures
        !to[j].before(to[i]),
{
    let from = choose|from: Seq<int>| ordered_by(from, list, to);
    assert(in_turn(to, from, i, j));
    T::lemma_asym(to[i], to[j]);
}

proof fn lemma_rearranged<T>(from: Seq<int>, list: Seq<T>, to: Seq<T>)
    requires
        from.len() == list.len(),
        to.len() == list.len(),
        forall|i: int|
            #![trigger from[i]]
            0 <= i < from.len() ==> 0 <= from[i] < list.len() && to[i] == list[from[i]],
        forall|i: int, j: int|
            0 <= i < j < from.len() ==> #[trigger] from[i] != #[trigger] from[j],
    ensures
        to.to_multiset() == list.to_multiset(),
    decreases list.len(),
{
    broadcast use vstd::seq_lib::group_to_multiset_ensures;

    let n = list.len() as int;
    if n == 0 {
        assert(to =~= list);
    } else {
        let at = from[n - 1];
        let short = list.remove(at);
        let short_to = to.drop_last();
        let short_from = Seq::new(
            (n - 1) as nat,
            |i: int|
                if from[i] > at {
                    from[i] - 1
                } else {
                    from[i]
                },
        );
        assert forall|i: int|
            #![trigger short_from[i]]
            0 <= i < short_from.len() implies 0 <= short_from[i] < short.len() && short_to[i]
            == short[short_from[i]] by {
            assert(from[i] != from[n - 1]);
        }
        assert forall|i: int, j: int| 0 <= i < j < short_from.len() implies
            #[trigger] short_from[i] != #[trigger] short_from[j] by {
            assert(from[i] != from[j]);
            assert(from[i] != from[n - 1]);
            assert(from[j] != from[n - 1]);
        }
        lemma_rearranged(short_from, short, short_to);
        assert(short.insert(at, list[at]) =~= list);
        assert(short_to.push(to[n - 1]) =~= to);
        assert(list.to_multiset() =~= short.to_multiset().insert(list[at])) by {
            lemma_multiset_insert(short, at, list[at]);
        }
        assert(to.to_multiset() =~= short_to.to_multiset().insert(to[n - 1]));
    }
}

proof fn lemma_multiset_insert<T>(s: Seq<T>, at: int, x: T)
    requires
        0 <= at <= s.len(),
    ensures
        s.insert(at, x).to_multiset() == s.to_multiset().insert(x),
{
    broadcast use vstd::seq_lib::group_to_multiset_ensures;

    let whole = s.insert(at, x);
    let a = s.take(at);
    let b = s.skip(at);
    assert(whole =~= a.push(x) + b);
    assert(s =~= a + b);
    vstd::seq_lib::lemma_multiset_commutative(a.push(x), b);
    vstd::seq_lib::lemma_multiset_commutative(a, b);
    assert(whole.to_multiset() =~= s.to_multiset().insert(x));
}

/// Texts of which each comes before the next.
pub open spec fn rising(list: Seq<Seq<char>>) -> bool {
    forall|i: int, j: int|
        0 <= i < j < list.len() ==> text_before(#[trigger] list[i], #[trigger] list[j])
}

/// Adds a text to rising ones, unless it is there already.
pub fn add_in_order(list: &mut Vec<String>, s: &String)
    requires
        rising(texts(old(list)@)),
    ensures
        rising(texts(final(list)@)),
        texts(final(list)@).to_set() == texts(old(list)@).to_set().insert(s@),
{
    let ghost before = texts(list@);
    let n: usize = list.len();
    let mut at: usize = 0;
    while at < n && comes_before(list[at].as_str(), s.as_str())
        invariant
            at <= n,
            n == list@.len(),
            texts(list@) == before,
            forall|j: int| 0 <= j < at ==> text_before(#[trigger] before[j], s@),
        decreases n - at,
    {
        at += 1;
    }
    if at < n && !comes_before(s.as_str(), list[at].as_str()) {
        proof {
            lemma_text_total(before[at as int], s@);
            assert(before[at as int] == s@);
            assert(before.to_set().insert(s@) =~= before.to_set());
        }
        return;
    }
    list.insert(at, s.clone());
    proof {
        let after = texts(list@);
        assert(after =~= before.insert(at as int, s@));
        assert forall|i: int, j: int| 0 <= i < j < after.len() implies text_before(
            #[trigger] after[i],
            #[trigger] after[j],
        ) by {
            let i2 = if i < at { i } else { i - 1 };
            let j2 = if j < at { j } else { j - 1 };
            if i != at && j != at {
                assert(text_before(before[i2], before[j2]));
            } else if i == at {
                assert(text_before(s@, before[at as int]));
                if j2 != at {
                    assert(text_before(before[at as int], before[j2]));
                    lemma_text_between(before[at as int], s@, before[j2]);
                    lemma_text_asym(s@, before[at as int]);
                }
            }
        }
        assert(after.to_set() =~= before.to_set().insert(s@)) by {
            assert forall|x: Seq<char>| #[trigger]
                after.to_set().contains(x) == before.to_set().insert(s@).contains(x) by {
                if after.contains(x) {
                    let i = after.index_of(x);
                    if i != at {
                        let i2 = if i < at { i } else { i - 1 };
                        assert(before[i2] == x);
                    }
                }
                if before.contains(x) {
                    let i = before.index_of(x);
                    let i2 = if i < at { i } else { i + 1 };
                    assert(after[i2] == x);
                }
                assert(after[at as int] == s@);
            }
        }
    }
}

/// Rising texts with the same members are the same list.
pub proof fn rising_is_determined(a: Seq<Seq<char>>, b: Seq<Seq<char>>)
    requires
        rising(a),
        rising(b),
        a.to_set() == b.to_set(),
    ensures
        a == b,
    decreases a.len(),
{
    if a.len() == 0 {
        if b.len() > 0 {
            assert(b.to_set().contains(b[0]));
            assert(a.to_set().contains(b[0]));
        }
        assert(a =~= b);
    } else {
        assert(a.to_set().contains(a[0]));
        assert(b.to_set().contains(a[0]));
        let i = b.index_of(a[0]);
        assert(b.to_set().contains(b[0]));
        assert(a.to_set().contains(b[0]));
        let j = a.index_of(b[0]);
        lemma_text_asym(a[0], b[0]);
        if i > 0 && j > 0 {
            assert(text_before(b[0], b[i]));
            assert(text_before(a[0], a[j]));
        }
        assert(a[0] == b[0]);
        let a2 = a.skip(1);
        let b2 = b.skip(1);
        assert(a2.to_set() =~= b2.to_set()) by {
            assert forall|x: Seq<char>| a2.contains(x) implies b2.contains(x) by {
                lemma_rising_tail(a, b, x);
            }
            assert forall|x: Seq<char>| b2.contains(x) implies a2.contains(x) by {
                lemma_rising_tail(b, a, x);
            }
        }
        rising_is_determined(a2, b2);
        assert(a =~= seq![a[0]] + a2);
        assert(b =~= seq![b[0]] + b2);
    }
}

proof fn lemma_rising_tail(a: Seq<Seq<char>>, b: Seq<Seq<char>>, x: Seq<char>)
    requires
        rising(a),
        a.to_set() == b.to_set(),
        a.len() > 0,
        b.len() > 0,
        a[0] == b[0],
        a.skip(1).contains(x),
    ensures
        b.skip(1).contains(x),
{
    let k = a.skip(1).index_of(x);
    assert(a[k + 1] == x);
    assert(text_before(a[0], a[k + 1]));
    lemma_text_asym(x, x);
    assert(a.to_set().contains(x));
    assert(b.to_set().contains(x));
    let m = b.index_of(x);
    assert(b.skip(1)[m - 1] == x);
}

} // verus!
