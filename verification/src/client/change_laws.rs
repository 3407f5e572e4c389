//! What holds of a whole run of changes to the tunnels of a session.
use vstd::prelude::*;

use crate::client::changes::{
    after_close, after_refusal, after_refusals, has_failed, next_start, without, NextStep, RunView,
};
use crate::client::changes::{lemma_without, refused_tunnels_count_as_failed};
use crate::client::reload::OutcomeView;
use crate::order::{rising, text_before};
use crate::order::lemma_text_asym;

verus! {

/// The names of the tunnels that failed.
pub open spec fn failed_names(o: OutcomeView) -> Seq<Seq<char>> {
    Seq::new(o.failed.len(), |i: int| o.failed[i].0)
}

/// Every name that is told, as often as it is told.
pub open spec fn all_told(o: OutcomeView) -> Seq<Seq<char>> {
    o.added + o.updated + o.removed + failed_names(o)
}

/// The names of the tunnels that go, change or come.
pub open spec fn all_names(v: RunView) -> Seq<Seq<char>> {
    v.removed + v.updated + v.added
}

/// A run after these steps were done one by one and reported, each with an error or
/// with none.
pub open spec fn ran(v: RunView, results: Seq<Option<Seq<char>>>) -> RunView
    decreases results.len(),
{
    if results.len() == 0 {
        v
    } else {
        ran(v, results.drop_last()).stepped().reported(results.last())
    }
}

/// What is done in the step at a position.
pub open spec fn step_at(v: RunView, results: Seq<Option<Seq<char>>>, k: int) -> NextStep {
    ran(v, results.take(k)).next()
}

/// Whether every step that is reported closes a tunnel or asks for one.
pub open spec fn is_run(v: RunView, results: Seq<Option<Seq<char>>>) -> bool {
    forall|k: int| 0 <= k < results.len() ==> #[trigger] is_done(step_at(v, results, k))
}

/// Whether a step closes a tunnel or asks for one.
pub open spec fn is_done(step: NextStep) -> bool {
    step is Close || step is Start
}

/// Whether nothing is left to close or to ask for.
pub open spec fn is_over(v: RunView) -> bool {
    v.next() is Collect || v.next() is Finished
}

spec fn apart(a: Seq<Seq<char>>, b: Seq<Seq<char>>) -> bool {
    forall|n: Seq<char>| !(#[trigger] a.contains(n) && #[trigger] b.contains(n))
}

spec fn fails_apart(o: OutcomeView) -> bool {
    forall|n: Seq<char>| #[trigger]
        has_failed(o, n) ==> !o.added.contains(n) && !o.updated.contains(n)
            && !o.removed.contains(n)
}

/// Nothing is told twice.
spec fn tidy(o: OutcomeView) -> bool {
    &&& o.added.no_duplicates() && o.updated.no_duplicates() && o.removed.no_duplicates()
    &&& failed_names(o).no_duplicates()
    &&& fails_apart(o)
}

/// What is told so far fits how far the run is.
spec fn kept(v: RunView) -> bool {
    let o = v.outcome;
    &&& all_names(v).no_duplicates()
    &&& v.stops.no_duplicates()
    &&& forall|n: Seq<char>| #[trigger]
        v.stops.contains(n) <==> v.removed.contains(n) || v.updated.contains(n)
    &&& 0 <= v.stop_at <= v.stops.len()
    &&& 0 <= v.start_at <= v.names().len()
    &&& v.start_at > 0 ==> v.stop_at == v.stops.len()
    &&& tidy(o)
    &&& forall|n: Seq<char>| #[trigger]
        o.removed.contains(n) ==> v.removed.contains(n) && v.stops.take(v.stop_at).contains(n)
    &&& forall|n: Seq<char>| #[trigger]
        o.updated.contains(n) ==> v.updated.contains(n) && v.names().take(v.start_at).contains(n)
    &&& forall|n: Seq<char>| #[trigger]
        o.added.contains(n) ==> v.added.contains(n) && v.names().take(v.start_at).contains(n)
    &&& forall|n: Seq<char>| #[trigger]
        has_failed(o, n) ==> v.stops.take(v.stop_at).contains(n) || v.names().take(
            v.start_at,
        ).contains(n)
    &&& forall|k: int|
        0 <= k < v.stop_at && v.removed.contains(#[trigger] v.stops[k]) ==> o.removed.contains(
            v.stops[k],
        ) || has_failed(o, v.stops[k])
    &&& forall|i: int|
        0 <= i < v.start_at ==> has_failed(o, #[trigger] v.names()[i]) || o.updated.contains(
            v.names()[i],
        ) || o.added.contains(v.names()[i])
    &&& forall|n: Seq<char>| #[trigger] v.started.contains(n) ==> v.names().contains(n)
}

proof fn lemma_push(s: Seq<Seq<char>>, x: Seq<char>)
    ensures
        forall|n: Seq<char>| #[trigger] s.push(x).contains(n) <==> s.contains(n) || n == x,
        s.no_duplicates() && !s.contains(x) ==> s.push(x).no_duplicates(),
{
    let out = s.push(x);
    assert(out[s.len() as int] == x);
    assert forall|n: Seq<char>| #[trigger] out.contains(n) <==> s.contains(n) || n == x by {
        if s.contains(n) {
            assert(out[s.index_of(n)] == n);
        }
        if out.contains(n) && n != x {
            let k = out.index_of(n);
            assert(s[k] == n);
        }
    }
}

proof fn lemma_take(s: Seq<Seq<char>>, k: int)
    requires
        0 <= k < s.len(),
    ensures
        s.take(k + 1) == s.take(k).push(s[k]),
        forall|n: Seq<char>| #[trigger]
            s.take(k + 1).contains(n) <==> s.take(k).contains(n) || n == s[k],
        s.no_duplicates() ==> !s.take(k).contains(s[k]),
{
    assert(s.take(k + 1) =~= s.take(k).push(s[k]));
    lemma_push(s.take(k), s[k]);
    if s.take(k).contains(s[k]) {
        let j = s.take(k).index_of(s[k]);
        assert(s[j] == s[k]);
    }
}

proof fn lemma_fail(o: OutcomeView, x: Seq<char>, error: Seq<char>)
    ensures
        ({
            let out = OutcomeView { failed: o.failed.push((x, error)), ..o };
            &&& forall|n: Seq<char>| #[trigger] has_failed(out, n) <==> has_failed(o, n) || n == x
            &&& tidy(o) && !has_failed(o, x) && !o.added.contains(x) && !o.updated.contains(x)
                && !o.removed.contains(x) ==> tidy(out)
        }),
{
    let out = OutcomeView { failed: o.failed.push((x, error)), ..o };
    assert(out.failed[o.failed.len() as int].0 == x);
    assert forall|n: Seq<char>| #[trigger] has_failed(out, n) <==> has_failed(o, n) || n == x by {
        if has_failed(o, n) {
            let i = choose|i: int| 0 <= i < o.failed.len() && (#[trigger] o.failed[i]).0 == n;
            assert(out.failed[i].0 == n);
        }
        if has_failed(out, n) && n != x {
            let i = choose|i: int| 0 <= i < out.failed.len() && (#[trigger] out.failed[i]).0 == n;
            assert(o.failed[i].0 == n);
        }
    }
    assert(failed_names(out) =~= failed_names(o).push(x));
    lemma_push(failed_names(o), x);
    lemma_failed_names(o, x);
}

proof fn lemma_failed_names(o: OutcomeView, n: Seq<char>)
    ensures
        failed_names(o).contains(n) <==> has_failed(o, n),
{
    if failed_names(o).contains(n) {
        let i = failed_names(o).index_of(n);
        assert(o.failed[i].0 == n);
    }
    if has_failed(o, n) {
        let i = choose|i: int| 0 <= i < o.failed.len() && (#[trigger] o.failed[i]).0 == n;
        assert(failed_names(o)[i] == n);
    }
}

/// Lists that follow each other hold nothing twice, in one or in two of them.
proof fn lemma_two_lists(a: Seq<Seq<char>>, b: Seq<Seq<char>>)
    ensures
        (a + b).no_duplicates() <==> a.no_duplicates() && b.no_duplicates() && apart(a, b),
        forall|n: Seq<char>| #[trigger] (a + b).contains(n) <==> a.contains(n) || b.contains(n),
{
    let ab = a + b;
    assert forall|n: Seq<char>| #[trigger] ab.contains(n) <==> a.contains(n) || b.contains(n) by {
        if a.contains(n) {
            assert(ab[a.index_of(n)] == n);
        }
        if b.contains(n) {
            assert(ab[a.len() + b.index_of(n)] == n);
        }
        if ab.contains(n) {
            let k = ab.index_of(n);
            if k < a.len() {
                assert(a[k] == n);
            } else {
                assert(b[k - a.len()] == n);
            }
        }
    }
    if ab.no_duplicates() {
        assert forall|i: int, j: int| 0 <= i < a.len() && 0 <= j < a.len() && i != j implies a[i]
            != a[j] by {
            assert(ab[i] == a[i] && ab[j] == a[j]);
        }
        assert forall|i: int, j: int| 0 <= i < b.len() && 0 <= j < b.len() && i != j implies b[i]
            != b[j] by {
            assert(ab[a.len() + i] == b[i] && ab[a.len() + j] == b[j]);
        }
        assert forall|n: Seq<char>| !(#[trigger] a.contains(n) && #[trigger] b.contains(n)) by {
            if a.contains(n) && b.contains(n) {
                assert(ab[a.index_of(n)] == ab[a.len() + b.index_of(n)]);
            }
        }
    }
    if a.no_duplicates() && b.no_duplicates() && apart(a, b) {
        assert forall|i: int, j: int| 0 <= i < ab.len() && 0 <= j < ab.len() && i != j implies ab[i]
            != ab[j] by {
            if i < a.len() && j >= a.len() {
                assert(a.contains(a[i]) && b.contains(b[j - a.len()]));
            } else if j < a.len() && i >= a.len() {
                assert(a.contains(a[j]) && b.contains(b[i - a.len()]));
            }
        }
    }
}

/// The tunnels of a run are of one kind each.
proof fn lemma_kinds(v: RunView)
    requires
        all_names(v).no_duplicates(),
    ensures
        v.names().no_duplicates(),
        forall|n: Seq<char>| #[trigger]
            v.names().contains(n) <==> v.updated.contains(n) || v.added.contains(n),
        forall|n: Seq<char>| #[trigger]
            all_names(v).contains(n) <==> v.removed.contains(n) || v.updated.contains(n)
                || v.added.contains(n),
        apart(v.removed, v.updated),
        apart(v.removed, v.added),
        apart(v.updated, v.added),
{
    lemma_two_lists(v.removed, v.updated);
    lemma_two_lists(v.removed + v.updated, v.added);
    lemma_two_lists(v.updated, v.added);
    assert forall|n: Seq<char>| !(#[trigger] v.removed.contains(n) && #[trigger] v.added.contains(
        n,
    )) by {
        if v.removed.contains(n) && v.added.contains(n) {
            assert((v.removed + v.updated).contains(n));
        }
    }
    assert forall|n: Seq<char>| !(#[trigger] v.updated.contains(n) && #[trigger] v.added.contains(
        n,
    )) by {
        if v.updated.contains(n) && v.added.contains(n) {
            assert((v.removed + v.updated).contains(n));
        }
    }
}

proof fn lemma_rising(s: Seq<Seq<char>>)
    requires
        rising(s),
    ensures
        s.no_duplicates(),
{
    assert forall|i: int, j: int| 0 <= i < s.len() && 0 <= j < s.len() && i != j implies s[i]
        != s[j] by {
        if i < j {
            assert(text_before(s[i], s[j]));
        } else {
            assert(text_before(s[j], s[i]));
        }
        lemma_text_asym(s[i], s[j]);
        lemma_text_asym(s[i], s[i]);
    }
}

proof fn lemma_begin_kept(v: RunView)
    requires
        v.begins(),
        all_names(v).no_duplicates(),
    ensures
        kept(v),
{
    lemma_rising(v.stops);
    assert forall|n: Seq<char>| #[trigger] v.stops.contains(n) <==> v.removed.contains(n)
        || v.updated.contains(n) by {
        assert(v.stops.to_set().contains(n) == v.stops.contains(n));
        assert(v.removed.to_set().contains(n) == v.removed.contains(n));
        assert(v.updated.to_set().contains(n) == v.updated.contains(n));
    }
    assert(failed_names(v.outcome) =~= Seq::empty());
}

/// The next tunnel to ask for did not fail, and all that are passed over did.
proof fn lemma_next_start(o: OutcomeView, names: Seq<Seq<char>>, from: int)
    requires
        0 <= from <= names.len(),
    ensures
        ({
            let at = next_start(o, names, from);
            &&& from <= at <= names.len()
            &&& at < names.len() ==> !has_failed(o, names[at])
            &&& forall|i: int| from <= i < at ==> has_failed(o, #[trigger] names[i])
        }),
    decreases names.len() - from,
{
    if from < names.len() && has_failed(o, names[from]) {
        lemma_next_start(o, names, from + 1);
    }
}

proof fn lemma_stepped_kept(v: RunView)
    requires
        kept(v),
    ensures
        kept(v.stepped()),
{
    let s = v.stepped();
    lemma_next_start(v.outcome, v.names(), v.start_at);
    if v.stop_at == v.stops.len() {
        assert forall|n: Seq<char>| #[trigger] v.names().take(v.start_at).contains(n) implies
            v.names().take(s.start_at).contains(n) by {
            let j = v.names().take(v.start_at).index_of(n);
            assert(v.names().take(s.start_at)[j] == n);
        }
    }
}

proof fn lemma_close_kept(v: RunView, error: Option<Seq<char>>)
    requires
        kept(v),
        v.stop_at < v.stops.len(),
    ensures
        kept(v.reported(error)),
{
    let w = v.reported(error);
    let n = v.stops[v.stop_at];
    let o = v.outcome;
    lemma_take(v.stops, v.stop_at);
    assert(v.stops.contains(n));
    assert(v.names().take(0) =~= Seq::empty());
    assert(!has_failed(o, n));
    match error {
        Some(e) => {
            lemma_fail(o, n, e);
            assert(w.outcome == OutcomeView { failed: o.failed.push((n, e)), ..o });
        },
        None => {
            if v.removed.contains(n) {
                lemma_push(o.removed, n);
                assert(failed_names(w.outcome) =~= failed_names(o));
            }
            assert forall|x: Seq<char>| #[trigger] has_failed(w.outcome, x) == has_failed(o, x) by {
                assert(w.outcome.failed == o.failed);
                lemma_failed_names(o, x);
                lemma_failed_names(w.outcome, x);
                assert(failed_names(w.outcome) =~= failed_names(o));
            }
        },
    }
}

proof fn lemma_start_kept(v: RunView, error: Option<Seq<char>>)
    requires
        kept(v),
        v.stop_at == v.stops.len(),
        v.start_at < v.names().len(),
        !has_failed(v.outcome, v.names()[v.start_at]),
    ensures
        kept(v.reported(error)),
{
    let w = v.reported(error);
    let names = v.names();
    let n = names[v.start_at];
    let o = v.outcome;
    lemma_kinds(v);
    lemma_take(names, v.start_at);
    assert(names.contains(n));
    assert(!o.removed.contains(n));
    match error {
        Some(e) => {
            lemma_fail(o, n, e);
            assert(w.outcome == OutcomeView { failed: o.failed.push((n, e)), ..o });
        },
        None => {
            lemma_push(o.added, n);
            lemma_push(o.updated, n);
            lemma_push(v.started, n);
            assert(failed_names(w.outcome) =~= failed_names(o));
            assert forall|x: Seq<char>| #[trigger] has_failed(w.outcome, x) == has_failed(o, x) by {
                lemma_failed_names(o, x);
                lemma_failed_names(w.outcome, x);
            }
        },
    }
}

proof fn lemma_ran_kept(v: RunView, results: Seq<Option<Seq<char>>>)
    requires
        kept(v),
        is_run(v, results),
    ensures
        kept(ran(v, results)),
    decreases results.len(),
{
    if results.len() > 0 {
        let front = results.drop_last();
        lemma_front_is_run(v, results);
        lemma_ran_kept(v, front);
        let m = ran(v, front);
        assert(results.take(results.len() - 1) =~= front);
        assert(is_done(step_at(v, results, results.len() - 1)));
        lemma_stepped_kept(m);
        if m.stop_at < m.stops.len() {
            lemma_close_kept(m, results.last());
        } else {
            lemma_next_start(m.outcome, m.names(), m.start_at);
            lemma_start_kept(m.stepped(), results.last());
        }
    }
}

proof fn lemma_front_is_run(v: RunView, results: Seq<Option<Seq<char>>>)
    requires
        results.len() > 0,
        is_run(v, results),
    ensures
        is_run(v, results.drop_last()),
{
    let front = results.drop_last();
    assert forall|k: int| 0 <= k < front.len() implies #[trigger] is_done(step_at(v, front, k)) by {
        assert(front.take(k) =~= results.take(k));
        assert(is_done(step_at(v, results, k)));
    }
}

/// What was told to have failed stays so, and what was closed stays so.
proof fn lemma_ran_grows(v: RunView, results: Seq<Option<Seq<char>>>, j: int)
    requires
        0 <= j <= results.len(),
    ensures
        ({
            let m = ran(v, results.take(j));
            let w = ran(v, results);
            &&& w.removed == m.removed && w.updated == m.updated && w.added == m.added
            &&& w.stops == m.stops
            &&& m.stop_at <= w.stop_at
            &&& forall|n: Seq<char>| #[trigger]
                has_failed(m.outcome, n) ==> has_failed(w.outcome, n)
        }),
    decreases results.len(),
{
    if j == results.len() {
        assert(results.take(j) =~= results);
    } else {
        let front = results.drop_last();
        lemma_ran_grows(v, front, j);
        assert(front.take(j) =~= results.take(j));
        let m = ran(v, front).stepped();
        let w = ran(v, results);
        assert forall|n: Seq<char>| #[trigger] has_failed(m.outcome, n) implies has_failed(
            w.outcome,
            n,
        ) by {
            let i = choose|i: int|
                0 <= i < m.outcome.failed.len() && (#[trigger] m.outcome.failed[i]).0 == n;
            assert(w.outcome.failed[i].0 == n);
        }
        assert forall|n: Seq<char>| #[trigger]
            has_failed(ran(v, results.take(j)).outcome, n) implies has_failed(w.outcome, n) by {
            assert(has_failed(m.outcome, n));
        }
    }
}

proof fn lemma_without_dup(list: Seq<Seq<char>>, name: Seq<char>)
    requires
        list.no_duplicates(),
    ensures
        without(list, name).no_duplicates(),
    decreases list.len(),
{
    if list.len() > 0 {
        let front = list.drop_last();
        lemma_without_dup(front, name);
        lemma_without(front, name, list.last());
        lemma_push(without(front, name), list.last());
        if front.contains(list.last()) {
            assert(list[front.index_of(list.last())] == list[list.len() - 1]);
        }
    }
}

proof fn lemma_refusals_tidy(o: OutcomeView, errors: Seq<(Seq<char>, Seq<char>)>)
    requires
        tidy(o),
        forall|i: int| 0 <= i < errors.len() ==> !o.removed.contains(#[trigger] errors[i].0),
    ensures
        tidy(after_refusals(o, errors)),
    decreases errors.len(),
{
    if errors.len() > 0 {
        let front = errors.drop_last();
        assert forall|i: int| 0 <= i < front.len() implies !o.removed.contains(
            #[trigger] front[i].0,
        ) by {
            assert(errors[i].0 == front[i].0);
        }
        lemma_refusals_tidy(o, front);
        let mid = after_refusals(o, front);
        let (name, error) = errors.last();
        assert(!o.removed.contains(errors[errors.len() - 1].0));
        refused_tunnels_count_as_failed(o, front, name);
        let out = after_refusal(mid, name, error);
        let thin = OutcomeView {
            added: without(mid.added, name),
            updated: without(mid.updated, name),
            ..mid
        };
        lemma_without_dup(mid.added, name);
        lemma_without_dup(mid.updated, name);
        assert(failed_names(thin) =~= failed_names(mid));
        assert forall|n: Seq<char>| #[trigger] has_failed(thin, n) implies !thin.added.contains(n)
            && !thin.updated.contains(n) && !thin.removed.contains(n) by {
            lemma_failed_names(thin, n);
            lemma_failed_names(mid, n);
            lemma_without(mid.added, name, n);
            lemma_without(mid.updated, name, n);
        }
        assert(tidy(thin));
        lemma_without(mid.added, name, name);
        lemma_without(mid.updated, name, name);
        lemma_failed_names(thin, name);
        lemma_failed_names(mid, name);
        lemma_fail(thin, name, error);
        if has_failed(mid, name) {
            assert(out =~= thin);
        } else {
            assert(out =~= OutcomeView { failed: thin.failed.push((name, error)), ..thin });
        }
    }
}

/// Of a run of changes to tunnels with names of their own, from its beginning to its
/// end and with whatever the server then refuses of what it was asked for: each of
/// these names is told exactly once, as failed or among those of its kind, and no
/// other name is told.
pub proof fn every_tunnel_is_told_once(
    v: RunView,
    results: Seq<Option<Seq<char>>>,
    refused: Seq<(Seq<char>, Seq<char>)>,
)
    requires
        v.begins(),
        all_names(v).no_duplicates(),
        is_run(v, results),
        is_over(ran(v, results)),
        forall|i: int|
            0 <= i < refused.len() ==> ran(v, results).started.contains(#[trigger] refused[i].0),
    ensures
        ({
            let out = after_refusals(ran(v, results).outcome, refused);
            &&& all_told(out).no_duplicates()
            &&& forall|n: Seq<char>| #[trigger]
                all_told(out).contains(n) <==> all_names(v).contains(n)
            &&& forall|n: Seq<char>| #[trigger] out.removed.contains(n) ==> v.removed.contains(n)
            &&& forall|n: Seq<char>| #[trigger] out.updated.contains(n) ==> v.updated.contains(n)
            &&& forall|n: Seq<char>| #[trigger] out.added.contains(n) ==> v.added.contains(n)
        }),
{
    lemma_begin_kept(v);
    lemma_ran_kept(v, results);
    lemma_ran_grows(v, results, 0);
    assert(results.take(0) =~= Seq::empty());
    let w = ran(v, results);
    let o = w.outcome;
    let out = after_refusals(o, refused);
    lemma_kinds(v);
    lemma_next_start(o, w.names(), w.start_at);
    assert forall|i: int| 0 <= i < refused.len() implies !o.removed.contains(
        #[trigger] refused[i].0,
    ) by {
        assert(w.names().contains(refused[i].0));
    }
    lemma_refusals_tidy(o, refused);
    assert forall|n: Seq<char>| #[trigger] out.removed.contains(n) implies v.removed.contains(n) by {
        refused_tunnels_count_as_failed(o, refused, n);
        assert(o.removed.contains(n));
    }
    assert forall|n: Seq<char>| #[trigger] out.updated.contains(n) implies v.updated.contains(n) by {
        refused_tunnels_count_as_failed(o, refused, n);
        assert(o.updated.contains(n));
    }
    assert forall|n: Seq<char>| #[trigger] out.added.contains(n) implies v.added.contains(n) by {
        refused_tunnels_count_as_failed(o, refused, n);
        assert(o.added.contains(n));
    }
    lemma_two_lists(out.added, out.updated);
    lemma_two_lists(out.added + out.updated, out.removed);
    lemma_two_lists(out.added + out.updated + out.removed, failed_names(out));
    assert forall|n: Seq<char>| !(#[trigger] (out.added + out.updated + out.removed).contains(n)
        && #[trigger] failed_names(out).contains(n)) by {
        lemma_failed_names(out, n);
    }
    assert forall|n: Seq<char>| #[trigger]
        all_told(out).contains(n) <==> all_names(v).contains(n) by {
        refused_tunnels_count_as_failed(o, refused, n);
        lemma_failed_names(out, n);
        if has_failed(out, n) {
            if has_failed(o, n) {
                if w.stops.take(w.stop_at).contains(n) {
                    let k = w.stops.take(w.stop_at).index_of(n);
                    assert(w.stops[k] == n);
                    assert(w.stops.contains(n));
                } else {
                    let k = w.names().take(w.start_at).index_of(n);
                    assert(w.names()[k] == n);
                    assert(w.names().contains(n));
                }
            } else {
                let i = choose|i: int| 0 <= i < refused.len() && (#[trigger] refused[i]).0 == n;
                assert(w.started.contains(refused[i].0));
                assert(w.names().contains(n));
            }
        }
        if v.removed.contains(n) {
            assert(w.stops.contains(n));
            let k = w.stops.index_of(n);
            assert(w.removed.contains(w.stops[k]));
            assert(o.removed.contains(n) || has_failed(o, n));
        } else if all_names(v).contains(n) {
            assert(w.names().contains(n));
            let i = w.names().index_of(n);
            assert(w.names()[i] == n);
            assert(has_failed(o, n) || o.updated.contains(n) || o.added.contains(n));
        }
    }
}

/// In a run of changes every tunnel is closed that is closed before any is asked for,
/// and one that could not be closed is not asked for.
pub proof fn tunnels_are_closed_first(
    v: RunView,
    results: Seq<Option<Seq<char>>>,
    j: int,
    k: int,
)
    requires
        v.begins(),
        0 <= j < k < results.len(),
        is_run(v, results),
    ensures
        step_at(v, results, k) is Close ==> step_at(v, results, j) is Close,
        step_at(v, results, j) matches NextStep::Close(n) ==> results[j] is Some ==> (step_at(
            v,
            results,
            k,
        ) matches NextStep::Start(i) ==> v.names()[i] != n),
{
    let m = ran(v, results.take(j));
    let w = ran(v, results.take(k));
    assert(results.take(k).take(j) =~= results.take(j));
    assert(results.take(k).take(j + 1) =~= results.take(j + 1));
    lemma_ran_grows(v, results.take(k), j);
    lemma_ran_grows(v, results.take(k), j + 1);
    lemma_ran_grows(v, results.take(k), 0);
    assert(results.take(k).take(0) =~= Seq::empty());
    assert(results.take(j + 1).drop_last() =~= results.take(j));
    assert(results.take(j + 1).last() == results[j]);
    assert(is_done(step_at(v, results, j)));
    if m.stop_at < m.stops.len() && results[j] is Some {
        let after = ran(v, results.take(j + 1));
        let n = m.stops[m.stop_at];
        assert(after.outcome == after_close(m.outcome, n, results[j], m.removed));
        assert(after.outcome.failed[m.outcome.failed.len() as int].0 == n);
        assert(has_failed(after.outcome, n));
        lemma_start_in_range(v, results.take(k));
        lemma_next_start(w.outcome, w.names(), w.start_at);
    }
}

proof fn lemma_start_in_range(v: RunView, results: Seq<Option<Seq<char>>>)
    requires
        v.begins(),
    ensures
        0 <= ran(v, results).start_at <= ran(v, results).names().len(),
    decreases results.len(),
{
    if results.len() > 0 {
        let m = ran(v, results.drop_last());
        lemma_start_in_range(v, results.drop_last());
        lemma_next_start(m.outcome, m.names(), m.start_at);
    }
}

} // verus!
