//! Changing the tunnels of a running session and keeping book of what came of it.
use vstd::prelude::*;
use vstd::string::*;

use crate::client::reload::{
    text_pairs, OutcomeView, ReloadLevel, ReloadOutcome, TunnelChanges,
};
use crate::client::handle::named_texts;
use crate::config::client::TunnelConfig;
use crate::names::NameMap;
use crate::order::rising;
use crate::order::add_in_order;
use crate::text::{same, texts};

verus! {

/// What is said of a tunnel whose start the server did not answer.
pub const START_TIMED_OUT: &'static str = "tunnel start timed out";

/// The tunnels whose start the server has not answered, and what went wrong with
/// others.
pub struct RegisterWatch {
    pending: NameMap<()>,
    errors: NameMap<String>,
}

impl RegisterWatch {
    pub closed spec fn wf(&self) -> bool {
        self.pending.wf() && self.errors.wf()
    }

    /// The tunnels that wait for an answer.
    pub closed spec fn pending(&self) -> Set<Seq<char>> {
        self.pending@.dom()
    }

    /// The error by which a tunnel was refused.
    pub closed spec fn errors(&self) -> Map<Seq<char>, Seq<char>> {
        named_texts(self.errors@)
    }

    pub fn new() -> (r: RegisterWatch)
        ensures
            r.wf(),
            r.pending() == Set::<Seq<char>>::empty(),
            r.errors() == Map::<Seq<char>, Seq<char>>::empty(),
    {
        let r = RegisterWatch { pending: NameMap::new(), errors: NameMap::new() };
        assert(r.pending() =~= Set::empty());
        assert(r.errors() =~= Map::empty());
        r
    }

    /// A tunnel is asked for: what went wrong before no longer counts.
    pub fn begin(&mut self, name: &str)
        requires
            old(self).wf(),
        ensures
            final(self).wf(),
            final(self).pending() == old(self).pending().insert(name@),
            final(self).errors() == old(self).errors().remove(name@),
    {
        let ghost before = *self;
        self.errors.remove(name);
        self.pending.insert(name.to_owned(), ());
        assert(self.pending() =~= before.pending().insert(name@));
        assert(self.errors() =~= before.errors().remove(name@));
    }

    /// The server has answered, with an error where it refused.
    pub fn finish(&mut self, name: &str, error: Option<String>)
        requires
            old(self).wf(),
        ensures
            final(self).wf(),
            final(self).pending() == old(self).pending().remove(name@),
            final(self).errors() == (match error {
                Some(e) => old(self).errors().insert(name@, e@),
                None => old(self).errors(),
            }),
    {
        let ghost before = *self;
        self.pending.remove(name);
        match error {
            Some(e) => {
                let ghost t = e@;
                self.errors.insert(name.to_owned(), e);
                assert(self.errors() =~= before.errors().insert(name@, t));
            },
            None => {},
        }
        assert(self.pending() =~= before.pending().remove(name@));
    }

    fn any_pending(&self, names: &Vec<String>) -> (r: bool)
        requires
            self.wf(),
        ensures
            r == some_pending(self.pending(), texts(names@)),
    {
        let mut i: usize = 0;
        while i < names.len()
            invariant
                self.wf(),
                i <= names@.len(),
                forall|j: int| 0 <= j < i ==> !self.pending().contains(#[trigger] texts(names@)[j]),
            decreases names@.len() - i,
        {
            if self.pending.contains(names[i].as_str()) {
                assert(self.pending().contains(texts(names@)[i as int]));
                return true;
            }
            i += 1;
        }
        false
    }

    /// What went wrong with the start of some tunnels, once that is known: when all
    /// are answered, or when the time for it has passed; those that still wait then
    /// count as failed.
    pub fn collect_register_errors(&self, names: &Vec<String>, expired: bool) -> (r: Option<
        Vec<(String, String)>,
    >)
        requires
            self.wf(),
        ensures
            match r {
                None => !expired && some_pending(self.pending(), texts(names@)),
                Some(v) => {
                    &&& expired || !some_pending(self.pending(), texts(names@))
                    &&& text_pairs(v@) == start_errors(
                        self.pending(),
                        self.errors(),
                        texts(names@),
                    )
                },
            },
    {
        if !expired && self.any_pending(names) {
            return None;
        }
        let mut out: Vec<(String, String)> = Vec::new();
        let mut i: usize = 0;
        let ghost all = texts(names@);
        assert(all.take(0) =~= seq![]);
        assert(text_pairs(out@) =~= seq![]);
        while i < names.len()
            invariant
                self.wf(),
                all == texts(names@),
                i <= names@.len(),
                text_pairs(out@) == start_errors(
                    self.pending(),
                    self.errors(),
                    all.take(i as int),
                ),
            decreases names@.len() - i,
        {
            let ghost before = text_pairs(out@);
            let name = &names[i];
            assert(all.take(i + 1).drop_last() =~= all.take(i as int));
            if self.pending.contains(name.as_str()) {
                out.push((name.clone(), START_TIMED_OUT.to_owned()));
                assert(text_pairs(out@) =~= before.push((all[i as int], START_TIMED_OUT@)));
            } else {
                match self.errors.get(name.as_str()) {
                    Some(e) => {
                        out.push((name.clone(), e.clone()));
                        assert(text_pairs(out@) =~= before.push((all[i as int], e@)));
                    },
                    None => {},
                }
            }
            i += 1;
        }
        assert(all.take(i as int) =~= all);
        Some(out)
    }
}

/// Whether one of the names waits for an answer.
pub open spec fn some_pending(pending: Set<Seq<char>>, names: Seq<Seq<char>>) -> bool {
    exists|i: int| 0 <= i < names.len() && pending.contains(#[trigger] names[i])
}

/// The names whose start failed, in their order, each with the reason.
pub open spec fn start_errors(
    pending: Set<Seq<char>>,
    errors: Map<Seq<char>, Seq<char>>,
    names: Seq<Seq<char>>,
) -> Seq<(Seq<char>, Seq<char>)>
    decreases names.len(),
{
    if names.len() == 0 {
        seq![]
    } else {
        let before = start_errors(pending, errors, names.drop_last());
        let name = names.last();
        if pending.contains(name) {
            before.push((name, START_TIMED_OUT@))
        } else if errors.dom().contains(name) {
            before.push((name, errors[name]))
        } else {
            before
        }
    }
}

/// The names of tunnels.
pub open spec fn tunnel_names(v: Seq<TunnelConfig>) -> Seq<Seq<char>> {
    Seq::new(v.len(), |i: int| v[i].name@)
}

/// The tunnels that must be closed before others are started, in order: those that
/// go and those that change.
pub fn stop_names(changes: &TunnelChanges) -> (r: Vec<String>)
    ensures
        rising(texts(r@)),
        texts(r@).to_set() == texts(changes.removed@).to_set().union(
            tunnel_names(changes.updated@).to_set(),
        ),
{
    let mut out: Vec<String> = Vec::new();
    let ghost removed = texts(changes.removed@);
    let ghost updated = tunnel_names(changes.updated@);
    let mut i: usize = 0;
    assert(texts(out@).to_set() =~= removed.take(0).to_set());
    while i < changes.removed.len()
        invariant
            i <= changes.removed@.len(),
            removed == texts(changes.removed@),
            rising(texts(out@)),
            texts(out@).to_set() == removed.take(i as int).to_set(),
        decreases changes.removed@.len() - i,
    {
        add_in_order(&mut out, &changes.removed[i]);
        proof {
            lemma_set_grows(removed, i as int);
        }
        i += 1;
    }
    assert(removed.take(i as int) =~= removed);
    let mut j: usize = 0;
    assert(updated.take(0).to_set() =~= Set::empty());
    assert(texts(out@).to_set() =~= removed.to_set().union(updated.take(0).to_set()));
    while j < changes.updated.len()
        invariant
            j <= changes.updated@.len(),
            updated == tunnel_names(changes.updated@),
            rising(texts(out@)),
            texts(out@).to_set() == removed.to_set().union(updated.take(j as int).to_set()),
        decreases changes.updated@.len() - j,
    {
        let ghost before = texts(out@).to_set();
        add_in_order(&mut out, &changes.updated[j].name);
        proof {
            lemma_set_grows(updated, j as int);
            assert(texts(out@).to_set() =~= removed.to_set().union(
                updated.take(j + 1).to_set(),
            ));
        }
        j += 1;
    }
    assert(updated.take(j as int) =~= updated);
    out
}

proof fn lemma_set_grows(s: Seq<Seq<char>>, i: int)
    requires
        0 <= i < s.len(),
    ensures
        s.take(i + 1).to_set() == s.take(i).to_set().insert(s[i]),
{
    let a = s.take(i);
    let b = s.take(i + 1);
    assert(b =~= a.push(s[i]));
    assert forall|x: Seq<char>| #[trigger] b.to_set().contains(x) == a.to_set().insert(
        s[i],
    ).contains(x) by {
        if a.contains(x) {
            let k = a.index_of(x);
            assert(b[k] == x);
        }
        if b.contains(x) {
            let k = b.index_of(x);
            if k < i {
                assert(a[k] == x);
            }
        }
        assert(b[i] == s[i]);
    }
    assert(b.to_set() =~= a.to_set().insert(s[i]));
}

/// Whether a tunnel is among those that failed.
pub open spec fn has_failed(o: OutcomeView, name: Seq<char>) -> bool {
    exists|i: int| 0 <= i < o.failed.len() && (#[trigger] o.failed[i]).0 == name
}

/// The outcome after a tunnel was closed, or could not be.
pub open spec fn after_close(
    o: OutcomeView,
    name: Seq<char>,
    error: Option<Seq<char>>,
    removed: Seq<Seq<char>>,
) -> OutcomeView {
    match error {
        Some(e) => OutcomeView { failed: o.failed.push((name, e)), ..o },
        None => if removed.contains(name) {
            OutcomeView { removed: o.removed.push(name), ..o }
        } else {
            o
        },
    }
}

/// The outcome after a tunnel was asked for, or could not be.
pub open spec fn after_register(
    o: OutcomeView,
    name: Seq<char>,
    error: Option<Seq<char>>,
    is_added: bool,
) -> OutcomeView {
    match error {
        Some(e) => OutcomeView { failed: o.failed.push((name, e)), ..o },
        None => if is_added {
            OutcomeView { added: o.added.push(name), ..o }
        } else {
            OutcomeView { updated: o.updated.push(name), ..o }
        },
    }
}

/// A list of names without one of them.
pub open spec fn without(list: Seq<Seq<char>>, name: Seq<char>) -> Seq<Seq<char>>
    decreases list.len(),
{
    if list.len() == 0 {
        seq![]
    } else if list.last() == name {
        without(list.drop_last(), name)
    } else {
        without(list.drop_last(), name).push(list.last())
    }
}

/// The outcome after the server refused a tunnel that was asked for: it did not
/// come about, and the first reason that was found stands.
pub open spec fn after_refusal(o: OutcomeView, name: Seq<char>, error: Seq<char>) -> OutcomeView {
    OutcomeView {
        added: without(o.added, name),
        updated: without(o.updated, name),
        failed: if has_failed(o, name) {
            o.failed
        } else {
            o.failed.push((name, error))
        },
        ..o
    }
}

/// The outcome after the server refused some tunnels, one by one.
pub open spec fn after_refusals(
    o: OutcomeView,
    errors: Seq<(Seq<char>, Seq<char>)>,
) -> OutcomeView
    decreases errors.len(),
{
    if errors.len() == 0 {
        o
    } else {
        let (name, error) = errors.last();
        after_refusal(after_refusals(o, errors.drop_last()), name, error)
    }
}

fn remove_all(list: &mut Vec<String>, name: &str)
    ensures
        texts(final(list)@) == without(texts(old(list)@), name@),
{
    let ghost whole = texts(list@);
    let mut rest: Vec<String> = Vec::new();
    std::mem::swap(&mut rest, list);
    let mut i: usize = 0;
    assert(whole.take(0) =~= seq![]);
    assert(texts(list@) =~= seq![]);
    while i < rest.len()
        invariant
            i <= rest@.len(),
            whole == texts(rest@),
            texts(list@) == without(whole.take(i as int), name@),
        decreases rest@.len() - i,
    {
        let ghost before = texts(list@);
        assert(whole.take(i + 1).drop_last() =~= whole.take(i as int));
        if !same(rest[i].as_str(), name) {
            list.push(rest[i].clone());
            assert(texts(list@) =~= before.push(whole[i as int]));
        }
        i += 1;
    }
    assert(whole.take(i as int) =~= whole);
}

/// The book that is kept while the tunnels of a session are changed.
pub struct ChangeBook {
    outcome: ReloadOutcome,
    started: Vec<String>,
}

pub open spec fn error_of(r: Result<(), String>) -> Option<Seq<char>> {
    match r {
        Ok(_) => None,
        Err(e) => Some(e@),
    }
}

impl ChangeBook {
    /// What has come of the changes so far.
    pub closed spec fn outcome(&self) -> OutcomeView {
        self.outcome@
    }

    /// The tunnels that were asked for, in turn.
    pub closed spec fn started(&self) -> Seq<Seq<char>> {
        texts(self.started@)
    }

    pub fn new() -> (r: ChangeBook)
        ensures
            r.outcome() == (OutcomeView {
                level: ReloadLevel::TunnelsOnly,
                added: seq![],
                removed: seq![],
                updated: seq![],
                failed: seq![],
            }),
            r.started() == Seq::<Seq<char>>::empty(),
    {
        let r = ChangeBook {
            outcome: ReloadOutcome {
                level: ReloadLevel::TunnelsOnly,
                added: Vec::new(),
                removed: Vec::new(),
                updated: Vec::new(),
                failed: Vec::new(),
            },
            started: Vec::new(),
        };
        assert(r.outcome() =~= OutcomeView {
            level: ReloadLevel::TunnelsOnly,
            added: seq![],
            removed: seq![],
            updated: seq![],
            failed: seq![],
        });
        assert(r.started() =~= seq![]);
        r
    }

    /// Enters that a tunnel was closed, or why not.
    pub fn closed(&mut self, name: &String, result: Result<(), String>, changes: &TunnelChanges)
        ensures
            final(self).outcome() == after_close(
                old(self).outcome(),
                name@,
                error_of(result),
                texts(changes.removed@),
            ),
            final(self).started() == old(self).started(),
    {
        let ghost o = self.outcome@;
        let ghost removed = texts(changes.removed@);
        let ghost error = error_of(result);
        match result {
            Ok(_) => {
                let n: usize = changes.removed.len();
                let mut i: usize = 0;
                while i < n && !same(changes.removed[i].as_str(), name.as_str())
                    invariant
                        i <= n,
                        n == changes.removed@.len(),
                        removed == texts(changes.removed@),
                        forall|j: int| 0 <= j < i ==> removed[j] != name@,
                    decreases n - i,
                {
                    i += 1;
                }
                if i < n {
                    assert(removed[i as int] == name@);
                    self.outcome.removed.push(name.clone());
                    assert(self.outcome@.removed =~= o.removed.push(name@));
                }
            },
            Err(e) => {
                let ghost t = e@;
                self.outcome.failed.push((name.clone(), e));
                assert(self.outcome@.failed =~= o.failed.push((name@, t)));
            },
        }
        assert(self.outcome@ =~= after_close(o, name@, error, removed));
    }

    fn failed(&self, name: &str) -> (r: bool)
        ensures
            r == has_failed(self.outcome(), name@),
    {
        let n: usize = self.outcome.failed.len();
        let mut i: usize = 0;
        while i < n
            invariant
                i <= n,
                n == self.outcome.failed@.len(),
                forall|j: int| 0 <= j < i ==> (#[trigger] self.outcome@.failed[j]).0 != name@,
            decreases n - i,
        {
            if same(self.outcome.failed[i].0.as_str(), name) {
                assert(self.outcome@.failed[i as int].0 == name@);
                return true;
            }
            i += 1;
        }
        false
    }

    /// Whether a tunnel is to be asked for: not where it could not be closed before.
    pub fn may_start(&self, tunnel: &TunnelConfig) -> (r: bool)
        ensures
            r == !has_failed(self.outcome(), tunnel.name@),
    {
        !self.failed(tunnel.name.as_str())
    }

    /// Enters that a tunnel was asked for, or why not.
    pub fn registered(
        &mut self,
        tunnel: &TunnelConfig,
        result: Result<(), String>,
        changes: &TunnelChanges,
    )
        ensures
            final(self).outcome() == after_register(
                old(self).outcome(),
                tunnel.name@,
                error_of(result),
                tunnel_names(changes.added@).contains(tunnel.name@),
            ),
            final(self).started() == (if result is Ok {
                old(self).started().push(tunnel.name@)
            } else {
                old(self).started()
            }),
    {
        let ghost o = self.outcome@;
        let ghost before = texts(self.started@);
        let ghost error = error_of(result);
        let ghost added = tunnel_names(changes.added@);
        let name = &tunnel.name;
        match result {
            Ok(_) => {
                let n: usize = changes.added.len();
                let mut i: usize = 0;
                while i < n && !same(changes.added[i].name.as_str(), name.as_str())
                    invariant
                        i <= n,
                        n == changes.added@.len(),
                        added == tunnel_names(changes.added@),
                        forall|j: int| 0 <= j < i ==> added[j] != name@,
                    decreases n - i,
                {
                    i += 1;
                }
                self.started.push(name.clone());
                assert(texts(self.started@) =~= before.push(name@));
                if i < n {
                    assert(added[i as int] == name@);
                    self.outcome.added.push(name.clone());
                    assert(self.outcome@.added =~= o.added.push(name@));
                } else {
                    self.outcome.updated.push(name.clone());
                    assert(self.outcome@.updated =~= o.updated.push(name@));
                }
            },
            Err(e) => {
                let ghost t = e@;
                self.outcome.failed.push((name.clone(), e));
                assert(self.outcome@.failed =~= o.failed.push((name@, t)));
            },
        }
        assert(self.outcome@ =~= after_register(o, name@, error, added.contains(name@)));
    }

    /// The tunnels whose start is to be watched.
    pub fn watched(&self) -> (r: &Vec<String>)
        ensures
            texts(r@) == self.started(),
    {
        &self.started
    }

    fn refused(&mut self, name: &String, error: &String)
        ensures
            final(self).outcome() == after_refusal(old(self).outcome(), name@, error@),
            final(self).started() == old(self).started(),
    {
        let ghost o = self.outcome@;
        let known = self.failed(name.as_str());
        remove_all(&mut self.outcome.added, name.as_str());
        remove_all(&mut self.outcome.updated, name.as_str());
        if !known {
            self.outcome.failed.push((name.clone(), error.clone()));
            assert(self.outcome@.failed =~= o.failed.push((name@, error@)));
        }
        assert(self.outcome@ =~= after_refusal(o, name@, error@));
    }

    /// Closes the book when it is known which tunnels the server refused.
    pub fn finish(self, errors: Vec<(String, String)>) -> (r: ReloadOutcome)
        ensures
            r@ == after_refusals(self.outcome(), text_pairs(errors@)),
    {
        let mut book = self;
        let ghost o = book.outcome@;
        let ghost all = text_pairs(errors@);
        let mut i: usize = 0;
        assert(all.take(0) =~= seq![]);
        while i < errors.len()
            invariant
                i <= errors@.len(),
                all == text_pairs(errors@),
                book.outcome() == after_refusals(o, all.take(i as int)),
            decreases errors@.len() - i,
        {
            assert(all.take(i + 1).drop_last() =~= all.take(i as int));
            assert(all.take(i + 1).last() == all[i as int]);
            book.refused(&errors[i].0, &errors[i].1);
            i += 1;
        }
        assert(all.take(i as int) =~= all);
        book.outcome
    }
}

/// The next tunnel to ask for, from position `from` on: one that could not be closed
/// is passed over.
pub open spec fn next_start(o: OutcomeView, names: Seq<Seq<char>>, from: int) -> int
    decreases names.len() - from,
{
    if from >= names.len() {
        names.len() as int
    } else if has_failed(o, names[from]) {
        next_start(o, names, from + 1)
    } else {
        from
    }
}

/// What is done next to the tunnels of a session.
#[derive(Debug)]
pub enum ChangeStep {
    /// Close this tunnel and report.
    Close(String),
    /// Ask for the tunnel at this position and report.
    Start(usize),
    /// Wait for what the server says to the tunnels that were asked for.
    Collect,
    /// Nothing is left to do.
    Finished,
}

/// What is done next, in the terms of specifications.
pub enum NextStep {
    Close(Seq<char>),
    Start(int),
    Collect,
    Finished,
}

impl View for ChangeStep {
    type V = NextStep;

    open spec fn view(&self) -> NextStep {
        match *self {
            ChangeStep::Close(name) => NextStep::Close(name@),
            ChangeStep::Start(i) => NextStep::Start(i as int),
            ChangeStep::Collect => NextStep::Collect,
            ChangeStep::Finished => NextStep::Finished,
        }
    }
}

/// What is told before anything was done.
pub open spec fn nothing_done() -> OutcomeView {
    OutcomeView {
        level: ReloadLevel::TunnelsOnly,
        added: seq![],
        removed: seq![],
        updated: seq![],
        failed: seq![],
    }
}

/// Changes under way: which tunnels go, change and come, which are closed in what
/// order, how far that is, and what came of it so far.
#[verifier::ext_equal]
pub struct RunView {
    pub removed: Seq<Seq<char>>,
    pub updated: Seq<Seq<char>>,
    pub added: Seq<Seq<char>>,
    /// The tunnels to close, in order.
    pub stops: Seq<Seq<char>>,
    /// How many tunnels were closed or could not be.
    pub stop_at: int,
    /// How many tunnels were asked for, could not be or were passed over.
    pub start_at: int,
    pub outcome: OutcomeView,
    /// The tunnels that were asked for.
    pub started: Seq<Seq<char>>,
}

impl RunView {
    /// The tunnels to ask for: first those that change, then those that come.
    pub open spec fn names(self) -> Seq<Seq<char>> {
        self.updated + self.added
    }

    /// What is to be done next.
    pub open spec fn next(self) -> NextStep {
        let at = next_start(self.outcome, self.names(), self.start_at);
        if self.stop_at < self.stops.len() {
            NextStep::Close(self.stops[self.stop_at])
        } else if at < self.names().len() {
            NextStep::Start(at)
        } else if self.started.len() > 0 {
            NextStep::Collect
        } else {
            NextStep::Finished
        }
    }

    /// The run once it is known what is to be done next.
    pub open spec fn stepped(self) -> RunView {
        if self.stop_at < self.stops.len() {
            self
        } else {
            RunView {
                start_at: next_start(self.outcome, self.names(), self.start_at),
                ..self
            }
        }
    }

    /// The run after what was done next was reported.
    pub open spec fn reported(self, error: Option<Seq<char>>) -> RunView {
        let names = self.names();
        if self.stop_at < self.stops.len() {
            RunView {
                stop_at: self.stop_at + 1,
                outcome: after_close(
                    self.outcome,
                    self.stops[self.stop_at],
                    error,
                    self.removed,
                ),
                ..self
            }
        } else if self.start_at < names.len() {
            let name = names[self.start_at];
            RunView {
                start_at: self.start_at + 1,
                outcome: after_register(self.outcome, name, error, self.added.contains(name)),
                started: if error is None {
                    self.started.push(name)
                } else {
                    self.started
                },
                ..self
            }
        } else {
            self
        }
    }

    /// Those tunnels are closed, each once and in rising order, that go or change.
    pub open spec fn stops_right(self) -> bool {
        &&& rising(self.stops)
        &&& self.stops.to_set() == self.removed.to_set().union(self.updated.to_set())
    }

    /// Nothing was done yet.
    pub open spec fn begins(self) -> bool {
        &&& self.stops_right()
        &&& self.stop_at == 0
        &&& self.start_at == 0
        &&& self.outcome == nothing_done()
        &&& self.started == Seq::<Seq<char>>::empty()
    }
}

/// The changes of a session's tunnels under way.
pub struct ChangeRun {
    changes: TunnelChanges,
    stops: Vec<String>,
    stop_at: usize,
    start_at: usize,
    book: ChangeBook,
}

impl View for ChangeRun {
    type V = RunView;

    closed spec fn view(&self) -> RunView {
        RunView {
            removed: texts(self.changes.removed@),
            updated: tunnel_names(self.changes.updated@),
            added: tunnel_names(self.changes.added@),
            stops: texts(self.stops@),
            stop_at: self.stop_at as int,
            start_at: self.start_at as int,
            outcome: self.book.outcome(),
            started: self.book.started(),
        }
    }
}

impl ChangeRun {
    pub closed spec fn changes(&self) -> TunnelChanges {
        self.changes
    }

    pub open spec fn wf(&self) -> bool {
        &&& self@.stops_right()
        &&& 0 <= self@.stop_at <= self@.stops.len()
        &&& 0 <= self@.start_at <= self@.names().len() <= usize::MAX
        &&& self@.removed == texts(self.changes().removed@)
        &&& self@.updated == tunnel_names(self.changes().updated@)
        &&& self@.added == tunnel_names(self.changes().added@)
    }

    /// Begins changes, of which there must not be more than can be counted.
    pub fn new(changes: TunnelChanges) -> (r: ChangeRun)
        requires
            changes.updated@.len() + changes.added@.len() <= usize::MAX,
        ensures
            r.wf(),
            r.changes() == changes,
            r@.begins(),
    {
        let stops = stop_names(&changes);
        ChangeRun { changes, stops, stop_at: 0, start_at: 0, book: ChangeBook::new() }
    }

    /// The tunnel at a position among those to ask for.
    pub fn tunnel(&self, i: usize) -> (r: &TunnelConfig)
        requires
            self.wf(),
            i < self@.names().len(),
        ensures
            r.name@ == self@.names()[i as int],
            i < self.changes().updated@.len() ==> *r == self.changes().updated@[i as int],
            i >= self.changes().updated@.len() ==> *r == self.changes().added@[i
                - self.changes().updated@.len()],
    {
        let n: usize = self.changes.updated.len();
        if i < n {
            &self.changes.updated[i]
        } else {
            &self.changes.added[i - n]
        }
    }

    /// What is to be done next.
    pub fn step(&mut self) -> (r: ChangeStep)
        requires
            old(self).wf(),
        ensures
            final(self).wf(),
            final(self).changes() == old(self).changes(),
            final(self)@ == old(self)@.stepped(),
            r@ == old(self)@.next(),
    {
        let ghost before = self@;
        if self.stop_at < self.stops.len() {
            return ChangeStep::Close(self.stops[self.stop_at].clone());
        }
        let ghost old_self = *self;
        let n: usize = self.changes.updated.len() + self.changes.added.len();
        while self.start_at < n
            invariant_except_break
                next_start(before.outcome, before.names(), before.start_at) == next_start(
                    before.outcome,
                    before.names(),
                    self.start_at as int,
                ),
            invariant
                self.wf(),
                n == before.names().len(),
                self.changes() == old_self.changes(),
                self.book == old_self.book,
                self@ == (RunView { start_at: self.start_at as int, ..before }),
            ensures
                self.start_at == next_start(before.outcome, before.names(), before.start_at),
            decreases n - self.start_at,
        {
            let at: usize = self.start_at;
            if self.book.may_start(self.tunnel(at)) {
                break;
            }
            self.start_at = at + 1;
            assert(self@ =~= RunView { start_at: self.start_at as int, ..before });
        }
        if self.start_at < n {
            ChangeStep::Start(self.start_at)
        } else if self.book.watched().len() > 0 {
            assert(self.book.started().len() > 0);
            ChangeStep::Collect
        } else {
            assert(self.book.started().len() == 0);
            ChangeStep::Finished
        }
    }

    /// Reports what came of the step that closed or asked for a tunnel.
    pub fn report(&mut self, result: Result<(), String>)
        requires
            old(self).wf(),
        ensures
            final(self).wf(),
            final(self).changes() == old(self).changes(),
            final(self)@ == old(self)@.reported(error_of(result)),
    {
        let ghost before = self@;
        if self.stop_at < self.stops.len() {
            let at: usize = self.stop_at;
            self.book.closed(&self.stops[at], result, &self.changes);
            self.stop_at = at + 1;
        } else {
            let n: usize = self.changes.updated.len();
            let at: usize = self.start_at;
            if at < n {
                self.book.registered(&self.changes.updated[at], result, &self.changes);
                self.start_at = at + 1;
            } else if at - n < self.changes.added.len() {
                self.book.registered(&self.changes.added[at - n], result, &self.changes);
                self.start_at = at + 1;
            }
        }
        assert(self@ =~= before.reported(error_of(result)));
    }

    /// The tunnels whose start is to be watched.
    pub fn watched(&self) -> (r: &Vec<String>)
        ensures
            texts(r@) == self@.started,
    {
        self.book.watched()
    }

    /// Ends the changes when it is known which tunnels the server refused.
    pub fn finish(self, errors: Vec<(String, String)>) -> (r: ReloadOutcome)
        ensures
            r@ == after_refusals(self@.outcome, text_pairs(errors@)),
    {
        self.book.finish(errors)
    }
}

/// Taking a name out takes no other out.
pub proof fn lemma_without(list: Seq<Seq<char>>, name: Seq<char>, other: Seq<char>)
    ensures
        !without(list, name).contains(name),
        other != name ==> without(list, name).contains(other) == list.contains(other),
    decreases list.len(),
{
    if list.len() > 0 {
        let front = list.drop_last();
        let kept = without(front, name);
        lemma_without(front, name, other);
        if list.contains(other) && other != list.last() {
            let k = list.index_of(other);
            assert(front[k] == other);
        }
        if front.contains(other) {
            let k = front.index_of(other);
            assert(list[k] == other);
        }
        if list.last() != name {
            let out = kept.push(list.last());
            assert(out.last() == list.last());
            if out.contains(name) {
                let k = out.index_of(name);
                assert(kept[k] == name);
            }
            if kept.contains(other) {
                let k = kept.index_of(other);
                assert(out[k] == other);
            }
            if out.contains(other) {
                let k = out.index_of(other);
                if k < kept.len() {
                    assert(kept[k] == other);
                }
            }
        }
    }
}

/// A tunnel that the server refused is told to have failed, and not to have come or
/// changed; of all others is told what was told before.
pub proof fn refused_tunnels_count_as_failed(
    o: OutcomeView,
    errors: Seq<(Seq<char>, Seq<char>)>,
    name: Seq<char>,
)
    ensures
        ({
            let out = after_refusals(o, errors);
            let refused = exists|i: int| 0 <= i < errors.len() && (#[trigger] errors[i]).0 == name;
            &&& refused ==> has_failed(out, name) && !out.added.contains(name)
                && !out.updated.contains(name)
            &&& !refused ==> has_failed(out, name) == has_failed(o, name) && out.added.contains(
                name,
            ) == o.added.contains(name) && out.updated.contains(name) == o.updated.contains(name)
            &&& out.removed == o.removed
        }),
    decreases errors.len(),
{
    if errors.len() > 0 {
        let front = errors.drop_last();
        let mid = after_refusals(o, front);
        let (last, error) = errors.last();
        let out = after_refusals(o, errors);
        refused_tunnels_count_as_failed(o, front, name);
        lemma_without(mid.added, last, name);
        lemma_without(mid.updated, last, name);
        if exists|i: int| 0 <= i < front.len() && (#[trigger] front[i]).0 == name {
            let i = choose|i: int| 0 <= i < front.len() && (#[trigger] front[i]).0 == name;
            assert(errors[i].0 == name);
        }
        if exists|i: int| 0 <= i < errors.len() && (#[trigger] errors[i]).0 == name {
            let i = choose|i: int| 0 <= i < errors.len() && (#[trigger] errors[i]).0 == name;
            if i < front.len() {
                assert(front[i].0 == name);
            }
        }
        assert(errors[errors.len() - 1].0 == last);
        if has_failed(mid, name) {
            let i = choose|i: int| 0 <= i < mid.failed.len() && (#[trigger] mid.failed[i]).0
                == name;
            assert(out.failed[i].0 == name);
        }
        if !has_failed(mid, last) {
            assert(out.failed[mid.failed.len() as int].0 == last);
        }
        if has_failed(out, name) {
            let i = choose|i: int| 0 <= i < out.failed.len() && (#[trigger] out.failed[i]).0
                == name;
            if i < mid.failed.len() {
                assert(mid.failed[i].0 == name);
            }
        }
    }
}

} // verus!
