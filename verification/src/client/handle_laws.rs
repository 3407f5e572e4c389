//! What a client shows of itself after each thing that is told to it, and what becomes
//! of new settings.
use vstd::prelude::*;

use crate::client::changes::{
    after_close, after_refusal, after_register, has_failed, next_start, start_errors, NextStep,
    RunView,
};
use crate::client::changes::lemma_without;
use crate::client::handle::{lists_remotes, ready, stopped_client, uses_datagrams, HandleView};
use crate::client::reload::{
    settings_at_once, then_of, OutcomeView, Planned, ReloadPlan, StoreWhen, ThenView, TunnelChanges,
};
use crate::client::status::ClientStatus;
use crate::config::client::{
    client_paths_resolved, tunnel_paths_resolved, ClientConfig, ClientConfigError,
};
use crate::config::client::completion_settles;

verus! {

/// Noting where a tunnel can be reached changes that tunnel alone, and nothing where the
/// name is empty.
pub proof fn noted_remotes_can_be_read(h: HandleView, name: Seq<char>, addr: Seq<char>)
    ensures
        ({
            let to = h.with_remote(name, addr);
            &&& name.len() > 0 ==> to.remotes.dom().contains(name) && to.remotes[name] == addr
            &&& name.len() == 0 ==> to == h
            &&& forall|other: Seq<char>|
                other != name ==> (#[trigger] to.remotes.dom().contains(other)
                    <==> h.remotes.dom().contains(other)) && (h.remotes.dom().contains(other)
                    ==> to.remotes[other] == h.remotes[other])
            &&& to.status == h.status && to.last_error == h.last_error && to.logs == h.logs
                && to.can_cancel == h.can_cancel && to.has_task == h.has_task && to.takes_reloads
                == h.takes_reloads
            &&& to.generation == h.generation <==> to.remotes == h.remotes
        }),
{
    let to = h.with_remote(name, addr);
    if to.generation != h.generation {
        if to.remotes == h.remotes {
            assert(to.remotes.dom().contains(name) && to.remotes[name] == addr);
        }
    }
}

/// Forgetting a tunnel, or all of them, leaves the others as they were; forgetting what
/// was not known changes nothing.
pub proof fn forgotten_remotes_are_gone(h: HandleView, name: Seq<char>)
    ensures
        ({
            let to = h.without_remote(name);
            &&& name.len() > 0 ==> !to.remotes.dom().contains(name)
            &&& name.len() == 0 || !h.remotes.dom().contains(name) ==> to == h
            &&& forall|other: Seq<char>|
                other != name ==> (#[trigger] to.remotes.dom().contains(other)
                    <==> h.remotes.dom().contains(other)) && (h.remotes.dom().contains(other)
                    ==> to.remotes[other] == h.remotes[other])
            &&& to.status == h.status && to.last_error == h.last_error && to.logs == h.logs
                && to.can_cancel == h.can_cancel && to.has_task == h.has_task && to.takes_reloads
                == h.takes_reloads
        }),
        ({
            let none = h.without_remotes();
            &&& forall|other: Seq<char>| !(#[trigger] none.remotes.dom().contains(other))
            &&& none.generation != h.generation
            &&& none.status == h.status && none.last_error == h.last_error && none.logs == h.logs
                && none.can_cancel == h.can_cancel && none.has_task == h.has_task
                && none.takes_reloads == h.takes_reloads
        }),
{
}

/// A client that starts shows so, has no error, can be cancelled and has no tunnel to
/// reach; one that ended shows that it stopped, with the error where it ended with one,
/// can no longer be cancelled and takes no reload.
pub proof fn starting_and_ending_show(h: HandleView, error: Option<Seq<char>>, name: Seq<char>)
    ensures
        ({
            let s = h.starting();
            &&& s.status == ClientStatus::Starting
            &&& s.last_error is None
            &&& s.can_cancel
            &&& !s.remotes.dom().contains(name)
            &&& s.logs == h.logs && s.has_task == h.has_task && s.takes_reloads == h.takes_reloads
            &&& s.generation != h.generation
        }),
        ({
            let e = h.ended(error);
            &&& e.status == ClientStatus::Stopped
            &&& error is Some ==> e.last_error == error
            &&& error is None ==> e.last_error == h.last_error
            &&& !e.can_cancel
            &&& !e.takes_reloads
            &&& !e.remotes.dom().contains(name)
            &&& e.logs == h.logs && e.has_task == h.has_task
            &&& e.generation != h.generation
        }),
{
}

/// Sessions over quic and kcp run on datagrams, those over tcp and websocket do not.
pub proof fn datagrams_by_protocol(protocol: Seq<char>)
    ensures
        uses_datagrams(protocol) <==> protocol == "quic"@ || protocol == "kcp"@,
{
    reveal_strlit("tcp");
    reveal_strlit("quic");
    reveal_strlit("websocket");
    reveal_strlit("kcp");
    assert("tcp"@[0] != "kcp"@[0]);
    assert("tcp"@.len() == 3 && "quic"@.len() == 4 && "websocket"@.len() == 9 && "kcp"@.len() == 3);
}

/// New settings take effect at once where they touch the connection or no session is
/// open, after the tunnels were changed where only they differ, and never where they are
/// refused or change nothing. Whoever asked is told the planned outcome, at the planned
/// depth where it waits for the next session.
pub proof fn reloads_take_effect(
    checked: Result<Planned, ClientConfigError>,
    connected: bool,
    old_cfg: ClientConfig,
    new_cfg: ClientConfig,
)
    ensures
        ({
            let (store, logs, next) = then_of(checked, connected);
            let after = settings_at_once(store, old_cfg, new_cfg);
            match checked {
                Err(e) => store == StoreWhen::Never && next == ThenView::Refuse(e@) && logs.len()
                    == 0 && after == old_cfg,
                Ok(p) => match p.plan {
                    ReloadPlan::Noop => store == StoreWhen::Never && next == ThenView::Reply(
                        p.outcome@,
                    ) && logs.len() == 0 && after == old_cfg,
                    ReloadPlan::Apply { changes, connection_settings_changed } => {
                        &&& connection_settings_changed || !connected ==> after == new_cfg
                            && logs.len() > 0
                        &&& connection_settings_changed && connected ==> next
                            == ThenView::Reconnect(p.outcome@)
                        &&& connection_settings_changed && !connected ==> next == ThenView::Reply(
                            p.outcome@,
                        )
                        &&& connection_settings_changed ==> logs.len() == (if changes.added@.len()
                            + changes.updated@.len() + changes.removed@.len() == 0 {
                            1int
                        } else {
                            2int
                        })
                        &&& !connection_settings_changed && connected ==> store
                            == StoreWhen::AfterChanges && after == old_cfg && next
                            == ThenView::ChangeTunnels(changes) && logs.len() == 0
                        &&& !connection_settings_changed && !connected ==> (next matches
                            ThenView::Reply(o) && o.level == p.level && o.added == p.outcome@.added
                            && o.removed == p.outcome@.removed && o.updated == p.outcome@.updated
                            && o.failed == p.outcome@.failed) && logs.len() == 1
                    },
                },
            }
        }),
{
}

/// A tunnel that closed is told as removed where it was to go; one that did not close is
/// told as failed, with the error. Nothing else of the outcome changes.
pub proof fn closing_is_told(
    o: OutcomeView,
    name: Seq<char>,
    error: Option<Seq<char>>,
    removed: Seq<Seq<char>>,
)
    ensures
        ({
            let to = after_close(o, name, error, removed);
            &&& to.level == o.level && to.added == o.added && to.updated == o.updated
            &&& to.failed.len() == o.failed.len() + (if error is Some {
                1int
            } else {
                0int
            })
            &&& o.failed.is_prefix_of(to.failed)
            &&& error matches Some(e) ==> to.failed.last() == (name, e)
            &&& o.removed.is_prefix_of(to.removed)
            &&& to.removed.len() == o.removed.len() + (if error is None && removed.contains(name) {
                1int
            } else {
                0int
            })
            &&& error is None && removed.contains(name) ==> to.removed.last() == name
        }),
{
}

/// A tunnel that was asked for is told as added where it is new and as updated where it
/// is not; one that could not be asked for is told as failed, with the error.
pub proof fn registering_is_told(
    o: OutcomeView,
    name: Seq<char>,
    error: Option<Seq<char>>,
    is_added: bool,
)
    ensures
        ({
            let to = after_register(o, name, error, is_added);
            &&& to.level == o.level && to.removed == o.removed
            &&& error matches Some(e) ==> to.failed.len() == o.failed.len() + 1 && to.failed.last()
                == (name, e) && to.added == o.added && to.updated == o.updated
            &&& error is None ==> to.failed == o.failed
            &&& error is None && is_added ==> to.added.len() == o.added.len() + 1 && to.added.last()
                == name && to.updated == o.updated
            &&& error is None && !is_added ==> to.updated.len() == o.updated.len() + 1
                && to.updated.last() == name && to.added == o.added
            &&& o.failed.is_prefix_of(to.failed) && o.added.is_prefix_of(to.added)
                && o.updated.is_prefix_of(to.updated)
        }),
{
}

/// A tunnel that the server refused is neither added nor updated but failed, and is told
/// as failed once.
pub proof fn refusing_is_told(o: OutcomeView, name: Seq<char>, error: Seq<char>, other: Seq<char>)
    ensures
        ({
            let to = after_refusal(o, name, error);
            &&& to.level == o.level && to.removed == o.removed
            &&& !to.added.contains(name) && !to.updated.contains(name)
            &&& other != name ==> to.added.contains(other) == o.added.contains(other)
            &&& other != name ==> to.updated.contains(other) == o.updated.contains(other)
            &&& has_failed(o, name) ==> to.failed == o.failed
            &&& !has_failed(o, name) ==> to.failed.len() == o.failed.len() + 1 && to.failed.last()
                == (name, error) && o.failed.is_prefix_of(to.failed)
        }),
{
    lemma_without(o.added, name, other);
    lemma_without(o.updated, name, other);
}

/// A tunnel counts as not started if and only if it is still waited for, which is told as
/// too late, or was refused, which is told with the error.
pub proof fn start_errors_are_told(
    pending: Set<Seq<char>>,
    errors: Map<Seq<char>, Seq<char>>,
    names: Seq<Seq<char>>,
    name: Seq<char>,
    error: Seq<char>,
)
    ensures
        start_errors(pending, errors, names).contains((name, error)) <==> names.contains(name) && (
        if pending.contains(name) {
            error == "tunnel start timed out"@
        } else {
            errors.dom().contains(name) && errors[name] == error
        }),
        start_errors(pending, errors, names).len() <= names.len(),
    decreases names.len(),
{
    if names.len() > 0 {
        let before = start_errors(pending, errors, names.drop_last());
        let all = start_errors(pending, errors, names);
        start_errors_are_told(pending, errors, names.drop_last(), name, error);
        assert(names.contains(name) <==> names.drop_last().contains(name) || names.last() == name)
            by {
            if names.contains(name) && names.last() != name {
                let i = choose|i: int| 0 <= i < names.len() && names[i] == name;
                assert(names.drop_last()[i] == name);
            }
            if names.drop_last().contains(name) {
                let i = choose|i: int| 0 <= i < names.len() - 1 && names.drop_last()[i] == name;
                assert(names[i] == name);
            }
            assert(names[names.len() - 1] == names.last());
        }
        if all.len() > before.len() {
            assert(all[all.len() - 1] == all.last());
            assert forall|x: (Seq<char>, Seq<char>)| all.contains(x) <==> before.contains(x) || x
                == all.last() by {
                if all.contains(x) && x != all.last() {
                    let i = choose|i: int| 0 <= i < all.len() && all[i] == x;
                    assert(before[i] == x);
                }
                if before.contains(x) {
                    let i = choose|i: int| 0 <= i < before.len() && before[i] == x;
                    assert(all[i] == x);
                }
            }
        }
    }
}

/// The next tunnel to start is the first from a place on that has not failed.
pub proof fn next_start_is_the_first(o: OutcomeView, names: Seq<Seq<char>>, from: int)
    requires
        0 <= from <= names.len(),
    ensures
        from <= next_start(o, names, from) <= names.len(),
        next_start(o, names, from) < names.len() ==> !has_failed(
            o,
            names[next_start(o, names, from)],
        ),
        forall|i: int|
            from <= i < next_start(o, names, from) ==> has_failed(o, #[trigger] names[i]),
    decreases names.len() - from,
{
    if from < names.len() && has_failed(o, names[from]) {
        next_start_is_the_first(o, names, from + 1);
    }
}

/// A run first closes, tunnel by tunnel, then starts those that did not fail, then
/// collects what the server says of those that were asked for, and is finished where
/// there are none.
pub proof fn runs_close_start_and_collect(v: RunView)
    requires
        0 <= v.stop_at <= v.stops.len(),
        0 <= v.start_at <= v.updated.len() + v.added.len(),
    ensures
        v.next() is Close <==> v.stop_at < v.stops.len(),
        v.next() matches NextStep::Close(name) ==> name == v.stops[v.stop_at],
        v.next() matches NextStep::Start(i) ==> v.stop_at == v.stops.len() && v.start_at <= i
            && !has_failed(
            v.outcome,
            if i < v.updated.len() {
                v.updated[i]
            } else {
                v.added[i - v.updated.len()]
            },
        ),
        v.next() is Collect ==> v.started.len() > 0,
        v.next() is Finished ==> v.started.len() == 0,
        v.next() is Collect || v.next() is Finished ==> v.stop_at == v.stops.len() && forall|i: int|
            v.start_at <= i < v.names().len() ==> has_failed(v.outcome, #[trigger] v.names()[i]),
{
    next_start_is_the_first(v.outcome, v.names(), v.start_at);
}

/// Changes are none if and only if no tunnel comes, changes or goes.
pub proof fn changes_are_none_without_tunnels(changes: TunnelChanges)
    ensures
        changes.none() <==> changes.added@.len() + changes.updated@.len() + changes.removed@.len()
            == 0,
{
}

/// A client that was never started has stopped, without an error, a line to show, a
/// tunnel to reach, anything to cancel, or a way to take settings.
pub proof fn fresh_clients_have_nothing(name: Seq<char>)
    ensures
        ({
            let h = stopped_client();
            &&& h.status == ClientStatus::Stopped
            &&& h.last_error is None
            &&& h.logs.len() == 0
            &&& !h.remotes.dom().contains(name)
            &&& !h.can_cancel && !h.has_task && !h.takes_reloads
        }),
{
}

/// A list of where tunnels can be reached holds each of them once, with its own address,
/// and nothing else.
pub proof fn remotes_are_listed_once(
    list: Seq<(Seq<char>, Seq<char>)>,
    remotes: Map<Seq<char>, Seq<char>>,
    name: Seq<char>,
    addr: Seq<char>,
)
    requires
        lists_remotes(list, remotes),
    ensures
        list.contains((name, addr)) <==> remotes.dom().contains(name) && remotes[name] == addr,
        list.no_duplicates(),
{
    if remotes.dom().contains(name) && remotes[name] == addr {
        let i = choose|i: int| 0 <= i < list.len() && (#[trigger] list[i]).0 == name;
        assert(list[i] == (name, addr));
    }
    if list.contains((name, addr)) {
        let i = choose|i: int| 0 <= i < list.len() && list[i] == (name, addr);
        assert(remotes.dom().contains(list[i].0));
    }
    assert forall|i: int, j: int| 0 <= i < list.len() && 0 <= j < list.len() && i != j implies list[i]
        != list[j] by {
        if i < j {
            assert(list[i].0 != list[j].0);
        } else {
            assert(list[j].0 != list[i].0);
        }
    }
}

/// Settings that are ready for use are complete, and name the same server, user and
/// tunnels as those that were written.
pub proof fn ready_settings_are_complete<F: Fn(&String) -> String>(
    resolve: F,
    before: ClientConfig,
    after: ClientConfig,
    i: int,
)
    requires
        ready(resolve, before, after),
    ensures
        after@.completed() == after@,
        after.server@ == before.server@ && after.user@ == before.user@ && after.agent_id@
            == before.agent_id@ && after.auth.token@ == before.auth.token@,
        after@.tunnels.len() == before.tunnels@.len(),
        0 <= i < before.tunnels@.len() ==> after@.tunnels[i].name == before.tunnels@[i].name@
            && after@.tunnels[i].protocol == before.tunnels@[i].protocol@
            && after@.tunnels[i].remote_port == before.tunnels@[i].remote_port
            && after@.tunnels[i].service == before.tunnels@[i].service@,
{
    let found = choose|found: ClientConfig| #[trigger]
        client_paths_resolved(resolve, before, found) && after@ == found@.completed();
    completion_settles(found@);
    assert(after@.tunnels == found@.tunnels);
    if 0 <= i < before.tunnels@.len() {
        assert(tunnel_paths_resolved(resolve, before.tunnels@[i], found.tunnels@[i]));
        assert(found@.tunnels[i] == found.tunnels@[i]@);
    }
}

/// Reporting what became of a step moves a run on by one tunnel: through those to close
/// while there are any, then through those to start; a tunnel is waited for if and only if
/// it was asked for without an error.
pub proof fn reports_move_the_run_on(v: RunView, error: Option<Seq<char>>)
    requires
        0 <= v.stop_at <= v.stops.len(),
        0 <= v.start_at <= v.updated.len() + v.added.len(),
    ensures
        ({
            let to = v.reported(error);
            &&& to.removed == v.removed && to.updated == v.updated && to.added == v.added
                && to.stops == v.stops
            &&& v.stop_at < v.stops.len() ==> to.stop_at == v.stop_at + 1 && to.start_at
                == v.start_at && to.started == v.started
            &&& v.stop_at == v.stops.len() && v.start_at < v.names().len() ==> {
                &&& to.stop_at == v.stop_at
                &&& to.start_at == v.start_at + 1
                &&& error is None ==> to.started == v.started.push(v.names()[v.start_at])
                &&& error is Some ==> to.started == v.started && has_failed(
                    to.outcome,
                    v.names()[v.start_at],
                )
            }
            &&& v.stop_at == v.stops.len() && v.start_at == v.names().len() ==> to == v
            &&& v.stop_at < v.stops.len() && error is Some ==> has_failed(
                to.outcome,
                v.stops[v.stop_at],
            )
        }),
{
    let to = v.reported(error);
    if error is Some && to.outcome.failed.len() > v.outcome.failed.len() {
        assert(to.outcome.failed[to.outcome.failed.len() - 1] == to.outcome.failed.last());
    }
}

/// A step passes over the tunnels that failed and over nothing else.
pub proof fn steps_pass_over_failed_tunnels(v: RunView, i: int)
    requires
        0 <= v.stop_at <= v.stops.len(),
        0 <= v.start_at <= v.updated.len() + v.added.len(),
    ensures
        ({
            let to = v.stepped();
            &&& v.stop_at < v.stops.len() ==> to == v
            &&& to.stop_at == v.stop_at && to.outcome == v.outcome && to.started == v.started
                && to.stops == v.stops && to.names() == v.names()
            &&& v.start_at <= to.start_at <= v.names().len()
            &&& v.start_at <= i < to.start_at ==> has_failed(v.outcome, v.names()[i])
            &&& v.stop_at == v.stops.len() && to.start_at < v.names().len() ==> v.next()
                == NextStep::Start(to.start_at)
        }),
{
    next_start_is_the_first(v.outcome, v.names(), v.start_at);
}

} // verus!
