//! What holds of the life of a client, event by event.
use vstd::prelude::*;

use crate::client::service::{
    done_view, end_of, leave_view, loop_step, run_step, EndView, LoopAction, LoopEvent,
    PendingReload, ReaderEnd, RunActionView, RunEvent, RunView, SessionDone, SessionEnd,
    SessionLoopEnd, Stage,
};
use crate::client::status::ClientStatus;
use crate::text::decimal;

verus! {

/// Whether one of the actions ends the client.
pub open spec fn has_stop(acts: Seq<RunActionView>) -> bool {
    exists|i: int| 0 <= i < acts.len() && (#[trigger] acts[i]) is Stop
}

/// A session is left exactly on a stop, on a reload that needs a new session, and when
/// it is over.
pub proof fn sessions_are_left_for_a_reason(event: LoopEvent, session_id: Seq<char>)
    ensures
        loop_step(event, session_id).1 is Some <==> (event is Cancelled || event
            is ReloadReconnects || event is Done),
{
}

/// A session is left as cancelled only on a stop, for a reload only on that reload, and
/// otherwise with what was heard from it: a session of which nothing was heard is
/// disconnected under its own name.
pub proof fn sessions_end_by_what_happened(
    event: LoopEvent,
    session_id: Seq<char>,
    end: SessionLoopEnd,
)
    requires
        loop_step(event, session_id).1 == Some(leave_view(end, session_id)),
    ensures
        end is Cancelled <==> event is Cancelled,
        end is ReloadReconnect <==> event is ReloadReconnects,
        event matches LoopEvent::ReloadReconnects(p) ==> (end matches
            SessionLoopEnd::ReloadReconnect(q) && q.ticket == p.ticket && q.outcome@ == p.outcome@),
        event matches LoopEvent::Done(SessionDone::Failed(e)) ==> (end matches
            SessionLoopEnd::Failed(f) && f@ == e@),
        event matches LoopEvent::Done(SessionDone::Ended(SessionEnd::Kicked { session_id: a, reason }))
            ==> (end matches SessionLoopEnd::Ended(SessionEnd::Kicked { session_id: b, reason: told })
            && b@ == a@ && told@ == reason@),
        event matches LoopEvent::Done(SessionDone::Ended(SessionEnd::Disconnected { session_id: a }))
            ==> (end matches SessionLoopEnd::Ended(SessionEnd::Disconnected { session_id: b })
            && b@ == a@),
        event == LoopEvent::Done(SessionDone::Dropped) ==> (end matches SessionLoopEnd::Ended(
            SessionEnd::Disconnected { session_id: b },
        ) && b@ == session_id),
{
}

/// Tunnels are closed only on a stop and before the session ends; the session is ended
/// on a stop and where no reload can come any more; and the client waits for its end,
/// last of all, unless it is over already or goes on.
pub proof fn sessions_are_wound_up_in_order(event: LoopEvent, session_id: Seq<char>)
    ensures
        ({
            let acts = loop_step(event, session_id).0;
            &&& acts.contains(LoopAction::CloseTunnels) <==> event is Cancelled
            &&& acts.contains(LoopAction::Disconnect) <==> (event is Cancelled || event
                is ReloadsClosed)
            &&& acts.contains(LoopAction::AwaitDone) <==> !(event is ReloadAnswered || event
                is Done)
            &&& acts.no_duplicates()
            &&& acts.contains(LoopAction::AwaitDone) ==> acts.last() == LoopAction::AwaitDone
            &&& acts.contains(LoopAction::CloseTunnels) ==> acts.first()
                == LoopAction::CloseTunnels
        }),
{
    let acts = loop_step(event, session_id).0;
    match event {
        LoopEvent::Cancelled => {
            assert(acts[0] == LoopAction::CloseTunnels);
            assert(acts[1] == LoopAction::Disconnect);
            assert(acts[2] == LoopAction::AwaitDone);
        },
        LoopEvent::ReloadsClosed => {
            assert(acts[0] == LoopAction::Disconnect);
            assert(acts[1] == LoopAction::AwaitDone);
        },
        LoopEvent::ReloadReconnects(_) => {
            assert(acts[0] == LoopAction::AwaitDone);
        },
        _ => {},
    }
}

/// A session that is left because a reload needs a new one leaves that reload waiting:
/// the client turns to the server again, neither stops nor answers, and answers with
/// the reload's own outcome once the next session is open.
pub proof fn reload_outlives_its_session(
    p: PendingReload,
    session_id: Seq<char>,
    end: SessionLoopEnd,
    s: RunView,
    cancelled: bool,
)
    requires
        s.stage == Stage::InSession,
        loop_step(LoopEvent::ReloadReconnects(p), session_id).1 == Some(
            leave_view(end, session_id),
        ),
    ensures
        ({
            let (left, acts) = run_step(s, RunEvent::SessionOver { end, cancelled });
            let (asked, _) = run_step(left, RunEvent::Turn { cancelled: false });
            let (inside, told) = run_step(asked, RunEvent::Opened);
            &&& left.stage == Stage::Turning
            &&& left.pending == Some((p.ticket, p.outcome@))
            &&& left.session_id == s.session_id
            &&& left.backoff_secs == s.backoff_secs
            &&& left.first_attempt == s.first_attempt
            &&& !has_stop(acts)
            &&& forall|i: int| 0 <= i < acts.len() ==> (#[trigger] acts[i]) !is Reply
            &&& acts.contains(RunActionView::SetStatus(ClientStatus::Reconnecting))
            &&& inside.stage == Stage::InSession
            &&& inside.pending is None
            &&& told.contains(RunActionView::Reply { ticket: p.ticket, result: Ok(p.outcome@) })
        }),
{
    let (left, acts) = run_step(s, RunEvent::SessionOver { end, cancelled });
    let (asked, _) = run_step(left, RunEvent::Turn { cancelled: false });
    let (_, told) = run_step(asked, RunEvent::Opened);
    assert(acts[2] == RunActionView::SetStatus(ClientStatus::Reconnecting));
    assert(told[0] == RunActionView::Reply { ticket: p.ticket, result: Ok(p.outcome@) });
}

/// Where a client stands after an event that fits where it stood: it connects after it
/// turned, is in a session once that is open, pauses after a failure or a loss, and turns
/// again after the pause or for a reload.
pub proof fn clients_move_on(s: RunView, event: RunEvent)
    requires
        s.stage != Stage::Stopped,
    ensures
        ({
            let to = run_step(s, event).0.stage;
            &&& to == Stage::Connecting <==> {
                ||| s.stage == Stage::Turning && event == (RunEvent::Turn { cancelled: false })
                ||| s.stage == Stage::Connecting && !(event is ConnectCancelled || event
                    is ReloadServed || event is Opened || event is OpenFailed)
            }
            &&& to == Stage::InSession <==> {
                ||| s.stage == Stage::Connecting && event is Opened
                ||| s.stage == Stage::InSession && event !is SessionOver
            }
            &&& s.stage == Stage::Connecting && event is ReloadServed ==> to == Stage::Turning
            &&& s.stage == Stage::Waiting && event == (RunEvent::Waited { cancelled: false }) ==> to
                == Stage::Turning
            &&& s.stage == Stage::Connecting && to == Stage::Waiting ==> event is OpenFailed
            &&& s.stage == Stage::InSession && to == Stage::Waiting ==> event is SessionOver
        }),
{
}

/// An event that does not fit where a client stands changes nothing and asks for
/// nothing.
pub proof fn stray_events_change_nothing(s: RunView, event: RunEvent)
    requires
        event is Turn ==> s.stage != Stage::Turning,
        event is ConnectCancelled || event is ReloadServed || event is Opened || event
            is OpenFailed ==> s.stage != Stage::Connecting,
        event is SessionOver ==> s.stage != Stage::InSession,
        event is Waited ==> s.stage != Stage::Waiting,
    ensures
        run_step(s, event).0 == s,
        run_step(s, event).1.len() == 0,
{
}

/// A client that has not stopped stops exactly when it is asked to, is kicked or its
/// login is rejected. It then says so, once and last of all.
pub proof fn clients_stop_for_a_reason(s: RunView, event: RunEvent)
    requires
        s.stage != Stage::Stopped,
    ensures
        ({
            let (to, acts) = run_step(s, event);
            &&& to.stage == Stage::Stopped <==> has_stop(acts)
            &&& forall|i: int|
                0 <= i < acts.len() && (#[trigger] acts[i]) is Stop ==> i == acts.len() - 1
            &&& to.stage == Stage::Stopped ==> to.pending is None
            &&& to.stage == Stage::Stopped <==> match event {
                RunEvent::Turn { cancelled } => cancelled && s.stage == Stage::Turning,
                RunEvent::ConnectCancelled => s.stage == Stage::Connecting,
                RunEvent::OpenFailed { cancelled, rejected, .. } => s.stage == Stage::Connecting
                    && (cancelled || rejected is Some),
                RunEvent::SessionOver { end, cancelled } => s.stage == Stage::InSession && match end {
                    SessionLoopEnd::Cancelled => true,
                    SessionLoopEnd::ReloadReconnect(_) => false,
                    SessionLoopEnd::Ended(SessionEnd::Kicked { .. }) => true,
                    SessionLoopEnd::Ended(SessionEnd::Disconnected { .. }) => cancelled,
                    SessionLoopEnd::Failed(_) => cancelled,
                },
                RunEvent::Waited { cancelled } => cancelled && s.stage == Stage::Waiting,
                _ => false,
            }
        }),
{
    let (to, acts) = run_step(s, event);
    if to.stage == Stage::Stopped {
        assert(acts[acts.len() - 1] is Stop);
    }
}

/// A client that is kicked, and one whose login is rejected without a stop, ends with
/// that as the error; a reload that waited for the login is answered with it too.
pub proof fn errors_that_stop_are_told(
    s: RunView,
    session_id: String,
    reason: String,
    error: String,
    cancelled: bool,
)
    ensures
        s.stage == Stage::InSession ==> run_step(
            s,
            RunEvent::SessionOver {
                end: SessionLoopEnd::Ended(SessionEnd::Kicked { session_id, reason }),
                cancelled,
            },
        ).1.last() == RunActionView::Stop(Err("kicked by server: "@ + reason@)),
        s.stage == Stage::Connecting ==> ({
            let text = "login rejected: "@ + reason@;
            let acts = run_step(
                s,
                RunEvent::OpenFailed { cancelled: false, rejected: Some(reason), error },
            ).1;
            &&& acts.last() == RunActionView::Stop(Err(text))
            &&& s.pending matches Some(p) ==> acts.contains(
                RunActionView::Reply { ticket: p.0, result: Err(text) },
            )
        }),
{
    if s.stage == Stage::Connecting && s.pending is Some {
        let acts = run_step(
            s,
            RunEvent::OpenFailed { cancelled: false, rejected: Some(reason), error },
        ).1;
        assert(acts[0] is Reply);
    }
}

/// A reload that waits when the client is stopped is answered with an error; one that
/// waits when a session opens is answered with its outcome.
pub proof fn waiting_reloads_hear_the_outcome(s: RunView, event: RunEvent)
    requires
        s.pending is Some,
        s.stage != Stage::InSession,
    ensures
        ({
            let (to, acts) = run_step(s, event);
            let (ticket, outcome) = s.pending->0;
            &&& to.stage == Stage::Stopped && s.stage != Stage::Stopped ==> (acts[0] matches
                RunActionView::Reply { ticket: t, result } && t == ticket && result is Err)
            &&& to.stage == Stage::InSession ==> acts[0] == (RunActionView::Reply {
                ticket,
                result: Ok(outcome),
            })
            &&& to.stage != Stage::Stopped && to.stage != Stage::InSession ==> to.pending
                == s.pending
        }),
{
}

/// A session that is lost is taken up again under the name it was last told; a session
/// that failed, under the name it had. Nothing else changes the name, and each attempt
/// to open a session is made under it.
pub proof fn sessions_are_taken_up_again(s: RunView, event: RunEvent, id: Seq<char>)
    ensures
        ({
            let (to, acts) = run_step(s, event);
            &&& match event {
                RunEvent::SessionOver {
                    end: SessionLoopEnd::Ended(SessionEnd::Disconnected { session_id }),
                    cancelled: false,
                } => s.stage == Stage::InSession ==> to.session_id == session_id@,
                _ => to.session_id == s.session_id,
            }
            &&& acts.contains(RunActionView::Open { session_id: id }) ==> id == s.session_id
            &&& s.stage == Stage::Turning && to.stage == Stage::Connecting ==> acts.last() == (
            RunActionView::Open { session_id: s.session_id })
            &&& s.stage == Stage::Connecting && to.stage == Stage::InSession ==> acts.last()
                == RunActionView::RunSession
            &&& to.stage == Stage::Waiting && s.stage != Stage::Waiting ==> acts.last() == (
            RunActionView::Wait { secs: s.backoff_secs })
        }),
{
}

/// The pause doubles from one attempt to the next, between a second and a minute; it
/// starts anew with every session that opens, and nothing else changes it.
pub proof fn pauses_change_by_the_attempts(s: RunView, event: RunEvent)
    ensures
        ({
            let to = run_step(s, event).0;
            let twice = 2 * s.backoff_secs;
            if s.stage == Stage::Connecting && event is Opened {
                to.backoff_secs == 1
            } else if s.stage == Stage::Waiting && event == (RunEvent::Waited { cancelled: false }) {
                &&& 1 <= twice <= 60 ==> to.backoff_secs == twice
                &&& twice > 60 ==> to.backoff_secs == 60
                &&& twice < 1 ==> to.backoff_secs == 1
            } else {
                to.backoff_secs == s.backoff_secs
            }
        }),
{
}

/// A client that turns to the server shows that it starts on its first attempt and that
/// it reconnects on a later one, unless a reload has shown that already; and only an
/// attempt that came to an end makes the next one a later one.
pub proof fn attempts_are_shown(s: RunView, event: RunEvent)
    ensures
        ({
            let (to, acts) = run_step(s, event);
            &&& s.stage == Stage::Turning && event == (RunEvent::Turn { cancelled: false }) ==> {
                &&& acts.contains(RunActionView::SetStatus(ClientStatus::Starting))
                    <==> s.first_attempt
                &&& acts.contains(RunActionView::SetStatus(ClientStatus::Reconnecting)) <==> (
                !s.first_attempt && s.pending is None)
                &&& acts[0] == RunActionView::DrainReloads
                &&& acts[1] == RunActionView::ClearRemotes
                &&& to.first_attempt == s.first_attempt
            }
            &&& s.stage == Stage::Connecting && (event is Opened || to.stage == Stage::Waiting)
                ==> !to.first_attempt
            &&& !(s.stage == Stage::Connecting && (event is Opened || to.stage == Stage::Waiting))
                ==> to.first_attempt == s.first_attempt
            &&& s.stage == Stage::InSession && event is SessionOver ==> acts[0]
                == RunActionView::ClearRemotes
            &&& to.stage == Stage::Waiting && s.stage != Stage::Waiting ==> acts.contains(
                RunActionView::SetStatus(ClientStatus::Reconnecting),
            )
            &&& s.stage == Stage::InSession && to.stage == Stage::Waiting ==> acts.contains(
                RunActionView::DrainReloads,
            )
        }),
{
    let (to, acts) = run_step(s, event);
    if s.stage == Stage::Turning && event == (RunEvent::Turn { cancelled: false }) {
        if s.first_attempt {
            assert(acts[2] == RunActionView::SetStatus(ClientStatus::Starting));
        } else if s.pending is None {
            assert(acts[2] == RunActionView::SetStatus(ClientStatus::Reconnecting));
        }
    }
    if to.stage == Stage::Waiting && s.stage == Stage::Connecting {
        assert(acts[1] == RunActionView::SetStatus(ClientStatus::Reconnecting));
    }
    if to.stage == Stage::Waiting && s.stage == Stage::InSession {
        assert(acts[2] == RunActionView::SetStatus(ClientStatus::Reconnecting));
        assert(acts[3] == RunActionView::DrainReloads);
    }
}

/// A session whose messages ended with being thrown out was kicked, with that reason; one
/// whose messages just ended was disconnected; one that could not be read failed, with
/// that error. The first two are told under the session's own name.
pub proof fn sessions_end_as_their_messages_did(
    reason: String,
    error: Seq<char>,
    session_id: Seq<char>,
)
    ensures
        end_of(Ok(ReaderEnd::Kicked(reason)), session_id) == (EndView::Kicked {
            session_id,
            reason: reason@,
        }),
        end_of(Ok(ReaderEnd::Closed), session_id) == (EndView::Disconnected { session_id }),
        end_of(Err(error), session_id) == (EndView::Failed { error }),
{
}

/// What was heard of a session that is over is seen as it was heard.
pub proof fn ends_are_seen_as_heard(d: SessionDone, session_id: Seq<char>)
    ensures
        done_view(d, session_id) is Kicked <==> (d matches SessionDone::Ended(end) && end is Kicked),
        done_view(d, session_id) is Failed <==> d is Failed,
        d matches SessionDone::Ended(SessionEnd::Kicked { session_id: a, reason }) ==> done_view(
            d,
            session_id,
        ) == (EndView::Kicked { session_id: a@, reason: reason@ }),
        d matches SessionDone::Ended(SessionEnd::Disconnected { session_id: a }) ==> done_view(
            d,
            session_id,
        ) == (EndView::Disconnected { session_id: a@ }),
        d matches SessionDone::Failed(e) ==> done_view(d, session_id) == (EndView::Failed {
            error: e@,
        }),
        d is Dropped ==> done_view(d, session_id) == (EndView::Disconnected { session_id }),
{
}

/// Before a client pauses it logs for how many seconds.
pub proof fn pauses_are_logged(s: RunView, event: RunEvent)
    requires
        s.stage != Stage::Waiting,
        run_step(s, event).0.stage == Stage::Waiting,
    ensures
        ({
            let acts = run_step(s, event).1;
            &&& acts[acts.len() - 2] == RunActionView::Log(
                "INFO  retrying in "@ + decimal(s.backoff_secs as nat) + "s"@,
            )
            &&& acts[acts.len() - 1] == (RunActionView::Wait { secs: s.backoff_secs })
        }),
{
}

/// A reload that waits when the client is stopped on request is told that it was stopped,
/// and the client ends without an error.
pub proof fn stops_on_request_are_told(s: RunView, event: RunEvent)
    requires
        match event {
            RunEvent::Turn { cancelled } => cancelled && s.stage == Stage::Turning,
            RunEvent::ConnectCancelled => s.stage == Stage::Connecting,
            RunEvent::OpenFailed { cancelled, .. } => cancelled && s.stage == Stage::Connecting,
            RunEvent::Waited { cancelled } => cancelled && s.stage == Stage::Waiting,
            _ => false,
        },
    ensures
        ({
            let acts = run_step(s, event).1;
            &&& acts.last() == RunActionView::Stop(Ok(()))
            &&& s.pending matches Some(p) ==> acts.first() == (RunActionView::Reply {
                ticket: p.0,
                result: Err("client stopped during reconnect"@),
            })
            &&& s.pending is None ==> acts.len() == 1
        }),
{
}

} // verus!
