//! What holds of logins, of the table of sessions, and of the counts by hour.
use vstd::prelude::*;

use crate::config::client_laws::{all_white, blank_is_all_white};
use crate::config::server::ServerTransportView;
use crate::msg::Login;
use crate::server::control::ping_timeout;
use crate::server::hour_counter::{held_sum, hours_between, kept_hours, HourView, Moment};
use crate::server::register::domain_list;
use crate::server::service::{
    is_session_id, login_fault, pool_size, session_taken_up, CleanedNames, TableView,
};
use crate::text::decimal;

verus! {

/// A login is let in if and only if it is authorized and every name it brings is in
/// order, the name of the session only where it brings one. What is wrong is told in this
/// order: authorization, user, agent, session.
pub proof fn logins_that_are_let_in(login: Login, authorized: bool, names: CleanedNames)
    ensures
        login_fault(login, authorized, names) is None <==> authorized && names.user is Ok
            && names.agent_id is Ok && (all_white(login.session_id@) || names.session_id is Ok),
        !authorized ==> login_fault(login, authorized, names) == Some("authorization failed"@),
        authorized && names.user is Err ==> login_fault(login, authorized, names) == Some(
            names.user->Err_0@,
        ),
        authorized && names.user is Ok && names.agent_id is Err ==> login_fault(
            login,
            authorized,
            names,
        ) == Some(names.agent_id->Err_0@),
        authorized && names.user is Ok && names.agent_id is Ok && !all_white(login.session_id@)
            && names.session_id is Err ==> login_fault(login, authorized, names) == Some(
            names.session_id->Err_0@,
        ),
{
    blank_is_all_white(login.session_id@);
}

/// A session is taken up under the name that was asked for, once cleaned; without one, or
/// with nothing left of it, it gets a new one.
pub proof fn sessions_keep_the_name_asked_for(
    raw: Seq<char>,
    cleaned: Result<Seq<char>, Seq<char>>,
)
    ensures
        session_taken_up(raw, cleaned) matches Ok(Some(id)) ==> !all_white(raw) && cleaned == Ok::<
            Seq<char>,
            Seq<char>,
        >(id) && id.len() > 0,
        session_taken_up(raw, cleaned) matches Ok(None) ==> all_white(raw) || cleaned->Ok_0.len()
            == 0,
        session_taken_up(raw, cleaned) matches Err(e) ==> cleaned == Err::<Seq<char>, Seq<char>>(e),
        all_white(raw) ==> session_taken_up(raw, cleaned) is Ok,
        !all_white(raw) ==> (session_taken_up(raw, cleaned) is Ok <==> cleaned is Ok),
{
    blank_is_all_white(raw);
}

/// The name of a new session is sixteen digits in base sixteen, in lower case.
pub proof fn session_names_are_hex(s: Seq<char>)
    ensures
        is_session_id(s) <==> s.len() == 16 && forall|i: int|
            0 <= i < s.len() ==> ('0' <= #[trigger] s[i] <= '9' || 'a' <= s[i] <= 'f'),
{
    if s.len() == 16 && forall|i: int|
        0 <= i < s.len() ==> ('0' <= #[trigger] s[i] <= '9' || 'a' <= s[i] <= 'f') {
        assert(is_session_id(s));
    }
}

/// A pool is as large as asked for, as far as the server allows, and never below zero.
pub proof fn pools_stay_within_bounds(asked: i32, allowed: i64)
    ensures
        pool_size(asked, allowed) >= 0,
        asked >= 0 ==> pool_size(asked, allowed) <= asked,
        allowed >= 0 ==> pool_size(asked, allowed) <= allowed,
        0 <= asked <= allowed ==> pool_size(asked, allowed) == asked,
        0 <= allowed <= asked ==> pool_size(asked, allowed) == allowed,
        asked <= 0 || allowed <= 0 ==> pool_size(asked, allowed) == 0,
{
}

/// A session that logs in is online under the next number, whoever was there before; the
/// others stay as they were. It goes only under the number that it has.
pub proof fn sessions_come_and_go(
    t: TableView,
    session_id: Seq<char>,
    generation: u64,
    other: Seq<char>,
)
    ensures
        t.with(session_id).current(session_id) == Some(t.next),
        t.next < u64::MAX ==> t.with(session_id).next == t.next + 1,
        other != session_id ==> t.with(session_id).current(other) == t.current(other),
        t.current(session_id) == Some(generation) ==> t.without(session_id, generation).current(
            session_id,
        ) is None,
        t.current(session_id) != Some(generation) ==> t.without(session_id, generation).current(
            session_id,
        ) == t.current(session_id),
        other != session_id ==> t.without(session_id, generation).current(other) == t.current(
            other,
        ),
        t.without(session_id, generation).next == t.next,
        t.current(other) is Some <==> t.online.dom().contains(other),
        t.current(other) matches Some(g) ==> t.online[other] == g,
{
}

/// The server waits for a ping as long as it was told to; where it was not, three times
/// as long as shared connections are kept alive; and otherwise without end.
pub proof fn waits_as_told(t: ServerTransportView)
    ensures
        t.heartbeat_timeout > 0 ==> ping_timeout(t) == t.heartbeat_timeout,
        ping_timeout(t) > 0 <==> t.heartbeat_timeout > 0 || (t.tcp_mux && t.mux_keepalive_secs > 0),
        t.heartbeat_timeout <= 0 && ping_timeout(t) > 0 ==> (ping_timeout(t) == 3
            * t.mux_keepalive_secs || (ping_timeout(t) == i64::MAX && 3 * t.mux_keepalive_secs
            > i64::MAX)),
        ping_timeout(t) <= 0 ==> ping_timeout(t) == -1,
{
}

/// The domains of a tunnel are listed one behind the other, each with the port of the
/// gateway, parted by commas.
pub proof fn domains_are_listed_in_order(domains: Seq<Seq<char>>, domain: Seq<char>, port: u16)
    ensures
        domain_list(seq![], port).len() == 0,
        domain_list(seq![domain], port) == domain + seq![':'] + decimal(port as nat),
        domains.len() > 0 ==> domain_list(domains.push(domain), port) == domain_list(domains, port)
            + seq![','] + (domain + seq![':'] + decimal(port as nat)),
{
    reveal_strlit("");
    reveal_strlit(":");
    reveal_strlit(",");
    assert(":"@ =~= seq![':']);
    assert(","@ =~= seq![',']);
    assert(domains.push(domain).drop_last() =~= domains);
    assert(domains.push(domain).last() == domain);
    assert(seq![domain].last() == domain);
    assert(domain_list(domains.push(domain), port) == if domains.len() == 0 {
        domain + ":"@ + decimal(port as nat)
    } else {
        domain_list(domains, port) + ","@ + (domain + ":"@ + decimal(port as nat))
    });
}

/// Between two moments lie as many hours as are full, and none where the second is not
/// later.
pub proof fn full_hours_are_counted(from: Moment, to: Moment)
    ensures
        ({
            let hour = 3_600_000_000_000int;
            let passed = to.secs * 1_000_000_000 + to.nanos - (from.secs * 1_000_000_000
                + from.nanos);
            let k = hours_between(from, to);
            &&& passed <= 0 ==> k == 0
            &&& passed > 0 ==> k * hour <= passed < (k + 1) * hour
        }),
{
}

/// A count grows by what is added, up to the largest number that it can hold and down to
/// the smallest, and only for the present hour.
pub proof fn counts_grow_by_what_is_added(c: HourView, delta: i64, i: int)
    requires
        c.counts.len() > 0,
    ensures
        i64::MIN <= c.counts[0] + delta <= i64::MAX ==> c.plus(delta).counts[0] == c.counts[0]
            + delta,
        c.counts[0] + delta > i64::MAX ==> c.plus(delta).counts[0] == i64::MAX,
        c.counts[0] + delta < i64::MIN ==> c.plus(delta).counts[0] == i64::MIN,
        0 < i < c.counts.len() ==> c.plus(delta).counts[i] == c.counts[i],
        c.plus(delta).counts.len() == c.counts.len(),
        c.plus(delta).hour == c.hour,
        held_sum(0, delta) == delta,
{
}

/// The last hours are read newest first, as many as were asked for and are kept; at least
/// the present hour is kept.
pub proof fn last_hours_are_read(c: HourView, hours: usize, i: int)
    ensures
        c.last(hours).len() <= hours && c.last(hours).len() <= c.counts.len(),
        hours <= c.counts.len() ==> c.last(hours).len() == hours,
        hours >= c.counts.len() ==> c.last(hours).len() == c.counts.len(),
        0 <= i < c.last(hours).len() ==> c.last(hours)[i] == c.counts[i],
        hours > 0 ==> kept_hours(hours) == hours,
        kept_hours(0) == 1,
{
}

} // verus!
