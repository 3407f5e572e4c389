//! What a snapshot of the server shows, and how files and times are told.
use vstd::prelude::*;

use crate::dashboard::assets::content_kind;
use crate::dashboard::clock::{
    date_text, days_before_month, days_before_year, days_in_month, is_date, is_leap_year,
    two_digits,
};
use crate::dashboard::snapshot::{
    all_tunnels, client_before, connections, counts_as_online, gone, has_session, of_type,
    online_count, shown_offline, shown_online, shows_clients, tunnel_before, AgentRecord,
    ClientInfo, OnlineClient, TunnelInfo, TunnelState,
};
use crate::order::text_before;
use crate::order::{lemma_text_asym, lemma_text_total};
use crate::text::{digit, ends_with};

verus! {

/// A client that is online stands ahead of one that is not; of two alike the names that
/// are shown decide, and then the sessions. Of two clients that differ in one of these,
/// one stands ahead.
pub proof fn clients_stand_in_order(a: ClientInfo, b: ClientInfo)
    ensures
        a.status@ == "online"@ && b.status@ != "online"@ ==> client_before(a, b) && !client_before(
            b,
            a,
        ),
        (a.status@ == "online"@ <==> b.status@ == "online"@) && a.display_id@ != b.display_id@ ==> (
        client_before(a, b) <==> text_before(a.display_id@, b.display_id@)),
        (a.status@ == "online"@ <==> b.status@ == "online"@) && a.display_id@ == b.display_id@ ==> (
        client_before(a, b) <==> text_before(a.session_id@, b.session_id@)),
        !(client_before(a, b) && client_before(b, a)),
        a.display_id@ != b.display_id@ || a.session_id@ != b.session_id@ ==> client_before(a, b)
            || client_before(b, a),
{
    lemma_text_asym(a.display_id@, b.display_id@);
    lemma_text_asym(a.session_id@, b.session_id@);
    lemma_text_total(a.display_id@, b.display_id@);
    lemma_text_total(a.session_id@, b.session_id@);
}

/// Tunnels stand in the order of their names, and those of one name in that of their
/// sessions.
pub proof fn tunnels_stand_in_order(a: TunnelInfo, b: TunnelInfo)
    ensures
        a.name@ != b.name@ ==> (tunnel_before(a, b) <==> text_before(a.name@, b.name@)),
        a.name@ == b.name@ ==> (tunnel_before(a, b) <==> text_before(
            a.session_id@,
            b.session_id@,
        )),
{
}

/// A client that the server remembers is shown as gone if and only if it is not marked
/// as online and no session under its name is.
pub proof fn remembered_clients_are_shown_once(
    agents: Seq<AgentRecord>,
    online: Seq<OnlineClient>,
    a: AgentRecord,
)
    ensures
        gone(agents, online).contains(a) <==> agents.contains(a) && !a.online && forall|i: int|
            0 <= i < online.len() ==> (#[trigger] online[i]).session_id@ != a.session_id@,
        gone(agents, online).len() <= agents.len(),
    decreases agents.len(),
{
    if agents.len() > 0 {
        let front = gone(agents.drop_last(), online);
        let all = gone(agents, online);
        let last = agents.last();
        remembered_clients_are_shown_once(agents.drop_last(), online, a);
        assert(agents.contains(a) <==> agents.drop_last().contains(a) || last == a) by {
            if agents.contains(a) && last != a {
                let i = choose|i: int| 0 <= i < agents.len() && agents[i] == a;
                assert(agents.drop_last()[i] == a);
            }
            if agents.drop_last().contains(a) {
                let i = choose|i: int| 0 <= i < agents.len() - 1 && agents.drop_last()[i] == a;
                assert(agents[i] == a);
            }
            assert(agents[agents.len() - 1] == last);
        }
        assert(has_session(online, a.session_id@) <==> exists|i: int|
            0 <= i < online.len() && (#[trigger] online[i]).session_id@ == a.session_id@);
        if all.len() > front.len() {
            assert(all.last() == last);
            assert(all.contains(a) <==> front.contains(a) || last == a) by {
                if all.contains(a) && last != a {
                    let i = choose|i: int| 0 <= i < all.len() && all[i] == a;
                    assert(front[i] == a);
                }
                if front.contains(a) {
                    let i = choose|i: int| 0 <= i < front.len() && front[i] == a;
                    assert(all[i] == a);
                }
                assert(all[all.len() - 1] == last);
            }
        }
    }
}

/// Every client in a list of clients is one that is online, shown with the connections
/// of its tunnels, or one that is gone, shown with none; each of these has its place.
pub proof fn lists_show_everyone(
    list: Seq<ClientInfo>,
    online: Seq<OnlineClient>,
    left: Seq<AgentRecord>,
    i: int,
)
    requires
        shows_clients(list, online, left),
        0 <= i < online.len() + left.len(),
    ensures
        list.len() == online.len() + left.len(),
        i < online.len() ==> {
            &&& list[i].status@ == "online"@
            &&& list[i].session_id@ == online[i].session_id@ && list[i].agent_id@
                == online[i].agent_id@ && list[i].display_id@ == online[i].display_id@
                && list[i].user@ == online[i].user@
            &&& list[i].hostname@ == online[i].hostname@ && list[i].os@ == online[i].os@
                && list[i].arch@ == online[i].arch@ && list[i].client_ip@ == online[i].client_ip@
                && list[i].version@ == online[i].version@
            &&& list[i].tunnel_count == online[i].tunnel_count && list[i].connected_secs
                == online[i].connected_secs
            &&& list[i].active_connections == connections(online[i].tunnels@)
        },
        i >= online.len() ==> {
            let a = left[i - online.len()];
            &&& list[i].status@ == "offline"@
            &&& list[i].session_id@ == a.session_id@ && list[i].agent_id@ == a.agent_id@
                && list[i].display_id@ == a.display_id@ && list[i].user@ == a.user@
            &&& list[i].hostname@ == a.hostname@ && list[i].os@ == a.os@ && list[i].arch@ == a.arch@
                && list[i].client_ip@ == a.client_ip@ && list[i].version@ == a.version@
            &&& list[i].tunnel_count == a.tunnel_count && list[i].active_connections == 0
            &&& a.gone_secs matches Some(s) ==> list[i].connected_secs == s
            &&& a.gone_secs is None ==> list[i].connected_secs == 0
        },
{
    if i < online.len() {
        assert(shown_online(online[i], list[i]));
    } else {
        assert(shown_offline(left[i - online.len()], list[online.len() + (i - online.len())]));
    }
}

/// A tunnel is shown with its own name, type, addresses and state and the session's name,
/// and with what was measured of it; of one that was not measured nothing is counted.
pub proof fn tunnels_are_shown_as_they_are(s: TunnelState, session_id: String, info: TunnelInfo)
    requires
        s.shown_as(session_id, info),
    ensures
        info.name@ == s.name@ && info.tunnel_type@ == s.tunnel_type@ && info.remote_addr@
            == s.remote_addr@ && info.local_addr@ == s.local_addr@ && info.status@ == s.status@,
        info.session_id@ == session_id@,
        s.traffic matches Some(t) ==> info.today_traffic_in == t.today_traffic_in
            && info.today_traffic_out == t.today_traffic_out && info.active_connections
            == t.active_connections,
        s.traffic is None ==> info.today_traffic_in == 0 && info.today_traffic_out == 0
            && info.active_connections == 0 && info.last_start_time is None,
        s.traffic is Some && s.traffic->0.last_start_at is None ==> info.last_start_time is None,
{
}

/// One tunnel more adds its own connections, and one to the count of its own type alone;
/// one client more adds its own tunnels behind the others, each under its session.
pub proof fn totals_grow_by_what_comes(
    tunnels: Seq<TunnelState>,
    t: TunnelState,
    all: Seq<(String, TunnelState)>,
    session_id: String,
    tunnel_type: Seq<char>,
    online: Seq<OnlineClient>,
    c: OnlineClient,
    i: int,
)
    ensures
        connections(seq![]) == 0,
        connections(tunnels.push(t)) == connections(tunnels) + (match t.traffic {
            Some(m) => m.active_connections as int,
            None => 0,
        }),
        of_type(seq![], tunnel_type) == 0,
        of_type(all.push((session_id, t)), tunnel_type) == of_type(all, tunnel_type) + (if tunnel_type
            == t.tunnel_type@ {
            1int
        } else {
            0int
        }),
        all_tunnels(seq![]).len() == 0,
        all_tunnels(online.push(c)).len() == all_tunnels(online).len() + c.tunnels@.len(),
        0 <= i < all_tunnels(online).len() ==> all_tunnels(online.push(c))[i] == all_tunnels(
            online,
        )[i],
        0 <= i < c.tunnels@.len() ==> all_tunnels(online.push(c))[all_tunnels(online).len() + i]
            == (c.session_id, c.tunnels@[i]),
{
    assert(tunnels.push(t).drop_last() =~= tunnels);
    assert(all.push((session_id, t)).drop_last() =~= all);
    assert(online.push(c).drop_last() =~= online);
    assert(online.push(c).last() == c);
    assert(tunnels.push(t).last() == t);
    assert(all.push((session_id, t)).last() == (session_id, t));
}

/// Those clients count as online that are shown as such or without a state; each counts
/// once.
pub proof fn online_clients_are_counted(list: Seq<ClientInfo>, c: ClientInfo)
    ensures
        online_count(seq![]) == 0,
        online_count(list.push(c)) == online_count(list) + (if c.status@ == "online"@
            || c.status@.len() == 0 {
            1int
        } else {
            0int
        }),
        counts_as_online(c) <==> c.status@ == "online"@ || c.status@.len() == 0,
{
    assert(list.push(c).drop_last() =~= list);
    assert(list.push(c).last() == c);
}

/// The calendar: the first day is the first of January 1970, the day behind a day of a
/// month is the next of that month or the first of the next one, and every year holds 365
/// days, or 366 where it is a leap year.
pub proof fn days_follow_one_another(day: int, year: int, month: int, dom: int)
    ensures
        is_date(0, 1970, 1, 1),
        is_date(day, year, month, dom) && dom < days_in_month(year, month) ==> is_date(
            day + 1,
            year,
            month,
            dom + 1,
        ),
        is_date(day, year, month, dom) && dom == days_in_month(year, month) && month < 12
            ==> is_date(day + 1, year, month + 1, 1),
        is_date(day, year, month, dom) && dom == days_in_month(year, month) && month == 12
            ==> is_date(day + 1, year + 1, 1, 1),
        days_before_year(year + 1) - days_before_year(year) == (if year % 4 == 0 && (year % 100 != 0
            || year % 400 == 0) {
            366int
        } else {
            365int
        }),
        days_before_month(year, 13) == days_before_year(year + 1) - days_before_year(year),
{
    reveal_with_fuel(days_before_month, 14);
    assert(days_before_year(year + 1) - days_before_year(year) == (if is_leap_year(year) {
        366int
    } else {
        365int
    }));
}

/// Of the twelve months seven have 31 days, four have 30, and February has 28 or, in a
/// leap year, 29.
pub proof fn months_have_their_days(year: int)
    ensures
        forall|m: int|
            m == 1 || m == 3 || m == 5 || m == 7 || m == 8 || m == 10 || m == 12
                ==> #[trigger] days_in_month(year, m) == 31,
        forall|m: int|
            m == 4 || m == 6 || m == 9 || m == 11 ==> #[trigger] days_in_month(year, m) == 30,
        year % 400 == 0 ==> days_in_month(year, 2) == 29,
        year % 100 == 0 && year % 400 != 0 ==> days_in_month(year, 2) == 28,
        year % 100 != 0 && year % 4 == 0 ==> days_in_month(year, 2) == 29,
        year % 4 != 0 ==> days_in_month(year, 2) == 28,
{
}

/// A time is told as month and day, then hour, minute and second, with two digits each.
pub proof fn times_are_told_with_two_digits(month: int, dom: int, wall: int)
    requires
        1 <= month <= 12,
        1 <= dom <= 31,
    ensures
        ({
            let s = date_text(month, dom, wall);
            &&& s.len() == 14
            &&& s[2] == '-' && s[5] == ' ' && s[8] == ':' && s[11] == ':'
            &&& s[0] == digit((month / 10) as nat) && s[1] == digit((month % 10) as nat)
            &&& s[3] == digit((dom / 10) as nat) && s[4] == digit((dom % 10) as nat)
            &&& s[6] == digit((wall / 3600 % 24 / 10) as nat) && s[7] == digit(
                (wall / 3600 % 24 % 10) as nat,
            )
            &&& s[9] == digit((wall / 60 % 60 / 10) as nat) && s[10] == digit(
                (wall / 60 % 60 % 10) as nat,
            )
            &&& s[12] == digit((wall % 60 / 10) as nat) && s[13] == digit((wall % 60 % 10) as nat)
        }),
{
    reveal_strlit("-");
    reveal_strlit(" ");
    reveal_strlit(":");
    assert(wall % 86_400 / 3600 == wall / 3600 % 24);
    assert(wall % 3600 / 60 == wall / 60 % 60);
    assert(two_digits(month).len() == 2);
}

/// A file is told to be of the kind that its ending names, and one with another ending to
/// be bytes.
pub proof fn files_are_of_the_kind_they_end_in(stem: Seq<char>)
    ensures
        content_kind(stem + ".js"@) == "application/javascript; charset=utf-8"@,
        content_kind(stem + ".mjs"@) == "application/javascript; charset=utf-8"@,
        content_kind(stem + ".css"@) == "text/css; charset=utf-8"@,
        content_kind(stem + ".html"@) == "text/html; charset=utf-8"@,
        content_kind(stem + ".svg"@) == "image/svg+xml"@,
        content_kind(stem + ".png"@) == "image/png"@,
        content_kind(stem + ".ico"@) == "image/x-icon"@,
        content_kind(stem + ".woff2"@) == "font/woff2"@,
        content_kind(stem + ".map"@) == "application/json"@,
        content_kind(stem + ".txt"@) == "application/octet-stream"@,
{
    reveal_strlit(".js");
    reveal_strlit(".mjs");
    reveal_strlit(".css");
    reveal_strlit(".html");
    reveal_strlit(".svg");
    reveal_strlit(".png");
    reveal_strlit(".ico");
    reveal_strlit(".woff2");
    reveal_strlit(".map");
    reveal_strlit(".txt");
    lemma_ending(stem, ".js"@);
    lemma_last_two(stem + ".js"@);
    lemma_ending(stem, ".mjs"@);
    lemma_last_two(stem + ".mjs"@);
    lemma_ending(stem, ".css"@);
    lemma_last_two(stem + ".css"@);
    lemma_ending(stem, ".html"@);
    lemma_last_two(stem + ".html"@);
    lemma_ending(stem, ".svg"@);
    lemma_last_two(stem + ".svg"@);
    lemma_ending(stem, ".png"@);
    lemma_last_two(stem + ".png"@);
    lemma_ending(stem, ".ico"@);
    lemma_last_two(stem + ".ico"@);
    lemma_ending(stem, ".woff2"@);
    lemma_last_two(stem + ".woff2"@);
    lemma_ending(stem, ".map"@);
    lemma_last_two(stem + ".map"@);
    lemma_ending(stem, ".txt"@);
    lemma_last_two(stem + ".txt"@);
}

/// The last two characters of a text that ends in one of the endings are those of the
/// ending.
proof fn lemma_last_two(s: Seq<char>)
    requires
        s.len() >= 2,
    ensures
        ends_with(s, ".js"@) ==> s[s.len() - 2] == 'j' && s[s.len() - 1] == 's',
        ends_with(s, ".mjs"@) ==> s[s.len() - 2] == 'j' && s[s.len() - 1] == 's',
        ends_with(s, ".css"@) ==> s[s.len() - 2] == 's' && s[s.len() - 1] == 's',
        ends_with(s, ".html"@) ==> s[s.len() - 2] == 'm' && s[s.len() - 1] == 'l',
        ends_with(s, ".svg"@) ==> s[s.len() - 2] == 'v' && s[s.len() - 1] == 'g',
        ends_with(s, ".png"@) ==> s[s.len() - 2] == 'n' && s[s.len() - 1] == 'g',
        ends_with(s, ".ico"@) ==> s[s.len() - 2] == 'c' && s[s.len() - 1] == 'o',
        ends_with(s, ".woff2"@) ==> s[s.len() - 2] == 'f' && s[s.len() - 1] == '2',
        ends_with(s, ".map"@) ==> s[s.len() - 2] == 'a' && s[s.len() - 1] == 'p',
{
    reveal_strlit(".js");
    reveal_strlit(".mjs");
    reveal_strlit(".css");
    reveal_strlit(".html");
    reveal_strlit(".svg");
    reveal_strlit(".png");
    reveal_strlit(".ico");
    reveal_strlit(".woff2");
    reveal_strlit(".map");
    lemma_tail_chars(s, ".js"@);
    lemma_tail_chars(s, ".mjs"@);
    lemma_tail_chars(s, ".css"@);
    lemma_tail_chars(s, ".html"@);
    lemma_tail_chars(s, ".svg"@);
    lemma_tail_chars(s, ".png"@);
    lemma_tail_chars(s, ".ico"@);
    lemma_tail_chars(s, ".woff2"@);
    lemma_tail_chars(s, ".map"@);
}

proof fn lemma_tail_chars(s: Seq<char>, tail: Seq<char>)
    requires
        tail.len() >= 2,
    ensures
        ends_with(s, tail) ==> s[s.len() - 2] == tail[tail.len() - 2] && s[s.len() - 1]
            == tail[tail.len() - 1],
{
    if ends_with(s, tail) {
        let t = s.skip(s.len() - tail.len());
        assert(t[tail.len() - 2] == s[s.len() - 2]);
        assert(t[tail.len() - 1] == s[s.len() - 1]);
    }
}

/// A text ends in what was put behind it.
proof fn lemma_ending(stem: Seq<char>, tail: Seq<char>)
    requires
        tail.len() >= 2,
    ensures
        ends_with(stem + tail, tail),
        (stem + tail).len() >= 2,
        (stem + tail)[(stem + tail).len() - 2] == tail[tail.len() - 2],
        (stem + tail)[(stem + tail).len() - 1] == tail[tail.len() - 1],
{
    let s = stem + tail;
    assert(s.skip(s.len() - tail.len()) =~= tail);
}

} // verus!
