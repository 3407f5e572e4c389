//! The clients and the tunnels of a server at one time.
use vstd::prelude::*;
use vstd::string::*;

use crate::dashboard::clock::time_shown;
use crate::dashboard::clock::format_tunnel_time;
use crate::order::{is_ordered, text_before, Ordered};
use crate::order::{comes_before, put_in_order};
use crate::order::{lemma_text_asym, lemma_text_between, lemma_text_total};
use crate::text::same;

verus! {

/// A client as it is shown.
#[derive(Debug)]
pub struct ClientInfo {
    pub session_id: String,
    pub agent_id: String,
    /// The name under which it is listed.
    pub display_id: String,
    pub user: String,
    pub hostname: String,
    pub os: String,
    pub arch: String,
    pub client_ip: String,
    pub version: String,
    pub tunnel_count: usize,
    pub active_connections: usize,
    pub connected_secs: u64,
    pub status: String,
}

/// A tunnel as it is shown.
#[derive(Debug)]
pub struct TunnelInfo {
    pub name: String,
    pub tunnel_type: String,
    pub remote_addr: String,
    pub local_addr: String,
    pub session_id: String,
    pub status: String,
    pub today_traffic_in: u64,
    pub today_traffic_out: u64,
    pub active_connections: usize,
    pub last_start_time: Option<String>,
}

impl ClientInfo {
    pub open spec fn online(self) -> bool {
        self.status@ == "online"@
    }
}

/// Those that are online come first; then the names under which clients are listed
/// count, then their sessions.
pub open spec fn client_before(a: ClientInfo, b: ClientInfo) -> bool {
    if a.online() != b.online() {
        a.online()
    } else if a.display_id@ != b.display_id@ {
        text_before(a.display_id@, b.display_id@)
    } else {
        text_before(a.session_id@, b.session_id@)
    }
}

impl Ordered for ClientInfo {
    open spec fn before(self, other: Self) -> bool {
        client_before(self, other)
    }

    proof fn lemma_asym(a: Self, b: Self) {
        lemma_text_asym(a.display_id@, b.display_id@);
        lemma_text_asym(a.session_id@, b.session_id@);
    }

    proof fn lemma_between(a: Self, b: Self, c: Self) {
        if a.online() == b.online() && b.online() == c.online() {
            lemma_pairs_between(
                (a.display_id@, a.session_id@),
                (b.display_id@, b.session_id@),
                (c.display_id@, c.session_id@),
            );
        }
    }

    fn is_before(&self, other: &Self) -> (r: bool) {
        let a = same(self.status.as_str(), "online");
        let b = same(other.status.as_str(), "online");
        if a != b {
            a
        } else if !same(self.display_id.as_str(), other.display_id.as_str()) {
            comes_before(self.display_id.as_str(), other.display_id.as_str())
        } else {
            comes_before(self.session_id.as_str(), other.session_id.as_str())
        }
    }
}

/// The names of tunnels count, then their sessions.
pub open spec fn tunnel_before(a: TunnelInfo, b: TunnelInfo) -> bool {
    pair_before((a.name@, a.session_id@), (b.name@, b.session_id@))
}

/// Two texts before two others: the first ones count, then the second ones.
pub open spec fn pair_before(a: (Seq<char>, Seq<char>), b: (Seq<char>, Seq<char>)) -> bool {
    if a.0 != b.0 {
        text_before(a.0, b.0)
    } else {
        text_before(a.1, b.1)
    }
}

proof fn lemma_pairs_between(
    a: (Seq<char>, Seq<char>),
    b: (Seq<char>, Seq<char>),
    c: (Seq<char>, Seq<char>),
)
    requires
        pair_before(a, c),
    ensures
        pair_before(a, b) || pair_before(b, c),
{
    lemma_text_total(a.0, b.0);
    lemma_text_total(b.0, c.0);
    lemma_text_asym(a.0, c.0);
    lemma_text_asym(a.0, b.0);
    lemma_text_asym(b.0, c.0);
    if a.0 != c.0 {
        lemma_text_between(a.0, b.0, c.0);
    } else if a.0 == b.0 {
        lemma_text_between(a.1, b.1, c.1);
    }
}

impl Ordered for TunnelInfo {
    open spec fn before(self, other: Self) -> bool {
        tunnel_before(self, other)
    }

    proof fn lemma_asym(a: Self, b: Self) {
        lemma_text_asym(a.name@, b.name@);
        lemma_text_asym(a.session_id@, b.session_id@);
    }

    proof fn lemma_between(a: Self, b: Self, c: Self) {
        lemma_pairs_between(
            (a.name@, a.session_id@),
            (b.name@, b.session_id@),
            (c.name@, c.session_id@),
        );
    }

    fn is_before(&self, other: &Self) -> (r: bool) {
        if !same(self.name.as_str(), other.name.as_str()) {
            comes_before(self.name.as_str(), other.name.as_str())
        } else {
            comes_before(self.session_id.as_str(), other.session_id.as_str())
        }
    }
}

/// What was measured of a tunnel.
#[derive(Debug, Clone, Copy, PartialEq, Eq, Structural)]
pub struct TunnelTraffic {
    pub today_traffic_in: u64,
    pub today_traffic_out: u64,
    pub active_connections: usize,
    pub last_start_at: Option<i64>,
}

/// A tunnel of a session, and what was measured of it.
#[derive(Debug)]
pub struct TunnelState {
    pub name: String,
    pub tunnel_type: String,
    pub remote_addr: String,
    pub local_addr: String,
    pub status: String,
    pub traffic: Option<TunnelTraffic>,
}

/// A session that is online.
#[derive(Debug)]
pub struct OnlineClient {
    pub session_id: String,
    pub agent_id: String,
    pub display_id: String,
    pub user: String,
    pub hostname: String,
    pub os: String,
    pub arch: String,
    pub client_ip: String,
    pub version: String,
    pub connected_secs: u64,
    pub tunnel_count: usize,
    pub tunnels: Vec<TunnelState>,
}

/// A client that the server remembers.
#[derive(Debug)]
pub struct AgentRecord {
    pub online: bool,
    pub session_id: String,
    pub agent_id: String,
    pub display_id: String,
    pub user: String,
    pub hostname: String,
    pub os: String,
    pub arch: String,
    pub client_ip: String,
    pub version: String,
    pub tunnel_count: usize,
    /// How long it has been gone, where that is known.
    pub gone_secs: Option<u64>,
}

/// What was measured of the whole server.
#[derive(Debug, Clone, Copy, PartialEq, Eq, Structural)]
pub struct ServerTraffic {
    pub active_connections: usize,
    pub total_traffic_in: u64,
    pub total_traffic_out: u64,
}

/// The clients and the tunnels of a server at one time.
#[derive(Debug)]
pub struct DashboardSnapshot {
    pub clients: Vec<ClientInfo>,
    pub tunnels: Vec<TunnelInfo>,
    /// How many tunnels there are of each type, by the names of the types.
    pub tunnel_type_count: Vec<(String, usize)>,
    pub active_connections: usize,
    pub total_client_counts: usize,
    pub total_traffic_in: u64,
    pub total_traffic_out: u64,
}

impl TunnelState {
    /// How many connections run through it.
    pub open spec fn connections(self) -> usize {
        match self.traffic {
            Some(t) => t.active_connections,
            None => 0,
        }
    }

    /// Whether this is how it is shown, as a tunnel of a session.
    pub open spec fn shown_as(self, session_id: String, info: TunnelInfo) -> bool {
        &&& info.name == self.name
        &&& info.tunnel_type == self.tunnel_type
        &&& info.remote_addr == self.remote_addr
        &&& info.local_addr == self.local_addr
        &&& info.session_id == session_id
        &&& info.status == self.status
        &&& info.today_traffic_in == (match self.traffic {
            Some(t) => t.today_traffic_in,
            None => 0,
        })
        &&& info.today_traffic_out == (match self.traffic {
            Some(t) => t.today_traffic_out,
            None => 0,
        })
        &&& info.active_connections == self.connections()
        &&& time_shown(
            match self.traffic {
                Some(t) => t.last_start_at,
                None => None,
            },
            info.last_start_time,
        )
    }
}

/// How many connections run through some tunnels.
pub open spec fn connections(tunnels: Seq<TunnelState>) -> nat
    decreases tunnels.len(),
{
    if tunnels.len() == 0 {
        0
    } else {
        connections(tunnels.drop_last()) + tunnels.last().connections() as nat
    }
}

/// How a client that is online is shown.
pub open spec fn shown_online(c: OnlineClient, info: ClientInfo) -> bool {
    &&& info.session_id == c.session_id
    &&& info.agent_id == c.agent_id
    &&& info.display_id == c.display_id
    &&& info.user == c.user
    &&& info.hostname == c.hostname
    &&& info.os == c.os
    &&& info.arch == c.arch
    &&& info.client_ip == c.client_ip
    &&& info.version == c.version
    &&& info.tunnel_count == c.tunnel_count
    &&& info.active_connections == connections(c.tunnels@)
    &&& info.connected_secs == c.connected_secs
    &&& info.status@ == "online"@
}

/// How a client that is gone is shown.
pub open spec fn shown_offline(a: AgentRecord, info: ClientInfo) -> bool {
    &&& info.session_id == a.session_id
    &&& info.agent_id == a.agent_id
    &&& info.display_id == a.display_id
    &&& info.user == a.user
    &&& info.hostname == a.hostname
    &&& info.os == a.os
    &&& info.arch == a.arch
    &&& info.client_ip == a.client_ip
    &&& info.version == a.version
    &&& info.tunnel_count == a.tunnel_count
    &&& info.active_connections == 0
    &&& info.connected_secs == (match a.gone_secs {
        Some(s) => s,
        None => 0,
    })
    &&& info.status@ == "offline"@
}

/// Whether a session is online.
pub open spec fn has_session(online: Seq<OnlineClient>, session_id: Seq<char>) -> bool {
    exists|i: int| 0 <= i < online.len() && (#[trigger] online[i]).session_id@ == session_id
}

/// The clients that are gone: those that are remembered and not online.
pub open spec fn gone(agents: Seq<AgentRecord>, online: Seq<OnlineClient>) -> Seq<AgentRecord>
    decreases agents.len(),
{
    if agents.len() == 0 {
        seq![]
    } else {
        let front = gone(agents.drop_last(), online);
        let a = agents.last();
        if a.online || has_session(online, a.session_id@) {
            front
        } else {
            front.push(a)
        }
    }
}

/// Whether a list shows the clients that are online, and then those that are gone.
pub open spec fn shows_clients(
    list: Seq<ClientInfo>,
    online: Seq<OnlineClient>,
    left: Seq<AgentRecord>,
) -> bool {
    &&& list.len() == online.len() + left.len()
    &&& forall|i: int| 0 <= i < online.len() ==> shown_online(#[trigger] online[i], list[i])
    &&& forall|i: int|
        0 <= i < left.len() ==> shown_offline(#[trigger] left[i], list[online.len() + i])
}

/// The tunnels of all sessions, each with its session, one session after another.
pub open spec fn all_tunnels(online: Seq<OnlineClient>) -> Seq<(String, TunnelState)>
    decreases online.len(),
{
    if online.len() == 0 {
        seq![]
    } else {
        let c = online.last();
        all_tunnels(online.drop_last()) + Seq::new(
            c.tunnels@.len(),
            |i: int| (c.session_id, c.tunnels@[i]),
        )
    }
}

/// Whether a list shows these tunnels.
pub open spec fn shows_tunnels(list: Seq<TunnelInfo>, all: Seq<(String, TunnelState)>) -> bool {
    &&& list.len() == all.len()
    &&& forall|i: int|
        0 <= i < all.len() ==> (#[trigger] all[i]).1.shown_as(all[i].0, list[i])
}

/// How many of some tunnels are of a type.
pub open spec fn of_type(all: Seq<(String, TunnelState)>, tunnel_type: Seq<char>) -> nat
    decreases all.len(),
{
    if all.len() == 0 {
        0
    } else {
        of_type(all.drop_last(), tunnel_type) + (if all.last().1.tunnel_type@ == tunnel_type {
            1nat
        } else {
            0nat
        })
    }
}

/// Whether a list counts the tunnels of each type that occurs, by the names of the
/// types.
pub open spec fn counts_types(list: Seq<(String, usize)>, all: Seq<(String, TunnelState)>) -> bool {
    &&& forall|i: int, j: int|
        0 <= i < j < list.len() ==> text_before(
            (#[trigger] list[i]).0@,
            (#[trigger] list[j]).0@,
        )
    &&& forall|i: int|
        0 <= i < list.len() ==> (#[trigger] list[i]).1 > 0 && list[i].1 == of_type(
            all,
            list[i].0@,
        )
    &&& forall|t: Seq<char>| #[trigger]
        of_type(all, t) > 0 ==> exists|i: int|
            0 <= i < list.len() && (#[trigger] list[i]).0@ == t
}

proof fn lemma_of_type_bound(all: Seq<(String, TunnelState)>, t: Seq<char>)
    ensures
        of_type(all, t) <= all.len(),
    decreases all.len(),
{
    if all.len() > 0 {
        lemma_of_type_bound(all.drop_last(), t);
    }
}

/// Counts one more tunnel of a type.
fn count_type(list: &mut Vec<(String, usize)>, s: &TunnelState, Ghost(entry): Ghost<(String, TunnelState)>, Ghost(all): Ghost<Seq<(String, TunnelState)>>)
    requires
        counts_types(old(list)@, all),
        entry.1 == *s,
        all.len() < usize::MAX,
    ensures
        counts_types(final(list)@, all.push(entry)),
{
    let ghost before = list@;
    let ghost next = all.push(entry);
    let ghost t = s.tunnel_type@;
    proof {
        assert(next.drop_last() =~= all);
        assert forall|u: Seq<char>| #[trigger] of_type(next, u) == of_type(all, u) + (if u == t {
            1nat
        } else {
            0nat
        }) by {}
        lemma_of_type_bound(all, t);
    }
    let n: usize = list.len();
    let mut at: usize = 0;
    while at < n && comes_before(list[at].0.as_str(), s.tunnel_type.as_str())
        invariant
            at <= n,
            n == list@.len(),
            list@ == before,
            t == s.tunnel_type@,
            forall|j: int| 0 <= j < at ==> text_before((#[trigger] before[j]).0@, t),
        decreases n - at,
    {
        at += 1;
    }
    if at < n && !comes_before(s.tunnel_type.as_str(), list[at].0.as_str()) {
        proof {
            lemma_text_total(before[at as int].0@, t);
        }
        let name = list[at].0.clone();
        let count: usize = list[at].1;
        assert(count == of_type(all, t));
        list.set(at, (name, count + 1));
        proof {
            let after = list@;
            assert forall|i: int| 0 <= i < after.len() implies (#[trigger] after[i]).1 > 0
                && after[i].1 == of_type(next, after[i].0@) by {
                if i != at {
                    assert(after[i] == before[i]);
                    if before[i].0@ == t {
                        lemma_text_asym(t, t);
                        if i < at {
                            assert(text_before(before[i].0@, before[at as int].0@));
                        } else {
                            assert(text_before(before[at as int].0@, before[i].0@));
                        }
                    }
                }
            }
            assert forall|i: int, j: int| 0 <= i < j < after.len() implies text_before(
                (#[trigger] after[i]).0@,
                (#[trigger] after[j]).0@,
            ) by {
                assert(after[i].0@ == before[i].0@);
                assert(after[j].0@ == before[j].0@);
            }
            assert forall|u: Seq<char>| #[trigger] of_type(next, u) > 0 implies exists|i: int|
                0 <= i < after.len() && (#[trigger] after[i]).0@ == u by {
                if u == t {
                    assert(after[at as int].0@ == u);
                } else {
                    assert(of_type(all, u) > 0);
                    let i = choose|i: int| 0 <= i < before.len() && (#[trigger] before[i]).0@ == u;
                    assert(after[i].0@ == u);
                }
            }
        }
        return;
    }
    proof {
        assert forall|i: int| 0 <= i < before.len() implies (#[trigger] before[i]).0@ != t by {
            lemma_text_asym(t, t);
            if i < at {
                assert(text_before(before[i].0@, t));
            } else {
                assert(text_before(t, before[at as int].0@));
                if i > at {
                    assert(text_before(before[at as int].0@, before[i].0@));
                    lemma_text_asym(t, before[at as int].0@);
                }
            }
        }
        if of_type(all, t) > 0 {
            let i = choose|i: int| 0 <= i < before.len() && (#[trigger] before[i]).0@ == t;
            assert(before[i].0@ != t);
        }
    }
    list.insert(at, (s.tunnel_type.clone(), 1));
    proof {
        let after = list@;
        assert forall|i: int, j: int| 0 <= i < j < after.len() implies text_before(
            (#[trigger] after[i]).0@,
            (#[trigger] after[j]).0@,
        ) by {
            let i2 = if i < at { i } else { i - 1 };
            let j2 = if j < at { j } else { j - 1 };
            if i != at && j != at {
                assert(after[i] == before[i2]);
                assert(after[j] == before[j2]);
                assert(text_before(before[i2].0@, before[j2].0@));
            } else if i == at {
                assert(after[j] == before[j2]);
                assert(text_before(t, before[at as int].0@));
                if j2 > at {
                    assert(text_before(before[at as int].0@, before[j2].0@));
                    lemma_text_between(before[at as int].0@, t, before[j2].0@);
                    lemma_text_asym(t, before[at as int].0@);
                }
            } else {
                assert(after[i] == before[i]);
            }
        }
        assert forall|i: int| 0 <= i < after.len() implies (#[trigger] after[i]).1 > 0
            && after[i].1 == of_type(next, after[i].0@) by {
            let i2 = if i < at { i } else { i - 1 };
            if i != at {
                assert(after[i] == before[i2]);
            }
        }
        assert forall|u: Seq<char>| #[trigger] of_type(next, u) > 0 implies exists|i: int|
            0 <= i < after.len() && (#[trigger] after[i]).0@ == u by {
            if u == t {
                assert(after[at as int].0@ == u);
            } else {
                assert(of_type(all, u) > 0);
                let i = choose|i: int| 0 <= i < before.len() && (#[trigger] before[i]).0@ == u;
                let i2 = if i < at { i } else { i + 1 };
                assert(after[i2] == before[i]);
            }
        }
    }
}

fn tunnel_info(s: &TunnelState, session_id: &String) -> (r: TunnelInfo)
    ensures
        s.shown_as(*session_id, r),
{
    let (traffic_in, traffic_out, conns, started): (u64, u64, usize, Option<i64>) = match s.traffic {
        Some(t) => (t.today_traffic_in, t.today_traffic_out, t.active_connections, t.last_start_at),
        None => (0, 0, 0, None),
    };
    TunnelInfo {
        name: s.name.clone(),
        tunnel_type: s.tunnel_type.clone(),
        remote_addr: s.remote_addr.clone(),
        local_addr: s.local_addr.clone(),
        session_id: session_id.clone(),
        status: s.status.clone(),
        today_traffic_in: traffic_in,
        today_traffic_out: traffic_out,
        active_connections: conns,
        last_start_time: format_tunnel_time(started),
    }
}

fn online_info(c: &OnlineClient, active_connections: usize) -> (r: ClientInfo)
    requires
        active_connections == connections(c.tunnels@),
    ensures
        shown_online(*c, r),
{
    ClientInfo {
        session_id: c.session_id.clone(),
        agent_id: c.agent_id.clone(),
        display_id: c.display_id.clone(),
        user: c.user.clone(),
        hostname: c.hostname.clone(),
        os: c.os.clone(),
        arch: c.arch.clone(),
        client_ip: c.client_ip.clone(),
        version: c.version.clone(),
        tunnel_count: c.tunnel_count,
        active_connections,
        connected_secs: c.connected_secs,
        status: "online".to_owned(),
    }
}

fn offline_info(a: &AgentRecord) -> (r: ClientInfo)
    ensures
        shown_offline(*a, r),
{
    ClientInfo {
        session_id: a.session_id.clone(),
        agent_id: a.agent_id.clone(),
        display_id: a.display_id.clone(),
        user: a.user.clone(),
        hostname: a.hostname.clone(),
        os: a.os.clone(),
        arch: a.arch.clone(),
        client_ip: a.client_ip.clone(),
        version: a.version.clone(),
        tunnel_count: a.tunnel_count,
        active_connections: 0,
        connected_secs: match a.gone_secs {
            Some(s) => s,
            None => 0,
        },
        status: "offline".to_owned(),
    }
}

fn is_online(online: &Vec<OnlineClient>, session_id: &str) -> (r: bool)
    ensures
        r == has_session(online@, session_id@),
{
    let n: usize = online.len();
    let mut i: usize = 0;
    while i < n
        invariant
            i <= n,
            n == online@.len(),
            forall|j: int| 0 <= j < i ==> (#[trigger] online@[j]).session_id@ != session_id@,
        decreases n - i,
    {
        if same(online[i].session_id.as_str(), session_id) {
            return true;
        }
        i += 1;
    }
    false
}

/// Whether the connections of every session can be counted.
pub open spec fn countable(online: Seq<OnlineClient>) -> bool {
    &&& forall|i: int|
        0 <= i < online.len() ==> connections((#[trigger] online[i]).tunnels@) <= usize::MAX
    &&& all_tunnels(online).len() < usize::MAX
}

proof fn lemma_connections_grow(t: Seq<TunnelState>, k: int)
    requires
        0 <= k <= t.len(),
    ensures
        connections(t.take(k)) <= connections(t),
    decreases t.len() - k,
{
    if k < t.len() {
        lemma_connections_grow(t, k + 1);
        assert(t.take(k + 1).drop_last() =~= t.take(k));
    } else {
        assert(t.take(k) =~= t);
    }
}

proof fn lemma_tunnels_grow(online: Seq<OnlineClient>, k: int)
    requires
        0 <= k <= online.len(),
    ensures
        all_tunnels(online.take(k)).len() <= all_tunnels(online).len(),
    decreases online.len() - k,
{
    if k < online.len() {
        lemma_tunnels_grow(online, k + 1);
        assert(online.take(k + 1).drop_last() =~= online.take(k));
    } else {
        assert(online.take(k) =~= online);
    }
}

/// The clients, the tunnels and the types of tunnels, before they are brought into
/// order.
struct Gathered {
    clients: Vec<ClientInfo>,
    tunnels: Vec<TunnelInfo>,
    types: Vec<(String, usize)>,
}

fn gather(online: &Vec<OnlineClient>, agents: &Vec<AgentRecord>) -> (r: Gathered)
    requires
        countable(online@),
    ensures
        shows_clients(r.clients@, online@, gone(agents@, online@)),
        shows_tunnels(r.tunnels@, all_tunnels(online@)),
        counts_types(r.types@, all_tunnels(online@)),
{
    let mut clients: Vec<ClientInfo> = Vec::new();
    let mut tunnels: Vec<TunnelInfo> = Vec::new();
    let mut types: Vec<(String, usize)> = Vec::new();
    let n: usize = online.len();
    let mut i: usize = 0;
    assert(online@.take(0) =~= seq![]);
    while i < n
        invariant
            i <= n,
            n == online@.len(),
            countable(online@),
            clients@.len() == i,
            forall|j: int| 0 <= j < i ==> shown_online(#[trigger] online@[j], clients@[j]),
            shows_tunnels(tunnels@, all_tunnels(online@.take(i as int))),
            counts_types(types@, all_tunnels(online@.take(i as int))),
        decreases n - i,
    {
        let c = &online[i];
        let ghost base = all_tunnels(online@.take(i as int));
        let ghost mine = Seq::new(c.tunnels@.len(), |k: int| (c.session_id, c.tunnels@[k]));
        proof {
            assert(online@.take(i + 1).drop_last() =~= online@.take(i as int));
            assert(all_tunnels(online@.take(i + 1)) == base + mine);
            lemma_tunnels_grow(online@, i + 1);
            assert(connections(online@[i as int].tunnels@) <= usize::MAX);
        }
        let m: usize = c.tunnels.len();
        let mut active: usize = 0;
        let mut k: usize = 0;
        assert(base + mine.take(0) =~= base);
        assert(c.tunnels@.take(0) =~= seq![]);
        while k < m
            invariant
                k <= m,
                m == c.tunnels@.len(),
                mine == Seq::new(c.tunnels@.len(), |k: int| (c.session_id, c.tunnels@[k])),
                (base + mine).len() < usize::MAX,
                connections(c.tunnels@) <= usize::MAX,
                active == connections(c.tunnels@.take(k as int)),
                shows_tunnels(tunnels@, base + mine.take(k as int)),
                counts_types(types@, base + mine.take(k as int)),
            decreases m - k,
        {
            let s = &c.tunnels[k];
            let ghost now = base + mine.take(k as int);
            proof {
                lemma_connections_grow(c.tunnels@, k + 1);
                assert(c.tunnels@.take(k + 1).drop_last() =~= c.tunnels@.take(k as int));
                assert(now.push(mine[k as int]) =~= base + mine.take(k + 1));
            }
            count_type(&mut types, s, Ghost(mine[k as int]), Ghost(now));
            let conns: usize = match s.traffic {
                Some(t) => t.active_connections,
                None => 0,
            };
            active = active + conns;
            let ghost shown_before = tunnels@;
            tunnels.push(tunnel_info(s, &c.session_id));
            proof {
                let next = base + mine.take(k + 1);
                assert forall|j: int| 0 <= j < next.len() implies (#[trigger] next[j]).1.shown_as(
                    next[j].0,
                    tunnels@[j],
                ) by {
                    if j < now.len() {
                        assert(next[j] == now[j]);
                        assert(tunnels@[j] == shown_before[j]);
                    } else {
                        assert(next[j] == mine[k as int]);
                    }
                }
            }
            k += 1;
        }
        assert(mine.take(k as int) =~= mine);
        assert(c.tunnels@.take(k as int) =~= c.tunnels@);
        clients.push(online_info(c, active));
        i += 1;
    }
    assert(online@.take(i as int) =~= online@);
    let ghost first = clients@;
    let na: usize = agents.len();
    let mut a: usize = 0;
    assert(agents@.take(0) =~= seq![]);
    while a < na
        invariant
            a <= na,
            na == agents@.len(),
            shows_clients(clients@, online@, gone(agents@.take(a as int), online@)),
        decreases na - a,
    {
        let rec = &agents[a];
        let ghost left = gone(agents@.take(a as int), online@);
        let ghost before = clients@;
        assert(agents@.take(a + 1).drop_last() =~= agents@.take(a as int));
        if !(rec.online || is_online(online, rec.session_id.as_str())) {
            clients.push(offline_info(rec));
            proof {
                let next = left.push(*rec);
                assert forall|j: int| 0 <= j < next.len() implies shown_offline(
                    #[trigger] next[j],
                    clients@[online@.len() + j],
                ) by {
                    if j < left.len() {
                        assert(next[j] == left[j]);
                        assert(clients@[online@.len() + j] == before[online@.len() + j]);
                    }
                }
                assert forall|j: int| 0 <= j < online@.len() implies shown_online(
                    #[trigger] online@[j],
                    clients@[j],
                ) by {
                    assert(clients@[j] == before[j]);
                }
            }
        }
        a += 1;
    }
    assert(agents@.take(a as int) =~= agents@);
    Gathered { clients, tunnels, types }
}

/// Shows the clients and the tunnels of a server: everybody who is online and
/// everybody who is gone, and every tunnel, each list in its order.
pub fn dashboard_snapshot(
    online: &Vec<OnlineClient>,
    agents: &Vec<AgentRecord>,
    stats: ServerTraffic,
) -> (r: DashboardSnapshot)
    requires
        countable(online@),
    ensures
        exists|list: Seq<ClientInfo>| #[trigger]
            shows_clients(list, online@, gone(agents@, online@)) && is_ordered(list, r.clients@),
        exists|list: Seq<TunnelInfo>| #[trigger]
            shows_tunnels(list, all_tunnels(online@)) && is_ordered(list, r.tunnels@),
        counts_types(r.tunnel_type_count@, all_tunnels(online@)),
        r.active_connections == stats.active_connections,
        r.total_client_counts == r.clients@.len(),
        r.total_traffic_in == stats.total_traffic_in,
        r.total_traffic_out == stats.total_traffic_out,
{
    let g = gather(online, agents);
    let ghost clients = g.clients@;
    let ghost tunnels = g.tunnels@;
    let sorted_clients = put_in_order(g.clients);
    let sorted_tunnels = put_in_order(g.tunnels);
    assert(shows_clients(clients, online@, gone(agents@, online@)) && is_ordered(
        clients,
        sorted_clients@,
    ));
    assert(shows_tunnels(tunnels, all_tunnels(online@)) && is_ordered(tunnels, sorted_tunnels@));
    let total: usize = sorted_clients.len();
    DashboardSnapshot {
        clients: sorted_clients,
        tunnels: sorted_tunnels,
        tunnel_type_count: g.types,
        active_connections: stats.active_connections,
        total_client_counts: total,
        total_traffic_in: stats.total_traffic_in,
        total_traffic_out: stats.total_traffic_out,
    }
}

/// Whether a client counts as online; one of which nothing is known does.
pub open spec fn counts_as_online(c: ClientInfo) -> bool {
    c.status@.len() == 0 || c.status@ == "online"@
}

/// How many clients count as online.
pub open spec fn online_count(list: Seq<ClientInfo>) -> nat
    decreases list.len(),
{
    if list.len() == 0 {
        0
    } else {
        online_count(list.drop_last()) + (if counts_as_online(list.last()) {
            1nat
        } else {
            0nat
        })
    }
}

/// How many clients count as online.
pub fn client_counts(clients: &Vec<ClientInfo>) -> (r: usize)
    ensures
        r == online_count(clients@),
{
    let n: usize = clients.len();
    let mut count: usize = 0;
    let mut i: usize = 0;
    assert(clients@.take(0) =~= seq![]);
    while i < n
        invariant
            i <= n,
            n == clients@.len(),
            count <= i,
            count == online_count(clients@.take(i as int)),
        decreases n - i,
    {
        assert(clients@.take(i + 1).drop_last() =~= clients@.take(i as int));
        let status = clients[i].status.as_str();
        if status.is_empty() || same(status, "online") {
            count += 1;
        }
        i += 1;
    }
    assert(clients@.take(i as int) =~= clients@);
    count
}

} // verus!
