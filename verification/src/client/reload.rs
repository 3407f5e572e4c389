//! New settings for a running client: what is asked for and what came of it.
use vstd::prelude::*;
use vstd::string::*;

use crate::client::handle::ready;
use crate::config::client::{ClientConfig, ClientConfigError, ClientFault, TunnelConfig};
use crate::text::{decimal, texts};
use crate::text::decimal_str;

verus! {

/// How deep new settings cut.
#[derive(Debug, Clone, Copy, PartialEq, Eq, Structural)]
pub enum ReloadLevel {
    Unchanged,
    TunnelsOnly,
    Reconnect,
}

/// What became of the tunnels: their names, and of those that failed also why.
#[derive(Debug)]
pub struct ReloadOutcome {
    pub level: ReloadLevel,
    pub added: Vec<String>,
    pub removed: Vec<String>,
    pub updated: Vec<String>,
    pub failed: Vec<(String, String)>,
}

#[verifier::ext_equal]
pub struct OutcomeView {
    pub level: ReloadLevel,
    pub added: Seq<Seq<char>>,
    pub removed: Seq<Seq<char>>,
    pub updated: Seq<Seq<char>>,
    pub failed: Seq<(Seq<char>, Seq<char>)>,
}

/// Pairs of texts.
pub open spec fn text_pairs(v: Seq<(String, String)>) -> Seq<(Seq<char>, Seq<char>)> {
    Seq::new(v.len(), |i: int| (v[i].0@, v[i].1@))
}

impl View for ReloadOutcome {
    type V = OutcomeView;

    open spec fn view(&self) -> OutcomeView {
        OutcomeView {
            level: self.level,
            added: texts(self.added@),
            removed: texts(self.removed@),
            updated: texts(self.updated@),
            failed: text_pairs(self.failed@),
        }
    }
}

/// How the tunnels of two settings differ.
#[derive(Debug)]
pub struct TunnelChanges {
    pub added: Vec<TunnelConfig>,
    pub updated: Vec<TunnelConfig>,
    pub removed: Vec<String>,
}

impl TunnelChanges {
    pub open spec fn none(&self) -> bool {
        self.added@.len() == 0 && self.updated@.len() == 0 && self.removed@.len() == 0
    }

    pub fn is_empty(&self) -> (r: bool)
        ensures
            r == self.none(),
    {
        self.added.len() == 0 && self.updated.len() == 0 && self.removed.len() == 0
    }
}

/// What new settings ask for.
#[derive(Debug)]
pub enum ReloadPlan {
    Noop,
    Apply { changes: TunnelChanges, connection_settings_changed: bool },
}

/// A plan for new settings that are valid, what would come of it, and how deep it
/// cuts.
#[derive(Debug)]
pub struct Planned {
    pub plan: ReloadPlan,
    pub outcome: ReloadOutcome,
    pub level: ReloadLevel,
}

/// When new settings replace the old ones.
#[derive(Debug, Clone, Copy, PartialEq, Eq, Structural)]
pub enum StoreWhen {
    Never,
    AtOnce,
    /// Once the tunnels of the running session were changed.
    AfterChanges,
}

/// What to do with new settings.
#[derive(Debug)]
pub enum ReloadThen {
    /// Answer that they are not valid.
    Refuse(ClientConfigError),
    /// Answer that this was done.
    Reply(ReloadOutcome),
    /// Close every tunnel, end the session and answer once the next one is open.
    Reconnect(ReloadOutcome),
    /// Close and start tunnels in the running session, then answer.
    ChangeTunnels(TunnelChanges),
}

/// How new settings are taken over: when they replace the old ones, what is logged,
/// and what follows.
#[derive(Debug)]
pub struct ReloadDecision {
    pub store: StoreWhen,
    pub logs: Vec<String>,
    pub next: ReloadThen,
}

/// Makes new settings ready to be used and checks them.
pub fn begin_reload<F: Fn(&String) -> String>(new_cfg: &mut ClientConfig, resolve: &F) -> (r: Result<
    (),
    ClientConfigError,
>)
    requires
        forall|p: &String| call_requires(*resolve, (p,)),
    ensures
        ready(*resolve, *old(new_cfg), *final(new_cfg)),
        match r {
            Ok(_) => final(new_cfg)@.fault() is None,
            Err(e) => final(new_cfg)@.fault() == Some(e@),
        },
{
    new_cfg.prepare_runtime(resolve);
    new_cfg.validate()
}

/// How many tunnels came, went and changed.
pub open spec fn counts(o: OutcomeView) -> Seq<char> {
    "+"@ + decimal(o.added.len()) + " -"@ + decimal(o.removed.len()) + " ~"@ + decimal(
        o.updated.len(),
    )
}

/// A line of the log on tunnels that came, went and changed.
pub fn count_line(head: &str, o: &ReloadOutcome) -> (r: String)
    ensures
        r@ == head@ + counts(o@),
{
    let r = head.to_owned().concat("+").concat(
        decimal_str(o.added.len() as u64).as_str(),
    ).concat(" -").concat(decimal_str(o.removed.len() as u64).as_str()).concat(" ~").concat(
        decimal_str(o.updated.len() as u64).as_str(),
    );
    assert(r@ =~= head@ + counts(o@));
    r
}

/// What follows from settings that were checked, and planned for where they are valid,
/// in a client that is connected or not.
pub open spec fn then_of(checked: Result<Planned, ClientConfigError>, connected: bool) -> (
    StoreWhen,
    Seq<Seq<char>>,
    ThenView,
) {
    match checked {
        Err(e) => (StoreWhen::Never, seq![], ThenView::Refuse(e@)),
        Ok(p) => then_of_plan(p.plan, connected, p.outcome@, p.level),
    }
}

/// What follows from a plan for which `outcome` is what would come of it.
pub open spec fn then_of_plan(
    plan: ReloadPlan,
    connected: bool,
    outcome: OutcomeView,
    level: ReloadLevel,
) -> (StoreWhen, Seq<Seq<char>>, ThenView) {
    match plan {
        ReloadPlan::Noop => (StoreWhen::Never, seq![], ThenView::Reply(outcome)),
        ReloadPlan::Apply { changes, connection_settings_changed } => {
            if connection_settings_changed {
                let pending = if changes.none() {
                    Seq::<Seq<char>>::empty()
                } else {
                    seq!["INFO  reload pending: "@ + counts(outcome)]
                };
                if connected {
                    (
                        StoreWhen::AtOnce,
                        pending + seq!["INFO  client settings changed; reconnecting"@],
                        ThenView::Reconnect(outcome),
                    )
                } else {
                    (
                        StoreWhen::AtOnce,
                        pending + seq!["INFO  client settings updated"@],
                        ThenView::Reply(outcome),
                    )
                }
            } else if connected {
                (StoreWhen::AfterChanges, seq![], ThenView::ChangeTunnels(changes))
            } else {
                (
                    StoreWhen::AtOnce,
                    seq!["INFO  reload queued: "@ + counts(outcome)],
                    ThenView::Reply(OutcomeView { level, ..outcome }),
                )
            }
        },
    }
}

pub enum ThenView {
    Refuse(ClientFault),
    Reply(OutcomeView),
    Reconnect(OutcomeView),
    ChangeTunnels(TunnelChanges),
}

impl View for ReloadThen {
    type V = ThenView;

    open spec fn view(&self) -> ThenView {
        match *self {
            ReloadThen::Refuse(e) => ThenView::Refuse(e@),
            ReloadThen::Reply(o) => ThenView::Reply(o@),
            ReloadThen::Reconnect(o) => ThenView::Reconnect(o@),
            ReloadThen::ChangeTunnels(changes) => ThenView::ChangeTunnels(changes),
        }
    }
}

/// Decides how new settings are taken over.
pub fn decide_reload(checked: Result<Planned, ClientConfigError>, connected: bool) -> (r:
    ReloadDecision)
    ensures
        (r.store, texts(r.logs@), r.next@) == then_of(checked, connected),
{
    let mut logs: Vec<String> = Vec::new();
    assert(texts(logs@) =~= seq![]);
    let planned = match checked {
        Ok(p) => p,
        Err(e) => {
            return ReloadDecision { store: StoreWhen::Never, logs, next: ReloadThen::Refuse(e) };
        },
    };
    let outcome = planned.outcome;
    let level = planned.level;
    match planned.plan {
        ReloadPlan::Noop => {
            ReloadDecision { store: StoreWhen::Never, logs, next: ReloadThen::Reply(outcome) }
        },
        ReloadPlan::Apply { changes, connection_settings_changed } => {
            if connection_settings_changed {
                if !changes.is_empty() {
                    logs.push(count_line("INFO  reload pending: ", &outcome));
                }
                let ghost pending = texts(logs@);
                proof {
                    if changes.none() {
                        assert(pending =~= Seq::<Seq<char>>::empty());
                    } else {
                        assert(pending =~= seq!["INFO  reload pending: "@ + counts(outcome@)]);
                    }
                }
                if connected {
                    logs.push("INFO  client settings changed; reconnecting".to_owned());
                    assert(texts(logs@) =~= pending + seq![
                        "INFO  client settings changed; reconnecting"@,
                    ]);
                    ReloadDecision {
                        store: StoreWhen::AtOnce,
                        logs,
                        next: ReloadThen::Reconnect(outcome),
                    }
                } else {
                    logs.push("INFO  client settings updated".to_owned());
                    assert(texts(logs@) =~= pending + seq!["INFO  client settings updated"@]);
                    ReloadDecision {
                        store: StoreWhen::AtOnce,
                        logs,
                        next: ReloadThen::Reply(outcome),
                    }
                }
            } else if connected {
                ReloadDecision {
                    store: StoreWhen::AfterChanges,
                    logs,
                    next: ReloadThen::ChangeTunnels(changes),
                }
            } else {
                logs.push(count_line("INFO  reload queued: ", &outcome));
                assert(texts(logs@) =~= seq!["INFO  reload queued: "@ + counts(outcome@)]);
                let ghost o = outcome@;
                let mut out = outcome;
                out.level = level;
                assert(out@ =~= OutcomeView { level, ..o });
                ReloadDecision { store: StoreWhen::AtOnce, logs, next: ReloadThen::Reply(out) }
            }
        },
    }
}

/// The settings after a decision on new ones, and before any tunnel is changed.
pub open spec fn settings_at_once(
    store: StoreWhen,
    old_cfg: ClientConfig,
    new_cfg: ClientConfig,
) -> ClientConfig {
    if store == StoreWhen::AtOnce {
        new_cfg
    } else {
        old_cfg
    }
}

/// Replaces the settings where that is done at once.
pub fn take_over(cfg: &mut ClientConfig, new_cfg: ClientConfig, store: StoreWhen)
    ensures
        *final(cfg) == settings_at_once(store, *old(cfg), new_cfg),
{
    if store == StoreWhen::AtOnce {
        *cfg = new_cfg;
    }
}

/// What is answered and logged once the tunnels of a running session were changed;
/// the new settings then replace the old ones.
pub fn finish_reload(
    cfg: &mut ClientConfig,
    new_cfg: ClientConfig,
    outcome: ReloadOutcome,
    level: ReloadLevel,
) -> (r: (ReloadOutcome, String))
    ensures
        *final(cfg) == new_cfg,
        r.0@ == (OutcomeView { level, ..outcome@ }),
        r.1@ == "INFO  reload applied: "@ + counts(outcome@),
{
    *cfg = new_cfg;
    let line = count_line("INFO  reload applied: ", &outcome);
    let ghost o = outcome@;
    let mut out = outcome;
    out.level = level;
    assert(out@ =~= OutcomeView { level, ..o });
    (out, line)
}

/// Settings that are not valid are answered with what is wrong with them, and settings
/// that change nothing with what is the case; neither logs anything or touches the
/// client. Any other plan replaces the settings, at once or after the tunnels of the
/// running session were changed. The client connects anew if and only if it is
/// connected and a plan changes the settings of its connection.
pub proof fn reloads_keep_or_take_over_settings(
    checked: Result<Planned, ClientConfigError>,
    connected: bool,
    old_cfg: ClientConfig,
    new_cfg: ClientConfig,
)
    ensures
        ({
            let (store, logs, next) = then_of(checked, connected);
            let after = settings_at_once(store, old_cfg, new_cfg);
            &&& checked matches Err(e) ==> next == ThenView::Refuse(e@) && logs.len() == 0 && after
                == old_cfg
            &&& checked is Ok && checked->Ok_0.plan is Noop ==> next == ThenView::Reply(
                checked->Ok_0.outcome@,
            ) && logs.len() == 0 && after == old_cfg
            &&& checked is Ok && checked->Ok_0.plan is Apply ==> after == new_cfg || (store
                == StoreWhen::AfterChanges && next == ThenView::ChangeTunnels(
                checked->Ok_0.plan->changes,
            ))
            &&& next is ChangeTunnels <==> store == StoreWhen::AfterChanges
            &&& next is Reconnect <==> connected && checked is Ok && checked->Ok_0.plan is Apply
                && checked->Ok_0.plan->connection_settings_changed
            &&& !connected ==> next is Reply || next is Refuse
        }),
{
}

} // verus!
