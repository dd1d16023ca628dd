//! Keeping the tokens of a coding tool fresh on the host.

use crate::commands::repair::{GuestWorkerInstall, HarnessRuntime};
use crate::json;
use crate::json::{parse_json, Json, Tree};
use crate::text as t;
use vstd::prelude::*;
use vstd::string::*;

verus! {

/// How many whole minutes a token is still good for; negative once it is not.
pub open spec fn minutes_left(expires_at_ms: i64, now_ms: i64) -> int {
    let span = expires_at_ms - now_ms;
    if span >= 0 {
        span / 60000
    } else {
        -((-span) / 60000)
    }
}

pub fn minutes_until(expires_at_ms: i64, now_ms: i64) -> (r: i64)
    ensures
        r == minutes_left(expires_at_ms, now_ms),
{
    if expires_at_ms >= now_ms {
        let span: u128 = (expires_at_ms as i128 - now_ms as i128) as u128;
        let n: u128 = span / 60000;
        n as i64
    } else {
        let span: u128 = (now_ms as i128 - expires_at_ms as i128) as u128;
        let n: u128 = span / 60000;
        -(n as i64)
    }
}

/// What a probe says before and after its refresh.
pub fn probe_start_text(minutes: i64) -> (r: String)
    ensures
        r@ == "current token expires in "@ + t::signed_decimal(minutes as int)
            + " min; attempting one refresh\u{2026}"@,
{
    "current token expires in ".to_owned().concat(t::i64_text(minutes).as_str()).concat(
        " min; attempting one refresh\u{2026}",
    )
}

pub fn probe_done_lines(minutes: i64, creds_path: &str) -> (r: Vec<String>)
    ensures
        t::texts(r@) == seq![
            "refresh OK \u{2014} endpoint verified; new token expires in "@ + t::signed_decimal(minutes as int)
                + " min"@,
            "(rotated creds written to "@ + creds_path@ + ")"@,
        ],
{
    t::two_lines(
        "refresh OK \u{2014} endpoint verified; new token expires in ".to_owned().concat(
            t::i64_text(minutes).as_str(),
        ).concat(" min"),
        "(rotated creds written to ".to_owned().concat(creds_path).concat(")"),
    )
}

/// How long the daemon rests between two looks.
pub fn poll_wait(poll_seconds: u64) -> (r: u64)
    ensures
        r == if poll_seconds < 30 {
            30
        } else {
            poll_seconds
        },
{
    if poll_seconds < 30 {
        30
    } else {
        poll_seconds
    }
}

/// Whether the status of a worker lets its guest be touched; a worker that
/// tells nothing does.
pub open spec fn idle_status(status: Option<Tree>) -> bool {
    match status {
        Some(v) => match v.text_at("status"@) {
            Some(s) => s == "idle"@ || s == "polling"@,
            None => true,
        },
        None => true,
    }
}

pub fn is_idle(status: Option<&Json>) -> (r: bool)
    ensures
        r == idle_status(json::opt_tree(status)),
{
    match status {
        Some(v) => match v.text_at("status") {
            Some(s) => t::same(s.as_str(), "idle") || t::same(s.as_str(), "polling"),
            None => true,
        },
        None => true,
    }
}

/// Whether a worker is idle, from the file in which it keeps its status.
pub fn worker_is_idle(raw: Option<&str>) -> (r: bool)
    ensures
        r == idle_status(
            match raw {
                Some(s) => json::parsed_json(s@),
                None => None,
            },
        ),
{
    match raw {
        Some(s) => match parse_json(s) {
            Some(v) => is_idle(Some(&v)),
            None => is_idle(None),
        },
        None => is_idle(None),
    }
}

/// How the worker of a guest is set up anew; its credentials are left alone.
pub open spec fn repush(
    agent_id: Seq<char>,
    guest_ip: Seq<char>,
    session_id: Option<Seq<char>>,
    token_path: Seq<char>,
    coder: Seq<char>,
) -> GuestWorkerInstall<Seq<char>> {
    GuestWorkerInstall {
        guest_ip,
        agent_id,
        session_id: match session_id {
            Some(id) => id,
            None => agent_id + "-main"@,
        },
        harness: HarnessRuntime::ClaudeCode,
        ssh_user: "ubuntu"@,
        ssh_key: ".maturana/keys/maturana-firecracker.id_rsa"@,
        harness_auth_guest_path: "/home/ubuntu/."@ + coder,
        sessiond_url: "__MATURANA_DEFAULT_SESSIOND_URL__"@,
        sessiond_token_path: token_path,
        auth_source: None,
        install_harness: false,
        force_reseed_auth: false,
    }
}

/// Sets the worker of a guest up anew, in the session of its profile; an error
/// where the guest has no address yet. `coder` is the command of the coding
/// tool, which keeps its files in a directory of that name.
pub fn repush_claude_auth(
    agent_id: &str,
    guest_ip: Option<&str>,
    profile_session: Option<&str>,
    token_path: &str,
    coder: &str,
) -> (r: Result<GuestWorkerInstall<String>, String>)
    ensures
        match guest_ip {
            Some(ip) => r matches Ok(install) && install@ == repush(
                agent_id@,
                ip@,
                t::opt_str(profile_session),
                token_path@,
                coder@,
            ),
            None => r matches Err(message) && message@ == agent_id@ + " has no IPv4 yet"@,
        },
{
    let ip = match guest_ip {
        Some(ip) => ip,
        None => return Err(agent_id.to_owned().concat(" has no IPv4 yet")),
    };
    let session_id = match profile_session {
        Some(id) => id.to_owned(),
        None => agent_id.to_owned().concat("-main"),
    };
    Ok(
        GuestWorkerInstall {
            guest_ip: ip.to_owned(),
            agent_id: agent_id.to_owned(),
            session_id,
            harness: HarnessRuntime::ClaudeCode,
            ssh_user: "ubuntu".to_owned(),
            ssh_key: ".maturana/keys/maturana-firecracker.id_rsa".to_owned(),
            harness_auth_guest_path: "/home/ubuntu/.".to_owned().concat(coder),
            sessiond_url: "__MATURANA_DEFAULT_SESSIOND_URL__".to_owned(),
            sessiond_token_path: token_path.to_owned(),
            auth_source: None,
            install_harness: false,
            force_reseed_auth: false,
        },
    )
}

/// An agent of the host, and whether it runs the coding tool whose token is kept.
#[derive(Debug, PartialEq, Eq)]
pub struct HostAgent<S> {
    pub id: S,
    pub runs_coder: bool,
}

impl View for HostAgent<String> {
    type V = HostAgent<Seq<char>>;

    open spec fn view(&self) -> HostAgent<Seq<char>> {
        HostAgent { id: self.id@, runs_coder: self.runs_coder }
    }
}

pub open spec fn host_agents(v: Seq<HostAgent<String>>) -> Seq<HostAgent<Seq<char>>> {
    v.map_values(|a: HostAgent<String>| a@)
}

/// The ids of the agents that run the coding tool, among the first `n`.
pub open spec fn coder_ids(all: Seq<HostAgent<Seq<char>>>, n: int) -> Seq<Seq<char>>
    decreases n,
{
    if n <= 0 || n > all.len() {
        Seq::empty()
    } else if all[n - 1].runs_coder {
        coder_ids(all, n - 1).push(all[n - 1].id)
    } else {
        coder_ids(all, n - 1)
    }
}

/// The agents to keep fresh: those that were named, else all that run the coding
/// tool.
pub fn watched_agents(named: &Vec<String>, all: &Vec<HostAgent<String>>) -> (r: Vec<String>)
    ensures
        t::texts(r@) == if named@.len() == 0 {
            coder_ids(host_agents(all@), all@.len() as int)
        } else {
            t::texts(named@)
        },
{
    if named.len() > 0 {
        let mut r = t::no_lines();
        t::append_lines(&mut r, named);
        return r;
    }
    let mut r = t::no_lines();
    let mut i: usize = 0;
    while i < all.len()
        invariant
            i <= all.len(),
            t::texts(r@) == coder_ids(host_agents(all@), i as int),
        decreases all.len() - i,
    {
        assert(host_agents(all@)[i as int] == all@[i as int]@);
        if all[i].runs_coder {
            t::add_line(&mut r, all[i].id.clone());
        }
        i += 1;
    }
    r
}

/// Where a round of the daemon stands: what it waits for. `owed` are the agents
/// that an earlier round found busy, and `busy` those that this one did.
#[derive(Debug, PartialEq, Eq)]
pub enum RefreshStage<L> {
    Reading { agents: L, owed: L },
    Rotating { agents: L, owed: L },
    Writing { agents: L, owed: L },
    /// Whether the agent at this place is idle.
    Looking { agents: L, at: usize, busy: L },
    Pushing { agents: L, at: usize, busy: L },
    /// The round is over; the next one owes these agents a push.
    Ended { owed: L },
}

impl View for RefreshStage<Vec<String>> {
    type V = RefreshStage<Seq<Seq<char>>>;

    open spec fn view(&self) -> RefreshStage<Seq<Seq<char>>> {
        match self {
            RefreshStage::Reading { agents, owed } => RefreshStage::Reading {
                agents: t::texts(agents@),
                owed: t::texts(owed@),
            },
            RefreshStage::Rotating { agents, owed } => RefreshStage::Rotating {
                agents: t::texts(agents@),
                owed: t::texts(owed@),
            },
            RefreshStage::Writing { agents, owed } => RefreshStage::Writing {
                agents: t::texts(agents@),
                owed: t::texts(owed@),
            },
            RefreshStage::Looking { agents, at, busy } => RefreshStage::Looking {
                agents: t::texts(agents@),
                at: *at,
                busy: t::texts(busy@),
            },
            RefreshStage::Pushing { agents, at, busy } => RefreshStage::Pushing {
                agents: t::texts(agents@),
                at: *at,
                busy: t::texts(busy@),
            },
            RefreshStage::Ended { owed } => RefreshStage::Ended { owed: t::texts(owed@) },
        }
    }
}

#[derive(Debug, PartialEq, Eq)]
pub enum RefreshEvent<S> {
    /// The credentials were read; whether they are to be refreshed.
    Creds { due: bool },
    Done,
    /// The new credentials were written; for how long they are good.
    Written { minutes: i64 },
    Idle { idle: bool },
    Failed { error: S },
}

impl View for RefreshEvent<String> {
    type V = RefreshEvent<Seq<char>>;

    open spec fn view(&self) -> RefreshEvent<Seq<char>> {
        match self {
            RefreshEvent::Creds { due } => RefreshEvent::Creds { due: *due },
            RefreshEvent::Done => RefreshEvent::Done,
            RefreshEvent::Written { minutes } => RefreshEvent::Written { minutes: *minutes },
            RefreshEvent::Idle { idle } => RefreshEvent::Idle { idle: *idle },
            RefreshEvent::Failed { error } => RefreshEvent::Failed { error: error@ },
        }
    }
}

#[derive(Debug, PartialEq, Eq)]
pub enum RefreshAction<S> {
    ReadCreds,
    /// Refresh the token.
    Rotate,
    WriteCreds,
    /// Look whether the agent is idle.
    Look { agent: S },
    /// Set the worker of the agent up anew.
    Push { agent: S },
    Finish,
    /// End with the error that came last.
    Fail,
    /// The event is not one that was waited for.
    Ignore,
}

impl View for RefreshAction<String> {
    type V = RefreshAction<Seq<char>>;

    open spec fn view(&self) -> RefreshAction<Seq<char>> {
        match self {
            RefreshAction::ReadCreds => RefreshAction::ReadCreds,
            RefreshAction::Rotate => RefreshAction::Rotate,
            RefreshAction::WriteCreds => RefreshAction::WriteCreds,
            RefreshAction::Look { agent } => RefreshAction::Look { agent: agent@ },
            RefreshAction::Push { agent } => RefreshAction::Push { agent: agent@ },
            RefreshAction::Finish => RefreshAction::Finish,
            RefreshAction::Fail => RefreshAction::Fail,
            RefreshAction::Ignore => RefreshAction::Ignore,
        }
    }
}

/// What a round does next: print a line, for the standard or the error output,
/// then act.
#[derive(Debug, PartialEq, Eq)]
pub struct RefreshStep<S> {
    pub say: Option<S>,
    pub complain: Option<S>,
    pub action: RefreshAction<S>,
}

impl View for RefreshStep<String> {
    type V = RefreshStep<Seq<char>>;

    open spec fn view(&self) -> RefreshStep<Seq<char>> {
        RefreshStep {
            say: t::opt_view(self.say),
            complain: t::opt_view(self.complain),
            action: self.action@,
        }
    }
}

pub type StageView = RefreshStage<Seq<Seq<char>>>;

pub type ActionView = RefreshAction<Seq<char>>;

pub type StepView = RefreshStep<Seq<char>>;

pub open spec fn acts(action: ActionView) -> StepView {
    RefreshStep { say: None, complain: None, action }
}

/// The next agent, or the end.
pub open spec fn looks(agents: Seq<Seq<char>>, at: int, busy: Seq<Seq<char>>) -> (StageView, ActionView) {
    if 0 <= at < agents.len() {
        (
            RefreshStage::Looking { agents, at: at as usize, busy },
            RefreshAction::Look { agent: agents[at] },
        )
    } else {
        (RefreshStage::Ended { owed: busy }, RefreshAction::Finish)
    }
}

fn look(agents: Vec<String>, at: usize, busy: Vec<String>) -> (r: (RefreshStage<Vec<String>>, RefreshAction<String>))
    ensures
        (r.0@, r.1@) == looks(t::texts(agents@), at as int, t::texts(busy@)),
{
    if at < agents.len() {
        let agent = agents[at].clone();
        (RefreshStage::Looking { agents, at, busy }, RefreshAction::Look { agent })
    } else {
        (RefreshStage::Ended { owed: busy }, RefreshAction::Finish)
    }
}

fn look_behind(agents: Vec<String>, at: usize, busy: Vec<String>) -> (r: (
    RefreshStage<Vec<String>>,
    RefreshAction<String>,
))
    requires
        at < agents@.len(),
    ensures
        (r.0@, r.1@) == looks(t::texts(agents@), at + 1, t::texts(busy@)),
{
    let n: usize = agents.len();
    if n - at > 1 {
        look(agents, at + 1, busy)
    } else {
        (RefreshStage::Ended { owed: busy }, RefreshAction::Finish)
    }
}

impl RefreshStage<Seq<Seq<char>>> {
    /// The place of the agent that is dealt with is one of the list.
    pub open spec fn wf(self) -> bool {
        match self {
            RefreshStage::Looking { agents, at, .. } => at < agents.len(),
            RefreshStage::Pushing { agents, at, .. } => at < agents.len(),
            _ => true,
        }
    }

    /// The agents that a round which ended here would leave to the next one.
    pub open spec fn owes(self) -> Seq<Seq<char>> {
        match self {
            RefreshStage::Reading { owed, .. } => owed,
            RefreshStage::Rotating { owed, .. } => owed,
            RefreshStage::Writing { owed, .. } => owed,
            RefreshStage::Looking { busy, .. } => busy,
            RefreshStage::Pushing { busy, .. } => busy,
            RefreshStage::Ended { owed } => owed,
        }
    }

    /// How a round goes on when an event comes. A refresh is followed by a look at
    /// every agent; where none is due, only those are looked at that were busy.
    pub open spec fn next(self, event: RefreshEvent<Seq<char>>) -> (StageView, StepView) {
        match (self, event) {
            (RefreshStage::Ended { .. }, _) => (self, acts(RefreshAction::Ignore)),
            (RefreshStage::Pushing { agents, at, busy }, RefreshEvent::Failed { error }) => {
                let (stage, action) = looks(agents, at + 1, busy);
                (
                    stage,
                    RefreshStep {
                        say: None,
                        complain: Some("re-push "@ + agents[at as int] + " failed: "@ + error),
                        action,
                    },
                )
            },
            (_, RefreshEvent::Failed { .. }) => (
                RefreshStage::Ended { owed: self.owes() },
                acts(RefreshAction::Fail),
            ),
            (RefreshStage::Reading { agents, owed }, RefreshEvent::Creds { due }) => if due {
                (RefreshStage::Rotating { agents, owed }, acts(RefreshAction::Rotate))
            } else {
                let (stage, action) = looks(owed, 0, Seq::empty());
                (stage, acts(action))
            },
            (RefreshStage::Rotating { agents, owed }, RefreshEvent::Done) => (
                RefreshStage::Writing { agents, owed },
                acts(RefreshAction::WriteCreds),
            ),
            (RefreshStage::Writing { agents, .. }, RefreshEvent::Written { minutes }) => {
                let (stage, action) = looks(agents, 0, Seq::empty());
                (
                    stage,
                    RefreshStep {
                        say: Some(
                            "rotated host token (expires in "@ + t::signed_decimal(
                                minutes as int,
                            ) + " min)"@,
                        ),
                        complain: None,
                        action,
                    },
                )
            },
            (RefreshStage::Looking { agents, at, busy }, RefreshEvent::Idle { idle }) => if idle {
                (
                    RefreshStage::Pushing { agents, at, busy },
                    acts(RefreshAction::Push { agent: agents[at as int] }),
                )
            } else {
                let (stage, action) = looks(agents, at + 1, busy.push(agents[at as int]));
                (
                    stage,
                    RefreshStep {
                        say: Some(agents[at as int] + " busy; will re-push next cycle"@),
                        complain: None,
                        action,
                    },
                )
            },
            (RefreshStage::Pushing { agents, at, busy }, RefreshEvent::Done) => {
                let (stage, action) = looks(agents, at + 1, busy);
                (
                    stage,
                    RefreshStep {
                        say: Some("re-pushed fresh creds to "@ + agents[at as int]),
                        complain: None,
                        action,
                    },
                )
            },
            _ => (self, acts(RefreshAction::Ignore)),
        }
    }
}

/// A line of the daemon, under the name of its command.
pub fn daemon_line(coder: &str, line: &str) -> (r: String)
    ensures
        r@ == coder@ + "-refresh: "@ + line@,
{
    coder.to_owned().concat("-refresh: ").concat(line)
}

/// Starts a round; `owed` are the agents that the last one found busy.
pub fn claude_refresh_tick(agents: Vec<String>, owed: Vec<String>) -> (r: (
    RefreshStage<Vec<String>>,
    RefreshStep<String>,
))
    ensures
        r.0@ == (RefreshStage::<Seq<Seq<char>>>::Reading { agents: t::texts(agents@), owed: t::texts(owed@) }),
        r.0@.wf(),
        r.1@ == acts(RefreshAction::ReadCreds),
{
    (
        RefreshStage::Reading { agents, owed },
        RefreshStep { say: None, complain: None, action: RefreshAction::ReadCreds },
    )
}

fn silent(action: RefreshAction<String>) -> (r: RefreshStep<String>)
    ensures
        r@ == acts(action@),
{
    RefreshStep { say: None, complain: None, action }
}

impl RefreshStage<Vec<String>> {
    /// The agents that a round leaves to the next one.
    pub fn into_owed(self) -> (r: Vec<String>)
        ensures
            t::texts(r@) == self@.owes(),
    {
        match self {
            RefreshStage::Reading { owed, .. } => owed,
            RefreshStage::Rotating { owed, .. } => owed,
            RefreshStage::Writing { owed, .. } => owed,
            RefreshStage::Looking { busy, .. } => busy,
            RefreshStage::Pushing { busy, .. } => busy,
            RefreshStage::Ended { owed } => owed,
        }
    }

    /// Goes on when an event comes.
    pub fn advance(self, event: RefreshEvent<String>) -> (r: (RefreshStage<Vec<String>>, RefreshStep<String>))
        requires
            self@.wf(),
        ensures
            (r.0@, r.1@) == self@.next(event@),
            r.0@.wf(),
    {
        match (self, event) {
            (RefreshStage::Ended { owed }, _) => (RefreshStage::Ended { owed }, silent(RefreshAction::Ignore)),
            (RefreshStage::Pushing { agents, at, busy }, RefreshEvent::Failed { error }) => {
                let message = "re-push ".to_owned().concat(agents[at].as_str()).concat(
                    " failed: ",
                ).concat(error.as_str());
                let (stage, action) = look_behind(agents, at, busy);
                (stage, RefreshStep { say: None, complain: Some(message), action })
            },
            (stage, RefreshEvent::Failed { .. }) => (
                RefreshStage::Ended { owed: stage.into_owed() },
                silent(RefreshAction::Fail),
            ),
            (RefreshStage::Reading { agents, owed }, RefreshEvent::Creds { due }) => {
                if due {
                    (RefreshStage::Rotating { agents, owed }, silent(RefreshAction::Rotate))
                } else {
                    let (stage, action) = look(owed, 0, t::no_lines());
                    (stage, silent(action))
                }
            },
            (RefreshStage::Rotating { agents, owed }, RefreshEvent::Done) => (
                RefreshStage::Writing { agents, owed },
                silent(RefreshAction::WriteCreds),
            ),
            (RefreshStage::Writing { agents, .. }, RefreshEvent::Written { minutes }) => {
                let line = "rotated host token (expires in ".to_owned().concat(
                    t::i64_text(minutes).as_str(),
                ).concat(" min)");
                let (stage, action) = look(agents, 0, t::no_lines());
                (stage, RefreshStep { say: Some(line), complain: None, action })
            },
            (RefreshStage::Looking { agents, at, busy }, RefreshEvent::Idle { idle }) => {
                if idle {
                    let agent = agents[at].clone();
                    (RefreshStage::Pushing { agents, at, busy }, silent(RefreshAction::Push { agent }))
                } else {
                    let line = agents[at].as_str().to_owned().concat(
                        " busy; will re-push next cycle",
                    );
                    let mut busy = busy;
                    t::add_line(&mut busy, agents[at].clone());
                    let (stage, action) = look_behind(agents, at, busy);
                    (stage, RefreshStep { say: Some(line), complain: None, action })
                }
            },
            (RefreshStage::Pushing { agents, at, busy }, RefreshEvent::Done) => {
                let line = "re-pushed fresh creds to ".to_owned().concat(agents[at].as_str());
                let (stage, action) = look_behind(agents, at, busy);
                (stage, RefreshStep { say: Some(line), complain: None, action })
            },
            (stage, _) => (stage, silent(RefreshAction::Ignore)),
        }
    }
}

/// A guest is touched only while its worker is idle, and one that cannot be
/// reached does not end the round.
pub proof fn law_only_idle_guests_are_touched(stage: StageView, event: RefreshEvent<Seq<char>>)
    requires
        stage.wf(),
    ensures
        stage.next(event).1.action is Push ==> stage is Looking && event == (RefreshEvent::<Seq<char>>::Idle {
            idle: true,
        }),
        stage is Pushing ==> !(stage.next(event).1.action is Fail),
{
}

/// A round that is not yet due, and owes no agent anything, changes nothing: it
/// ends without a refresh.
pub proof fn law_a_fresh_token_is_left_alone(agents: Seq<Seq<char>>)
    ensures
        ({
            let stage: StageView = RefreshStage::Reading { agents, owed: Seq::empty() };
            stage.next(RefreshEvent::Creds { due: false }) == (
                RefreshStage::<Seq<Seq<char>>>::Ended { owed: Seq::empty() },
                acts(RefreshAction::Finish),
            )
        }),
{
}

/// A token is refreshed only where that is due.
pub proof fn law_only_a_due_token_is_refreshed(stage: StageView, event: RefreshEvent<Seq<char>>)
    ensures
        stage.next(event).1.action is Rotate ==> stage is Reading && event == (RefreshEvent::<Seq<char>>::Creds {
            due: true,
        }),
{
}

/// An agent that is found busy is caught in the next round: it is owed a push from
/// then on, whatever else happens in the round, and a next round without a refresh
/// looks first at the agents that are owed one, and then at each behind it.
pub proof fn law_a_busy_agent_is_caught_next_time(
    stage: StageView,
    event: RefreshEvent<Seq<char>>,
    agents: Seq<Seq<char>>,
    agent: Seq<char>,
)
    requires
        stage.wf(),
    ensures
        stage matches RefreshStage::Looking { agents: list, at, .. } ==> stage.next(
            RefreshEvent::Idle { idle: false },
        ).0.owes().contains(list[at as int]),
        (stage is Looking || stage is Pushing || stage is Ended) && stage.owes().contains(agent) ==> stage.next(
            event,
        ).0.owes().contains(agent),
        ({
            let start: StageView = RefreshStage::Reading { agents, owed: stage.owes() };
            let (first, step) = start.next(RefreshEvent::Creds { due: false });
            stage.owes().len() > 0 ==> first == (RefreshStage::<Seq<Seq<char>>>::Looking {
                agents: stage.owes(),
                at: 0,
                busy: Seq::empty(),
            }) && step.action == (RefreshAction::<Seq<char>>::Look { agent: stage.owes()[0] })
        }),
        stage matches RefreshStage::Looking { agents: list, at, .. } ==> at + 1 < list.len() ==> stage.next(
            RefreshEvent::Idle { idle: false },
        ).1.action == (RefreshAction::<Seq<char>>::Look { agent: list[at + 1] }),
        stage matches RefreshStage::Pushing { agents: list, at, .. } ==> at + 1 < list.len() ==> stage.next(
            RefreshEvent::Done,
        ).1.action == (RefreshAction::<Seq<char>>::Look { agent: list[at + 1] }),
{
    match stage {
        RefreshStage::Looking { agents: list, at, busy } => {
            let more = busy.push(list[at as int]);
            assert(more[busy.len() as int] == list[at as int]);
            assert(stage.next(RefreshEvent::Idle { idle: false }).0.owes() == more);
            if busy.contains(agent) {
                let k = choose|k: int| 0 <= k < busy.len() && busy[k] == agent;
                assert(more[k] == agent);
            }
        },
        _ => {},
    }
}

/// A guest's own credentials are never replaced by a round.
pub proof fn law_a_round_keeps_the_guests_credentials(
    agent_id: Seq<char>,
    guest_ip: Seq<char>,
    session_id: Option<Seq<char>>,
    token_path: Seq<char>,
    coder: Seq<char>,
)
    ensures
        repush(agent_id, guest_ip, session_id, token_path, coder).auth_source is None,
        !repush(agent_id, guest_ip, session_id, token_path, coder).force_reseed_auth,
{
}

/// A due token is rotated, written, and then every agent is looked at, the first
/// one first; one that is not due sends the round to the agents that are owed.
pub proof fn law_a_due_token_reaches_every_agent(agents: Seq<Seq<char>>, owed: Seq<Seq<char>>, minutes: i64)
    requires
        agents.len() > 0,
        owed.len() > 0,
    ensures
        ({
            let reading: StageView = RefreshStage::Reading { agents, owed };
            let (rotating, first) = reading.next(RefreshEvent::Creds { due: true });
            let (writing, second) = rotating.next(RefreshEvent::Done);
            let (looking, third) = writing.next(RefreshEvent::Written { minutes });
            let (owing, fourth) = reading.next(RefreshEvent::Creds { due: false });
            &&& first.action is Rotate
            &&& second.action is WriteCreds
            &&& third.action == (ActionView::Look { agent: agents[0] })
            &&& looking == (StageView::Looking { agents, at: 0, busy: Seq::empty() })
            &&& third.say matches Some(s) && t::has(s, t::signed_decimal(minutes as int))
            &&& fourth.action == (ActionView::Look { agent: owed[0] })
            &&& owing == (StageView::Looking { agents: owed, at: 0, busy: Seq::empty() })
        }),
{
    t::lemma_has_part("rotated host token (expires in "@, t::signed_decimal(minutes as int), " min)"@);
}

/// An agent that is idle gets the fresh credentials, and the next one is looked
/// at, whether they reached it or not; one that is busy is passed over, and the
/// last one ends the round.
pub proof fn law_an_idle_agent_gets_the_credentials(
    agents: Seq<Seq<char>>,
    at: usize,
    busy: Seq<Seq<char>>,
    error: Seq<char>,
)
    requires
        at < agents.len(),
    ensures
        ({
            let looking: StageView = RefreshStage::Looking { agents, at, busy };
            let (pushing, first) = looking.next(RefreshEvent::Idle { idle: true });
            let (after, done) = pushing.next(RefreshEvent::Done);
            let (still, failed) = pushing.next(RefreshEvent::Failed { error });
            let (passed, left) = looking.next(RefreshEvent::Idle { idle: false });
            let agent = agents[at as int];
            &&& first.action == (ActionView::Push { agent })
            &&& done.say matches Some(s) && t::has(s, agent)
            &&& failed.complain matches Some(s) && t::has(s, agent) && t::has(s, error)
            &&& left.say matches Some(s) && t::has(s, agent)
            &&& at + 1 < agents.len() && at + 1 <= usize::MAX ==> done.action == (ActionView::Look { agent: agents[at + 1] })
                && failed.action == done.action && left.action == done.action
            &&& at + 1 >= agents.len() ==> done.action is Finish && failed.action is Finish && left.action is Finish
            &&& after.owes() == busy && still.owes() == busy && passed.owes() == busy.push(agent)
        }),
{
    let agent = agents[at as int];
    let e = Seq::<char>::empty();
    t::lemma_has_part("re-pushed fresh creds to "@, agent, e);
    assert("re-pushed fresh creds to "@ + agent + e =~= "re-pushed fresh creds to "@ + agent);
    t::lemma_has_part("re-push "@, agent, " failed: "@ + error);
    assert("re-push "@ + agent + (" failed: "@ + error) =~= "re-push "@ + agent + " failed: "@ + error);
    t::lemma_has_part("re-push "@ + agent + " failed: "@, error, e);
    assert("re-push "@ + agent + " failed: "@ + error + e =~= "re-push "@ + agent + " failed: "@ + error);
    t::lemma_has_part(e, agent, " busy; will re-push next cycle"@);
    assert(e + agent + " busy; will re-push next cycle"@ =~= agent + " busy; will re-push next cycle"@);
}

/// A guest counts as idle where nothing says otherwise; one with a turn in
/// progress does not.
pub proof fn law_a_guest_at_work_is_not_idle(v: Tree, s: Seq<char>)
    requires
        v.text_at("status"@) == Some(s),
    ensures
        s == "idle"@ || s == "polling"@ ==> idle_status(Some(v)),
        s != "idle"@ && s != "polling"@ ==> !idle_status(Some(v)),
        idle_status(None),
{
}

/// The agents that are served are those that run the tool, in their order.
pub proof fn law_only_agents_that_run_the_tool_are_served(all: Seq<HostAgent<Seq<char>>>, n: int)
    requires
        0 <= n <= all.len(),
    ensures
        coder_ids(all, n) == all.take(n).filter(|a: HostAgent<Seq<char>>| a.runs_coder).map_values(
            |a: HostAgent<Seq<char>>| a.id,
        ),
    decreases n,
{
    let p = |a: HostAgent<Seq<char>>| a.runs_coder;
    let f = |a: HostAgent<Seq<char>>| a.id;
    reveal(Seq::filter);
    if n > 0 {
        law_only_agents_that_run_the_tool_are_served(all, n - 1);
        assert(all.take(n).drop_last() =~= all.take(n - 1));
        assert(all.take(n).last() == all[n - 1]);
        let before = all.take(n - 1).filter(p);
        if all[n - 1].runs_coder {
            assert(before.push(all[n - 1]).map_values(f) =~= before.map_values(f).push(all[n - 1].id));
        }
    } else {
        assert(all.take(0).len() == 0);
        assert(coder_ids(all, 0) =~= all.take(0).filter(p).map_values(f));
    }
}

/// What is left of a token is counted in whole minutes, and is not above zero
/// once the token has run out.
pub proof fn law_what_is_left_is_counted_in_minutes(expires: i64, now: i64)
    ensures
        expires >= now ==> minutes_left(expires, now) * 60000 <= expires - now < (minutes_left(expires, now) + 1) * 60000,
        expires < now ==> minutes_left(expires, now) <= 0,
{
}

/// A guest is served again under its own name, at its own address and in its own
/// session.
pub proof fn law_a_guest_is_served_in_its_session(
    agent_id: Seq<char>,
    guest_ip: Seq<char>,
    session_id: Seq<char>,
    token_path: Seq<char>,
    coder: Seq<char>,
)
    ensures
        repush(agent_id, guest_ip, Some(session_id), token_path, coder).agent_id == agent_id,
        repush(agent_id, guest_ip, Some(session_id), token_path, coder).guest_ip == guest_ip,
        repush(agent_id, guest_ip, Some(session_id), token_path, coder).session_id == session_id,
        repush(agent_id, guest_ip, None, token_path, coder).session_id == agent_id + "-main"@,
        repush(agent_id, guest_ip, None, token_path, coder).sessiond_token_path == token_path,
        !repush(agent_id, guest_ip, None, token_path, coder).install_harness,
{
}

} // verus!
