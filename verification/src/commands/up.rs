//! The supervisor of the host runtime: which processes it runs, and how it
//! keeps them running.

use crate::json;
use crate::json::{Json, Tree};
use crate::text as t;
use vstd::prelude::*;
use vstd::string::*;

verus! {

/// How the runtime is started.
#[derive(Debug, PartialEq, Eq)]
pub struct UpCommand<S, L> {
    /// The agents to run; none stands for all.
    pub agent_ids: L,
    pub sessiond_bind: S,
    pub sessiond_token: Option<S>,
    /// One session for all agents, in place of their own.
    pub session_id: Option<S>,
    pub telegram_token_source: S,
    pub no_telegram: bool,
    pub no_schedules: bool,
    pub no_proactive: bool,
    pub channel_poll_seconds: u64,
    pub schedule_poll_seconds: u64,
    pub dry_run: bool,
}

impl View for UpCommand<String, Vec<String>> {
    type V = UpCommand<Seq<char>, Seq<Seq<char>>>;

    open spec fn view(&self) -> UpCommand<Seq<char>, Seq<Seq<char>>> {
        UpCommand {
            agent_ids: t::texts(self.agent_ids@),
            sessiond_bind: self.sessiond_bind@,
            sessiond_token: t::opt_view(self.sessiond_token),
            session_id: t::opt_view(self.session_id),
            telegram_token_source: self.telegram_token_source@,
            no_telegram: self.no_telegram,
            no_schedules: self.no_schedules,
            no_proactive: self.no_proactive,
            channel_poll_seconds: self.channel_poll_seconds,
            schedule_poll_seconds: self.schedule_poll_seconds,
            dry_run: self.dry_run,
        }
    }
}

#[derive(Debug, PartialEq, Eq)]
pub struct SlackRuntime<S> {
    pub bot_token_source: S,
    pub app_token_source: S,
}

impl View for SlackRuntime<String> {
    type V = SlackRuntime<Seq<char>>;

    open spec fn view(&self) -> SlackRuntime<Seq<char>> {
        SlackRuntime {
            bot_token_source: self.bot_token_source@,
            app_token_source: self.app_token_source@,
        }
    }
}

#[derive(Debug, PartialEq, Eq)]
pub struct DiscordRuntime<S> {
    pub bot_token_source: S,
}

impl View for DiscordRuntime<String> {
    type V = DiscordRuntime<Seq<char>>;

    open spec fn view(&self) -> DiscordRuntime<Seq<char>> {
        DiscordRuntime {
            bot_token_source: self.bot_token_source@,
        }
    }
}

#[derive(Debug, PartialEq, Eq)]
pub struct AgentMailRuntime<S> {
    pub api_key_source: S,
    pub inbox: S,
}

impl View for AgentMailRuntime<String> {
    type V = AgentMailRuntime<Seq<char>>;

    open spec fn view(&self) -> AgentMailRuntime<Seq<char>> {
        AgentMailRuntime {
            api_key_source: self.api_key_source@,
            inbox: self.inbox@,
        }
    }
}

pub open spec fn opt_slack(o: Option<SlackRuntime<String>>) -> Option<SlackRuntime<Seq<char>>> {
    match o {
        Some(x) => Some(x@),
        None => None,
    }
}

pub open spec fn opt_discord(o: Option<DiscordRuntime<String>>) -> Option<DiscordRuntime<Seq<char>>> {
    match o {
        Some(x) => Some(x@),
        None => None,
    }
}

pub open spec fn opt_agentmail(o: Option<AgentMailRuntime<String>>) -> Option<AgentMailRuntime<Seq<char>>> {
    match o {
        Some(x) => Some(x@),
        None => None,
    }
}

/// What the description of an agent says, as far as the supervisor reads it.
#[derive(Debug, PartialEq, Eq)]
pub struct SpecFacts<S, A, B, C> {
    /// The agent runs the coding tool whose tokens the host keeps fresh.
    pub claude_code: bool,
    /// The agent runs in Firecracker.
    pub firecracker: bool,
    pub knowledge_graph: bool,
    pub slack: A,
    pub discord: B,
    pub agentmail: C,
    pub telegram_token_source: Option<S>,
    pub proxy: Option<bool>,
}

impl View for SpecFacts<String, Option<SlackRuntime<String>>, Option<DiscordRuntime<String>>, Option<AgentMailRuntime<String>>> {
    type V = SpecFacts<Seq<char>, Option<SlackRuntime<Seq<char>>>, Option<DiscordRuntime<Seq<char>>>, Option<AgentMailRuntime<Seq<char>>>>;

    open spec fn view(&self) -> SpecFacts<Seq<char>, Option<SlackRuntime<Seq<char>>>, Option<DiscordRuntime<Seq<char>>>, Option<AgentMailRuntime<Seq<char>>>> {
        SpecFacts {
            claude_code: self.claude_code,
            firecracker: self.firecracker,
            knowledge_graph: self.knowledge_graph,
            slack: opt_slack(self.slack),
            discord: opt_discord(self.discord),
            agentmail: opt_agentmail(self.agentmail),
            telegram_token_source: t::opt_view(self.telegram_token_source),
            proxy: self.proxy,
        }
    }
}

pub type Spec = SpecFacts<
    String,
    Option<SlackRuntime<String>>,
    Option<DiscordRuntime<String>>,
    Option<AgentMailRuntime<String>>,
>;

pub type SpecView = SpecFacts<
    Seq<char>,
    Option<SlackRuntime<Seq<char>>>,
    Option<DiscordRuntime<Seq<char>>>,
    Option<AgentMailRuntime<Seq<char>>>,
>;

pub open spec fn opt_spec(o: Option<Spec>) -> Option<SpecView> {
    match o {
        Some(x) => Some(x@),
        None => None,
    }
}

pub open spec fn session_view(r: Result<String, String>) -> Result<Seq<char>, Seq<char>> {
    match r {
        Ok(s) => Ok(s@),
        Err(e) => Err(e@),
    }
}

/// What is known of an agent that is to run.
pub struct AgentFacts {
    pub agent_id: String,
    /// What its description says, where it could be read.
    pub spec: Option<Spec>,
    /// The session that its guest claims from, or why that is not known.
    pub session: Result<String, String>,
    /// The token source of its Firecracker profile.
    pub profile_token_source: Option<String>,
}

pub struct FactsView {
    pub agent_id: Seq<char>,
    pub spec: Option<SpecView>,
    pub session: Result<Seq<char>, Seq<char>>,
    pub profile_token_source: Option<Seq<char>>,
}

impl View for AgentFacts {
    type V = FactsView;

    open spec fn view(&self) -> FactsView {
        FactsView {
            agent_id: self.agent_id@,
            spec: opt_spec(self.spec),
            session: session_view(self.session),
            profile_token_source: t::opt_view(self.profile_token_source),
        }
    }
}

pub open spec fn facts(v: Seq<AgentFacts>) -> Seq<FactsView> {
    v.map_values(|x: AgentFacts| x@)
}

/// How the supervisor runs an agent.
#[derive(Debug, PartialEq, Eq)]
pub struct AgentRuntime<S, A, B, C> {
    pub agent_id: S,
    pub session_id: S,
    pub telegram: bool,
    pub telegram_token_source: S,
    pub schedules: bool,
    pub proactive: bool,
    pub slack: A,
    pub discord: B,
    pub agentmail: C,
    pub proxy: bool,
}

impl View for AgentRuntime<String, Option<SlackRuntime<String>>, Option<DiscordRuntime<String>>, Option<AgentMailRuntime<String>>> {
    type V = AgentRuntime<Seq<char>, Option<SlackRuntime<Seq<char>>>, Option<DiscordRuntime<Seq<char>>>, Option<AgentMailRuntime<Seq<char>>>>;

    open spec fn view(&self) -> AgentRuntime<Seq<char>, Option<SlackRuntime<Seq<char>>>, Option<DiscordRuntime<Seq<char>>>, Option<AgentMailRuntime<Seq<char>>>> {
        AgentRuntime {
            agent_id: self.agent_id@,
            session_id: self.session_id@,
            telegram: self.telegram,
            telegram_token_source: self.telegram_token_source@,
            schedules: self.schedules,
            proactive: self.proactive,
            slack: opt_slack(self.slack),
            discord: opt_discord(self.discord),
            agentmail: opt_agentmail(self.agentmail),
            proxy: self.proxy,
        }
    }
}

pub type Runtime = AgentRuntime<
    String,
    Option<SlackRuntime<String>>,
    Option<DiscordRuntime<String>>,
    Option<AgentMailRuntime<String>>,
>;

pub type RuntimeView = AgentRuntime<
    Seq<char>,
    Option<SlackRuntime<Seq<char>>>,
    Option<DiscordRuntime<Seq<char>>>,
    Option<AgentMailRuntime<Seq<char>>>,
>;

pub open spec fn runtimes(v: Seq<Runtime>) -> Seq<RuntimeView> {
    v.map_values(|x: Runtime| x@)
}

impl FactsView {
    /// The host keeps the token of such an agent fresh, unless the agent
    /// runs in Firecracker, where the guest does so itself.
    pub open spec fn refreshed(self) -> bool {
        self.spec is Some && self.spec->0.claude_code && !self.spec->0.firecracker
    }

    pub open spec fn wants_graph(self) -> bool {
        self.spec is Some && self.spec->0.knowledge_graph
    }

    /// The Telegram token that is the agent's own: that of its description,
    /// else that of its profile.
    pub open spec fn own_token(self) -> Option<Seq<char>> {
        if self.spec is Some && self.spec->0.telegram_token_source is Some {
            self.spec->0.telegram_token_source
        } else {
            self.profile_token_source
        }
    }

    /// The session of the agent, or why it has none.
    pub open spec fn session_for(self, command: UpCommand<Seq<char>, Seq<Seq<char>>>) -> Result<Seq<char>, Seq<char>> {
        match command.session_id {
            Some(id) => Ok(id),
            None => self.session,
        }
    }

    pub open spec fn runtime(
        self,
        command: UpCommand<Seq<char>, Seq<Seq<char>>>,
        session_id: Seq<char>,
    ) -> RuntimeView {
        AgentRuntime {
            agent_id: self.agent_id,
            session_id,
            telegram: !command.no_telegram && self.own_token() is Some,
            telegram_token_source: match self.own_token() {
                Some(token) => token,
                None => command.telegram_token_source,
            },
            schedules: !command.no_schedules,
            proactive: !command.no_proactive,
            slack: match self.spec {
                Some(spec) => spec.slack,
                None => None,
            },
            discord: match self.spec {
                Some(spec) => spec.discord,
                None => None,
            },
            agentmail: match self.spec {
                Some(spec) => spec.agentmail,
                None => None,
            },
            proxy: self.spec is Some && self.spec->0.proxy == Some(true),
        }
    }
}

fn copy_opt(o: &Option<String>) -> (r: Option<String>)
    ensures
        t::opt_view(r) == t::opt_view(*o),
{
    match o {
        Some(s) => Some(s.clone()),
        None => None,
    }
}

fn copy_slack(o: &Option<SlackRuntime<String>>) -> (r: Option<SlackRuntime<String>>)
    ensures
        opt_slack(r) == opt_slack(*o),
{
    match o {
        Some(x) => Some(
            SlackRuntime {
                bot_token_source: x.bot_token_source.clone(),
                app_token_source: x.app_token_source.clone(),
            },
        ),
        None => None,
    }
}

fn copy_discord(o: &Option<DiscordRuntime<String>>) -> (r: Option<DiscordRuntime<String>>)
    ensures
        opt_discord(r) == opt_discord(*o),
{
    match o {
        Some(x) => Some(DiscordRuntime { bot_token_source: x.bot_token_source.clone() }),
        None => None,
    }
}

fn copy_agentmail(o: &Option<AgentMailRuntime<String>>) -> (r: Option<AgentMailRuntime<String>>)
    ensures
        opt_agentmail(r) == opt_agentmail(*o),
{
    match o {
        Some(x) => Some(AgentMailRuntime { api_key_source: x.api_key_source.clone(), inbox: x.inbox.clone() }),
        None => None,
    }
}

/// How one agent is run, or why it cannot be.
pub fn agent_runtime(command: &UpCommand<String, Vec<String>>, agent: &AgentFacts) -> (r: Result<Runtime, String>)
    ensures
        match agent@.session_for(command@) {
            Ok(session_id) => r matches Ok(runtime) && runtime@ == agent@.runtime(command@, session_id),
            Err(error) => r matches Err(e) && e@ == error,
        },
{
    let session_id = match &command.session_id {
        Some(id) => id.clone(),
        None => match &agent.session {
            Ok(id) => id.clone(),
            Err(error) => return Err(error.clone()),
        },
    };
    let described: Option<String> = match &agent.spec {
        Some(spec) => copy_opt(&spec.telegram_token_source),
        None => None,
    };
    let own: Option<String> = match described {
        Some(token) => Some(token),
        None => copy_opt(&agent.profile_token_source),
    };
    let telegram = !command.no_telegram && own.is_some();
    let telegram_token_source = match own {
        Some(token) => token,
        None => command.telegram_token_source.clone(),
    };
    let (slack, discord, agentmail, proxy) = match &agent.spec {
        Some(spec) => (
            copy_slack(&spec.slack),
            copy_discord(&spec.discord),
            copy_agentmail(&spec.agentmail),
            match spec.proxy {
                Some(enabled) => enabled,
                None => false,
            },
        ),
        None => (None, None, None, false),
    };
    Ok(
        AgentRuntime {
            agent_id: agent.agent_id.clone(),
            session_id,
            telegram,
            telegram_token_source,
            schedules: !command.no_schedules,
            proactive: !command.no_proactive,
            slack,
            discord,
            agentmail,
            proxy,
        },
    )
}

/// The runtimes of the agents, in order, or why the first that has none has none.
pub open spec fn all_runtimes(command: UpCommand<Seq<char>, Seq<Seq<char>>>, agents: Seq<FactsView>) -> Result<
    Seq<RuntimeView>,
    Seq<char>,
>
    decreases agents.len(),
{
    if agents.len() == 0 {
        Ok(Seq::empty())
    } else {
        match all_runtimes(command, agents.drop_last()) {
            Err(error) => Err(error),
            Ok(list) => match agents.last().session_for(command) {
                Err(error) => Err(error),
                Ok(session_id) => Ok(list.push(agents.last().runtime(command, session_id))),
            },
        }
    }
}

proof fn lemma_error_stays(command: UpCommand<Seq<char>, Seq<Seq<char>>>, agents: Seq<FactsView>, i: int)
    requires
        0 <= i <= agents.len(),
        all_runtimes(command, agents.take(i)) is Err,
    ensures
        all_runtimes(command, agents) == all_runtimes(command, agents.take(i)),
    decreases agents.len() - i,
{
    if i == agents.len() {
        assert(agents.take(i) =~= agents);
    } else {
        assert(agents.take(i + 1).drop_last() =~= agents.take(i));
        lemma_error_stays(command, agents, i + 1);
    }
}

/// The ids of the agents that are chosen by a condition, in order.
pub open spec fn ids_where(agents: Seq<FactsView>, p: spec_fn(FactsView) -> bool) -> Seq<Seq<char>>
    decreases agents.len(),
{
    if agents.len() == 0 {
        Seq::empty()
    } else {
        t::added(ids_where(agents.drop_last(), p), p(agents.last()), agents.last().agent_id)
    }
}

pub open spec fn is_refreshed() -> spec_fn(FactsView) -> bool {
    |a: FactsView| a.refreshed()
}

/// The agents whose token the host keeps fresh.
pub fn claude_refresh_agents(agents: &Vec<AgentFacts>) -> (r: Vec<String>)
    ensures
        t::texts(r@) == ids_where(facts(agents@), is_refreshed()),
{
    let ghost all = facts(agents@);
    let mut ids = t::no_lines();
    let mut i: usize = 0;
    assert(all.take(0) =~= Seq::<FactsView>::empty());
    while i < agents.len()
        invariant
            i <= agents@.len(),
            all == facts(agents@),
            t::texts(ids@) == ids_where(all.take(i as int), is_refreshed()),
        decreases agents@.len() - i,
    {
        let refreshed = match &agents[i].spec {
            Some(spec) => spec.claude_code && !spec.firecracker,
            None => false,
        };
        t::add_if(&mut ids, refreshed, agents[i].agent_id.as_str());
        assert(all.take(i + 1).drop_last() =~= all.take(i as int));
        assert(all.take(i + 1).last() == agents@[i as int]@);
        i += 1;
    }
    assert(all.take(all.len() as int) =~= all);
    ids
}

/// Whether an agent asks for the knowledge graph, so that its token must be there.
pub fn graph_opt_in(agents: &Vec<AgentFacts>) -> (r: bool)
    ensures
        r <==> exists|i: int| 0 <= i < agents@.len() && (#[trigger] agents@[i])@.wants_graph(),
{
    let mut i: usize = 0;
    while i < agents.len()
        invariant
            i <= agents@.len(),
            forall|k: int| 0 <= k < i ==> !(#[trigger] agents@[k])@.wants_graph(),
        decreases agents@.len() - i,
    {
        let wants = match &agents[i].spec {
            Some(spec) => spec.knowledge_graph,
            None => false,
        };
        if wants {
            assert(agents@[i as int]@.wants_graph());
            return true;
        }
        i += 1;
    }
    false
}

/// What the supervisor plans its processes from.
pub struct OrchestratorConfig {
    pub sessiond_bind: String,
    pub sessiond_token: Option<String>,
    pub channel_poll_seconds: u64,
    pub schedule_poll_seconds: u64,
    pub agents: Vec<Runtime>,
    pub graph_bind: String,
    pub graph_token: Option<String>,
    pub claude_refresh_agents: Vec<String>,
}

/// Puts the configuration together from the command, the agents and the tokens.
pub fn build_orchestrator_config(
    command: &UpCommand<String, Vec<String>>,
    agents: &Vec<AgentFacts>,
    sessiond_token: Option<String>,
    graph_token: Option<String>,
) -> (r: Result<OrchestratorConfig, String>)
    ensures
        match all_runtimes(command@, facts(agents@)) {
            Err(error) => r matches Err(e) && e@ == error,
            Ok(list) => r matches Ok(config) && {
                &&& config.sessiond_bind@ == command.sessiond_bind@
                &&& t::opt_view(config.sessiond_token) == t::opt_view(sessiond_token)
                &&& config.channel_poll_seconds == command.channel_poll_seconds
                &&& config.schedule_poll_seconds == command.schedule_poll_seconds
                &&& runtimes(config.agents@) == list
                &&& config.graph_bind@ == "0.0.0.0:47835"@
                &&& t::opt_view(config.graph_token) == t::opt_view(graph_token)
                &&& t::texts(config.claude_refresh_agents@) == ids_where(facts(agents@), is_refreshed())
            },
        },
{
    let ghost all = facts(agents@);
    let mut list: Vec<Runtime> = Vec::new();
    let mut i: usize = 0;
    assert(all.take(0) =~= Seq::<FactsView>::empty());
    assert(runtimes(list@) =~= Seq::<RuntimeView>::empty());
    while i < agents.len()
        invariant
            i <= agents@.len(),
            all == facts(agents@),
            all_runtimes(command@, all.take(i as int)) == Ok::<Seq<RuntimeView>, Seq<char>>(runtimes(list@)),
        decreases agents@.len() - i,
    {
        let ghost before = runtimes(list@);
        assert(all.take(i + 1).drop_last() =~= all.take(i as int));
        assert(all.take(i + 1).last() == agents@[i as int]@);
        match agent_runtime(command, &agents[i]) {
            Ok(runtime) => {
                let ghost added = runtime@;
                list.push(runtime);
                assert(runtimes(list@) =~= before.push(added));
            },
            Err(error) => {
                proof {
                    lemma_error_stays(command@, all, i + 1);
                }
                return Err(error);
            },
        }
        i += 1;
    }
    assert(all.take(all.len() as int) =~= all);
    Ok(
        OrchestratorConfig {
            sessiond_bind: command.sessiond_bind.clone(),
            sessiond_token,
            channel_poll_seconds: command.channel_poll_seconds,
            schedule_poll_seconds: command.schedule_poll_seconds,
            agents: list,
            graph_bind: "0.0.0.0:47835".to_owned(),
            graph_token,
            claude_refresh_agents: claude_refresh_agents(agents),
        },
    )
}

/// Every agent that is to run has a runtime of its own, in the same order.
pub proof fn law_every_agent_runs(command: UpCommand<Seq<char>, Seq<Seq<char>>>, agents: Seq<FactsView>)
    ensures
        all_runtimes(command, agents) matches Ok(list) ==> list.len() == agents.len() && forall|i: int|
            0 <= i < agents.len() ==> (#[trigger] list[i]).agent_id == agents[i].agent_id && (
            command.session_id matches Some(id) ==> list[i].session_id == id) && (command.no_telegram
                ==> !list[i].telegram) && (agents[i].own_token() is None ==> !list[i].telegram),
    decreases agents.len(),
{
    if agents.len() > 0 {
        law_every_agent_runs(command, agents.drop_last());
        if all_runtimes(command, agents) is Ok {
            let list = all_runtimes(command, agents)->Ok_0;
            let front = all_runtimes(command, agents.drop_last())->Ok_0;
            assert forall|i: int| 0 <= i < agents.len() implies (#[trigger] list[i]).agent_id == agents[i].agent_id
                && (command.session_id matches Some(id) ==> list[i].session_id == id) && (command.no_telegram
                ==> !list[i].telegram) && (agents[i].own_token() is None ==> !list[i].telegram) by {
                if i < agents.len() - 1 {
                    assert(list[i] == front[i]);
                    assert(agents.drop_last()[i] == agents[i]);
                }
            }
        }
    }
}

/// The agents to run: those that were named, else all.
pub fn chosen_agents(named: &Vec<String>, all: &Vec<String>) -> (r: Vec<String>)
    ensures
        t::texts(r@) == if named@.len() == 0 {
            t::texts(all@)
        } else {
            t::texts(named@)
        },
{
    let source = if named.len() == 0 {
        all
    } else {
        named
    };
    let ghost s = t::texts(source@);
    let mut r = t::no_lines();
    let mut i: usize = 0;
    assert(s.take(0) =~= Seq::<Seq<char>>::empty());
    while i < source.len()
        invariant
            i <= source@.len(),
            s == t::texts(source@),
            t::texts(r@) == s.take(i as int),
        decreases source@.len() - i,
    {
        t::add_line(&mut r, source[i].clone());
        assert(s.take(i + 1) =~= s.take(i as int).push(source@[i as int]@));
        i += 1;
    }
    assert(s.take(s.len() as int) =~= s);
    r
}

/// What is said when there is no agent to run.
pub fn idle_text(agents: usize) -> (r: Option<&'static str>)
    ensures
        t::opt_str(r) == if agents == 0 {
            Some(
                "up: no agents configured yet - supervising sessiond only (idle). Build an agent from Codex (`cd <repo> && codex`), then restart `maturana up`."@,
            )
        } else {
            None
        },
{
    if agents == 0 {
        Some(
            "up: no agents configured yet - supervising sessiond only (idle). Build an agent from Codex (`cd <repo> && codex`), then restart `maturana up`.",
        )
    } else {
        None
    }
}

/// The lines that a dry run prints behind the plan.
pub open spec fn session_lines(agents: Seq<RuntimeView>) -> Seq<Seq<char>>
    decreases agents.len(),
{
    if agents.len() == 0 {
        seq!["\nguest workers must claim from these session ids:"@]
    } else {
        session_lines(agents.drop_last()).push(
            "  "@ + agents.last().agent_id + " -> "@ + agents.last().session_id,
        )
    }
}

pub fn dry_run_lines(agents: &Vec<Runtime>) -> (r: Vec<String>)
    ensures
        t::texts(r@) == session_lines(runtimes(agents@)),
{
    let ghost all = runtimes(agents@);
    let mut lines = t::one_line("\nguest workers must claim from these session ids:".to_owned());
    let mut i: usize = 0;
    assert(all.take(0) =~= Seq::<RuntimeView>::empty());
    while i < agents.len()
        invariant
            i <= agents@.len(),
            all == runtimes(agents@),
            t::texts(lines@) == session_lines(all.take(i as int)),
        decreases agents@.len() - i,
    {
        t::add_line(
            &mut lines,
            "  ".to_owned().concat(agents[i].agent_id.as_str()).concat(" -> ").concat(
                agents[i].session_id.as_str(),
            ),
        );
        assert(all.take(i + 1).drop_last() =~= all.take(i as int));
        assert(all.take(i + 1).last() == agents@[i as int]@);
        i += 1;
    }
    assert(all.take(all.len() as int) =~= all);
    lines
}

// ---------------------------------------------------------------------------
// Redaction
// ---------------------------------------------------------------------------

/// A process that the supervisor runs.
#[derive(Debug, PartialEq, Eq)]
pub struct SupervisedProcess<S, L> {
    pub name: S,
    pub args: L,
    pub critical: bool,
}

impl View for SupervisedProcess<String, Vec<String>> {
    type V = SupervisedProcess<Seq<char>, Seq<Seq<char>>>;

    open spec fn view(&self) -> SupervisedProcess<Seq<char>, Seq<Seq<char>>> {
        SupervisedProcess {
            name: self.name@,
            args: t::texts(self.args@),
            critical: self.critical,
        }
    }
}

pub type ProcessView = SupervisedProcess<Seq<char>, Seq<Seq<char>>>;

pub open spec fn processes(v: Seq<SupervisedProcess<String, Vec<String>>>) -> Seq<ProcessView> {
    v.map_values(|x: SupervisedProcess<String, Vec<String>>| x@)
}

/// Whether the argument at `i` is the value of a token flag. What follows a
/// flag is its value, even where it looks like a flag itself.
pub open spec fn secret_at(args: Seq<Seq<char>>, i: int) -> bool
    decreases i,
{
    i > 0 && args[i - 1] == "--token"@ && !secret_at(args, i - 1)
}

/// The arguments with every secret replaced.
pub open spec fn redacted(args: Seq<Seq<char>>) -> Seq<Seq<char>> {
    Seq::new(
        args.len(),
        |i: int|
            if secret_at(args, i) {
                "<redacted>"@
            } else {
                args[i]
            },
    )
}

pub fn redact_args(args: &Vec<String>) -> (r: Vec<String>)
    ensures
        t::texts(r@) == redacted(t::texts(args@)),
{
    let ghost all = t::texts(args@);
    let mut out: Vec<String> = Vec::new();
    let mut secret = false;
    let mut i: usize = 0;
    while i < args.len()
        invariant
            i <= args@.len(),
            all == t::texts(args@),
            secret == secret_at(all, i as int),
            out@.len() == i,
            forall|k: int| 0 <= k < i ==> (#[trigger] out@[k])@ == redacted(all)[k],
        decreases args@.len() - i,
    {
        assert(all[i as int] == args@[i as int]@);
        if secret {
            out.push("<redacted>".to_owned());
            secret = false;
        } else {
            secret = t::same(args[i].as_str(), "--token");
            out.push(args[i].clone());
        }
        i += 1;
    }
    assert(t::texts(out@) =~= redacted(all));
    out
}

pub open spec fn redacted_process(p: ProcessView) -> ProcessView {
    SupervisedProcess { name: p.name, args: redacted(p.args), critical: p.critical }
}

/// The plan as it may be printed.
pub fn redact_plan(plan: &Vec<SupervisedProcess<String, Vec<String>>>) -> (r: Vec<
    SupervisedProcess<String, Vec<String>>,
>)
    ensures
        processes(r@) == processes(plan@).map_values(|p: ProcessView| redacted_process(p)),
{
    let mut out: Vec<SupervisedProcess<String, Vec<String>>> = Vec::new();
    let mut i: usize = 0;
    while i < plan.len()
        invariant
            i <= plan@.len(),
            out@.len() == i,
            forall|k: int| 0 <= k < i ==> (#[trigger] out@[k])@ == redacted_process(plan@[k]@),
        decreases plan@.len() - i,
    {
        out.push(
            SupervisedProcess {
                name: plan[i].name.clone(),
                args: redact_args(&plan[i].args),
                critical: plan[i].critical,
            },
        );
        i += 1;
    }
    assert(processes(out@) =~= processes(plan@).map_values(|p: ProcessView| redacted_process(p)));
    out
}

/// A token that stands in the arguments only as the value of a token flag is
/// not printed.
pub proof fn law_no_token_is_printed(args: Seq<Seq<char>>, token: Seq<char>)
    requires
        token != "<redacted>"@,
        forall|i: int| 0 <= i < args.len() && #[trigger] args[i] == token ==> secret_at(args, i),
    ensures
        !redacted(args).contains(token),
{
    if redacted(args).contains(token) {
        let i = choose|i: int| 0 <= i < redacted(args).len() && redacted(args)[i] == token;
        assert(args[i] == token ==> secret_at(args, i));
    }
}

/// Redaction changes values only: the number of arguments and the flags stay.
pub proof fn law_redaction_keeps_the_rest(args: Seq<Seq<char>>, i: int)
    requires
        0 <= i < args.len(),
        !secret_at(args, i),
    ensures
        redacted(args).len() == args.len(),
        redacted(args)[i] == args[i],
{
}

// ---------------------------------------------------------------------------
// Supervision
// ---------------------------------------------------------------------------

/// How long a process that stopped is left alone, in seconds: the more often it
/// was restarted, the longer.
pub open spec fn backoff(restarts: u32) -> u64 {
    if restarts == 0 {
        1
    } else if restarts == 1 {
        2
    } else if restarts == 2 {
        4
    } else if restarts == 3 {
        8
    } else {
        16
    }
}

/// A process that ran for more than a minute counts as started afresh.
pub open spec fn settled(restarts: u32, up_nanos: u64) -> u32 {
    if up_nanos > 60_000_000_000 {
        0
    } else {
        restarts
    }
}

/// What is done about a process.
#[derive(Debug, PartialEq, Eq)]
pub enum SupervisorStep<S> {
    /// Nothing.
    Keep,
    /// Say that it could not be looked at.
    Warn { say: S },
    /// End the supervisor with an error.
    Stop { message: S },
    /// Say so, wait, and start it again; it has then been restarted so often.
    Restart { say: S, backoff_seconds: u64, restarts: u32 },
}

impl View for SupervisorStep<String> {
    type V = SupervisorStep<Seq<char>>;

    open spec fn view(&self) -> SupervisorStep<Seq<char>> {
        match self {
            SupervisorStep::Keep => SupervisorStep::Keep,
            SupervisorStep::Warn { say } => SupervisorStep::Warn { say: say@ },
            SupervisorStep::Stop { message } => SupervisorStep::Stop { message: message@ },
            SupervisorStep::Restart { say, backoff_seconds, restarts } => SupervisorStep::Restart {
                say: say@,
                backoff_seconds: *backoff_seconds,
                restarts: *restarts,
            },
        }
    }
}

/// What a look at a process shows.
#[derive(Debug, PartialEq, Eq)]
pub enum ProcessState<S> {
    Running,
    Exited { status: S },
    Unknown { error: S },
}

impl View for ProcessState<String> {
    type V = ProcessState<Seq<char>>;

    open spec fn view(&self) -> ProcessState<Seq<char>> {
        match self {
            ProcessState::Running => ProcessState::Running,
            ProcessState::Exited { status } => ProcessState::Exited { status: status@ },
            ProcessState::Unknown { error } => ProcessState::Unknown { error: error@ },
        }
    }
}

pub open spec fn supervised(
    name: Seq<char>,
    critical: bool,
    restarts: u32,
    up_nanos: u64,
    state: ProcessState<Seq<char>>,
) -> SupervisorStep<Seq<char>> {
    match state {
        ProcessState::Running => SupervisorStep::Keep,
        ProcessState::Unknown { error } => SupervisorStep::Warn { say: "up: failed to poll "@ + name + ": "@ + error },
        ProcessState::Exited { status } => if critical {
            SupervisorStep::Stop {
                message: "critical process "@ + name + " exited with "@ + status + "; shutting down the plane"@,
            }
        } else {
            let seen = settled(restarts, up_nanos);
            SupervisorStep::Restart {
                say: "up: "@ + name + " exited with "@ + status + "; restarting in "@ + t::decimal(
                    backoff(seen) as nat,
                ) + "s"@,
                backoff_seconds: backoff(seen),
                restarts: if seen == u32::MAX {
                    u32::MAX
                } else {
                    (seen + 1) as u32
                },
            }
        },
    }
}

/// Decides what is done about a process.
pub fn supervise_process(
    name: &str,
    critical: bool,
    restarts: u32,
    up_nanos: u64,
    state: &ProcessState<String>,
) -> (r: SupervisorStep<String>)
    ensures
        r@ == supervised(name@, critical, restarts, up_nanos, state@),
{
    match state {
        ProcessState::Running => SupervisorStep::Keep,
        ProcessState::Unknown { error } => SupervisorStep::Warn {
            say: "up: failed to poll ".to_owned().concat(name).concat(": ").concat(error.as_str()),
        },
        ProcessState::Exited { status } => {
            if critical {
                return SupervisorStep::Stop {
                    message: "critical process ".to_owned().concat(name).concat(" exited with ").concat(
                        status.as_str(),
                    ).concat("; shutting down the plane"),
                };
            }
            let seen: u32 = if up_nanos > 60_000_000_000 {
                0
            } else {
                restarts
            };
            let backoff_seconds: u64 = if seen == 0 {
                1
            } else if seen == 1 {
                2
            } else if seen == 2 {
                4
            } else if seen == 3 {
                8
            } else {
                16
            };
            let say = "up: ".to_owned().concat(name).concat(" exited with ").concat(status.as_str()).concat(
                "; restarting in ",
            ).concat(t::u64_text(backoff_seconds).as_str()).concat("s");
            SupervisorStep::Restart {
                say,
                backoff_seconds,
                restarts: if seen == u32::MAX {
                    u32::MAX
                } else {
                    seen + 1
                },
            }
        },
    }
}

/// A process that is not critical never ends the supervisor, however it ends;
/// it is started again after one to sixteen seconds.
pub proof fn law_a_process_is_restarted(
    name: Seq<char>,
    restarts: u32,
    up_nanos: u64,
    state: ProcessState<Seq<char>>,
)
    ensures
        !(supervised(name, false, restarts, up_nanos, state) is Stop),
        state is Exited ==> supervised(name, false, restarts, up_nanos, state) is Restart,
        supervised(name, false, restarts, up_nanos, state) matches SupervisorStep::Restart {
            backoff_seconds,
            ..
        } ==> 1 <= backoff_seconds <= 16,
{
}

/// A critical process that stops ends the supervisor.
pub proof fn law_a_critical_exit_ends_the_plane(name: Seq<char>, restarts: u32, up_nanos: u64, status: Seq<char>)
    ensures
        supervised(name, true, restarts, up_nanos, ProcessState::Exited { status }) is Stop,
{
}

/// The wait never gets shorter while a process keeps stopping early.
pub proof fn law_the_wait_grows(restarts: u32)
    requires
        restarts < u32::MAX,
    ensures
        backoff(restarts) <= backoff((restarts + 1) as u32),
{
}

pub fn started_text(name: &str, pid: u32, again: bool) -> (r: String)
    ensures
        r@ == if again {
            "up: restarted "@ + name@ + " (pid "@ + t::decimal(pid as nat) + ")"@
        } else {
            "up: started "@ + name@ + " (pid "@ + t::decimal(pid as nat) + ")"@
        },
{
    let head = if again {
        "up: restarted "
    } else {
        "up: started "
    };
    head.to_owned().concat(name).concat(" (pid ").concat(t::u64_text(pid as u64).as_str()).concat(")")
}

/// What the supervisor tells of a process.
#[derive(Debug, PartialEq, Eq)]
pub struct ProcessReport<S> {
    pub name: S,
    pub pid: u32,
    pub critical: bool,
    pub restarts: u32,
    pub uptime_seconds: u64,
}

impl View for ProcessReport<String> {
    type V = ProcessReport<Seq<char>>;

    open spec fn view(&self) -> ProcessReport<Seq<char>> {
        ProcessReport {
            name: self.name@,
            pid: self.pid,
            critical: self.critical,
            restarts: self.restarts,
            uptime_seconds: self.uptime_seconds,
        }
    }
}

pub open spec fn report_tree(p: ProcessReport<Seq<char>>) -> Tree {
    Tree::Record(
        seq![
            ("name"@, Tree::Text(p.name)),
            ("pid"@, Tree::Int(p.pid as int)),
            ("critical"@, Tree::Bool(p.critical)),
            ("restarts"@, Tree::Int(p.restarts as int)),
            ("uptime_seconds"@, Tree::Int(p.uptime_seconds as int)),
        ],
    )
}

fn report_json(p: &ProcessReport<String>) -> (r: Json)
    ensures
        r@ == report_tree(p@),
{
    let mut f: Vec<(String, Json)> = Vec::new();
    json::field(&mut f, "name", Json::Text(p.name.clone()));
    json::field(&mut f, "pid", Json::Int(p.pid as i128));
    json::field(&mut f, "critical", Json::Bool(p.critical));
    json::field(&mut f, "restarts", Json::Int(p.restarts as i128));
    json::field(&mut f, "uptime_seconds", Json::Int(p.uptime_seconds as i128));
    assert(json::entries(f@) =~= report_tree(p@)->Record_0);
    json::record(f)
}

pub open spec fn reports(v: Seq<ProcessReport<String>>) -> Seq<Tree> {
    v.map_values(|p: ProcessReport<String>| report_tree(p@))
}

pub open spec fn state_tree(pid: u32, at: Seq<char>, list: Seq<Tree>) -> Tree {
    Tree::Record(
        seq![
            ("v"@, Tree::Int(1)),
            ("pid"@, Tree::Int(pid as int)),
            ("at"@, Tree::Text(at)),
            ("processes"@, Tree::List(list)),
        ],
    )
}

/// The heartbeat of the supervisor.
pub fn write_up_state(pid: u32, at: &str, list: &Vec<ProcessReport<String>>) -> (r: Json)
    ensures
        r@ == state_tree(pid, at@, reports(list@)),
{
    let mut items: Vec<Json> = Vec::new();
    let mut i: usize = 0;
    while i < list.len()
        invariant
            i <= list@.len(),
            items@.len() == i,
            forall|k: int| 0 <= k < i ==> (#[trigger] items@[k])@ == report_tree(list@[k]@),
        decreases list@.len() - i,
    {
        items.push(report_json(&list[i]));
        i += 1;
    }
    assert(json::trees(items@) =~= reports(list@));
    let mut f: Vec<(String, Json)> = Vec::new();
    json::field(&mut f, "v", Json::Int(1));
    json::field(&mut f, "pid", Json::Int(pid as i128));
    json::field(&mut f, "at", Json::Text(at.to_owned()));
    json::field(&mut f, "processes", json::list(items));
    assert(json::entries(f@) =~= state_tree(pid, at@, reports(list@))->Record_0);
    json::record(f)
}

/// An agent is run as the command and its description say: its schedules fire
/// and it speaks up by itself unless that was switched off, it is on Telegram
/// where it has a token of its own, and it is on the other channels and behind
/// the proxy where its description says so.
pub proof fn law_an_agent_runs_as_it_is_described(
    command: UpCommand<Seq<char>, Seq<Seq<char>>>,
    agents: Seq<FactsView>,
    i: int,
)
    requires
        all_runtimes(command, agents) is Ok,
        0 <= i < agents.len(),
    ensures
        ({
            let runtime = all_runtimes(command, agents)->Ok_0[i];
            let agent = agents[i];
            let described = agent.spec is Some && agent.spec->0.telegram_token_source is Some;
            &&& runtime.agent_id == agent.agent_id
            &&& runtime.schedules <==> !command.no_schedules
            &&& runtime.proactive <==> !command.no_proactive
            &&& runtime.telegram <==> !command.no_telegram && (described || agent.profile_token_source is Some)
            &&& described ==> Some(runtime.telegram_token_source) == agent.spec->0.telegram_token_source
            &&& !described && agent.profile_token_source is Some ==> Some(runtime.telegram_token_source)
                == agent.profile_token_source
            &&& !described && agent.profile_token_source is None ==> runtime.telegram_token_source
                == command.telegram_token_source
            &&& command.session_id matches Some(id) ==> runtime.session_id == id
            &&& command.session_id is None ==> agent.session == Ok::<Seq<char>, Seq<char>>(runtime.session_id)
            &&& agent.spec matches Some(spec) ==> {
                &&& runtime.slack == spec.slack
                &&& runtime.discord == spec.discord
                &&& runtime.agentmail == spec.agentmail
                &&& runtime.proxy <==> spec.proxy == Some(true)
            }
            &&& agent.spec is None ==> runtime.slack is None && runtime.discord is None && runtime.agentmail is None
                && !runtime.proxy
        }),
    decreases agents.len(),
{
    law_every_agent_runs(command, agents.drop_last());
    if i < agents.len() - 1 {
        law_an_agent_runs_as_it_is_described(command, agents.drop_last(), i);
        assert(agents.drop_last()[i] == agents[i]);
    }
}

/// The plane comes up unless an agent has no session: then the first such agent
/// says why. A session that is named for all stands in for it.
pub proof fn law_the_plane_needs_a_session_for_each_agent(
    command: UpCommand<Seq<char>, Seq<Seq<char>>>,
    agents: Seq<FactsView>,
    i: int,
)
    ensures
        command.session_id is Some ==> all_runtimes(command, agents) is Ok,
        command.session_id is None && (forall|k: int| 0 <= k < agents.len() ==> (#[trigger] agents[k]).session is Ok)
            ==> all_runtimes(command, agents) is Ok,
        command.session_id is None && 0 <= i < agents.len() && agents[i].session is Err && (forall|k: int|
            0 <= k < i ==> (#[trigger] agents[k]).session is Ok) ==> all_runtimes(command, agents) == Err::<
            Seq<RuntimeView>,
            Seq<char>,
        >(agents[i].session->Err_0),
    decreases agents.len(),
{
    if agents.len() > 0 {
        let front = agents.drop_last();
        law_the_plane_needs_a_session_for_each_agent(command, front, i);
        assert forall|k: int| 0 <= k < front.len() implies front[k] == #[trigger] agents[k] by {}
        if forall|k: int| 0 <= k < agents.len() ==> (#[trigger] agents[k]).session is Ok {
            assert forall|k: int| 0 <= k < front.len() implies (#[trigger] front[k]).session is Ok by {
                assert(agents[k].session is Ok);
            }
            assert(agents[agents.len() - 1].session is Ok);
        }
        if 0 <= i < agents.len() && (forall|k: int| 0 <= k < i ==> (#[trigger] agents[k]).session is Ok) {
            assert forall|k: int| 0 <= k < i && k < front.len() implies (#[trigger] front[k]).session is Ok by {
                assert(agents[k].session is Ok);
            }
            if i == front.len() {
                assert forall|k: int| 0 <= k < front.len() implies (#[trigger] front[k]).session is Ok by {
                    assert(agents[k].session is Ok);
                }
            }
        }
    }
}

/// The host keeps fresh the tokens of the agents that run the coding tool outside
/// Firecracker, and of none other.
pub proof fn law_the_host_refreshes_what_the_guest_does_not(agents: Seq<FactsView>, id: Seq<char>)
    ensures
        ids_where(agents, is_refreshed()).contains(id) <==> exists|i: int|
            0 <= i < agents.len() && (#[trigger] agents[i]).agent_id == id && (agents[i].spec matches Some(spec)
                && spec.claude_code && !spec.firecracker),
    decreases agents.len(),
{
    let all = ids_where(agents, is_refreshed());
    if agents.len() > 0 {
        let front = agents.drop_last();
        let before = ids_where(front, is_refreshed());
        law_the_host_refreshes_what_the_guest_does_not(front, id);
        assert forall|k: int| 0 <= k < front.len() implies front[k] == #[trigger] agents[k] by {}
        let last = agents.last();
        assert(agents[agents.len() - 1] == last);
        if before.contains(id) {
            let k = choose|k: int| 0 <= k < before.len() && before[k] == id;
            assert(all[k] == id);
        }
        if last.refreshed() {
            assert(all[before.len() as int] == last.agent_id);
        }
        if all.contains(id) && !before.contains(id) {
            let k = choose|k: int| 0 <= k < all.len() && all[k] == id;
            if k < before.len() {
                assert(before[k] == id);
            }
        }
        if exists|i: int|
            0 <= i < agents.len() && (#[trigger] agents[i]).agent_id == id && (agents[i].spec matches Some(spec)
                && spec.claude_code && !spec.firecracker) {
            let i = choose|i: int|
                0 <= i < agents.len() && (#[trigger] agents[i]).agent_id == id && (agents[i].spec matches Some(spec)
                    && spec.claude_code && !spec.firecracker);
            if i < front.len() {
                assert(front[i].agent_id == id);
            }
        }
    }
}

/// An agent asks for the knowledge graph where its description says so.
pub proof fn law_the_graph_is_asked_for_by_the_description(agent: FactsView)
    ensures
        agent.wants_graph() <==> (agent.spec matches Some(spec) && spec.knowledge_graph),
{
}

/// A dry run says from which session each agent's guest must claim.
pub proof fn law_a_dry_run_names_every_session(agents: Seq<RuntimeView>, i: int)
    ensures
        session_lines(agents).len() == agents.len() + 1,
        0 <= i < agents.len() ==> session_lines(agents)[i + 1] == "  "@ + agents[i].agent_id + " -> "@
            + agents[i].session_id,
    decreases agents.len(),
{
    if agents.len() > 0 {
        law_a_dry_run_names_every_session(agents.drop_last(), i);
    }
}

/// What follows a token flag is not printed, whatever it is.
pub proof fn law_the_value_of_a_token_flag_is_hidden(args: Seq<Seq<char>>, i: int)
    requires
        0 < i < args.len(),
        args[i - 1] == "--token"@,
        i == 1 || args[i - 2] != "--token"@,
    ensures
        redacted(args)[i] == "<redacted>"@,
        args[i] != "<redacted>"@ ==> redacted(args)[i] != args[i],
{
    reveal_with_fuel(secret_at, 3);
}

/// Where no flag stands before it, an argument is printed as it is.
pub proof fn law_an_argument_without_a_flag_is_shown(args: Seq<Seq<char>>, i: int)
    requires
        0 <= i < args.len(),
        i == 0 || args[i - 1] != "--token"@,
    ensures
        redacted(args)[i] == args[i],
        redacted(args).len() == args.len(),
{
    reveal_with_fuel(secret_at, 2);
}

/// A process that runs is left alone; one that stopped is started again, the
/// later the oftener it stopped within a minute, and what is said names it, how
/// it ended and the wait.
pub proof fn law_a_stopped_process_waits_before_it_starts_again(
    name: Seq<char>,
    critical: bool,
    restarts: u32,
    up_nanos: u64,
    status: Seq<char>,
    error: Seq<char>,
)
    ensures
        supervised(name, critical, restarts, up_nanos, ProcessState::Running) is Keep,
        supervised(name, critical, restarts, up_nanos, ProcessState::Unknown { error }) == (SupervisorStep::Warn {
            say: "up: failed to poll "@ + name + ": "@ + error,
        }),
        supervised(name, true, restarts, up_nanos, ProcessState::Exited { status }) == (SupervisorStep::Stop {
            message: "critical process "@ + name + " exited with "@ + status + "; shutting down the plane"@,
        }),
        ({
            let seen = if up_nanos > 60_000_000_000 {
                0
            } else {
                restarts
            };
            supervised(name, false, restarts, up_nanos, ProcessState::Exited { status }) matches SupervisorStep::Restart {
                say,
                backoff_seconds,
                restarts: after,
            } && {
                &&& seen < u32::MAX ==> after == seen + 1
                &&& seen == 0 ==> backoff_seconds == 1
                &&& seen == 1 ==> backoff_seconds == 2
                &&& seen == 2 ==> backoff_seconds == 4
                &&& seen == 3 ==> backoff_seconds == 8
                &&& seen > 3 ==> backoff_seconds == 16
                &&& say == "up: "@ + name + " exited with "@ + status + "; restarting in "@ + t::decimal(
                    backoff_seconds as nat,
                ) + "s"@
            }
        }),
{
}

/// The heartbeat of the supervisor tells of every process.
pub proof fn law_the_heartbeat_tells_of_every_process(
    pid: u32,
    at: Seq<char>,
    list: Seq<ProcessReport<String>>,
    i: int,
)
    ensures
        state_tree(pid, at, reports(list)) matches Tree::Record(fields) && fields.contains(("at"@, Tree::Text(at)))
            && fields.contains(("pid"@, Tree::Int(pid as int))) && fields.contains(
            ("processes"@, Tree::List(reports(list))),
        ),
        reports(list).len() == list.len(),
        0 <= i < list.len() ==> (reports(list)[i] matches Tree::Record(fields) && fields.contains(
            ("name"@, Tree::Text(list[i].name@)),
        ) && fields.contains(("pid"@, Tree::Int(list[i].pid as int))) && fields.contains(
            ("critical"@, Tree::Bool(list[i].critical)),
        ) && fields.contains(("restarts"@, Tree::Int(list[i].restarts as int))) && fields.contains(
            ("uptime_seconds"@, Tree::Int(list[i].uptime_seconds as int)),
        )),
{
    let fields = state_tree(pid, at, reports(list))->Record_0;
    assert(fields[1] == ("pid"@, Tree::Int(pid as int)));
    assert(fields[2] == ("at"@, Tree::Text(at)));
    assert(fields[3] == ("processes"@, Tree::List(reports(list))));
    if 0 <= i < list.len() {
        let own = reports(list)[i]->Record_0;
        assert(own[0] == ("name"@, Tree::Text(list[i].name@)));
        assert(own[1] == ("pid"@, Tree::Int(list[i].pid as int)));
        assert(own[2] == ("critical"@, Tree::Bool(list[i].critical)));
        assert(own[3] == ("restarts"@, Tree::Int(list[i].restarts as int)));
        assert(own[4] == ("uptime_seconds"@, Tree::Int(list[i].uptime_seconds as int)));
    }
}

/// Every agent runs, in the order in which the agents stand, with the session of
/// the command or else its own.
pub proof fn law_every_agent_runs_in_its_session(
    command: UpCommand<Seq<char>, Seq<Seq<char>>>,
    agents: Seq<FactsView>,
    i: int,
)
    requires
        0 <= i < agents.len(),
    ensures
        all_runtimes(command, agents) matches Ok(list) ==> list.len() == agents.len() && {
            &&& command.session_id matches Some(s) ==> list[i] == agents[i].runtime(command, s)
            &&& command.session_id is None ==> (agents[i].session matches Ok(s) && list[i] == agents[i].runtime(
                command,
                s,
            ))
        },
        all_runtimes(command, Seq::empty()) matches Ok(list) && list.len() == 0,
    decreases agents.len(),
{
    let front = agents.drop_last();
    reveal_with_fuel(all_runtimes, 2);
    if i < front.len() {
        law_every_agent_runs_in_its_session(command, front, i);
        assert(front[i] == agents[i]);
    } else if front.len() > 0 {
        law_every_agent_runs_in_its_session(command, front, 0);
    } else {
        assert(front =~= Seq::empty());
    }
}

} // verus!
