//! The commands on one agent: launching, inspecting, prompting it, and moving
//! files in and out of its guest.

use crate::http;
use crate::json::parse_json;
use crate::json;
use crate::text as t;
use vstd::prelude::*;
use vstd::string::*;

verus! {

/// A log of the guest.
#[derive(Clone, Copy, Debug, PartialEq, Eq, Structural)]
pub enum LogKind {
    Agent,
    Error,
    Stdout,
    Stderr,
    LastMessage,
}

impl LogKind {
    pub open spec fn name(self) -> Seq<char> {
        match self {
            LogKind::Agent => "agent"@,
            LogKind::Error => "error"@,
            LogKind::Stdout => "stdout"@,
            LogKind::Stderr => "stderr"@,
            LogKind::LastMessage => "last-message"@,
        }
    }

    pub fn as_str(self) -> (r: &'static str)
        ensures
            r@ == self.name(),
    {
        match self {
            LogKind::Agent => "agent",
            LogKind::Error => "error",
            LogKind::Stdout => "stdout",
            LogKind::Stderr => "stderr",
            LogKind::LastMessage => "last-message",
        }
    }

    pub open spec fn path(self) -> Seq<char> {
        match self {
            LogKind::Agent => "/var/log/maturana/agent.log"@,
            LogKind::Error => "/var/log/maturana/agent.err.log"@,
            LogKind::Stdout => "/var/log/maturana/harness.out.log"@,
            LogKind::Stderr => "/var/log/maturana/harness.err.log"@,
            LogKind::LastMessage => "/var/log/maturana/last-message.txt"@,
        }
    }

    /// Where the guest keeps the log.
    pub fn guest_path(self) -> (r: &'static str)
        ensures
            r@ == self.path(),
    {
        match self {
            LogKind::Agent => "/var/log/maturana/agent.log",
            LogKind::Error => "/var/log/maturana/agent.err.log",
            LogKind::Stdout => "/var/log/maturana/harness.out.log",
            LogKind::Stderr => "/var/log/maturana/harness.err.log",
            LogKind::LastMessage => "/var/log/maturana/last-message.txt",
        }
    }

    /// The command that shows the end of the log, or all of the last message.
    pub open spec fn command(self, lines: u16) -> Seq<char> {
        let path = self.path();
        if self is LastMessage {
            "test -f "@ + path + " && cat "@ + path + " || true"@
        } else {
            "test -f "@ + path + " && tail -n "@ + t::decimal(
                if lines < 1 {
                    1
                } else {
                    lines as nat
                },
            ) + " "@ + path + " || true"@
        }
    }
}

/// The command by which a log is read in the guest.
pub fn read_live_log(kind: LogKind, lines: u16) -> (r: String)
    ensures
        r@ == kind.command(lines),
{
    let path = kind.guest_path();
    match kind {
        LogKind::LastMessage => "test -f ".to_owned().concat(path).concat(" && cat ").concat(path).concat(" || true"),
        _ => {
            let n: u64 = if lines < 1 {
                1
            } else {
                lines as u64
            };
            "test -f ".to_owned().concat(path).concat(" && tail -n ").concat(t::u64_text(n).as_str()).concat(
                " ",
            ).concat(path).concat(" || true")
        },
    }
}

/// Which guest is meant, and how it is reached.
#[derive(Debug, PartialEq, Eq)]
pub struct Access<S> {
    pub agent_id: S,
    pub ip: Option<S>,
    pub ssh_user: S,
    pub ssh_key: S,
}

impl View for Access<String> {
    type V = Access<Seq<char>>;

    open spec fn view(&self) -> Access<Seq<char>> {
        Access {
            agent_id: self.agent_id@,
            ip: t::opt_view(self.ip),
            ssh_user: self.ssh_user@,
            ssh_key: self.ssh_key@,
        }
    }
}

/// A guest whose address is known.
#[derive(Debug, PartialEq, Eq)]
pub struct Guest<S> {
    pub agent_id: S,
    pub ip: S,
    pub ssh_user: S,
    pub ssh_key: S,
}

impl View for Guest<String> {
    type V = Guest<Seq<char>>;

    open spec fn view(&self) -> Guest<Seq<char>> {
        Guest {
            agent_id: self.agent_id@,
            ip: self.ip@,
            ssh_user: self.ssh_user@,
            ssh_key: self.ssh_key@,
        }
    }
}

/// What is to be done in a guest.
#[derive(Debug, PartialEq, Eq)]
pub enum GuestJob<S> {
    Logs { kind: LogKind, lines: u16 },
    Fetch { remote_path: S, local_path: S, recursive: bool },
    Push { local_path: S, remote_path: S, recursive: bool },
}

impl View for GuestJob<String> {
    type V = GuestJob<Seq<char>>;

    open spec fn view(&self) -> GuestJob<Seq<char>> {
        match self {
            GuestJob::Logs { kind, lines } => GuestJob::Logs { kind: *kind, lines: *lines },
            GuestJob::Fetch { remote_path, local_path, recursive } => GuestJob::Fetch {
                remote_path: remote_path@,
                local_path: local_path@,
                recursive: *recursive,
            },
            GuestJob::Push { local_path, remote_path, recursive } => GuestJob::Push {
                local_path: local_path@,
                remote_path: remote_path@,
                recursive: *recursive,
            },
        }
    }
}

#[derive(Debug, PartialEq, Eq)]
pub enum AgentSubcommand<S> {
    /// Write the plan of an agent, and with `apply` carry it out.
    Launch { spec: S, apply: bool },
    Inspect { access: Access<S>, live: bool, guest: bool },
    Stop { agent_id: S, live: bool },
    /// Chat with a running agent; the seconds bound the wait for each reply.
    Chat { agent_id: S, timeout_seconds: u64 },
    Run {
        access: Access<S>,
        prompt: Option<S>,
        prompt_file: Option<S>,
        wait: bool,
        timeout_seconds: u64,
    },
    Logs { access: Access<S>, kind: LogKind, lines: u16 },
    Fetch { access: Access<S>, remote_path: S, local_path: S, recursive: bool },
    Push { access: Access<S>, local_path: S, remote_path: S, recursive: bool },
}

impl View for AgentSubcommand<String> {
    type V = AgentSubcommand<Seq<char>>;

    open spec fn view(&self) -> AgentSubcommand<Seq<char>> {
        match self {
            AgentSubcommand::Launch { spec, apply } => AgentSubcommand::Launch {
                spec: spec@,
                apply: *apply,
            },
            AgentSubcommand::Inspect { access, live, guest } => AgentSubcommand::Inspect {
                access: access@,
                live: *live,
                guest: *guest,
            },
            AgentSubcommand::Stop { agent_id, live } => AgentSubcommand::Stop {
                agent_id: agent_id@,
                live: *live,
            },
            AgentSubcommand::Chat { agent_id, timeout_seconds } => AgentSubcommand::Chat {
                agent_id: agent_id@,
                timeout_seconds: *timeout_seconds,
            },
            AgentSubcommand::Run { access, prompt, prompt_file, wait, timeout_seconds } => AgentSubcommand::Run {
                access: access@,
                prompt: t::opt_view(*prompt),
                prompt_file: t::opt_view(*prompt_file),
                wait: *wait,
                timeout_seconds: *timeout_seconds,
            },
            AgentSubcommand::Logs { access, kind, lines } => AgentSubcommand::Logs {
                access: access@,
                kind: *kind,
                lines: *lines,
            },
            AgentSubcommand::Fetch { access, remote_path, local_path, recursive } => AgentSubcommand::Fetch {
                access: access@,
                remote_path: remote_path@,
                local_path: local_path@,
                recursive: *recursive,
            },
            AgentSubcommand::Push { access, local_path, remote_path, recursive } => AgentSubcommand::Push {
                access: access@,
                local_path: local_path@,
                remote_path: remote_path@,
                recursive: *recursive,
            },
        }
    }
}

/// What a provider reports of a running agent.
#[derive(Debug, PartialEq, Eq)]
pub struct LiveAgentStatus<S, L> {
    pub provider: S,
    pub state: S,
    pub vm_name: Option<S>,
    pub pid: Option<u32>,
    pub ipv4: Option<S>,
    pub uptime: Option<S>,
    pub socket_path: Option<S>,
    pub config_path: Option<S>,
    pub metadata_path: Option<S>,
    pub metrics_tail: L,
}

impl View for LiveAgentStatus<String, Vec<String>> {
    type V = LiveAgentStatus<Seq<char>, Seq<Seq<char>>>;

    open spec fn view(&self) -> LiveAgentStatus<Seq<char>, Seq<Seq<char>>> {
        LiveAgentStatus {
            provider: self.provider@,
            state: self.state@,
            vm_name: t::opt_view(self.vm_name),
            pid: self.pid,
            ipv4: t::opt_view(self.ipv4),
            uptime: t::opt_view(self.uptime),
            socket_path: t::opt_view(self.socket_path),
            config_path: t::opt_view(self.config_path),
            metadata_path: t::opt_view(self.metadata_path),
            metrics_tail: t::texts(self.metrics_tail@),
        }
    }
}

/// Where a command stands: what it waits for.
#[derive(Debug, PartialEq, Eq)]
pub enum AgentStage<S, L> {
    Reading { spec: S, apply: bool },
    Parsing { spec: S, raw: S, apply: bool },
    Token { raw: S },
    Materializing,
    Finding { access: Access<S>, live: bool, guest: bool },
    Loading { access: Access<S>, live: bool, guest: bool },
    Inspecting { access: Access<S>, guest: bool, headless: bool },
    Inspected { access: Access<S>, guest: bool, headless: bool, ipv4: Option<S> },
    ProbeKey { guest: Guest<S>, headless: bool },
    Probing { guest: Guest<S> },
    PromptReading { agent_id: S, path: S, wait: bool, timeout_seconds: u64 },
    Queueing { agent_id: S, wait: bool, timeout_seconds: u64 },
    Queued { agent_id: S, session_id: S, message_id: S, wait: bool, timeout_seconds: u64 },
    Awaiting { agent_id: S },
    Addressing { access: Access<S>, job: GuestJob<S> },
    Rooting { guest: Guest<S>, job: GuestJob<S> },
    Keying { guest: Guest<S>, job: GuestJob<S>, roots: L },
    Working { guest: Guest<S>, job: GuestJob<S> },
    /// One last thing is done; this is said when it is.
    Reporting { say: S },
    Ended,
}

impl View for AgentStage<String, Vec<String>> {
    type V = AgentStage<Seq<char>, Seq<Seq<char>>>;

    open spec fn view(&self) -> AgentStage<Seq<char>, Seq<Seq<char>>> {
        match self {
            AgentStage::Reading { spec, apply } => AgentStage::Reading {
                spec: spec@,
                apply: *apply,
            },
            AgentStage::Parsing { spec, raw, apply } => AgentStage::Parsing {
                spec: spec@,
                raw: raw@,
                apply: *apply,
            },
            AgentStage::Token { raw } => AgentStage::Token { raw: raw@ },
            AgentStage::Materializing => AgentStage::Materializing,
            AgentStage::Finding { access, live, guest } => AgentStage::Finding {
                access: access@,
                live: *live,
                guest: *guest,
            },
            AgentStage::Loading { access, live, guest } => AgentStage::Loading {
                access: access@,
                live: *live,
                guest: *guest,
            },
            AgentStage::Inspecting { access, guest, headless } => AgentStage::Inspecting {
                access: access@,
                guest: *guest,
                headless: *headless,
            },
            AgentStage::Inspected { access, guest, headless, ipv4 } => AgentStage::Inspected {
                access: access@,
                guest: *guest,
                headless: *headless,
                ipv4: t::opt_view(*ipv4),
            },
            AgentStage::ProbeKey { guest, headless } => AgentStage::ProbeKey {
                guest: guest@,
                headless: *headless,
            },
            AgentStage::Probing { guest } => AgentStage::Probing { guest: guest@ },
            AgentStage::PromptReading { agent_id, path, wait, timeout_seconds } => AgentStage::PromptReading {
                agent_id: agent_id@,
                path: path@,
                wait: *wait,
                timeout_seconds: *timeout_seconds,
            },
            AgentStage::Queueing { agent_id, wait, timeout_seconds } => AgentStage::Queueing {
                agent_id: agent_id@,
                wait: *wait,
                timeout_seconds: *timeout_seconds,
            },
            AgentStage::Queued { agent_id, session_id, message_id, wait, timeout_seconds } => AgentStage::Queued {
                agent_id: agent_id@,
                session_id: session_id@,
                message_id: message_id@,
                wait: *wait,
                timeout_seconds: *timeout_seconds,
            },
            AgentStage::Awaiting { agent_id } => AgentStage::Awaiting { agent_id: agent_id@ },
            AgentStage::Addressing { access, job } => AgentStage::Addressing {
                access: access@,
                job: job@,
            },
            AgentStage::Rooting { guest, job } => AgentStage::Rooting { guest: guest@, job: job@ },
            AgentStage::Keying { guest, job, roots } => AgentStage::Keying {
                guest: guest@,
                job: job@,
                roots: t::texts(roots@),
            },
            AgentStage::Working { guest, job } => AgentStage::Working { guest: guest@, job: job@ },
            AgentStage::Reporting { say } => AgentStage::Reporting { say: say@ },
            AgentStage::Ended => AgentStage::Ended,
        }
    }
}

#[derive(Debug, PartialEq, Eq)]
pub enum AgentEvent<S, L> {
    /// The action was carried out.
    Done,
    /// The action failed.
    Failed { error: S },
    /// A file was read, or a guest command has printed this.
    Text { text: S },
    /// The description of an agent was read.
    Parsed { graph: bool },
    Materialized { agent_id: S, dir: S, plan: S },
    Dir { exists: bool, dir: S, spec: S, plan: S },
    Loaded { headless: bool },
    Live { status: LiveAgentStatus<S, L> },
    Queued { session_id: S, message_id: S },
    Reply { message_id: S, text: S },
    Ip { ip: Option<S> },
    Roots { roots: L },
}

impl View for AgentEvent<String, Vec<String>> {
    type V = AgentEvent<Seq<char>, Seq<Seq<char>>>;

    open spec fn view(&self) -> AgentEvent<Seq<char>, Seq<Seq<char>>> {
        match self {
            AgentEvent::Done => AgentEvent::Done,
            AgentEvent::Failed { error } => AgentEvent::Failed { error: error@ },
            AgentEvent::Text { text } => AgentEvent::Text { text: text@ },
            AgentEvent::Parsed { graph } => AgentEvent::Parsed { graph: *graph },
            AgentEvent::Materialized { agent_id, dir, plan } => AgentEvent::Materialized {
                agent_id: agent_id@,
                dir: dir@,
                plan: plan@,
            },
            AgentEvent::Dir { exists, dir, spec, plan } => AgentEvent::Dir {
                exists: *exists,
                dir: dir@,
                spec: spec@,
                plan: plan@,
            },
            AgentEvent::Loaded { headless } => AgentEvent::Loaded { headless: *headless },
            AgentEvent::Live { status } => AgentEvent::Live { status: status@ },
            AgentEvent::Queued { session_id, message_id } => AgentEvent::Queued {
                session_id: session_id@,
                message_id: message_id@,
            },
            AgentEvent::Reply { message_id, text } => AgentEvent::Reply {
                message_id: message_id@,
                text: text@,
            },
            AgentEvent::Ip { ip } => AgentEvent::Ip { ip: t::opt_view(*ip) },
            AgentEvent::Roots { roots } => AgentEvent::Roots { roots: t::texts(roots@) },
        }
    }
}

#[derive(Debug, PartialEq, Eq)]
pub enum AgentAction<S, L> {
    ReadFile { path: S },
    /// Read the description of an agent.
    ParseSpec { path: S },
    EnsureGraphToken,
    Materialize { raw: S, apply: bool },
    FindDir { agent_id: S },
    /// Read the description of an agent that was launched.
    LoadSpec { path: S },
    InspectLive { agent_id: S },
    Audit { agent_id: S, action: S, message: S },
    /// Find the host key that the guest must show.
    ResolveHostKey { agent_id: S, ip: S },
    /// Run a command in the guest.
    RunRemote { guest: Guest<S>, command: S },
    StopAgent { agent_id: S },
    Chat { agent_id: S, timeout_seconds: u64 },
    Enqueue { agent_id: S, prompt: S },
    AwaitReply { agent_id: S, session_id: S, message_id: S, timeout_seconds: u64 },
    FindIp { agent_id: S },
    /// Find the directories of the guest that files may move in or out of.
    TransferRoots { agent_id: S, write: bool },
    Fetch { guest: Guest<S>, remote_path: S, local_path: S, roots: L, recursive: bool },
    Push { guest: Guest<S>, local_path: S, remote_path: S, roots: L, recursive: bool },
    /// End without an error.
    Finish,
    /// End with an error, and what caused it.
    Fail { message: S, cause: Option<S> },
    /// The event is not one that was waited for.
    Ignore,
}

impl View for AgentAction<String, Vec<String>> {
    type V = AgentAction<Seq<char>, Seq<Seq<char>>>;

    open spec fn view(&self) -> AgentAction<Seq<char>, Seq<Seq<char>>> {
        match self {
            AgentAction::ReadFile { path } => AgentAction::ReadFile { path: path@ },
            AgentAction::ParseSpec { path } => AgentAction::ParseSpec { path: path@ },
            AgentAction::EnsureGraphToken => AgentAction::EnsureGraphToken,
            AgentAction::Materialize { raw, apply } => AgentAction::Materialize {
                raw: raw@,
                apply: *apply,
            },
            AgentAction::FindDir { agent_id } => AgentAction::FindDir { agent_id: agent_id@ },
            AgentAction::LoadSpec { path } => AgentAction::LoadSpec { path: path@ },
            AgentAction::InspectLive { agent_id } => AgentAction::InspectLive {
                agent_id: agent_id@,
            },
            AgentAction::Audit { agent_id, action, message } => AgentAction::Audit {
                agent_id: agent_id@,
                action: action@,
                message: message@,
            },
            AgentAction::ResolveHostKey { agent_id, ip } => AgentAction::ResolveHostKey {
                agent_id: agent_id@,
                ip: ip@,
            },
            AgentAction::RunRemote { guest, command } => AgentAction::RunRemote {
                guest: guest@,
                command: command@,
            },
            AgentAction::StopAgent { agent_id } => AgentAction::StopAgent { agent_id: agent_id@ },
            AgentAction::Chat { agent_id, timeout_seconds } => AgentAction::Chat {
                agent_id: agent_id@,
                timeout_seconds: *timeout_seconds,
            },
            AgentAction::Enqueue { agent_id, prompt } => AgentAction::Enqueue {
                agent_id: agent_id@,
                prompt: prompt@,
            },
            AgentAction::AwaitReply { agent_id, session_id, message_id, timeout_seconds } => AgentAction::AwaitReply {
                agent_id: agent_id@,
                session_id: session_id@,
                message_id: message_id@,
                timeout_seconds: *timeout_seconds,
            },
            AgentAction::FindIp { agent_id } => AgentAction::FindIp { agent_id: agent_id@ },
            AgentAction::TransferRoots { agent_id, write } => AgentAction::TransferRoots {
                agent_id: agent_id@,
                write: *write,
            },
            AgentAction::Fetch { guest, remote_path, local_path, roots, recursive } => AgentAction::Fetch {
                guest: guest@,
                remote_path: remote_path@,
                local_path: local_path@,
                roots: t::texts(roots@),
                recursive: *recursive,
            },
            AgentAction::Push { guest, local_path, remote_path, roots, recursive } => AgentAction::Push {
                guest: guest@,
                local_path: local_path@,
                remote_path: remote_path@,
                roots: t::texts(roots@),
                recursive: *recursive,
            },
            AgentAction::Finish => AgentAction::Finish,
            AgentAction::Fail { message, cause } => AgentAction::Fail {
                message: message@,
                cause: t::opt_view(*cause),
            },
            AgentAction::Ignore => AgentAction::Ignore,
        }
    }
}

/// What a command does next: print the text as it is, then act.
#[derive(Debug, PartialEq, Eq)]
pub struct AgentStep<S, L> {
    pub say: S,
    pub action: AgentAction<S, L>,
}

impl View for AgentStep<String, Vec<String>> {
    type V = AgentStep<Seq<char>, Seq<Seq<char>>>;

    open spec fn view(&self) -> AgentStep<Seq<char>, Seq<Seq<char>>> {
        AgentStep {
            say: self.say@,
            action: self.action@,
        }
    }
}

pub type Stage = AgentStage<String, Vec<String>>;

pub type Step = AgentStep<String, Vec<String>>;

pub type StageView = AgentStage<Seq<char>, Seq<Seq<char>>>;

pub type StepView = AgentStep<Seq<char>, Seq<Seq<char>>>;

pub type ActionView = AgentAction<Seq<char>, Seq<Seq<char>>>;

pub open spec fn acts(action: ActionView) -> StepView {
    AgentStep { say: Seq::empty(), action }
}

pub open spec fn says(say: Seq<char>, action: ActionView) -> StepView {
    AgentStep { say, action }
}

pub open spec fn failure(message: Seq<char>) -> (StageView, StepView) {
    (AgentStage::Ended, acts(AgentAction::Fail { message, cause: None }))
}

fn act(action: AgentAction<String, Vec<String>>) -> (r: Step)
    ensures
        r@ == acts(action@),
{
    AgentStep { say: t::empty_text(), action }
}

fn fail(message: String) -> (r: (Stage, Step))
    ensures
        (r.0@, r.1@) == failure(message@),
{
    (AgentStage::Ended, act(AgentAction::Fail { message, cause: None }))
}

/// A line of the report, where there is something to report.
pub open spec fn status_line(label: Seq<char>, value: Option<Seq<char>>) -> Seq<char> {
    match value {
        Some(v) => label + v + "\n"@,
        None => Seq::empty(),
    }
}

fn print_status_line(label: &str, value: &Option<String>) -> (r: String)
    ensures
        r@ == status_line(label@, t::opt_view(*value)),
{
    match value {
        Some(v) => label.to_owned().concat(v.as_str()).concat("\n"),
        None => t::empty_text(),
    }
}

/// Each text on a line of its own.
pub open spec fn each_line(list: Seq<Seq<char>>) -> Seq<char>
    decreases list.len(),
{
    if list.len() == 0 {
        Seq::empty()
    } else {
        each_line(list.drop_last()) + list.last() + "\n"@
    }
}

pub fn print_lines(list: &Vec<String>) -> (r: String)
    ensures
        r@ == each_line(t::texts(list@)),
{
    let mut out = t::empty_text();
    let ghost all = t::texts(list@);
    let mut i: usize = 0;
    while i < list.len()
        invariant
            i <= list.len(),
            all == t::texts(list@),
            out@ == each_line(all.take(i as int)),
        decreases list.len() - i,
    {
        out.append(list[i].as_str());
        out.append("\n");
        assert(all.take(i + 1).drop_last() =~= all.take(i as int));
        assert(all.take(i + 1).last() == list@[i as int]@);
        i += 1;
    }
    assert(all.take(all.len() as int) =~= all);
    out
}

impl LiveAgentStatus<Seq<char>, Seq<Seq<char>>> {
    /// The report on a running agent.
    pub open spec fn report(self) -> Seq<char> {
        "live.provider: "@ + self.provider + "\nlive.state: "@ + self.state + "\n"@ + status_line(
            "live.vm: "@,
            self.vm_name,
        ) + status_line(
            "live.pid: "@,
            match self.pid {
                Some(pid) => Some(t::decimal(pid as nat)),
                None => None,
            },
        ) + status_line("live.ipv4: "@, self.ipv4) + status_line("live.uptime: "@, self.uptime) + status_line(
            "live.socket: "@,
            self.socket_path,
        ) + status_line("live.config: "@, self.config_path) + status_line("live.metadata: "@, self.metadata_path) + (
        if self.metrics_tail.len() == 0 {
            Seq::empty()
        } else {
            "live.metrics_tail:\n"@ + each_line(self.metrics_tail)
        })
    }
}

/// The report on a running agent, as it is printed.
pub fn print_live_agent_status(status: &LiveAgentStatus<String, Vec<String>>) -> (r: String)
    ensures
        r@ == status@.report(),
{
    let pid: Option<String> = match status.pid {
        Some(pid) => Some(t::u64_text(pid as u64)),
        None => None,
    };
    let mut out = "live.provider: ".to_owned().concat(status.provider.as_str()).concat("\nlive.state: ").concat(
        status.state.as_str(),
    ).concat("\n");
    out.append(print_status_line("live.vm: ", &status.vm_name).as_str());
    out.append(print_status_line("live.pid: ", &pid).as_str());
    out.append(print_status_line("live.ipv4: ", &status.ipv4).as_str());
    out.append(print_status_line("live.uptime: ", &status.uptime).as_str());
    out.append(print_status_line("live.socket: ", &status.socket_path).as_str());
    out.append(print_status_line("live.config: ", &status.config_path).as_str());
    out.append(print_status_line("live.metadata: ", &status.metadata_path).as_str());
    if status.metrics_tail.len() == 0 {
        out.append(t::empty_text().as_str());
    } else {
        let tail = "live.metrics_tail:\n".to_owned().concat(print_lines(&status.metrics_tail).as_str());
        out.append(tail.as_str());
    }
    out
}

/// The part of the probe that looks at the browser.
pub open spec fn browser_probe(headless_chrome: bool) -> Seq<char> {
    if headless_chrome {
        "echo \"live.browser_expected: true\"\necho \"live.browser_smoke:\"\nif [ -f /opt/maturana/bin/browser-smoke.js ]; then\n  PLAYWRIGHT_BROWSERS_PATH=\"${PLAYWRIGHT_BROWSERS_PATH:-/opt/maturana/browsers}\" node /opt/maturana/bin/browser-smoke.js 2>&1 | sed 's/^/live.browser_smoke_output: /' || true\nelse\n  echo \"live.browser_smoke_output: missing /opt/maturana/bin/browser-smoke.js\"\nfi\n"@
    } else {
        "echo \"live.browser_expected: false\"\n"@
    }
}

/// The script that reports the state of a guest. `coder` is the command of the
/// coding tool that stands beside codex and opencode.
pub open spec fn guest_state_script(headless_chrome: bool, coder: Seq<char>) -> Seq<char> {
    "set -eu\necho \"live.guest_ip: $(hostname -I 2>/dev/null | awk '{print $1}')\"\necho \"live.guest: $(hostname)\"\necho \"live.codex: $(command -v codex 2>/dev/null || true)\"\ncodex --version 2>/dev/null | sed 's/^/live.codex_version: /' || true\necho \"live."@ + coder + ": $(command -v "@ + coder + " 2>/dev/null || command -v "@ + coder + "-code 2>/dev/null || true)\"\n("@ + coder + " --version 2>/dev/null || "@ + coder + "-code --version 2>/dev/null || true) | sed 's/^/live."@ + coder + "_version: /' || true\necho \"live.opencode: $(command -v opencode 2>/dev/null || true)\"\nopencode --version 2>/dev/null | sed 's/^/live.opencode_version: /' || true\necho \"live.service: $(systemctl is-active maturana-agent.service 2>/dev/null || true)\"\necho \"live.rootfs: $(df -h / | awk 'NR==2 {print $2 \" total, \" $4 \" free\"}')\"\necho \"live.heartbeat: $(cat /var/log/maturana/heartbeat 2>/dev/null || true)\"\necho \"live.last_message:\"\ncat /var/log/maturana/last-message.txt 2>/dev/null || true\necho \"live.agent_log_tail:\"\ntail -n 20 /var/log/maturana/agent.log 2>/dev/null || true\n"@
        + browser_probe(headless_chrome)
}

pub fn render_live_guest_state_script(headless_chrome: bool, coder: &str) -> (r: String)
    ensures
        r@ == guest_state_script(headless_chrome, coder@),
{
    let probe = if headless_chrome {
        "echo \"live.browser_expected: true\"\necho \"live.browser_smoke:\"\nif [ -f /opt/maturana/bin/browser-smoke.js ]; then\n  PLAYWRIGHT_BROWSERS_PATH=\"${PLAYWRIGHT_BROWSERS_PATH:-/opt/maturana/browsers}\" node /opt/maturana/bin/browser-smoke.js 2>&1 | sed 's/^/live.browser_smoke_output: /' || true\nelse\n  echo \"live.browser_smoke_output: missing /opt/maturana/bin/browser-smoke.js\"\nfi\n"
    } else {
        "echo \"live.browser_expected: false\"\n"
    };
    "set -eu\necho \"live.guest_ip: $(hostname -I 2>/dev/null | awk '{print $1}')\"\necho \"live.guest: $(hostname)\"\necho \"live.codex: $(command -v codex 2>/dev/null || true)\"\ncodex --version 2>/dev/null | sed 's/^/live.codex_version: /' || true\necho \"live.".to_owned().concat(coder).concat(": $(command -v ").concat(coder).concat(" 2>/dev/null || command -v ").concat(coder).concat("-code 2>/dev/null || true)\"\n(").concat(coder).concat(" --version 2>/dev/null || ").concat(coder).concat("-code --version 2>/dev/null || true) | sed 's/^/live.").concat(coder).concat("_version: /' || true\necho \"live.opencode: $(command -v opencode 2>/dev/null || true)\"\nopencode --version 2>/dev/null | sed 's/^/live.opencode_version: /' || true\necho \"live.service: $(systemctl is-active maturana-agent.service 2>/dev/null || true)\"\necho \"live.rootfs: $(df -h / | awk 'NR==2 {print $2 \" total, \" $4 \" free\"}')\"\necho \"live.heartbeat: $(cat /var/log/maturana/heartbeat 2>/dev/null || true)\"\necho \"live.last_message:\"\ncat /var/log/maturana/last-message.txt 2>/dev/null || true\necho \"live.agent_log_tail:\"\ntail -n 20 /var/log/maturana/agent.log 2>/dev/null || true\n").concat(
        probe,
    )
}

/// Where the prompt of a run comes from.
#[derive(Debug, PartialEq, Eq)]
pub enum PromptSource<S> {
    Given { prompt: S },
    File { path: S },
    Refused { message: S },
}

impl View for PromptSource<String> {
    type V = PromptSource<Seq<char>>;

    open spec fn view(&self) -> PromptSource<Seq<char>> {
        match self {
            PromptSource::Given { prompt } => PromptSource::Given { prompt: prompt@ },
            PromptSource::File { path } => PromptSource::File { path: path@ },
            PromptSource::Refused { message } => PromptSource::Refused { message: message@ },
        }
    }
}

pub open spec fn prompt_source(prompt: Option<Seq<char>>, file: Option<Seq<char>>) -> PromptSource<Seq<char>> {
    match (prompt, file) {
        (Some(p), None) => if t::trimmed(p).len() > 0 {
            PromptSource::Given { prompt: p }
        } else {
            PromptSource::Refused { message: "agent run requires --prompt or --prompt-file"@ }
        },
        (None, Some(path)) => PromptSource::File { path },
        (Some(_), Some(_)) => PromptSource::Refused { message: "pass either --prompt or --prompt-file, not both"@ },
        (None, None) => PromptSource::Refused { message: "agent run requires --prompt or --prompt-file"@ },
    }
}

pub fn read_agent_prompt(prompt: Option<String>, prompt_file: Option<String>) -> (r: PromptSource<String>)
    ensures
        r@ == prompt_source(t::opt_view(prompt), t::opt_view(prompt_file)),
{
    match (prompt, prompt_file) {
        (Some(p), None) => {
            if t::trim(p.as_str()).unicode_len() > 0 {
                PromptSource::Given { prompt: p }
            } else {
                PromptSource::Refused { message: "agent run requires --prompt or --prompt-file".to_owned() }
            }
        },
        (None, Some(path)) => PromptSource::File { path },
        (Some(_), Some(_)) => PromptSource::Refused {
            message: "pass either --prompt or --prompt-file, not both".to_owned(),
        },
        (None, None) => PromptSource::Refused { message: "agent run requires --prompt or --prompt-file".to_owned() },
    }
}

pub open spec fn no_ip_text(agent_id: Seq<char>) -> Seq<char> {
    "could not discover live IP for "@ + agent_id + "; pass --ip explicitly"@
}

fn no_ip(agent_id: &str) -> (r: String)
    ensures
        r@ == no_ip_text(agent_id@),
{
    "could not discover live IP for ".to_owned().concat(agent_id).concat("; pass --ip explicitly")
}

impl Access<Seq<char>> {
    pub open spec fn at(self, ip: Seq<char>) -> Guest<Seq<char>> {
        Guest { agent_id: self.agent_id, ip, ssh_user: self.ssh_user, ssh_key: self.ssh_key }
    }
}

fn guest_at(access: Access<String>, ip: String) -> (r: Guest<String>)
    ensures
        r@ == access@.at(ip@),
{
    Guest { agent_id: access.agent_id, ip, ssh_user: access.ssh_user, ssh_key: access.ssh_key }
}

/// The first thing done in a guest whose address is known: a log is read with
/// the guest's host key; a transfer asks which directories it may touch.
pub open spec fn reached(guest: Guest<Seq<char>>, job: GuestJob<Seq<char>>) -> (StageView, StepView) {
    let agent_id = guest.agent_id;
    match job {
        GuestJob::Logs { .. } => (
            AgentStage::Keying { guest, job, roots: Seq::empty() },
            acts(AgentAction::ResolveHostKey { agent_id, ip: guest.ip }),
        ),
        GuestJob::Fetch { .. } => (
            AgentStage::Rooting { guest, job },
            acts(AgentAction::TransferRoots { agent_id, write: false }),
        ),
        GuestJob::Push { .. } => (
            AgentStage::Rooting { guest, job },
            acts(AgentAction::TransferRoots { agent_id, write: true }),
        ),
    }
}

fn reach(guest: Guest<String>, job: GuestJob<String>) -> (r: (Stage, Step))
    ensures
        (r.0@, r.1@) == reached(guest@, job@),
{
    let agent_id = guest.agent_id.clone();
    match job {
        GuestJob::Logs { kind, lines } => {
            let ip = guest.ip.clone();
            (
                AgentStage::Keying { guest, job: GuestJob::Logs { kind, lines }, roots: t::no_lines() },
                act(AgentAction::ResolveHostKey { agent_id, ip }),
            )
        },
        GuestJob::Fetch { remote_path, local_path, recursive } => (
            AgentStage::Rooting { guest, job: GuestJob::Fetch { remote_path, local_path, recursive } },
            act(AgentAction::TransferRoots { agent_id, write: false }),
        ),
        GuestJob::Push { local_path, remote_path, recursive } => (
            AgentStage::Rooting { guest, job: GuestJob::Push { local_path, remote_path, recursive } },
            act(AgentAction::TransferRoots { agent_id, write: true }),
        ),
    }
}

/// What is done in a guest that is to show a known host key.
pub open spec fn worked(guest: Guest<Seq<char>>, job: GuestJob<Seq<char>>, roots: Seq<Seq<char>>) -> ActionView {
    match job {
        GuestJob::Logs { kind, lines } => AgentAction::RunRemote { guest, command: kind.command(lines) },
        GuestJob::Fetch { remote_path, local_path, recursive } => AgentAction::Fetch {
            guest,
            remote_path,
            local_path,
            roots,
            recursive,
        },
        GuestJob::Push { local_path, remote_path, recursive } => AgentAction::Push {
            guest,
            local_path,
            remote_path,
            roots,
            recursive,
        },
    }
}

/// A command that names a guest starts with its address.
pub open spec fn addressed(access: Access<Seq<char>>, job: GuestJob<Seq<char>>) -> (StageView, StepView) {
    match access.ip {
        Some(ip) => reached(access.at(ip), job),
        None => (
            AgentStage::Addressing { access, job },
            acts(AgentAction::FindIp { agent_id: access.agent_id }),
        ),
    }
}

fn address(access: Access<String>, job: GuestJob<String>) -> (r: (Stage, Step))
    ensures
        (r.0@, r.1@) == addressed(access@, job@),
{
    match &access.ip {
        Some(ip) => {
            let ip = ip.clone();
            reach(guest_at(access, ip), job)
        },
        None => {
            let agent_id = access.agent_id.clone();
            (AgentStage::Addressing { access, job }, act(AgentAction::FindIp { agent_id }))
        },
    }
}

/// How a command starts.
pub open spec fn started(command: AgentSubcommand<Seq<char>>) -> (StageView, StepView) {
    match command {
        AgentSubcommand::Launch { spec, apply } => (
            AgentStage::Reading { spec, apply },
            acts(AgentAction::ReadFile { path: spec }),
        ),
        AgentSubcommand::Inspect { access, live, guest } => (
            AgentStage::Finding { access, live, guest },
            acts(AgentAction::FindDir { agent_id: access.agent_id }),
        ),
        AgentSubcommand::Stop { agent_id, live } => if live {
            (AgentStage::Reporting { say: Seq::empty() }, acts(AgentAction::StopAgent { agent_id }))
        } else {
            failure("agent stop currently requires --live"@)
        },
        AgentSubcommand::Chat { agent_id, timeout_seconds } => (
            AgentStage::Reporting { say: Seq::empty() },
            acts(AgentAction::Chat { agent_id, timeout_seconds }),
        ),
        AgentSubcommand::Run { access, prompt, prompt_file, wait, timeout_seconds } => match prompt_source(
            prompt,
            prompt_file,
        ) {
            PromptSource::Given { prompt } => (
                AgentStage::Queueing { agent_id: access.agent_id, wait, timeout_seconds },
                acts(AgentAction::Enqueue { agent_id: access.agent_id, prompt }),
            ),
            PromptSource::File { path } => (
                AgentStage::PromptReading { agent_id: access.agent_id, path, wait, timeout_seconds },
                acts(AgentAction::ReadFile { path }),
            ),
            PromptSource::Refused { message } => failure(message),
        },
        AgentSubcommand::Logs { access, kind, lines } => addressed(access, GuestJob::Logs { kind, lines }),
        AgentSubcommand::Fetch { access, remote_path, local_path, recursive } => addressed(
            access,
            GuestJob::Fetch { remote_path, local_path, recursive },
        ),
        AgentSubcommand::Push { access, local_path, remote_path, recursive } => addressed(
            access,
            GuestJob::Push { local_path, remote_path, recursive },
        ),
    }
}

/// Starts a command.
pub fn handle_agent(command: AgentSubcommand<String>) -> (r: (Stage, Step))
    ensures
        (r.0@, r.1@) == started(command@),
{
    match command {
        AgentSubcommand::Launch { spec, apply } => {
            let path = spec.clone();
            (AgentStage::Reading { spec, apply }, act(AgentAction::ReadFile { path }))
        },
        AgentSubcommand::Inspect { access, live, guest } => {
            let agent_id = access.agent_id.clone();
            (AgentStage::Finding { access, live, guest }, act(AgentAction::FindDir { agent_id }))
        },
        AgentSubcommand::Stop { agent_id, live } => if live {
            (AgentStage::Reporting { say: t::empty_text() }, act(AgentAction::StopAgent { agent_id }))
        } else {
            fail("agent stop currently requires --live".to_owned())
        },
        AgentSubcommand::Chat { agent_id, timeout_seconds } => (
            AgentStage::Reporting { say: t::empty_text() },
            act(AgentAction::Chat { agent_id, timeout_seconds }),
        ),
        AgentSubcommand::Run { access, prompt, prompt_file, wait, timeout_seconds } => {
            let agent_id = access.agent_id.clone();
            match read_agent_prompt(prompt, prompt_file) {
                PromptSource::Given { prompt } => (
                    AgentStage::Queueing { agent_id: access.agent_id, wait, timeout_seconds },
                    act(AgentAction::Enqueue { agent_id, prompt }),
                ),
                PromptSource::File { path } => {
                    let file = path.clone();
                    (
                        AgentStage::PromptReading { agent_id, path, wait, timeout_seconds },
                        act(AgentAction::ReadFile { path: file }),
                    )
                },
                PromptSource::Refused { message } => fail(message),
            }
        },
        AgentSubcommand::Logs { access, kind, lines } => address(access, GuestJob::Logs { kind, lines }),
        AgentSubcommand::Fetch { access, remote_path, local_path, recursive } => address(
            access,
            GuestJob::Fetch { remote_path, local_path, recursive },
        ),
        AgentSubcommand::Push { access, local_path, remote_path, recursive } => address(
            access,
            GuestJob::Push { local_path, remote_path, recursive },
        ),
    }
}

/// What is said where a failed action needs its context.
pub open spec fn context(stage: StageView) -> Option<Seq<char>> {
    match stage {
        AgentStage::Reading { spec, .. } => Some("failed to read "@ + spec),
        AgentStage::Parsing { spec, .. } => Some("failed to parse "@ + spec),
        AgentStage::PromptReading { path, .. } => Some("failed to read "@ + path),
        _ => None,
    }
}

/// An agent that is looked at: live, where that was asked for.
pub open spec fn looked(access: Access<Seq<char>>, live: bool, guest: bool, headless: bool, say: Seq<char>) -> (
    StageView,
    StepView,
) {
    if live {
        (
            AgentStage::Inspecting { access, guest, headless },
            says(say, AgentAction::InspectLive { agent_id: access.agent_id }),
        )
    } else {
        (AgentStage::Ended, says(say, AgentAction::Finish))
    }
}

fn look(access: Access<String>, live: bool, guest: bool, headless: bool, say: String) -> (r: (Stage, Step))
    ensures
        (r.0@, r.1@) == looked(access@, live, guest, headless, say@),
{
    if live {
        let agent_id = access.agent_id.clone();
        (
            AgentStage::Inspecting { access, guest, headless },
            AgentStep { say, action: AgentAction::InspectLive { agent_id } },
        )
    } else {
        (AgentStage::Ended, AgentStep { say, action: AgentAction::Finish })
    }
}

/// What is audited and then said once the work in a guest is done.
pub open spec fn reported(guest: Guest<Seq<char>>, job: GuestJob<Seq<char>>, output: Seq<char>) -> (
    Seq<char>,
    Seq<char>,
    Seq<char>,
) {
    match job {
        GuestJob::Logs { kind, .. } => (
            "agent.logs.live"@,
            "read live guest log "@ + kind.name() + " at "@ + guest.ip,
            output,
        ),
        GuestJob::Fetch { remote_path, local_path, .. } => (
            "agent.fetch.live"@,
            "fetched "@ + remote_path + " from guest at "@ + guest.ip + " to "@ + local_path,
            "fetched "@ + guest.agent_id + ":"@ + remote_path + " from "@ + guest.ip + " to "@ + local_path + "\n"@,
        ),
        GuestJob::Push { local_path, remote_path, .. } => (
            "agent.push.live"@,
            "pushed "@ + local_path + " to guest at "@ + guest.ip + ":"@ + remote_path,
            "pushed "@ + local_path + " to "@ + guest.agent_id + ":"@ + remote_path + " at "@ + guest.ip + "\n"@,
        ),
    }
}

pub open spec fn audits(agent_id: Seq<char>, action: Seq<char>, message: Seq<char>) -> ActionView {
    AgentAction::Audit { agent_id, action, message }
}

pub open spec fn queued_text(agent_id: Seq<char>, session_id: Seq<char>, message_id: Seq<char>) -> Seq<char> {
    "queued prompt for "@ + agent_id + " session "@ + session_id + " message "@ + message_id + "\n"@
}

impl AgentStage<Seq<char>, Seq<Seq<char>>> {
    /// How a command goes on when an event comes.
    pub open spec fn next(self, coder: Seq<char>, event: AgentEvent<Seq<char>, Seq<Seq<char>>>) -> (StageView, StepView) {
        match (self, event) {
            (AgentStage::Ended, _) => (self, acts(AgentAction::Ignore)),
            (_, AgentEvent::Failed { error }) => (
                AgentStage::Ended,
                acts(
                    match context(self) {
                        Some(message) => AgentAction::Fail { message, cause: Some(error) },
                        None => AgentAction::Fail { message: error, cause: None },
                    },
                ),
            ),
            (AgentStage::Reading { spec, apply }, AgentEvent::Text { text }) => (
                AgentStage::Parsing { spec, raw: text, apply },
                acts(AgentAction::ParseSpec { path: spec }),
            ),
            (AgentStage::Parsing { spec, raw, apply }, AgentEvent::Parsed { graph }) => if apply && graph {
                (AgentStage::Token { raw }, acts(AgentAction::EnsureGraphToken))
            } else {
                (AgentStage::Materializing, acts(AgentAction::Materialize { raw, apply }))
            },
            (AgentStage::Token { raw }, AgentEvent::Done) => (
                AgentStage::Materializing,
                acts(AgentAction::Materialize { raw, apply: true }),
            ),
            (AgentStage::Materializing, AgentEvent::Materialized { agent_id, dir, plan }) => (
                AgentStage::Ended,
                says(
                    "agent "@ + agent_id + " materialized at "@ + dir + "\nlaunch plan: "@ + plan + "\n"@,
                    AgentAction::Finish,
                ),
            ),
            (AgentStage::Finding { access, live, guest }, AgentEvent::Dir { exists, dir, spec, plan }) => {
                let say = "agent: "@ + access.agent_id + "\ndir: "@ + dir + "\nspec: "@ + spec + "\nplan: "@ + plan
                    + "\n"@;
                if !exists {
                    failure("agent does not exist: "@ + access.agent_id)
                } else if guest && !live {
                    (
                        AgentStage::Ended,
                        says(
                            say,
                            AgentAction::Fail { message: "agent inspect --guest requires --live"@, cause: None },
                        ),
                    )
                } else if guest || access.ip is Some {
                    (AgentStage::Loading { access, live, guest }, says(say, AgentAction::LoadSpec { path: spec }))
                } else {
                    looked(access, live, guest, false, say)
                }
            },
            (AgentStage::Loading { access, live, guest }, AgentEvent::Loaded { headless }) => looked(
                access,
                live,
                guest,
                headless,
                Seq::empty(),
            ),
            (AgentStage::Inspecting { access, guest, headless }, AgentEvent::Live { status }) => (
                AgentStage::Inspected { access, guest, headless, ipv4: status.ipv4 },
                says(
                    status.report(),
                    audits(
                        access.agent_id,
                        "agent.inspect.live"@,
                        "inspected live "@ + status.provider + " state"@,
                    ),
                ),
            ),
            (AgentStage::Inspected { access, guest, headless, ipv4 }, AgentEvent::Done) => {
                let ip = if access.ip is Some {
                    access.ip
                } else {
                    ipv4
                };
                if !guest && access.ip is None {
                    (AgentStage::Ended, acts(AgentAction::Finish))
                } else if ip is None {
                    failure(no_ip_text(access.agent_id))
                } else {
                    (
                        AgentStage::ProbeKey { guest: access.at(ip->0), headless },
                        acts(AgentAction::ResolveHostKey { agent_id: access.agent_id, ip: ip->0 }),
                    )
                }
            },
            (AgentStage::ProbeKey { guest, headless }, AgentEvent::Done) => (
                AgentStage::Probing { guest },
                acts(AgentAction::RunRemote { guest, command: guest_state_script(headless, coder) }),
            ),
            (AgentStage::Probing { guest }, AgentEvent::Text { text }) => (
                AgentStage::Reporting { say: Seq::empty() },
                says(
                    text,
                    audits(
                        guest.agent_id,
                        "agent.inspect.live.guest"@,
                        "inspected live guest at "@ + guest.ip + " over ssh"@,
                    ),
                ),
            ),
            (AgentStage::PromptReading { agent_id, path, wait, timeout_seconds }, AgentEvent::Text { text }) => {
                if t::trimmed(text).len() == 0 {
                    failure("prompt file is empty: "@ + path)
                } else {
                    (
                        AgentStage::Queueing { agent_id, wait, timeout_seconds },
                        acts(AgentAction::Enqueue { agent_id, prompt: text }),
                    )
                }
            },
            (
                AgentStage::Queueing { agent_id, wait, timeout_seconds },
                AgentEvent::Queued { session_id, message_id },
            ) => (
                AgentStage::Queued { agent_id, session_id, message_id, wait, timeout_seconds },
                acts(audits(agent_id, "agent.run.live"@, "queued live prompt in session "@ + session_id)),
            ),
            (
                AgentStage::Queued { agent_id, session_id, message_id, wait, timeout_seconds },
                AgentEvent::Done,
            ) => {
                let say = queued_text(agent_id, session_id, message_id);
                if wait {
                    (
                        AgentStage::Awaiting { agent_id },
                        says(say, AgentAction::AwaitReply { agent_id, session_id, message_id, timeout_seconds }),
                    )
                } else {
                    (AgentStage::Ended, says(say, AgentAction::Finish))
                }
            },
            (AgentStage::Awaiting { agent_id }, AgentEvent::Reply { message_id, text }) => (
                AgentStage::Reporting { say: text + "\n"@ },
                acts(audits(agent_id, "agent.run.live.completed"@, "session prompt completed as "@ + message_id)),
            ),
            (AgentStage::Addressing { access, job }, AgentEvent::Ip { ip }) => match ip {
                Some(ip) => reached(access.at(ip), job),
                None => failure(no_ip_text(access.agent_id)),
            },
            (AgentStage::Rooting { guest, job }, AgentEvent::Roots { roots }) => (
                AgentStage::Keying { guest, job, roots },
                acts(AgentAction::ResolveHostKey { agent_id: guest.agent_id, ip: guest.ip }),
            ),
            (AgentStage::Keying { guest, job, roots }, AgentEvent::Done) => (
                AgentStage::Working { guest, job },
                acts(worked(guest, job, roots)),
            ),
            (AgentStage::Working { guest, job }, AgentEvent::Text { text }) => if job is Logs {
                let (action, message, say) = reported(guest, job, text);
                (AgentStage::Reporting { say }, acts(audits(guest.agent_id, action, message)))
            } else {
                (self, acts(AgentAction::Ignore))
            },
            (AgentStage::Working { guest, job }, AgentEvent::Done) => if job is Logs {
                (self, acts(AgentAction::Ignore))
            } else {
                let (action, message, say) = reported(guest, job, Seq::empty());
                (AgentStage::Reporting { say }, acts(audits(guest.agent_id, action, message)))
            },
            (AgentStage::Reporting { say }, AgentEvent::Done) => (
                AgentStage::Ended,
                says(say, AgentAction::Finish),
            ),
            _ => (self, acts(AgentAction::Ignore)),
        }
    }
}

fn report(guest: &Guest<String>, job: &GuestJob<String>, output: String) -> (r: (String, String, String))
    ensures
        (r.0@, r.1@, r.2@) == reported(guest@, job@, output@),
{
    match job {
        GuestJob::Logs { kind, .. } => (
            "agent.logs.live".to_owned(),
            "read live guest log ".to_owned().concat(kind.as_str()).concat(" at ").concat(guest.ip.as_str()),
            output,
        ),
        GuestJob::Fetch { remote_path, local_path, .. } => (
            "agent.fetch.live".to_owned(),
            "fetched ".to_owned().concat(remote_path.as_str()).concat(" from guest at ").concat(
                guest.ip.as_str(),
            ).concat(" to ").concat(local_path.as_str()),
            "fetched ".to_owned().concat(guest.agent_id.as_str()).concat(":").concat(remote_path.as_str()).concat(
                " from ",
            ).concat(guest.ip.as_str()).concat(" to ").concat(local_path.as_str()).concat("\n"),
        ),
        GuestJob::Push { local_path, remote_path, .. } => (
            "agent.push.live".to_owned(),
            "pushed ".to_owned().concat(local_path.as_str()).concat(" to guest at ").concat(
                guest.ip.as_str(),
            ).concat(":").concat(remote_path.as_str()),
            "pushed ".to_owned().concat(local_path.as_str()).concat(" to ").concat(guest.agent_id.as_str()).concat(
                ":",
            ).concat(remote_path.as_str()).concat(" at ").concat(guest.ip.as_str()).concat("\n"),
        ),
    }
}

fn is_logs(job: &GuestJob<String>) -> (r: bool)
    ensures
        r == (job@ is Logs),
{
    match job {
        GuestJob::Logs { .. } => true,
        _ => false,
    }
}

fn copy_guest(guest: &Guest<String>) -> (r: Guest<String>)
    ensures
        r@ == guest@,
{
    Guest {
        agent_id: guest.agent_id.clone(),
        ip: guest.ip.clone(),
        ssh_user: guest.ssh_user.clone(),
        ssh_key: guest.ssh_key.clone(),
    }
}

fn work(guest: Guest<String>, job: &GuestJob<String>, roots: Vec<String>) -> (r: AgentAction<String, Vec<String>>)
    ensures
        r@ == worked(guest@, job@, t::texts(roots@)),
{
    match job {
        GuestJob::Logs { kind, lines } => AgentAction::RunRemote { guest, command: read_live_log(*kind, *lines) },
        GuestJob::Fetch { remote_path, local_path, recursive } => AgentAction::Fetch {
            guest,
            remote_path: remote_path.clone(),
            local_path: local_path.clone(),
            roots,
            recursive: *recursive,
        },
        GuestJob::Push { local_path, remote_path, recursive } => AgentAction::Push {
            guest,
            local_path: local_path.clone(),
            remote_path: remote_path.clone(),
            roots,
            recursive: *recursive,
        },
    }
}

fn explain(stage: &Stage) -> (r: Option<String>)
    ensures
        t::opt_view(r) == context(stage@),
{
    match stage {
        AgentStage::Reading { spec, .. } => Some("failed to read ".to_owned().concat(spec.as_str())),
        AgentStage::Parsing { spec, .. } => Some("failed to parse ".to_owned().concat(spec.as_str())),
        AgentStage::PromptReading { path, .. } => Some("failed to read ".to_owned().concat(path.as_str())),
        _ => None,
    }
}

impl AgentStage<String, Vec<String>> {
    /// Goes on when an event comes.
    #[verifier::rlimit(60)]
    pub fn advance(self, coder: &str, event: AgentEvent<String, Vec<String>>) -> (r: (Stage, Step))
        ensures
            (r.0@, r.1@) == self@.next(coder@, event@),
    {
        match (self, event) {
            (AgentStage::Ended, _) => (AgentStage::Ended, act(AgentAction::Ignore)),
            (stage, AgentEvent::Failed { error }) => {
                let action = match explain(&stage) {
                    Some(message) => AgentAction::Fail { message, cause: Some(error) },
                    None => AgentAction::Fail { message: error, cause: None },
                };
                (AgentStage::Ended, act(action))
            },
            (AgentStage::Reading { spec, apply }, AgentEvent::Text { text }) => {
                let path = spec.clone();
                (AgentStage::Parsing { spec, raw: text, apply }, act(AgentAction::ParseSpec { path }))
            },
            (AgentStage::Parsing { spec: _, raw, apply }, AgentEvent::Parsed { graph }) => {
                if apply && graph {
                    (AgentStage::Token { raw }, act(AgentAction::EnsureGraphToken))
                } else {
                    (AgentStage::Materializing, act(AgentAction::Materialize { raw, apply }))
                }
            },
            (AgentStage::Token { raw }, AgentEvent::Done) => (
                AgentStage::Materializing,
                act(AgentAction::Materialize { raw, apply: true }),
            ),
            (AgentStage::Materializing, AgentEvent::Materialized { agent_id, dir, plan }) => {
                let say = "agent ".to_owned().concat(agent_id.as_str()).concat(" materialized at ").concat(
                    dir.as_str(),
                ).concat("\nlaunch plan: ").concat(plan.as_str()).concat("\n");
                (AgentStage::Ended, AgentStep { say, action: AgentAction::Finish })
            },
            (AgentStage::Finding { access, live, guest }, AgentEvent::Dir { exists, dir, spec, plan }) => {
                if !exists {
                    return fail("agent does not exist: ".to_owned().concat(access.agent_id.as_str()));
                }
                let say = "agent: ".to_owned().concat(access.agent_id.as_str()).concat("\ndir: ").concat(
                    dir.as_str(),
                ).concat("\nspec: ").concat(spec.as_str()).concat("\nplan: ").concat(plan.as_str()).concat("\n");
                if guest && !live {
                    let message = "agent inspect --guest requires --live".to_owned();
                    (AgentStage::Ended, AgentStep { say, action: AgentAction::Fail { message, cause: None } })
                } else if guest || access.ip.is_some() {
                    (
                        AgentStage::Loading { access, live, guest },
                        AgentStep { say, action: AgentAction::LoadSpec { path: spec } },
                    )
                } else {
                    look(access, live, guest, false, say)
                }
            },
            (AgentStage::Loading { access, live, guest }, AgentEvent::Loaded { headless }) => look(
                access,
                live,
                guest,
                headless,
                t::empty_text(),
            ),
            (AgentStage::Inspecting { access, guest, headless }, AgentEvent::Live { status }) => {
                let say = print_live_agent_status(&status);
                let agent_id = access.agent_id.clone();
                let message = "inspected live ".to_owned().concat(status.provider.as_str()).concat(" state");
                let action = AgentAction::Audit { agent_id, action: "agent.inspect.live".to_owned(), message };
                (
                    AgentStage::Inspected { access, guest, headless, ipv4: status.ipv4 },
                    AgentStep { say, action },
                )
            },
            (AgentStage::Inspected { access, guest, headless, ipv4 }, AgentEvent::Done) => {
                if !guest && access.ip.is_none() {
                    return (AgentStage::Ended, act(AgentAction::Finish));
                }
                let found: Option<String> = match &access.ip {
                    Some(ip) => Some(ip.clone()),
                    None => ipv4,
                };
                match found {
                    Some(ip) => {
                        let agent_id = access.agent_id.clone();
                        let action = AgentAction::ResolveHostKey { agent_id, ip: ip.clone() };
                        (AgentStage::ProbeKey { guest: guest_at(access, ip), headless }, act(action))
                    },
                    None => fail(no_ip(access.agent_id.as_str())),
                }
            },
            (AgentStage::ProbeKey { guest, headless }, AgentEvent::Done) => {
                let action = AgentAction::RunRemote {
                    guest: copy_guest(&guest),
                    command: render_live_guest_state_script(headless, coder),
                };
                (AgentStage::Probing { guest }, act(action))
            },
            (AgentStage::Probing { guest }, AgentEvent::Text { text }) => {
                let message = "inspected live guest at ".to_owned().concat(guest.ip.as_str()).concat(" over ssh");
                let action = AgentAction::Audit {
                    agent_id: guest.agent_id,
                    action: "agent.inspect.live.guest".to_owned(),
                    message,
                };
                (AgentStage::Reporting { say: t::empty_text() }, AgentStep { say: text, action })
            },
            (AgentStage::PromptReading { agent_id, path, wait, timeout_seconds }, AgentEvent::Text { text }) => {
                if t::trim(text.as_str()).unicode_len() == 0 {
                    return fail("prompt file is empty: ".to_owned().concat(path.as_str()));
                }
                let action = AgentAction::Enqueue { agent_id: agent_id.clone(), prompt: text };
                (AgentStage::Queueing { agent_id, wait, timeout_seconds }, act(action))
            },
            (
                AgentStage::Queueing { agent_id, wait, timeout_seconds },
                AgentEvent::Queued { session_id, message_id },
            ) => {
                let message = "queued live prompt in session ".to_owned().concat(session_id.as_str());
                let action = AgentAction::Audit {
                    agent_id: agent_id.clone(),
                    action: "agent.run.live".to_owned(),
                    message,
                };
                (AgentStage::Queued { agent_id, session_id, message_id, wait, timeout_seconds }, act(action))
            },
            (
                AgentStage::Queued { agent_id, session_id, message_id, wait, timeout_seconds },
                AgentEvent::Done,
            ) => {
                let say = "queued prompt for ".to_owned().concat(agent_id.as_str()).concat(" session ").concat(
                    session_id.as_str(),
                ).concat(" message ").concat(message_id.as_str()).concat("\n");
                if wait {
                    let action = AgentAction::AwaitReply {
                        agent_id: agent_id.clone(),
                        session_id,
                        message_id,
                        timeout_seconds,
                    };
                    (AgentStage::Awaiting { agent_id }, AgentStep { say, action })
                } else {
                    (AgentStage::Ended, AgentStep { say, action: AgentAction::Finish })
                }
            },
            (AgentStage::Awaiting { agent_id }, AgentEvent::Reply { message_id, text }) => {
                let message = "session prompt completed as ".to_owned().concat(message_id.as_str());
                let action = AgentAction::Audit { agent_id, action: "agent.run.live.completed".to_owned(), message };
                (AgentStage::Reporting { say: text.concat("\n") }, act(action))
            },
            (AgentStage::Addressing { access, job }, AgentEvent::Ip { ip }) => match ip {
                Some(ip) => reach(guest_at(access, ip), job),
                None => fail(no_ip(access.agent_id.as_str())),
            },
            (AgentStage::Rooting { guest, job }, AgentEvent::Roots { roots }) => {
                let action = AgentAction::ResolveHostKey { agent_id: guest.agent_id.clone(), ip: guest.ip.clone() };
                (AgentStage::Keying { guest, job, roots }, act(action))
            },
            (AgentStage::Keying { guest, job, roots }, AgentEvent::Done) => {
                let action = work(copy_guest(&guest), &job, roots);
                (AgentStage::Working { guest, job }, act(action))
            },
            (AgentStage::Working { guest, job }, AgentEvent::Text { text }) => {
                if is_logs(&job) {
                    let (action, message, say) = report(&guest, &job, text);
                    (
                        AgentStage::Reporting { say },
                        act(AgentAction::Audit { agent_id: guest.agent_id, action, message }),
                    )
                } else {
                    (AgentStage::Working { guest, job }, act(AgentAction::Ignore))
                }
            },
            (AgentStage::Working { guest, job }, AgentEvent::Done) => {
                if is_logs(&job) {
                    (AgentStage::Working { guest, job }, act(AgentAction::Ignore))
                } else {
                    let (action, message, say) = report(&guest, &job, t::empty_text());
                    (
                        AgentStage::Reporting { say },
                        act(AgentAction::Audit { agent_id: guest.agent_id, action, message }),
                    )
                }
            },
            (AgentStage::Reporting { say }, AgentEvent::Done) => (
                AgentStage::Ended,
                AgentStep { say, action: AgentAction::Finish },
            ),
            (stage, _) => (stage, act(AgentAction::Ignore)),
        }
    }
}

/// The guest that an action works in.
pub open spec fn entered(action: ActionView) -> Option<Guest<Seq<char>>> {
    match action {
        AgentAction::RunRemote { guest, .. } => Some(guest),
        AgentAction::Fetch { guest, .. } => Some(guest),
        AgentAction::Push { guest, .. } => Some(guest),
        _ => None,
    }
}

/// The guest whose host key a command waits for.
pub open spec fn keyed(stage: StageView) -> Option<Guest<Seq<char>>> {
    match stage {
        AgentStage::ProbeKey { guest, .. } => Some(guest),
        AgentStage::Keying { guest, .. } => Some(guest),
        _ => None,
    }
}

/// A guest is entered only once its host key was found: a command that starts
/// enters none, a command that goes on enters only the guest whose key it was
/// waiting for, and it waits for a key only where it has just asked for it.
pub proof fn law_a_guest_is_entered_only_with_its_host_key(
    command: AgentSubcommand<Seq<char>>,
    stage: StageView,
    coder: Seq<char>,
    event: AgentEvent<Seq<char>, Seq<Seq<char>>>,
)
    ensures
        entered(started(command).1.action) is None,
        entered(stage.next(coder, event).1.action) matches Some(guest) ==> (event is Done && keyed(stage) == Some(guest)),
        keyed(started(command).0) matches Some(guest) ==> started(command).1.action == (
        AgentAction::<Seq<char>, Seq<Seq<char>>>::ResolveHostKey { agent_id: guest.agent_id, ip: guest.ip }),
        keyed(stage.next(coder, event).0) matches Some(guest) ==> (stage.next(coder, event).0 == stage
            || stage.next(coder, event).1.action == (AgentAction::<Seq<char>, Seq<Seq<char>>>::ResolveHostKey {
            agent_id: guest.agent_id,
            ip: guest.ip,
        })),
{
}

/// What was moved, read or asked is told only after it was audited.
pub proof fn law_what_was_done_is_told_after_the_audit(
    guest: Guest<Seq<char>>,
    job: GuestJob<Seq<char>>,
    coder: Seq<char>,
    event: AgentEvent<Seq<char>, Seq<Seq<char>>>,
)
    ensures
        ({
            let stage: StageView = AgentStage::Working { guest, job };
            let (after, step) = stage.next(coder, event);
            after is Reporting ==> step.say.len() == 0 && step.action is Audit && after.next(
                coder,
                AgentEvent::Done,
            ).1.say == after->Reporting_say
        }),
{
}

/// A failure always ends a command that still runs.
pub proof fn law_a_failure_ends_a_command(stage: StageView, coder: Seq<char>, error: Seq<char>)
    requires
        !(stage is Ended),
    ensures
        stage.next(coder, AgentEvent::Failed { error }).0 is Ended,
        stage.next(coder, AgentEvent::Failed { error }).1.action is Fail,
{
}

/// What a run says when nothing answered in time; nothing while there is
/// time. The wait lasts a second at least.
pub fn agent_run_expired(
    session_id: &str,
    message_id: &str,
    timeout_seconds: u64,
    elapsed_seconds: u64,
) -> (r: Option<String>)
    ensures
        t::opt_view(r) == if elapsed_seconds < 1 || elapsed_seconds < timeout_seconds {
            None
        } else {
            Some("timed out waiting for response to "@ + message_id@ + " in session "@ + session_id@)
        },
{
    if elapsed_seconds < 1 || elapsed_seconds < timeout_seconds {
        None
    } else {
        Some(
            "timed out waiting for response to ".to_owned().concat(message_id).concat(" in session ").concat(
                session_id,
            ),
        )
    }
}

/// The text of an outbound message, or why there is none.
pub open spec fn outbound_text(content: Seq<char>) -> Result<Seq<char>, Seq<char>> {
    match json::parsed_json(content) {
        Some(tree) => match tree.text_at("text"@) {
            Some(text) => Ok(text),
            None => Err("outbound message did not contain text"@),
        },
        None => Err("outbound message content was not JSON: "@ + content),
    }
}

pub open spec fn result_view(r: Result<String, String>) -> Result<Seq<char>, Seq<char>> {
    match r {
        Ok(s) => Ok(s@),
        Err(s) => Err(s@),
    }
}

pub fn outbound_message_text(content: &str) -> (r: Result<String, String>)
    ensures
        result_view(r) == outbound_text(content@),
{
    match parse_json(content) {
        Some(value) => message_text(&value),
        None => Err("outbound message content was not JSON: ".to_owned().concat(content)),
    }
}

/// The text of a parsed outbound message.
pub fn message_text(value: &json::Json) -> (r: Result<String, String>)
    ensures
        result_view(r) == match value.tree().text_at("text"@) {
            Some(text) => Ok(text),
            None => Err("outbound message did not contain text"@),
        },
{
    match value.text_at("text") {
        Some(text) => Ok(text),
        None => Err("outbound message did not contain text".to_owned()),
    }
}

/// Where an image lands in the guest, and in which directories it may land.
pub fn deliver_image_to_guest(
    agent_id: &str,
    key_exists: bool,
    file_name: Option<&str>,
    roots: Option<Vec<String>>,
) -> (r: Result<(String, Vec<String>), String>)
    ensures
        match r {
            Ok((remote, allowed)) => key_exists && remote@ == "/workspace/inbox/"@ + (match file_name {
                Some(name) => name@,
                None => "image"@,
            }) && t::texts(allowed@) == match roots {
                Some(v) => t::texts(v@),
                None => seq!["/workspace"@],
            },
            Err(message) => !key_exists && message@ == "no guest SSH key for "@ + agent_id@,
        },
{
    if !key_exists {
        return Err("no guest SSH key for ".to_owned().concat(agent_id));
    }
    let name = match file_name {
        Some(name) => name,
        None => "image",
    };
    let allowed = match roots {
        Some(v) => v,
        None => t::one_line("/workspace".to_owned()),
    };
    Ok(("/workspace/inbox/".to_owned().concat(name), allowed))
}

/// The arguments of the copy that pushes a path into a guest, after the
/// options that pin its host key.
pub open spec fn scp_args(ssh_key: Seq<char>, recursive: bool, local: Seq<char>, target: Seq<char>) -> Seq<
    Seq<char>,
> {
    let head = seq!["-o"@, "ConnectTimeout=10"@, "-i"@, ssh_key];
    t::added(head, recursive, "-r"@).push(local).push(target)
}

pub fn push_live_path(
    guest: &Guest<String>,
    local_path: &str,
    local_exists: bool,
    remote_path: &str,
    recursive: bool,
) -> (r: Result<Vec<String>, String>)
    ensures
        match r {
            Ok(args) => local_exists && t::texts(args@) == scp_args(
                guest.ssh_key@,
                recursive,
                local_path@,
                guest.ssh_user@ + "@"@ + guest.ip@ + ":"@ + remote_path@,
            ),
            Err(message) => !local_exists && message@ == "local path does not exist: "@ + local_path@,
        },
{
    if !local_exists {
        return Err("local path does not exist: ".to_owned().concat(local_path));
    }
    let mut args = t::two_lines("-o".to_owned(), "ConnectTimeout=10".to_owned());
    t::add_line(&mut args, "-i".to_owned());
    t::add_line(&mut args, guest.ssh_key.clone());
    assert(t::texts(args@) =~= seq!["-o"@, "ConnectTimeout=10"@, "-i"@, guest.ssh_key@]);
    t::add_if(&mut args, recursive, "-r");
    t::add_line(&mut args, local_path.to_owned());
    let target = guest.ssh_user.clone().concat("@").concat(guest.ip.as_str()).concat(":").concat(remote_path);
    t::add_line(&mut args, target);
    Ok(args)
}

/// What a failed copy reports.
pub fn scp_failed(stderr: &[u8]) -> (r: String)
    ensures
        r@ == "scp failed: "@ + t::trimmed(http::lossy(stderr@)),
{
    "scp failed: ".to_owned().concat(t::trim(http::lossy_text(stderr).as_str()).as_str())
}

/// The prompt of a run goes to the agent as it was given, from the command or
/// from a file; a blank one, both at once and none are refused.
pub proof fn law_a_prompt_is_queued_as_it_was_given(
    access: Access<Seq<char>>,
    prompt: Seq<char>,
    path: Seq<char>,
    wait: bool,
    timeout_seconds: u64,
    coder: Seq<char>,
)
    ensures
        ({
            let run = |p: Option<Seq<char>>, f: Option<Seq<char>>|
                started(AgentSubcommand::Run { access, prompt: p, prompt_file: f, wait, timeout_seconds });
            let queue: ActionView = AgentAction::Enqueue { agent_id: access.agent_id, prompt };
            let read = run(None, Some(path));
            &&& t::trimmed(prompt).len() > 0 ==> run(Some(prompt), None).1.action == queue
            &&& t::trimmed(prompt).len() == 0 ==> run(Some(prompt), None).1.action is Fail
            &&& run(Some(prompt), Some(path)).1.action is Fail
            &&& run(None, None).1.action is Fail
            &&& read.1.action == (ActionView::ReadFile { path })
            &&& t::trimmed(prompt).len() > 0 ==> read.0.next(coder, AgentEvent::Text { text: prompt }).1.action == queue
            &&& t::trimmed(prompt).len() == 0 ==> read.0.next(coder, AgentEvent::Text { text: prompt }).1.action is Fail
        }),
{
}

/// A queued prompt is audited and told of; its reply is awaited where that was
/// asked for, and what the agent replied is what is said.
pub proof fn law_a_reply_is_told_where_it_is_awaited(
    agent_id: Seq<char>,
    wait: bool,
    timeout_seconds: u64,
    session_id: Seq<char>,
    message_id: Seq<char>,
    reply: Seq<char>,
    coder: Seq<char>,
)
    ensures
        ({
            let queueing: StageView = AgentStage::Queueing { agent_id, wait, timeout_seconds };
            let (queued, first) = queueing.next(coder, AgentEvent::Queued { session_id, message_id });
            let (after, second) = queued.next(coder, AgentEvent::Done);
            let (telling, third) = after.next(coder, AgentEvent::Reply { message_id, text: reply });
            &&& first.action matches AgentAction::Audit { agent_id: a, message, .. } && a == agent_id && t::has(
                message,
                session_id,
            )
            &&& t::has(second.say, message_id)
            &&& !wait ==> second.action is Finish
            &&& wait ==> second.action == (ActionView::AwaitReply { agent_id, session_id, message_id, timeout_seconds })
            &&& wait ==> (third.action matches AgentAction::Audit { agent_id: a, .. } && a == agent_id)
            &&& wait ==> telling.next(coder, AgentEvent::Done).1.say == reply + "\n"@ && telling.next(
                coder,
                AgentEvent::Done,
            ).1.action is Finish
        }),
{
    let e = Seq::<char>::empty();
    let a = "queued live prompt in session "@;
    t::lemma_has_part(a, session_id, e);
    assert(a + session_id + e =~= a + session_id);
    t::lemma_has_part("queued prompt for "@ + agent_id + " session "@ + session_id + " message "@, message_id, "\n"@);
}

/// A transfer goes to the guest at the address that was given, or that was found
/// where none was: after the roots that it may touch, for reading or for writing,
/// and the key of the host are known, the very paths that were named are copied.
pub proof fn law_files_are_transferred_as_asked(
    access: Access<Seq<char>>,
    ip: Seq<char>,
    remote_path: Seq<char>,
    local_path: Seq<char>,
    recursive: bool,
    push: bool,
    roots: Seq<Seq<char>>,
    coder: Seq<char>,
)
    ensures
        ({
            let job: GuestJob<Seq<char>> = if push {
                GuestJob::Push { local_path, remote_path, recursive }
            } else {
                GuestJob::Fetch { remote_path, local_path, recursive }
            };
            let command: AgentSubcommand<Seq<char>> = if push {
                AgentSubcommand::Push { access, local_path, remote_path, recursive }
            } else {
                AgentSubcommand::Fetch { access, remote_path, local_path, recursive }
            };
            let guest = Guest { agent_id: access.agent_id, ip, ssh_user: access.ssh_user, ssh_key: access.ssh_key };
            let (begun, first) = started(command);
            let (found, at) = begun.next(coder, AgentEvent::Ip { ip: Some(ip) });
            let rooting: StageView = AgentStage::Rooting { guest, job };
            let roots_asked: ActionView = AgentAction::TransferRoots { agent_id: access.agent_id, write: push };
            let (keying, second) = rooting.next(coder, AgentEvent::Roots { roots });
            let third = keying.next(coder, AgentEvent::Done).1;
            &&& access.ip == Some(ip) ==> begun == rooting && first.action == roots_asked
            &&& access.ip is None ==> first.action == (ActionView::FindIp { agent_id: access.agent_id }) && found == rooting
                && at.action == roots_asked
            &&& access.ip is None ==> begun.next(coder, AgentEvent::Ip { ip: None }).1.action is Fail
            &&& second.action == (ActionView::ResolveHostKey { agent_id: access.agent_id, ip })
            &&& push ==> third.action == (ActionView::Push { guest, local_path, remote_path, roots, recursive })
            &&& !push ==> third.action == (ActionView::Fetch { guest, remote_path, local_path, roots, recursive })
        }),
{
}

/// The log that was named is read in the guest, and what it holds is told.
pub proof fn law_the_named_log_is_read(
    access: Access<Seq<char>>,
    ip: Seq<char>,
    kind: LogKind,
    lines: u16,
    text: Seq<char>,
    coder: Seq<char>,
)
    requires
        access.ip == Some(ip),
    ensures
        ({
            let guest = Guest { agent_id: access.agent_id, ip, ssh_user: access.ssh_user, ssh_key: access.ssh_key };
            let (keying, first) = started(AgentSubcommand::Logs { access, kind, lines });
            let (working, second) = keying.next(coder, AgentEvent::Done);
            let (telling, third) = working.next(coder, AgentEvent::Text { text });
            let last = telling.next(coder, AgentEvent::Done).1;
            &&& first.action == (ActionView::ResolveHostKey { agent_id: access.agent_id, ip })
            &&& second.action matches AgentAction::RunRemote { guest: g, command } && g == guest && t::has(
                command,
                if kind is LastMessage {
                    "/var/log/maturana/last-message.txt"@
                } else if kind is Agent {
                    "/var/log/maturana/agent.log"@
                } else if kind is Error {
                    "/var/log/maturana/agent.err.log"@
                } else if kind is Stdout {
                    "/var/log/maturana/harness.out.log"@
                } else {
                    "/var/log/maturana/harness.err.log"@
                },
            ) && (kind !is LastMessage && lines >= 1 ==> t::has(command, "tail -n "@ + t::decimal(lines as nat)))
            &&& third.action matches AgentAction::Audit { agent_id, .. } && agent_id == access.agent_id
            &&& last.say == text && last.action is Finish
        }),
{
    let path = kind.path();
    let head = "test -f "@;
    if kind is LastMessage {
        t::lemma_has_part(head, path, " && cat "@ + path + " || true"@);
        assert(head + path + (" && cat "@ + path + " || true"@) =~= kind.command(lines));
    } else {
        let n = t::decimal(
            if lines < 1 {
                1
            } else {
                lines as nat
            },
        );
        let mid = " && tail -n "@;
        t::lemma_has_part(head, path, mid + n + " "@ + path + " || true"@);
        assert(head + path + (mid + n + " "@ + path + " || true"@) =~= kind.command(lines));
        reveal_strlit(" && tail -n ");
        reveal_strlit("tail -n ");
        assert(mid.len() == 12 && mid.skip(4) =~= "tail -n "@);
        let x = "tail -n "@ + n;
        t::lemma_has_part(head + path + mid.take(4), x, " "@ + path + " || true"@);
        assert(head + path + mid.take(4) + x + (" "@ + path + " || true"@) =~= kind.command(lines));
    }
}

/// A description is launched as it is written: the token of the graph is made
/// first where it is applied and asks for a graph, and only there.
pub proof fn law_a_description_is_launched_as_written(
    spec: Seq<char>,
    raw: Seq<char>,
    apply: bool,
    graph: bool,
    agent_id: Seq<char>,
    dir: Seq<char>,
    plan: Seq<char>,
    coder: Seq<char>,
)
    ensures
        ({
            let (reading, first) = started(AgentSubcommand::Launch { spec, apply });
            let (parsing, second) = reading.next(coder, AgentEvent::Text { text: raw });
            let (after, third) = parsing.next(coder, AgentEvent::Parsed { graph });
            let made: ActionView = AgentAction::Materialize { raw, apply };
            let (done, last) = AgentStage::<Seq<char>, Seq<Seq<char>>>::Materializing.next(
                coder,
                AgentEvent::Materialized { agent_id, dir, plan },
            );
            &&& first.action == (ActionView::ReadFile { path: spec })
            &&& second.action == (ActionView::ParseSpec { path: spec })
            &&& apply && graph ==> third.action is EnsureGraphToken && after.next(coder, AgentEvent::Done).1.action == made
                && after.next(coder, AgentEvent::Done).0 is Materializing
            &&& !(apply && graph) ==> third.action == made && after is Materializing
            &&& last.action is Finish && done is Ended
            &&& t::has(last.say, agent_id) && t::has(last.say, plan)
        }),
{
    let a = "agent "@;
    let b = " materialized at "@ + dir + "\nlaunch plan: "@;
    let all = "agent "@ + agent_id + " materialized at "@ + dir + "\nlaunch plan: "@ + plan + "\n"@;
    t::lemma_has_part(a, agent_id, b + plan + "\n"@);
    assert(a + agent_id + (b + plan + "\n"@) =~= all);
    t::lemma_has_part(a + agent_id + b, plan, "\n"@);
    assert(a + agent_id + b + plan + "\n"@ =~= all);
}

/// An agent that is there is told of; its live state is looked at only where that
/// was asked for, and its guest only with it.
pub proof fn law_an_agent_is_inspected_as_far_as_asked(
    access: Access<Seq<char>>,
    live: bool,
    guest: bool,
    dir: Seq<char>,
    spec: Seq<char>,
    plan: Seq<char>,
    headless: bool,
    coder: Seq<char>,
)
    ensures
        ({
            let (finding, first) = started(AgentSubcommand::Inspect { access, live, guest });
            let (after, found) = finding.next(coder, AgentEvent::Dir { exists: true, dir, spec, plan });
            let lost = finding.next(coder, AgentEvent::Dir { exists: false, dir, spec, plan }).1;
            let look: ActionView = AgentAction::InspectLive { agent_id: access.agent_id };
            let loaded = after.next(coder, AgentEvent::Loaded { headless }).1;
            &&& first.action == (ActionView::FindDir { agent_id: access.agent_id })
            &&& lost.action is Fail
            &&& t::has(found.say, dir)
            &&& guest && !live ==> found.action is Fail
            &&& (guest && live) || (!guest && access.ip is Some) ==> found.action == (ActionView::LoadSpec { path: spec })
                && (live ==> loaded.action == look) && (!live ==> loaded.action is Finish)
            &&& !guest && access.ip is None && live ==> found.action == look
            &&& !guest && access.ip is None && !live ==> found.action is Finish
        }),
{
    let a = "agent: "@ + access.agent_id + "\ndir: "@;
    let b = "\nspec: "@ + spec + "\nplan: "@ + plan + "\n"@;
    t::lemma_has_part(a, dir, b);
    assert(a + dir + b =~= "agent: "@ + access.agent_id + "\ndir: "@ + dir + "\nspec: "@ + spec + "\nplan: "@ + plan
        + "\n"@);
}

/// The guest is looked into at the address that was given, else at the one that
/// was found; where there is none, the command says so.
pub proof fn law_the_guest_is_found_at_its_address(
    access: Access<Seq<char>>,
    guest: bool,
    headless: bool,
    ipv4: Option<Seq<char>>,
    coder: Seq<char>,
)
    ensures
        ({
            let stage: StageView = AgentStage::Inspected { access, guest, headless, ipv4 };
            let (probing, step) = stage.next(coder, AgentEvent::Done);
            &&& access.ip matches Some(ip) ==> step.action == (ActionView::ResolveHostKey {
                agent_id: access.agent_id,
                ip,
            })
            &&& access.ip is None && guest ==> (ipv4 matches Some(ip) ==> step.action == (ActionView::ResolveHostKey {
                agent_id: access.agent_id,
                ip,
            }))
            &&& access.ip is None && guest && ipv4 is None ==> step.action is Fail
            &&& access.ip is None && !guest ==> step.action is Finish
            &&& step.action is ResolveHostKey ==> (probing.next(coder, AgentEvent::Done).1.action matches AgentAction::RunRemote {
                guest: g,
                command,
            } && g.agent_id == access.agent_id && command == guest_state_script(headless, coder))
        }),
{
}

/// An agent is stopped only with the word that it is live; a chat goes to the
/// agent that was named.
pub proof fn law_an_agent_is_stopped_only_live(agent_id: Seq<char>, timeout_seconds: u64)
    ensures
        started(AgentSubcommand::Stop { agent_id, live: true }).1.action == (ActionView::StopAgent { agent_id }),
        started(AgentSubcommand::Stop { agent_id, live: false }).1.action is Fail,
        started(AgentSubcommand::Chat { agent_id, timeout_seconds }).1.action == (ActionView::Chat {
            agent_id,
            timeout_seconds,
        }),
{
}

/// A failure is told with what failed.
pub proof fn law_a_failure_is_told_with_its_cause(
    spec: Seq<char>,
    apply: bool,
    raw: Seq<char>,
    coder: Seq<char>,
    error: Seq<char>,
    access: Access<Seq<char>>,
    job: GuestJob<Seq<char>>,
)
    ensures
        ({
            let reading: StageView = AgentStage::Reading { spec, apply };
            let parsing: StageView = AgentStage::Parsing { spec, raw, apply };
            let addressing: StageView = AgentStage::Addressing { access, job };
            &&& reading.next(coder, AgentEvent::Failed { error }).1.action == (ActionView::Fail {
                message: "failed to read "@ + spec,
                cause: Some(error),
            })
            &&& parsing.next(coder, AgentEvent::Failed { error }).1.action == (ActionView::Fail {
                message: "failed to parse "@ + spec,
                cause: Some(error),
            })
            &&& addressing.next(coder, AgentEvent::Failed { error }).1.action == (ActionView::Fail {
                message: error,
                cause: None,
            })
        }),
{
}

/// Files are copied with the key that was named, recursively only where that was
/// asked for, and the target stands last.
pub proof fn law_files_are_copied_with_the_named_key(
    ssh_key: Seq<char>,
    recursive: bool,
    local: Seq<char>,
    target: Seq<char>,
)
    ensures
        ({
            let args = scp_args(ssh_key, recursive, local, target);
            &&& args.last() == target
            &&& args[args.len() - 2] == local
            &&& args[2] == "-i"@ && args[3] == ssh_key
            &&& recursive ==> args.len() == 7 && args[4] == "-r"@
            &&& !recursive ==> args.len() == 6
        }),
{
}

} // verus!
