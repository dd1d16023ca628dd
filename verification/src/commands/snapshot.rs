//! Snapshots of agents, each of them audited.

use crate::commands::agent;
use crate::text as t;
use vstd::prelude::*;
use vstd::string::*;

verus! {

#[derive(Debug, PartialEq, Eq)]
pub enum SnapshotSubcommand<S> {
    List { agent_id: S, live: bool },
    Take { agent_id: S, name: S, live: bool },
    Restore { agent_id: S, name: S, live: bool },
}

impl View for SnapshotSubcommand<String> {
    type V = SnapshotSubcommand<Seq<char>>;

    open spec fn view(&self) -> SnapshotSubcommand<Seq<char>> {
        match self {
            SnapshotSubcommand::List { agent_id, live } => SnapshotSubcommand::List {
                agent_id: agent_id@,
                live: *live,
            },
            SnapshotSubcommand::Take { agent_id, name, live } => SnapshotSubcommand::Take {
                agent_id: agent_id@,
                name: name@,
                live: *live,
            },
            SnapshotSubcommand::Restore { agent_id, name, live } => SnapshotSubcommand::Restore {
                agent_id: agent_id@,
                name: name@,
                live: *live,
            },
        }
    }
}

pub open spec fn audit_event(operation: Seq<char>, live: bool, failed: bool) -> Seq<char> {
    if operation == "list"@ {
        match (live, failed) {
            (true, false) => "snapshot.list.live"@,
            (false, false) => "snapshot.list.local"@,
            (true, true) => "snapshot.list.live.failed"@,
            (false, true) => "snapshot.list.local.failed"@,
        }
    } else if operation == "take"@ {
        match (live, failed) {
            (true, false) => "snapshot.take.live"@,
            (false, false) => "snapshot.take.local"@,
            (true, true) => "snapshot.take.live.failed"@,
            (false, true) => "snapshot.take.local.failed"@,
        }
    } else if operation == "restore"@ {
        if failed {
            "snapshot.restore.live.failed"@
        } else {
            "snapshot.restore.live"@
        }
    } else {
        "snapshot.unknown.failed"@
    }
}

/// The name under which an operation is audited.
pub fn snapshot_audit_event(operation: &str, live: bool, failed: bool) -> (r: &'static str)
    ensures
        r@ == audit_event(operation@, live, failed),
{
    if t::same(operation, "list") {
        match (live, failed) {
            (true, false) => "snapshot.list.live",
            (false, false) => "snapshot.list.local",
            (true, true) => "snapshot.list.live.failed",
            (false, true) => "snapshot.list.local.failed",
        }
    } else if t::same(operation, "take") {
        match (live, failed) {
            (true, false) => "snapshot.take.live",
            (false, false) => "snapshot.take.local",
            (true, true) => "snapshot.take.live.failed",
            (false, true) => "snapshot.take.local.failed",
        }
    } else if t::same(operation, "restore") {
        if failed {
            "snapshot.restore.live.failed"
        } else {
            "snapshot.restore.live"
        }
    } else {
        "snapshot.unknown.failed"
    }
}

/// A snapshot, with its provider, kind and time as they are shown.
#[derive(Debug, PartialEq, Eq)]
pub struct SnapshotRecord<S> {
    pub name: S,
    pub provider: S,
    pub kind: S,
    pub created_at: S,
    pub state_path: Option<S>,
    pub memory_path: Option<S>,
    pub disk_path: Option<S>,
}

impl View for SnapshotRecord<String> {
    type V = SnapshotRecord<Seq<char>>;

    open spec fn view(&self) -> SnapshotRecord<Seq<char>> {
        SnapshotRecord {
            name: self.name@,
            provider: self.provider@,
            kind: self.kind@,
            created_at: self.created_at@,
            state_path: t::opt_view(self.state_path),
            memory_path: t::opt_view(self.memory_path),
            disk_path: t::opt_view(self.disk_path),
        }
    }
}

pub open spec fn records(v: Seq<SnapshotRecord<String>>) -> Seq<SnapshotRecord<Seq<char>>> {
    v.map_values(|x: SnapshotRecord<String>| x@)
}

impl SnapshotRecord<Seq<char>> {
    pub open spec fn report(self) -> Seq<char> {
        self.name + " "@ + self.provider + " "@ + self.kind + " "@ + self.created_at + "\n"@ + agent::status_line(
            "  state: "@,
            self.state_path,
        ) + agent::status_line("  memory: "@, self.memory_path) + agent::status_line("  disk: "@, self.disk_path)
    }
}

fn path_line(label: &str, path: &Option<String>) -> (r: String)
    ensures
        r@ == agent::status_line(label@, t::opt_view(*path)),
{
    match path {
        Some(p) => label.to_owned().concat(p.as_str()).concat("\n"),
        None => t::empty_text(),
    }
}

pub fn print_snapshot_record(snapshot: &SnapshotRecord<String>) -> (r: String)
    ensures
        r@ == snapshot@.report(),
{
    let mut out = snapshot.name.clone().concat(" ").concat(snapshot.provider.as_str()).concat(" ").concat(
        snapshot.kind.as_str(),
    ).concat(" ").concat(snapshot.created_at.as_str()).concat("\n");
    out.append(path_line("  state: ", &snapshot.state_path).as_str());
    out.append(path_line("  memory: ", &snapshot.memory_path).as_str());
    out.append(path_line("  disk: ", &snapshot.disk_path).as_str());
    out
}

pub open spec fn reports(list: Seq<SnapshotRecord<Seq<char>>>) -> Seq<char>
    decreases list.len(),
{
    if list.len() == 0 {
        Seq::empty()
    } else {
        reports(list.drop_last()) + list.last().report()
    }
}

fn print_records(list: &Vec<SnapshotRecord<String>>) -> (r: String)
    ensures
        r@ == reports(records(list@)),
{
    let ghost all = records(list@);
    let mut out = t::empty_text();
    let mut i: usize = 0;
    assert(all.take(0) =~= Seq::<SnapshotRecord<Seq<char>>>::empty());
    while i < list.len()
        invariant
            i <= list@.len(),
            all == records(list@),
            out@ == reports(all.take(i as int)),
        decreases list@.len() - i,
    {
        out.append(print_snapshot_record(&list[i]).as_str());
        assert(all.take(i + 1).drop_last() =~= all.take(i as int));
        assert(all.take(i + 1).last() == list@[i as int]@);
        i += 1;
    }
    assert(all.take(all.len() as int) =~= all);
    out
}

/// What came of a request for snapshots.
#[derive(Debug, PartialEq, Eq)]
pub enum SnapshotEvent<S, R> {
    /// What was asked for was done, to these snapshots.
    Done { list: R },
    /// It failed, with this error, and this is all that caused it.
    Failed { error: S, chain: S },
    /// The audit entry was written.
    Audited,
}

impl View for SnapshotEvent<String, Vec<SnapshotRecord<String>>> {
    type V = SnapshotEvent<Seq<char>, Seq<SnapshotRecord<Seq<char>>>>;

    open spec fn view(&self) -> SnapshotEvent<Seq<char>, Seq<SnapshotRecord<Seq<char>>>> {
        match self {
            SnapshotEvent::Done { list } => SnapshotEvent::Done { list: records(list@) },
            SnapshotEvent::Failed { error, chain } => SnapshotEvent::Failed {
                error: error@,
                chain: chain@,
            },
            SnapshotEvent::Audited => SnapshotEvent::Audited,
        }
    }
}

/// Where a command stands: what it waits for.
#[derive(Debug, PartialEq, Eq)]
pub enum SnapshotStage<S> {
    Working { command: SnapshotSubcommand<S> },
    /// A failure is audited; then the command ends with its error.
    Blaming { error: S },
    /// A success is audited.
    Praising { command: SnapshotSubcommand<S> },
    Ended,
}

impl View for SnapshotStage<String> {
    type V = SnapshotStage<Seq<char>>;

    open spec fn view(&self) -> SnapshotStage<Seq<char>> {
        match self {
            SnapshotStage::Working { command } => SnapshotStage::Working { command: command@ },
            SnapshotStage::Blaming { error } => SnapshotStage::Blaming { error: error@ },
            SnapshotStage::Praising { command } => SnapshotStage::Praising { command: command@ },
            SnapshotStage::Ended => SnapshotStage::Ended,
        }
    }
}

#[derive(Debug, PartialEq, Eq)]
pub enum SnapshotAction<S> {
    ListSnapshots { agent_id: S, live: bool },
    TakeSnapshot { agent_id: S, name: S, live: bool },
    RestoreSnapshot { agent_id: S, name: S, live: bool },
    Audit { agent_id: S, action: S, message: S },
    /// Count the turn before a rollback as a bad one, as far as that works.
    Penalize { agent_id: S, note: S },
    Finish,
    Fail { message: S },
    /// The event is not one that was waited for.
    Ignore,
}

impl View for SnapshotAction<String> {
    type V = SnapshotAction<Seq<char>>;

    open spec fn view(&self) -> SnapshotAction<Seq<char>> {
        match self {
            SnapshotAction::ListSnapshots { agent_id, live } => SnapshotAction::ListSnapshots {
                agent_id: agent_id@,
                live: *live,
            },
            SnapshotAction::TakeSnapshot { agent_id, name, live } => SnapshotAction::TakeSnapshot {
                agent_id: agent_id@,
                name: name@,
                live: *live,
            },
            SnapshotAction::RestoreSnapshot { agent_id, name, live } => SnapshotAction::RestoreSnapshot {
                agent_id: agent_id@,
                name: name@,
                live: *live,
            },
            SnapshotAction::Audit { agent_id, action, message } => SnapshotAction::Audit {
                agent_id: agent_id@,
                action: action@,
                message: message@,
            },
            SnapshotAction::Penalize { agent_id, note } => SnapshotAction::Penalize {
                agent_id: agent_id@,
                note: note@,
            },
            SnapshotAction::Finish => SnapshotAction::Finish,
            SnapshotAction::Fail { message } => SnapshotAction::Fail { message: message@ },
            SnapshotAction::Ignore => SnapshotAction::Ignore,
        }
    }
}

/// What a command does next: print the text as it is, then act.
#[derive(Debug, PartialEq, Eq)]
pub struct SnapshotStep<S> {
    pub say: S,
    pub action: SnapshotAction<S>,
}

impl View for SnapshotStep<String> {
    type V = SnapshotStep<Seq<char>>;

    open spec fn view(&self) -> SnapshotStep<Seq<char>> {
        SnapshotStep {
            say: self.say@,
            action: self.action@,
        }
    }
}

pub type StageView = SnapshotStage<Seq<char>>;

pub type StepView = SnapshotStep<Seq<char>>;

pub open spec fn acts(action: SnapshotAction<Seq<char>>) -> StepView {
    SnapshotStep { say: Seq::empty(), action }
}

fn act(action: SnapshotAction<String>) -> (r: SnapshotStep<String>)
    ensures
        r@ == acts(action@),
{
    SnapshotStep { say: t::empty_text(), action }
}

impl SnapshotSubcommand<Seq<char>> {
    pub open spec fn agent(self) -> Seq<char> {
        match self {
            SnapshotSubcommand::List { agent_id, .. } => agent_id,
            SnapshotSubcommand::Take { agent_id, .. } => agent_id,
            SnapshotSubcommand::Restore { agent_id, .. } => agent_id,
        }
    }

    pub open spec fn live(self) -> bool {
        match self {
            SnapshotSubcommand::List { live, .. } => live,
            SnapshotSubcommand::Take { live, .. } => live,
            SnapshotSubcommand::Restore { live, .. } => live,
        }
    }

    pub open spec fn operation(self) -> Seq<char> {
        match self {
            SnapshotSubcommand::List { .. } => "list"@,
            SnapshotSubcommand::Take { .. } => "take"@,
            SnapshotSubcommand::Restore { .. } => "restore"@,
        }
    }

    pub open spec fn request(self) -> SnapshotAction<Seq<char>> {
        match self {
            SnapshotSubcommand::List { agent_id, live } => SnapshotAction::ListSnapshots { agent_id, live },
            SnapshotSubcommand::Take { agent_id, name, live } => SnapshotAction::TakeSnapshot {
                agent_id,
                name,
                live,
            },
            SnapshotSubcommand::Restore { agent_id, name, live } => SnapshotAction::RestoreSnapshot {
                agent_id,
                name,
                live,
            },
        }
    }

    pub open spec fn failure_text(self, chain: Seq<char>) -> Seq<char> {
        match self {
            SnapshotSubcommand::List { .. } => "failed to list snapshots: "@ + chain,
            SnapshotSubcommand::Take { name, .. } => "failed to take snapshot "@ + name + ": "@ + chain,
            SnapshotSubcommand::Restore { name, .. } => "failed to restore snapshot "@ + name + ": "@ + chain,
        }
    }

    /// What is audited of a success; a snapshot that was taken or restored has a kind.
    pub open spec fn success_text(self, list: Seq<SnapshotRecord<Seq<char>>>) -> Seq<char> {
        let kind = if list.len() > 0 {
            list[0].kind
        } else {
            Seq::empty()
        };
        match self {
            SnapshotSubcommand::List { .. } => "listed snapshots through provider-aware Rust snapshot manager"@,
            SnapshotSubcommand::Take { name, .. } => "created "@ + kind + " snapshot "@ + name,
            SnapshotSubcommand::Restore { name, .. } => "restored "@ + kind + " snapshot "@ + name,
        }
    }
}

impl SnapshotStage<Seq<char>> {
    /// How a command goes on when an event comes.
    pub open spec fn next(self, event: SnapshotEvent<Seq<char>, Seq<SnapshotRecord<Seq<char>>>>) -> (
        StageView,
        StepView,
    ) {
        match (self, event) {
            (SnapshotStage::Working { command }, SnapshotEvent::Failed { error, chain }) => (
                SnapshotStage::Blaming { error },
                acts(
                    SnapshotAction::Audit {
                        agent_id: command.agent(),
                        action: audit_event(command.operation(), command.live(), true),
                        message: command.failure_text(chain),
                    },
                ),
            ),
            (SnapshotStage::Working { command }, SnapshotEvent::Done { list }) => (
                SnapshotStage::Praising { command },
                SnapshotStep {
                    say: reports(list),
                    action: SnapshotAction::Audit {
                        agent_id: command.agent(),
                        action: audit_event(command.operation(), command.live(), false),
                        message: command.success_text(list),
                    },
                },
            ),
            (SnapshotStage::Blaming { error }, SnapshotEvent::Audited) => (
                SnapshotStage::Ended,
                acts(SnapshotAction::Fail { message: error }),
            ),
            (SnapshotStage::Blaming { .. }, SnapshotEvent::Failed { error, .. }) => (
                SnapshotStage::Ended,
                acts(SnapshotAction::Fail { message: error }),
            ),
            (SnapshotStage::Praising { .. }, SnapshotEvent::Failed { error, .. }) => (
                SnapshotStage::Ended,
                acts(SnapshotAction::Fail { message: error }),
            ),
            (SnapshotStage::Praising { command }, SnapshotEvent::Audited) => match command {
                SnapshotSubcommand::Restore { agent_id, name, .. } => (
                    SnapshotStage::Ended,
                    acts(SnapshotAction::Penalize { agent_id, note: "rollback to "@ + name }),
                ),
                _ => (SnapshotStage::Ended, acts(SnapshotAction::Finish)),
            },
            _ => (self, acts(SnapshotAction::Ignore)),
        }
    }
}

fn parts(command: &SnapshotSubcommand<String>) -> (r: (String, &'static str, bool))
    ensures
        r.0@ == command@.agent(),
        r.1@ == command@.operation(),
        r.2 == command@.live(),
{
    match command {
        SnapshotSubcommand::List { agent_id, live } => (agent_id.clone(), "list", *live),
        SnapshotSubcommand::Take { agent_id, name: _, live } => (agent_id.clone(), "take", *live),
        SnapshotSubcommand::Restore { agent_id, name: _, live } => (agent_id.clone(), "restore", *live),
    }
}

/// Starts a command.
pub fn handle_snapshot(command: SnapshotSubcommand<String>) -> (r: (SnapshotStage<String>, SnapshotStep<String>))
    ensures
        r.0@ == (SnapshotStage::<Seq<char>>::Working { command: command@ }),
        r.1@ == acts(command@.request()),
{
    let action = match &command {
        SnapshotSubcommand::List { agent_id, live } => SnapshotAction::ListSnapshots {
            agent_id: agent_id.clone(),
            live: *live,
        },
        SnapshotSubcommand::Take { agent_id, name, live } => SnapshotAction::TakeSnapshot {
            agent_id: agent_id.clone(),
            name: name.clone(),
            live: *live,
        },
        SnapshotSubcommand::Restore { agent_id, name, live } => SnapshotAction::RestoreSnapshot {
            agent_id: agent_id.clone(),
            name: name.clone(),
            live: *live,
        },
    };
    (SnapshotStage::Working { command }, act(action))
}

impl SnapshotStage<String> {
    /// Goes on when an event comes.
    pub fn advance(self, event: SnapshotEvent<String, Vec<SnapshotRecord<String>>>) -> (r: (
        SnapshotStage<String>,
        SnapshotStep<String>,
    ))
        ensures
            (r.0@, r.1@) == self@.next(event@),
    {
        match (self, event) {
            (SnapshotStage::Working { command }, SnapshotEvent::Failed { error, chain }) => {
                let (agent_id, operation, live) = parts(&command);
                let message = match &command {
                    SnapshotSubcommand::List { .. } => "failed to list snapshots: ".to_owned().concat(
                        chain.as_str(),
                    ),
                    SnapshotSubcommand::Take { name, .. } => "failed to take snapshot ".to_owned().concat(
                        name.as_str(),
                    ).concat(": ").concat(chain.as_str()),
                    SnapshotSubcommand::Restore { name, .. } => "failed to restore snapshot ".to_owned().concat(
                        name.as_str(),
                    ).concat(": ").concat(chain.as_str()),
                };
                let action = snapshot_audit_event(operation, live, true).to_owned();
                (SnapshotStage::Blaming { error }, act(SnapshotAction::Audit { agent_id, action, message }))
            },
            (SnapshotStage::Working { command }, SnapshotEvent::Done { list }) => {
                let (agent_id, operation, live) = parts(&command);
                let ghost all = records(list@);
                let kind = if list.len() > 0 {
                    assert(all[0] == list@[0]@);
                    list[0].kind.clone()
                } else {
                    t::empty_text()
                };
                let message = match &command {
                    SnapshotSubcommand::List { .. } => {
                        "listed snapshots through provider-aware Rust snapshot manager".to_owned()
                    },
                    SnapshotSubcommand::Take { name, .. } => "created ".to_owned().concat(kind.as_str()).concat(
                        " snapshot ",
                    ).concat(name.as_str()),
                    SnapshotSubcommand::Restore { name, .. } => "restored ".to_owned().concat(
                        kind.as_str(),
                    ).concat(" snapshot ").concat(name.as_str()),
                };
                let say = print_records(&list);
                let action = snapshot_audit_event(operation, live, false).to_owned();
                (
                    SnapshotStage::Praising { command },
                    SnapshotStep { say, action: SnapshotAction::Audit { agent_id, action, message } },
                )
            },
            (SnapshotStage::Blaming { error }, SnapshotEvent::Audited) => (
                SnapshotStage::Ended,
                act(SnapshotAction::Fail { message: error }),
            ),
            (SnapshotStage::Blaming { .. }, SnapshotEvent::Failed { error, .. }) => (
                SnapshotStage::Ended,
                act(SnapshotAction::Fail { message: error }),
            ),
            (SnapshotStage::Praising { .. }, SnapshotEvent::Failed { error, .. }) => (
                SnapshotStage::Ended,
                act(SnapshotAction::Fail { message: error }),
            ),
            (SnapshotStage::Praising { command }, SnapshotEvent::Audited) => match command {
                SnapshotSubcommand::Restore { agent_id, name, live: _ } => (
                    SnapshotStage::Ended,
                    act(
                        SnapshotAction::Penalize {
                            agent_id,
                            note: "rollback to ".to_owned().concat(name.as_str()),
                        },
                    ),
                ),
                _ => (SnapshotStage::Ended, act(SnapshotAction::Finish)),
            },
            (stage, _) => (stage, act(SnapshotAction::Ignore)),
        }
    }
}

/// What is said of a penalty that was not recorded.
pub fn record_restore_penalty(agent_id: &str, outcome: Result<bool, &str>) -> (r: Option<String>)
    ensures
        t::opt_view(r) == match outcome {
            Ok(true) => None,
            Ok(false) => Some(
                "[maturana] note: no recorded turn for agent "@ + agent_id@ + "; rollback penalty not applied"@,
            ),
            Err(error) => Some(
                "[maturana] warning: could not record rollback penalty: "@ + "failed to record rollback penalty for "@
                    + agent_id@ + ": "@ + error@,
            ),
        },
{
    match outcome {
        Ok(true) => None,
        Ok(false) => Some(
            "[maturana] note: no recorded turn for agent ".to_owned().concat(agent_id).concat(
                "; rollback penalty not applied",
            ),
        ),
        Err(error) => Some(
            "[maturana] warning: could not record rollback penalty: ".to_owned().concat(
                "failed to record rollback penalty for ",
            ).concat(agent_id).concat(": ").concat(error),
        ),
    }
}

/// Whatever comes of a request, it is audited, under a name that tells whether
/// it failed; and a command whose request failed ends with an error.
pub proof fn law_every_request_is_audited(
    command: SnapshotSubcommand<Seq<char>>,
    event: SnapshotEvent<Seq<char>, Seq<SnapshotRecord<Seq<char>>>>,
    then_event: SnapshotEvent<Seq<char>, Seq<SnapshotRecord<Seq<char>>>>,
)
    requires
        event is Done || event is Failed,
        then_event is Audited || then_event is Failed,
    ensures
        ({
            let stage: StageView = SnapshotStage::Working { command };
            let (after, step) = stage.next(event);
            &&& step.action == (SnapshotAction::<Seq<char>>::Audit {
                agent_id: command.agent(),
                action: audit_event(command.operation(), command.live(), event is Failed),
                message: step.action->Audit_message,
            })
            &&& event is Failed ==> after.next(then_event).1.action is Fail
        }),
{
}

/// Each command asks for what it names, of the agent and the snapshot that it
/// names.
pub proof fn law_a_snapshot_command_asks_for_what_it_names(agent_id: Seq<char>, name: Seq<char>, live: bool)
    ensures
        ({
            let list = SnapshotSubcommand::List { agent_id, live };
            let take = SnapshotSubcommand::Take { agent_id, name, live };
            let restore = SnapshotSubcommand::Restore { agent_id, name, live };
            &&& list.request() matches SnapshotAction::ListSnapshots { agent_id: a, live: l } && a == agent_id && l == live
            &&& take.request() matches SnapshotAction::TakeSnapshot { agent_id: a, name: n, live: l } && a == agent_id
                && n == name && l == live
            &&& restore.request() matches SnapshotAction::RestoreSnapshot { agent_id: a, name: n, live: l } && a
                == agent_id && n == name && l == live
        }),
{
}

/// What was done is reported, snapshot by snapshot, and audited with the name of
/// the snapshot; a restore lowers the standing of the agent, and nothing else
/// does.
pub proof fn law_a_snapshot_is_reported_and_audited(
    agent_id: Seq<char>,
    name: Seq<char>,
    live: bool,
    list: Seq<SnapshotRecord<Seq<char>>>,
    error: Seq<char>,
    chain: Seq<char>,
)
    ensures
        ({
            let take: StageView = SnapshotStage::Working { command: SnapshotSubcommand::Take { agent_id, name, live } };
            let restore: StageView = SnapshotStage::Working {
                command: SnapshotSubcommand::Restore { agent_id, name, live },
            };
            let (taken, first) = take.next(SnapshotEvent::Done { list });
            let (restored, second) = restore.next(SnapshotEvent::Done { list });
            let (blaming, third) = take.next(SnapshotEvent::Failed { error, chain });
            &&& first.say == reports(list) && second.say == reports(list)
            &&& first.action matches SnapshotAction::Audit { agent_id: a, message, .. } && a == agent_id && t::ends(
                message,
                "snapshot "@ + name,
            )
            &&& taken.next(SnapshotEvent::Audited).1.action is Finish
            &&& second.action matches SnapshotAction::Audit { agent_id: a, .. } && a == agent_id
            &&& restored.next(SnapshotEvent::Audited).1.action == (SnapshotAction::<Seq<char>>::Penalize {
                agent_id,
                note: "rollback to "@ + name,
            })
            &&& third.action matches SnapshotAction::Audit { agent_id: a, message, .. } && a == agent_id && t::has(
                message,
                name,
            ) && t::ends(message, chain)
            &&& blaming.next(SnapshotEvent::Audited).1.action == (SnapshotAction::<Seq<char>>::Fail { message: error })
        }),
{
    let kind = if list.len() > 0 {
        list[0].kind
    } else {
        Seq::empty()
    };
    reveal_strlit(" snapshot ");
    reveal_strlit("snapshot ");
    let s = " snapshot "@;
    assert(s.len() == 10 && s.skip(1) =~= "snapshot "@);
    let m = "created "@ + kind + s + name;
    let z = "snapshot "@ + name;
    assert(m.subrange(m.len() - z.len(), m.len() as int) =~= z);
    let w = "failed to take snapshot "@ + name + ": "@ + chain;
    t::lemma_has_part("failed to take snapshot "@, name, ": "@ + chain);
    assert("failed to take snapshot "@ + name + (": "@ + chain) =~= w);
    assert(w.subrange(w.len() - chain.len(), w.len() as int) =~= chain);
}

/// Every snapshot is reported with its name, and the paths that it has.
pub proof fn law_every_snapshot_is_reported(list: Seq<SnapshotRecord<Seq<char>>>, i: int)
    requires
        0 <= i < list.len(),
    ensures
        t::has(reports(list), list[i].report()),
        t::starts(list[i].report(), list[i].name + " "@ + list[i].provider + " "@ + list[i].kind),
    decreases list.len(),
{
    let r = list[i].report();
    let head = list[i].name + " "@ + list[i].provider + " "@ + list[i].kind;
    assert(r.subrange(0, head.len() as int) =~= head);
    let front = reports(list.drop_last());
    let last = list.last().report();
    let e = Seq::<char>::empty();
    if i == list.len() - 1 {
        t::lemma_has_part(front, r, e);
        assert(front + r + e =~= front + r);
    } else {
        law_every_snapshot_is_reported(list.drop_last(), i);
        assert(list.drop_last()[i] == list[i]);
        t::lemma_has_inside(e, front, last, r);
        assert(e + front + last =~= front + last);
    }
}

/// What happened is audited under its own name: the operation, whether it was
/// live, and whether it failed.
pub proof fn law_a_snapshot_is_audited_under_its_name(live: bool)
    ensures
        audit_event("take"@, true, false) == "snapshot.take.live"@,
        audit_event("take"@, false, false) == "snapshot.take.local"@,
        audit_event("list"@, true, false) == "snapshot.list.live"@,
        audit_event("list"@, false, false) == "snapshot.list.local"@,
        audit_event("restore"@, live, false) == "snapshot.restore.live"@,
        audit_event("take"@, true, true) == "snapshot.take.live.failed"@,
        audit_event("take"@, false, true) == "snapshot.take.local.failed"@,
        audit_event("list"@, true, true) == "snapshot.list.live.failed"@,
        audit_event("list"@, false, true) == "snapshot.list.local.failed"@,
        audit_event("restore"@, live, true) == "snapshot.restore.live.failed"@,
{
    reveal_strlit("list");
    reveal_strlit("take");
    reveal_strlit("restore");
    assert("list"@.len() == 4 && "list"@[0] == 'l' && "list"@[1] == 'i' && "list"@[2] == 's' && "list"@[3] == 't');
    assert("take"@.len() == 4 && "take"@[0] == 't' && "take"@[1] == 'a' && "take"@[2] == 'k' && "take"@[3] == 'e');
    assert("restore"@.len() == 7 && "restore"@[0] == 'r' && "restore"@[1] == 'e' && "restore"@[2] == 's' && "restore"@[3] == 't' && "restore"@[4] == 'o' && "restore"@[5] == 'r');
}

} // verus!
