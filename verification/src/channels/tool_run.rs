//! Running a tool from a chat, with a status message that moves while it runs.

use crate::channels::stream;
use crate::channels::stream::{tool_missing_text, tool_report, Phase, ToolReport, ToolRun};
use vstd::prelude::*;
use vstd::string::*;

verus! {

/// Where a run stands: what it waits for. `status` is the status message, where
/// one could be sent, and `tick` the frame that it shows next.
#[derive(Debug, PartialEq, Eq)]
pub enum ToolRunStage<S> {
    Finding { name: S, input: S },
    /// For the refusal to be sent.
    Refusing,
    Posting { name: S, input: S },
    /// For the tool, or for the time of the next frame.
    Waiting { name: S, input: S, status: Option<i64>, tick: u64 },
    /// For a frame to be shown.
    Moving { name: S, input: S, status: Option<i64>, tick: u64 },
    Opening { report: ToolReport<S>, status: Option<i64>, tick: u64 },
    /// For the last frame to be shown.
    Showing { report: ToolReport<S> },
    Telling { report: ToolReport<S> },
    Recording { report: ToolReport<S> },
    Auditing,
    Ended,
}

impl View for ToolRunStage<String> {
    type V = ToolRunStage<Seq<char>>;

    open spec fn view(&self) -> ToolRunStage<Seq<char>> {
        match self {
            ToolRunStage::Finding { name, input } => ToolRunStage::Finding {
                name: name@,
                input: input@,
            },
            ToolRunStage::Refusing => ToolRunStage::Refusing,
            ToolRunStage::Posting { name, input } => ToolRunStage::Posting {
                name: name@,
                input: input@,
            },
            ToolRunStage::Waiting { name, input, status, tick } => ToolRunStage::Waiting {
                name: name@,
                input: input@,
                status: *status,
                tick: *tick,
            },
            ToolRunStage::Moving { name, input, status, tick } => ToolRunStage::Moving {
                name: name@,
                input: input@,
                status: *status,
                tick: *tick,
            },
            ToolRunStage::Opening { report, status, tick } => ToolRunStage::Opening {
                report: report@,
                status: *status,
                tick: *tick,
            },
            ToolRunStage::Showing { report } => ToolRunStage::Showing { report: report@ },
            ToolRunStage::Telling { report } => ToolRunStage::Telling { report: report@ },
            ToolRunStage::Recording { report } => ToolRunStage::Recording { report: report@ },
            ToolRunStage::Auditing => ToolRunStage::Auditing,
            ToolRunStage::Ended => ToolRunStage::Ended,
        }
    }
}

#[derive(Debug, PartialEq, Eq)]
pub enum ToolRunEvent<S> {
    Found { known: bool },
    Posted { id: Option<i64> },
    /// It is time for the next frame.
    Tick,
    Ran { run: ToolRun },
    /// The tool could not be run.
    NotRun { error: S },
    /// What ran the tool is gone.
    Lost,
    Done,
    Failed,
}

impl View for ToolRunEvent<String> {
    type V = ToolRunEvent<Seq<char>>;

    open spec fn view(&self) -> ToolRunEvent<Seq<char>> {
        match self {
            ToolRunEvent::Found { known } => ToolRunEvent::Found { known: *known },
            ToolRunEvent::Posted { id } => ToolRunEvent::Posted { id: *id },
            ToolRunEvent::Tick => ToolRunEvent::Tick,
            ToolRunEvent::Ran { run } => ToolRunEvent::Ran { run: *run },
            ToolRunEvent::NotRun { error } => ToolRunEvent::NotRun { error: error@ },
            ToolRunEvent::Lost => ToolRunEvent::Lost,
            ToolRunEvent::Done => ToolRunEvent::Done,
            ToolRunEvent::Failed => ToolRunEvent::Failed,
        }
    }
}

#[derive(Debug, PartialEq, Eq)]
pub enum ToolRunAction<S> {
    Find { name: S },
    Send { text: S },
    /// Send the status message.
    Post { phase: Phase<S>, tick: u64 },
    /// Start the tool, and wait for it or for the next frame.
    Start { name: S, input: S },
    Wait,
    Edit { id: i64, phase: Phase<S>, tick: u64 },
    OpenStore,
    Record { input: S, output: S },
    Audit { message: S },
    Finish,
    /// End with the error that came last.
    Fail,
    /// The event is not one that was waited for.
    Ignore,
}

impl View for ToolRunAction<String> {
    type V = ToolRunAction<Seq<char>>;

    open spec fn view(&self) -> ToolRunAction<Seq<char>> {
        match self {
            ToolRunAction::Find { name } => ToolRunAction::Find { name: name@ },
            ToolRunAction::Send { text } => ToolRunAction::Send { text: text@ },
            ToolRunAction::Post { phase, tick } => ToolRunAction::Post {
                phase: phase@,
                tick: *tick,
            },
            ToolRunAction::Start { name, input } => ToolRunAction::Start {
                name: name@,
                input: input@,
            },
            ToolRunAction::Wait => ToolRunAction::Wait,
            ToolRunAction::Edit { id, phase, tick } => ToolRunAction::Edit {
                id: *id,
                phase: phase@,
                tick: *tick,
            },
            ToolRunAction::OpenStore => ToolRunAction::OpenStore,
            ToolRunAction::Record { input, output } => ToolRunAction::Record {
                input: input@,
                output: output@,
            },
            ToolRunAction::Audit { message } => ToolRunAction::Audit { message: message@ },
            ToolRunAction::Finish => ToolRunAction::Finish,
            ToolRunAction::Fail => ToolRunAction::Fail,
            ToolRunAction::Ignore => ToolRunAction::Ignore,
        }
    }
}

pub type StageView = ToolRunStage<Seq<char>>;

pub type ActionView = ToolRunAction<Seq<char>>;

pub open spec fn later(tick: u64) -> u64 {
    if tick < u64::MAX {
        (tick + 1) as u64
    } else {
        tick
    }
}

pub open spec fn ran(report: ToolReport<Seq<char>>, status: Option<i64>, tick: u64) -> (StageView, ActionView) {
    (ToolRunStage::Opening { report, status, tick }, ToolRunAction::OpenStore)
}

pub open spec fn told(report: ToolReport<Seq<char>>) -> (StageView, ActionView) {
    (ToolRunStage::Telling { report }, ToolRunAction::Send { text: report.body })
}

pub open spec fn refusal_text(name: Seq<char>) -> Seq<char> {
    "Tool `"@ + name + "` is not registered. Use `maturana tool register` first."@
}

impl ToolRunStage<Seq<char>> {
    /// How a run goes on when an event comes. That a frame cannot be shown does
    /// not matter; that nothing can be sent, kept or audited ends the run.
    pub open spec fn next(self, event: ToolRunEvent<Seq<char>>) -> (StageView, ActionView) {
        match (self, event) {
            (ToolRunStage::Ended, _) => (self, ToolRunAction::Ignore),
            (ToolRunStage::Moving { name, input, status, tick }, ToolRunEvent::Done) => (
                ToolRunStage::Waiting { name, input, status, tick: later(tick) },
                ToolRunAction::Wait,
            ),
            (ToolRunStage::Moving { name, input, status, tick }, ToolRunEvent::Failed) => (
                ToolRunStage::Waiting { name, input, status, tick: later(tick) },
                ToolRunAction::Wait,
            ),
            (ToolRunStage::Showing { report }, ToolRunEvent::Done) => told(report),
            (ToolRunStage::Showing { report }, ToolRunEvent::Failed) => told(report),
            (_, ToolRunEvent::Failed) => (ToolRunStage::Ended, ToolRunAction::Fail),
            (ToolRunStage::Finding { name, input }, ToolRunEvent::Found { known }) => if known {
                (
                    ToolRunStage::Posting { name, input },
                    ToolRunAction::Post { phase: Phase::Running { tool: name }, tick: 0 },
                )
            } else {
                (ToolRunStage::Refusing, ToolRunAction::Send { text: refusal_text(name) })
            },
            (ToolRunStage::Refusing, ToolRunEvent::Done) => (ToolRunStage::Ended, ToolRunAction::Finish),
            (ToolRunStage::Posting { name, input }, ToolRunEvent::Posted { id }) => (
                ToolRunStage::Waiting { name, input, status: id, tick: 1 },
                ToolRunAction::Start { name, input },
            ),
            (ToolRunStage::Waiting { name, input, status, tick }, ToolRunEvent::Tick) => match status {
                Some(id) => (
                    ToolRunStage::Moving { name, input, status, tick },
                    ToolRunAction::Edit { id, phase: Phase::Running { tool: name }, tick },
                ),
                None => (
                    ToolRunStage::Waiting { name, input, status, tick: later(tick) },
                    ToolRunAction::Wait,
                ),
            },
            (ToolRunStage::Waiting { name, input, status, tick }, ToolRunEvent::Ran { run }) => ran(
                stream::run_report(name, input, run),
                status,
                tick,
            ),
            (ToolRunStage::Waiting { name, input, status, tick }, ToolRunEvent::NotRun { error }) => ran(
                stream::error_report(name, input, error),
                status,
                tick,
            ),
            (ToolRunStage::Waiting { name, input, status, tick }, ToolRunEvent::Lost) => ran(
                stream::error_report(name, input, "tool worker thread disconnected"@),
                status,
                tick,
            ),
            (ToolRunStage::Opening { report, status, tick }, ToolRunEvent::Done) => match status {
                Some(id) => (
                    ToolRunStage::Showing { report },
                    ToolRunAction::Edit { id, phase: report.phase, tick },
                ),
                None => told(report),
            },
            (ToolRunStage::Telling { report }, ToolRunEvent::Done) => (
                ToolRunStage::Recording { report },
                ToolRunAction::Record { input: report.input, output: report.output },
            ),
            (ToolRunStage::Recording { report }, ToolRunEvent::Done) => match report.audit {
                Some(message) => (ToolRunStage::Auditing, ToolRunAction::Audit { message }),
                None => (ToolRunStage::Ended, ToolRunAction::Finish),
            },
            (ToolRunStage::Auditing, ToolRunEvent::Done) => (ToolRunStage::Ended, ToolRunAction::Finish),
            _ => (self, ToolRunAction::Ignore),
        }
    }
}

/// Starts the run of a tool.
pub fn run_tool_with_animation(name: String, input: String) -> (r: (ToolRunStage<String>, ToolRunAction<String>))
    ensures
        r.0@ == (ToolRunStage::<Seq<char>>::Finding { name: name@, input: input@ }),
        r.1@ == (ToolRunAction::<Seq<char>>::Find { name: name@ }),
{
    let sought = name.clone();
    (ToolRunStage::Finding { name, input }, ToolRunAction::Find { name: sought })
}

fn copy_phase(phase: &Phase<String>) -> (r: Phase<String>)
    ensures
        r@ == phase@,
{
    match phase {
        Phase::Running { tool } => Phase::Running { tool: tool.clone() },
        Phase::Done { detail } => Phase::Done { detail: detail.clone() },
        Phase::Failed { detail } => Phase::Failed { detail: detail.clone() },
    }
}

fn tell(report: ToolReport<String>) -> (r: (ToolRunStage<String>, ToolRunAction<String>))
    ensures
        (r.0@, r.1@) == told(report@),
{
    let text = report.body.clone();
    (ToolRunStage::Telling { report }, ToolRunAction::Send { text })
}

fn next_tick(tick: u64) -> (r: u64)
    ensures
        r == later(tick),
{
    if tick < u64::MAX {
        tick + 1
    } else {
        tick
    }
}

fn end_wait(name: String, input: String, status: Option<i64>, tick: u64, result: Result<ToolRun, String>) -> (r: (
    ToolRunStage<String>,
    ToolRunAction<String>,
))
    ensures
        (r.0@, r.1@) == ran(
            match result {
                Ok(run) => stream::run_report(name@, input@, run),
                Err(error) => stream::error_report(name@, input@, error@),
            },
            status,
            tick,
        ),
{
    let report = tool_report(name.as_str(), input.as_str(), &result);
    (ToolRunStage::Opening { report, status, tick }, ToolRunAction::OpenStore)
}

impl ToolRunStage<String> {
    /// Goes on when an event comes.
    pub fn advance(self, event: ToolRunEvent<String>) -> (r: (ToolRunStage<String>, ToolRunAction<String>))
        ensures
            (r.0@, r.1@) == self@.next(event@),
    {
        match (self, event) {
            (ToolRunStage::Ended, _) => (ToolRunStage::Ended, ToolRunAction::Ignore),
            (ToolRunStage::Moving { name, input, status, tick }, ToolRunEvent::Done) => (
                ToolRunStage::Waiting { name, input, status, tick: next_tick(tick) },
                ToolRunAction::Wait,
            ),
            (ToolRunStage::Moving { name, input, status, tick }, ToolRunEvent::Failed) => (
                ToolRunStage::Waiting { name, input, status, tick: next_tick(tick) },
                ToolRunAction::Wait,
            ),
            (ToolRunStage::Showing { report }, ToolRunEvent::Done) => tell(report),
            (ToolRunStage::Showing { report }, ToolRunEvent::Failed) => tell(report),
            (_, ToolRunEvent::Failed) => (ToolRunStage::Ended, ToolRunAction::Fail),
            (ToolRunStage::Finding { name, input }, ToolRunEvent::Found { known }) => {
                if known {
                    let tool = name.clone();
                    (
                        ToolRunStage::Posting { name, input },
                        ToolRunAction::Post { phase: Phase::Running { tool }, tick: 0 },
                    )
                } else {
                    (ToolRunStage::Refusing, ToolRunAction::Send { text: tool_missing_text(name.as_str()) })
                }
            },
            (ToolRunStage::Refusing, ToolRunEvent::Done) => (ToolRunStage::Ended, ToolRunAction::Finish),
            (ToolRunStage::Posting { name, input }, ToolRunEvent::Posted { id }) => {
                let action = ToolRunAction::Start { name: name.clone(), input: input.clone() };
                (ToolRunStage::Waiting { name, input, status: id, tick: 1 }, action)
            },
            (ToolRunStage::Waiting { name, input, status, tick }, ToolRunEvent::Tick) => match status {
                Some(id) => {
                    let phase = Phase::Running { tool: name.clone() };
                    (
                        ToolRunStage::Moving { name, input, status, tick },
                        ToolRunAction::Edit { id, phase, tick },
                    )
                },
                None => (
                    ToolRunStage::Waiting { name, input, status, tick: next_tick(tick) },
                    ToolRunAction::Wait,
                ),
            },
            (ToolRunStage::Waiting { name, input, status, tick }, ToolRunEvent::Ran { run }) => end_wait(
                name,
                input,
                status,
                tick,
                Ok(run),
            ),
            (ToolRunStage::Waiting { name, input, status, tick }, ToolRunEvent::NotRun { error }) => end_wait(
                name,
                input,
                status,
                tick,
                Err(error),
            ),
            (ToolRunStage::Waiting { name, input, status, tick }, ToolRunEvent::Lost) => end_wait(
                name,
                input,
                status,
                tick,
                Err("tool worker thread disconnected".to_owned()),
            ),
            (ToolRunStage::Opening { report, status, tick }, ToolRunEvent::Done) => match status {
                Some(id) => {
                    let phase = copy_phase(&report.phase);
                    (ToolRunStage::Showing { report }, ToolRunAction::Edit { id, phase, tick })
                },
                None => tell(report),
            },
            (ToolRunStage::Telling { report }, ToolRunEvent::Done) => {
                let action = ToolRunAction::Record { input: report.input.clone(), output: report.output.clone() };
                (ToolRunStage::Recording { report }, action)
            },
            (ToolRunStage::Recording { report }, ToolRunEvent::Done) => match report.audit {
                Some(message) => (ToolRunStage::Auditing, ToolRunAction::Audit { message }),
                None => (ToolRunStage::Ended, ToolRunAction::Finish),
            },
            (ToolRunStage::Auditing, ToolRunEvent::Done) => (ToolRunStage::Ended, ToolRunAction::Finish),
            (stage, _) => (stage, ToolRunAction::Ignore),
        }
    }
}

/// A frame that cannot be shown never ends a run: the tool is waited for, or its
/// result is told.
pub proof fn law_a_lost_frame_does_not_matter(stage: StageView)
    requires
        stage is Moving || stage is Showing,
    ensures
        stage.next(ToolRunEvent::Failed) == stage.next(ToolRunEvent::Done),
        !(stage.next(ToolRunEvent::Failed).1 is Fail),
{
}

/// What a tool gave is told, then kept, then audited, as one report says it.
pub proof fn law_a_result_is_told_kept_and_audited(
    name: Seq<char>,
    input: Seq<char>,
    status: Option<i64>,
    tick: u64,
    run: ToolRun,
)
    ensures
        ({
            let report = stream::run_report(name, input, run);
            let waiting: StageView = ToolRunStage::Waiting { name, input, status, tick };
            let opened = waiting.next(ToolRunEvent::Ran { run }).0;
            let shown = opened.next(ToolRunEvent::Done);
            let told = if status is Some {
                shown.0.next(ToolRunEvent::Done)
            } else {
                shown
            };
            let kept = told.0.next(ToolRunEvent::Done);
            let audited = kept.0.next(ToolRunEvent::Done);
            &&& told.1 == (ToolRunAction::<Seq<char>>::Send { text: report.body })
            &&& kept.1 == (ToolRunAction::<Seq<char>>::Record { input: report.input, output: report.output })
            &&& audited.1 == (ToolRunAction::<Seq<char>>::Audit { message: report.audit->0 })
            &&& audited.0.next(ToolRunEvent::Done).1 is Finish
        }),
{
}

/// A tool that is not registered is refused by name, and one that is starts with
/// the input that was given, behind its status message.
pub proof fn law_a_registered_tool_is_started(name: Seq<char>, input: Seq<char>, id: Option<i64>)
    ensures
        ({
            let finding: StageView = ToolRunStage::Finding { name, input };
            let (refusing, refused) = finding.next(ToolRunEvent::Found { known: false });
            let (posting, posted) = finding.next(ToolRunEvent::Found { known: true });
            let (waiting, started) = posting.next(ToolRunEvent::Posted { id });
            &&& refused == (ToolRunAction::<Seq<char>>::Send {
                text: "Tool `"@ + name + "` is not registered. Use `maturana tool register` first."@,
            })
            &&& refusing.next(ToolRunEvent::Done).1 is Finish
            &&& posted == (ToolRunAction::<Seq<char>>::Post { phase: Phase::Running { tool: name }, tick: 0 })
            &&& started == (ToolRunAction::<Seq<char>>::Start { name, input })
            &&& waiting matches ToolRunStage::Waiting { name: n, input: i, status, .. } && n == name && i == input
                && status == id
        }),
{
}

/// While a tool runs its status message moves on, and the tool is waited for; a
/// tool whose runner is gone is reported as that.
pub proof fn law_a_running_tool_is_waited_for(
    name: Seq<char>,
    input: Seq<char>,
    status: Option<i64>,
    tick: u64,
    error: Seq<char>,
)
    requires
        tick < u64::MAX,
    ensures
        ({
            let waiting: StageView = ToolRunStage::Waiting { name, input, status, tick };
            let later: StageView = ToolRunStage::Waiting { name, input, status, tick: (tick + 1) as u64 };
            let (next, action) = waiting.next(ToolRunEvent::Tick);
            &&& status is None ==> next == later && action is Wait
            &&& status matches Some(id) ==> action == (ToolRunAction::<Seq<char>>::Edit {
                id,
                phase: Phase::Running { tool: name },
                tick,
            }) && next.next(ToolRunEvent::Done) == (later, ToolRunAction::<Seq<char>>::Wait)
            &&& waiting.next(ToolRunEvent::NotRun { error }).0 matches ToolRunStage::Opening { report, status: s, .. }
                && report == stream::error_report(name, input, error) && s == status
            &&& waiting.next(ToolRunEvent::Lost).0 matches ToolRunStage::Opening { report, .. } && report
                == stream::error_report(name, input, "tool worker thread disconnected"@)
        }),
{
}

} // verus!
