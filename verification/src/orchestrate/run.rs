//! One run of a goal. The run holds the plan and the budget and says what is
//! to be done next; the program around it does that and reports what came of
//! it.

use crate::orchestrate::budget::{OrchestratorCaps, RunBudget};
use crate::orchestrate::plan;
use crate::orchestrate::plan::{Plan, PlanError, PlanView, RoleRegistry, Step, StepStatus, StepView};
use crate::orchestrate::replies;
use crate::orchestrate::replies::{parse_review, ReviewVerdict, VerdictView};
use crate::text as t;
use vstd::prelude::*;
use vstd::string::*;

verus! {

// ---------------------------------------------------------------------------
// The texts that agents are sent
// ---------------------------------------------------------------------------

/// A step's task, followed by how its files are to be handed over.
pub open spec fn with_file_notice(task: Seq<char>, out_dir: Seq<char>) -> Seq<char> {
    task
        + "\n\n--- PRODUCING FILES ---\nIf this step creates any files (code, a webpage, a script, data, an image), WRITE them as real files into the directory "@
        + out_dir
        + "/ (create it). Keep your text reply a brief summary of what you produced — do NOT paste full file contents into your reply; the files are collected from that directory automatically."@
}

pub fn step_message(task: &str, out_dir: &str) -> (r: String)
    ensures
        r@ == with_file_notice(task@, out_dir@),
{
    task.to_owned().concat(
        "\n\n--- PRODUCING FILES ---\nIf this step creates any files (code, a webpage, a script, data, an image), WRITE them as real files into the directory ",
    ).concat(out_dir).concat(
        "/ (create it). Keep your text reply a brief summary of what you produced — do NOT paste full file contents into your reply; the files are collected from that directory automatically.",
    )
}

pub open spec fn review_text(task: Seq<char>, current: Seq<char>) -> Seq<char> {
    "Acceptance criteria (the step's task):\n"@ + task + "\n\nResult to check:\n"@ + current
}

pub fn review_request(task: &str, current: &str) -> (r: String)
    ensures
        r@ == review_text(task@, current@),
{
    "Acceptance criteria (the step's task):\n".to_owned().concat(task).concat("\n\nResult to check:\n").concat(
        current,
    )
}

pub open spec fn revise_text(task: Seq<char>, feedback: Seq<char>, current: Seq<char>) -> Seq<char> {
    "Revise your result for this"@ + " task.\nTask:\n"@ + task + "\nReviewer feedback:\n"@ + feedback
        + "\nYour previous result:\n"@ + current
}

pub fn revise_request(task: &str, feedback: &str, current: &str) -> (r: String)
    ensures
        r@ == revise_text(task@, feedback@, current@),
{
    "Revise your result for this".to_owned().concat(" task.\nTask:\n").concat(task).concat(
        "\nReviewer feedback:\n",
    ).concat(feedback).concat("\nYour previous result:\n").concat(current)
}

/// How the final answer is to be written.
pub open spec fn deliverable_format() -> Seq<char> {
    "\n\n--- OUTPUT FORMAT ---\nIf the goal asks for one or more FILES (code, a game, a script, a webpage, a document set), reply with ONLY a single JSON object and nothing else, in exactly this shape:\n{\"files\":[{\"path\":\"index.html\",\"content\":\"<full file contents>\"}]}\nUse complete, working file contents and sensible relative paths (forward slashes, never absolute or ..). Do NOT wrap the JSON in markdown fences. Otherwise, reply with the prose answer directly. End your reply with [[ORCH_DONE]] on its own final line."@
}

/// The results of the first `n` steps, each under its id and role.
pub open spec fn results_text(steps: Seq<StepView>, n: int) -> Seq<char>
    decreases n,
{
    if n <= 0 || n > steps.len() {
        Seq::empty()
    } else {
        let before = results_text(steps, n - 1);
        match steps[n - 1].result {
            Some(result) => before + "\n## "@ + steps[n - 1].id + " ("@ + steps[n - 1].role + ")\n"@ + result
                + "\n"@,
            None => before,
        }
    }
}

pub open spec fn synthesis_text(goal: Seq<char>, plan: PlanView) -> Seq<char> {
    "Goal:\n"@ + goal + "\n\nCompleted step results:\n"@ + results_text(plan.steps, plan.steps.len() as int)
        + deliverable_format()
}

pub fn synthesis_request(goal: &str, plan: &Plan) -> (r: String)
    ensures
        r@ == synthesis_text(goal@, plan@),
{
    let mut results = String::new();
    let mut i: usize = 0;
    while i < plan.steps.len()
        invariant
            i <= plan.steps.len(),
            results@ == results_text(plan@.steps, i as int),
        decreases plan.steps.len() - i,
    {
        assert(plan@.steps[i as int] == plan.steps@[i as int]@);
        match &plan.steps[i].result {
            Some(result) => {
                results.append("\n## ");
                results.append(plan.steps[i].id.as_str());
                results.append(" (");
                results.append(plan.steps[i].role.as_str());
                results.append(")\n");
                results.append(result.as_str());
                results.append("\n");
            },
            None => {},
        }
        i += 1;
    }
    "Goal:\n".to_owned().concat(goal).concat("\n\nCompleted step results:\n").concat(results.as_str()).concat(
        "\n\n--- OUTPUT FORMAT ---\nIf the goal asks for one or more FILES (code, a game, a script, a webpage, a document set), reply with ONLY a single JSON object and nothing else, in exactly this shape:\n{\"files\":[{\"path\":\"index.html\",\"content\":\"<full file contents>\"}]}\nUse complete, working file contents and sensible relative paths (forward slashes, never absolute or ..). Do NOT wrap the JSON in markdown fences. Otherwise, reply with the prose answer directly. End your reply with [[ORCH_DONE]] on its own final line.",
    )
}

/// A reply without the markers that end it, and without the white space
/// around it.
pub open spec fn cleaned(reply: Seq<char>, done: Seq<char>, blocked: Seq<char>) -> Seq<char> {
    t::trimmed(t::replaced(t::replaced(reply, done, Seq::empty()), blocked, Seq::empty()))
}

pub fn clean_reply(reply: &str, done: &str, blocked: &str) -> (r: String)
    ensures
        r@ == cleaned(reply@, done@, blocked@),
{
    let once = remove_all(reply, done);
    let twice = remove_all(once.as_str(), blocked);
    t::trim(twice.as_str())
}

fn remove_all(s: &str, pat: &str) -> (r: String)
    ensures
        r@ == t::replaced(s@, pat@, Seq::empty()),
{
    proof {
        reveal_strlit("");
        assert(""@ =~= Seq::<char>::empty());
    }
    if pat.is_empty() {
        assert(t::pieces(s@, pat@) =~= seq![s@]);
        s.to_owned()
    } else {
        t::replace(s, pat, "")
    }
}

// ---------------------------------------------------------------------------
// States, events and actions
// ---------------------------------------------------------------------------

/// The roles that a run itself asks for. The registry knows each by its name in
/// lower case.
#[derive(Clone, Copy, Debug, PartialEq, Eq, Structural)]
pub enum Role {
    Coordinator,
    Reviewer,
    Synthesizer,
}

/// A step that an agent works on: `queue` are the steps that come after it,
/// `current` is the latest result, and `cycles` counts its reviews.
#[derive(Debug, PartialEq, Eq)]
pub struct Work<S, Q> {
    pub id: S,
    pub agent: S,
    pub queue: Q,
    pub current: S,
    pub cycles: u32,
}

/// Where a run stands: what it waits for.
#[derive(Debug, PartialEq, Eq)]
pub enum Stage<S, Q> {
    Fresh,
    /// For the coordinator's plan.
    Planning { retried: bool },
    /// For the clock, at the top of the loop.
    Checking,
    /// For the program to take note of a step's outcome.
    Advancing { queue: Q },
    /// For an agent that plays the step's role.
    Placing { id: S, queue: Q },
    /// For the step's result.
    Working { work: Work<S, Q> },
    /// For someone who reviews.
    PlacingReviewer { work: Work<S, Q> },
    /// For the verdict.
    Reviewing { work: Work<S, Q> },
    /// For the revised result.
    Revising { work: Work<S, Q> },
    /// For the files that the agent wrote.
    Collecting { work: Work<S, Q> },
    /// For the number of files that were collected over the whole run.
    Counting,
    /// For the verdict on the files; `rounds` more checks may follow.
    Verifying { agent: S, rounds: u32 },
    PlacingSynthesizer,
    Synthesizing,
    Ended,
}

/// What the program reports.
#[derive(Debug, PartialEq, Eq)]
pub enum Event<S> {
    Begin,
    /// An agent replied; whether the run was aborted by then.
    Reply { text: S, aborted: bool },
    /// The request could not be sent, or the agent failed at it.
    Failed { error: S },
    /// The time since the run began, of which `spawn_ns` went into starting
    /// machines, and whether the run was aborted.
    Clock { elapsed_ns: u64, spawn_ns: u64, aborted: bool },
    Next,
    Placed { agent: S },
    /// No agent can play the role; why not.
    Unplaced { error: S },
    Collected { files: usize },
    Counted { files: usize },
    /// Whether the verifier saw the files work, where it said so, and what it
    /// said of a failure.
    Verified { passed: Option<bool>, detail: S },
}

/// Why the loop over the steps ends.
#[derive(Clone, Copy, Debug, PartialEq, Eq, Structural)]
pub enum StopReason {
    TickCeiling,
    WallClock,
    TurnBudget,
    Aborted,
    StepFailed,
    NoRunnableSteps,
}

/// Why a run fails.
#[derive(Debug, PartialEq, Eq)]
pub enum Failure<S> {
    TurnBudgetExhausted,
    Dispatch { error: S },
    /// No reply of the coordinator held a plan; `reply` is the last one.
    PlanUnusable { problem: PlanError, reply: S },
    PlanTooLarge { steps: usize, turns: u32 },
    Stopped { reason: StopReason },
    /// No agent can play the synthesizer.
    Unplaced { error: S },
}

/// What came of running the files.
#[derive(Debug, PartialEq, Eq)]
pub enum VerifyOutcome<S> {
    Passed,
    Failed { detail: S },
    Inconclusive { reason: S },
    Skipped,
}

/// What the program is to do.
#[derive(Debug, PartialEq, Eq)]
pub enum Action<S> {
    AskCoordinator { role: Role, strict: bool },
    /// The plan stands; save it, announce it, and report the clock.
    PlanReady,
    Check,
    PlaceStep { id: S, role: S },
    StepUnplaced { id: S, role: S, error: S },
    StepFailed { id: S, error: S },
    Work { id: S, agent: S },
    PlaceReviewer { role: Role },
    Review { agent: S, role: Role, request: S },
    Revise { agent: S, role: S, request: S },
    Collect { agent: S },
    StepDone { id: S, role: S, files: usize, done: usize, total: usize },
    CountFiles,
    Verify { agent: S },
    DeliverFiles { outcome: VerifyOutcome<S> },
    PlaceSynthesizer { role: Role },
    Synthesize { agent: S, role: Role, request: S },
    /// The answer, without the markers that end it.
    WriteReply { reply: S },
    Fail { failure: Failure<S> },
    /// The event does not belong here; nothing changes.
    Refused,
}

pub type WorkView = Work<Seq<char>, Seq<Seq<char>>>;

pub type StageView = Stage<Seq<char>, Seq<Seq<char>>>;

pub type EventView = Event<Seq<char>>;

pub type ActionView = Action<Seq<char>>;

impl View for Work<String, Vec<String>> {
    type V = WorkView;

    open spec fn view(&self) -> WorkView {
        Work {
            id: self.id@,
            agent: self.agent@,
            queue: t::texts(self.queue@),
            current: self.current@,
            cycles: self.cycles,
        }
    }
}

impl View for Stage<String, Vec<String>> {
    type V = StageView;

    open spec fn view(&self) -> StageView {
        match self {
            Stage::Fresh => Stage::Fresh,
            Stage::Planning { retried } => Stage::Planning { retried: *retried },
            Stage::Checking => Stage::Checking,
            Stage::Advancing { queue } => Stage::Advancing { queue: t::texts(queue@) },
            Stage::Placing { id, queue } => Stage::Placing { id: id@, queue: t::texts(queue@) },
            Stage::Working { work } => Stage::Working { work: work@ },
            Stage::PlacingReviewer { work } => Stage::PlacingReviewer { work: work@ },
            Stage::Reviewing { work } => Stage::Reviewing { work: work@ },
            Stage::Revising { work } => Stage::Revising { work: work@ },
            Stage::Collecting { work } => Stage::Collecting { work: work@ },
            Stage::Counting => Stage::Counting,
            Stage::Verifying { agent, rounds } => Stage::Verifying { agent: agent@, rounds: *rounds },
            Stage::PlacingSynthesizer => Stage::PlacingSynthesizer,
            Stage::Synthesizing => Stage::Synthesizing,
            Stage::Ended => Stage::Ended,
        }
    }
}

impl View for Event<String> {
    type V = EventView;

    open spec fn view(&self) -> EventView {
        match self {
            Event::Begin => Event::Begin,
            Event::Reply { text, aborted } => Event::Reply { text: text@, aborted: *aborted },
            Event::Failed { error } => Event::Failed { error: error@ },
            Event::Clock { elapsed_ns, spawn_ns, aborted } => Event::Clock {
                elapsed_ns: *elapsed_ns,
                spawn_ns: *spawn_ns,
                aborted: *aborted,
            },
            Event::Next => Event::Next,
            Event::Placed { agent } => Event::Placed { agent: agent@ },
            Event::Unplaced { error } => Event::Unplaced { error: error@ },
            Event::Collected { files } => Event::Collected { files: *files },
            Event::Counted { files } => Event::Counted { files: *files },
            Event::Verified { passed, detail } => Event::Verified { passed: *passed, detail: detail@ },
        }
    }
}

impl View for Failure<String> {
    type V = Failure<Seq<char>>;

    open spec fn view(&self) -> Failure<Seq<char>> {
        match self {
            Failure::TurnBudgetExhausted => Failure::TurnBudgetExhausted,
            Failure::Dispatch { error } => Failure::Dispatch { error: error@ },
            Failure::PlanUnusable { problem, reply } => Failure::PlanUnusable { problem: *problem, reply: reply@ },
            Failure::PlanTooLarge { steps, turns } => Failure::PlanTooLarge { steps: *steps, turns: *turns },
            Failure::Stopped { reason } => Failure::Stopped { reason: *reason },
            Failure::Unplaced { error } => Failure::Unplaced { error: error@ },
        }
    }
}

impl View for VerifyOutcome<String> {
    type V = VerifyOutcome<Seq<char>>;

    open spec fn view(&self) -> VerifyOutcome<Seq<char>> {
        match self {
            VerifyOutcome::Passed => VerifyOutcome::Passed,
            VerifyOutcome::Failed { detail } => VerifyOutcome::Failed { detail: detail@ },
            VerifyOutcome::Inconclusive { reason } => VerifyOutcome::Inconclusive { reason: reason@ },
            VerifyOutcome::Skipped => VerifyOutcome::Skipped,
        }
    }
}

impl View for Action<String> {
    type V = ActionView;

    open spec fn view(&self) -> ActionView {
        match self {
            Action::AskCoordinator { role, strict } => Action::AskCoordinator { role: *role, strict: *strict },
            Action::PlanReady => Action::PlanReady,
            Action::Check => Action::Check,
            Action::PlaceStep { id, role } => Action::PlaceStep { id: id@, role: role@ },
            Action::StepUnplaced { id, role, error } => Action::StepUnplaced {
                id: id@,
                role: role@,
                error: error@,
            },
            Action::StepFailed { id, error } => Action::StepFailed { id: id@, error: error@ },
            Action::Work { id, agent } => Action::Work { id: id@, agent: agent@ },
            Action::PlaceReviewer { role } => Action::PlaceReviewer { role: *role },
            Action::Review { agent, role, request } => Action::Review {
                agent: agent@,
                role: *role,
                request: request@,
            },
            Action::Revise { agent, role, request } => Action::Revise {
                agent: agent@,
                role: role@,
                request: request@,
            },
            Action::Collect { agent } => Action::Collect { agent: agent@ },
            Action::StepDone { id, role, files, done, total } => Action::StepDone {
                id: id@,
                role: role@,
                files: *files,
                done: *done,
                total: *total,
            },
            Action::CountFiles => Action::CountFiles,
            Action::Verify { agent } => Action::Verify { agent: agent@ },
            Action::DeliverFiles { outcome } => Action::DeliverFiles { outcome: outcome@ },
            Action::PlaceSynthesizer { role } => Action::PlaceSynthesizer { role: *role },
            Action::Synthesize { agent, role, request } => Action::Synthesize {
                agent: agent@,
                role: *role,
                request: request@,
            },
            Action::WriteReply { reply } => Action::WriteReply { reply: reply@ },
            Action::Fail { failure } => Action::Fail { failure: failure@ },
            Action::Refused => Action::Refused,
        }
    }
}

/// A run.
#[derive(Debug, PartialEq, Eq)]
pub struct Run {
    pub goal: String,
    pub registry: RoleRegistry,
    pub caps: OrchestratorCaps,
    pub verify: bool,
    /// The markers that end a reply.
    pub done: String,
    pub blocked: String,
    pub budget: RunBudget,
    pub plan: Plan,
    /// How many files were collected so far.
    pub collected: usize,
    /// The agent that handed over the most files at once, the latest of these.
    pub builder: Option<String>,
    pub builder_files: usize,
    pub stage: Stage<String, Vec<String>>,
}

/// What a run holds.
pub struct RunView {
    pub goal: Seq<char>,
    pub registry: RoleRegistry,
    pub caps: OrchestratorCaps,
    pub verify: bool,
    pub done: Seq<char>,
    pub blocked: Seq<char>,
    pub budget: RunBudget,
    pub plan: PlanView,
    pub collected: usize,
    pub builder: Option<Seq<char>>,
    pub builder_files: usize,
    pub stage: StageView,
}

impl View for Run {
    type V = RunView;

    open spec fn view(&self) -> RunView {
        RunView {
            goal: self.goal@,
            registry: self.registry,
            caps: self.caps,
            verify: self.verify,
            done: self.done@,
            blocked: self.blocked@,
            budget: self.budget,
            plan: self.plan@,
            collected: self.collected,
            builder: t::opt_view(self.builder),
            builder_files: self.builder_files,
            stage: self.stage@,
        }
    }
}

// ---------------------------------------------------------------------------
// What follows what
// ---------------------------------------------------------------------------

pub open spec fn ids_of(steps: Seq<StepView>) -> Seq<Seq<char>> {
    steps.map_values(|s: StepView| s.id)
}

pub open spec fn bump(n: u32) -> u32 {
    if n < u32::MAX {
        (n + 1) as u32
    } else {
        n
    }
}

pub open spec fn bounded_sum(a: usize, b: usize) -> usize {
    if a + b <= usize::MAX {
        (a + b) as usize
    } else {
        usize::MAX
    }
}

impl RunView {
    pub open spec fn at(self, stage: StageView) -> RunView {
        RunView { stage, ..self }
    }

    pub open spec fn charged(self) -> RunView {
        RunView { budget: self.budget.spent(), ..self }
    }

    pub open spec fn failed(self, failure: Failure<Seq<char>>) -> (RunView, ActionView) {
        (self.at(Stage::Ended), Action::Fail { failure })
    }

    pub open spec fn role_of(self, id: Seq<char>) -> Seq<char> {
        match self.plan.position(id) {
            Some(i) => self.plan.steps[i].role,
            None => Seq::empty(),
        }
    }

    pub open spec fn task_of(self, id: Seq<char>) -> Seq<char> {
        match self.plan.position(id) {
            Some(i) => self.plan.steps[i].task,
            None => Seq::empty(),
        }
    }

    pub open spec fn reviewed(self, id: Seq<char>) -> bool {
        match self.plan.position(id) {
            Some(i) => self.plan.steps[i].review,
            None => false,
        }
    }

    /// The coordinator replied. A reply without a usable plan is answered by
    /// one stricter request, as long as turns are left and nobody aborted.
    pub open spec fn planned(self, retried: bool, reply: Seq<char>, aborted: bool) -> (RunView, ActionView) {
        match replies::plan_in(self.goal, reply, self.registry) {
            Ok(plan) => if self.budget.admits(plan.steps.len()) {
                (RunView { plan, stage: Stage::Checking, ..self }, Action::PlanReady)
            } else {
                self.failed(
                    Failure::PlanTooLarge { steps: plan.steps.len() as usize, turns: self.budget.turns },
                )
            },
            Err(error) => if !retried && self.budget.turns > 0 && !aborted {
                (self.charged().at(Stage::Planning { retried: true }), Action::AskCoordinator { role: Role::Coordinator, strict: true })
            } else {
                self.failed(Failure::PlanUnusable { problem: error, reply })
            },
        }
    }

    /// Whether the time that counts has reached the cap.
    pub open spec fn out_of_time(self, elapsed_ns: u64, spawn_ns: u64) -> bool {
        elapsed_ns - spawn_ns >= self.caps.max_wall_seconds * 1_000_000_000
            || (self.caps.max_wall_seconds == 0)
    }

    /// Why the loop would stop at this point, if it does: the pass ceiling,
    /// the wall clock, the turns, an abort, a failed step, and at last that
    /// nothing can run.
    pub open spec fn stop_for(self, elapsed_ns: u64, spawn_ns: u64, aborted: bool) -> Option<StopReason> {
        if self.budget.ticks == 0 {
            Some(StopReason::TickCeiling)
        } else if self.out_of_time(elapsed_ns, spawn_ns) {
            Some(StopReason::WallClock)
        } else if self.budget.turns == 0 {
            Some(StopReason::TurnBudget)
        } else if aborted {
            Some(StopReason::Aborted)
        } else if self.plan.complete() {
            None
        } else if self.plan.failed() {
            Some(StopReason::StepFailed)
        } else if self.plan.ready().len() == 0 {
            Some(StopReason::NoRunnableSteps)
        } else {
            None
        }
    }

    /// The top of the loop. A complete plan is delivered whatever stopped the
    /// loop; an incomplete one fails with the reason, or goes on with the steps
    /// that are ready.
    pub open spec fn checked(self, elapsed_ns: u64, spawn_ns: u64, aborted: bool) -> (RunView, ActionView) {
        let run = RunView { budget: self.budget.ticked(), ..self };
        if self.plan.complete() {
            run.delivering()
        } else {
            match self.stop_for(elapsed_ns, spawn_ns, aborted) {
                Some(reason) => run.failed(Failure::Stopped { reason }),
                None => run.dequeued(ids_of(self.plan.ready())),
            }
        }
    }

    /// Files that were collected are the deliverable; else an answer is
    /// written from the results.
    pub open spec fn delivering(self) -> (RunView, ActionView) {
        if self.collected > 0 {
            (self.at(Stage::Counting), Action::CountFiles)
        } else {
            (self.at(Stage::PlacingSynthesizer), Action::PlaceSynthesizer { role: Role::Synthesizer })
        }
    }

    pub open spec fn dequeued(self, queue: Seq<Seq<char>>) -> (RunView, ActionView) {
        if queue.len() == 0 {
            (self.at(Stage::Checking), Action::Check)
        } else {
            (
                self.at(Stage::Placing { id: queue[0], queue: queue.skip(1) }),
                Action::PlaceStep { id: queue[0], role: self.role_of(queue[0]) },
            )
        }
    }

    pub open spec fn unplaced(self, id: Seq<char>, queue: Seq<Seq<char>>, error: Seq<char>) -> (
        RunView,
        ActionView,
    ) {
        (
            RunView {
                plan: self.plan.with_status(id, StepStatus::Failed),
                stage: Stage::Advancing { queue },
                ..self
            },
            Action::StepUnplaced { id, role: self.role_of(id), error },
        )
    }

    pub open spec fn step_failed(self, id: Seq<char>, queue: Seq<Seq<char>>, error: Seq<char>) -> (
        RunView,
        ActionView,
    ) {
        (
            RunView {
                plan: self.plan.with_status(id, StepStatus::Failed),
                stage: Stage::Advancing { queue },
                ..self
            },
            Action::StepFailed { id, error },
        )
    }

    pub open spec fn begun(self, id: Seq<char>, queue: Seq<Seq<char>>, agent: Seq<char>) -> (RunView, ActionView) {
        let run = RunView { plan: self.plan.with_attempt(id), ..self };
        if self.budget.turns == 0 {
            run.step_failed(id, queue, "turn budget exhausted"@)
        } else {
            (
                run.charged().at(
                    Stage::Working { work: Work { id, agent, queue, current: Seq::empty(), cycles: 0 } },
                ),
                Action::Work { id, agent },
            )
        }
    }

    /// The result counts: the step is done with it.
    pub open spec fn accepted(self, work: WorkView) -> (RunView, ActionView) {
        (
            RunView {
                plan: self.plan.with_result(work.id, work.current),
                stage: Stage::Collecting { work },
                ..self
            },
            Action::Collect { agent: work.agent },
        )
    }

    /// Another review, as long as the cycles last.
    pub open spec fn reviewing(self, work: WorkView) -> (RunView, ActionView) {
        if work.cycles < self.caps.max_review_cycles {
            (self.at(Stage::PlacingReviewer { work }), Action::PlaceReviewer { role: Role::Reviewer })
        } else {
            self.accepted(work)
        }
    }

    pub open spec fn worked(self, work: WorkView, text: Seq<char>) -> (RunView, ActionView) {
        let work = Work { current: text, cycles: 0, ..work };
        if self.reviewed(work.id) {
            self.reviewing(work)
        } else {
            self.accepted(work)
        }
    }

    pub open spec fn reviewer_placed(self, work: WorkView, agent: Seq<char>) -> (RunView, ActionView) {
        if self.budget.turns == 0 {
            self.accepted(work)
        } else {
            (
                self.charged().at(Stage::Reviewing { work }),
                Action::Review {
                    agent,
                    role: Role::Reviewer,
                    request: review_text(self.task_of(work.id), work.current),
                },
            )
        }
    }

    pub open spec fn verdict(self, work: WorkView, text: Seq<char>) -> (RunView, ActionView) {
        let next = Work { cycles: bump(work.cycles), ..work };
        let counted = RunView { plan: self.plan.with_cycles(work.id, next.cycles as nat), ..self };
        match replies::review_of(text) {
            VerdictView::Approve => self.accepted(work),
            VerdictView::Revise(feedback) => if self.budget.turns == 0 {
                counted.failed(Failure::TurnBudgetExhausted)
            } else {
                (
                    counted.charged().at(Stage::Revising { work: next }),
                    Action::Revise {
                        agent: work.agent,
                        role: counted.role_of(work.id),
                        request: revise_text(counted.task_of(work.id), feedback, work.current),
                    },
                )
            },
            VerdictView::Unclear => counted.reviewing(next),
        }
    }

    pub open spec fn gathered(self, work: WorkView, files: usize) -> (RunView, ActionView) {
        (
            RunView {
                collected: bounded_sum(self.collected, files),
                builder: if files > 0 && files >= self.builder_files {
                    Some(work.agent)
                } else {
                    self.builder
                },
                builder_files: if files >= self.builder_files {
                    files
                } else {
                    self.builder_files
                },
                stage: Stage::Advancing { queue: work.queue },
                ..self
            },
            Action::StepDone {
                id: work.id,
                role: self.role_of(work.id),
                files,
                done: self.plan.done_count() as usize,
                total: self.plan.steps.len() as usize,
            },
        )
    }

    pub open spec fn delivered(self, outcome: VerifyOutcome<Seq<char>>) -> (RunView, ActionView) {
        (self.at(Stage::Ended), Action::DeliverFiles { outcome })
    }

    /// One check of the files, on the agent that built them.
    pub open spec fn verifying(self, agent: Seq<char>, rounds: u32) -> (RunView, ActionView) {
        if self.budget.turns == 0 {
            self.delivered(
                VerifyOutcome::Inconclusive { reason: "turn budget ran out before verification finished"@ },
            )
        } else {
            (self.charged().at(Stage::Verifying { agent, rounds }), Action::Verify { agent })
        }
    }

    pub open spec fn counted(self, files: usize) -> (RunView, ActionView) {
        if files == 0 {
            (self.at(Stage::PlacingSynthesizer), Action::PlaceSynthesizer { role: Role::Synthesizer })
        } else if !self.verify {
            self.delivered(VerifyOutcome::Skipped)
        } else {
            match self.builder {
                None => self.delivered(
                    VerifyOutcome::Inconclusive { reason: "no agent produced runnable files"@ },
                ),
                Some(agent) => self.verifying(agent, self.caps.max_review_cycles),
            }
        }
    }

    pub open spec fn verified(self, agent: Seq<char>, rounds: u32, passed: Option<bool>, detail: Seq<char>) -> (
        RunView,
        ActionView,
    ) {
        match passed {
            Some(true) => self.delivered(VerifyOutcome::Passed),
            Some(false) => if rounds == 0 {
                self.delivered(VerifyOutcome::Failed { detail })
            } else {
                self.verifying(agent, (rounds - 1) as u32)
            },
            None => self.delivered(
                VerifyOutcome::Inconclusive { reason: "verifier did not report PASS or FAIL"@ },
            ),
        }
    }

    /// What follows an event: the run after it, and what is to be done.
    pub open spec fn next(self, event: EventView) -> (RunView, ActionView) {
        match (self.stage, event) {
            (Stage::Fresh, Event::Begin) => if self.budget.turns == 0 {
                self.failed(Failure::TurnBudgetExhausted)
            } else {
                (self.charged().at(Stage::Planning { retried: false }), Action::AskCoordinator { role: Role::Coordinator, strict: false })
            },
            (Stage::Planning { retried }, Event::Reply { text, aborted }) => self.planned(retried, text, aborted),
            (Stage::Planning { .. }, Event::Failed { error }) => self.failed(Failure::Dispatch { error }),
            (Stage::Checking, Event::Clock { elapsed_ns, spawn_ns, aborted }) => self.checked(
                elapsed_ns,
                spawn_ns,
                aborted,
            ),
            (Stage::Advancing { queue }, Event::Next) => self.dequeued(queue),
            (Stage::Placing { id, queue }, Event::Placed { agent }) => self.begun(id, queue, agent),
            (Stage::Placing { id, queue }, Event::Unplaced { error }) => self.unplaced(id, queue, error),
            (Stage::Working { work }, Event::Reply { text, .. }) => self.worked(work, text),
            (Stage::Working { work }, Event::Failed { error }) => self.step_failed(work.id, work.queue, error),
            (Stage::PlacingReviewer { work }, Event::Placed { agent }) => self.reviewer_placed(work, agent),
            (Stage::PlacingReviewer { work }, Event::Unplaced { .. }) => self.accepted(work),
            (Stage::Reviewing { work }, Event::Reply { text, .. }) => self.verdict(work, text),
            (Stage::Reviewing { work }, Event::Failed { .. }) => self.accepted(work),
            (Stage::Revising { work }, Event::Reply { text, .. }) => self.reviewing(
                Work { current: text, ..work },
            ),
            (Stage::Revising { .. }, Event::Failed { error }) => self.failed(Failure::Dispatch { error }),
            (Stage::Collecting { work }, Event::Collected { files }) => self.gathered(work, files),
            (Stage::Counting, Event::Counted { files }) => self.counted(files),
            (Stage::Verifying { agent, rounds }, Event::Verified { passed, detail }) => self.verified(
                agent,
                rounds,
                passed,
                detail,
            ),
            (Stage::Verifying { .. }, Event::Failed { error }) => self.delivered(
                VerifyOutcome::Inconclusive { reason: "verifier dispatch failed: "@ + error },
            ),
            (Stage::PlacingSynthesizer, Event::Placed { agent }) => if self.budget.turns == 0 {
                self.failed(Failure::TurnBudgetExhausted)
            } else {
                (
                    self.charged().at(Stage::Synthesizing),
                    Action::Synthesize {
                        agent,
                        role: Role::Synthesizer,
                        request: synthesis_text(self.goal, self.plan),
                    },
                )
            },
            (Stage::PlacingSynthesizer, Event::Unplaced { error }) => self.failed(Failure::Unplaced { error }),
            (Stage::Synthesizing, Event::Reply { text, .. }) => (
                self.at(Stage::Ended),
                Action::WriteReply { reply: cleaned(text, self.done, self.blocked) },
            ),
            (Stage::Synthesizing, Event::Failed { error }) => self.failed(Failure::Dispatch { error }),
            _ => (self, Action::Refused),
        }
    }
}

fn next_cycle(n: u32) -> (r: u32)
    ensures
        r == bump(n),
{
    if n < u32::MAX {
        n + 1
    } else {
        n
    }
}

fn ready_ids(plan: &Plan) -> (r: Vec<String>)
    ensures
        t::texts(r@) == ids_of(plan@.ready()),
{
    let ready = plan.ready_steps();
    let mut ids: Vec<String> = Vec::new();
    let mut i: usize = 0;
    while i < ready.len()
        invariant
            i <= ready.len(),
            ids.len() == i,
            forall|k: int| 0 <= k < i ==> ids@[k]@ == ready@[k]@.id,
        decreases ready.len() - i,
    {
        ids.push(ready[i].id.clone());
        i += 1;
    }
    assert(t::texts(ids@) =~= ids_of(plan::step_refs(ready@)));
    ids
}

impl Run {
    /// A run that has not begun.
    pub fn new(
        goal: String,
        registry: RoleRegistry,
        caps: OrchestratorCaps,
        verify: bool,
        done: String,
        blocked: String,
    ) -> (r: Run)
        ensures
            r@ == (RunView {
                goal: goal@,
                registry,
                caps,
                verify,
                done: done@,
                blocked: blocked@,
                budget: RunBudget { turns: caps.max_total_turns, ticks: caps.max_ticks },
                plan: PlanView { goal: goal@, steps: Seq::empty() },
                collected: 0,
                builder: None,
                builder_files: 0,
                stage: Stage::Fresh,
            }),
    {
        let steps: Vec<Step> = Vec::new();
        assert(plan::step_views(steps@) =~= Seq::<StepView>::empty());
        Run {
            goal: goal.clone(),
            registry,
            caps,
            verify,
            done,
            blocked,
            budget: RunBudget::new(&caps),
            plan: Plan { goal, steps },
            collected: 0,
            builder: None,
            builder_files: 0,
            stage: Stage::Fresh,
        }
    }

    fn with_stage(self, stage: Stage<String, Vec<String>>) -> (r: Run)
        ensures
            r@ == self@.at(stage@),
    {
        Run { stage, ..self }
    }

    fn charge(self) -> (r: Run)
        ensures
            r@ == self@.charged(),
    {
        let mut run = self;
        let _paid = run.budget.spend_turn();
        run
    }

    fn fail(self, failure: Failure<String>) -> (r: (Run, Action<String>))
        ensures
            (r.0@, r.1@) == self@.failed(failure@),
    {
        (self.with_stage(Stage::Ended), Action::Fail { failure })
    }

    fn role(&self, id: &str) -> (r: String)
        ensures
            r@ == self@.role_of(id@),
    {
        match self.plan.find_step(id) {
            Some(i) => {
                assert(self.plan@.steps[i as int] == self.plan.steps@[i as int]@);
                self.plan.steps[i].role.clone()
            },
            None => String::new(),
        }
    }

    fn task(&self, id: &str) -> (r: String)
        ensures
            r@ == self@.task_of(id@),
    {
        match self.plan.find_step(id) {
            Some(i) => {
                assert(self.plan@.steps[i as int] == self.plan.steps@[i as int]@);
                self.plan.steps[i].task.clone()
            },
            None => String::new(),
        }
    }

    fn is_reviewed(&self, id: &str) -> (r: bool)
        ensures
            r == self@.reviewed(id@),
    {
        match self.plan.find_step(id) {
            Some(i) => {
                assert(self.plan@.steps[i as int] == self.plan.steps@[i as int]@);
                self.plan.steps[i].review
            },
            None => false,
        }
    }

    fn plan_reply(self, retried: bool, reply: String, aborted: bool) -> (r: (Run, Action<String>))
        ensures
            (r.0@, r.1@) == self@.planned(retried, reply@, aborted),
    {
        match replies::read_plan(self.goal.as_str(), reply.as_str(), &self.registry) {
            Ok(plan) => {
                let steps: usize = plan.steps.len();
                if self.budget.admits_plan(steps) {
                    (Run { plan, stage: Stage::Checking, ..self }, Action::PlanReady)
                } else {
                    let turns: u32 = self.budget.turns;
                    self.fail(Failure::PlanTooLarge { steps, turns })
                }
            },
            Err(error) => if !retried && self.budget.turns > 0 && !aborted {
                (
                    self.charge().with_stage(Stage::Planning { retried: true }),
                    Action::AskCoordinator { role: Role::Coordinator, strict: true },
                )
            } else {
                self.fail(Failure::PlanUnusable { problem: error, reply })
            },
        }
    }

    fn is_out_of_time(&self, elapsed_ns: u64, spawn_ns: u64) -> (r: bool)
        ensures
            r == self@.out_of_time(elapsed_ns, spawn_ns),
    {
        let counted: u128 = if elapsed_ns > spawn_ns {
            (elapsed_ns - spawn_ns) as u128
        } else {
            0
        };
        counted >= self.caps.max_wall_seconds as u128 * 1_000_000_000
    }

    fn check(self, elapsed_ns: u64, spawn_ns: u64, aborted: bool) -> (r: (Run, Action<String>))
        ensures
            (r.0@, r.1@) == self@.checked(elapsed_ns, spawn_ns, aborted),
    {
        let ghost before = self@;
        let mut run = self;
        let ticked = run.budget.tick();
        if run.plan.is_complete() {
            return run.deliver();
        }
        if !ticked {
            return run.fail(Failure::Stopped { reason: StopReason::TickCeiling });
        }
        if run.is_out_of_time(elapsed_ns, spawn_ns) {
            return run.fail(Failure::Stopped { reason: StopReason::WallClock });
        }
        if run.budget.turns == 0 {
            return run.fail(Failure::Stopped { reason: StopReason::TurnBudget });
        }
        if aborted {
            return run.fail(Failure::Stopped { reason: StopReason::Aborted });
        }
        if run.plan.has_failure() {
            return run.fail(Failure::Stopped { reason: StopReason::StepFailed });
        }
        let ids = ready_ids(&run.plan);
        assert(ids@.len() == t::texts(ids@).len() == run.plan@.ready().len());
        if ids.len() == 0 {
            return run.fail(Failure::Stopped { reason: StopReason::NoRunnableSteps });
        }
        run.dequeue(ids)
    }

    fn deliver(self) -> (r: (Run, Action<String>))
        ensures
            (r.0@, r.1@) == self@.delivering(),
    {
        if self.collected > 0 {
            (self.with_stage(Stage::Counting), Action::CountFiles)
        } else {
            (self.with_stage(Stage::PlacingSynthesizer), Action::PlaceSynthesizer { role: Role::Synthesizer })
        }
    }

    fn dequeue(self, queue: Vec<String>) -> (r: (Run, Action<String>))
        ensures
            (r.0@, r.1@) == self@.dequeued(t::texts(queue@)),
    {
        let mut queue = queue;
        let ghost all = t::texts(queue@);
        if queue.len() == 0 {
            (self.with_stage(Stage::Checking), Action::Check)
        } else {
            let id = queue.remove(0);
            assert(id@ == all[0]);
            assert(t::texts(queue@) =~= all.skip(1));
            let role = self.role(id.as_str());
            let name = id.clone();
            (self.with_stage(Stage::Placing { id, queue }), Action::PlaceStep { id: name, role })
        }
    }

    fn give_up_step(self, id: String, queue: Vec<String>, error: String) -> (r: (Run, Action<String>))
        ensures
            (r.0@, r.1@) == self@.step_failed(id@, t::texts(queue@), error@),
    {
        let mut run = self;
        run.plan.set_status(id.as_str(), StepStatus::Failed);
        (run.with_stage(Stage::Advancing { queue }), Action::StepFailed { id, error })
    }

    fn leave_step(self, id: String, queue: Vec<String>, error: String) -> (r: (Run, Action<String>))
        ensures
            (r.0@, r.1@) == self@.unplaced(id@, t::texts(queue@), error@),
    {
        let role = self.role(id.as_str());
        let mut run = self;
        run.plan.set_status(id.as_str(), StepStatus::Failed);
        (run.with_stage(Stage::Advancing { queue }), Action::StepUnplaced { id, role, error })
    }

    fn begin_step(self, id: String, queue: Vec<String>, agent: String) -> (r: (Run, Action<String>))
        ensures
            (r.0@, r.1@) == self@.begun(id@, t::texts(queue@), agent@),
    {
        let mut run = self;
        run.plan.start_attempt(id.as_str());
        if run.budget.turns == 0 {
            run.give_up_step(id, queue, "turn budget exhausted".to_owned())
        } else {
            let action = Action::Work { id: id.clone(), agent: agent.clone() };
            let work = Work { id, agent, queue, current: String::new(), cycles: 0 };
            (run.charge().with_stage(Stage::Working { work }), action)
        }
    }

    fn accept(self, work: Work<String, Vec<String>>) -> (r: (Run, Action<String>))
        ensures
            (r.0@, r.1@) == self@.accepted(work@),
    {
        let mut run = self;
        run.plan.set_result(work.id.as_str(), work.current.clone());
        let agent = work.agent.clone();
        (run.with_stage(Stage::Collecting { work }), Action::Collect { agent })
    }

    fn review(self, work: Work<String, Vec<String>>) -> (r: (Run, Action<String>))
        ensures
            (r.0@, r.1@) == self@.reviewing(work@),
    {
        if work.cycles < self.caps.max_review_cycles {
            (self.with_stage(Stage::PlacingReviewer { work }), Action::PlaceReviewer { role: Role::Reviewer })
        } else {
            self.accept(work)
        }
    }

    fn finish_step(self, work: Work<String, Vec<String>>, text: String) -> (r: (Run, Action<String>))
        ensures
            (r.0@, r.1@) == self@.worked(work@, text@),
    {
        let work = Work { current: text, cycles: 0, ..work };
        if self.is_reviewed(work.id.as_str()) {
            self.review(work)
        } else {
            self.accept(work)
        }
    }

    fn ask_reviewer(self, work: Work<String, Vec<String>>, agent: String) -> (r: (Run, Action<String>))
        ensures
            (r.0@, r.1@) == self@.reviewer_placed(work@, agent@),
    {
        if self.budget.turns == 0 {
            self.accept(work)
        } else {
            let task = self.task(work.id.as_str());
            let request = review_request(task.as_str(), work.current.as_str());
            (self.charge().with_stage(Stage::Reviewing { work }), Action::Review { agent, role: Role::Reviewer, request })
        }
    }

    fn hear_verdict(self, work: Work<String, Vec<String>>, text: String) -> (r: (Run, Action<String>))
        ensures
            (r.0@, r.1@) == self@.verdict(work@, text@),
    {
        match parse_review(text.as_str()) {
            ReviewVerdict::Approve => self.accept(work),
            ReviewVerdict::Revise(feedback) => {
                let cycles: u32 = next_cycle(work.cycles);
                let mut run = self;
                run.plan.set_cycles(work.id.as_str(), cycles);
                if run.budget.turns == 0 {
                    return run.fail(Failure::TurnBudgetExhausted);
                }
                let task = run.task(work.id.as_str());
                let role = run.role(work.id.as_str());
                let request = revise_request(task.as_str(), feedback.as_str(), work.current.as_str());
                let agent = work.agent.clone();
                let next = Work { cycles, ..work };
                (
                    run.charge().with_stage(Stage::Revising { work: next }),
                    Action::Revise { agent, role, request },
                )
            },
            ReviewVerdict::Unclear => {
                let cycles: u32 = next_cycle(work.cycles);
                let mut run = self;
                run.plan.set_cycles(work.id.as_str(), cycles);
                run.review(Work { cycles, ..work })
            },
        }
    }

    fn gather(self, work: Work<String, Vec<String>>, files: usize) -> (r: (Run, Action<String>))
        ensures
            (r.0@, r.1@) == self@.gathered(work@, files),
    {
        let mut run = self;
        let role = run.role(work.id.as_str());
        let done: usize = run.plan.count_done();
        let total: usize = run.plan.steps.len();
        if files <= usize::MAX - run.collected {
            run.collected = run.collected + files;
        } else {
            run.collected = usize::MAX;
        }
        if files >= run.builder_files {
            run.builder_files = files;
            if files > 0 {
                run.builder = Some(work.agent);
            }
        }
        (
            run.with_stage(Stage::Advancing { queue: work.queue }),
            Action::StepDone { id: work.id, role, files, done, total },
        )
    }

    fn hand_over(self, outcome: VerifyOutcome<String>) -> (r: (Run, Action<String>))
        ensures
            (r.0@, r.1@) == self@.delivered(outcome@),
    {
        (self.with_stage(Stage::Ended), Action::DeliverFiles { outcome })
    }

    fn run_verification(self, agent: String, rounds: u32) -> (r: (Run, Action<String>))
        ensures
            (r.0@, r.1@) == self@.verifying(agent@, rounds),
    {
        if self.budget.turns == 0 {
            self.hand_over(
                VerifyOutcome::Inconclusive {
                    reason: "turn budget ran out before verification finished".to_owned(),
                },
            )
        } else {
            let name = agent.clone();
            (self.charge().with_stage(Stage::Verifying { agent, rounds }), Action::Verify { agent: name })
        }
    }

    fn count(self, files: usize) -> (r: (Run, Action<String>))
        ensures
            (r.0@, r.1@) == self@.counted(files),
    {
        if files == 0 {
            return (self.with_stage(Stage::PlacingSynthesizer), Action::PlaceSynthesizer { role: Role::Synthesizer });
        }
        if !self.verify {
            return self.hand_over(VerifyOutcome::Skipped);
        }
        match self.builder.clone() {
            None => self.hand_over(
                VerifyOutcome::Inconclusive { reason: "no agent produced runnable files".to_owned() },
            ),
            Some(agent) => {
                let rounds: u32 = self.caps.max_review_cycles;
                self.run_verification(agent, rounds)
            },
        }
    }

    fn hear_check(self, agent: String, rounds: u32, passed: Option<bool>, detail: String) -> (r: (
        Run,
        Action<String>,
    ))
        ensures
            (r.0@, r.1@) == self@.verified(agent@, rounds, passed, detail@),
    {
        match passed {
            Some(true) => self.hand_over(VerifyOutcome::Passed),
            Some(false) => if rounds == 0 {
                self.hand_over(VerifyOutcome::Failed { detail })
            } else {
                self.run_verification(agent, rounds - 1)
            },
            None => self.hand_over(
                VerifyOutcome::Inconclusive { reason: "verifier did not report PASS or FAIL".to_owned() },
            ),
        }
    }

    fn synthesize(self, agent: String) -> (r: (Run, Action<String>))
        requires
            self@.stage is PlacingSynthesizer,
        ensures
            (r.0@, r.1@) == self@.next(Event::Placed { agent: agent@ }),
    {
        if self.budget.turns == 0 {
            self.fail(Failure::TurnBudgetExhausted)
        } else {
            let request = synthesis_request(self.goal.as_str(), &self.plan);
            (self.charge().with_stage(Stage::Synthesizing), Action::Synthesize { agent, role: Role::Synthesizer, request })
        }
    }

    /// Takes in what happened and says what is to be done.
    pub fn run_inner(self, event: Event<String>) -> (r: (Run, Action<String>))
        ensures
            (r.0@, r.1@) == self@.next(event@),
    {
        let ghost before = self@;
        let mut run = self;
        let mut stage: Stage<String, Vec<String>> = Stage::Ended;
        std::mem::swap(&mut stage, &mut run.stage);
        assert(run@ == before.at(Stage::Ended));
        match (stage, event) {
            (Stage::Fresh, Event::Begin) => if run.budget.turns == 0 {
                run.fail(Failure::TurnBudgetExhausted)
            } else {
                (
                    run.charge().with_stage(Stage::Planning { retried: false }),
                    Action::AskCoordinator { role: Role::Coordinator, strict: false },
                )
            },
            (Stage::Planning { retried }, Event::Reply { text, aborted }) => run.plan_reply(
                retried,
                text,
                aborted,
            ),
            (Stage::Planning { retried: _ }, Event::Failed { error }) => run.fail(Failure::Dispatch { error }),
            (Stage::Checking, Event::Clock { elapsed_ns, spawn_ns, aborted }) => run.check(
                elapsed_ns,
                spawn_ns,
                aborted,
            ),
            (Stage::Advancing { queue }, Event::Next) => run.dequeue(queue),
            (Stage::Placing { id, queue }, Event::Placed { agent }) => run.begin_step(id, queue, agent),
            (Stage::Placing { id, queue }, Event::Unplaced { error }) => run.leave_step(id, queue, error),
            (Stage::Working { work }, Event::Reply { text, aborted: _ }) => run.finish_step(work, text),
            (Stage::Working { work }, Event::Failed { error }) => run.give_up_step(work.id, work.queue, error),
            (Stage::PlacingReviewer { work }, Event::Placed { agent }) => run.ask_reviewer(work, agent),
            (Stage::PlacingReviewer { work }, Event::Unplaced { error: _ }) => run.accept(work),
            (Stage::Reviewing { work }, Event::Reply { text, aborted: _ }) => run.hear_verdict(work, text),
            (Stage::Reviewing { work }, Event::Failed { error: _ }) => run.accept(work),
            (Stage::Revising { work }, Event::Reply { text, aborted: _ }) => run.review(
                Work { current: text, ..work },
            ),
            (Stage::Revising { work: _ }, Event::Failed { error }) => run.fail(Failure::Dispatch { error }),
            (Stage::Collecting { work }, Event::Collected { files }) => run.gather(work, files),
            (Stage::Counting, Event::Counted { files }) => run.count(files),
            (Stage::Verifying { agent, rounds }, Event::Verified { passed, detail }) => run.hear_check(
                agent,
                rounds,
                passed,
                detail,
            ),
            (Stage::Verifying { agent: _, rounds: _ }, Event::Failed { error }) => run.hand_over(
                VerifyOutcome::Inconclusive {
                    reason: "verifier dispatch failed: ".to_owned().concat(error.as_str()),
                },
            ),
            (Stage::PlacingSynthesizer, Event::Placed { agent }) => run.with_stage(
                Stage::PlacingSynthesizer,
            ).synthesize(agent),
            (Stage::PlacingSynthesizer, Event::Unplaced { error }) => run.fail(Failure::Unplaced { error }),
            (Stage::Synthesizing, Event::Reply { text, aborted: _ }) => {
                let reply = clean_reply(text.as_str(), run.done.as_str(), run.blocked.as_str());
                (run, Action::WriteReply { reply })
            },
            (Stage::Synthesizing, Event::Failed { error }) => run.fail(Failure::Dispatch { error }),
            (stage, _) => (run.with_stage(stage), Action::Refused),
        }
    }
}

// ---------------------------------------------------------------------------
// What a run is reported as
// ---------------------------------------------------------------------------

impl StopReason {
    pub open spec fn words(self) -> Seq<char> {
        match self {
            StopReason::TickCeiling => "tick ceiling reached"@,
            StopReason::WallClock => "wall-clock budget reached"@,
            StopReason::TurnBudget => "turn budget exhausted"@,
            StopReason::Aborted => "aborted"@,
            StopReason::StepFailed => "a step failed"@,
            StopReason::NoRunnableSteps => "no runnable steps left"@,
        }
    }

    pub fn text(&self) -> (r: &'static str)
        ensures
            r@ == self.words(),
    {
        match self {
            StopReason::TickCeiling => "tick ceiling reached",
            StopReason::WallClock => "wall-clock budget reached",
            StopReason::TurnBudget => "turn budget exhausted",
            StopReason::Aborted => "aborted",
            StopReason::StepFailed => "a step failed",
            StopReason::NoRunnableSteps => "no runnable steps left",
        }
    }
}

/// What the chat is told when a run sets out.
pub fn started_text(goal: &str, run_id: &str) -> (r: String)
    ensures
        r@ == "🔄 On it — "@ + goal@ + "\nRun `"@ + run_id@ + "`. Breaking the goal into steps…"@,
{
    "🔄 On it — ".to_owned().concat(goal).concat("\nRun `").concat(run_id).concat(
        "`. Breaking the goal into steps…",
    )
}

/// What the chat is told of the plan; `summary` lists its steps.
pub fn plan_ready_text(steps: usize, summary: &str) -> (r: String)
    ensures
        r@ == "📋 Plan — "@ + t::decimal(steps as nat) + " steps:\n"@ + summary@ + "\n\nRunning now…"@,
{
    "📋 Plan — ".to_owned().concat(t::usize_text(steps).as_str()).concat(" steps:\n").concat(summary).concat(
        "\n\nRunning now…",
    )
}

/// What is reported of a step that no agent can be found for.
pub fn unplaced_text(id: &str, role: &str, error: &str) -> (r: String)
    ensures
        r@ == "orchestrator: step "@ + id@ + " role '"@ + role@ + "' unresolved: "@ + error@,
{
    "orchestrator: step ".to_owned().concat(id).concat(" role '").concat(role).concat("' unresolved: ").concat(
        error,
    )
}

/// What the chat is told of a finished step.
pub fn step_done_text(done: usize, total: usize, role: &str, id: &str) -> (r: String)
    ensures
        r@ == "✓ "@ + t::decimal(done as nat) + "/"@ + t::decimal(total as nat) + " — "@ + role@ + " ("@ + id@
            + ")"@,
{
    "✓ ".to_owned().concat(t::usize_text(done).as_str()).concat("/").concat(
        t::usize_text(total).as_str(),
    ).concat(" — ").concat(role).concat(" (").concat(id).concat(")")
}

/// What the chat is told when files were delivered; `label` names the verdict
/// where the files were checked.
pub fn files_done_text(run_id: &str, label: Option<&str>, files: usize) -> (r: String)
    ensures
        r@ == match label {
            Some(l) => "✅ Done — Loop `"@ + run_id@ + "` ["@ + l@ + "] — "@ + t::decimal(files as nat)
                + " file(s)"@,
            None => "✅ Done — Loop `"@ + run_id@ + "` — "@ + t::decimal(files as nat) + " file(s)"@,
        },
{
    let count = t::usize_text(files);
    match label {
        Some(l) => "✅ Done — Loop `".to_owned().concat(run_id).concat("` [").concat(l).concat("] — ").concat(
            count.as_str(),
        ).concat(" file(s)"),
        None => "✅ Done — Loop `".to_owned().concat(run_id).concat("` — ").concat(count.as_str()).concat(
            " file(s)",
        ),
    }
}

/// What the chat is told when the answer is prose: its first 3500 characters.
pub fn answer_text(run_id: &str, reply: &str) -> (r: String)
    ensures
        r@ == "✅ Done — Loop `"@ + run_id@ + "`\n\n"@ + t::head(reply@, 3500),
{
    "✅ Done — Loop `".to_owned().concat(run_id).concat("`\n\n").concat(t::take_chars(reply, 3500).as_str())
}

/// What the chat is told when a run stops on an error.
pub fn stopped_text(run_id: &str, error: &str) -> (r: String)
    ensures
        r@ == "⚠️ Loop `"@ + run_id@ + "` stopped: "@ + error@,
{
    "⚠️ Loop `".to_owned().concat(run_id).concat("` stopped: ").concat(error)
}

pub open spec fn failure_words(
    failure: Failure<Seq<char>>,
    run_id: Seq<char>,
    coordinator: Seq<char>,
    problem: Seq<char>,
    preview: Seq<char>,
) -> Seq<char> {
    match failure {
        Failure::TurnBudgetExhausted => "turn budget exhausted"@,
        Failure::Dispatch { error } => error,
        Failure::PlanUnusable { .. } => "planning failed: "@ + problem + ". The coordinator ("@ + coordinator
            + ") replied: "@ + preview,
        Failure::PlanTooLarge { steps, turns } => "the "@ + t::decimal(steps as nat)
            + "-step plan could exceed the "@ + t::decimal(turns as nat)
            + " remaining turn budget; simplify the goal or raise --max-turns"@,
        Failure::Stopped { reason } => "orchestrator run "@ + run_id + " stopped before completion: "@
            + reason.words(),
        Failure::Unplaced { error } => error,
    }
}

/// What a failed run is reported as. `problem` says what is wrong with the
/// coordinator's last reply, and `preview` is a short form of it.
pub fn failure_text(failure: &Failure<String>, run_id: &str, coordinator: &str, problem: &str, preview: &str) -> (r:
    String)
    ensures
        r@ == failure_words(failure@, run_id@, coordinator@, problem@, preview@),
{
    match failure {
        Failure::TurnBudgetExhausted => "turn budget exhausted".to_owned(),
        Failure::Dispatch { error } => error.clone(),
        Failure::PlanUnusable { problem: _, reply: _ } => "planning failed: ".to_owned().concat(
            problem,
        ).concat(". The coordinator (").concat(coordinator).concat(") replied: ").concat(preview),
        Failure::PlanTooLarge { steps, turns } => "the ".to_owned().concat(
            t::usize_text(*steps).as_str(),
        ).concat("-step plan could exceed the ").concat(t::u64_text(*turns as u64).as_str()).concat(
            " remaining turn budget; simplify the goal or raise --max-turns",
        ),
        Failure::Stopped { reason } => "orchestrator run ".to_owned().concat(run_id).concat(
            " stopped before completion: ",
        ).concat(reason.text()),
        Failure::Unplaced { error } => error.clone(),
    }
}

// ---------------------------------------------------------------------------
// Laws
// ---------------------------------------------------------------------------

/// Whether the action sends an agent a request.
pub open spec fn is_request(action: ActionView) -> bool {
    match action {
        Action::AskCoordinator { .. } => true,
        Action::Work { .. } => true,
        Action::Review { .. } => true,
        Action::Revise { .. } => true,
        Action::Verify { .. } => true,
        Action::Synthesize { .. } => true,
        _ => false,
    }
}

/// The turn budget only counts down, and every request is paid for with
/// exactly one turn before it is sent.
pub proof fn law_every_request_is_paid_for(run: RunView, event: EventView)
    ensures
        is_request(run.next(event).1) ==> run.next(event).0.budget.turns + 1 == run.budget.turns,
        !is_request(run.next(event).1) ==> run.next(event).0.budget.turns == run.budget.turns,
{
}

/// The run after a series of events.
pub open spec fn after(run: RunView, events: Seq<EventView>) -> RunView
    decreases events.len(),
{
    if events.len() == 0 {
        run
    } else {
        after(run, events.drop_last()).next(events.last()).0
    }
}

/// How many requests a series of events leads to.
pub open spec fn requests(run: RunView, events: Seq<EventView>) -> nat
    decreases events.len(),
{
    if events.len() == 0 {
        0
    } else {
        requests(run, events.drop_last()) + if is_request(
            after(run, events.drop_last()).next(events.last()).1,
        ) {
            1nat
        } else {
            0
        }
    }
}

/// Whatever happens, a run sends no more requests than it had turns: those it
/// sent and those it has left are the turns it began with.
pub proof fn law_requests_never_exceed_the_turn_budget(run: RunView, events: Seq<EventView>)
    ensures
        requests(run, events) + after(run, events).budget.turns == run.budget.turns,
    decreases events.len(),
{
    if events.len() > 0 {
        law_requests_never_exceed_the_turn_budget(run, events.drop_last());
        law_every_request_is_paid_for(after(run, events.drop_last()), events.last());
    }
}

/// A run that has ended does nothing any more.
pub proof fn law_an_ended_run_stays_ended(run: RunView, event: EventView)
    requires
        run.stage is Ended,
    ensures
        run.next(event) == (run, Action::<Seq<char>>::Refused),
{
}

/// A pass of the loop uses up one tick, and without a tick left an unfinished
/// run ends: the loop cannot go on forever.
pub proof fn law_passes_are_bounded(run: RunView, elapsed_ns: u64, spawn_ns: u64, aborted: bool)
    requires
        run.stage is Checking,
    ensures
        run.budget.ticks > 0 ==> run.next(
            Event::Clock { elapsed_ns, spawn_ns, aborted },
        ).0.budget.ticks + 1 == run.budget.ticks,
        run.budget.ticks == 0 && !run.plan.complete() ==> run.next(
            Event::Clock { elapsed_ns, spawn_ns, aborted },
        ).0.stage is Ended,
{
}

/// An unfinished run that is aborted, or out of time or turns, sends nothing
/// more from the top of the loop.
pub proof fn law_limits_stop_the_loop(run: RunView, elapsed_ns: u64, spawn_ns: u64, aborted: bool)
    requires
        run.stage is Checking,
        !run.plan.complete(),
        aborted || run.out_of_time(elapsed_ns, spawn_ns) || run.budget.turns == 0,
    ensures
        run.next(Event::Clock { elapsed_ns, spawn_ns, aborted }).0.stage is Ended,
        run.next(Event::Clock { elapsed_ns, spawn_ns, aborted }).1 is Fail,
{
}

/// The reviews of the step at work stay within the cap.
pub open spec fn reviews_bounded(run: RunView) -> bool {
    match run.stage {
        Stage::PlacingReviewer { work } => work.cycles < run.caps.max_review_cycles,
        Stage::Reviewing { work } => work.cycles < run.caps.max_review_cycles,
        Stage::Revising { work } => work.cycles <= run.caps.max_review_cycles,
        _ => true,
    }
}

/// Review and revision cannot alternate without end: the cycles of a step stay
/// within the cap whatever happens.
pub proof fn law_review_cycles_are_bounded(run: RunView, event: EventView)
    requires
        reviews_bounded(run),
    ensures
        reviews_bounded(run.next(event).0),
        run.next(event).0.caps == run.caps,
{
}

/// The step that an event is about.
pub open spec fn step_at_work(run: RunView) -> Option<Seq<char>> {
    match run.stage {
        Stage::Placing { id, .. } => Some(id),
        Stage::Working { work } => Some(work.id),
        Stage::PlacingReviewer { work } => Some(work.id),
        Stage::Reviewing { work } => Some(work.id),
        Stage::Revising { work } => Some(work.id),
        _ => None,
    }
}

/// Once the plan stands, an event changes at most the step at work.
pub proof fn law_only_the_step_at_work_changes(run: RunView, event: EventView, i: int)
    requires
        !(run.stage is Planning),
        0 <= i < run.plan.steps.len(),
        match step_at_work(run) {
            Some(id) => run.plan.steps[i].id != id,
            None => true,
        },
    ensures
        run.next(event).0.plan.steps.len() == run.plan.steps.len(),
        run.next(event).0.plan.steps[i] == run.plan.steps[i],
{
    match step_at_work(run) {
        Some(id) => {
            let (text, cycles) = match run.stage {
                Stage::PlacingReviewer { work } => (work.current, 0nat),
                Stage::Reviewing { work } => (work.current, bump(work.cycles) as nat),
                Stage::Revising { work } => (match event {
                    Event::Reply { text, .. } => text,
                    _ => work.current,
                }, 0nat),
                _ => (match event {
                    Event::Reply { text, .. } => text,
                    _ => Seq::empty(),
                }, 0nat),
            };
            let failed = StepStatus::Failed;
            plan::lemma_changes_are_local(run.plan, id, failed, cycles, text, i);
            plan::lemma_changes_are_local(run.plan.with_attempt(id), id, failed, cycles, text, i);
            plan::lemma_changes_are_local(run.plan.with_cycles(id, cycles), id, failed, cycles, text, i);
        },
        None => {},
    }
}

/// What is delivered comes of a complete plan.
pub open spec fn delivers_whole(run: RunView) -> bool {
    match run.stage {
        Stage::Counting => run.plan.complete(),
        Stage::Verifying { .. } => run.plan.complete(),
        Stage::PlacingSynthesizer => run.plan.complete(),
        Stage::Synthesizing => run.plan.complete(),
        _ => true,
    }
}

proof fn lemma_delivers_whole(run: RunView, event: EventView)
    requires
        delivers_whole(run),
    ensures
        delivers_whole(run.next(event).0),
        run.next(event).1 is DeliverFiles || run.next(event).1 is WriteReply ==> run.plan.complete()
            && run.next(event).0.plan == run.plan,
{
}

/// A run that delivers has a complete plan: whatever happened since it began, the
/// files are handed over, or the answer is written, only with every step done.
pub proof fn law_a_run_that_delivers_has_a_complete_plan(run: RunView, events: Seq<EventView>, event: EventView)
    requires
        run.stage is Fresh,
    ensures
        ({
            let (last, action) = after(run, events).next(event);
            action is DeliverFiles || action is WriteReply ==> last.plan.complete()
        }),
{
    lemma_after_delivers_whole(run, events);
    lemma_delivers_whole(after(run, events), event);
}

proof fn lemma_after_delivers_whole(run: RunView, events: Seq<EventView>)
    requires
        delivers_whole(run),
    ensures
        delivers_whole(after(run, events)),
    decreases events.len(),
{
    if events.len() > 0 {
        lemma_after_delivers_whole(run, events.drop_last());
        lemma_delivers_whole(after(run, events.drop_last()), events.last());
    }
}

/// Step `i` is the one that an id stands for: the first that has it.
pub open spec fn stands_for(p: PlanView, id: Seq<char>, i: int) -> bool {
    &&& 0 <= i < p.steps.len()
    &&& p.steps[i].id == id
    &&& forall|j: int| 0 <= j < i ==> (#[trigger] p.steps[j]).id != id
}

proof fn lemma_stands_for(p: PlanView, id: Seq<char>, i: int, from: int)
    requires
        stands_for(p, id, i),
        0 <= from <= i,
    ensures
        p.position_from(id, from) == Some(i),
    decreases i - from,
{
    if from < i {
        assert(p.steps[from].id != id);
        lemma_stands_for(p, id, i, from + 1);
    }
}

/// A change that keeps the ids keeps the step that an id stands for.
proof fn lemma_still_stands_for(p: PlanView, q: PlanView, id: Seq<char>, i: int)
    requires
        stands_for(p, id, i),
        q.steps.len() == p.steps.len(),
        forall|k: int| 0 <= k < p.steps.len() ==> (#[trigger] q.steps[k]).id == p.steps[k].id,
    ensures
        stands_for(q, id, i),
        q.position(id) == Some(i),
{
    assert forall|j: int| 0 <= j < i implies (#[trigger] q.steps[j]).id != id by {
        assert(p.steps[j].id != id);
    }
    lemma_stands_for(q, id, i, 0);
}

/// A run sets out by asking the coordinator, unless it has no turn to ask with.
pub proof fn law_a_run_sets_out_with_the_coordinator(run: RunView)
    requires
        run.stage is Fresh,
    ensures
        run.budget.turns > 0 ==> run.next(Event::Begin).1 == (Action::<Seq<char>>::AskCoordinator {
            role: Role::Coordinator,
            strict: false,
        }) && run.next(Event::Begin).0.stage == (Stage::<Seq<char>, Seq<Seq<char>>>::Planning { retried: false }),
        run.budget.turns == 0 ==> run.next(Event::Begin).1 == (Action::<Seq<char>>::Fail {
            failure: Failure::TurnBudgetExhausted,
        }) && run.next(Event::Begin).0.stage is Ended,
{
}

/// What was asked for stays: no event changes the goal, the roles, the caps, the
/// wish for a check or the markers of a run.
pub proof fn law_the_settings_of_a_run_are_kept(run: RunView, event: EventView)
    ensures
        run.next(event).0.goal == run.goal,
        run.next(event).0.registry == run.registry,
        run.next(event).0.caps == run.caps,
        run.next(event).0.verify == run.verify,
        run.next(event).0.done == run.done,
        run.next(event).0.blocked == run.blocked,
        run.next(event).1 is Refused ==> run.next(event).0 == run,
{
}

/// A plan is taken up only where it can be carried out: each role is one of the
/// registry's, each dependency is a step, every step can have a turn, and all
/// steps wait without a result.
pub proof fn law_a_plan_that_is_taken_up_can_be_run(run: RunView, text: Seq<char>, aborted: bool, i: int)
    requires
        run.stage is Planning,
        run.next(Event::Reply { text, aborted }).1 is PlanReady,
        0 <= i < run.next(Event::Reply { text, aborted }).0.plan.steps.len(),
    ensures
        ({
            let after = run.next(Event::Reply { text, aborted }).0;
            let step = after.plan.steps[i];
            &&& after.stage is Checking
            &&& after.plan.goal == run.goal
            &&& after.budget == run.budget
            &&& after.plan.steps.len() <= run.budget.turns
            &&& t::texts(run.registry.names@).contains(step.role)
            &&& forall|k: int|
                0 <= k < step.deps.len() ==> exists|j: int|
                    0 <= j < after.plan.steps.len() && (#[trigger] after.plan.steps[j]).id == #[trigger] step.deps[k]
            &&& step.status == StepStatus::Waiting
            &&& step.result is None
        }),
{
    let after = run.next(Event::Reply { text, aborted }).0;
    let step = after.plan.steps[i];
    assert(after.plan.role_known(run.registry, i));
    assert(after.plan.deps_known(i));
    let x = replies::object_in(text)->0;
    let v = x.items_at("steps"@)->0;
    assert(replies::step_in(v[i]) is Some);
    assert forall|k: int| 0 <= k < step.deps.len() implies exists|j: int|
        0 <= j < after.plan.steps.len() && (#[trigger] after.plan.steps[j]).id == #[trigger] step.deps[k] by {
        assert(after.plan.has_step(step.deps[k]));
    }
}

/// The steps that are taken up are those that the coordinator wrote, in its
/// order: each with the id, the role and the task given to it.
pub proof fn law_the_coordinators_steps_are_taken_up(run: RunView, text: Seq<char>, aborted: bool, x: crate::json::Tree)
    requires
        run.stage is Planning,
        replies::object_in(text) == Some(x),
        run.next(Event::Reply { text, aborted }).1 is PlanReady,
    ensures
        ({
            let plan = run.next(Event::Reply { text, aborted }).0.plan;
            &&& x.items_at("steps"@) matches Some(v) && v.len() == plan.steps.len() && forall|i: int|
                0 <= i < v.len() ==> {
                    &&& (#[trigger] v[i]).text_at("id"@) == Some(plan.steps[i].id)
                    &&& v[i].text_at("role"@) == Some(plan.steps[i].role)
                    &&& v[i].text_at("task"@) == Some(plan.steps[i].task)
                    &&& v[i].get("review"@) is None ==> !plan.steps[i].review
                    &&& v[i].get("review"@) matches Some(b) ==> b.truth() == Some(plan.steps[i].review)
                    &&& v[i].get("deps"@) is None ==> plan.steps[i].deps.len() == 0
                    &&& v[i].get("deps"@) matches Some(crate::json::Tree::List(d)) ==> d.len()
                        == plan.steps[i].deps.len() && forall|k: int|
                        0 <= k < d.len() ==> (#[trigger] d[k]).text() == Some(plan.steps[i].deps[k])
                }
        }),
{
    let v = x.items_at("steps"@)->0;
    assert forall|i: int| 0 <= i < v.len() implies replies::step_in(#[trigger] v[i]) is Some by {}
}

/// A reply without a plan is answered by one stricter request, and by no more
/// than one; a plan that the turns cannot pay for ends the run.
pub proof fn law_the_coordinator_is_asked_at_most_twice(run: RunView, text: Seq<char>, aborted: bool)
    requires
        run.stage is Planning,
    ensures
        ({
            let (after, action) = run.next(Event::Reply { text, aborted });
            let retried = run.stage->Planning_retried;
            &&& action is PlanReady || action is AskCoordinator || action is Fail
            &&& action is AskCoordinator ==> !retried && !aborted && action == (Action::<Seq<char>>::AskCoordinator {
                role: Role::Coordinator,
                strict: true,
            }) && after.stage == (Stage::<Seq<char>, Seq<Seq<char>>>::Planning { retried: true })
            &&& action is Fail ==> after.stage is Ended
            &&& replies::object_in(text) is None && !retried && !aborted && run.budget.turns > 0
                ==> action is AskCoordinator
            &&& replies::object_in(text) is None && retried ==> action == (Action::Fail {
                failure: Failure::PlanUnusable { problem: PlanError::NoObject, reply: text },
            })
            &&& action matches Action::Fail { failure: Failure::PlanTooLarge { turns, .. } } ==> turns
                == run.budget.turns
        }),
{
}

/// A request that fails where nothing can stand in for its reply ends the run
/// with its error: the plan, a revision, or the answer.
pub proof fn law_a_failed_dispatch_ends_the_run(run: RunView, error: Seq<char>)
    requires
        run.stage is Planning || run.stage is Revising || run.stage is Synthesizing,
    ensures
        run.next(Event::Failed { error }).1 == (Action::Fail { failure: Failure::Dispatch { error } }),
        run.next(Event::Failed { error }).0.stage is Ended,
        run.next(Event::Failed { error }).0.plan == run.plan,
{
}

/// The reply to a step is its result. It counts at once where the step is not
/// reviewed or no review may follow, and goes to a review as it is else.
pub proof fn law_a_reply_is_the_result_of_its_step(run: RunView, text: Seq<char>, aborted: bool, i: int)
    requires
        run.stage is Working,
        stands_for(run.plan, run.stage->Working_work.id, i),
    ensures
        ({
            let work = run.stage->Working_work;
            let (after, action) = run.next(Event::Reply { text, aborted });
            let with_text = Work { current: text, cycles: 0u32, ..work };
            if run.plan.steps[i].review && run.caps.max_review_cycles > 0 {
                &&& after.stage == (Stage::PlacingReviewer { work: with_text })
                &&& action == (Action::<Seq<char>>::PlaceReviewer { role: Role::Reviewer })
                &&& after.plan == run.plan
            } else {
                &&& after.stage == (Stage::Collecting { work: with_text })
                &&& action == (Action::Collect { agent: work.agent })
                &&& after.plan.steps[i].status == StepStatus::Done
                &&& after.plan.steps[i].result == Some(text)
            }
        }),
{
    lemma_stands_for(run.plan, run.stage->Working_work.id, i, 0);
}

/// The reply to a request for a revision takes the place of what was rejected:
/// it is what the next review sees, and where the reviews are used up it is the
/// result of the step.
pub proof fn law_a_revised_result_replaces_the_rejected_one(run: RunView, text: Seq<char>, aborted: bool, i: int)
    requires
        run.stage is Revising,
        stands_for(run.plan, run.stage->Revising_work.id, i),
    ensures
        ({
            let work = run.stage->Revising_work;
            let (after, action) = run.next(Event::Reply { text, aborted });
            let revised = Work { current: text, ..work };
            if work.cycles < run.caps.max_review_cycles {
                &&& after.stage == (Stage::PlacingReviewer { work: revised })
                &&& action == (Action::<Seq<char>>::PlaceReviewer { role: Role::Reviewer })
                &&& after.plan == run.plan
            } else {
                &&& after.stage == (Stage::Collecting { work: revised })
                &&& action == (Action::Collect { agent: work.agent })
                &&& after.plan.steps[i].status == StepStatus::Done
                &&& after.plan.steps[i].result == Some(text)
            }
        }),
{
    lemma_stands_for(run.plan, run.stage->Revising_work.id, i, 0);
}

/// Whoever reviews is given the task of the step and the result as it stands.
pub proof fn law_a_review_is_of_the_result_as_it_stands(run: RunView, agent: Seq<char>, i: int)
    requires
        run.stage is PlacingReviewer,
        run.budget.turns > 0,
        stands_for(run.plan, run.stage->PlacingReviewer_work.id, i),
    ensures
        ({
            let work = run.stage->PlacingReviewer_work;
            let (after, action) = run.next(Event::Placed { agent });
            &&& action == (Action::Review {
                agent,
                role: Role::Reviewer,
                request: "Acceptance criteria (the step's task):\n"@ + run.plan.steps[i].task
                    + "\n\nResult to check:\n"@ + work.current,
            })
            &&& after.stage == (Stage::Reviewing { work })
            &&& after.plan == run.plan
        }),
{
    lemma_stands_for(run.plan, run.stage->PlacingReviewer_work.id, i, 0);
}

/// The step whose result is under review.
pub open spec fn under_review(run: RunView) -> Option<WorkView> {
    match run.stage {
        Stage::PlacingReviewer { work } => Some(work),
        Stage::Reviewing { work } => Some(work),
        _ => None,
    }
}

/// A result that nobody rejects counts: where the review approves, cannot be
/// had, cannot be paid for or fails, the step is done with the result that was
/// to be reviewed.
pub proof fn law_a_result_that_is_not_rejected_counts(run: RunView, event: EventView, i: int)
    requires
        under_review(run) is Some,
        stands_for(run.plan, under_review(run)->0.id, i),
        match (run.stage, event) {
            (Stage::PlacingReviewer { .. }, Event::Unplaced { .. }) => true,
            (Stage::PlacingReviewer { .. }, Event::Placed { .. }) => run.budget.turns == 0,
            (Stage::Reviewing { .. }, Event::Failed { .. }) => true,
            (Stage::Reviewing { .. }, Event::Reply { text, .. }) => t::has(text, "[[REVIEW: APPROVE]]"@),
            _ => false,
        },
    ensures
        ({
            let work = under_review(run)->0;
            let (after, action) = run.next(event);
            &&& after.plan.steps[i].status == StepStatus::Done
            &&& after.plan.steps[i].result == Some(work.current)
            &&& after.stage == (Stage::Collecting { work })
            &&& action == (Action::Collect { agent: work.agent })
            &&& after.budget == run.budget
        }),
{
    lemma_stands_for(run.plan, under_review(run)->0.id, i, 0);
}

/// A result that is rejected goes back to the agent that made it, with the task,
/// the feedback and the result; it does not count. What follows the marker is
/// the feedback.
pub proof fn law_a_rejected_result_goes_back_to_its_agent(
    run: RunView,
    before: Seq<char>,
    feedback: Seq<char>,
    aborted: bool,
    i: int,
)
    requires
        run.stage is Reviewing,
        run.budget.turns > 0,
        run.stage->Reviewing_work.cycles < u32::MAX,
        stands_for(run.plan, run.stage->Reviewing_work.id, i),
        !t::has(before + "[[REVIEW: REVISE]]"@ + feedback, "[[REVIEW: APPROVE]]"@),
        forall|k: int| 0 <= k < before.len() ==> !t::occurs_at(
            before + "[[REVIEW: REVISE]]"@ + feedback,
            "[[REVIEW: REVISE]]"@,
            k,
        ),
    ensures
        ({
            let work = run.stage->Reviewing_work;
            let (after, action) = run.next(
                Event::Reply { text: before + "[[REVIEW: REVISE]]"@ + feedback, aborted },
            );
            &&& action == (Action::Revise {
                agent: work.agent,
                role: run.plan.steps[i].role,
                request: "Revise your result for this"@ + " task.\nTask:\n"@ + run.plan.steps[i].task
                    + "\nReviewer feedback:\n"@ + t::trimmed(feedback) + "\nYour previous result:\n"@ + work.current,
            })
            &&& after.stage == (Stage::Revising { work: Work { cycles: (work.cycles + 1) as u32, ..work } })
            &&& after.plan.steps[i] == (StepView {
                review_cycles: (work.cycles + 1) as nat,
                ..run.plan.steps[i]
            })
        }),
{
    let work = run.stage->Reviewing_work;
    let marker = "[[REVIEW: REVISE]]"@;
    let text = before + marker + feedback;
    lemma_stands_for(run.plan, work.id, i, 0);
    assert(text.subrange(before.len() as int, (before.len() + marker.len()) as int) =~= marker);
    t::lemma_find_from(text, marker, 0);
    lemma_found_at(text, marker, before.len() as int, 0);
    assert(text.skip((before.len() + marker.len()) as int) =~= feedback);
    let counted = run.plan.with_cycles(work.id, (work.cycles + 1) as nat);
    lemma_still_stands_for(run.plan, counted, work.id, i);
}

proof fn lemma_found_at(s: Seq<char>, pat: Seq<char>, at: int, from: int)
    requires
        0 <= from <= at,
        t::occurs_at(s, pat, at),
        forall|k: int| from <= k < at ==> !t::occurs_at(s, pat, k),
    ensures
        t::find_from(s, pat, from) == Some(at),
    decreases at - from,
{
    if from < at {
        lemma_found_at(s, pat, at, from + 1);
    }
}

/// A review that says neither uses up a cycle and leaves the result: another
/// review follows while cycles are left, and then the result counts.
pub proof fn law_an_unclear_review_is_asked_for_again(run: RunView, text: Seq<char>, aborted: bool, i: int)
    requires
        run.stage is Reviewing,
        run.stage->Reviewing_work.cycles < u32::MAX,
        stands_for(run.plan, run.stage->Reviewing_work.id, i),
        !t::has(text, "[[REVIEW: APPROVE]]"@),
        !t::has(text, "[[REVIEW: REVISE]]"@),
    ensures
        ({
            let work = run.stage->Reviewing_work;
            let (after, action) = run.next(Event::Reply { text, aborted });
            let next = Work { cycles: (work.cycles + 1) as u32, ..work };
            if work.cycles + 1 < run.caps.max_review_cycles {
                &&& after.stage == (Stage::PlacingReviewer { work: next })
                &&& action == (Action::<Seq<char>>::PlaceReviewer { role: Role::Reviewer })
                &&& after.plan.steps[i].status == run.plan.steps[i].status
            } else {
                &&& after.stage == (Stage::Collecting { work: next })
                &&& action == (Action::Collect { agent: work.agent })
                &&& after.plan.steps[i].status == StepStatus::Done
                &&& after.plan.steps[i].result == Some(work.current)
            }
        }),
{
    let work = run.stage->Reviewing_work;
    lemma_stands_for(run.plan, work.id, i, 0);
    t::lemma_find_has(text, "[[REVIEW: REVISE]]"@);
    let counted = run.plan.with_cycles(work.id, (work.cycles + 1) as nat);
    lemma_still_stands_for(run.plan, counted, work.id, i);
}

/// A step that no agent can be found for, or whose agent fails at it, has failed:
/// it gets no result, the others go on, and the error is reported with its id.
pub proof fn law_a_step_that_fails_is_marked_and_reported(run: RunView, error: Seq<char>, i: int)
    requires
        step_at_work(run) is Some,
        run.stage is Placing || run.stage is Working,
        stands_for(run.plan, step_at_work(run)->0, i),
    ensures
        ({
            let id = step_at_work(run)->0;
            let (after, action) = if run.stage is Placing {
                run.next(Event::Unplaced { error })
            } else {
                run.next(Event::Failed { error })
            };
            &&& after.plan.steps[i] == (StepView { status: StepStatus::Failed, ..run.plan.steps[i] })
            &&& run.stage is Placing ==> action == (Action::StepUnplaced {
                id,
                role: run.plan.steps[i].role,
                error,
            })
            &&& run.stage is Working ==> action == (Action::StepFailed { id, error })
            &&& after.stage == (Stage::<Seq<char>, Seq<Seq<char>>>::Advancing {
                queue: match run.stage {
                    Stage::Placing { queue, .. } => queue,
                    Stage::Working { work } => work.queue,
                    _ => Seq::empty(),
                },
            })
        }),
{
    lemma_stands_for(run.plan, step_at_work(run)->0, i, 0);
}

/// A step whose agent was found is sent to that agent and runs, with one more
/// attempt; without a turn to pay for it, it has failed.
pub proof fn law_a_placed_step_is_sent_to_its_agent(run: RunView, agent: Seq<char>, i: int)
    requires
        run.stage is Placing,
        stands_for(run.plan, run.stage->Placing_id, i),
        run.plan.steps[i].attempts < u32::MAX,
    ensures
        ({
            let id = run.stage->Placing_id;
            let (after, action) = run.next(Event::Placed { agent });
            &&& after.plan.steps[i].attempts == run.plan.steps[i].attempts + 1
            &&& after.plan.steps[i].result == run.plan.steps[i].result
            &&& run.budget.turns > 0 ==> {
                &&& action == (Action::Work { id, agent })
                &&& after.plan.steps[i].status == StepStatus::Running
                &&& after.stage matches Stage::Working { work } && work.id == id && work.agent == agent && work.queue
                    == run.stage->Placing_queue && work.cycles == 0
            }
            &&& run.budget.turns == 0 ==> {
                &&& action == (Action::StepFailed { id, error: "turn budget exhausted"@ })
                &&& after.plan.steps[i].status == StepStatus::Failed
                &&& after.stage == (Stage::<Seq<char>, Seq<Seq<char>>>::Advancing { queue: run.stage->Placing_queue })
            }
        }),
{
    let id = run.stage->Placing_id;
    lemma_stands_for(run.plan, id, i, 0);
    lemma_still_stands_for(run.plan, run.plan.with_attempt(id), id, i);
}

/// The steps of a pass are taken up one after the other, each for its own role;
/// behind the last one the loop starts over.
pub proof fn law_the_steps_of_a_pass_follow_each_other(run: RunView, i: int)
    requires
        run.stage is Advancing,
    ensures
        ({
            let queue = run.stage->Advancing_queue;
            let (after, action) = run.next(Event::Next);
            &&& queue.len() == 0 ==> after.stage is Checking && action is Check
            &&& queue.len() > 0 ==> after.stage == (Stage::<Seq<char>, Seq<Seq<char>>>::Placing {
                id: queue[0],
                queue: queue.skip(1),
            })
            &&& queue.len() > 0 && stands_for(run.plan, queue[0], i) ==> action == (Action::PlaceStep {
                id: queue[0],
                role: run.plan.steps[i].role,
            })
            &&& after.plan == run.plan
        }),
{
    let queue = run.stage->Advancing_queue;
    if queue.len() > 0 && stands_for(run.plan, queue[0], i) {
        lemma_stands_for(run.plan, queue[0], i, 0);
    }
}

/// Some step with this id is done.
pub open spec fn finished_step(p: PlanView, id: Seq<char>) -> bool {
    exists|j: int|
        0 <= j < p.steps.len() && (#[trigger] p.steps[j]).id == id && p.steps[j].status == StepStatus::Done
}

/// A step waits, and each step that it depends on is done.
pub open spec fn may_run(p: PlanView, k: int) -> bool {
    &&& 0 <= k < p.steps.len()
    &&& p.steps[k].status == StepStatus::Waiting
    &&& forall|d: int| 0 <= d < p.steps[k].deps.len() ==> finished_step(p, #[trigger] p.steps[k].deps[d])
}

proof fn lemma_may_run(p: PlanView, k: int)
    requires
        0 <= k < p.steps.len(),
    ensures
        may_run(p, k) <==> p.runnable(p.steps[k]),
{
    assert forall|id: Seq<char>| #[trigger] finished_step(p, id) == p.done(id) by {}
    let s = p.steps[k];
    if may_run(p, k) {
        assert forall|d: int| 0 <= d < s.deps.len() implies p.done(#[trigger] s.deps[d]) by {
            assert(finished_step(p, p.steps[k].deps[d]));
        }
    }
}

/// A pass takes up every step that may run and none other: those that wait and
/// whose dependencies are all done.
pub proof fn law_a_pass_takes_up_the_steps_that_may_run(
    run: RunView,
    elapsed_ns: u64,
    spawn_ns: u64,
    aborted: bool,
    k: int,
)
    requires
        run.stage is Checking,
        run.next(Event::Clock { elapsed_ns, spawn_ns, aborted }).1 is PlaceStep,
    ensures
        ({
            let (after, action) = run.next(Event::Clock { elapsed_ns, spawn_ns, aborted });
            &&& after.stage matches Stage::Placing { id, queue } && {
                let taken = seq![id] + queue;
                &&& action->PlaceStep_id == id
                &&& may_run(run.plan, k) ==> taken.contains(run.plan.steps[k].id)
                &&& forall|m: int|
                    0 <= m < taken.len() ==> exists|n: int|
                        #[trigger] may_run(run.plan, n) && run.plan.steps[n].id == #[trigger] taken[m]
            }
            &&& after.plan == run.plan
        }),
{
    let (after, action) = run.next(Event::Clock { elapsed_ns, spawn_ns, aborted });
    let ready = run.plan.ready();
    let ids = ids_of(ready);
    let pred = |s: StepView| run.plan.runnable(s);
    let id = after.stage->Placing_id;
    let queue = after.stage->Placing_queue;
    let taken = seq![id] + queue;
    assert(taken =~= ids);
    if may_run(run.plan, k) {
        lemma_may_run(run.plan, k);
        assert(pred(run.plan.steps[k]));
        run.plan.steps.lemma_filter_contains(pred, k);
        let m = choose|m: int| 0 <= m < ready.len() && ready[m] == run.plan.steps[k];
        assert(ids[m] == run.plan.steps[k].id);
        assert(taken[m] == run.plan.steps[k].id);
    }
    assert forall|m: int| 0 <= m < taken.len() implies exists|n: int|
        #[trigger] may_run(run.plan, n) && run.plan.steps[n].id == #[trigger] taken[m] by {
        plan::law_ready_steps_have_their_dependencies_done(run.plan, m);
        let n = choose|n: int| 0 <= n < run.plan.steps.len() && run.plan.steps[n] == ready[m];
        lemma_may_run(run.plan, n);
        assert(taken[m] == ids[m]);
        assert(may_run(run.plan, n));
    }
}

/// While the run has passes, time and turns left, was not aborted, no step has
/// failed and some step may run, it goes on with the steps.
pub proof fn law_a_run_goes_on_while_nothing_stops_it(
    run: RunView,
    elapsed_ns: u64,
    spawn_ns: u64,
    k: int,
)
    requires
        run.stage is Checking,
        run.budget.ticks > 0,
        run.budget.turns > 0,
        elapsed_ns - spawn_ns < run.caps.max_wall_seconds * 1_000_000_000,
        run.caps.max_wall_seconds > 0,
        forall|i: int| 0 <= i < run.plan.steps.len() ==> (#[trigger] run.plan.steps[i]).status != StepStatus::Failed,
        may_run(run.plan, k),
    ensures
        run.next(Event::Clock { elapsed_ns, spawn_ns, aborted: false }).1 is PlaceStep,
{
    let pred = |s: StepView| run.plan.runnable(s);
    lemma_may_run(run.plan, k);
    assert(pred(run.plan.steps[k]));
    run.plan.steps.lemma_filter_contains(pred, k);
}

/// Why an unfinished run stops is said: the passes, the time, the turns, an
/// abort and a failed step, whichever of these comes first.
pub proof fn law_a_stopped_run_says_why(run: RunView, elapsed_ns: u64, spawn_ns: u64, aborted: bool, open: int)
    requires
        run.stage is Checking,
        0 <= open < run.plan.steps.len(),
        run.plan.steps[open].status != StepStatus::Done,
    ensures
        ({
            let (after, action) = run.next(Event::Clock { elapsed_ns, spawn_ns, aborted });
            let late = elapsed_ns - spawn_ns >= run.caps.max_wall_seconds * 1_000_000_000;
            let failed = exists|i: int|
                0 <= i < run.plan.steps.len() && (#[trigger] run.plan.steps[i]).status == StepStatus::Failed;
            let stopped = |reason: StopReason|
                after.stage is Ended && action == (Action::<Seq<char>>::Fail { failure: Failure::Stopped { reason } });
            &&& run.budget.ticks == 0 ==> stopped(StopReason::TickCeiling)
            &&& run.budget.ticks > 0 && late ==> stopped(StopReason::WallClock)
            &&& run.budget.ticks > 0 && !late && run.caps.max_wall_seconds > 0 ==> {
                &&& run.budget.turns == 0 ==> stopped(StopReason::TurnBudget)
                &&& run.budget.turns > 0 && aborted ==> stopped(StopReason::Aborted)
                &&& run.budget.turns > 0 && !aborted && failed ==> stopped(StopReason::StepFailed)
                &&& run.budget.turns > 0 && !aborted && !failed && (forall|k: int| !#[trigger] may_run(run.plan, k))
                    ==> stopped(StopReason::NoRunnableSteps)
            }
        }),
{
    assert(!run.plan.complete());
    if forall|k: int| !#[trigger] may_run(run.plan, k) {
        if run.plan.ready().len() > 0 {
            plan::law_ready_steps_have_their_dependencies_done(run.plan, 0);
            let n = choose|n: int| 0 <= n < run.plan.steps.len() && run.plan.steps[n] == run.plan.ready()[0];
            lemma_may_run(run.plan, n);
            assert(may_run(run.plan, n));
        }
    }
}

/// With every step done the run delivers, whatever its limits say: the files
/// where some were collected, and else an answer that is written from the
/// results.
pub proof fn law_a_finished_plan_is_delivered(run: RunView, elapsed_ns: u64, spawn_ns: u64, aborted: bool)
    requires
        run.stage is Checking,
        forall|i: int| 0 <= i < run.plan.steps.len() ==> (#[trigger] run.plan.steps[i]).status == StepStatus::Done,
    ensures
        ({
            let (after, action) = run.next(Event::Clock { elapsed_ns, spawn_ns, aborted });
            &&& run.collected > 0 ==> after.stage is Counting && action is CountFiles
            &&& run.collected == 0 ==> after.stage is PlacingSynthesizer && action == (Action::<
                Seq<char>,
            >::PlaceSynthesizer { role: Role::Synthesizer })
            &&& after.plan == run.plan
        }),
{
}

/// Files add up over the steps, the report of a step gives its own files and how
/// many steps are done, and the agent with the most files at once is the one
/// that is asked to check them.
pub proof fn law_collected_files_add_up(run: RunView, files: usize, i: int)
    requires
        run.stage is Collecting,
        stands_for(run.plan, run.stage->Collecting_work.id, i),
    ensures
        ({
            let work = run.stage->Collecting_work;
            let (after, action) = run.next(Event::Collected { files });
            &&& run.collected + files <= usize::MAX ==> after.collected == run.collected + files
            &&& files > 0 ==> after.collected > 0
            &&& files > 0 && files >= run.builder_files ==> after.builder == Some(work.agent) && after.builder_files
                == files
            &&& files == 0 || files < run.builder_files ==> after.builder == run.builder && after.builder_files
                == run.builder_files
            &&& after.stage == (Stage::<Seq<char>, Seq<Seq<char>>>::Advancing { queue: work.queue })
            &&& action matches Action::StepDone { id, role, files: told, done, total } && {
                &&& id == work.id
                &&& role == run.plan.steps[i].role
                &&& told == files
                &&& total == run.plan.steps.len() as usize
                &&& done == run.plan.steps.filter(|s: StepView| s.status == StepStatus::Done).len() as usize
            }
            &&& after.plan == run.plan
        }),
{
    lemma_stands_for(run.plan, run.stage->Collecting_work.id, i, 0);
    lemma_done_among(run.plan, run.plan.steps.len() as int);
    assert(run.plan.steps.take(run.plan.steps.len() as int) =~= run.plan.steps);
}

proof fn lemma_done_among(p: PlanView, n: int)
    requires
        0 <= n <= p.steps.len(),
    ensures
        p.done_among(n) == p.steps.take(n).filter(|s: StepView| s.status == StepStatus::Done).len(),
    decreases n,
{
    reveal(Seq::filter);
    if n > 0 {
        lemma_done_among(p, n - 1);
        assert(p.steps.take(n).drop_last() =~= p.steps.take(n - 1));
    }
}

/// Files are handed over as they are where no check is wanted, go to the agent
/// that made them where one is, and without any file an answer is written.
pub proof fn law_files_are_checked_where_that_is_wanted(run: RunView, files: usize)
    requires
        run.stage is Counting,
    ensures
        ({
            let (after, action) = run.next(Event::Counted { files });
            &&& files == 0 ==> after.stage is PlacingSynthesizer && action == (Action::<Seq<char>>::PlaceSynthesizer {
                role: Role::Synthesizer,
            })
            &&& files > 0 && !run.verify ==> after.stage is Ended && action == (Action::<Seq<char>>::DeliverFiles {
                outcome: VerifyOutcome::Skipped,
            })
            &&& files > 0 && run.verify ==> {
                &&& run.builder matches Some(agent) ==> run.budget.turns > 0 ==> action == (Action::Verify { agent })
                    && after.stage == (Stage::<Seq<char>, Seq<Seq<char>>>::Verifying {
                    agent,
                    rounds: run.caps.max_review_cycles,
                })
                &&& run.builder is None || run.budget.turns == 0 ==> after.stage is Ended && (action matches
                    Action::DeliverFiles { outcome } && outcome is Inconclusive)
            }
        }),
{
}

/// What the check says is what is reported of the files: passed, failed, or that
/// it cannot be told. A failure is checked again while rounds and turns are left.
pub proof fn law_the_check_is_reported_as_it_was(run: RunView, passed: Option<bool>, detail: Seq<char>, error: Seq<char>)
    requires
        run.stage is Verifying,
    ensures
        ({
            let agent = run.stage->Verifying_agent;
            let rounds = run.stage->Verifying_rounds;
            let (after, action) = run.next(Event::Verified { passed, detail });
            &&& passed == Some(true) ==> action == (Action::<Seq<char>>::DeliverFiles {
                outcome: VerifyOutcome::Passed,
            })
            &&& passed == Some(false) && rounds == 0 ==> action == (Action::DeliverFiles {
                outcome: VerifyOutcome::Failed { detail },
            })
            &&& passed == Some(false) && rounds > 0 && run.budget.turns > 0 ==> action == (Action::Verify { agent })
                && after.stage == (Stage::<Seq<char>, Seq<Seq<char>>>::Verifying {
                agent,
                rounds: (rounds - 1) as u32,
            })
            &&& passed == Some(false) && rounds > 0 && run.budget.turns == 0 ==> (action matches Action::DeliverFiles {
                outcome,
            } && outcome is Inconclusive)
            &&& passed is None ==> (action matches Action::DeliverFiles { outcome } && outcome is Inconclusive)
            &&& action is DeliverFiles ==> after.stage is Ended
            &&& run.next(Event::Failed { error }).1 == (Action::DeliverFiles {
                outcome: VerifyOutcome::Inconclusive { reason: "verifier dispatch failed: "@ + error },
            })
        }),
{
}

/// The synthesizer is given the goal and the result of every step.
pub proof fn law_the_synthesizer_is_given_every_result(run: RunView, agent: Seq<char>, i: int)
    requires
        run.stage is PlacingSynthesizer,
        run.budget.turns > 0,
    ensures
        ({
            let (after, action) = run.next(Event::Placed { agent });
            &&& after.stage is Synthesizing
            &&& action matches Action::Synthesize { agent: asked, role, request } && {
                &&& asked == agent
                &&& role == Role::Synthesizer
                &&& t::starts(request, "Goal:\n"@ + run.goal + "\n\nCompleted step results:\n"@)
                &&& 0 <= i < run.plan.steps.len() ==> (run.plan.steps[i].result matches Some(result) ==> t::has(
                    request,
                    "\n## "@ + run.plan.steps[i].id + " ("@ + run.plan.steps[i].role + ")\n"@ + result + "\n"@,
                ))
            }
        }),
{
    let results = results_text(run.plan.steps, run.plan.steps.len() as int);
    let front = "Goal:\n"@ + run.goal + "\n\nCompleted step results:\n"@;
    let request = front + results + deliverable_format();
    assert(request == synthesis_text(run.goal, run.plan));
    assert(request.subrange(0, front.len() as int) =~= front);
    if 0 <= i < run.plan.steps.len() && run.plan.steps[i].result is Some {
        let s = run.plan.steps[i];
        let block = "\n## "@ + s.id + " ("@ + s.role + ")\n"@ + s.result->0 + "\n"@;
        lemma_results_hold(run.plan.steps, run.plan.steps.len() as int, i);
        let at = choose|at: int| t::occurs_at(results, block, at);
        assert(request.subrange(front.len() + at, front.len() + at + block.len()) =~= results.subrange(
            at,
            at + block.len(),
        ));
        assert(t::occurs_at(request, block, front.len() + at));
    }
}

proof fn lemma_results_hold(steps: Seq<StepView>, n: int, i: int)
    requires
        0 <= i < n <= steps.len(),
        steps[i].result is Some,
    ensures
        t::has(
            results_text(steps, n),
            "\n## "@ + steps[i].id + " ("@ + steps[i].role + ")\n"@ + steps[i].result->0 + "\n"@,
        ),
    decreases n,
{
    let block = "\n## "@ + steps[i].id + " ("@ + steps[i].role + ")\n"@ + steps[i].result->0 + "\n"@;
    let before = results_text(steps, n - 1);
    let all = results_text(steps, n);
    if i == n - 1 {
        assert(all =~= before + block);
        assert(all.subrange(before.len() as int, (before.len() + block.len()) as int) =~= block);
        assert(t::occurs_at(all, block, before.len() as int));
    } else {
        lemma_results_hold(steps, n - 1, i);
        let at = choose|at: int| t::occurs_at(before, block, at);
        assert(all.subrange(0, before.len() as int) =~= before);
        assert(all.subrange(at, at + block.len()) =~= before.subrange(at, at + block.len()));
        assert(t::occurs_at(all, block, at));
    }
}

/// Without an agent that can write the answer, or a turn to ask it with, the run
/// fails, and says which.
pub proof fn law_without_a_synthesizer_the_run_fails(run: RunView, agent: Seq<char>, error: Seq<char>)
    requires
        run.stage is PlacingSynthesizer,
    ensures
        run.next(Event::Unplaced { error }).1 == (Action::Fail { failure: Failure::Unplaced { error } }),
        run.next(Event::Unplaced { error }).0.stage is Ended,
        run.budget.turns == 0 ==> run.next(Event::Placed { agent }).1 == (Action::<Seq<char>>::Fail {
            failure: Failure::TurnBudgetExhausted,
        }),
{
}

/// The answer that is written is what the synthesizer replied: a reply that
/// holds no marker is kept but for the white space around it.
pub proof fn law_the_answer_is_the_synthesizers_reply(run: RunView, text: Seq<char>, aborted: bool)
    requires
        run.stage is Synthesizing,
        !t::has(text, run.done),
        !t::has(text, run.blocked),
    ensures
        run.next(Event::Reply { text, aborted }).0.stage is Ended,
        run.next(Event::Reply { text, aborted }).1 == (Action::WriteReply { reply: t::trimmed(text) }),
{
    lemma_nothing_to_remove(text, run.done);
    lemma_nothing_to_remove(text, run.blocked);
}

proof fn lemma_nothing_to_remove(s: Seq<char>, pat: Seq<char>)
    requires
        !t::has(s, pat),
    ensures
        t::replaced(s, pat, Seq::empty()) == s,
{
    t::lemma_find_has(s, pat);
    assert(t::pieces(s, pat) =~= seq![s]);
    assert(t::joined(seq![s], Seq::empty()) =~= s) by {
        reveal_with_fuel(t::joined, 3);
    }
}

/// A marker that ends the synthesizer's reply is taken off the answer.
pub proof fn law_the_end_marker_is_taken_off(run: RunView, text: Seq<char>, aborted: bool)
    requires
        run.stage is Synthesizing,
        run.done.len() > 0,
        forall|k: int| 0 <= k < text.len() ==> !t::occurs_at(text + run.done, run.done, k),
        !t::has(text, run.blocked),
    ensures
        run.next(Event::Reply { text: text + run.done, aborted }).1 == (Action::WriteReply {
            reply: t::trimmed(text),
        }),
{
    let whole = text + run.done;
    let none = Seq::<char>::empty();
    assert(whole.subrange(text.len() as int, (text.len() + run.done.len()) as int) =~= run.done);
    lemma_found_at(whole, run.done, text.len() as int, 0);
    assert(whole.take(text.len() as int) =~= text);
    assert(whole.skip((text.len() + run.done.len()) as int) =~= none);
    assert(t::find(none, run.done) is None) by {
        t::lemma_find_from(none, run.done, 0);
    }
    assert(t::pieces(none, run.done) =~= seq![none]);
    assert(t::pieces(whole, run.done) =~= seq![text] + seq![none]);
    assert(t::joined(seq![text] + seq![none], none) =~= text) by {
        reveal_with_fuel(t::joined, 4);
    }
    lemma_nothing_to_remove(text, run.blocked);
}

/// No two reasons to stop are told in the same words.
pub proof fn law_each_reason_has_its_own_words(a: StopReason, b: StopReason)
    requires
        a != b,
    ensures
        a.words() != b.words(),
        StopReason::Aborted.words() == "aborted"@,
        StopReason::StepFailed.words() == "a step failed"@,
        StopReason::WallClock.words() == "wall-clock budget reached"@,
        StopReason::TickCeiling.words() == "tick ceiling reached"@,
        StopReason::TurnBudget.words() == "turn budget exhausted"@,
        StopReason::NoRunnableSteps.words() == "no runnable steps left"@,
{
    reveal_strlit("tick ceiling reached");
    reveal_strlit("wall-clock budget reached");
    reveal_strlit("turn budget exhausted");
    reveal_strlit("aborted");
    reveal_strlit("a step failed");
    reveal_strlit("no runnable steps left");
    assert("tick ceiling reached"@.len() == 20 && "wall-clock budget reached"@.len() == 25);
    assert("turn budget exhausted"@.len() == 21 && "aborted"@.len() == 7);
    assert("a step failed"@.len() == 13 && "no runnable steps left"@.len() == 22);
}

} // verus!
