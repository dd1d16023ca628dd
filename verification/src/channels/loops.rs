//! The `/loop` command.

use crate::channels::routing;
use crate::text as t;
use vstd::prelude::*;
use vstd::string::*;

verus! {

/// What a `/loop` command asks for.
#[derive(Debug, PartialEq, Eq)]
pub enum LoopStep<S> {
    Usage,
    AbortUsage,
    Abort { run_id: S },
    List,
    Status { run_id: S },
    /// Start a run; a fast one skips the pass that runs and checks the result.
    Start { goal: S, fast: bool },
}

impl View for LoopStep<String> {
    type V = LoopStep<Seq<char>>;

    open spec fn view(&self) -> LoopStep<Seq<char>> {
        match self {
            LoopStep::Usage => LoopStep::Usage,
            LoopStep::AbortUsage => LoopStep::AbortUsage,
            LoopStep::Abort { run_id } => LoopStep::Abort { run_id: run_id@ },
            LoopStep::List => LoopStep::List,
            LoopStep::Status { run_id } => LoopStep::Status { run_id: run_id@ },
            LoopStep::Start { goal, fast } => LoopStep::Start { goal: goal@, fast: *fast },
        }
    }
}

pub open spec fn start_step(goal: Seq<char>, fast: bool) -> LoopStep<Seq<char>> {
    if t::trimmed(goal).len() == 0 {
        LoopStep::Usage
    } else {
        LoopStep::Start { goal: t::trimmed(goal), fast }
    }
}

pub open spec fn loop_step(args: Seq<char>) -> LoopStep<Seq<char>> {
    let all = t::trimmed(args);
    let (head, rest) = routing::head_and_rest(all);
    let sub = t::lower(head);
    if sub.len() == 0 {
        LoopStep::Usage
    } else if sub == "abort"@ {
        if rest.len() == 0 {
            LoopStep::AbortUsage
        } else {
            LoopStep::Abort { run_id: rest }
        }
    } else if sub == "status"@ {
        if rest.len() == 0 {
            LoopStep::List
        } else {
            LoopStep::Status { run_id: rest }
        }
    } else if sub == "fast"@ {
        start_step(rest, true)
    } else {
        start_step(all, false)
    }
}

fn start(goal: &str, fast: bool) -> (r: LoopStep<String>)
    ensures
        r@ == start_step(goal@, fast),
{
    let trimmed = t::trim(goal);
    if trimmed.as_str().is_empty() {
        LoopStep::Usage
    } else {
        LoopStep::Start { goal: trimmed, fast }
    }
}

/// Reads the arguments of a `/loop` command.
pub fn handle_loop_command(args: &str) -> (r: LoopStep<String>)
    ensures
        r@ == loop_step(args@),
{
    let all = t::trim(args);
    let (head, rest) = routing::split_head(all.as_str());
    let sub = t::to_lower(head.as_str());
    if sub.as_str().is_empty() {
        LoopStep::Usage
    } else if t::same(sub.as_str(), "abort") {
        if rest.as_str().is_empty() {
            LoopStep::AbortUsage
        } else {
            LoopStep::Abort { run_id: rest }
        }
    } else if t::same(sub.as_str(), "status") {
        if rest.as_str().is_empty() {
            LoopStep::List
        } else {
            LoopStep::Status { run_id: rest }
        }
    } else if t::same(sub.as_str(), "fast") {
        start(rest.as_str(), true)
    } else {
        start(all.as_str(), false)
    }
}

pub fn loop_usage_text() -> (r: String)
    ensures
        r@
            == "🔄 /loop runs a multi-agent loop on a goal: several agents plan it, do the parts, check the result, and combine them — progress posts here.\n\n• /loop <goal> — start (e.g. /loop build a tic-tac-toe game playable in the browser)\n• /loop fast <goal> — start without the run-it-and-verify pass (~half the time)\n• /loop status [run_id] — list loops, or show one run's steps\n• /loop abort <run_id> — stop a run"@,
{
    "🔄 /loop runs a multi-agent loop on a goal: several agents plan it, do the parts, check the result, and combine them — progress posts here.\n\n• /loop <goal> — start (e.g. /loop build a tic-tac-toe game playable in the browser)\n• /loop fast <goal> — start without the run-it-and-verify pass (~half the time)\n• /loop status [run_id] — list loops, or show one run's steps\n• /loop abort <run_id> — stop a run".to_owned()
}

pub fn abort_usage_text() -> (r: String)
    ensures
        r@ == "Usage: /loop abort <run_id>"@,
{
    "Usage: /loop abort <run_id>".to_owned()
}

/// What came of looking for a run and asking it to stop.
#[derive(Debug, PartialEq, Eq)]
pub enum AbortOutcome {
    InvalidId,
    NotFound,
    Requested,
    Failed { error: String },
}

pub fn abort_loop(run_id: &str, outcome: &AbortOutcome) -> (r: String)
    ensures
        r@ == match outcome {
            AbortOutcome::InvalidId => "Invalid run id."@,
            AbortOutcome::NotFound => "No loop `"@ + run_id@ + "` found."@,
            AbortOutcome::Requested => "🛑 Abort requested for `"@ + run_id@
                + "` — the in-flight step finishes its lease, then it stops."@,
            AbortOutcome::Failed { error } => "Couldn't abort `"@ + run_id@ + "`: "@ + error@,
        },
{
    match outcome {
        AbortOutcome::InvalidId => "Invalid run id.".to_owned(),
        AbortOutcome::NotFound => "No loop `".to_owned().concat(run_id).concat("` found."),
        AbortOutcome::Requested => "🛑 Abort requested for `".to_owned().concat(run_id).concat(
            "` — the in-flight step finishes its lease, then it stops.",
        ),
        AbortOutcome::Failed { error } => "Couldn't abort `".to_owned().concat(run_id).concat("`: ").concat(
            error.as_str(),
        ),
    }
}

/// What is known of a run.
#[derive(Debug, PartialEq, Eq)]
pub struct LoopRunSummary {
    pub run_id: String,
    pub state: String,
    pub goal: Option<String>,
}

pub open spec fn summary_words(s: LoopRunSummary) -> Seq<char> {
    let head = "Loop `"@ + s.run_id@ + "`: "@ + s.state@;
    if s.goal is Some && s.goal->0@.len() > 0 {
        head + "\nGoal: "@ + s.goal->0@
    } else {
        head
    }
}

pub fn format_loop_summary(s: &LoopRunSummary) -> (r: String)
    ensures
        r@ == summary_words(*s),
{
    let head = "Loop `".to_owned().concat(s.run_id.as_str()).concat("`: ").concat(s.state.as_str());
    match &s.goal {
        Some(goal) => if goal.as_str().is_empty() {
            head
        } else {
            head.concat("\nGoal: ").concat(goal.as_str())
        },
        None => head,
    }
}

/// What came of looking for one run.
#[derive(Debug, PartialEq, Eq)]
pub enum LoopLookup {
    InvalidId,
    NotFound,
    Found { summary: LoopRunSummary },
    Failed { error: String },
}

pub fn loop_status_text(run_id: &str, found: &LoopLookup) -> (r: String)
    ensures
        r@ == match found {
            LoopLookup::InvalidId => "Invalid run id."@,
            LoopLookup::NotFound => "No loop `"@ + run_id@ + "` found."@,
            LoopLookup::Found { summary } => summary_words(*summary),
            LoopLookup::Failed { error } => "Could not read loop `"@ + run_id@ + "`: "@ + error@,
        },
{
    match found {
        LoopLookup::InvalidId => "Invalid run id.".to_owned(),
        LoopLookup::NotFound => "No loop `".to_owned().concat(run_id).concat("` found."),
        LoopLookup::Found { summary } => format_loop_summary(summary),
        LoopLookup::Failed { error } => "Could not read loop `".to_owned().concat(run_id).concat(
            "`: ",
        ).concat(error.as_str()),
    }
}

pub open spec fn run_line(s: LoopRunSummary) -> Seq<char> {
    "• `"@ + s.run_id@ + "` — "@ + s.state@
}

pub open spec fn list_words(runs: Seq<LoopRunSummary>) -> Seq<char> {
    if runs.len() == 0 {
        "No loops yet. Start one with /loop <goal>."@
    } else {
        "Loops:\n"@ + t::joined(runs.map_values(|s: LoopRunSummary| run_line(s)), "\n"@)
    }
}

/// The answer to a bare `/loop status`: the runs, or why they could not be
/// listed.
pub fn loop_list_text(listed: &Result<Vec<LoopRunSummary>, String>) -> (r: String)
    ensures
        r@ == match listed {
            Ok(runs) => list_words(runs@),
            Err(error) => "Could not list loops: "@ + error@,
        },
{
    match listed {
        Ok(runs) => run_lines(runs),
        Err(error) => "Could not list loops: ".to_owned().concat(error.as_str()),
    }
}

fn run_lines(runs: &Vec<LoopRunSummary>) -> (r: String)
    ensures
        r@ == list_words(runs@),
{
    if runs.len() == 0 {
        return "No loops yet. Start one with /loop <goal>.".to_owned();
    }
    let mut lines: Vec<String> = Vec::new();
    let mut i: usize = 0;
    while i < runs.len()
        invariant
            i <= runs.len(),
            lines.len() == i,
            forall|k: int| 0 <= k < i ==> (#[trigger] lines@[k])@ == run_line(runs@[k]),
        decreases runs.len() - i,
    {
        lines.push(
            "• `".to_owned().concat(runs[i].run_id.as_str()).concat("` — ").concat(runs[i].state.as_str()),
        );
        i += 1;
    }
    assert(t::texts(lines@) =~= runs@.map_values(|s: LoopRunSummary| run_line(s)));
    "Loops:\n".to_owned().concat(t::join(&lines, "\n").as_str())
}

pub open spec fn started_words(run_id: Seq<char>, goal: Seq<char>, fast: bool) -> Seq<char> {
    "🔄 Loop `"@ + run_id + "` started"@ + (if fast {
        " (fast — skips the run-it-and-verify pass)"@
    } else {
        ""@
    }) + " on:\n"@ + goal
        + "\n\nSeveral agents will plan it, do the parts, check the result, and combine them — I'll post the plan and each step here, then the result (files attached when produced).\nManage: /loop status "@
        + run_id + " · /loop abort "@ + run_id
}

/// What the chat is told of a run that was to be started: its id, or why it
/// was not.
pub fn start_loop(started: Result<&str, &str>, goal: &str, fast: bool) -> (r: String)
    ensures
        r@ == match started {
            Ok(run_id) => started_words(run_id@, goal@, fast),
            Err(error) => "Couldn't start the loop: "@ + error@,
        },
{
    match started {
        Ok(run_id) => "🔄 Loop `".to_owned().concat(run_id).concat("` started").concat(
            if fast {
                " (fast — skips the run-it-and-verify pass)"
            } else {
                ""
            },
        ).concat(" on:\n").concat(goal).concat(
            "\n\nSeveral agents will plan it, do the parts, check the result, and combine them — I'll post the plan and each step here, then the result (files attached when produced).\nManage: /loop status ",
        ).concat(run_id).concat(" · /loop abort ").concat(run_id),
        Err(error) => "Couldn't start the loop: ".to_owned().concat(error),
    }
}

/// What the audit log says of a started run.
pub fn start_audit(run_id: &str, goal: &str, fast: bool) -> (r: String)
    ensures
        r@ == run_id@ + (if fast {
            " (fast)"@
        } else {
            ""@
        }) + ": "@ + goal@,
{
    run_id.to_owned().concat(
        if fast {
            " (fast)"
        } else {
            ""
        },
    ).concat(": ").concat(goal)
}

/// A loop command asks for what its first word says: to stop a run, to show one
/// or all, to start without the check. Anything else is a goal, as it is written.
pub proof fn law_a_loop_command_asks_for_what_it_says(word: Seq<char>, rest: Seq<char>)
    requires
        word.len() > 0,
        forall|i: int| 0 <= i < word.len() ==> !t::space(#[trigger] word[i]),
        t::trimmed(rest) == rest,
        rest.len() > 0,
    ensures
        ({
            let said = word + seq![' '] + rest;
            &&& t::lower(word) == "abort"@ ==> loop_step(said) == (LoopStep::Abort { run_id: rest })
            &&& t::lower(word) == "status"@ ==> loop_step(said) == (LoopStep::Status { run_id: rest })
            &&& t::lower(word) == "fast"@ ==> loop_step(said) == (LoopStep::Start { goal: rest, fast: true })
            &&& t::lower(word) != "abort"@ && t::lower(word) != "status"@ && t::lower(word) != "fast"@ ==> loop_step(said)
                == (LoopStep::Start { goal: said, fast: false })
            &&& t::lower(word) == "abort"@ ==> loop_step(word) is AbortUsage
            &&& t::lower(word) == "status"@ ==> loop_step(word) is List
            &&& t::lower(word) == "fast"@ ==> loop_step(word) is Usage
            &&& t::lower(word) != "abort"@ && t::lower(word) != "status"@ && t::lower(word) != "fast"@ ==> loop_step(word)
                == (LoopStep::Start { goal: word, fast: false })
        }),
{
    reveal_strlit("abort");
    reveal_strlit("status");
    reveal_strlit("fast");
    assert("abort"@.len() == 5 && "abort"@[0] == 'a' && "abort"@[1] == 'b' && "abort"@[2] == 'o' && "abort"@[3] == 'r' && "abort"@[4] == 't');
    assert("status"@.len() == 6 && "status"@[0] == 's' && "status"@[1] == 't' && "status"@[2] == 'a' && "status"@[3] == 't' && "status"@[4] == 'u' && "status"@[5] == 's');
    assert("fast"@.len() == 4 && "fast"@[0] == 'f' && "fast"@[1] == 'a' && "fast"@[2] == 's' && "fast"@[3] == 't');
    let said = word + seq![' '] + rest;
    t::lemma_trimmed_twice(rest);
    reveal_with_fuel(t::trim_start_by, 2);
    reveal_with_fuel(t::trim_end_by, 2);
    assert(said[0] == word[0]);
    assert(said.last() == rest.last());
    assert(t::trimmed(said) == said);
    assert(t::trimmed(word) == word);
    routing::lemma_head_and_rest(word, rest);
    assert(t::lower(word).len() == word.len());
    let none = Seq::<char>::empty();
    assert(t::trimmed(none) =~= none);
}

/// The list of runs shows each with its state, and a run is shown with its goal.
pub proof fn law_a_run_is_shown_with_its_state(runs: Seq<LoopRunSummary>, s: LoopRunSummary)
    ensures
        runs.len() == 0 ==> list_words(runs) == "No loops yet. Start one with /loop <goal>."@,
        runs.len() == 1 ==> list_words(runs) == "Loops:\n"@ + ("• `"@ + runs[0].run_id@ + "` — "@ + runs[0].state@),
        s.goal matches Some(goal) ==> goal@.len() > 0 ==> summary_words(s) == "Loop `"@ + s.run_id@ + "`: "@ + s.state@
            + "\nGoal: "@ + goal@,
        s.goal is None ==> summary_words(s) == "Loop `"@ + s.run_id@ + "`: "@ + s.state@,
{
    if runs.len() == 1 {
        let lines = runs.map_values(|s: LoopRunSummary| run_line(s));
        assert(lines.len() == 1 && lines[0] == run_line(runs[0]));
        reveal_with_fuel(t::joined, 2);
    }
}

/// What the chat is told of a started run names it, says whether it is checked,
/// and how to stop it.
pub proof fn law_a_started_run_is_named(run_id: Seq<char>, goal: Seq<char>, fast: bool)
    ensures
        t::starts(started_words(run_id, goal, false), "🔄 Loop `"@ + run_id + "` started"@ + ""@ + " on:\n"@ + goal),
        t::starts(
            started_words(run_id, goal, true),
            "🔄 Loop `"@ + run_id + "` started"@ + " (fast — skips the run-it-and-verify pass)"@ + " on:\n"@ + goal,
        ),
        t::ends(started_words(run_id, goal, fast), " · /loop abort "@ + run_id),
{
    let plain = started_words(run_id, goal, false);
    let a = "🔄 Loop `"@ + run_id + "` started"@ + ""@ + " on:\n"@ + goal;
    assert(plain.subrange(0, a.len() as int) =~= a);
    let quick = started_words(run_id, goal, true);
    let b = "🔄 Loop `"@ + run_id + "` started"@ + " (fast — skips the run-it-and-verify pass)"@ + " on:\n"@ + goal;
    assert(quick.subrange(0, b.len() as int) =~= b);
    let all = started_words(run_id, goal, fast);
    let z = " · /loop abort "@ + run_id;
    assert(all.subrange(all.len() - z.len(), all.len() as int) =~= z);
}

} // verus!
