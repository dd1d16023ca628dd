//! What the orchestrator sends to agents, what it makes of their answers, and
//! what it reports of a run.

use crate::a2a;
use crate::json;
use crate::json::{Json, Tree};
use crate::orchestrate::budget::OrchestratorCaps;
use crate::text as t;
use vstd::prelude::*;
use vstd::string::*;

verus! {

/// What a message says about itself: it was not handed on, and which model it
/// asks for.
pub open spec fn sent_metadata(model: Option<Seq<char>>) -> Tree {
    Tree::Record(
        match model {
            Some(m) => seq![("maturana_depth"@, Tree::Int(0)), ("maturana_model"@, Tree::Text(m))],
            None => seq![("maturana_depth"@, Tree::Int(0))],
        },
    )
}

pub fn send_metadata(model: Option<&str>) -> (r: Json)
    ensures
        r@ == sent_metadata(t::opt_str(model)),
{
    let mut f: Vec<(String, Json)> = Vec::new();
    json::field(&mut f, "maturana_depth", Json::Int(0));
    assert(json::entries(f@) =~= seq![("maturana_depth"@, Tree::Int(0))]);
    match model {
        Some(m) => {
            json::field(&mut f, "maturana_model", Json::Text(m.to_owned()));
            assert(json::entries(f@) =~= seq![
                ("maturana_depth"@, Tree::Int(0)),
                ("maturana_model"@, Tree::Text(m@)),
            ]);
        },
        None => {},
    }
    json::record(f)
}

/// An agent never refuses what the orchestrator sends, and takes it with the
/// model that it asks for.
pub proof fn law_an_agent_takes_what_the_orchestrator_sends(target: Seq<char>, model: Option<Seq<char>>)
    ensures
        a2a::dispatch_step(target, Some(sent_metadata(model))) == (a2a::CallStep::<Seq<char>>::Enqueue { model }),
{
    reveal_strlit("maturana_depth");
    reveal_strlit("maturana_model");
    reveal_strlit("maturana_caller");
    assert("maturana_depth"@.len() == 14);
    assert("maturana_model"@.len() == 14);
    assert("maturana_caller"@.len() == 15);
    assert("maturana_depth"@[9] == 'd');
    assert("maturana_model"@[9] == 'm');
    let tree = sent_metadata(model);
    let entries = tree->Record_0;
    reveal_with_fuel(json::entry_from, 3);
    assert(tree.get("maturana_depth"@) == Some(Tree::Int(0)));
    assert(tree.get("maturana_caller"@) is None);
    assert(tree.uint64_at("maturana_depth"@) == Some(0int));
    match model {
        Some(m) => {
            assert(tree.get("maturana_model"@) == Some(Tree::Text(m)));
        },
        None => {
            assert(tree.get("maturana_model"@) is None);
        },
    }
}

/// The answer of a task: its result where it was completed; else its error.
pub fn task_answer(completed: bool, result: Option<String>, status: Option<String>) -> (r: Result<String, String>)
    ensures
        match r {
            Ok(text) => completed && result is Some && text@ == result->0@,
            Err(message) => if completed {
                result is None && message@ == "A2A task completed with no result"@
            } else {
                message@ == match status {
                    Some(s) => s@,
                    None => "A2A task failed"@,
                }
            },
        },
{
    if completed {
        match result {
            Some(text) => Ok(text),
            None => Err("A2A task completed with no result".to_owned()),
        }
    } else {
        match status {
            Some(s) => Err(s),
            None => Err("A2A task failed".to_owned()),
        }
    }
}

/// The token of the calls, from the file that holds it; a run does not start
/// without one.
pub fn wire_token(raw: Option<&str>, home: &str) -> (r: Result<String, String>)
    ensures
        match r {
            Ok(token) => raw is Some && token@ == t::trimmed(raw->0@) && token@.len() > 0,
            Err(message) => (raw is None || t::trimmed(raw->0@).len() == 0) && message@
                == "the A2A wire needs the sessiond token at "@ + home@ + "/sessiond/token"@,
        },
{
    let token = match raw {
        Some(s) => t::trim(s),
        None => t::empty_text(),
    };
    if token.as_str().unicode_len() == 0 {
        Err("the A2A wire needs the sessiond token at ".to_owned().concat(home).concat("/sessiond/token"))
    } else {
        Ok(token)
    }
}

/// The judge's verdict; a judge that cannot be reached accepts.
pub fn judge_verdict(judged: Option<(bool, String)>) -> (r: (bool, String))
    ensures
        match judged {
            Some((pass, feedback)) => r.0 == pass && r.1@ == feedback@,
            None => r.0 && r.1@.len() == 0,
        },
{
    match judged {
        Some(v) => v,
        None => (true, t::empty_text()),
    }
}

/// What came of queueing a result for delivery.
#[derive(Debug, PartialEq, Eq)]
pub enum Queued<S> {
    Written { channel: S, agent_id: S, platform_id: S },
    NoTarget,
    Failed { agent_id: S, error: S },
    /// No agent serves the channel.
    Unreachable { reason: S },
    /// There is nothing to deliver.
    Silent,
}

impl View for Queued<String> {
    type V = Queued<Seq<char>>;

    open spec fn view(&self) -> Queued<Seq<char>> {
        match self {
            Queued::Written { channel, agent_id, platform_id } => Queued::Written {
                channel: channel@,
                agent_id: agent_id@,
                platform_id: platform_id@,
            },
            Queued::NoTarget => Queued::NoTarget,
            Queued::Failed { agent_id, error } => Queued::Failed {
                agent_id: agent_id@,
                error: error@,
            },
            Queued::Unreachable { reason } => Queued::Unreachable { reason: reason@ },
            Queued::Silent => Queued::Silent,
        }
    }
}

impl Queued<Seq<char>> {
    pub open spec fn report(self) -> Seq<char> {
        match self {
            Queued::Written { channel, agent_id, platform_id } => "  -> queued result for delivery via "@ + channel
                + " to "@ + agent_id + " ("@ + platform_id + "); the bridge will send it"@,
            Queued::NoTarget => "  deliver: no chat target resolved \u{2014} result kept on the board only"@,
            Queued::Failed { agent_id, error } => "  deliver: FAILED to write result to "@ + agent_id
                + "'s outbox ("@ + error + ") \u{2014} result kept on the board only"@,
            Queued::Unreachable { reason } => "  deliver: "@ + reason
                + " \u{2014} result kept on the board only"@,
            Queued::Silent => "  deliver: card produced no deliverable content \u{2014} nothing sent"@,
        }
    }
}

/// The line that reports on a delivery. Only a result that was written to the
/// outbox is reported as on its way.
pub fn deliver_card_result(queued: &Queued<String>) -> (r: String)
    ensures
        r@ == queued@.report(),
{
    match queued {
        Queued::Written { channel, agent_id, platform_id } => {
            "  -> queued result for delivery via ".to_owned().concat(channel.as_str()).concat(" to ").concat(
                agent_id.as_str(),
            ).concat(" (").concat(platform_id.as_str()).concat("); the bridge will send it")
        },
        Queued::NoTarget => "  deliver: no chat target resolved \u{2014} result kept on the board only".to_owned(),
        Queued::Failed { agent_id, error } => "  deliver: FAILED to write result to ".to_owned().concat(
            agent_id.as_str(),
        ).concat("'s outbox (").concat(error.as_str()).concat(") \u{2014} result kept on the board only"),
        Queued::Unreachable { reason } => "  deliver: ".to_owned().concat(reason.as_str()).concat(
            " \u{2014} result kept on the board only",
        ),
        Queued::Silent => "  deliver: card produced no deliverable content \u{2014} nothing sent".to_owned(),
    }
}

/// The line on the limits of a run; a board run does not tell its machines.
pub open spec fn caps_text(caps: OrchestratorCaps, machines: bool) -> Seq<char> {
    let head = "  caps: "@ + t::decimal(caps.max_total_turns as nat) + " turns / "@ + t::decimal(
        caps.max_wall_seconds as nat,
    ) + "s wall / "@ + t::decimal(caps.max_parallel as nat) + " parallel"@;
    if machines {
        head + " / "@ + t::decimal(caps.max_concurrent_vms as nat) + " VMs"@
    } else {
        head
    }
}

pub fn caps_line(caps: &OrchestratorCaps, machines: bool) -> (r: String)
    ensures
        r@ == caps_text(*caps, machines),
{
    let head = "  caps: ".to_owned().concat(t::u64_text(caps.max_total_turns as u64).as_str()).concat(
        " turns / ",
    ).concat(t::u64_text(caps.max_wall_seconds as u64).as_str()).concat("s wall / ").concat(
        t::u64_text(caps.max_parallel as u64).as_str(),
    ).concat(" parallel");
    if machines {
        head.concat(" / ").concat(t::u64_text(caps.max_concurrent_vms as u64).as_str()).concat(" VMs")
    } else {
        head
    }
}

/// The id of a run: the one that was given, else one made from the time.
pub fn run_id(given: Option<String>, timestamp: i64) -> (r: String)
    ensures
        r@ == match given {
            Some(id) => id@,
            None => "run-"@ + t::signed_decimal(timestamp as int),
        },
{
    match given {
        Some(id) => id,
        None => "run-".to_owned().concat(t::i64_text(timestamp).as_str()),
    }
}

pub fn board_run_id(board: &str, timestamp: i64) -> (r: String)
    ensures
        r@ == "board-"@ + board@ + "-"@ + t::signed_decimal(timestamp as int),
{
    "board-".to_owned().concat(board).concat("-").concat(t::i64_text(timestamp).as_str())
}

pub fn run_lines(run_id: &str, goal: &str) -> (r: Vec<String>)
    ensures
        t::texts(r@) == seq!["orchestrator: run "@ + run_id@, "  goal: "@ + goal@],
{
    t::two_lines(
        "orchestrator: run ".to_owned().concat(run_id),
        "  goal: ".to_owned().concat(goal),
    )
}

/// What is said, and what is logged, of cards that an interrupted run left.
pub fn reclaimed_lines(board: &str, reclaimed: usize) -> (r: Option<(String, String)>)
    ensures
        t::pair_view(r) == if reclaimed > 0 {
            Some(
                (
                    "board "@ + board@ + ": reclaimed "@ + t::decimal(reclaimed as nat) + " interrupted card(s)"@,
                    t::decimal(reclaimed as nat) + " card(s) reset doing->todo"@,
                ),
            )
        } else {
            None
        },
{
    if reclaimed == 0 {
        return None;
    }
    let n = t::usize_text(reclaimed);
    let say = "board ".to_owned().concat(board).concat(": reclaimed ").concat(n.as_str()).concat(
        " interrupted card(s)",
    );
    Some((say, n.concat(" card(s) reset doing->todo")))
}

/// What is said, and what is logged, when a board run starts.
pub fn board_started_lines(board: &str, run_id: &str, cards: usize) -> (r: (String, String))
    ensures
        r.0@ == "board "@ + board@ + ": running ("@ + t::decimal(cards as nat) + " cards)"@,
        r.1@ == "run "@ + run_id@ + " ("@ + t::decimal(cards as nat) + " cards)"@,
{
    let n = t::usize_text(cards);
    (
        "board ".to_owned().concat(board).concat(": running (").concat(n.as_str()).concat(" cards)"),
        "run ".to_owned().concat(run_id).concat(" (").concat(n.as_str()).concat(" cards)"),
    )
}

/// What is said of the files of a board run; nothing where there are none.
pub fn board_files_line(board: &str, files: usize, dir: &str) -> (r: String)
    ensures
        r@ == "\nboard "@ + board@ + ": wrote "@ + t::decimal(files as nat) + " file(s) to "@ + dir@,
{
    "\nboard ".to_owned().concat(board).concat(": wrote ").concat(t::usize_text(files).as_str()).concat(
        " file(s) to ",
    ).concat(dir)
}

/// What is logged when a board run ends.
pub fn board_ended_line(done: usize, blocked: usize) -> (r: String)
    ensures
        r@ == t::decimal(done as nat) + " done, "@ + t::decimal(blocked as nat) + " blocked"@,
{
    t::usize_text(done).concat(" done, ").concat(t::usize_text(blocked).as_str()).concat(" blocked")
}

/// Who breaks a card down: the coordinator, where there is one, else whoever
/// takes cards that name nobody.
pub fn decompose_role(has_coordinator: bool) -> (r: Option<&'static str>)
    ensures
        t::opt_str(r) == if has_coordinator {
            Some("coordinator"@)
        } else {
            None
        },
{
    if has_coordinator {
        Some("coordinator")
    } else {
        None
    }
}

/// What is said, and what is logged, of a card that was broken down.
pub fn decompose_card(card: &str, ids: &Vec<String>) -> (r: (String, String))
    ensures
        r.0@ == "decomposed "@ + card@ + " into "@ + t::joined(t::texts(ids@), ", "@),
        r.1@ == "-> "@ + t::joined(t::texts(ids@), ", "@),
{
    let list = t::join(ids, ", ");
    (
        "decomposed ".to_owned().concat(card).concat(" into ").concat(list.as_str()),
        "-> ".to_owned().concat(list.as_str()),
    )
}

/// Who spells a card out: its assignee, else a developer.
pub fn specify_card(assignee: Option<&str>) -> (r: String)
    ensures
        r@ == match assignee {
            Some(a) => a@,
            None => "developer"@,
        },
{
    match assignee {
        Some(a) => a.to_owned(),
        None => "developer".to_owned(),
    }
}

pub fn specified_text(card: &str) -> (r: String)
    ensures
        r@ == "specified "@ + card@,
{
    "specified ".to_owned().concat(card)
}

pub fn missing_card_text(card: &str) -> (r: String)
    ensures
        r@ == "no card '"@ + card@ + "'"@,
{
    "no card '".to_owned().concat(card).concat("'")
}

/// The lines on a run; one that is not there has a line of its own.
pub fn status_lines(run_id: &str, lines: Option<Vec<String>>) -> (r: Vec<String>)
    ensures
        t::texts(r@) == match lines {
            Some(v) => t::texts(v@),
            None => seq!["orchestrator: no run '"@ + run_id@ + "'"@],
        },
{
    match lines {
        Some(v) => v,
        None => t::one_line("orchestrator: no run '".to_owned().concat(run_id).concat("'")),
    }
}

/// Only a result that was written to the outbox is reported as on its way, and to
/// whom; every other report begins by saying what came of the delivery.
pub proof fn law_only_a_written_result_is_on_its_way(q: Queued<Seq<char>>)
    ensures
        q is Written <==> t::starts(q.report(), "  -> queued result for delivery via "@),
        q matches Queued::Written { channel, agent_id, platform_id } ==> t::has(
            q.report(),
            channel + " to "@ + agent_id + " ("@ + platform_id + ")"@,
        ),
        q matches Queued::Failed { agent_id, error } ==> t::has(q.report(), agent_id) && t::has(q.report(), error),
        q matches Queued::Unreachable { reason } ==> t::has(q.report(), reason),
{
    let a = "  -> queued result for delivery via "@;
    reveal_strlit("  -> queued result for delivery via ");
    reveal_strlit("  deliver: no chat target resolved \u{2014} result kept on the board only");
    reveal_strlit("  deliver: FAILED to write result to ");
    reveal_strlit("  deliver: ");
    reveal_strlit("  deliver: card produced no deliverable content \u{2014} nothing sent");
    reveal_strlit(")");
    reveal_strlit("); the bridge will send it");
    let r = q.report();
    assert(a[2] == '-');
    if t::starts(r, a) {
        assert(r.subrange(0, a.len() as int)[2] == r[2]);
    }
    match q {
        Queued::Written { channel, agent_id, platform_id } => {
            assert(r.subrange(0, a.len() as int) =~= a);
            let x = channel + " to "@ + agent_id + " ("@ + platform_id + ")"@;
            let z = "); the bridge will send it"@.skip(1);
            t::lemma_has_part(a, x, z);
            assert(a + x + z =~= r);
        },
        Queued::NoTarget => {
            assert(r[2] == 'd');
        },
        Queued::Failed { agent_id, error } => {
            let b = "  deliver: FAILED to write result to "@;
            assert(b[2] == 'd');
            assert(r[2] == b[2]);
            let c = "'s outbox ("@;
            let d = ") \u{2014} result kept on the board only"@;
            t::lemma_has_part(b, agent_id, c + error + d);
            assert(b + agent_id + (c + error + d) =~= r);
            t::lemma_has_part(b + agent_id + c, error, d);
            assert(b + agent_id + c + error + d =~= r);
        },
        Queued::Unreachable { reason } => {
            let b = "  deliver: "@;
            assert(b[2] == 'd');
            assert(r[2] == b[2]);
            t::lemma_has_part(b, reason, " \u{2014} result kept on the board only"@);
        },
        Queued::Silent => {
            assert(r[2] == 'd');
        },
    }
}

} // verus!
