//! The `orchestrator` and `board` commands.

use crate::orchestrate::board;
use crate::orchestrate::board::{
    Board, BoardView, Card, CardRunView, CardStatus, CardView, Comment, CommentView, Moment,
};
use crate::orchestrate::budget::CapsOverride;
use crate::orchestrate::plan;
use crate::orchestrate::plan::{Plan, PlanError, PlanView, Step, StepStatus, StepView};
use crate::text as t;
use vstd::prelude::*;
use vstd::string::*;

verus! {

// ---------------------------------------------------------------------------
// Command lines
// ---------------------------------------------------------------------------

#[derive(Debug, PartialEq, Eq)]
pub struct OrchestratorCommand {
    pub command: OrchestratorSubcommand,
}

#[derive(Debug, PartialEq, Eq)]
pub enum OrchestratorSubcommand {
    /// Run a goal to completion across worker agents, with hard limits.
    Loop {
        goal: String,
        output: Option<String>,
        skip_verify: bool,
        agents: Option<String>,
        run_id: Option<String>,
        max_turns: Option<u32>,
        max_wall_seconds: Option<u64>,
        max_parallel: Option<u32>,
        max_vms: Option<u32>,
        roles_file: Option<String>,
        base_spec: Option<String>,
        chat: ChatTargetArgs,
    },
    /// Show the step list and the budget of a run.
    Status { run_id: String },
    /// Stop a run between steps.
    Abort { run_id: String },
}

/// The chat that a run reports back to, as the flags give it.
#[derive(Debug, PartialEq, Eq)]
pub struct ChatTargetArgs {
    pub chat_channel: Option<String>,
    pub chat_platform_id: Option<String>,
    pub chat_thread_id: Option<String>,
    pub chat_agent: Option<String>,
    pub chat_session: Option<String>,
}

/// A chat to post to.
#[derive(Debug, PartialEq, Eq)]
pub struct OutboxTarget {
    pub channel: String,
    pub platform_id: String,
    pub thread_id: Option<String>,
    pub agent_id: String,
    pub session_id: String,
}

impl ChatTargetArgs {
    /// A target only where every required part is given; else the run just
    /// prints.
    pub fn resolve(self) -> (r: Option<OutboxTarget>)
        ensures
            r is Some <==> self.chat_channel is Some && self.chat_platform_id is Some && self.chat_agent is Some
                && self.chat_session is Some,
            r matches Some(o) ==> o.channel == self.chat_channel->0 && o.platform_id == self.chat_platform_id->0
                && o.agent_id == self.chat_agent->0 && o.session_id == self.chat_session->0 && o.thread_id
                == self.chat_thread_id,
    {
        match (self.chat_channel, self.chat_platform_id, self.chat_agent, self.chat_session) {
            (Some(channel), Some(platform_id), Some(agent_id), Some(session_id)) => Some(
                OutboxTarget { channel, platform_id, thread_id: self.chat_thread_id, agent_id, session_id },
            ),
            _ => None,
        }
    }
}

/// How the workers of a run are found.
#[derive(Debug, PartialEq, Eq)]
pub struct PlacementChoice {
    pub roles_file: Option<String>,
    pub agents: Option<String>,
    pub base_spec: Option<String>,
}

/// What an `orchestrator` command line asks for.
#[derive(Debug, PartialEq, Eq)]
pub enum OrchestratorRequest {
    Loop {
        goal: String,
        run_id: Option<String>,
        overrides: CapsOverride,
        placement: PlacementChoice,
        output: Option<String>,
        verify: bool,
        chat: Option<OutboxTarget>,
    },
    Status { run_id: String },
    Abort { run_id: String },
}

/// Reads an `orchestrator` command line.
pub fn handle_orchestrator(command: OrchestratorCommand) -> (r: OrchestratorRequest)
    ensures
        match command.command {
            OrchestratorSubcommand::Loop {
                goal,
                output,
                skip_verify,
                agents,
                run_id,
                max_turns,
                max_wall_seconds,
                max_parallel,
                max_vms,
                roles_file,
                base_spec,
                chat,
            } => {
                &&& r matches OrchestratorRequest::Loop {
                    goal: g,
                    run_id: id,
                    overrides,
                    placement,
                    output: out,
                    verify,
                    chat: target,
                }
                &&& g == goal && id == run_id && out == output && verify == !skip_verify
                &&& overrides == (CapsOverride {
                    max_total_turns: max_turns,
                    max_wall_seconds,
                    max_parallel,
                    max_concurrent_vms: max_vms,
                    max_steps: None,
                })
                &&& placement == (PlacementChoice { roles_file, agents, base_spec })
                &&& target is Some <==> chat.chat_channel is Some && chat.chat_platform_id is Some
                    && chat.chat_agent is Some && chat.chat_session is Some
                &&& target matches Some(o) ==> o.channel == chat.chat_channel->0 && o.platform_id
                    == chat.chat_platform_id->0 && o.agent_id == chat.chat_agent->0 && o.session_id
                    == chat.chat_session->0 && o.thread_id == chat.chat_thread_id
            },
            OrchestratorSubcommand::Status { run_id } => r == (OrchestratorRequest::Status { run_id }),
            OrchestratorSubcommand::Abort { run_id } => r == (OrchestratorRequest::Abort { run_id }),
        },
{
    match command.command {
        OrchestratorSubcommand::Loop {
            goal,
            output,
            skip_verify,
            agents,
            run_id,
            max_turns,
            max_wall_seconds,
            max_parallel,
            max_vms,
            roles_file,
            base_spec,
            chat,
        } => OrchestratorRequest::Loop {
            goal,
            run_id,
            overrides: CapsOverride {
                max_total_turns: max_turns,
                max_wall_seconds,
                max_parallel,
                max_concurrent_vms: max_vms,
                max_steps: None,
            },
            placement: PlacementChoice { roles_file, agents, base_spec },
            output,
            verify: !skip_verify,
            chat: chat.resolve(),
        },
        OrchestratorSubcommand::Status { run_id } => OrchestratorRequest::Status { run_id },
        OrchestratorSubcommand::Abort { run_id } => OrchestratorRequest::Abort { run_id },
    }
}

#[derive(Debug, PartialEq, Eq)]
pub struct BoardCommand {
    pub command: BoardSubcommand,
}

#[derive(Debug, PartialEq, Eq)]
pub enum BoardSubcommand {
    /// Add a card to the board.
    Add {
        title: String,
        detail: Option<String>,
        assignee: Option<String>,
        needs: Vec<String>,
        priority: Option<i64>,
        tenant: Option<String>,
        scheduled_at: Option<String>,
        max_retries: Option<u32>,
        goal: bool,
        goal_max_turns: Option<u32>,
        triage: bool,
        board: String,
    },
    /// Show the board's cards by column.
    List { board: String },
    /// Show one card in full.
    Show { card: String, board: String },
    /// Move a card to a status.
    Move { card: String, status: String, board: String },
    /// Append a comment to a card's thread.
    Comment { card: String, text: String, author: String, board: String },
    /// Archive a card.
    Archive { card: String, board: String },
    /// Decompose a card into child cards.
    Decompose { card: String, board: String, agents: Option<String> },
    /// Flesh out a terse card.
    Specify { card: String, board: String, agents: Option<String> },
    /// Put every finished or failed card back to do.
    Reset { board: String },
    /// Run the board until it is drained.
    Run {
        board: String,
        output: Option<String>,
        agents: Option<String>,
        base_spec: Option<String>,
        roles_file: Option<String>,
        max_turns: Option<u32>,
        max_parallel: Option<u32>,
        max_wall_seconds: Option<u64>,
        max_vms: Option<u32>,
    },
    /// Show card counts.
    Status { board: String },
    /// Remove every card from the board.
    Clear { board: String },
}

// ---------------------------------------------------------------------------
// Times
// ---------------------------------------------------------------------------

/// What `chrono` reads in a text as a time: seconds since the epoch and
/// nanoseconds, or the words of its refusal.
pub uninterp spec fn parsed_rfc3339(text: Seq<char>) -> Result<(i64, u32), Seq<char>>;

pub open spec fn moment_view(r: Result<Moment, String>) -> Result<(i64, u32), Seq<char>> {
    match r {
        Ok(m) => Ok((m.seconds, m.nanos)),
        Err(e) => Err(e@),
    }
}

/// `chrono::DateTime::parse_from_rfc3339`: the time, or the refusal's words,
/// depend on the text alone.
#[verifier::external_body]
fn read_rfc3339(text: &str) -> (r: Result<Moment, String>)
    ensures
        moment_view(r) == parsed_rfc3339(text@),
{
    match chrono::DateTime::parse_from_rfc3339(text) {
        Ok(d) => Ok(Moment { seconds: d.timestamp(), nanos: d.timestamp_subsec_nanos() }),
        Err(e) => Err(e.to_string()),
    }
}

// ---------------------------------------------------------------------------
// Showing cards
// ---------------------------------------------------------------------------

pub open spec fn comment_lines(v: Seq<CommentView>, n: int) -> Seq<char>
    decreases n,
{
    if n <= 0 || n > v.len() {
        Seq::empty()
    } else {
        comment_lines(v, n - 1) + "  ["@ + v[n - 1].author + "] "@ + v[n - 1].body + "\n"@
    }
}

pub open spec fn run_lines(v: Seq<CardRunView>, n: int) -> Seq<char>
    decreases n,
{
    if n <= 0 || n > v.len() {
        Seq::empty()
    } else {
        run_lines(v, n - 1) + "  #"@ + t::decimal(v[n - 1].attempt as nat) + " "@ + v[n - 1].outcome + " ("@
            + (match v[n - 1].agent {
            Some(a) => a,
            None => "?"@,
        }) + ")\n"@
    }
}

/// A card in full.
pub open spec fn card_words(c: CardView) -> Seq<char> {
    let head = c.id + " ["@ + c.status.name() + "] "@ + c.title + "\n"@;
    let with_detail = if c.detail.len() > 0 {
        head + "\n"@ + c.detail + "\n"@
    } else {
        head
    };
    let with_assignee = with_detail + "\nassignee: "@ + (match c.assignee {
        Some(a) => a,
        None => "(default)"@,
    }) + "\n"@;
    let with_deps = if c.deps.len() > 0 {
        with_assignee + "deps: "@ + t::joined(c.deps, ", "@) + "\n"@
    } else {
        with_assignee
    };
    let with_priority = if c.priority != 0 {
        with_deps + "priority: "@ + t::signed_decimal(c.priority as int) + "\n"@
    } else {
        with_deps
    };
    let with_block = match c.block_kind {
        Some(k) => with_priority + "block kind: "@ + k + "\n"@,
        None => with_priority,
    };
    let with_result = match c.result {
        Some(r) => with_block + "\nresult:\n"@ + r + "\n"@,
        None => with_block,
    };
    let with_comments = if c.comments.len() > 0 {
        with_result + "\ncomments:\n"@ + comment_lines(c.comments, c.comments.len() as int)
    } else {
        with_result
    };
    if c.runs.len() > 0 {
        with_comments + "\nruns:\n"@ + run_lines(c.runs, c.runs.len() as int)
    } else {
        with_comments
    }
}

fn comments_text(c: &Card) -> (r: String)
    ensures
        r@ == comment_lines(c@.comments, c@.comments.len() as int),
{
    let mut out = String::new();
    let mut i: usize = 0;
    while i < c.comments.len()
        invariant
            i <= c.comments.len(),
            out@ == comment_lines(c@.comments, i as int),
        decreases c.comments.len() - i,
    {
        assert(c@.comments[i as int] == c.comments@[i as int]@);
        out.append("  [");
        out.append(c.comments[i].author.as_str());
        out.append("] ");
        out.append(c.comments[i].body.as_str());
        out.append("\n");
        i += 1;
    }
    out
}

fn runs_text(c: &Card) -> (r: String)
    ensures
        r@ == run_lines(c@.runs, c@.runs.len() as int),
{
    let mut out = String::new();
    let mut i: usize = 0;
    while i < c.runs.len()
        invariant
            i <= c.runs.len(),
            out@ == run_lines(c@.runs, i as int),
        decreases c.runs.len() - i,
    {
        assert(c@.runs[i as int] == c.runs@[i as int]@);
        out.append("  #");
        out.append(t::u64_text(c.runs[i].attempt as u64).as_str());
        out.append(" ");
        out.append(c.runs[i].outcome.as_str());
        out.append(" (");
        match &c.runs[i].agent {
            Some(a) => out.append(a.as_str()),
            None => out.append("?"),
        }
        out.append(")\n");
        i += 1;
    }
    out
}

pub fn card_text(c: &Card) -> (r: String)
    ensures
        r@ == card_words(c@),
{
    let mut out = c.id.clone().concat(" [").concat(c.status.label()).concat("] ").concat(
        c.title.as_str(),
    ).concat("\n");
    if !c.detail.as_str().is_empty() {
        out.append("\n");
        out.append(c.detail.as_str());
        out.append("\n");
    }
    out.append("\nassignee: ");
    match &c.assignee {
        Some(a) => out.append(a.as_str()),
        None => out.append("(default)"),
    }
    out.append("\n");
    assert(c@.deps.len() == c.deps@.len());
    if c.deps.len() > 0 {
        out.append("deps: ");
        out.append(t::join(&c.deps, ", ").as_str());
        out.append("\n");
    }
    if c.priority != 0 {
        out.append("priority: ");
        out.append(t::i64_text(c.priority).as_str());
        out.append("\n");
    }
    match &c.block_kind {
        Some(k) => {
            out.append("block kind: ");
            out.append(k.as_str());
            out.append("\n");
        },
        None => {},
    }
    match &c.result {
        Some(result) => {
            out.append("\nresult:\n");
            out.append(result.as_str());
            out.append("\n");
        },
        None => {},
    }
    if c.comments.len() > 0 {
        out.append("\ncomments:\n");
        out.append(comments_text(c).as_str());
    }
    if c.runs.len() > 0 {
        out.append("\nruns:\n");
        out.append(runs_text(c).as_str());
    }
    out
}

/// A card in one line of its column.
pub open spec fn card_line(c: CardView) -> Seq<char> {
    let head = "  "@ + t::padded(c.id, 5) + " "@ + t::padded(c.title, 44) + " @"@ + (match c.assignee {
        Some(a) => a,
        None => "(default)"@,
    });
    if c.deps.len() > 0 {
        head + "  after "@ + t::joined(c.deps, ","@) + "\n"@
    } else {
        head + "\n"@
    }
}

/// The cards of one status among the first `n`, a line each.
pub open spec fn column_lines(b: BoardView, status: CardStatus, n: int) -> Seq<char>
    decreases n,
{
    if n <= 0 || n > b.cards.len() {
        Seq::empty()
    } else if b.cards[n - 1].status == status {
        column_lines(b, status, n - 1) + card_line(b.cards[n - 1])
    } else {
        column_lines(b, status, n - 1)
    }
}

/// A column, where it has cards.
pub open spec fn column_words(b: BoardView, status: CardStatus) -> Seq<char> {
    if b.count(status) > 0 {
        "\n["@ + status.name() + "]\n"@ + column_lines(b, status, b.cards.len() as int)
    } else {
        Seq::empty()
    }
}

/// The board by columns.
pub open spec fn board_words(b: BoardView) -> Seq<char> {
    "board "@ + b.name + " ("@ + t::decimal(b.cards.len()) + " cards)\n"@ + column_words(b, CardStatus::Triage)
        + column_words(b, CardStatus::Todo) + column_words(b, CardStatus::Doing) + column_words(
        b,
        CardStatus::Blocked,
    ) + column_words(b, CardStatus::Done) + column_words(b, CardStatus::Archived)
}

fn line_text(c: &Card) -> (r: String)
    ensures
        r@ == card_line(c@),
{
    let mut out = "  ".to_owned().concat(t::pad_right(c.id.as_str(), 5).as_str()).concat(" ").concat(
        t::pad_right(c.title.as_str(), 44).as_str(),
    ).concat(" @");
    match &c.assignee {
        Some(a) => out.append(a.as_str()),
        None => out.append("(default)"),
    }
    assert(c@.deps.len() == c.deps@.len());
    if c.deps.len() > 0 {
        out.append("  after ");
        out.append(t::join(&c.deps, ",").as_str());
    }
    out.append("\n");
    out
}

fn column_text(b: &Board, status: CardStatus) -> (r: String)
    ensures
        r@ == column_words(b@, status),
{
    if b.count(status) == 0 {
        return String::new();
    }
    let mut lines = String::new();
    let mut i: usize = 0;
    while i < b.cards.len()
        invariant
            i <= b.cards.len(),
            lines@ == column_lines(b@, status, i as int),
        decreases b.cards.len() - i,
    {
        assert(b@.cards[i as int] == b.cards@[i as int]@);
        if b.cards[i].status == status {
            lines.append(line_text(&b.cards[i]).as_str());
        }
        i += 1;
    }
    "\n[".to_owned().concat(status.label()).concat("]\n").concat(lines.as_str())
}

pub fn board_text(b: &Board) -> (r: String)
    ensures
        r@ == board_words(b@),
{
    "board ".to_owned().concat(b.name.as_str()).concat(" (").concat(t::usize_text(b.cards.len()).as_str()).concat(
        " cards)\n",
    ).concat(column_text(b, CardStatus::Triage).as_str()).concat(
        column_text(b, CardStatus::Todo).as_str(),
    ).concat(column_text(b, CardStatus::Doing).as_str()).concat(
        column_text(b, CardStatus::Blocked).as_str(),
    ).concat(column_text(b, CardStatus::Done).as_str()).concat(column_text(b, CardStatus::Archived).as_str())
}

// ---------------------------------------------------------------------------
// Changing boards
// ---------------------------------------------------------------------------

/// The ids without the white space around them; empty ones are left out.
pub open spec fn named_needs(needs: Seq<Seq<char>>) -> Seq<Seq<char>>
    decreases needs.len(),
{
    if needs.len() == 0 {
        Seq::empty()
    } else {
        let before = named_needs(needs.drop_last());
        let id = t::trimmed(needs.last());
        if id.len() > 0 {
            before.push(id)
        } else {
            before
        }
    }
}

pub fn clean_needs(needs: &Vec<String>) -> (r: Vec<String>)
    ensures
        t::texts(r@) == named_needs(t::texts(needs@)),
{
    let mut out: Vec<String> = Vec::new();
    let ghost all = t::texts(needs@);
    let mut i: usize = 0;
    assert(t::texts(out@) =~= Seq::empty());
    while i < needs.len()
        invariant
            i <= needs.len(),
            all == t::texts(needs@),
            t::texts(out@) == named_needs(all.take(i as int)),
        decreases needs.len() - i,
    {
        proof {
            assert(all.take(i as int + 1).drop_last() =~= all.take(i as int));
            assert(all.take(i as int + 1).last() == needs@[i as int]@);
        }
        let id = t::trim(needs[i].as_str());
        if !id.as_str().is_empty() {
            let ghost before = t::texts(out@);
            out.push(id);
            assert(t::texts(out@) =~= before.push(id@));
        }
        i += 1;
    }
    assert(all.take(all.len() as int) =~= all);
    out
}

/// The first of the ids that no card has.
pub open spec fn unknown_in(b: BoardView, ids: Seq<Seq<char>>, i: int) -> Option<Seq<char>>
    decreases ids.len() - i,
{
    if i < 0 || i >= ids.len() {
        None
    } else if b.position(ids[i]) is None {
        Some(ids[i])
    } else {
        unknown_in(b, ids, i + 1)
    }
}

pub fn find_unknown(b: &Board, ids: &Vec<String>) -> (r: Option<String>)
    ensures
        t::opt_view(r) == unknown_in(b@, t::texts(ids@), 0),
{
    let mut i: usize = 0;
    while i < ids.len()
        invariant
            i <= ids.len(),
            unknown_in(b@, t::texts(ids@), 0) == unknown_in(b@, t::texts(ids@), i as int),
        decreases ids.len() - i,
    {
        assert(t::texts(ids@)[i as int] == ids@[i as int]@);
        if b.find_card(ids[i].as_str()).is_none() {
            return Some(ids[i].clone());
        }
        i += 1;
    }
    None
}

/// The dependencies of a board, as the steps of a plan.
pub open spec fn order_of(b: BoardView) -> PlanView {
    PlanView {
        goal: Seq::empty(),
        steps: b.cards.map_values(
            |c: CardView|
                StepView {
                    id: c.id,
                    role: Seq::empty(),
                    task: Seq::empty(),
                    deps: c.deps,
                    review: false,
                    status: StepStatus::Waiting,
                    result: None,
                    attempts: 0,
                    review_cycles: 0,
                },
        ),
    }
}

fn copy_texts(v: &Vec<String>) -> (r: Vec<String>)
    ensures
        t::texts(r@) == t::texts(v@),
{
    let mut r: Vec<String> = Vec::new();
    let mut i: usize = 0;
    while i < v.len()
        invariant
            i <= v.len(),
            r.len() == i,
            forall|k: int| 0 <= k < i ==> (#[trigger] r@[k])@ == v@[k]@,
        decreases v.len() - i,
    {
        r.push(v[i].clone());
        i += 1;
    }
    assert(t::texts(r@) =~= t::texts(v@));
    r
}

/// Checks that every dependency is a card and that the dependencies have no
/// cycle; says what is wrong.
pub fn board_disorder(b: &Board) -> (r: Option<PlanError>)
    ensures
        r == order_of(b@).disorder(),
{
    let mut steps: Vec<Step> = Vec::new();
    let mut i: usize = 0;
    while i < b.cards.len()
        invariant
            i <= b.cards.len(),
            steps.len() == i,
            forall|k: int| 0 <= k < i ==> (#[trigger] steps@[k])@ == order_of(b@).steps[k],
        decreases b.cards.len() - i,
    {
        let step = Step {
            id: b.cards[i].id.clone(),
            role: String::new(),
            task: String::new(),
            deps: copy_texts(&b.cards[i].deps),
            review: false,
            status: StepStatus::Waiting,
            result: None,
            attempts: 0,
            review_cycles: 0,
        };
        assert(step@ == order_of(b@).steps[i as int]);
        steps.push(step);
        i += 1;
    }
    let order = Plan { goal: String::new(), steps };
    assert(order@.steps =~= order_of(b@).steps);
    order.find_disorder()
}

/// What a new card is made from.
#[derive(Debug, PartialEq, Eq)]
pub struct NewCard {
    pub title: String,
    pub detail: Option<String>,
    pub assignee: Option<String>,
    pub priority: Option<i64>,
    pub tenant: Option<String>,
    pub max_retries: Option<u32>,
    pub goal: bool,
    pub goal_max_turns: Option<u32>,
    pub triage: bool,
}

/// The id of the next card of a board.
pub open spec fn next_id(b: BoardView) -> Seq<char> {
    "c"@ + t::decimal(b.cards.len() + 1)
}

pub open spec fn made_card(b: BoardView, n: NewCard, deps: Seq<Seq<char>>, at: Option<Moment>) -> CardView {
    CardView {
        id: next_id(b),
        title: n.title@,
        detail: match n.detail {
            Some(d) => d@,
            None => Seq::empty(),
        },
        assignee: t::opt_view(n.assignee),
        deps,
        priority: match n.priority {
            Some(p) => p,
            None => 0,
        },
        tenant: t::opt_view(n.tenant),
        scheduled_at: at,
        max_retries: match n.max_retries {
            Some(m) => m,
            None => 0,
        },
        goal: n.goal,
        goal_max_turns: match n.goal_max_turns {
            Some(m) => m,
            None => 0,
        },
        status: if n.triage {
            CardStatus::Triage
        } else {
            CardStatus::Todo
        },
        result: None,
        attempts: 0,
        block_kind: None,
        comments: Seq::empty(),
        runs: Seq::empty(),
        deliver: None,
    }
}

pub open spec fn with_made(b: BoardView, n: NewCard, deps: Seq<Seq<char>>, at: Option<Moment>) -> BoardView {
    BoardView { name: b.name, cards: b.cards.push(made_card(b, n, deps, at)) }
}

/// Adds a card at the end of the board and gives its id.
pub fn add_card(b: &mut Board, n: NewCard, deps: Vec<String>, at: Option<Moment>) -> (id: String)
    requires
        old(b).cards.len() < u64::MAX,
    ensures
        final(b)@ == with_made(old(b)@, n, t::texts(deps@), at),
        id@ == next_id(old(b)@),
{
    let ghost before = b@;
    let id = "c".to_owned().concat(t::u64_text(b.cards.len() as u64 + 1).as_str());
    let comments: Vec<Comment> = Vec::new();
    let runs: Vec<board::CardRun> = Vec::new();
    assert(comments@.map_values(|c: Comment| c@) =~= Seq::empty());
    assert(runs@.map_values(|r: board::CardRun| r@) =~= Seq::empty());
    let card = Card {
        id: id.clone(),
        title: n.title,
        detail: match n.detail {
            Some(d) => d,
            None => String::new(),
        },
        assignee: n.assignee,
        deps,
        priority: match n.priority {
            Some(p) => p,
            None => 0,
        },
        tenant: n.tenant,
        scheduled_at: at,
        max_retries: match n.max_retries {
            Some(m) => m,
            None => 0,
        },
        goal: n.goal,
        goal_max_turns: match n.goal_max_turns {
            Some(m) => m,
            None => 0,
        },
        status: if n.triage {
            CardStatus::Triage
        } else {
            CardStatus::Todo
        },
        result: None,
        attempts: 0,
        block_kind: None,
        comments,
        runs,
        deliver: None,
    };
    assert(card@ == made_card(before, n, t::texts(deps@), at));
    b.cards.push(card);
    assert(b@.cards =~= before.cards.push(card@));
    id
}

/// The cards are numbered in the order in which they were added.
pub open spec fn numbered(b: BoardView) -> bool {
    forall|i: int| 0 <= i < b.cards.len() ==> (#[trigger] b.cards[i]).id == "c"@ + t::decimal((i + 1) as nat)
}

/// On a board whose cards were all added in turn, a new card gets an id that
/// no card has, and the board stays so.
pub proof fn law_a_new_card_has_a_new_id(b: BoardView, n: NewCard, deps: Seq<Seq<char>>, at: Option<Moment>)
    requires
        numbered(b),
    ensures
        b.position(next_id(b)) is None,
        numbered(with_made(b, n, deps, at)),
{
    board::lemma_card_position(b, next_id(b), 0);
    if b.position(next_id(b)) is Some {
        let k = b.position(next_id(b))->0;
        let x = t::decimal((k + 1) as nat);
        let y = t::decimal(b.cards.len() + 1);
        assert(("c"@ + x).skip("c"@.len() as int) =~= x);
        assert(("c"@ + y).skip("c"@.len() as int) =~= y);
        t::law_decimal_is_read_back((k + 1) as nat);
        t::law_decimal_is_read_back(b.cards.len() + 1);
    }
}

// ---------------------------------------------------------------------------
// The `board` command
// ---------------------------------------------------------------------------

/// What a `board` command comes to.
#[derive(Debug, PartialEq, Eq)]
pub enum BoardOutcome {
    /// Save the board, forget its event log where asked to, and say this.
    Save { board: Board, clear_events: bool, message: String },
    /// Say this; nothing changes.
    Print { text: String },
    /// Refuse with this; nothing changes.
    Fail { error: String },
    Decompose { card: String, agents: Option<String> },
    Specify { card: String, agents: Option<String> },
    Run { output: Option<String>, overrides: CapsOverride, placement: PlacementChoice },
}

pub enum BoardOutcomeView {
    Save { board: BoardView, clear_events: bool, message: Seq<char> },
    Print { text: Seq<char> },
    Fail { error: Seq<char> },
    Decompose { card: Seq<char>, agents: Option<Seq<char>> },
    Specify { card: Seq<char>, agents: Option<Seq<char>> },
    Run { output: Option<String>, overrides: CapsOverride, placement: PlacementChoice },
}

impl View for BoardOutcome {
    type V = BoardOutcomeView;

    open spec fn view(&self) -> BoardOutcomeView {
        match self {
            BoardOutcome::Save { board, clear_events, message } => BoardOutcomeView::Save {
                board: board@,
                clear_events: *clear_events,
                message: message@,
            },
            BoardOutcome::Print { text } => BoardOutcomeView::Print { text: text@ },
            BoardOutcome::Fail { error } => BoardOutcomeView::Fail { error: error@ },
            BoardOutcome::Decompose { card, agents } => BoardOutcomeView::Decompose {
                card: card@,
                agents: t::opt_view(*agents),
            },
            BoardOutcome::Specify { card, agents } => BoardOutcomeView::Specify {
                card: card@,
                agents: t::opt_view(*agents),
            },
            BoardOutcome::Run { output, overrides, placement } => BoardOutcomeView::Run {
                output: *output,
                overrides: *overrides,
                placement: *placement,
            },
        }
    }
}

pub open spec fn absent(card: Seq<char>) -> BoardOutcomeView {
    BoardOutcomeView::Fail { error: "no card '"@ + card + "'"@ }
}

pub open spec fn absent_on(card: Seq<char>, board: Seq<char>) -> BoardOutcomeView {
    BoardOutcomeView::Fail { error: "no card '"@ + card + "' on board "@ + board }
}

pub open spec fn defect_words(e: PlanError) -> Seq<char> {
    match e {
        PlanError::NoObject => "the board holds no cards"@,
        PlanError::Malformed => "the board has no usable list of cards"@,
        PlanError::UnknownRole { step } => "card "@ + t::decimal(step as nat + 1) + " has an unknown role"@,
        PlanError::UnknownDependency { step } => "card "@ + t::decimal(step as nat + 1)
            + " depends on an unknown card"@,
        PlanError::Cycle => "the dependencies have a cycle"@,
    }
}

fn ordinal(step: usize) -> (r: String)
    ensures
        r@ == t::decimal(step as nat + 1),
{
    if step == usize::MAX {
        let mut r = t::u64_text((step as u64) / 10);
        proof {
            assert((step as nat + 1) / 10 == step as nat / 10);
            assert((step as nat + 1) % 10 == 6);
            assert(t::digit_char(6) == '6');
        }
        r.push('6');
        r
    } else {
        t::usize_text(step + 1)
    }
}

/// What a board is refused with that has a defect.
pub fn defect_text(e: &PlanError) -> (r: String)
    ensures
        r@ == defect_words(*e),
{
    match e {
        PlanError::NoObject => "the board holds no cards".to_owned(),
        PlanError::Malformed => "the board has no usable list of cards".to_owned(),
        PlanError::UnknownRole { step } => "card ".to_owned().concat(ordinal(*step).as_str()).concat(
            " has an unknown role",
        ),
        PlanError::UnknownDependency { step } => "card ".to_owned().concat(ordinal(*step).as_str()).concat(
            " depends on an unknown card",
        ),
        PlanError::Cycle => "the dependencies have a cycle".to_owned(),
    }
}

/// Adding a card whose time is settled: a board with a defect is not saved.
pub open spec fn added(b: BoardView, n: NewCard, deps: Seq<Seq<char>>, at: Option<Moment>) -> BoardOutcomeView {
    match order_of(with_made(b, n, deps, at)).disorder() {
        Some(e) => BoardOutcomeView::Fail { error: defect_words(e) },
        None => BoardOutcomeView::Save {
            board: with_made(b, n, deps, at),
            clear_events: false,
            message: "added "@ + next_id(b) + ": "@ + n.title@,
        },
    }
}

/// Adds a card, unless it leaves the board with a defect.
pub fn add_to_board(b: Board, n: NewCard, deps: Vec<String>, at: Option<Moment>) -> (r: BoardOutcome)
    requires
        b.cards.len() < u64::MAX,
    ensures
        r@ == added(b@, n, t::texts(deps@), at),
{
    let mut b = b;
    let title = n.title.clone();
    let id = add_card(&mut b, n, deps, at);
    match board_disorder(&b) {
        Some(e) => BoardOutcome::Fail { error: defect_text(&e) },
        None => BoardOutcome::Save {
            board: b,
            clear_events: false,
            message: "added ".to_owned().concat(id.as_str()).concat(": ").concat(title.as_str()),
        },
    }
}

pub fn show_card(b: &Board, card: &str) -> (r: BoardOutcome)
    ensures
        r@ == match b@.card(card@) {
            Some(c) => BoardOutcomeView::Print { text: card_words(c) },
            None => absent(card@),
        },
{
    match b.find_card(card) {
        Some(i) => BoardOutcome::Print { text: card_text(&b.cards[i]) },
        None => BoardOutcome::Fail { error: "no card '".to_owned().concat(card).concat("'") },
    }
}

pub open spec fn moved(b: BoardView, card: Seq<char>, status: Seq<char>, name: Seq<char>) -> BoardOutcomeView {
    match CardStatus::named(status) {
        None => BoardOutcomeView::Fail {
            error: "unknown status '"@ + status + "' (triage|todo|doing|done|blocked|archived)"@,
        },
        Some(st) => if b.position(card) is None {
            absent_on(card, name)
        } else {
            BoardOutcomeView::Save {
                board: b.with_card(card, |c: CardView| CardView { status: st, ..c }),
                clear_events: false,
                message: card + " -> "@ + st.name(),
            }
        },
    }
}

pub fn move_card(b: Board, card: &str, status: &str, name: &str) -> (r: BoardOutcome)
    ensures
        r@ == moved(b@, card@, status@, name@),
{
    match CardStatus::parse(status) {
        None => BoardOutcome::Fail {
            error: "unknown status '".to_owned().concat(status).concat(
                "' (triage|todo|doing|done|blocked|archived)",
            ),
        },
        Some(st) => {
            let mut b = b;
            if b.set_status(card, st) {
                BoardOutcome::Save {
                    board: b,
                    clear_events: false,
                    message: card.to_owned().concat(" -> ").concat(st.label()),
                }
            } else {
                BoardOutcome::Fail {
                    error: "no card '".to_owned().concat(card).concat("' on board ").concat(name),
                }
            }
        },
    }
}

pub fn comment_card(b: Board, card: &str, text: &str, author: &str, name: &str) -> (r: BoardOutcome)
    ensures
        r@ == if b@.position(card@) is None {
            absent_on(card@, name@)
        } else {
            BoardOutcomeView::Save {
                board: b@.with_card(card@, board::commented(author@, text@)),
                clear_events: false,
                message: "commented on "@ + card@,
            }
        },
{
    let mut b = b;
    if b.comment(card, author, text) {
        BoardOutcome::Save { board: b, clear_events: false, message: "commented on ".to_owned().concat(card) }
    } else {
        BoardOutcome::Fail { error: "no card '".to_owned().concat(card).concat("' on board ").concat(name) }
    }
}

pub fn archive_card(b: Board, card: &str) -> (r: BoardOutcome)
    ensures
        r@ == if b@.position(card@) is None {
            absent(card@)
        } else {
            BoardOutcomeView::Save {
                board: b@.with_card(card@, |c: CardView| CardView { status: CardStatus::Archived, ..c }),
                clear_events: false,
                message: "archived "@ + card@,
            }
        },
{
    let mut b = b;
    if b.set_status(card, CardStatus::Archived) {
        BoardOutcome::Save { board: b, clear_events: false, message: "archived ".to_owned().concat(card) }
    } else {
        BoardOutcome::Fail { error: "no card '".to_owned().concat(card).concat("'") }
    }
}

pub fn reset_board(b: Board) -> (r: BoardOutcome)
    ensures
        r@ == (BoardOutcomeView::Save {
            board: BoardView { name: b@.name, cards: b@.cards.map_values(|c: CardView| board::renewed(c)) },
            clear_events: true,
            message: "reset "@ + t::decimal(b@.count(CardStatus::Done) + b@.count(CardStatus::Blocked))
                + " card(s) on board "@ + b@.name + " to todo"@,
        }),
{
    let mut b = b;
    let n: usize = b.reset_for_rerun();
    let message = "reset ".to_owned().concat(t::usize_text(n).as_str()).concat(" card(s) on board ").concat(
        b.name.as_str(),
    ).concat(" to todo");
    BoardOutcome::Save { board: b, clear_events: true, message }
}

pub fn board_status(b: &Board) -> (r: BoardOutcome)
    ensures
        r@ == (BoardOutcomeView::Print {
            text: "board "@ + b@.name + " — "@ + t::decimal(b@.count(CardStatus::Todo)) + " todo · "@
                + t::decimal(b@.count(CardStatus::Doing)) + " doing · "@ + t::decimal(
                b@.count(CardStatus::Done),
            ) + " done · "@ + t::decimal(b@.count(CardStatus::Blocked)) + " blocked"@,
        }),
{
    let (todo, doing, done, blocked): (usize, usize, usize, usize) = b.counts();
    BoardOutcome::Print {
        text: "board ".to_owned().concat(b.name.as_str()).concat(" — ").concat(
            t::usize_text(todo).as_str(),
        ).concat(" todo · ").concat(t::usize_text(doing).as_str()).concat(" doing · ").concat(
            t::usize_text(done).as_str(),
        ).concat(" done · ").concat(t::usize_text(blocked).as_str()).concat(" blocked"),
    }
}

pub fn clear_board(b: Board) -> (r: BoardOutcome)
    ensures
        r@ == (BoardOutcomeView::Save {
            board: BoardView { name: b@.name, cards: Seq::empty() },
            clear_events: true,
            message: "cleared "@ + t::decimal(b@.cards.len()) + " card(s) from board "@ + b@.name,
        }),
{
    let mut b = b;
    let message = "cleared ".to_owned().concat(t::usize_text(b.cards.len()).as_str()).concat(
        " card(s) from board ",
    ).concat(b.name.as_str());
    b.cards.clear();
    assert(b@.cards =~= Seq::empty());
    BoardOutcome::Save { board: b, clear_events: true, message }
}

/// Adding a card: unknown dependencies come before an unreadable time, and
/// that before a defect of the board.
pub open spec fn add_outcome(
    b: BoardView,
    n: NewCard,
    needs: Seq<Seq<char>>,
    when: Option<Result<(i64, u32), Seq<char>>>,
) -> BoardOutcomeView {
    match unknown_in(b, named_needs(needs), 0) {
        Some(dep) => BoardOutcomeView::Fail {
            error: "card depends on unknown card '"@ + dep + "' (add it first)"@,
        },
        None => match when {
            Some(Err(e)) => BoardOutcomeView::Fail { error: "invalid --scheduled-at: "@ + e },
            Some(Ok(m)) => added(b, n, named_needs(needs), Some(Moment { seconds: m.0, nanos: m.1 })),
            None => added(b, n, named_needs(needs), None),
        },
    }
}

/// What is read in the time that a card is scheduled for.
pub open spec fn when_of(scheduled_at: Option<String>) -> Option<Result<(i64, u32), Seq<char>>> {
    match scheduled_at {
        Some(s) => Some(parsed_rfc3339(s@)),
        None => None,
    }
}

/// Carries out a `board` command on the board it names.
pub fn handle_board(command: BoardCommand, b: Board) -> (r: BoardOutcome)
    requires
        b.cards.len() < u64::MAX,
    ensures
        match command.command {
            BoardSubcommand::Add {
                title,
                detail,
                assignee,
                needs,
                priority,
                tenant,
                scheduled_at,
                max_retries,
                goal,
                goal_max_turns,
                triage,
                board: _,
            } => r@ == add_outcome(
                b@,
                NewCard {
                    title,
                    detail,
                    assignee,
                    priority,
                    tenant,
                    max_retries,
                    goal,
                    goal_max_turns,
                    triage,
                },
                t::texts(needs@),
                when_of(scheduled_at),
            ),
            BoardSubcommand::List { board: _ } => r@ == (BoardOutcomeView::Print { text: board_words(b@) }),
            BoardSubcommand::Show { card, board: _ } => r@ == match b@.card(card@) {
                Some(c) => BoardOutcomeView::Print { text: card_words(c) },
                None => absent(card@),
            },
            BoardSubcommand::Move { card, status, board } => r@ == moved(b@, card@, status@, board@),
            BoardSubcommand::Comment { card, text, author, board } => r@ == if b@.position(card@) is None {
                absent_on(card@, board@)
            } else {
                BoardOutcomeView::Save {
                    board: b@.with_card(card@, board::commented(author@, text@)),
                    clear_events: false,
                    message: "commented on "@ + card@,
                }
            },
            BoardSubcommand::Archive { card, board: _ } => r@ == if b@.position(card@) is None {
                absent(card@)
            } else {
                BoardOutcomeView::Save {
                    board: b@.with_card(
                        card@,
                        |c: CardView| CardView { status: CardStatus::Archived, ..c },
                    ),
                    clear_events: false,
                    message: "archived "@ + card@,
                }
            },
            BoardSubcommand::Decompose { card, board: _, agents } => r@ == (BoardOutcomeView::Decompose {
                card: card@,
                agents: t::opt_view(agents),
            }),
            BoardSubcommand::Specify { card, board: _, agents } => r@ == (BoardOutcomeView::Specify {
                card: card@,
                agents: t::opt_view(agents),
            }),
            BoardSubcommand::Reset { board: _ } => r@ == (BoardOutcomeView::Save {
                board: BoardView {
                    name: b@.name,
                    cards: b@.cards.map_values(|c: CardView| board::renewed(c)),
                },
                clear_events: true,
                message: "reset "@ + t::decimal(b@.count(CardStatus::Done) + b@.count(CardStatus::Blocked))
                    + " card(s) on board "@ + b@.name + " to todo"@,
            }),
            BoardSubcommand::Run {
                board: _,
                output,
                agents,
                base_spec,
                roles_file,
                max_turns,
                max_parallel,
                max_wall_seconds,
                max_vms,
            } => r@ == (BoardOutcomeView::Run {
                output,
                overrides: CapsOverride {
                    max_total_turns: max_turns,
                    max_wall_seconds,
                    max_parallel,
                    max_concurrent_vms: max_vms,
                    max_steps: None,
                },
                placement: PlacementChoice { roles_file, agents, base_spec },
            }),
            BoardSubcommand::Status { board: _ } => r@ == (BoardOutcomeView::Print {
                text: "board "@ + b@.name + " — "@ + t::decimal(b@.count(CardStatus::Todo)) + " todo · "@
                    + t::decimal(b@.count(CardStatus::Doing)) + " doing · "@ + t::decimal(
                    b@.count(CardStatus::Done),
                ) + " done · "@ + t::decimal(b@.count(CardStatus::Blocked)) + " blocked"@,
            }),
            BoardSubcommand::Clear { board: _ } => r@ == (BoardOutcomeView::Save {
                board: BoardView { name: b@.name, cards: Seq::empty() },
                clear_events: true,
                message: "cleared "@ + t::decimal(b@.cards.len()) + " card(s) from board "@ + b@.name,
            }),
        },
{
    match command.command {
        BoardSubcommand::Add {
            title,
            detail,
            assignee,
            needs,
            priority,
            tenant,
            scheduled_at,
            max_retries,
            goal,
            goal_max_turns,
            triage,
            board: _,
        } => {
            let deps = clean_needs(&needs);
            match find_unknown(&b, &deps) {
                Some(dep) => {
                    return BoardOutcome::Fail {
                        error: "card depends on unknown card '".to_owned().concat(dep.as_str()).concat(
                            "' (add it first)",
                        ),
                    };
                },
                None => {},
            }
            let at: Option<Moment> = match scheduled_at {
                Some(s) => match read_rfc3339(s.as_str()) {
                    Ok(m) => Some(m),
                    Err(e) => {
                        return BoardOutcome::Fail {
                            error: "invalid --scheduled-at: ".to_owned().concat(e.as_str()),
                        };
                    },
                },
                None => None,
            };
            let n = NewCard {
                title,
                detail,
                assignee,
                priority,
                tenant,
                max_retries,
                goal,
                goal_max_turns,
                triage,
            };
            add_to_board(b, n, deps, at)
        },
        BoardSubcommand::List { board: _ } => BoardOutcome::Print { text: board_text(&b) },
        BoardSubcommand::Show { card, board: _ } => show_card(&b, card.as_str()),
        BoardSubcommand::Move { card, status, board } => move_card(
            b,
            card.as_str(),
            status.as_str(),
            board.as_str(),
        ),
        BoardSubcommand::Comment { card, text, author, board } => comment_card(
            b,
            card.as_str(),
            text.as_str(),
            author.as_str(),
            board.as_str(),
        ),
        BoardSubcommand::Archive { card, board: _ } => archive_card(b, card.as_str()),
        BoardSubcommand::Decompose { card, board: _, agents } => BoardOutcome::Decompose { card, agents },
        BoardSubcommand::Specify { card, board: _, agents } => BoardOutcome::Specify { card, agents },
        BoardSubcommand::Reset { board: _ } => reset_board(b),
        BoardSubcommand::Run {
            board: _,
            output,
            agents,
            base_spec,
            roles_file,
            max_turns,
            max_parallel,
            max_wall_seconds,
            max_vms,
        } => BoardOutcome::Run {
            output,
            overrides: CapsOverride {
                max_total_turns: max_turns,
                max_wall_seconds,
                max_parallel,
                max_concurrent_vms: max_vms,
                max_steps: None,
            },
            placement: PlacementChoice { roles_file, agents, base_spec },
        },
        BoardSubcommand::Status { board: _ } => board_status(&b),
        BoardSubcommand::Clear { board: _ } => clear_board(b),
    }
}

/// A board as a run takes it up: not empty, without a defect, and with the
/// cards of an interrupted run back to do.
pub fn begin_board_run(b: Board, name: &str) -> (r: Result<(Board, usize), String>)
    ensures
        match r {
            Ok((c, reclaimed)) => b@.cards.len() > 0 && order_of(b@).disorder() is None && c@
                == board::restatus(b@, CardStatus::Doing, CardStatus::Todo) && reclaimed == b@.count(
                CardStatus::Doing,
            ),
            Err(e) => if b@.cards.len() == 0 {
                e@ == "board '"@ + name@ + "' is empty — add cards first (`maturana board add ...`)"@
            } else {
                order_of(b@).disorder() matches Some(d) && e@ == defect_words(d)
            },
        },
{
    if b.cards.len() == 0 {
        return Err(
            "board '".to_owned().concat(name).concat(
                "' is empty — add cards first (`maturana board add ...`)",
            ),
        );
    }
    match board_disorder(&b) {
        Some(d) => Err(defect_text(&d)),
        None => {
            let mut b = b;
            let n: usize = b.reclaim_in_flight();
            Ok((b, n))
        },
    }
}

/// A new card is what the command describes: its own title, detail, assignee and
/// limits, waiting for the cards that it needs, and never run.
pub proof fn law_a_new_card_is_as_described(b: BoardView, n: NewCard, deps: Seq<Seq<char>>, at: Option<Moment>)
    ensures
        ({
            let after = with_made(b, n, deps, at);
            let c = after.cards.last();
            &&& after.name == b.name && after.cards.len() == b.cards.len() + 1
            &&& forall|i: int| 0 <= i < b.cards.len() ==> #[trigger] after.cards[i] == b.cards[i]
            &&& c.title == n.title@ && c.deps == deps && c.scheduled_at == at && c.goal == n.goal
            &&& n.detail matches Some(d) ==> c.detail == d@
            &&& n.detail is None ==> c.detail.len() == 0
            &&& n.assignee matches Some(a) ==> c.assignee == Some(a@)
            &&& n.assignee is None ==> c.assignee is None
            &&& n.tenant matches Some(x) ==> c.tenant == Some(x@)
            &&& n.tenant is None ==> c.tenant is None
            &&& n.priority matches Some(p) ==> c.priority == p
            &&& n.priority is None ==> c.priority == 0
            &&& n.max_retries matches Some(m) ==> c.max_retries == m
            &&& n.max_retries is None ==> c.max_retries == 0
            &&& n.goal_max_turns matches Some(m) ==> c.goal_max_turns == m
            &&& n.goal_max_turns is None ==> c.goal_max_turns == 0
            &&& n.triage ==> c.status == CardStatus::Triage
            &&& !n.triage ==> c.status == CardStatus::Todo
            &&& c.result is None && c.attempts == 0 && c.block_kind is None && c.comments.len() == 0 && c.runs.len()
                == 0 && c.deliver is None
        }),
{
}

/// The cards that a new one needs are the ids that were given, trimmed, in their
/// order; empty ones are left out.
pub proof fn law_the_needs_of_a_card_are_read(needs: Seq<Seq<char>>)
    ensures
        named_needs(needs) == needs.map_values(|s: Seq<char>| t::trimmed(s)).filter(|s: Seq<char>| s.len() > 0),
    decreases needs.len(),
{
    reveal(Seq::filter);
    let all = needs.map_values(|s: Seq<char>| t::trimmed(s));
    if needs.len() > 0 {
        law_the_needs_of_a_card_are_read(needs.drop_last());
        assert(all.drop_last() =~= needs.drop_last().map_values(|s: Seq<char>| t::trimmed(s)));
        assert(all.last() == t::trimmed(needs.last()));
    } else {
        assert(all.len() == 0);
    }
}

/// The first id that no card has is named; none is, where each has its card.
proof fn lemma_unknown_in(b: BoardView, ids: Seq<Seq<char>>, i: int)
    requires
        0 <= i,
    ensures
        unknown_in(b, ids, i) is None <==> forall|k: int|
            i <= k < ids.len() ==> b.position(#[trigger] ids[k]) is Some,
        unknown_in(b, ids, i) matches Some(x) ==> exists|k: int|
            i <= k < ids.len() && #[trigger] ids[k] == x && b.position(x) is None,
    decreases ids.len() - i,
{
    if i < ids.len() && b.position(ids[i]) is Some {
        lemma_unknown_in(b, ids, i + 1);
    }
}

/// A card that needs a card which is not there is refused, and the refusal names
/// one such; so is one with a time that cannot be read. Otherwise the board is
/// saved with the card at its end, unless the card closes a circle.
pub proof fn law_a_card_is_added_or_refused(
    b: BoardView,
    n: NewCard,
    needs: Seq<Seq<char>>,
    when: Option<Result<(i64, u32), Seq<char>>>,
)
    ensures
        ({
            let r = add_outcome(b, n, needs, when);
            let ids = named_needs(needs);
            let all_known = forall|k: int|
                0 <= k < ids.len() ==> exists|j: int|
                    0 <= j < b.cards.len() && (#[trigger] b.cards[j]).id == #[trigger] ids[k];
            &&& !all_known ==> (r matches BoardOutcomeView::Fail { error } && exists|k: int|
                0 <= k < ids.len() && error == "card depends on unknown card '"@ + (#[trigger] ids[k])
                    + "' (add it first)"@ && forall|j: int|
                    0 <= j < b.cards.len() ==> (#[trigger] b.cards[j]).id != ids[k])
            &&& all_known ==> (when matches Some(Err(e)) ==> r == (BoardOutcomeView::Fail {
                error: "invalid --scheduled-at: "@ + e,
            }))
            &&& r matches BoardOutcomeView::Save { board, clear_events, message } ==> {
                &&& all_known && !clear_events
                &&& board.name == b.name && board.cards.drop_last() == b.cards
                &&& board.cards.last().title == n.title@ && board.cards.last().deps == ids
                &&& when is None ==> board.cards.last().scheduled_at is None
                &&& when matches Some(Ok(m)) ==> board.cards.last().scheduled_at == Some(
                    Moment { seconds: m.0, nanos: m.1 },
                )
                &&& message == "added "@ + board.cards.last().id + ": "@ + n.title@
                &&& order_of(board).disorder() is None
            }
            &&& r is Save || r is Fail
        }),
{
    let ids = named_needs(needs);
    let r = add_outcome(b, n, needs, when);
    lemma_unknown_in(b, ids, 0);
    assert forall|k: int| 0 <= k < ids.len() implies (b.position(#[trigger] ids[k]) is Some <==> exists|j: int|
        0 <= j < b.cards.len() && (#[trigger] b.cards[j]).id == ids[k]) by {
        board::lemma_card_position(b, ids[k], 0);
    }
    if unknown_in(b, ids, 0) is Some {
        let x = unknown_in(b, ids, 0)->0;
        board::lemma_card_position(b, x, 0);
    }
    if r is Save {
        assert(r->board.cards.drop_last() =~= b.cards);
    }
}

/// Moving a card gives it the status that is named, and leaves every other card
/// as it is; a status or a card that is not there is refused by its name.
pub proof fn law_a_card_is_moved_to_the_named_status(
    b: BoardView,
    card: Seq<char>,
    status: CardStatus,
    name: Seq<char>,
    i: int,
)
    requires
        0 <= i < b.cards.len(),
        b.cards[i].id == card,
        forall|j: int| 0 <= j < i ==> (#[trigger] b.cards[j]).id != card,
    ensures
        moved(b, card, status.name(), name) matches BoardOutcomeView::Save { board, clear_events, message } && {
            &&& !clear_events
            &&& board == (BoardView {
                name: b.name,
                cards: b.cards.update(i, CardView { status, ..b.cards[i] }),
            })
            &&& message == card + " -> "@ + status.name()
        },
{
    board::law_status_names_are_read_back(status);
    board::lemma_card_position(b, card, 0);
    let set = |c: CardView| CardView { status, ..c };
    board::law_only_the_named_card_changes(b, card, set);
    assert(b.position(card) is Some);
    let after = b.with_card(card, set);
    assert(after.cards[i] == set(b.cards[i]));
    assert forall|j: int| 0 <= j < b.cards.len() && j != i implies #[trigger] after.cards[j] == b.cards[j] by {
        assert(b.cards[i].id == card);
    }
    assert(after.cards =~= b.cards.update(i, CardView { status, ..b.cards[i] }));
}

/// A card or a status that is not there is refused by its name.
pub proof fn law_a_missing_card_is_not_moved(b: BoardView, card: Seq<char>, status: CardStatus, name: Seq<char>)
    requires
        forall|j: int| 0 <= j < b.cards.len() ==> (#[trigger] b.cards[j]).id != card,
    ensures
        moved(b, card, status.name(), name) == (BoardOutcomeView::Fail {
            error: "no card '"@ + card + "' on board "@ + name,
        }),
{
    board::law_status_names_are_read_back(status);
    board::lemma_card_position(b, card, 0);
}

/// A card stands in the column of its status, with its id, its title and its
/// assignee, and in no other column.
#[verifier::rlimit(60)]
pub proof fn law_a_card_stands_in_its_column(b: BoardView, i: int)
    requires
        0 <= i < b.cards.len(),
    ensures
        t::has(column_words(b, b.cards[i].status), card_line(b.cards[i])),
        t::has(board_words(b), card_line(b.cards[i])),
        forall|status: CardStatus| (forall|j: int| 0 <= j < b.cards.len() ==> (#[trigger] b.cards[j]).status != status)
            ==> #[trigger] column_words(b, status) == Seq::<char>::empty(),
{
    let status = b.cards[i].status;
    let n = b.cards.len() as int;
    lemma_column_lines(b, i, n);
    let head = "\n["@ + status.name() + "]\n"@;
    let lines = column_lines(b, status, n);
    assert(head + lines + Seq::empty() =~= head + lines);
    t::lemma_has_inside(head, lines, Seq::empty(), card_line(b.cards[i]));
    let top = "board "@ + b.name + " ("@ + t::decimal(b.cards.len()) + " cards)\n"@;
    let c0 = column_words(b, CardStatus::Triage);
    let c1 = column_words(b, CardStatus::Todo);
    let c2 = column_words(b, CardStatus::Doing);
    let c3 = column_words(b, CardStatus::Blocked);
    let c4 = column_words(b, CardStatus::Done);
    let c5 = column_words(b, CardStatus::Archived);
    let line = card_line(b.cards[i]);
    let e = Seq::<char>::empty();
    let all = board_words(b);
    match status {
        CardStatus::Triage => {
            t::lemma_has_inside(top, c0, c1 + c2 + c3 + c4 + c5, line);
            assert(top + c0 + (c1 + c2 + c3 + c4 + c5) =~= all);
        },
        CardStatus::Todo => {
            t::lemma_has_inside(top + c0, c1, c2 + c3 + c4 + c5, line);
            assert(top + c0 + c1 + (c2 + c3 + c4 + c5) =~= all);
        },
        CardStatus::Doing => {
            t::lemma_has_inside(top + c0 + c1, c2, c3 + c4 + c5, line);
            assert(top + c0 + c1 + c2 + (c3 + c4 + c5) =~= all);
        },
        CardStatus::Blocked => {
            t::lemma_has_inside(top + c0 + c1 + c2, c3, c4 + c5, line);
            assert(top + c0 + c1 + c2 + c3 + (c4 + c5) =~= all);
        },
        CardStatus::Done => {
            t::lemma_has_inside(top + c0 + c1 + c2 + c3, c4, c5, line);
        },
        CardStatus::Archived => {
            t::lemma_has_inside(top + c0 + c1 + c2 + c3 + c4, c5, e, line);
            assert(top + c0 + c1 + c2 + c3 + c4 + c5 + e =~= all);
        },
    }
    assert forall|s: CardStatus| (forall|j: int| 0 <= j < b.cards.len() ==> (#[trigger] b.cards[j]).status != s)
        implies #[trigger] column_words(b, s) == Seq::<char>::empty() by {
        lemma_no_tally(b, s, n);
    }
}

proof fn lemma_no_tally(b: BoardView, s: CardStatus, n: int)
    requires
        forall|j: int| 0 <= j < b.cards.len() ==> (#[trigger] b.cards[j]).status != s,
    ensures
        b.tally(s, n) == 0,
    decreases n,
{
    if 0 < n <= b.cards.len() {
        lemma_no_tally(b, s, n - 1);
        assert(b.cards[n - 1].status != s);
    }
}

proof fn lemma_column_lines(b: BoardView, i: int, n: int)
    requires
        0 <= i < n <= b.cards.len(),
    ensures
        t::has(column_lines(b, b.cards[i].status, n), card_line(b.cards[i])),
        b.tally(b.cards[i].status, n) > 0,
    decreases n,
{
    let status = b.cards[i].status;
    let line = card_line(b.cards[i]);
    let before = column_lines(b, status, n - 1);
    let e = Seq::<char>::empty();
    if i == n - 1 {
        t::lemma_has_part(before, line, e);
        assert(before + line + e =~= before + line);
    } else {
        lemma_column_lines(b, i, n - 1);
        let last = card_line(b.cards[n - 1]);
        t::lemma_has_inside(e, before, last, line);
        assert(e + before + last =~= before + last);
    }
}

/// `s` goes on from `front`.
spec fn goes_on(front: Seq<char>, s: Seq<char>) -> bool {
    front.len() <= s.len() && s.take(front.len() as int) == front
}

proof fn lemma_adds(a: Seq<char>, x: Seq<char>, y: Seq<char>, z: Seq<char>)
    ensures
        goes_on(a, a + x + y + z),
        t::ends(a + x + y + z, x + y + z),
        t::has(a + x + y + z, x + y + z),
{
    let s = a + x + y + z;
    let tail = x + y + z;
    assert(s.take(a.len() as int) =~= a);
    assert(s.subrange(s.len() - tail.len(), s.len() as int) =~= tail);
    assert(t::occurs_at(s, tail, s.len() - tail.len()));
}

proof fn lemma_adds_two(a: Seq<char>, x: Seq<char>, y: Seq<char>)
    ensures
        goes_on(a, a + x + y),
{
    assert((a + x + y).take(a.len() as int) =~= a);
}

proof fn lemma_goes_on(a: Seq<char>, b: Seq<char>, c: Seq<char>, pat: Seq<char>)
    requires
        goes_on(a, b),
        goes_on(b, c),
    ensures
        goes_on(a, c),
        t::has(b, pat) ==> t::has(c, pat),
{
    assert(c.take(a.len() as int) =~= c.take(b.len() as int).take(a.len() as int));
    if t::has(b, pat) {
        let i = choose|i: int| t::occurs_at(b, pat, i);
        assert(c.subrange(i, i + pat.len()) =~= c.take(b.len() as int).subrange(i, i + pat.len()));
        assert(t::occurs_at(c, pat, i));
    }
}

/// What a card in full holds once it is under way, it holds in the end.
proof fn lemma_card_keeps(c: CardView, s5: Seq<char>, pat: Seq<char>)
    requires
        ({
            let head = c.id + " ["@ + c.status.name() + "] "@ + c.title + "\n"@;
            let s1 = if c.detail.len() > 0 {
                head + "\n"@ + c.detail + "\n"@
            } else {
                head
            };
            let s2 = s1 + "\nassignee: "@ + (match c.assignee {
                Some(a) => a,
                None => "(default)"@,
            }) + "\n"@;
            let s3 = if c.deps.len() > 0 {
                s2 + "deps: "@ + t::joined(c.deps, ", "@) + "\n"@
            } else {
                s2
            };
            let s4 = if c.priority != 0 {
                s3 + "priority: "@ + t::signed_decimal(c.priority as int) + "\n"@
            } else {
                s3
            };
            s5 == match c.block_kind {
                Some(k) => s4 + "block kind: "@ + k + "\n"@,
                None => s4,
            }
        }),
    ensures
        t::has(s5, pat) ==> t::has(card_words(c), pat),
        goes_on(s5, card_words(c)),
        c.result matches Some(r) ==> t::has(card_words(c), "\nresult:\n"@ + r + "\n"@),
        c.comments.len() == 0 && c.runs.len() == 0 ==> (c.result matches Some(r) ==> t::ends(
            card_words(c),
            "\nresult:\n"@ + r + "\n"@,
        )),
{
    let s6 = match c.result {
        Some(r) => s5 + "\nresult:\n"@ + r + "\n"@,
        None => s5,
    };
    let told = comment_lines(c.comments, c.comments.len() as int);
    let s7 = if c.comments.len() > 0 {
        s6 + "\ncomments:\n"@ + told
    } else {
        s6
    };
    let runs = run_lines(c.runs, c.runs.len() as int);
    let s8 = if c.runs.len() > 0 {
        s7 + "\nruns:\n"@ + runs
    } else {
        s7
    };
    assert(card_words(c) == s8);
    assert(s5.take(s5.len() as int) =~= s5);
    assert(s6.take(s6.len() as int) =~= s6);
    assert(s7.take(s7.len() as int) =~= s7);
    lemma_adds_two(s6, "\ncomments:\n"@, told);
    lemma_adds_two(s7, "\nruns:\n"@, runs);
    lemma_goes_on(s6, s7, s8, pat);
    lemma_goes_on(s6, s6, s8, pat);
    match c.result {
        Some(r) => {
            lemma_adds(s5, "\nresult:\n"@, r, "\n"@);
            lemma_goes_on(s6, s6, s8, "\nresult:\n"@ + r + "\n"@);
            lemma_goes_on(s5, s6, s8, pat);
        },
        None => {},
    }
    lemma_goes_on(s5, s5, s8, pat);
}

/// A card in full begins with its id, its status and its title, and tells its
/// detail, its assignee, what it waits for, why it is blocked, and its result.
#[verifier::rlimit(40)]
pub proof fn law_a_card_is_shown_in_full(c: CardView)
    ensures
        t::starts(card_words(c), c.id + " ["@ + c.status.name() + "] "@ + c.title + "\n"@),
        c.detail.len() > 0 ==> t::has(card_words(c), "\n"@ + c.detail + "\n"@),
        c.assignee matches Some(a) ==> t::has(card_words(c), "\nassignee: "@ + a + "\n"@),
        c.deps.len() > 0 ==> t::has(card_words(c), "deps: "@ + t::joined(c.deps, ", "@) + "\n"@),
        c.block_kind matches Some(k) ==> t::has(card_words(c), "block kind: "@ + k + "\n"@),
        c.result matches Some(r) ==> t::has(card_words(c), "\nresult:\n"@ + r + "\n"@),
        c.comments.len() == 0 && c.runs.len() == 0 ==> (c.result matches Some(r) ==> t::ends(
            card_words(c),
            "\nresult:\n"@ + r + "\n"@,
        )),
{
    let head = c.id + " ["@ + c.status.name() + "] "@ + c.title + "\n"@;
    let s1 = if c.detail.len() > 0 {
        head + "\n"@ + c.detail + "\n"@
    } else {
        head
    };
    let who = match c.assignee {
        Some(a) => a,
        None => "(default)"@,
    };
    let s2 = s1 + "\nassignee: "@ + who + "\n"@;
    let waits = t::joined(c.deps, ", "@);
    let s3 = if c.deps.len() > 0 {
        s2 + "deps: "@ + waits + "\n"@
    } else {
        s2
    };
    let rank = t::signed_decimal(c.priority as int);
    let s4 = if c.priority != 0 {
        s3 + "priority: "@ + rank + "\n"@
    } else {
        s3
    };
    let s5 = match c.block_kind {
        Some(k) => s4 + "block kind: "@ + k + "\n"@,
        None => s4,
    };
    let p1 = "\n"@ + c.detail + "\n"@;
    let p2 = "\nassignee: "@ + who + "\n"@;
    let p3 = "deps: "@ + waits + "\n"@;
    assert(head.take(head.len() as int) =~= head);
    assert(s1.take(s1.len() as int) =~= s1);
    assert(s2.take(s2.len() as int) =~= s2);
    assert(s3.take(s3.len() as int) =~= s3);
    assert(s4.take(s4.len() as int) =~= s4);
    lemma_adds(head, "\n"@, c.detail, "\n"@);
    lemma_adds(s1, "\nassignee: "@, who, "\n"@);
    lemma_adds(s2, "deps: "@, waits, "\n"@);
    lemma_adds(s3, "priority: "@, rank, "\n"@);
    match c.block_kind {
        Some(k) => {
            lemma_adds(s4, "block kind: "@, k, "\n"@);
            lemma_card_keeps(c, s5, "block kind: "@ + k + "\n"@);
        },
        None => {},
    }
    lemma_goes_on(head, s1, s2, p1);
    lemma_goes_on(head, s2, s3, p1);
    lemma_goes_on(head, s3, s4, p1);
    lemma_goes_on(head, s4, s5, p1);
    lemma_goes_on(s2, s2, s3, p2);
    lemma_goes_on(s2, s3, s4, p2);
    lemma_goes_on(s2, s4, s5, p2);
    lemma_goes_on(s3, s3, s4, p3);
    lemma_goes_on(s3, s4, s5, p3);
    lemma_card_keeps(c, s5, p1);
    lemma_card_keeps(c, s5, p2);
    lemma_card_keeps(c, s5, p3);
    lemma_goes_on(head, s5, card_words(c), p1);
    let all = card_words(c);
    assert(all.subrange(0, head.len() as int) =~= all.take(head.len() as int));
}

/// A status that no card can have is refused by its name, and nothing is moved.
pub proof fn law_an_unknown_status_is_refused_by_its_name(
    b: BoardView,
    card: Seq<char>,
    status: Seq<char>,
    name: Seq<char>,
)
    requires
        forall|s: CardStatus| #[trigger] s.name() != status,
    ensures
        moved(b, card, status, name) matches BoardOutcomeView::Fail { error } && t::has(error, status),
{
    t::lemma_has_part("unknown status '"@, status, "' (triage|todo|doing|done|blocked|archived)"@);
    assert(CardStatus::Triage.name() != status && CardStatus::Todo.name() != status && CardStatus::Doing.name()
        != status && CardStatus::Done.name() != status && CardStatus::Blocked.name() != status
        && CardStatus::Archived.name() != status);
}

} // verus!
