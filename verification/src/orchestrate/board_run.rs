//! One run of a board: which cards are claimed, what becomes of their
//! results, and when the run ends.

use crate::orchestrate::board;
use crate::orchestrate::board::{Board, BoardView, Card, CardRun, CardRunView, CardStatus, CardView, Moment};
use crate::orchestrate::budget::{OrchestratorCaps, RunBudget};
use crate::orchestrate::run;
use crate::text as t;
use vstd::prelude::*;
use vstd::string::*;

verus! {

/// A card that an agent was given, and when.
#[derive(Debug, PartialEq, Eq)]
pub struct Claim<S> {
    pub id: S,
    pub agent: S,
    pub at: Moment,
}

/// Where a board run stands: what it waits for.
#[derive(Debug, PartialEq, Eq)]
pub enum BoardStage<S, Q, P> {
    /// For the clock, at the top of the loop.
    Checking,
    /// For an agent that takes the card; `queue` are the cards to claim after
    /// it, `batch` those that are claimed.
    Claiming { id: S, queue: Q, batch: P },
    /// For the outcome of the first pending card.
    Handling { pending: P },
    /// For the judge of a card's result.
    Judging { claim: Claim<S>, pending: P, note: S, used: u32, limit: u32 },
    Ended,
}

/// What the program reports.
#[derive(Debug, PartialEq, Eq)]
pub enum BoardEvent<S> {
    Clock { elapsed_ns: u64, now: Moment },
    Placed { agent: S, at: Moment },
    Unplaced { error: S },
    /// The agent replied, and so many files were collected from it.
    CardReply { text: S, files: usize },
    CardFailed { error: S },
    Judged { pass: bool, feedback: S },
    NoJudge,
}

/// Why a board run ends.
#[derive(Clone, Copy, Debug, PartialEq, Eq, Structural)]
pub enum BoardEnd {
    TickCeiling,
    WallClock,
    TurnBudget,
    Complete,
    /// Cards are left that wait for something that will not come.
    Stuck,
    Drained,
}

/// What the program is to do.
#[derive(Debug, PartialEq, Eq)]
pub enum BoardAction<S, P> {
    Place { id: S, assignee: Option<S> },
    /// Send these cards to their agents, all at once.
    Dispatch { batch: P },
    Judge { judge: S, title: S, detail: S, result: S },
    /// The card is done; its result may be due on a channel.
    CardDone { id: S, agent: S, note: S, deliver: Option<S> },
    CardRevise { id: S, feedback: S, round: u32, limit: u32 },
    CardRetry { id: S, error: S, attempts: u32, tries: u64 },
    CardBlocked { id: S, error: S },
    End { why: BoardEnd },
    Fail { error: S },
    /// The event does not belong here; nothing changes.
    Refused,
}

pub type ClaimView = Claim<Seq<char>>;

pub type BoardStageView = BoardStage<Seq<char>, Seq<Seq<char>>, Seq<ClaimView>>;

pub type BoardEventView = BoardEvent<Seq<char>>;

pub type BoardActionView = BoardAction<Seq<char>, Seq<ClaimView>>;

impl View for Claim<String> {
    type V = ClaimView;

    open spec fn view(&self) -> ClaimView {
        Claim { id: self.id@, agent: self.agent@, at: self.at }
    }
}

pub open spec fn claims(v: Seq<Claim<String>>) -> Seq<ClaimView> {
    v.map_values(|c: Claim<String>| c@)
}

impl View for BoardStage<String, Vec<String>, Vec<Claim<String>>> {
    type V = BoardStageView;

    open spec fn view(&self) -> BoardStageView {
        match self {
            BoardStage::Checking => BoardStage::Checking,
            BoardStage::Claiming { id, queue, batch } => BoardStage::Claiming {
                id: id@,
                queue: t::texts(queue@),
                batch: claims(batch@),
            },
            BoardStage::Handling { pending } => BoardStage::Handling { pending: claims(pending@) },
            BoardStage::Judging { claim, pending, note, used, limit } => BoardStage::Judging {
                claim: claim@,
                pending: claims(pending@),
                note: note@,
                used: *used,
                limit: *limit,
            },
            BoardStage::Ended => BoardStage::Ended,
        }
    }
}

impl View for BoardEvent<String> {
    type V = BoardEventView;

    open spec fn view(&self) -> BoardEventView {
        match self {
            BoardEvent::Clock { elapsed_ns, now } => BoardEvent::Clock { elapsed_ns: *elapsed_ns, now: *now },
            BoardEvent::Placed { agent, at } => BoardEvent::Placed { agent: agent@, at: *at },
            BoardEvent::Unplaced { error } => BoardEvent::Unplaced { error: error@ },
            BoardEvent::CardReply { text, files } => BoardEvent::CardReply { text: text@, files: *files },
            BoardEvent::CardFailed { error } => BoardEvent::CardFailed { error: error@ },
            BoardEvent::Judged { pass, feedback } => BoardEvent::Judged { pass: *pass, feedback: feedback@ },
            BoardEvent::NoJudge => BoardEvent::NoJudge,
        }
    }
}

impl View for BoardAction<String, Vec<Claim<String>>> {
    type V = BoardActionView;

    open spec fn view(&self) -> BoardActionView {
        match self {
            BoardAction::Place { id, assignee } => BoardAction::Place {
                id: id@,
                assignee: t::opt_view(*assignee),
            },
            BoardAction::Dispatch { batch } => BoardAction::Dispatch { batch: claims(batch@) },
            BoardAction::Judge { judge, title, detail, result } => BoardAction::Judge {
                judge: judge@,
                title: title@,
                detail: detail@,
                result: result@,
            },
            BoardAction::CardDone { id, agent, note, deliver } => BoardAction::CardDone {
                id: id@,
                agent: agent@,
                note: note@,
                deliver: t::opt_view(*deliver),
            },
            BoardAction::CardRevise { id, feedback, round, limit } => BoardAction::CardRevise {
                id: id@,
                feedback: feedback@,
                round: *round,
                limit: *limit,
            },
            BoardAction::CardRetry { id, error, attempts, tries } => BoardAction::CardRetry {
                id: id@,
                error: error@,
                attempts: *attempts,
                tries: *tries,
            },
            BoardAction::CardBlocked { id, error } => BoardAction::CardBlocked { id: id@, error: error@ },
            BoardAction::End { why } => BoardAction::End { why: *why },
            BoardAction::Fail { error } => BoardAction::Fail { error: error@ },
            BoardAction::Refused => BoardAction::Refused,
        }
    }
}

/// A run of a board.
#[derive(Debug, PartialEq, Eq)]
pub struct BoardRun {
    pub board: Board,
    pub caps: OrchestratorCaps,
    pub budget: RunBudget,
    /// The role that judges, where the registry has one.
    pub judge: Option<String>,
    /// The rounds that judged cards have had; the last entry of a card counts.
    pub rounds: Vec<(String, u32)>,
    pub stage: BoardStage<String, Vec<String>, Vec<Claim<String>>>,
}

pub struct BoardRunView {
    pub board: BoardView,
    pub caps: OrchestratorCaps,
    pub budget: RunBudget,
    pub judge: Option<Seq<char>>,
    pub rounds: Seq<(Seq<char>, u32)>,
    pub stage: BoardStageView,
}

impl View for BoardRun {
    type V = BoardRunView;

    open spec fn view(&self) -> BoardRunView {
        BoardRunView {
            board: self.board@,
            caps: self.caps,
            budget: self.budget,
            judge: t::opt_view(self.judge),
            rounds: self.rounds@.map_values(|e: (String, u32)| (e.0@, e.1)),
            stage: self.stage@,
        }
    }
}

// ---------------------------------------------------------------------------
// What becomes of a card
// ---------------------------------------------------------------------------

/// The result of a card: the reply without its end marker and the white space
/// around it, and a note of the files that came with it.
pub open spec fn note_of(reply: Seq<char>, files: usize) -> Seq<char> {
    let text = t::trimmed(t::replaced(reply, "[[ORCH_DONE]]"@, Seq::empty()));
    if files > 0 {
        text + "\n[+"@ + t::decimal(files as nat) + " file(s) collected]"@
    } else {
        text
    }
}

pub fn card_note(reply: &str, files: usize) -> (r: String)
    ensures
        r@ == note_of(reply@, files),
{
    proof {
        reveal_strlit("");
        reveal_strlit("[[ORCH_DONE]]");
        assert(""@ =~= Seq::<char>::empty());
    }
    let plain = t::replace(reply, "[[ORCH_DONE]]", "");
    let text = t::trim(plain.as_str());
    if files > 0 {
        text.concat("\n[+").concat(t::usize_text(files).as_str()).concat(" file(s) collected]")
    } else {
        text
    }
}

/// The card with one more entry in its history.
pub open spec fn with_run(c: CardView, claim: ClaimView, outcome: Seq<char>, summary: Seq<char>) -> CardView {
    CardView {
        runs: c.runs.push(
            CardRunView { attempt: c.attempts, outcome, agent: Some(claim.agent), summary, started_at: claim.at },
        ),
        ..c
    }
}

pub open spec fn claimed(c: CardView) -> CardView {
    CardView { status: CardStatus::Doing, attempts: run::bump(c.attempts), ..c }
}

pub open spec fn completed(c: CardView, claim: ClaimView, note: Seq<char>) -> CardView {
    with_run(
        CardView { result: Some(note), status: CardStatus::Done, block_kind: None, ..c },
        claim,
        "completed"@,
        note,
    )
}

/// What the judge's comment says.
pub open spec fn judge_note(round: nat, limit: nat, feedback: Seq<char>) -> Seq<char> {
    "Not yet ("@ + t::decimal(round) + "/"@ + t::decimal(limit) + "). "@ + feedback
}

pub open spec fn sent_back(
    c: CardView,
    claim: ClaimView,
    note: Seq<char>,
    round: nat,
    limit: nat,
    feedback: Seq<char>,
) -> CardView {
    let thread = board::commented("goal-judge"@, judge_note(round, limit, feedback))(c);
    with_run(
        CardView { status: CardStatus::Todo, result: Some(note), ..thread },
        claim,
        "revise"@,
        feedback,
    )
}

pub open spec fn retried(c: CardView, claim: ClaimView, error: Seq<char>) -> CardView {
    with_run(
        CardView {
            status: CardStatus::Todo,
            block_kind: Some("transient"@),
            result: Some("attempt "@ + t::decimal(c.attempts as nat) + " failed: "@ + error),
            ..c
        },
        claim,
        "crashed"@,
        error,
    )
}

pub open spec fn given_up(c: CardView, claim: ClaimView, error: Seq<char>) -> CardView {
    with_run(
        CardView {
            status: CardStatus::Blocked,
            block_kind: Some("transient"@),
            result: Some("failed: "@ + error),
            ..c
        },
        claim,
        "gave_up"@,
        error,
    )
}

/// How often a card may be judged: five times where nothing else is said.
pub open spec fn judge_limit(c: CardView) -> u32 {
    if c.goal_max_turns == 0 {
        5
    } else {
        c.goal_max_turns
    }
}

/// The rounds that a card has had.
pub open spec fn rounds_of(rounds: Seq<(Seq<char>, u32)>, id: Seq<char>) -> u32
    decreases rounds.len(),
{
    if rounds.len() == 0 {
        0
    } else if rounds.last().0 == id {
        rounds.last().1
    } else {
        rounds_of(rounds.drop_last(), id)
    }
}

/// The ids of the cards at these positions.
pub open spec fn card_ids(b: BoardView, at: Seq<int>) -> Seq<Seq<char>> {
    at.map_values(|i: int| b.cards[i].id)
}

/// How many cards run at once: at least one.
pub open spec fn width(caps: OrchestratorCaps) -> nat {
    if caps.max_parallel == 0 {
        1
    } else {
        caps.max_parallel as nat
    }
}

pub open spec fn first_n<A>(s: Seq<A>, n: nat) -> Seq<A> {
    if n < s.len() {
        s.take(n as int)
    } else {
        s
    }
}

impl BoardRunView {
    pub open spec fn at(self, stage: BoardStageView) -> BoardRunView {
        BoardRunView { stage, ..self }
    }

    pub open spec fn charged(self) -> BoardRunView {
        BoardRunView { budget: self.budget.spent(), ..self }
    }

    pub open spec fn ended(self, why: BoardEnd) -> (BoardRunView, BoardActionView) {
        (self.at(BoardStage::Ended), BoardAction::End { why })
    }

    pub open spec fn with_card(self, id: Seq<char>, change: spec_fn(CardView) -> CardView) -> BoardRunView {
        BoardRunView { board: self.board.with_card(id, change), ..self }
    }

    /// After a card's outcome: the next pending card, or the top of the loop.
    pub open spec fn onward(self, pending: Seq<ClaimView>) -> BoardRunView {
        if pending.len() == 0 {
            self.at(BoardStage::Checking)
        } else {
            self.at(BoardStage::Handling { pending })
        }
    }

    pub open spec fn assignee_of(self, id: Seq<char>) -> Option<Seq<char>> {
        match self.board.card(id) {
            Some(c) => c.assignee,
            None => None,
        }
    }

    /// Claims the next card as long as a turn can pay for it; then the claimed
    /// cards go out.
    pub open spec fn claiming(self, queue: Seq<Seq<char>>, batch: Seq<ClaimView>) -> (
        BoardRunView,
        BoardActionView,
    ) {
        if queue.len() > 0 && self.budget.turns > 0 {
            (
                self.charged().at(BoardStage::Claiming { id: queue[0], queue: queue.skip(1), batch }),
                BoardAction::Place { id: queue[0], assignee: self.assignee_of(queue[0]) },
            )
        } else if batch.len() == 0 {
            self.ended(BoardEnd::TurnBudget)
        } else {
            (self.at(BoardStage::Handling { pending: batch }), BoardAction::Dispatch { batch })
        }
    }

    pub open spec fn checked(self, elapsed_ns: u64, now: Moment) -> (BoardRunView, BoardActionView) {
        let next = BoardRunView { budget: self.budget.ticked(), ..self };
        let queue = self.board.queue(now);
        if self.budget.ticks == 0 {
            next.ended(BoardEnd::TickCeiling)
        } else if elapsed_ns >= self.caps.max_wall_seconds * 1_000_000_000 {
            next.ended(BoardEnd::WallClock)
        } else if self.budget.turns == 0 {
            next.ended(BoardEnd::TurnBudget)
        } else if self.board.complete() {
            next.ended(BoardEnd::Complete)
        } else if queue.len() == 0 {
            if self.board.count(CardStatus::Todo) > 0 {
                next.ended(BoardEnd::Stuck)
            } else {
                next.ended(BoardEnd::Drained)
            }
        } else {
            next.claiming(card_ids(self.board, first_n(queue, width(self.caps))), Seq::empty())
        }
    }

    pub open spec fn finished(self, claim: ClaimView, pending: Seq<ClaimView>, note: Seq<char>) -> (
        BoardRunView,
        BoardActionView,
    ) {
        (
            self.with_card(claim.id, |c: CardView| completed(c, claim, note)).onward(pending),
            BoardAction::CardDone {
                id: claim.id,
                agent: claim.agent,
                note,
                deliver: match self.board.card(claim.id) {
                    Some(c) => c.deliver,
                    None => None,
                },
            },
        )
    }

    /// A reply to a card. A card with a goal goes to a judge first, as long as
    /// rounds and turns are left.
    pub open spec fn replied(self, pending: Seq<ClaimView>, text: Seq<char>, files: usize) -> (
        BoardRunView,
        BoardActionView,
    ) {
        let claim = pending[0];
        let rest = pending.skip(1);
        let note = note_of(text, files);
        match self.board.card(claim.id) {
            Some(c) => {
                let used = rounds_of(self.rounds, claim.id);
                let limit = judge_limit(c);
                if c.goal && used < limit && self.budget.turns > 0 {
                    (
                        self.charged().at(BoardStage::Judging { claim, pending: rest, note, used, limit }),
                        BoardAction::Judge {
                            judge: match self.judge {
                                Some(role) => role,
                                None => claim.agent,
                            },
                            title: c.title,
                            detail: c.detail,
                            result: note,
                        },
                    )
                } else {
                    self.finished(claim, rest, note)
                }
            },
            None => self.finished(claim, rest, note),
        }
    }

    pub open spec fn judged(
        self,
        claim: ClaimView,
        pending: Seq<ClaimView>,
        note: Seq<char>,
        used: u32,
        limit: u32,
        feedback: Seq<char>,
    ) -> (BoardRunView, BoardActionView) {
        let round = run::bump(used);
        (
            BoardRunView { rounds: self.rounds.push((claim.id, round)), ..self }.with_card(
                claim.id,
                |c: CardView| sent_back(c, claim, note, round as nat, limit as nat, feedback),
            ).onward(pending),
            BoardAction::CardRevise { id: claim.id, feedback, round, limit },
        )
    }

    /// A card that failed is tried again until its attempts exceed its
    /// retries; then it is blocked.
    pub open spec fn crashed(self, pending: Seq<ClaimView>, error: Seq<char>) -> (BoardRunView, BoardActionView) {
        let claim = pending[0];
        let rest = pending.skip(1);
        let (attempts, retries) = match self.board.card(claim.id) {
            Some(c) => (c.attempts, c.max_retries),
            None => (0u32, 0u32),
        };
        if attempts <= retries {
            (
                self.with_card(claim.id, |c: CardView| retried(c, claim, error)).onward(rest),
                BoardAction::CardRetry { id: claim.id, error, attempts, tries: (retries + 1) as u64 },
            )
        } else {
            (
                self.with_card(claim.id, |c: CardView| given_up(c, claim, error)).onward(rest),
                BoardAction::CardBlocked { id: claim.id, error },
            )
        }
    }

    /// What follows an event: the run after it, and what is to be done.
    pub open spec fn next(self, event: BoardEventView) -> (BoardRunView, BoardActionView) {
        match (self.stage, event) {
            (BoardStage::Checking, BoardEvent::Clock { elapsed_ns, now }) => self.checked(elapsed_ns, now),
            (BoardStage::Claiming { id, queue, batch }, BoardEvent::Placed { agent, at }) => self.with_card(
                id,
                |c: CardView| claimed(c),
            ).claiming(queue, batch.push(Claim { id, agent, at })),
            (BoardStage::Claiming { .. }, BoardEvent::Unplaced { error }) => (
                self.at(BoardStage::Ended),
                BoardAction::Fail { error },
            ),
            (BoardStage::Handling { pending }, BoardEvent::CardReply { text, files }) => if pending.len()
                > 0 {
                self.replied(pending, text, files)
            } else {
                (self, BoardAction::Refused)
            },
            (BoardStage::Handling { pending }, BoardEvent::CardFailed { error }) => if pending.len() > 0 {
                self.crashed(pending, error)
            } else {
                (self, BoardAction::Refused)
            },
            (BoardStage::Judging { claim, pending, note, used, limit }, BoardEvent::Judged { pass, feedback }) =>
                if pass {
                    self.finished(claim, pending, note)
                } else {
                    self.judged(claim, pending, note, used, limit, feedback)
                },
            (BoardStage::Judging { claim, pending, note, .. }, BoardEvent::NoJudge) => self.finished(
                claim,
                pending,
                note,
            ),
            _ => (self, BoardAction::Refused),
        }
    }
}

// ---------------------------------------------------------------------------
// Running the board
// ---------------------------------------------------------------------------

fn history_entry(card: &Card, claim: &Claim<String>, outcome: &str, summary: &str) -> (r: CardRun)
    ensures
        r@ == (CardRunView {
            attempt: card.attempts,
            outcome: outcome@,
            agent: Some(claim@.agent),
            summary: summary@,
            started_at: claim.at,
        }),
{
    CardRun {
        attempt: card.attempts,
        outcome: outcome.to_owned(),
        agent: Some(claim.agent.clone()),
        summary: summary.to_owned(),
        started_at: claim.at,
    }
}

fn mark_claimed(board: &mut Board, id: &str)
    ensures
        final(board)@ == old(board)@.with_card(id@, |c: CardView| claimed(c)),
{
    match board.find_card(id) {
        Some(i) => {
            let ghost before = board@;
            let attempts: u32 = board.cards[i].attempts;
            board.cards[i].status = CardStatus::Doing;
            if attempts < u32::MAX {
                board.cards[i].attempts = attempts + 1;
            }
            proof {
                assert(before.cards[i as int].attempts == attempts);
                assert(board@.cards =~= before.cards.update(i as int, claimed(before.cards[i as int])));
            }
        },
        None => {},
    }
}

fn mark_completed(board: &mut Board, claim: &Claim<String>, note: &str)
    ensures
        final(board)@ == old(board)@.with_card(claim@.id, |c: CardView| completed(c, claim@, note@)),
{
    match board.find_card(claim.id.as_str()) {
        Some(i) => {
            let ghost before = board@;
            let entry = history_entry(&board.cards[i], claim, "completed", note);
            board.cards[i].result = Some(note.to_owned());
            board.cards[i].status = CardStatus::Done;
            board.cards[i].block_kind = None;
            board.cards[i].runs.push(entry);
            proof {
                let c = before.cards[i as int];
                assert(board.cards@[i as int]@.runs =~= c.runs.push(entry@));
                assert(board.cards@[i as int]@ == completed(c, claim@, note@));
                assert(board@.cards =~= before.cards.update(i as int, completed(c, claim@, note@)));
            }
        },
        None => {},
    }
}

fn mark_sent_back(board: &mut Board, claim: &Claim<String>, note: &str, round: u32, limit: u32, feedback: &str)
    ensures
        final(board)@ == old(board)@.with_card(
            claim@.id,
            |c: CardView| sent_back(c, claim@, note@, round as nat, limit as nat, feedback@),
        ),
{
    match board.find_card(claim.id.as_str()) {
        Some(i) => {
            let ghost before = board@;
            let body = "Not yet (".to_owned().concat(t::u64_text(round as u64).as_str()).concat("/").concat(
                t::u64_text(limit as u64).as_str(),
            ).concat("). ").concat(feedback);
            let remark = board::Comment { author: "goal-judge".to_owned(), body };
            let entry = history_entry(&board.cards[i], claim, "revise", feedback);
            board.cards[i].comments.push(remark);
            board.cards[i].status = CardStatus::Todo;
            board.cards[i].result = Some(note.to_owned());
            board.cards[i].runs.push(entry);
            proof {
                let c = before.cards[i as int];
                let d = sent_back(c, claim@, note@, round as nat, limit as nat, feedback@);
                assert(board.cards@[i as int]@.runs =~= c.runs.push(entry@));
                assert(board.cards@[i as int]@.comments =~= c.comments.push(remark@));
                assert(board.cards@[i as int]@ == d);
                assert(board@.cards =~= before.cards.update(i as int, d));
            }
        },
        None => {},
    }
}

fn mark_retried(board: &mut Board, claim: &Claim<String>, error: &str)
    ensures
        final(board)@ == old(board)@.with_card(claim@.id, |c: CardView| retried(c, claim@, error@)),
{
    match board.find_card(claim.id.as_str()) {
        Some(i) => {
            let ghost before = board@;
            let entry = history_entry(&board.cards[i], claim, "crashed", error);
            let result = "attempt ".to_owned().concat(
                t::u64_text(board.cards[i].attempts as u64).as_str(),
            ).concat(" failed: ").concat(error);
            board.cards[i].status = CardStatus::Todo;
            board.cards[i].block_kind = Some("transient".to_owned());
            board.cards[i].result = Some(result);
            board.cards[i].runs.push(entry);
            proof {
                let c = before.cards[i as int];
                assert(board.cards@[i as int]@.runs =~= c.runs.push(entry@));
                assert(board.cards@[i as int]@ == retried(c, claim@, error@));
                assert(board@.cards =~= before.cards.update(i as int, retried(c, claim@, error@)));
            }
        },
        None => {},
    }
}

fn mark_given_up(board: &mut Board, claim: &Claim<String>, error: &str)
    ensures
        final(board)@ == old(board)@.with_card(claim@.id, |c: CardView| given_up(c, claim@, error@)),
{
    match board.find_card(claim.id.as_str()) {
        Some(i) => {
            let ghost before = board@;
            let entry = history_entry(&board.cards[i], claim, "gave_up", error);
            board.cards[i].status = CardStatus::Blocked;
            board.cards[i].block_kind = Some("transient".to_owned());
            board.cards[i].result = Some("failed: ".to_owned().concat(error));
            board.cards[i].runs.push(entry);
            proof {
                let c = before.cards[i as int];
                assert(board.cards@[i as int]@.runs =~= c.runs.push(entry@));
                assert(board.cards@[i as int]@ == given_up(c, claim@, error@));
                assert(board@.cards =~= before.cards.update(i as int, given_up(c, claim@, error@)));
            }
        },
        None => {},
    }
}

fn look_up_rounds(rounds: &Vec<(String, u32)>, id: &str) -> (r: u32)
    ensures
        r == rounds_of(rounds@.map_values(|e: (String, u32)| (e.0@, e.1)), id@),
{
    let ghost all = rounds@.map_values(|e: (String, u32)| (e.0@, e.1));
    let mut n: usize = rounds.len();
    assert(all.take(n as int) =~= all);
    while n > 0
        invariant
            n <= rounds.len(),
            all == rounds@.map_values(|e: (String, u32)| (e.0@, e.1)),
            rounds_of(all, id@) == rounds_of(all.take(n as int), id@),
        decreases n,
    {
        assert(all.take(n as int).drop_last() =~= all.take(n - 1));
        assert(all.take(n as int).last() == (rounds@[n - 1].0@, rounds@[n - 1].1));
        if t::same(rounds[n - 1].0.as_str(), id) {
            return rounds[n - 1].1;
        }
        n -= 1;
    }
    0
}

/// The ids of the cards that run next, at most `width` of them.
fn next_ids(board: &Board, now: Moment, caps: &OrchestratorCaps) -> (r: Vec<String>)
    ensures
        t::texts(r@) == card_ids(board@, first_n(board@.queue(now), width(*caps))),
{
    let order = board.ready(now);
    let limit: usize = if caps.max_parallel == 0 {
        1
    } else {
        caps.max_parallel as usize
    };
    let n: usize = if limit < order.len() {
        limit
    } else {
        order.len()
    };
    let ghost all = board@.queue(now);
    let ghost picked = first_n(all, width(*caps));
    assert(all.len() == order@.len());
    let mut ids: Vec<String> = Vec::new();
    let mut i: usize = 0;
    while i < n
        invariant
            i <= n <= order.len(),
            ids.len() == i,
            all == board::positions(order@),
            picked.len() == n,
            forall|k: int| 0 <= k < n ==> picked[k] == all[k],
            forall|k: int| 0 <= k < order@.len() ==> #[trigger] order@[k] < board.cards.len(),
            forall|k: int| 0 <= k < i ==> (#[trigger] ids@[k])@ == board@.cards[picked[k]].id,
        decreases n - i,
    {
        let at: usize = order[i];
        assert(picked[i as int] == at as int);
        assert(board@.cards[at as int] == board.cards@[at as int]@);
        ids.push(board.cards[at].id.clone());
        i += 1;
    }
    assert(t::texts(ids@) =~= card_ids(board@, picked));
    ids
}

impl BoardRun {
    /// A run of the board that has not begun.
    pub fn new(board: Board, caps: OrchestratorCaps, judge: Option<String>) -> (r: BoardRun)
        ensures
            r@ == (BoardRunView {
                board: board@,
                caps,
                budget: RunBudget { turns: caps.max_total_turns, ticks: caps.max_ticks },
                judge: t::opt_view(judge),
                rounds: Seq::empty(),
                stage: BoardStage::Checking,
            }),
    {
        let rounds: Vec<(String, u32)> = Vec::new();
        assert(rounds@.map_values(|e: (String, u32)| (e.0@, e.1)) =~= Seq::empty());
        BoardRun {
            board,
            caps,
            budget: RunBudget::new(&caps),
            judge,
            rounds,
            stage: BoardStage::Checking,
        }
    }

    fn with_stage(self, stage: BoardStage<String, Vec<String>, Vec<Claim<String>>>) -> (r: BoardRun)
        ensures
            r@ == self@.at(stage@),
    {
        BoardRun { stage, ..self }
    }

    fn charge(self) -> (r: BoardRun)
        ensures
            r@ == self@.charged(),
    {
        let mut run = self;
        let _paid = run.budget.spend_turn();
        run
    }

    fn end(self, why: BoardEnd) -> (r: (BoardRun, BoardAction<String, Vec<Claim<String>>>))
        ensures
            (r.0@, r.1@) == self@.ended(why),
    {
        (self.with_stage(BoardStage::Ended), BoardAction::End { why })
    }

    fn go_on(self, pending: Vec<Claim<String>>) -> (r: BoardRun)
        ensures
            r@ == self@.onward(claims(pending@)),
    {
        if pending.len() == 0 {
            self.with_stage(BoardStage::Checking)
        } else {
            self.with_stage(BoardStage::Handling { pending })
        }
    }

    fn claim(self, queue: Vec<String>, batch: Vec<Claim<String>>) -> (r: (
        BoardRun,
        BoardAction<String, Vec<Claim<String>>>,
    ))
        ensures
            (r.0@, r.1@) == self@.claiming(t::texts(queue@), claims(batch@)),
    {
        let mut queue = queue;
        let ghost all = t::texts(queue@);
        if queue.len() > 0 && self.budget.turns > 0 {
            let id = queue.remove(0);
            assert(id@ == all[0]);
            assert(t::texts(queue@) =~= all.skip(1));
            let assignee: Option<String> = match self.board.find_card(id.as_str()) {
                Some(i) => self.board.cards[i].assignee.clone(),
                None => None,
            };
            let name = id.clone();
            (
                self.charge().with_stage(BoardStage::Claiming { id, queue, batch }),
                BoardAction::Place { id: name, assignee },
            )
        } else if batch.len() == 0 {
            self.end(BoardEnd::TurnBudget)
        } else {
            let pending = copy_claims(&batch);
            (self.with_stage(BoardStage::Handling { pending }), BoardAction::Dispatch { batch })
        }
    }

    fn check(self, elapsed_ns: u64, now: Moment) -> (r: (BoardRun, BoardAction<String, Vec<Claim<String>>>))
        ensures
            (r.0@, r.1@) == self@.checked(elapsed_ns, now),
    {
        let mut run = self;
        if !run.budget.tick() {
            return run.end(BoardEnd::TickCeiling);
        }
        if elapsed_ns as u128 >= run.caps.max_wall_seconds as u128 * 1_000_000_000 {
            return run.end(BoardEnd::WallClock);
        }
        if run.budget.turns == 0 {
            return run.end(BoardEnd::TurnBudget);
        }
        if run.board.is_complete() {
            return run.end(BoardEnd::Complete);
        }
        let ids = next_ids(&run.board, now, &run.caps);
        assert(ids@.len() == t::texts(ids@).len());
        if ids.len() == 0 {
            assert(run.board@.queue(now).len() == 0);
            if run.board.count(CardStatus::Todo) > 0 {
                return run.end(BoardEnd::Stuck);
            }
            return run.end(BoardEnd::Drained);
        }
        let batch: Vec<Claim<String>> = Vec::new();
        assert(claims(batch@) =~= Seq::empty());
        run.claim(ids, batch)
    }

    fn finish(self, claim: Claim<String>, pending: Vec<Claim<String>>, note: String) -> (r: (
        BoardRun,
        BoardAction<String, Vec<Claim<String>>>,
    ))
        ensures
            (r.0@, r.1@) == self@.finished(claim@, claims(pending@), note@),
    {
        let mut run = self;
        let deliver: Option<String> = match run.board.find_card(claim.id.as_str()) {
            Some(i) => run.board.cards[i].deliver.clone(),
            None => None,
        };
        mark_completed(&mut run.board, &claim, note.as_str());
        (
            run.go_on(pending),
            BoardAction::CardDone { id: claim.id, agent: claim.agent, note, deliver },
        )
    }

    fn hear_reply(self, pending: Vec<Claim<String>>, text: String, files: usize) -> (r: (
        BoardRun,
        BoardAction<String, Vec<Claim<String>>>,
    ))
        requires
            pending.len() > 0,
        ensures
            (r.0@, r.1@) == self@.replied(claims(pending@), text@, files),
    {
        let mut pending = pending;
        let ghost all = claims(pending@);
        let claim = pending.remove(0);
        assert(claim@ == all[0]);
        assert(claims(pending@) =~= all.skip(1));
        let note = card_note(text.as_str(), files);
        match self.board.find_card(claim.id.as_str()) {
            Some(i) => {
                let used: u32 = look_up_rounds(&self.rounds, claim.id.as_str());
                let max: u32 = self.board.cards[i].goal_max_turns;
                let limit: u32 = if max == 0 {
                    5
                } else {
                    max
                };
                if self.board.cards[i].goal && used < limit && self.budget.turns > 0 {
                    let title = self.board.cards[i].title.clone();
                    let detail = self.board.cards[i].detail.clone();
                    let assignee = match &self.judge {
                        Some(role) => role.clone(),
                        None => claim.agent.clone(),
                    };
                    let result = note.clone();
                    (
                        self.charge().with_stage(BoardStage::Judging { claim, pending, note, used, limit }),
                        BoardAction::Judge { judge: assignee, title, detail, result },
                    )
                } else {
                    self.finish(claim, pending, note)
                }
            },
            None => self.finish(claim, pending, note),
        }
    }

    fn send_back(
        self,
        claim: Claim<String>,
        pending: Vec<Claim<String>>,
        note: String,
        used: u32,
        limit: u32,
        feedback: String,
    ) -> (r: (BoardRun, BoardAction<String, Vec<Claim<String>>>))
        ensures
            (r.0@, r.1@) == self@.judged(claim@, claims(pending@), note@, used, limit, feedback@),
    {
        let round: u32 = if used < u32::MAX {
            used + 1
        } else {
            used
        };
        let mut run = self;
        let ghost before = run@.rounds;
        run.rounds.push((claim.id.clone(), round));
        assert(run@.rounds =~= before.push((claim@.id, round)));
        mark_sent_back(&mut run.board, &claim, note.as_str(), round, limit, feedback.as_str());
        (run.go_on(pending), BoardAction::CardRevise { id: claim.id, feedback, round, limit })
    }

    fn hear_failure(self, pending: Vec<Claim<String>>, error: String) -> (r: (
        BoardRun,
        BoardAction<String, Vec<Claim<String>>>,
    ))
        requires
            pending.len() > 0,
        ensures
            (r.0@, r.1@) == self@.crashed(claims(pending@), error@),
    {
        let mut pending = pending;
        let ghost all = claims(pending@);
        let claim = pending.remove(0);
        assert(claim@ == all[0]);
        assert(claims(pending@) =~= all.skip(1));
        let mut attempts: u32 = 0;
        let mut retries: u32 = 0;
        match self.board.find_card(claim.id.as_str()) {
            Some(i) => {
                attempts = self.board.cards[i].attempts;
                retries = self.board.cards[i].max_retries;
            },
            None => {},
        }
        let mut run = self;
        if attempts <= retries {
            mark_retried(&mut run.board, &claim, error.as_str());
            (
                run.go_on(pending),
                BoardAction::CardRetry { id: claim.id, error, attempts, tries: retries as u64 + 1 },
            )
        } else {
            mark_given_up(&mut run.board, &claim, error.as_str());
            (run.go_on(pending), BoardAction::CardBlocked { id: claim.id, error })
        }
    }

    /// Takes in what happened and says what is to be done.
    pub fn run_board_inner(self, event: BoardEvent<String>) -> (r: (BoardRun, BoardAction<String, Vec<Claim<String>>>))
        ensures
            (r.0@, r.1@) == self@.next(event@),
    {
        let ghost before = self@;
        let mut run = self;
        let mut stage: BoardStage<String, Vec<String>, Vec<Claim<String>>> = BoardStage::Ended;
        std::mem::swap(&mut stage, &mut run.stage);
        assert(run@ == before.at(BoardStage::Ended));
        match (stage, event) {
            (BoardStage::Checking, BoardEvent::Clock { elapsed_ns, now }) => run.check(elapsed_ns, now),
            (BoardStage::Claiming { id, queue, batch }, BoardEvent::Placed { agent, at }) => {
                mark_claimed(&mut run.board, id.as_str());
                let mut batch = batch;
                let ghost old_batch = claims(batch@);
                let entry = Claim { id, agent, at };
                batch.push(entry);
                assert(claims(batch@) =~= old_batch.push(entry@));
                run.claim(queue, batch)
            },
            (
                BoardStage::Claiming { id: _, queue: _, batch: _ },
                BoardEvent::Unplaced { error },
            ) => (run, BoardAction::Fail { error }),
            (BoardStage::Handling { pending }, BoardEvent::CardReply { text, files }) => {
                assert(claims(pending@).len() == pending@.len());
                if pending.len() > 0 {
                    run.hear_reply(pending, text, files)
                } else {
                    (run.with_stage(BoardStage::Handling { pending }), BoardAction::Refused)
                }
            },
            (BoardStage::Handling { pending }, BoardEvent::CardFailed { error }) => {
                assert(claims(pending@).len() == pending@.len());
                if pending.len() > 0 {
                    run.hear_failure(pending, error)
                } else {
                    (run.with_stage(BoardStage::Handling { pending }), BoardAction::Refused)
                }
            },
            (
                BoardStage::Judging { claim, pending, note, used, limit },
                BoardEvent::Judged { pass, feedback },
            ) => if pass {
                run.finish(claim, pending, note)
            } else {
                run.send_back(claim, pending, note, used, limit, feedback)
            },
            (
                BoardStage::Judging { claim, pending, note, used: _, limit: _ },
                BoardEvent::NoJudge,
            ) => run.finish(claim, pending, note),
            (stage, _) => (run.with_stage(stage), BoardAction::Refused),
        }
    }
}

fn copy_claims(v: &Vec<Claim<String>>) -> (r: Vec<Claim<String>>)
    ensures
        claims(r@) == claims(v@),
{
    let mut r: Vec<Claim<String>> = Vec::new();
    let mut i: usize = 0;
    while i < v.len()
        invariant
            i <= v.len(),
            r.len() == i,
            forall|k: int| 0 <= k < i ==> (#[trigger] r@[k])@ == v@[k]@,
        decreases v.len() - i,
    {
        r.push(Claim { id: v[i].id.clone(), agent: v[i].agent.clone(), at: v[i].at });
        i += 1;
    }
    assert(claims(r@) =~= claims(v@));
    r
}

// ---------------------------------------------------------------------------
// Laws
// ---------------------------------------------------------------------------

/// The turn budget only counts down: a claim and a judgement cost one turn
/// each, and nothing else costs any.
pub proof fn law_claims_and_judgements_are_paid_for(r: BoardRunView, event: BoardEventView)
    ensures
        r.next(event).1 is Place || r.next(event).1 is Judge ==> r.next(event).0.budget.turns + 1
            == r.budget.turns,
        !(r.next(event).1 is Place || r.next(event).1 is Judge) ==> r.next(event).0.budget.turns
            == r.budget.turns,
{
}

/// A failed card never ends the run for the others: it is tried again while
/// its attempts are within its retries, and blocked after that.
pub proof fn law_failed_cards_are_retried_then_blocked(r: BoardRunView, error: Seq<char>, i: int)
    requires
        r.stage matches BoardStage::Handling { pending } && pending.len() > 0 && r.board.position(pending[0].id)
            == Some(i),
    ensures
        r.next(BoardEvent::CardFailed { error }).0.board.cards[i].status == if r.board.cards[i].attempts
            <= r.board.cards[i].max_retries {
            CardStatus::Todo
        } else {
            CardStatus::Blocked
        },
        !(r.next(BoardEvent::CardFailed { error }).0.stage is Ended),
{
    let pending = r.stage->Handling_pending;
    board::lemma_card_position(r.board, pending[0].id, 0);
}

/// A card that is not judged by goal is done as soon as its agent replied.
pub proof fn law_a_reply_completes_a_card_without_goal(r: BoardRunView, text: Seq<char>, files: usize, i: int)
    requires
        r.stage matches BoardStage::Handling { pending } && pending.len() > 0 && r.board.position(pending[0].id)
            == Some(i),
        !r.board.cards[i].goal,
    ensures
        r.next(BoardEvent::CardReply { text, files }).0.board.cards[i].status == CardStatus::Done,
        r.next(BoardEvent::CardReply { text, files }).0.board.cards[i].result == Some(note_of(text, files)),
{
    let pending = r.stage->Handling_pending;
    board::lemma_card_position(r.board, pending[0].id, 0);
}

/// No more cards are claimed at once than the caps allow.
pub proof fn law_a_batch_is_no_wider_than_the_caps(b: BoardView, now: Moment, caps: OrchestratorCaps)
    ensures
        card_ids(b, first_n(b.queue(now), width(caps))).len() <= width(caps),
{
}

/// A run that has ended does nothing any more.
pub proof fn law_an_ended_board_run_stays_ended(r: BoardRunView, event: BoardEventView)
    requires
        r.stage is Ended,
    ensures
        r.next(event) == (r, BoardAction::<Seq<char>, Seq<ClaimView>>::Refused),
{
}

/// The run after one attempt at a card: it is claimed, goes out, and fails.
pub open spec fn failed_attempt(r: BoardRunView, id: Seq<char>, agent: Seq<char>, at: Moment, error: Seq<char>) -> BoardRunView {
    let claiming = r.at(BoardStage::Claiming { id, queue: Seq::empty(), batch: Seq::empty() });
    let handling = claiming.next(BoardEvent::Placed { agent, at }).0;
    handling.next(BoardEvent::CardFailed { error }).0
}

/// The run after attempts at a card that all fail, each with its error.
pub open spec fn failed_attempts(
    r: BoardRunView,
    id: Seq<char>,
    agent: Seq<char>,
    at: Moment,
    errors: Seq<Seq<char>>,
) -> BoardRunView
    decreases errors.len(),
{
    if errors.len() == 0 {
        r
    } else {
        failed_attempt(failed_attempts(r, id, agent, at, errors.drop_last()), id, agent, at, errors.last())
    }
}

/// What a failed attempt adds to the history of a card: it crashed while there
/// are retries left, and is given up after that.
pub open spec fn failed_run(
    attempt: u32,
    max_retries: u32,
    agent: Seq<char>,
    at: Moment,
    error: Seq<char>,
) -> CardRunView {
    CardRunView {
        attempt,
        outcome: if attempt <= max_retries {
            "crashed"@
        } else {
            "gave_up"@
        },
        agent: Some(agent),
        summary: error,
        started_at: at,
    }
}

/// What a card says of its last attempt, which failed.
pub open spec fn failure_note(attempt: u32, max_retries: u32, error: Seq<char>) -> Seq<char> {
    if attempt <= max_retries {
        "attempt "@ + t::decimal(attempt as nat) + " failed: "@ + error
    } else {
        "failed: "@ + error
    }
}

/// A change that keeps the ids keeps the places of the cards.
proof fn lemma_position_kept(a: BoardView, b: BoardView, id: Seq<char>, i: int)
    requires
        0 <= i,
        a.cards.len() == b.cards.len(),
        forall|k: int| 0 <= k < a.cards.len() ==> (#[trigger] a.cards[k]).id == b.cards[k].id,
    ensures
        a.position_from(id, i) == b.position_from(id, i),
    decreases a.cards.len() - i,
{
    if i < a.cards.len() {
        assert(a.cards[i].id == b.cards[i].id);
        lemma_position_kept(a, b, id, i + 1);
    }
}

proof fn lemma_failed_attempt(r: BoardRunView, id: Seq<char>, agent: Seq<char>, at: Moment, error: Seq<char>, i: int)
    requires
        r.board.position(id) == Some(i),
        r.board.cards[i].attempts < u32::MAX,
    ensures
        ({
            let after = failed_attempt(r, id, agent, at, error);
            let card = r.board.cards[i];
            &&& after.board.position(id) == Some(i)
            &&& after.board.cards[i].attempts == card.attempts + 1
            &&& after.board.cards[i].max_retries == card.max_retries
            &&& after.board.cards[i].status == if card.attempts < card.max_retries {
                CardStatus::Todo
            } else {
                CardStatus::Blocked
            }
            &&& after.board.cards[i].block_kind == Some("transient"@)
            &&& after.board.cards[i].result == Some(
                failure_note((card.attempts + 1) as u32, card.max_retries, error),
            )
            &&& after.board.cards[i].runs == card.runs.push(
                failed_run((card.attempts + 1) as u32, card.max_retries, agent, at, error),
            )
            &&& after.stage is Checking
        }),
{
    board::lemma_card_position(r.board, id, 0);
    let claiming = r.at(BoardStage::Claiming { id, queue: Seq::empty(), batch: Seq::empty() });
    let handling = claiming.next(BoardEvent::Placed { agent, at }).0;
    let claim = Claim { id, agent, at };
    let pending = Seq::<ClaimView>::empty().push(claim);
    assert(handling.stage == (BoardStage::<Seq<char>, Seq<Seq<char>>, Seq<ClaimView>>::Handling { pending }));
    assert(handling.board.cards == r.board.cards.update(i, claimed(r.board.cards[i])));
    lemma_position_kept(r.board, handling.board, id, 0);
    let after = handling.next(BoardEvent::CardFailed { error }).0;
    assert(pending.skip(1) =~= Seq::<ClaimView>::empty());
    lemma_position_kept(handling.board, after.board, id, 0);
}

/// A card whose attempts all fail is tried once more than it has retries: until
/// then it goes back to do, and with the last attempt it ends blocked. Either
/// way the block is a transient one, the card says how it failed, and its
/// history has one more entry for each attempt: it crashed with each retry, and
/// was given up with the last.
pub proof fn law_a_failing_card_ends_blocked(
    r: BoardRunView,
    id: Seq<char>,
    agent: Seq<char>,
    at: Moment,
    errors: Seq<Seq<char>>,
    i: int,
)
    requires
        r.board.position(id) == Some(i),
        r.board.cards[i].attempts == 0,
        0 < errors.len() <= r.board.cards[i].max_retries + 1,
        errors.len() <= u32::MAX,
    ensures
        ({
            let before = r.board.cards[i];
            let card = failed_attempts(r, id, agent, at, errors).board.cards[i];
            &&& card.attempts == errors.len()
            &&& card.status == if errors.len() == before.max_retries + 1 {
                CardStatus::Blocked
            } else {
                CardStatus::Todo
            }
            &&& card.block_kind == Some("transient"@)
            &&& card.result == Some(failure_note(errors.len() as u32, before.max_retries, errors.last()))
            &&& card.runs == before.runs + Seq::new(
                errors.len(),
                |k: int| failed_run((k + 1) as u32, before.max_retries, agent, at, errors[k]),
            )
        }),
{
    lemma_failed_attempts(r, id, agent, at, errors, i);
}

proof fn lemma_failed_attempts(
    r: BoardRunView,
    id: Seq<char>,
    agent: Seq<char>,
    at: Moment,
    errors: Seq<Seq<char>>,
    i: int,
)
    requires
        r.board.position(id) == Some(i),
        r.board.cards[i].attempts == 0,
        errors.len() <= r.board.cards[i].max_retries + 1,
        errors.len() <= u32::MAX,
    ensures
        ({
            let after = failed_attempts(r, id, agent, at, errors);
            &&& after.board.position(id) == Some(i)
            &&& after.board.cards[i].attempts == errors.len()
            &&& after.board.cards[i].max_retries == r.board.cards[i].max_retries
            &&& errors.len() > 0 ==> after.board.cards[i].status == if errors.len()
                == r.board.cards[i].max_retries + 1 {
                CardStatus::Blocked
            } else {
                CardStatus::Todo
            }
            &&& errors.len() > 0 ==> after.board.cards[i].block_kind == Some("transient"@)
            &&& errors.len() > 0 ==> after.board.cards[i].result == Some(
                failure_note(errors.len() as u32, r.board.cards[i].max_retries, errors.last()),
            )
            &&& after.board.cards[i].runs == r.board.cards[i].runs + Seq::new(
                errors.len(),
                |k: int| failed_run((k + 1) as u32, r.board.cards[i].max_retries, agent, at, errors[k]),
            )
        }),
    decreases errors.len(),
{
    if errors.len() > 0 {
        lemma_failed_attempts(r, id, agent, at, errors.drop_last(), i);
        lemma_failed_attempt(
            failed_attempts(r, id, agent, at, errors.drop_last()),
            id,
            agent,
            at,
            errors.last(),
            i,
        );
        let entry = |k: int| failed_run((k + 1) as u32, r.board.cards[i].max_retries, agent, at, errors[k]);
        let last = errors.len() - 1;
        assert(Seq::new(errors.len(), entry) =~= Seq::new(last as nat, entry).push(entry(last)));
    }
}

/// Card `i` is the one that an id stands for: the first that has it.
pub open spec fn stands_for(b: BoardView, id: Seq<char>, i: int) -> bool {
    &&& 0 <= i < b.cards.len()
    &&& b.cards[i].id == id
    &&& forall|j: int| 0 <= j < i ==> (#[trigger] b.cards[j]).id != id
}

proof fn lemma_stands_for(b: BoardView, id: Seq<char>, i: int, from: int)
    requires
        stands_for(b, id, i),
        0 <= from <= i,
    ensures
        b.position_from(id, from) == Some(i),
    decreases i - from,
{
    if from < i {
        assert(b.cards[from].id != id);
        lemma_stands_for(b, id, i, from + 1);
    }
}

/// Where a run goes on behind a card: with the next outcome, or at the top of
/// the loop.
pub open spec fn goes_on_with(stage: BoardStageView, pending: Seq<ClaimView>) -> bool {
    if pending.len() == 0 {
        stage is Checking
    } else {
        stage == (BoardStage::<Seq<char>, Seq<Seq<char>>, Seq<ClaimView>>::Handling { pending })
    }
}

/// A result that the judge rejects does not stand: the card is to do again, with
/// the judge's words as a comment, and one of its rounds is used up. So what
/// depends on it still waits, and the board is not complete.
pub proof fn law_a_rejected_card_is_run_again(r: BoardRunView, feedback: Seq<char>, i: int)
    requires
        r.stage is Judging,
        r.stage->Judging_used < u32::MAX,
        stands_for(r.board, r.stage->Judging_claim.id, i),
    ensures
        ({
            let claim = r.stage->Judging_claim;
            let round = (r.stage->Judging_used + 1) as u32;
            let limit = r.stage->Judging_limit;
            let (after, action) = r.next(BoardEvent::Judged { pass: false, feedback });
            let before = r.board.cards[i];
            let card = after.board.cards[i];
            &&& card.status == CardStatus::Todo
            &&& card.result == Some(r.stage->Judging_note)
            &&& card.deps == before.deps
            &&& card.scheduled_at == before.scheduled_at
            &&& card.attempts == before.attempts
            &&& card.goal == before.goal
            &&& card.comments == before.comments.push(
                board::CommentView {
                    author: "goal-judge"@,
                    body: "Not yet ("@ + t::decimal(round as nat) + "/"@ + t::decimal(limit as nat) + "). "@
                        + feedback,
                },
            )
            &&& card.runs == before.runs.push(
                CardRunView {
                    attempt: before.attempts,
                    outcome: "revise"@,
                    agent: Some(claim.agent),
                    summary: feedback,
                    started_at: claim.at,
                },
            )
            &&& !after.board.complete()
            &&& after.rounds.len() > 0 && after.rounds.last() == (claim.id, round)
            &&& action == (BoardAction::<Seq<char>, Seq<ClaimView>>::CardRevise {
                id: claim.id,
                feedback,
                round,
                limit,
            })
            &&& goes_on_with(after.stage, r.stage->Judging_pending)
        }),
{
    lemma_stands_for(r.board, r.stage->Judging_claim.id, i, 0);
    let after = r.next(BoardEvent::Judged { pass: false, feedback }).0;
    assert(after.board.cards[i].status == CardStatus::Todo);
}

/// A result that the judge accepts, or that nobody can judge, is the result of
/// its card, and the card is done.
pub proof fn law_an_accepted_card_is_done(r: BoardRunView, event: BoardEventView, i: int)
    requires
        r.stage is Judging,
        event is NoJudge || (event matches BoardEvent::Judged { pass, .. } && pass),
        stands_for(r.board, r.stage->Judging_claim.id, i),
    ensures
        ({
            let claim = r.stage->Judging_claim;
            let note = r.stage->Judging_note;
            let (after, action) = r.next(event);
            let before = r.board.cards[i];
            let card = after.board.cards[i];
            &&& card.status == CardStatus::Done
            &&& card.result == Some(note)
            &&& card.block_kind is None
            &&& card.comments == before.comments
            &&& card.runs == before.runs.push(
                CardRunView {
                    attempt: before.attempts,
                    outcome: "completed"@,
                    agent: Some(claim.agent),
                    summary: note,
                    started_at: claim.at,
                },
            )
            &&& action == (BoardAction::<Seq<char>, Seq<ClaimView>>::CardDone {
                id: claim.id,
                agent: claim.agent,
                note,
                deliver: before.deliver,
            })
            &&& goes_on_with(after.stage, r.stage->Judging_pending)
        }),
{
    lemma_stands_for(r.board, r.stage->Judging_claim.id, i, 0);
}

/// How many rounds a card has had: the number that was written down last.
pub open spec fn rounds_had(rounds: Seq<(Seq<char>, u32)>, id: Seq<char>, n: u32) -> bool {
    ||| n == 0 && forall|k: int| 0 <= k < rounds.len() ==> (#[trigger] rounds[k]).0 != id
    ||| exists|k: int|
        0 <= k < rounds.len() && #[trigger] rounds[k] == (id, n) && forall|m: int|
            k < m < rounds.len() ==> (#[trigger] rounds[m]).0 != id
}

proof fn lemma_rounds_had(rounds: Seq<(Seq<char>, u32)>, id: Seq<char>, n: u32)
    requires
        rounds_had(rounds, id, n),
    ensures
        rounds_of(rounds, id) == n,
    decreases rounds.len(),
{
    if rounds.len() > 0 && rounds.last().0 != id {
        let front = rounds.drop_last();
        if forall|k: int| 0 <= k < rounds.len() ==> (#[trigger] rounds[k]).0 != id {
            assert forall|k: int| 0 <= k < front.len() implies (#[trigger] front[k]).0 != id by {
                assert(rounds[k].0 != id);
            }
        } else {
            let k = choose|k: int|
                0 <= k < rounds.len() && #[trigger] rounds[k] == (id, n) && forall|m: int|
                    k < m < rounds.len() ==> (#[trigger] rounds[m]).0 != id;
            assert(front[k] == (id, n));
            assert forall|m: int| k < m < front.len() implies (#[trigger] front[m]).0 != id by {
                assert(rounds[m].0 != id);
            }
        }
        assert(rounds_had(front, id, n));
        lemma_rounds_had(front, id, n);
    } else if rounds.len() > 0 {
        assert(rounds[rounds.len() - 1].0 == id);
    }
}

/// The text of a result: what the agent replied, but for the white space around
/// it, and a note of the files that came with it.
pub open spec fn reads_as(note: Seq<char>, text: Seq<char>, files: usize) -> bool {
    &&& files == 0 ==> note == t::trimmed(text)
    &&& files > 0 ==> note == t::trimmed(text) + "\n[+"@ + t::decimal(files as nat) + " file(s) collected]"@
}

proof fn lemma_reads_as(text: Seq<char>, files: usize)
    requires
        !t::has(text, "[[ORCH_DONE]]"@),
    ensures
        reads_as(note_of(text, files), text, files),
{
    let marker = "[[ORCH_DONE]]"@;
    t::lemma_find_has(text, marker);
    assert(t::pieces(text, marker) =~= seq![text]);
    assert(t::joined(seq![text], Seq::empty()) =~= text) by {
        reveal_with_fuel(t::joined, 3);
    }
}

/// A card with a goal is shown to the judge as long as it has rounds left and
/// the run a turn: the judge role, or else the agent itself, is given the card's
/// title and detail and the result. Until then the card does not change. It has
/// five rounds where it says nothing else.
pub proof fn law_a_goal_card_is_judged(
    r: BoardRunView,
    text: Seq<char>,
    files: usize,
    used: u32,
    i: int,
)
    requires
        r.stage matches BoardStage::Handling { pending } && pending.len() > 0 && stands_for(
            r.board,
            pending[0].id,
            i,
        ) && rounds_had(r.rounds, pending[0].id, used),
        r.board.cards[i].goal,
        used < if r.board.cards[i].goal_max_turns == 0 {
            5
        } else {
            r.board.cards[i].goal_max_turns
        },
        r.budget.turns > 0,
        !t::has(text, "[[ORCH_DONE]]"@),
    ensures
        ({
            let pending = r.stage->Handling_pending;
            let card = r.board.cards[i];
            let (after, action) = r.next(BoardEvent::CardReply { text, files });
            &&& after.board == r.board
            &&& action matches BoardAction::Judge { judge, title, detail, result } && {
                &&& judge == match r.judge {
                    Some(role) => role,
                    None => pending[0].agent,
                }
                &&& title == card.title
                &&& detail == card.detail
                &&& reads_as(result, text, files)
            }
            &&& after.stage matches BoardStage::Judging { claim, pending: rest, note, used: u, limit } && {
                &&& claim == pending[0]
                &&& rest == pending.skip(1)
                &&& reads_as(note, text, files)
                &&& u == used
                &&& limit == if card.goal_max_turns == 0 {
                    5
                } else {
                    card.goal_max_turns
                }
            }
        }),
{
    let pending = r.stage->Handling_pending;
    lemma_stands_for(r.board, pending[0].id, i, 0);
    lemma_rounds_had(r.rounds, pending[0].id, used);
    lemma_reads_as(text, files);
}

/// A card that is not to be judged, or has no round or turn left for it, is done
/// with what its agent replied.
pub proof fn law_a_reply_is_the_result_of_its_card(
    r: BoardRunView,
    text: Seq<char>,
    files: usize,
    used: u32,
    i: int,
)
    requires
        r.stage matches BoardStage::Handling { pending } && pending.len() > 0 && stands_for(
            r.board,
            pending[0].id,
            i,
        ) && rounds_had(r.rounds, pending[0].id, used),
        !r.board.cards[i].goal || r.budget.turns == 0 || used >= if r.board.cards[i].goal_max_turns == 0 {
            5
        } else {
            r.board.cards[i].goal_max_turns
        },
        !t::has(text, "[[ORCH_DONE]]"@),
    ensures
        ({
            let pending = r.stage->Handling_pending;
            let before = r.board.cards[i];
            let (after, action) = r.next(BoardEvent::CardReply { text, files });
            let card = after.board.cards[i];
            &&& card.status == CardStatus::Done
            &&& card.block_kind is None
            &&& card.result matches Some(note) && reads_as(note, text, files)
            &&& action matches BoardAction::CardDone { id, agent, note, deliver } && {
                &&& id == pending[0].id
                &&& agent == pending[0].agent
                &&& deliver == before.deliver
                &&& reads_as(note, text, files)
            }
            &&& card.runs.len() == before.runs.len() + 1 && card.runs.last().outcome == "completed"@
            &&& goes_on_with(after.stage, pending.skip(1))
        }),
{
    let pending = r.stage->Handling_pending;
    lemma_stands_for(r.board, pending[0].id, i, 0);
    lemma_rounds_had(r.rounds, pending[0].id, used);
    lemma_reads_as(text, files);
}

/// A card that failed is reported with its error: as one that is tried again, or
/// as one that is blocked once its attempts exceed its retries.
pub proof fn law_a_failure_is_reported_with_its_card(r: BoardRunView, error: Seq<char>, i: int)
    requires
        r.stage matches BoardStage::Handling { pending } && pending.len() > 0 && stands_for(
            r.board,
            pending[0].id,
            i,
        ),
    ensures
        ({
            let pending = r.stage->Handling_pending;
            let card = r.board.cards[i];
            let (after, action) = r.next(BoardEvent::CardFailed { error });
            &&& card.attempts <= card.max_retries ==> after.board.cards[i].status == CardStatus::Todo && action == (
            BoardAction::<Seq<char>, Seq<ClaimView>>::CardRetry {
                id: card.id,
                error,
                attempts: card.attempts,
                tries: (card.max_retries + 1) as u64,
            })
            &&& card.attempts > card.max_retries ==> after.board.cards[i].status == CardStatus::Blocked && action == (
            BoardAction::<Seq<char>, Seq<ClaimView>>::CardBlocked { id: card.id, error })
            &&& goes_on_with(after.stage, pending.skip(1))
        }),
{
    lemma_stands_for(r.board, r.stage->Handling_pending[0].id, i, 0);
}

/// A card that an agent was found for is at work with that agent, with one more
/// attempt. Then the next card is claimed, and when none is left, or no turn to
/// pay for it, the claimed cards go out together.
pub proof fn law_a_placed_card_is_at_work(r: BoardRunView, agent: Seq<char>, at: Moment, i: int)
    requires
        r.stage is Claiming,
        stands_for(r.board, r.stage->Claiming_id, i),
        r.board.cards[i].attempts < u32::MAX,
    ensures
        ({
            let id = r.stage->Claiming_id;
            let queue = r.stage->Claiming_queue;
            let batch = r.stage->Claiming_batch.push(Claim { id, agent, at });
            let (after, action) = r.next(BoardEvent::Placed { agent, at });
            &&& after.board.cards[i] == (CardView {
                status: CardStatus::Doing,
                attempts: (r.board.cards[i].attempts + 1) as u32,
                ..r.board.cards[i]
            })
            &&& queue.len() > 0 && r.budget.turns > 0 ==> {
                &&& action matches BoardAction::Place { id, .. } && id == queue[0]
                &&& after.stage == (BoardStage::<Seq<char>, Seq<Seq<char>>, Seq<ClaimView>>::Claiming {
                    id: queue[0],
                    queue: queue.skip(1),
                    batch,
                })
            }
            &&& queue.len() == 0 || r.budget.turns == 0 ==> {
                &&& action == (BoardAction::<Seq<char>, Seq<ClaimView>>::Dispatch { batch })
                &&& after.stage == (BoardStage::<Seq<char>, Seq<Seq<char>>, Seq<ClaimView>>::Handling {
                    pending: batch,
                })
            }
        }),
{
    lemma_stands_for(r.board, r.stage->Claiming_id, i, 0);
}

/// Where no agent can be found for a card, the run fails with the reason, and
/// no card is changed.
pub proof fn law_an_unplaced_card_fails_the_run(r: BoardRunView, error: Seq<char>)
    requires
        r.stage is Claiming,
    ensures
        r.next(BoardEvent::Unplaced { error }).1 == (BoardAction::<Seq<char>, Seq<ClaimView>>::Fail { error }),
        r.next(BoardEvent::Unplaced { error }).0.stage is Ended,
        r.next(BoardEvent::Unplaced { error }).0.board == r.board,
{
}

/// A card is to do, its time has come, and each card that it depends on is done.
pub open spec fn may_run(b: BoardView, k: int, now: Moment) -> bool {
    &&& 0 <= k < b.cards.len()
    &&& b.cards[k].status == CardStatus::Todo
    &&& b.cards[k].scheduled_at matches Some(at) ==> at.seconds < now.seconds || (at.seconds == now.seconds
        && at.nanos <= now.nanos)
    &&& forall|d: int| 0 <= d < b.cards[k].deps.len() ==> finished_card(b, #[trigger] b.cards[k].deps[d])
}

/// Some card with this id is done.
pub open spec fn finished_card(b: BoardView, id: Seq<char>) -> bool {
    exists|j: int|
        0 <= j < b.cards.len() && (#[trigger] b.cards[j]).id == id && b.cards[j].status == CardStatus::Done
}

proof fn lemma_may_run(b: BoardView, k: int, now: Moment)
    requires
        0 <= k < b.cards.len(),
    ensures
        may_run(b, k, now) <==> b.runnable(b.cards[k], now),
{
    assert forall|id: Seq<char>| #[trigger] finished_card(b, id) == b.done(id) by {}
    let c = b.cards[k];
    if may_run(b, k, now) {
        assert forall|d: int| 0 <= d < c.deps.len() implies b.done(#[trigger] c.deps[d]) by {
            assert(finished_card(b, b.cards[k].deps[d]));
        }
    }
}

/// The cards that a pass claims are those that may run, the most urgent first
/// and of equals the earlier one, and no more than may run at once: whatever is
/// left out is no more urgent than what is claimed.
pub proof fn law_the_most_urgent_cards_are_claimed(r: BoardRunView, elapsed_ns: u64, now: Moment, k: int)
    requires
        r.stage is Checking,
        r.next(BoardEvent::Clock { elapsed_ns, now }).1 is Place,
        may_run(r.board, k, now),
    ensures
        ({
            let (after, action) = r.next(BoardEvent::Clock { elapsed_ns, now });
            let most = if r.caps.max_parallel == 0 {
                1nat
            } else {
                r.caps.max_parallel as nat
            };
            &&& after.board == r.board
            &&& after.stage matches BoardStage::Claiming { id, queue, batch } && {
                let taken = seq![id] + queue;
                &&& action->Place_id == id
                &&& batch.len() == 0
                &&& taken.len() <= most
                &&& exists|first: int|
                    #[trigger] may_run(r.board, first, now) && r.board.cards[first].id == id && (first == k
                        || r.board.cards[first].priority > r.board.cards[k].priority || (
                    r.board.cards[first].priority == r.board.cards[k].priority && first < k))
                &&& forall|m: int|
                    0 <= m < taken.len() ==> exists|n: int|
                        #[trigger] may_run(r.board, n, now) && r.board.cards[n].id == #[trigger] taken[m]
                &&& taken.contains(r.board.cards[k].id) || taken.len() == most
            }
        }),
{
    let (after, action) = r.next(BoardEvent::Clock { elapsed_ns, now });
    let order = r.board.queue(now);
    let most = width(r.caps);
    let chosen = first_n(order, most);
    let ids = card_ids(r.board, chosen);
    let id = after.stage->Claiming_id;
    let queue = after.stage->Claiming_queue;
    let taken = seq![id] + queue;
    assert(taken =~= ids);
    board::law_queue_holds_the_runnable_cards(r.board, now);
    lemma_may_run(r.board, k, now);
    assert(order.contains(k));
    let at = choose|at: int| 0 <= at < order.len() && order[at] == k;
    let first = order[0];
    assert(order.contains(first));
    lemma_may_run(r.board, first, now);
    assert(chosen[0] == first);
    assert(taken[0] == r.board.cards[first].id);
    if at > 0 {
        board::law_queue_is_ordered_by_priority(r.board, now, 0, at);
    }
    assert(may_run(r.board, first, now));
    assert forall|m: int| 0 <= m < taken.len() implies exists|n: int|
        #[trigger] may_run(r.board, n, now) && r.board.cards[n].id == #[trigger] taken[m] by {
        let n = order[m];
        assert(chosen[m] == n);
        assert(order.contains(n));
        lemma_may_run(r.board, n, now);
        assert(taken[m] == ids[m]);
        assert(may_run(r.board, n, now));
    }
    if at < chosen.len() {
        assert(chosen[at] == k);
        assert(taken[at] == r.board.cards[k].id);
    }
}

/// The first card of a pass goes to the agent that it is assigned to.
pub proof fn law_a_card_goes_to_its_assignee(r: BoardRunView, event: BoardEventView, i: int)
    requires
        r.stage is Checking,
        r.next(event).1 is Place,
        stands_for(r.board, r.next(event).1->Place_id, i),
    ensures
        r.next(event).1->Place_assignee == r.board.cards[i].assignee,
{
    lemma_stands_for(r.board, r.next(event).1->Place_id, i, 0);
}

/// Why a board run ends is said: its passes, its time or its turns are used up,
/// every card is done or archived, or nothing may run any more, with cards left
/// to do or without.
pub proof fn law_a_board_run_says_why_it_ends(r: BoardRunView, elapsed_ns: u64, now: Moment)
    requires
        r.stage is Checking,
    ensures
        ({
            let (after, action) = r.next(BoardEvent::Clock { elapsed_ns, now });
            let late = elapsed_ns >= r.caps.max_wall_seconds * 1_000_000_000;
            let over = forall|i: int|
                0 <= i < r.board.cards.len() ==> (#[trigger] r.board.cards[i]).status == CardStatus::Done
                    || r.board.cards[i].status == CardStatus::Archived;
            let idle = forall|k: int| !#[trigger] may_run(r.board, k, now);
            let left = exists|i: int|
                0 <= i < r.board.cards.len() && (#[trigger] r.board.cards[i]).status == CardStatus::Todo;
            let ends = |why: BoardEnd|
                after.stage is Ended && action == (BoardAction::<Seq<char>, Seq<ClaimView>>::End { why });
            &&& after.board == r.board
            &&& r.budget.ticks == 0 ==> ends(BoardEnd::TickCeiling)
            &&& r.budget.ticks > 0 && late ==> ends(BoardEnd::WallClock)
            &&& r.budget.ticks > 0 && !late && r.budget.turns == 0 ==> ends(BoardEnd::TurnBudget)
            &&& r.budget.ticks > 0 && !late && r.budget.turns > 0 ==> {
                &&& over ==> ends(BoardEnd::Complete)
                &&& !over && idle && left ==> ends(BoardEnd::Stuck)
                &&& !over && idle && !left ==> ends(BoardEnd::Drained)
                &&& !over && !idle ==> action is Place
            }
        }),
{
    let order = r.board.queue(now);
    board::law_queue_holds_the_runnable_cards(r.board, now);
    if forall|k: int| !#[trigger] may_run(r.board, k, now) {
        if order.len() > 0 {
            assert(order.contains(order[0]));
            lemma_may_run(r.board, order[0], now);
        }
    } else {
        let k = choose|k: int| #[trigger] may_run(r.board, k, now);
        lemma_may_run(r.board, k, now);
        assert(order.contains(k));
    }
    lemma_tally(r.board, CardStatus::Todo, r.board.cards.len() as int);
}

proof fn lemma_tally(b: BoardView, status: CardStatus, n: int)
    requires
        0 <= n <= b.cards.len(),
    ensures
        b.tally(status, n) > 0 <==> exists|i: int| 0 <= i < n && (#[trigger] b.cards[i]).status == status,
    decreases n,
{
    if n > 0 {
        lemma_tally(b, status, n - 1);
    }
}

/// The card that an event is about.
pub open spec fn card_at_work(r: BoardRunView) -> Option<Seq<char>> {
    match r.stage {
        BoardStage::Claiming { id, .. } => Some(id),
        BoardStage::Handling { pending } => if pending.len() > 0 {
            Some(pending[0].id)
        } else {
            None
        },
        BoardStage::Judging { claim, .. } => Some(claim.id),
        _ => None,
    }
}

/// An event changes at most the card it is about, and never the board's name,
/// the caps or who judges. An event that is refused changes nothing.
pub proof fn law_only_the_card_at_work_changes(r: BoardRunView, event: BoardEventView, i: int)
    requires
        0 <= i < r.board.cards.len(),
        card_at_work(r) matches Some(id) ==> r.board.cards[i].id != id,
    ensures
        r.next(event).0.board.cards.len() == r.board.cards.len(),
        r.next(event).0.board.cards[i] == r.board.cards[i],
        r.next(event).0.board.name == r.board.name,
        r.next(event).0.caps == r.caps,
        r.next(event).0.judge == r.judge,
        r.next(event).1 is Refused ==> r.next(event).0 == r,
{
    match card_at_work(r) {
        Some(id) => {
            board::lemma_card_position(r.board, id, 0);
        },
        None => {},
    }
}

} // verus!
