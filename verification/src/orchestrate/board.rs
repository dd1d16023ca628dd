//! A durable board of cards that a dispatcher runs across agents.

use crate::text as t;
use vstd::prelude::*;
use vstd::string::*;

verus! {

#[derive(Clone, Copy, Debug, PartialEq, Eq, Structural)]
pub enum CardStatus {
    Triage,
    Todo,
    Doing,
    Done,
    Blocked,
    Archived,
}

impl CardStatus {
    pub open spec fn name(self) -> Seq<char> {
        match self {
            CardStatus::Triage => "triage"@,
            CardStatus::Todo => "todo"@,
            CardStatus::Doing => "doing"@,
            CardStatus::Done => "done"@,
            CardStatus::Blocked => "blocked"@,
            CardStatus::Archived => "archived"@,
        }
    }

    pub fn label(&self) -> (r: &'static str)
        ensures
            r@ == self.name(),
    {
        match self {
            CardStatus::Triage => "triage",
            CardStatus::Todo => "todo",
            CardStatus::Doing => "doing",
            CardStatus::Done => "done",
            CardStatus::Blocked => "blocked",
            CardStatus::Archived => "archived",
        }
    }

    /// The status of this name.
    pub open spec fn named(s: Seq<char>) -> Option<CardStatus> {
        if s == "triage"@ {
            Some(CardStatus::Triage)
        } else if s == "todo"@ {
            Some(CardStatus::Todo)
        } else if s == "doing"@ {
            Some(CardStatus::Doing)
        } else if s == "done"@ {
            Some(CardStatus::Done)
        } else if s == "blocked"@ {
            Some(CardStatus::Blocked)
        } else if s == "archived"@ {
            Some(CardStatus::Archived)
        } else {
            None
        }
    }

    pub fn parse(s: &str) -> (r: Option<CardStatus>)
        ensures
            r == CardStatus::named(s@),
    {
        if t::same(s, "triage") {
            Some(CardStatus::Triage)
        } else if t::same(s, "todo") {
            Some(CardStatus::Todo)
        } else if t::same(s, "doing") {
            Some(CardStatus::Doing)
        } else if t::same(s, "done") {
            Some(CardStatus::Done)
        } else if t::same(s, "blocked") {
            Some(CardStatus::Blocked)
        } else if t::same(s, "archived") {
            Some(CardStatus::Archived)
        } else {
            None
        }
    }
}

/// A status is read back from its name.
pub proof fn law_status_names_are_read_back(status: CardStatus)
    ensures
        CardStatus::named(status.name()) == Some(status),
{
    reveal_strlit("triage");
    reveal_strlit("todo");
    reveal_strlit("doing");
    reveal_strlit("done");
    reveal_strlit("blocked");
    reveal_strlit("archived");
    assert("triage"@.len() == 6);
    assert("todo"@.len() == 4);
    assert("doing"@.len() == 5);
    assert("done"@.len() == 4 && "done"@[0] == 'd' && "todo"@[0] == 't');
    assert("blocked"@.len() == 7);
    assert("archived"@.len() == 8);
}

/// A point in time: seconds since the epoch, and nanoseconds.
#[derive(Clone, Copy, Debug, PartialEq, Eq, Structural)]
pub struct Moment {
    pub seconds: i64,
    pub nanos: u32,
}

impl Moment {
    pub open spec fn no_later_than(self, other: Moment) -> bool {
        self.seconds < other.seconds || (self.seconds == other.seconds && self.nanos <= other.nanos)
    }

    pub fn is_no_later_than(&self, other: &Moment) -> (r: bool)
        ensures
            r == self.no_later_than(*other),
    {
        self.seconds < other.seconds || (self.seconds == other.seconds && self.nanos <= other.nanos)
    }
}

#[derive(Debug, PartialEq, Eq)]
pub struct Comment {
    pub author: String,
    pub body: String,
}

/// One time that a card ran.
#[derive(Debug, PartialEq, Eq)]
pub struct CardRun {
    pub attempt: u32,
    pub outcome: String,
    pub agent: Option<String>,
    pub summary: String,
    pub started_at: Moment,
}

#[derive(Debug, PartialEq, Eq)]
pub struct Card {
    pub id: String,
    pub title: String,
    pub detail: String,
    pub assignee: Option<String>,
    pub deps: Vec<String>,
    pub priority: i64,
    pub tenant: Option<String>,
    pub scheduled_at: Option<Moment>,
    pub max_retries: u32,
    pub goal: bool,
    pub goal_max_turns: u32,
    pub status: CardStatus,
    pub result: Option<String>,
    pub attempts: u32,
    pub block_kind: Option<String>,
    pub comments: Vec<Comment>,
    pub runs: Vec<CardRun>,
    pub deliver: Option<String>,
}

#[derive(Debug, PartialEq, Eq)]
pub struct Board {
    pub name: String,
    pub cards: Vec<Card>,
}

pub struct CommentView {
    pub author: Seq<char>,
    pub body: Seq<char>,
}

pub struct CardRunView {
    pub attempt: u32,
    pub outcome: Seq<char>,
    pub agent: Option<Seq<char>>,
    pub summary: Seq<char>,
    pub started_at: Moment,
}

/// What a card holds.
pub struct CardView {
    pub id: Seq<char>,
    pub title: Seq<char>,
    pub detail: Seq<char>,
    pub assignee: Option<Seq<char>>,
    pub deps: Seq<Seq<char>>,
    pub priority: i64,
    pub tenant: Option<Seq<char>>,
    pub scheduled_at: Option<Moment>,
    pub max_retries: u32,
    pub goal: bool,
    pub goal_max_turns: u32,
    pub status: CardStatus,
    pub result: Option<Seq<char>>,
    pub attempts: u32,
    pub block_kind: Option<Seq<char>>,
    pub comments: Seq<CommentView>,
    pub runs: Seq<CardRunView>,
    pub deliver: Option<Seq<char>>,
}

/// What a board holds.
pub struct BoardView {
    pub name: Seq<char>,
    pub cards: Seq<CardView>,
}

impl View for Comment {
    type V = CommentView;

    open spec fn view(&self) -> CommentView {
        CommentView { author: self.author@, body: self.body@ }
    }
}

impl View for CardRun {
    type V = CardRunView;

    open spec fn view(&self) -> CardRunView {
        CardRunView {
            attempt: self.attempt,
            outcome: self.outcome@,
            agent: t::opt_view(self.agent),
            summary: self.summary@,
            started_at: self.started_at,
        }
    }
}

impl View for Card {
    type V = CardView;

    open spec fn view(&self) -> CardView {
        CardView {
            id: self.id@,
            title: self.title@,
            detail: self.detail@,
            assignee: t::opt_view(self.assignee),
            deps: t::texts(self.deps@),
            priority: self.priority,
            tenant: t::opt_view(self.tenant),
            scheduled_at: self.scheduled_at,
            max_retries: self.max_retries,
            goal: self.goal,
            goal_max_turns: self.goal_max_turns,
            status: self.status,
            result: t::opt_view(self.result),
            attempts: self.attempts,
            block_kind: t::opt_view(self.block_kind),
            comments: self.comments@.map_values(|c: Comment| c@),
            runs: self.runs@.map_values(|r: CardRun| r@),
            deliver: t::opt_view(self.deliver),
        }
    }
}

pub open spec fn card_views(v: Seq<Card>) -> Seq<CardView> {
    v.map_values(|c: Card| c@)
}

impl View for Board {
    type V = BoardView;

    open spec fn view(&self) -> BoardView {
        BoardView { name: self.name@, cards: card_views(self.cards@) }
    }
}

// ---------------------------------------------------------------------------
// Looking at a board
// ---------------------------------------------------------------------------

impl BoardView {
    pub open spec fn position_from(self, id: Seq<char>, i: int) -> Option<int>
        decreases self.cards.len() - i,
    {
        if i < 0 || i >= self.cards.len() {
            None
        } else if self.cards[i].id == id {
            Some(i)
        } else {
            self.position_from(id, i + 1)
        }
    }

    /// The position of the first card with this id.
    pub open spec fn position(self, id: Seq<char>) -> Option<int> {
        self.position_from(id, 0)
    }

    pub open spec fn card(self, id: Seq<char>) -> Option<CardView> {
        match self.position(id) {
            Some(i) => Some(self.cards[i]),
            None => None,
        }
    }

    /// The board with the first card of this id replaced.
    pub open spec fn with_card(self, id: Seq<char>, change: spec_fn(CardView) -> CardView) -> BoardView {
        match self.position(id) {
            Some(i) => BoardView { name: self.name, cards: self.cards.update(i, change(self.cards[i])) },
            None => self,
        }
    }

    /// How many of the first `n` cards have this status.
    pub open spec fn tally(self, status: CardStatus, n: int) -> nat
        decreases n,
    {
        if n <= 0 || n > self.cards.len() {
            0
        } else {
            self.tally(status, n - 1) + if self.cards[n - 1].status == status {
                1nat
            } else {
                0
            }
        }
    }

    pub open spec fn count(self, status: CardStatus) -> nat {
        self.tally(status, self.cards.len() as int)
    }

    pub open spec fn done(self, id: Seq<char>) -> bool {
        exists|j: int|
            0 <= j < self.cards.len() && (#[trigger] self.cards[j]).id == id && self.cards[j].status
                == CardStatus::Done
    }

    /// A card can run when it is to do, its time has come, and everything it
    /// depends on is done.
    pub open spec fn runnable(self, c: CardView, now: Moment) -> bool {
        &&& c.status == CardStatus::Todo
        &&& c.scheduled_at matches Some(at) ==> at.no_later_than(now)
        &&& forall|k: int| 0 <= k < c.deps.len() ==> self.done(#[trigger] c.deps[k])
    }

    /// Nothing is left to do: every card is done or archived.
    pub open spec fn complete(self) -> bool {
        forall|i: int|
            0 <= i < self.cards.len() ==> (#[trigger] self.cards[i]).status == CardStatus::Done
                || self.cards[i].status == CardStatus::Archived
    }
}

pub proof fn lemma_card_position(b: BoardView, id: Seq<char>, i: int)
    requires
        0 <= i,
    ensures
        b.position_from(id, i) matches Some(k) ==> i <= k < b.cards.len() && b.cards[k].id == id,
        b.position_from(id, i) is None ==> forall|k: int|
            i <= k < b.cards.len() ==> (#[trigger] b.cards[k]).id != id,
    decreases b.cards.len() - i,
{
    if i < b.cards.len() && b.cards[i].id != id {
        lemma_card_position(b, id, i + 1);
    }
}

impl Board {
    /// The position of the first card with this id.
    pub fn find_card(&self, id: &str) -> (r: Option<usize>)
        ensures
            r is Some <==> self@.position(id@) is Some,
            r matches Some(k) ==> self@.position(id@) == Some(k as int) && k < self.cards.len() && self@.card(
                id@,
            ) == Some(self.cards@[k as int]@),
    {
        let mut i: usize = 0;
        while i < self.cards.len()
            invariant
                i <= self.cards.len(),
                self@.position(id@) == self@.position_from(id@, i as int),
            decreases self.cards.len() - i,
        {
            assert(self@.cards[i as int] == self.cards@[i as int]@);
            if t::same(self.cards[i].id.as_str(), id) {
                return Some(i);
            }
            i += 1;
        }
        None
    }

    pub fn count(&self, status: CardStatus) -> (r: usize)
        ensures
            r == self@.count(status),
            r <= self.cards.len(),
    {
        let mut n: usize = 0;
        let mut i: usize = 0;
        while i < self.cards.len()
            invariant
                i <= self.cards.len(),
                n == self@.tally(status, i as int),
                n <= i,
            decreases self.cards.len() - i,
        {
            assert(self@.cards[i as int].status == self.cards@[i as int].status);
            if self.cards[i].status == status {
                n += 1;
            }
            i += 1;
        }
        n
    }

    /// How many cards are to do, at work, done and blocked.
    pub fn counts(&self) -> (r: (usize, usize, usize, usize))
        ensures
            r.0 == self@.count(CardStatus::Todo),
            r.1 == self@.count(CardStatus::Doing),
            r.2 == self@.count(CardStatus::Done),
            r.3 == self@.count(CardStatus::Blocked),
    {
        (
            self.count(CardStatus::Todo),
            self.count(CardStatus::Doing),
            self.count(CardStatus::Done),
            self.count(CardStatus::Blocked),
        )
    }

    pub fn is_complete(&self) -> (r: bool)
        ensures
            r == self@.complete(),
    {
        let mut i: usize = 0;
        while i < self.cards.len()
            invariant
                i <= self.cards.len(),
                forall|k: int|
                    0 <= k < i ==> (#[trigger] self@.cards[k]).status == CardStatus::Done
                        || self@.cards[k].status == CardStatus::Archived,
            decreases self.cards.len() - i,
        {
            assert(self@.cards[i as int].status == self.cards@[i as int].status);
            if self.cards[i].status != CardStatus::Done && self.cards[i].status != CardStatus::Archived {
                return false;
            }
            i += 1;
        }
        true
    }

    fn is_done(&self, id: &str) -> (r: bool)
        ensures
            r == self@.done(id@),
    {
        let mut j: usize = 0;
        while j < self.cards.len()
            invariant
                j <= self.cards.len(),
                forall|k: int|
                    0 <= k < j ==> !((#[trigger] self@.cards[k]).id == id@ && self@.cards[k].status
                        == CardStatus::Done),
            decreases self.cards.len() - j,
        {
            assert(self@.cards[j as int] == self.cards@[j as int]@);
            if self.cards[j].status == CardStatus::Done && t::same(self.cards[j].id.as_str(), id) {
                return true;
            }
            j += 1;
        }
        false
    }

    fn is_runnable(&self, i: usize, now: Moment) -> (r: bool)
        requires
            i < self.cards.len(),
        ensures
            r == self@.runnable(self@.cards[i as int], now),
    {
        let ghost view = self@.cards[i as int];
        assert(view == self.cards@[i as int]@);
        if self.cards[i].status != CardStatus::Todo {
            return false;
        }
        match self.cards[i].scheduled_at {
            Some(at) => if !at.is_no_later_than(&now) {
                return false;
            },
            None => {},
        }
        let mut k: usize = 0;
        while k < self.cards[i].deps.len()
            invariant
                i < self.cards.len(),
                view == self.cards@[i as int]@,
                view.status == CardStatus::Todo,
                view.scheduled_at matches Some(at) ==> at.no_later_than(now),
                k <= self.cards@[i as int].deps.len(),
                forall|m: int| 0 <= m < k ==> self@.done(#[trigger] view.deps[m]),
            decreases self.cards@[i as int].deps.len() - k,
        {
            assert(view.deps[k as int] == self.cards@[i as int].deps@[k as int]@);
            if !self.is_done(self.cards[i].deps[k].as_str()) {
                return false;
            }
            k += 1;
        }
        true
    }
}

// ---------------------------------------------------------------------------
// The order in which cards run
// ---------------------------------------------------------------------------

impl BoardView {
    /// Puts position `x` behind the positions whose cards have no lower
    /// priority.
    pub open spec fn placed(self, order: Seq<int>, x: int) -> Seq<int>
        decreases order.len(),
    {
        if order.len() == 0 {
            seq![x]
        } else if self.cards[order.last()].priority >= self.cards[x].priority {
            order.push(x)
        } else {
            self.placed(order.drop_last(), x).push(order.last())
        }
    }

    /// The runnable positions below `n`, by falling priority; of equal
    /// priorities the earlier card comes first.
    pub open spec fn queue_below(self, now: Moment, n: int) -> Seq<int>
        decreases n,
    {
        if n <= 0 || n > self.cards.len() {
            Seq::empty()
        } else {
            let before = self.queue_below(now, n - 1);
            if self.runnable(self.cards[n - 1], now) {
                self.placed(before, n - 1)
            } else {
                before
            }
        }
    }

    /// The positions of the runnable cards, in the order in which they run.
    pub open spec fn queue(self, now: Moment) -> Seq<int> {
        self.queue_below(now, self.cards.len() as int)
    }

    /// Whether the card at `i` runs before the card at `j`.
    pub open spec fn runs_before(self, i: int, j: int) -> bool {
        self.cards[i].priority > self.cards[j].priority || (self.cards[i].priority == self.cards[j].priority
            && i < j)
    }

    pub open spec fn in_order(self, order: Seq<int>) -> bool {
        forall|a: int, b: int|
            0 <= a < b < order.len() ==> self.runs_before(#[trigger] order[a], #[trigger] order[b])
    }
}

proof fn lemma_placed(b: BoardView, order: Seq<int>, x: int)
    requires
        b.in_order(order),
        forall|k: int| 0 <= k < order.len() ==> #[trigger] order[k] < x,
    ensures
        b.placed(order, x).len() == order.len() + 1,
        b.in_order(b.placed(order, x)),
        forall|v: int| #[trigger] b.placed(order, x).contains(v) <==> v == x || order.contains(v),
    decreases order.len(),
{
    let r = b.placed(order, x);
    if order.len() == 0 {
        assert(r[0] == x);
    } else if b.cards[order.last()].priority >= b.cards[x].priority {
        assert forall|i: int, j: int| 0 <= i < j < r.len() implies b.runs_before(
            #[trigger] r[i],
            #[trigger] r[j],
        ) by {
            if j == order.len() {
                if i < order.len() - 1 {
                    assert(b.runs_before(order[i], order[order.len() - 1]));
                }
            }
        }
        assert(r[order.len() as int] == x);
        assert forall|v: int| r.contains(v) <==> v == x || order.contains(v) by {
            if order.contains(v) {
                let k = choose|k: int| 0 <= k < order.len() && order[k] == v;
                assert(r[k] == v);
            }
        }
    } else {
        let rest = order.drop_last();
        let inner = b.placed(rest, x);
        assert forall|k: int| 0 <= k < rest.len() implies #[trigger] rest[k] < x by {
            assert(order[k] < x);
        }
        assert forall|i: int, j: int| 0 <= i < j < rest.len() implies b.runs_before(
            #[trigger] rest[i],
            #[trigger] rest[j],
        ) by {
            assert(b.runs_before(order[i], order[j]));
        }
        lemma_placed(b, rest, x);
        assert forall|i: int, j: int| 0 <= i < j < r.len() implies b.runs_before(
            #[trigger] r[i],
            #[trigger] r[j],
        ) by {
            if j == inner.len() {
                assert(inner[i] == r[i]);
                assert(inner.contains(r[i]));
                assert(r[j] == order.last());
                if r[i] != x {
                    assert(rest.contains(r[i]));
                    let k = choose|k: int| 0 <= k < rest.len() && rest[k] == r[i];
                    assert(b.runs_before(order[k], order[order.len() - 1]));
                } else {
                    assert(order[order.len() - 1] < x);
                }
            } else {
                assert(r[i] == inner[i] && r[j] == inner[j]);
                assert(b.runs_before(inner[i], inner[j]));
            }
        }
        assert forall|v: int| r.contains(v) <==> v == x || order.contains(v) by {
            if order.contains(v) {
                let k = choose|k: int| 0 <= k < order.len() && order[k] == v;
                if k < rest.len() {
                    assert(rest[k] == v);
                    assert(rest.contains(v));
                    assert(inner.contains(v));
                    let m = choose|m: int| 0 <= m < inner.len() && inner[m] == v;
                    assert(r[m] == v);
                } else {
                    assert(r[inner.len() as int] == v);
                }
            }
            if v == x {
                assert(inner.contains(x));
                let m = choose|m: int| 0 <= m < inner.len() && inner[m] == x;
                assert(r[m] == x);
            }
            if r.contains(v) {
                let m = choose|m: int| 0 <= m < r.len() && r[m] == v;
                if m < inner.len() {
                    assert(inner[m] == v);
                    assert(inner.contains(v));
                    if v != x {
                        assert(rest.contains(v));
                        let k = choose|k: int| 0 <= k < rest.len() && rest[k] == v;
                        assert(order[k] == v);
                    }
                } else {
                    assert(order[order.len() - 1] == v);
                }
            }
        }
    }
}

proof fn lemma_queue_below(b: BoardView, now: Moment, n: int)
    requires
        0 <= n <= b.cards.len(),
    ensures
        b.in_order(b.queue_below(now, n)),
        forall|v: int| #[trigger] b.queue_below(now, n).contains(v) <==> 0 <= v < n && b.runnable(b.cards[v], now),
    decreases n,
{
    if n > 0 {
        lemma_queue_below(b, now, n - 1);
        let before = b.queue_below(now, n - 1);
        assert forall|k: int| 0 <= k < before.len() implies #[trigger] before[k] < n - 1 by {
            assert(before.contains(before[k]));
        }
        if b.runnable(b.cards[n - 1], now) {
            lemma_placed(b, before, n - 1);
        }
        assert forall|v: int|
            b.queue_below(now, n).contains(v) <==> 0 <= v < n && b.runnable(b.cards[v], now) by {
            assert(before.contains(v) <==> 0 <= v < n - 1 && b.runnable(b.cards[v], now));
        }
    } else {
        assert forall|v: int| !b.queue_below(now, 0).contains(v) by {}
    }
}

/// The queue holds exactly the cards that can run: to do, due, and with
/// everything they depend on done.
pub proof fn law_queue_holds_the_runnable_cards(b: BoardView, now: Moment)
    ensures
        forall|i: int| #[trigger] b.queue(now).contains(i) <==> 0 <= i < b.cards.len() && b.runnable(b.cards[i], now),
{
    lemma_queue_below(b, now, b.cards.len() as int);
}

/// Cards of higher priority come first; among equals, those that were added
/// first.
pub proof fn law_queue_is_ordered_by_priority(b: BoardView, now: Moment, k: int, m: int)
    requires
        0 <= k < m < b.queue(now).len(),
    ensures
        b.runs_before(b.queue(now)[k], b.queue(now)[m]),
{
    lemma_queue_below(b, now, b.cards.len() as int);
}

impl Board {
    fn place(&self, order: &mut Vec<usize>, x: usize)
        requires
            x < self.cards.len(),
            forall|k: int| 0 <= k < old(order)@.len() ==> #[trigger] old(order)@[k] < self.cards.len(),
        ensures
            positions(final(order)@) == self@.placed(positions(old(order)@), x as int),
            forall|k: int| 0 <= k < final(order)@.len() ==> #[trigger] final(order)@[k] < self.cards.len(),
        decreases old(order)@.len(),
    {
        let ghost all = positions(order@);
        let n: usize = order.len();
        if n == 0 {
            order.push(x);
            assert(positions(order@) =~= seq![x as int]);
            return;
        }
        let last: usize = order[n - 1];
        assert(all.last() == last);
        assert(self@.cards[last as int] == self.cards@[last as int]@);
        assert(self@.cards[x as int] == self.cards@[x as int]@);
        if self.cards[last].priority >= self.cards[x].priority {
            order.push(x);
            assert(positions(order@) =~= all.push(x as int));
        } else {
            let _popped = order.pop();
            assert(positions(order@) =~= all.drop_last());
            self.place(order, x);
            let ghost inner = positions(order@);
            order.push(last);
            assert(positions(order@) =~= inner.push(last as int));
        }
    }

    /// The positions of the cards that can run now, in the order in which they
    /// run.
    pub fn ready(&self, now: Moment) -> (r: Vec<usize>)
        ensures
            positions(r@) == self@.queue(now),
            forall|k: int| 0 <= k < r@.len() ==> #[trigger] r@[k] < self.cards.len(),
    {
        let mut order: Vec<usize> = Vec::new();
        let mut i: usize = 0;
        assert(positions(order@) =~= Seq::<int>::empty());
        while i < self.cards.len()
            invariant
                i <= self.cards.len(),
                positions(order@) == self@.queue_below(now, i as int),
                forall|k: int| 0 <= k < order@.len() ==> #[trigger] order@[k] < self.cards.len(),
            decreases self.cards.len() - i,
        {
            if self.is_runnable(i, now) {
                self.place(&mut order, i);
            }
            i += 1;
        }
        order
    }
}

/// Positions as mathematical integers.
pub open spec fn positions(v: Seq<usize>) -> Seq<int> {
    v.map_values(|x: usize| x as int)
}

// ---------------------------------------------------------------------------
// Changing a board
// ---------------------------------------------------------------------------

/// The board with one status replaced by another.
pub open spec fn restatus(b: BoardView, from: CardStatus, to: CardStatus) -> BoardView {
    BoardView {
        name: b.name,
        cards: b.cards.map_values(
            |c: CardView|
                if c.status == from {
                    CardView { status: to, ..c }
                } else {
                    c
                },
        ),
    }
}

pub open spec fn finished(c: CardView) -> bool {
    c.status == CardStatus::Done || c.status == CardStatus::Blocked
}

/// A card as it was before it ran.
pub open spec fn renewed(c: CardView) -> CardView {
    if finished(c) {
        CardView { status: CardStatus::Todo, result: None, attempts: 0, block_kind: None, ..c }
    } else {
        c
    }
}

impl Board {
    /// Puts cards that an interrupted run left at work back to do; says how
    /// many.
    pub fn reclaim_in_flight(&mut self) -> (n: usize)
        ensures
            final(self)@ == restatus(old(self)@, CardStatus::Doing, CardStatus::Todo),
            n == old(self)@.count(CardStatus::Doing),
    {
        let n: usize = self.count(CardStatus::Doing);
        let ghost before = self@;
        let ghost after = restatus(before, CardStatus::Doing, CardStatus::Todo);
        let mut i: usize = 0;
        while i < self.cards.len()
            invariant
                i <= self.cards.len(),
                self.cards.len() == before.cards.len(),
                self@.name == before.name,
                after == restatus(before, CardStatus::Doing, CardStatus::Todo),
                forall|k: int| 0 <= k < i ==> (#[trigger] self.cards@[k])@ == after.cards[k],
                forall|k: int| i <= k < self.cards@.len() ==> (#[trigger] self.cards@[k])@ == before.cards[k],
            decreases self.cards.len() - i,
        {
            assert(self.cards@[i as int]@ == before.cards[i as int]);
            if self.cards[i].status == CardStatus::Doing {
                self.cards[i].status = CardStatus::Todo;
            }
            i += 1;
        }
        assert(self@.cards =~= after.cards);
        n
    }

    /// Puts every finished or failed card back to do, without its result; says
    /// how many.
    pub fn reset_for_rerun(&mut self) -> (n: usize)
        ensures
            final(self)@.name == old(self)@.name,
            final(self)@.cards == old(self)@.cards.map_values(|c: CardView| renewed(c)),
            n == old(self)@.count(CardStatus::Done) + old(self)@.count(CardStatus::Blocked),
    {
        let ghost before = self@;
        let ghost after = before.cards.map_values(|c: CardView| renewed(c));
        let mut n: usize = 0;
        let mut i: usize = 0;
        while i < self.cards.len()
            invariant
                i <= self.cards.len(),
                self.cards.len() == before.cards.len(),
                self@.name == before.name,
                after == before.cards.map_values(|c: CardView| renewed(c)),
                n <= i,
                n == before.tally(CardStatus::Done, i as int) + before.tally(CardStatus::Blocked, i as int),
                forall|k: int| 0 <= k < i ==> (#[trigger] self.cards@[k])@ == after[k],
                forall|k: int| i <= k < self.cards@.len() ==> (#[trigger] self.cards@[k])@ == before.cards[k],
            decreases self.cards.len() - i,
        {
            assert(self.cards@[i as int]@ == before.cards[i as int]);
            if self.cards[i].status == CardStatus::Done || self.cards[i].status == CardStatus::Blocked {
                self.cards[i].status = CardStatus::Todo;
                self.cards[i].result = None;
                self.cards[i].attempts = 0;
                self.cards[i].block_kind = None;
                n += 1;
            }
            i += 1;
        }
        assert(self@.cards =~= after);
        n
    }

    pub fn set_status(&mut self, id: &str, status: CardStatus) -> (found: bool)
        ensures
            found == (old(self)@.position(id@) is Some),
            final(self)@ == old(self)@.with_card(id@, |c: CardView| CardView { status, ..c }),
    {
        match self.find_card(id) {
            Some(i) => {
                let ghost before = self@;
                self.cards[i].status = status;
                assert(self@.cards =~= before.cards.update(
                    i as int,
                    CardView { status, ..before.cards[i as int] },
                ));
                true
            },
            None => false,
        }
    }

    /// Adds a comment to a card's thread; says whether the card exists.
    pub fn comment(&mut self, id: &str, author: &str, body: &str) -> (found: bool)
        ensures
            found == (old(self)@.position(id@) is Some),
            final(self)@ == old(self)@.with_card(id@, commented(author@, body@)),
    {
        match self.find_card(id) {
            Some(i) => {
                let ghost before = self@;
                let entry = Comment { author: author.to_owned(), body: body.to_owned() };
                self.cards[i].comments.push(entry);
                proof {
                    let c = before.cards[i as int];
                    assert(self.cards@[i as int]@.comments =~= c.comments.push(entry@));
                    assert(self@.cards =~= before.cards.update(i as int, commented(author@, body@)(c)));
                }
                true
            },
            None => false,
        }
    }
}

pub open spec fn commented(author: Seq<char>, body: Seq<char>) -> spec_fn(CardView) -> CardView {
    |c: CardView| CardView { comments: c.comments.push(CommentView { author, body }), ..c }
}

/// After reclaiming, no card is at work.
pub proof fn law_reclaiming_leaves_no_card_at_work(b: BoardView, i: int)
    requires
        0 <= i < b.cards.len(),
    ensures
        restatus(b, CardStatus::Doing, CardStatus::Todo).cards[i].status != CardStatus::Doing,
        b.cards[i].status != CardStatus::Doing ==> restatus(b, CardStatus::Doing, CardStatus::Todo).cards[i]
            == b.cards[i],
{
}

/// Changing a card changes the first card of that id and nothing else; where no
/// card has the id, nothing changes.
pub proof fn law_only_the_named_card_changes(b: BoardView, id: Seq<char>, change: spec_fn(CardView) -> CardView)
    ensures
        ({
            let after = b.with_card(id, change);
            &&& after.name == b.name
            &&& after.cards.len() == b.cards.len()
            &&& forall|i: int|
                0 <= i < b.cards.len() && (#[trigger] b.cards[i]).id == id && (forall|j: int|
                    0 <= j < i ==> (#[trigger] b.cards[j]).id != id) ==> after.cards[i] == change(b.cards[i])
            &&& forall|i: int|
                #![trigger after.cards[i]]
                0 <= i < b.cards.len() && (b.cards[i].id != id || exists|j: int|
                    0 <= j < i && (#[trigger] b.cards[j]).id == id) ==> after.cards[i] == b.cards[i]
        }),
{
    lemma_card_position(b, id, 0);
    lemma_first_position(b, id, 0);
}

proof fn lemma_first_position(b: BoardView, id: Seq<char>, i: int)
    requires
        0 <= i,
    ensures
        b.position_from(id, i) matches Some(k) ==> forall|j: int|
            i <= j < k ==> (#[trigger] b.cards[j]).id != id,
    decreases b.cards.len() - i,
{
    if i < b.cards.len() && b.cards[i].id != id {
        lemma_first_position(b, id, i + 1);
    }
}

/// A comment goes to the end of the thread, and leaves the rest of the card.
pub proof fn law_a_comment_ends_the_thread(c: CardView, author: Seq<char>, body: Seq<char>)
    ensures
        ({
            let after = commented(author, body)(c);
            &&& after.comments.len() == c.comments.len() + 1
            &&& after.comments.last().author == author && after.comments.last().body == body
            &&& forall|i: int| 0 <= i < c.comments.len() ==> (#[trigger] after.comments[i]) == c.comments[i]
            &&& after.id == c.id && after.title == c.title && after.status == c.status && after.result == c.result
                && after.deps == c.deps && after.assignee == c.assignee && after.runs == c.runs
        }),
{
}

/// A card that is run anew is to do, with nothing left of its last run; one that
/// did not run stays as it is.
pub proof fn law_a_card_that_ran_is_to_do_again(c: CardView)
    ensures
        c.status == CardStatus::Done || c.status == CardStatus::Blocked ==> renewed(c).status == CardStatus::Todo
            && renewed(c).result is None && renewed(c).attempts == 0 && renewed(c).block_kind is None,
        c.status != CardStatus::Done && c.status != CardStatus::Blocked ==> renewed(c) == c,
        renewed(c).id == c.id && renewed(c).title == c.title && renewed(c).detail == c.detail && renewed(c).deps
            == c.deps && renewed(c).assignee == c.assignee && renewed(c).priority == c.priority
            && renewed(c).scheduled_at == c.scheduled_at && renewed(c).goal == c.goal && renewed(c).comments
            == c.comments && renewed(c).runs == c.runs && renewed(c).deliver == c.deliver && renewed(c).max_retries
            == c.max_retries && renewed(c).goal_max_turns == c.goal_max_turns && renewed(c).tenant == c.tenant,
{
}

/// Putting a status in the place of another changes nothing but that.
pub proof fn law_a_status_is_replaced(b: BoardView, from: CardStatus, to: CardStatus, i: int)
    requires
        0 <= i < b.cards.len(),
    ensures
        ({
            let after = restatus(b, from, to).cards[i];
            &&& b.cards[i].status == from ==> after.status == to
            &&& b.cards[i].status != from ==> after == b.cards[i]
            &&& after.id == b.cards[i].id && after.result == b.cards[i].result && after.attempts
                == b.cards[i].attempts && after.deps == b.cards[i].deps && after.title == b.cards[i].title
                && after.assignee == b.cards[i].assignee
        }),
        restatus(b, from, to).cards.len() == b.cards.len() && restatus(b, from, to).name == b.name,
{
}

/// The count of a status is the number of cards that have it.
pub proof fn law_the_cards_of_a_status_are_counted(b: BoardView, status: CardStatus)
    ensures
        b.count(status) == b.cards.filter(|c: CardView| c.status == status).len(),
{
    lemma_tally(b, status, b.cards.len() as int);
    assert(b.cards.take(b.cards.len() as int) =~= b.cards);
}

proof fn lemma_tally(b: BoardView, status: CardStatus, n: int)
    requires
        0 <= n <= b.cards.len(),
    ensures
        b.tally(status, n) == b.cards.take(n).filter(|c: CardView| c.status == status).len(),
    decreases n,
{
    let p = |c: CardView| c.status == status;
    reveal(Seq::filter);
    if n > 0 {
        lemma_tally(b, status, n - 1);
        assert(b.cards.take(n).drop_last() =~= b.cards.take(n - 1));
        assert(b.cards.take(n).last() == b.cards[n - 1]);
    } else {
        assert(b.cards.take(0).len() == 0);
    }
}

/// Times are compared as they follow each other.
pub proof fn law_times_are_compared_as_they_follow(a: Moment, b: Moment)
    requires
        a.nanos < 1_000_000_000,
        b.nanos < 1_000_000_000,
    ensures
        a.no_later_than(b) <==> a.seconds * 1_000_000_000 + a.nanos <= b.seconds * 1_000_000_000 + b.nanos,
{
}

/// A card runs only when it is to do, when its time has come, and when no card
/// that it waits for is open; a card of which all this holds can run.
pub proof fn law_a_card_runs_when_nothing_holds_it(b: BoardView, c: CardView, now: Moment)
    ensures
        c.status != CardStatus::Todo ==> !b.runnable(c, now),
        c.scheduled_at matches Some(at) ==> at.seconds > now.seconds ==> !b.runnable(c, now),
        c.deps.len() > 0 && (forall|j: int|
            0 <= j < b.cards.len() && (#[trigger] b.cards[j]).id == c.deps[0] ==> b.cards[j].status
                != CardStatus::Done) ==> !b.runnable(c, now),
        c.status == CardStatus::Todo && c.deps.len() == 0 && (c.scheduled_at matches Some(at) ==> at.seconds
            < now.seconds) ==> b.runnable(c, now),
        c.status == CardStatus::Todo && c.scheduled_at is None && (forall|k: int|
            0 <= k < c.deps.len() ==> exists|j: int|
                0 <= j < b.cards.len() && (#[trigger] b.cards[j]).id == #[trigger] c.deps[k] && b.cards[j].status
                    == CardStatus::Done) ==> b.runnable(c, now),
{
    if b.runnable(c, now) && c.deps.len() > 0 {
        assert(b.done(c.deps[0]));
    }
    if c.status == CardStatus::Todo && c.scheduled_at is None && (forall|k: int|
        0 <= k < c.deps.len() ==> exists|j: int|
            0 <= j < b.cards.len() && (#[trigger] b.cards[j]).id == #[trigger] c.deps[k] && b.cards[j].status
                == CardStatus::Done) {
        assert forall|k: int| 0 <= k < c.deps.len() implies b.done(#[trigger] c.deps[k]) by {}
    }
}

/// A board is complete when nothing on it waits, runs or is blocked.
pub proof fn law_an_open_card_keeps_the_board_open(b: BoardView, i: int)
    requires
        0 <= i < b.cards.len(),
    ensures
        b.cards[i].status != CardStatus::Done && b.cards[i].status != CardStatus::Archived ==> !b.complete(),
        (forall|k: int| 0 <= k < b.cards.len() ==> (#[trigger] b.cards[k]).status == CardStatus::Done) ==> b.complete(),
{
}

} // verus!
