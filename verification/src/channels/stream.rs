//! The loop that keeps a turn's live message up to date until the reply comes.
//!
//! Times are in nanoseconds since the turn began.

use crate::channels::delivery;
use crate::channels::delivery::truncate_for_telegram;
use crate::channels::onboarding::finalize_onboarding_reply;
use crate::channels::telegram_api::LiveEditOutcome;
use crate::text as t;
use vstd::prelude::*;
use vstd::string::*;

verus! {

/// The least time between two edits of the live message.
pub const LIVE_EDIT_BASE: u64 = 1_000_000_000;

/// The longest time that edits are put off.
pub const LIVE_EDIT_MAX: u64 = 20_000_000_000;

/// How long a sign of typing lasts.
pub const TYPING_NANOS: u64 = 4_000_000_000;

/// When the live message appears though nothing has happened.
pub const THINKING_NANOS: u64 = 2_000_000_000;

pub const NAP_MIN: u64 = 100_000_000;

pub const NAP_MAX: u64 = 500_000_000;

/// The latest time that the loop can tell.
pub const TIME_LIMIT: u64 = 0x7fff_ffff_ffff_ffff;

/// A number below sixty in two digits.
pub open spec fn two_digits(n: nat) -> Seq<char> {
    if n < 10 {
        "0"@ + t::decimal(n)
    } else {
        t::decimal(n)
    }
}

/// A time as minutes and seconds.
pub open spec fn clock(now: u64) -> Seq<char> {
    let secs = now / 1_000_000_000;
    t::decimal((secs / 60) as nat) + ":"@ + two_digits((secs % 60) as nat)
}

pub fn clock_text(now: u64) -> (r: String)
    ensures
        r@ == clock(now),
{
    let secs: u64 = now / 1_000_000_000;
    let rest: u64 = secs % 60;
    let low = if rest < 10 {
        "0".to_owned().concat(t::u64_text(rest).as_str())
    } else {
        t::u64_text(rest)
    };
    t::u64_text(secs / 60).concat(":").concat(low.as_str())
}

/// The live text at a time, from what happened so far; empty while there is
/// nothing to show.
pub open spec fn live_html(progress: Seq<char>, now: u64) -> Seq<char> {
    if progress.len() == 0 {
        if now >= THINKING_NANOS {
            "<pre>💭 Thinking… "@ + clock(now) + "</pre>"@
        } else {
            Seq::empty()
        }
    } else {
        progress + "\n<pre>⏳ "@ + clock(now) + "</pre>"@
    }
}

pub fn render_live(progress: &str, now: u64) -> (r: String)
    ensures
        r@ == live_html(progress@, now),
{
    let at = clock_text(now);
    if progress.is_empty() {
        if now >= THINKING_NANOS {
            "<pre>💭 Thinking… ".to_owned().concat(at.as_str()).concat("</pre>")
        } else {
            let none = String::new();
            assert(none@ =~= Seq::<char>::empty());
            none
        }
    } else {
        progress.to_owned().concat("\n<pre>⏳ ").concat(at.as_str()).concat("</pre>")
    }
}

/// Where the loop stands.
#[derive(Debug, PartialEq, Eq)]
pub enum StreamStage<S> {
    Looking,
    Typing,
    Rendering,
    /// The live message is being edited, since `at`.
    Editing { html: S, at: u64 },
    /// The live message is being posted, since `at`.
    Posting { html: S, at: u64 },
    Claiming,
    Reading,
    Finalizing { text: S },
    Ended,
}

#[derive(Debug, PartialEq, Eq)]
pub enum StreamEvent<S> {
    /// A new round; `arrived` says whether the reply is there.
    Look { now: u64, arrived: bool },
    /// The sign of typing was sent.
    Typed { now: u64 },
    /// What happened in the turn so far, as a live text.
    Progress { now: u64, html: S },
    Edited { now: u64, outcome: LiveEditOutcome<S> },
    /// The live message was posted under this id, if it was.
    Posted { now: u64, id: Option<i64> },
    /// Whether the reply could be claimed.
    Claimed { won: bool },
    /// The text of the reply, where it could be read.
    Content { text: Option<S> },
    /// Whether the reply now stands in the chat.
    Finalized { ok: bool },
}

#[derive(Debug, PartialEq, Eq)]
pub enum StreamAction<S> {
    SendTyping,
    ReadProgress,
    Edit { id: i64, html: S },
    /// Post the live message, and note its id.
    Post { html: S },
    Nap { nanos: u64 },
    /// The time is up; the reply is left to the delivery.
    Stop,
    Claim,
    Read,
    /// Someone else delivers the reply: take the live message down and forget the
    /// turn's progress.
    Withdraw { live_id: Option<i64> },
    /// The reply cannot be read: mark it as delivered and forget the progress.
    Drop,
    /// There is nothing to say: take the live message down, mark the reply as
    /// delivered and forget the progress.
    Silence { live_id: Option<i64>, ends_interview: bool },
    /// Put the reply in place of the live message; the interview ends where the
    /// reply says so.
    Finalize { live_id: Option<i64>, text: S, ends_interview: bool },
    /// Mark the reply as delivered, record the turn, speak it where that is on,
    /// and forget the progress.
    Record { text: S },
    /// Give the claim back, so that the delivery tries again.
    Release,
}

impl View for StreamStage<String> {
    type V = StreamStage<Seq<char>>;

    open spec fn view(&self) -> StreamStage<Seq<char>> {
        match self {
            StreamStage::Looking => StreamStage::Looking,
            StreamStage::Typing => StreamStage::Typing,
            StreamStage::Rendering => StreamStage::Rendering,
            StreamStage::Editing { html, at } => StreamStage::Editing { html: html@, at: *at },
            StreamStage::Posting { html, at } => StreamStage::Posting { html: html@, at: *at },
            StreamStage::Claiming => StreamStage::Claiming,
            StreamStage::Reading => StreamStage::Reading,
            StreamStage::Finalizing { text } => StreamStage::Finalizing { text: text@ },
            StreamStage::Ended => StreamStage::Ended,
        }
    }
}

impl View for StreamEvent<String> {
    type V = StreamEvent<Seq<char>>;

    open spec fn view(&self) -> StreamEvent<Seq<char>> {
        match self {
            StreamEvent::Look { now, arrived } => StreamEvent::Look { now: *now, arrived: *arrived },
            StreamEvent::Typed { now } => StreamEvent::Typed { now: *now },
            StreamEvent::Progress { now, html } => StreamEvent::Progress { now: *now, html: html@ },
            StreamEvent::Edited { now, outcome } => StreamEvent::Edited { now: *now, outcome: outcome@ },
            StreamEvent::Posted { now, id } => StreamEvent::Posted { now: *now, id: *id },
            StreamEvent::Claimed { won } => StreamEvent::Claimed { won: *won },
            StreamEvent::Content { text } => StreamEvent::Content { text: t::opt_view(*text) },
            StreamEvent::Finalized { ok } => StreamEvent::Finalized { ok: *ok },
        }
    }
}

impl View for StreamAction<String> {
    type V = StreamAction<Seq<char>>;

    open spec fn view(&self) -> StreamAction<Seq<char>> {
        match self {
            StreamAction::SendTyping => StreamAction::SendTyping,
            StreamAction::ReadProgress => StreamAction::ReadProgress,
            StreamAction::Edit { id, html } => StreamAction::Edit { id: *id, html: html@ },
            StreamAction::Post { html } => StreamAction::Post { html: html@ },
            StreamAction::Nap { nanos } => StreamAction::Nap { nanos: *nanos },
            StreamAction::Stop => StreamAction::Stop,
            StreamAction::Claim => StreamAction::Claim,
            StreamAction::Read => StreamAction::Read,
            StreamAction::Withdraw { live_id } => StreamAction::Withdraw { live_id: *live_id },
            StreamAction::Drop => StreamAction::Drop,
            StreamAction::Silence { live_id, ends_interview } => StreamAction::Silence {
                live_id: *live_id,
                ends_interview: *ends_interview,
            },
            StreamAction::Finalize { live_id, text, ends_interview } => StreamAction::Finalize {
                live_id: *live_id,
                text: text@,
                ends_interview: *ends_interview,
            },
            StreamAction::Record { text } => StreamAction::Record { text: text@ },
            StreamAction::Release => StreamAction::Release,
        }
    }
}

/// What is kept from one edit to the next.
#[derive(Debug, PartialEq, Eq)]
pub struct Live<S> {
    pub message_id: Option<i64>,
    /// What the live message shows.
    pub shown: S,
    /// Whether the last edit went well.
    pub well: bool,
    /// The time between two edits.
    pub interval: u64,
    /// The time before which there is no edit.
    pub next_edit_at: u64,
}

impl View for Live<String> {
    type V = Live<Seq<char>>;

    open spec fn view(&self) -> Live<Seq<char>> {
        Live {
            message_id: self.message_id,
            shown: self.shown@,
            well: self.well,
            interval: self.interval,
            next_edit_at: self.next_edit_at,
        }
    }
}

/// The streaming of one turn.
#[derive(Debug, PartialEq, Eq)]
pub struct StreamTurn<S> {
    /// The reply that says there is nothing to say.
    pub sentinel: S,
    /// When the loop gives up.
    pub timeout: u64,
    /// When the last sign of typing was sent.
    pub typed_at: Option<u64>,
    pub live: Live<S>,
    pub stage: StreamStage<S>,
}

impl View for StreamTurn<String> {
    type V = StreamTurn<Seq<char>>;

    open spec fn view(&self) -> StreamTurn<Seq<char>> {
        StreamTurn {
            sentinel: self.sentinel@,
            timeout: self.timeout,
            typed_at: self.typed_at,
            live: self.live@,
            stage: self.stage@,
        }
    }
}

pub open spec fn kept_within(n: int, low: int, high: int) -> int {
    if n < low {
        low
    } else if n > high {
        high
    } else {
        n
    }
}

/// The interval after a failed edit: twice as long, up to the longest.
pub open spec fn doubled(interval: u64) -> u64 {
    kept_within(interval * 2, 0, LIVE_EDIT_MAX as int) as u64
}

/// The interval after too many edits: what was asked for, or twice as long, within
/// bounds.
pub open spec fn throttled(interval: u64, retry_after: Option<u64>) -> u64 {
    let wanted = match retry_after {
        Some(secs) => secs * 1_000_000_000,
        None => interval * 2,
    };
    kept_within(wanted, LIVE_EDIT_BASE as int, LIVE_EDIT_MAX as int) as u64
}

fn double(interval: u64) -> (r: u64)
    requires
        interval <= LIVE_EDIT_MAX,
    ensures
        r == doubled(interval),
{
    if interval * 2 > LIVE_EDIT_MAX {
        LIVE_EDIT_MAX
    } else {
        interval * 2
    }
}

fn throttle(interval: u64, retry_after: Option<u64>) -> (r: u64)
    requires
        interval <= LIVE_EDIT_MAX,
    ensures
        r == throttled(interval, retry_after),
{
    let wanted: u64 = match retry_after {
        Some(secs) => if secs > 20 {
            LIVE_EDIT_MAX
        } else {
            secs * 1_000_000_000
        },
        None => interval * 2,
    };
    if wanted < LIVE_EDIT_BASE {
        LIVE_EDIT_BASE
    } else if wanted > LIVE_EDIT_MAX {
        LIVE_EDIT_MAX
    } else {
        wanted
    }
}

impl StreamEvent<Seq<char>> {
    /// Whether the event's time can be told.
    pub open spec fn timely(self) -> bool {
        match self {
            StreamEvent::Look { now, .. } => now <= TIME_LIMIT,
            StreamEvent::Typed { now } => now <= TIME_LIMIT,
            StreamEvent::Progress { now, .. } => now <= TIME_LIMIT,
            StreamEvent::Edited { now, .. } => now <= TIME_LIMIT,
            StreamEvent::Posted { now, .. } => now <= TIME_LIMIT,
            _ => true,
        }
    }
}

pub type StreamStep = (StreamTurn<Seq<char>>, StreamAction<Seq<char>>);

impl Live<Seq<char>> {
    /// After an edit or a post that went well.
    pub open spec fn showing(self, html: Seq<char>, id: Option<i64>, at: u64) -> Live<Seq<char>> {
        Live {
            message_id: id,
            shown: html,
            well: true,
            interval: LIVE_EDIT_BASE,
            next_edit_at: (at + LIVE_EDIT_BASE) as u64,
        }
    }

    /// After one that did not.
    pub open spec fn put_off(self, interval: u64, at: u64) -> Live<Seq<char>> {
        Live { well: false, interval, next_edit_at: (at + interval) as u64, ..self }
    }

    pub open spec fn wants_edit(self, html: Seq<char>, now: u64) -> bool {
        html.len() > 0 && now >= self.next_edit_at && (html != self.shown || !self.well)
    }

    pub open spec fn edited(self, html: Seq<char>, at: u64, outcome: LiveEditOutcome<Seq<char>>) -> Live<Seq<char>> {
        match outcome {
            LiveEditOutcome::Done => self.showing(html, self.message_id, at),
            LiveEditOutcome::Throttled { retry_after } => self.put_off(throttled(self.interval, retry_after), at),
            LiveEditOutcome::Failed { .. } => self.put_off(doubled(self.interval), at),
        }
    }

    pub open spec fn posted(self, html: Seq<char>, at: u64, id: Option<i64>) -> Live<Seq<char>> {
        match id {
            Some(_) => self.showing(html, id, at),
            None => self.put_off(doubled(self.interval), at),
        }
    }
}

impl StreamTurn<Seq<char>> {
    pub open spec fn to(self, stage: StreamStage<Seq<char>>, action: StreamAction<Seq<char>>) -> StreamStep {
        (StreamTurn { stage, ..self }, action)
    }

    pub open spec fn typing_due(self, now: u64) -> bool {
        match self.typed_at {
            Some(at) => now >= at && now - at >= TYPING_NANOS,
            None => true,
        }
    }

    /// The end of a round.
    pub open spec fn resting(self, now: u64) -> StreamStep {
        if now >= self.timeout {
            self.to(StreamStage::Ended, StreamAction::Stop)
        } else {
            self.to(
                StreamStage::Looking,
                StreamAction::Nap {
                    nanos: kept_within(self.live.next_edit_at - now, NAP_MIN as int, NAP_MAX as int) as u64,
                },
            )
        }
    }

    pub open spec fn next(self, event: StreamEvent<Seq<char>>) -> StreamStep {
        match (self.stage, event) {
            (StreamStage::Looking, StreamEvent::Look { now, arrived }) => if arrived {
                self.to(StreamStage::Claiming, StreamAction::Claim)
            } else if self.typing_due(now) {
                self.to(StreamStage::Typing, StreamAction::SendTyping)
            } else {
                self.to(StreamStage::Rendering, StreamAction::ReadProgress)
            },
            (StreamStage::Typing, StreamEvent::Typed { now }) => StreamTurn { typed_at: Some(now), ..self }.to(
                StreamStage::Rendering,
                StreamAction::ReadProgress,
            ),
            (StreamStage::Rendering, StreamEvent::Progress { now, html }) => {
                let shown = live_html(html, now);
                if self.live.wants_edit(shown, now) {
                    match self.live.message_id {
                        Some(id) => self.to(
                            StreamStage::Editing { html: shown, at: now },
                            StreamAction::Edit { id, html: shown },
                        ),
                        None => self.to(
                            StreamStage::Posting { html: shown, at: now },
                            StreamAction::Post { html: shown },
                        ),
                    }
                } else {
                    self.resting(now)
                }
            },
            (StreamStage::Editing { html, at }, StreamEvent::Edited { now, outcome }) => StreamTurn {
                live: self.live.edited(html, at, outcome),
                ..self
            }.resting(now),
            (StreamStage::Posting { html, at }, StreamEvent::Posted { now, id }) => StreamTurn {
                live: self.live.posted(html, at, id),
                ..self
            }.resting(now),
            (StreamStage::Claiming, StreamEvent::Claimed { won }) => if won {
                self.to(StreamStage::Reading, StreamAction::Read)
            } else {
                self.to(StreamStage::Ended, StreamAction::Withdraw { live_id: self.live.message_id })
            },
            (StreamStage::Reading, StreamEvent::Content { text }) => match text {
                None => self.to(StreamStage::Ended, StreamAction::Drop),
                Some(raw) => {
                    let reply = delivery::response_of(raw);
                    if t::trimmed(reply) == self.sentinel {
                        self.to(
                            StreamStage::Ended,
                            StreamAction::Silence {
                                live_id: self.live.message_id,
                                ends_interview: t::has(raw, "[[ONBOARDING_COMPLETE]]"@),
                            },
                        )
                    } else {
                        self.to(
                            StreamStage::Finalizing { text: reply },
                            StreamAction::Finalize {
                                live_id: self.live.message_id,
                                text: reply,
                                ends_interview: t::has(raw, "[[ONBOARDING_COMPLETE]]"@),
                            },
                        )
                    }
                },
            },
            (StreamStage::Finalizing { text }, StreamEvent::Finalized { ok }) => if ok {
                self.to(StreamStage::Ended, StreamAction::Record { text })
            } else {
                self.to(StreamStage::Ended, StreamAction::Release)
            },
            _ => self.to(StreamStage::Ended, StreamAction::Stop),
        }
    }

    /// What holds of every stream that was started and advanced.
    pub open spec fn sound(self) -> bool {
        &&& LIVE_EDIT_BASE <= self.live.interval <= LIVE_EDIT_MAX
        &&& self.live.next_edit_at <= TIME_LIMIT + LIVE_EDIT_MAX
        &&& match self.stage {
            StreamStage::Editing { at, .. } => self.live.next_edit_at <= at <= TIME_LIMIT,
            StreamStage::Posting { at, .. } => self.live.next_edit_at <= at <= TIME_LIMIT,
            _ => true,
        }
    }
}

fn nap(next_edit_at: u64, now: u64) -> (r: u64)
    ensures
        r == kept_within(next_edit_at - now, NAP_MIN as int, NAP_MAX as int),
{
    let left: u64 = if next_edit_at > now {
        next_edit_at - now
    } else {
        0
    };
    if left < NAP_MIN {
        NAP_MIN
    } else if left > NAP_MAX {
        NAP_MAX
    } else {
        left
    }
}

impl Live<String> {
    fn show(self, html: String, id: Option<i64>, at: u64) -> (r: Live<String>)
        requires
            at <= TIME_LIMIT,
        ensures
            r@ == self@.showing(html@, id, at),
    {
        Live {
            message_id: id,
            shown: html,
            well: true,
            interval: LIVE_EDIT_BASE,
            next_edit_at: at + LIVE_EDIT_BASE,
        }
    }

    fn hold_off(self, interval: u64, at: u64) -> (r: Live<String>)
        requires
            at <= TIME_LIMIT,
            interval <= LIVE_EDIT_MAX,
        ensures
            r@ == self@.put_off(interval, at),
    {
        Live {
            message_id: self.message_id,
            shown: self.shown,
            well: false,
            interval,
            next_edit_at: at + interval,
        }
    }

    fn is_due(&self, html: &str, now: u64) -> (r: bool)
        ensures
            r == self@.wants_edit(html@, now),
    {
        !html.is_empty() && now >= self.next_edit_at && (!t::same(html, self.shown.as_str()) || !self.well)
    }

    fn after_edit(self, html: String, at: u64, outcome: LiveEditOutcome<String>) -> (r: Live<String>)
        requires
            at <= TIME_LIMIT,
            self.interval <= LIVE_EDIT_MAX,
        ensures
            r@ == self@.edited(html@, at, outcome@),
    {
        match outcome {
            LiveEditOutcome::Done => {
                let id = self.message_id;
                self.show(html, id, at)
            },
            LiveEditOutcome::Throttled { retry_after } => {
                let interval: u64 = throttle(self.interval, retry_after);
                self.hold_off(interval, at)
            },
            LiveEditOutcome::Failed { .. } => {
                let interval: u64 = double(self.interval);
                self.hold_off(interval, at)
            },
        }
    }

    fn after_post(self, html: String, at: u64, id: Option<i64>) -> (r: Live<String>)
        requires
            at <= TIME_LIMIT,
            self.interval <= LIVE_EDIT_MAX,
        ensures
            r@ == self@.posted(html@, at, id),
    {
        match id {
            Some(_) => self.show(html, id, at),
            None => {
                let interval: u64 = double(self.interval);
                self.hold_off(interval, at)
            },
        }
    }
}

impl StreamTurn<String> {
    /// A turn that begins now; `typed_at` is when typing was last shown.
    pub fn new(sentinel: String, timeout: u64, typed_at: Option<u64>) -> (r: Self)
        ensures
            r@ == (StreamTurn {
                sentinel: sentinel@,
                timeout,
                typed_at,
                live: Live {
                    message_id: None,
                    shown: Seq::empty(),
                    well: true,
                    interval: LIVE_EDIT_BASE,
                    next_edit_at: 0,
                },
                stage: StreamStage::Looking,
            }),
            r@.sound(),
    {
        let shown = String::new();
        assert(shown@ =~= Seq::<char>::empty());
        StreamTurn {
            sentinel,
            timeout,
            typed_at,
            live: Live { message_id: None, shown, well: true, interval: LIVE_EDIT_BASE, next_edit_at: 0 },
            stage: StreamStage::Looking,
        }
    }

    fn go(self, stage: StreamStage<String>, action: StreamAction<String>) -> (r: (Self, StreamAction<String>))
        ensures
            (r.0@, r.1@) == self@.to(stage@, action@),
    {
        (
            StreamTurn {
                sentinel: self.sentinel,
                timeout: self.timeout,
                typed_at: self.typed_at,
                live: self.live,
                stage,
            },
            action,
        )
    }

    fn rest(self, now: u64) -> (r: (Self, StreamAction<String>))
        ensures
            (r.0@, r.1@) == self@.resting(now),
    {
        if now >= self.timeout {
            self.go(StreamStage::Ended, StreamAction::Stop)
        } else {
            let nanos: u64 = nap(self.live.next_edit_at, now);
            self.go(StreamStage::Looking, StreamAction::Nap { nanos })
        }
    }

    fn is_typing_due(&self, now: u64) -> (r: bool)
        ensures
            r == self@.typing_due(now),
    {
        match self.typed_at {
            Some(at) => now >= at && now - at >= TYPING_NANOS,
            None => true,
        }
    }

    fn answer(self, raw: String) -> (r: (Self, StreamAction<String>))
        requires
            self@.stage is Reading,
        ensures
            (r.0@, r.1@) == self@.next(StreamEvent::Content { text: Some(raw@) }),
    {
        let live_id = self.live.message_id;
        let (plain, ends_interview) = finalize_onboarding_reply(raw.as_str());
        let reply = truncate_for_telegram(plain.as_str());
        if t::same(t::trim(reply.as_str()).as_str(), self.sentinel.as_str()) {
            self.go(StreamStage::Ended, StreamAction::Silence { live_id, ends_interview })
        } else {
            let text = reply.clone();
            self.go(
                StreamStage::Finalizing { text: reply },
                StreamAction::Finalize { live_id, text, ends_interview },
            )
        }
    }

    fn with(sentinel: String, timeout: u64, typed_at: Option<u64>, live: Live<String>) -> (r: Self)
        ensures
            r@ == (StreamTurn { sentinel: sentinel@, timeout, typed_at, live: live@, stage: StreamStage::Reading }),
    {
        StreamTurn { sentinel, timeout, typed_at, live, stage: StreamStage::Reading }
    }

    /// Takes the next step of the loop.
    pub fn stream_turn_to_telegram(self, event: StreamEvent<String>) -> (r: (Self, StreamAction<String>))
        requires
            self@.sound(),
            event@.timely(),
        ensures
            (r.0@, r.1@) == self@.next(event@),
            r.0@.sound(),
    {
        let StreamTurn { sentinel, timeout, typed_at, live, stage } = self;
        match (stage, event) {
            (StreamStage::Looking, StreamEvent::Look { now, arrived }) => {
                let turn = StreamTurn::with(sentinel, timeout, typed_at, live);
                if arrived {
                    turn.go(StreamStage::Claiming, StreamAction::Claim)
                } else if turn.is_typing_due(now) {
                    turn.go(StreamStage::Typing, StreamAction::SendTyping)
                } else {
                    turn.go(StreamStage::Rendering, StreamAction::ReadProgress)
                }
            },
            (StreamStage::Typing, StreamEvent::Typed { now }) => StreamTurn::with(
                sentinel,
                timeout,
                Some(now),
                live,
            ).go(StreamStage::Rendering, StreamAction::ReadProgress),
            (StreamStage::Rendering, StreamEvent::Progress { now, html }) => {
                let shown = render_live(html.as_str(), now);
                let turn = StreamTurn::with(sentinel, timeout, typed_at, live);
                if turn.live.is_due(shown.as_str(), now) {
                    let copy = shown.clone();
                    match turn.live.message_id {
                        Some(id) => turn.go(
                            StreamStage::Editing { html: shown, at: now },
                            StreamAction::Edit { id, html: copy },
                        ),
                        None => turn.go(
                            StreamStage::Posting { html: shown, at: now },
                            StreamAction::Post { html: copy },
                        ),
                    }
                } else {
                    turn.rest(now)
                }
            },
            (StreamStage::Editing { html, at }, StreamEvent::Edited { now, outcome }) => {
                let live = live.after_edit(html, at, outcome);
                StreamTurn::with(sentinel, timeout, typed_at, live).rest(now)
            },
            (StreamStage::Posting { html, at }, StreamEvent::Posted { now, id }) => {
                let live = live.after_post(html, at, id);
                StreamTurn::with(sentinel, timeout, typed_at, live).rest(now)
            },
            (StreamStage::Claiming, StreamEvent::Claimed { won }) => {
                let live_id = live.message_id;
                let turn = StreamTurn::with(sentinel, timeout, typed_at, live);
                if won {
                    turn.go(StreamStage::Reading, StreamAction::Read)
                } else {
                    turn.go(StreamStage::Ended, StreamAction::Withdraw { live_id })
                }
            },
            (StreamStage::Reading, StreamEvent::Content { text }) => {
                let turn = StreamTurn::with(sentinel, timeout, typed_at, live);
                match text {
                    None => turn.go(StreamStage::Ended, StreamAction::Drop),
                    Some(raw) => turn.answer(raw),
                }
            },
            (StreamStage::Finalizing { text }, StreamEvent::Finalized { ok }) => {
                let turn = StreamTurn::with(sentinel, timeout, typed_at, live);
                if ok {
                    turn.go(StreamStage::Ended, StreamAction::Record { text })
                } else {
                    turn.go(StreamStage::Ended, StreamAction::Release)
                }
            },
            _ => StreamTurn::with(sentinel, timeout, typed_at, live).go(StreamStage::Ended, StreamAction::Stop),
        }
    }
}

/// The live message is never touched before its time, and after an attempt at
/// `at` not again for the shortest interval: attempts are at least that far
/// apart, whatever came of them.
pub proof fn law_edits_are_spaced(s: StreamTurn<Seq<char>>, event: StreamEvent<Seq<char>>)
    requires
        s.sound(),
        event.timely(),
    ensures
        s.next(event).1 is Edit || s.next(event).1 is Post ==> (event matches StreamEvent::Progress { now, .. } && now
            >= s.live.next_edit_at),
        s.stage matches StreamStage::Editing { at, .. } ==> (event is Edited ==> at + LIVE_EDIT_BASE <= s.next(
            event,
        ).0.live.next_edit_at <= at + LIVE_EDIT_MAX),
        s.stage matches StreamStage::Posting { at, .. } ==> (event is Posted ==> at + LIVE_EDIT_BASE <= s.next(
            event,
        ).0.live.next_edit_at <= at + LIVE_EDIT_MAX),
{
}

/// A stream keeps its soundness, and rests for a tenth to a half of a second.
pub proof fn law_the_stream_stays_sound(s: StreamTurn<Seq<char>>, event: StreamEvent<Seq<char>>)
    requires
        s.sound(),
        event.timely(),
    ensures
        s.next(event).0.sound(),
        s.next(event).1 matches StreamAction::Nap { nanos } ==> NAP_MIN <= nanos <= NAP_MAX,
{
}

/// The reply is put in the chat only after it was claimed and read, and it is
/// recorded exactly where it then stands in the chat; otherwise the claim is given
/// back.
pub proof fn law_a_streamed_reply_is_claimed_first(s: StreamTurn<Seq<char>>, event: StreamEvent<Seq<char>>)
    ensures
        s.next(event).1 is Finalize ==> s.stage is Reading && event is Content,
        s.next(event).1 is Read ==> s.stage is Claiming && event == (StreamEvent::<Seq<char>>::Claimed { won: true }),
        s.next(event).1 is Record <==> s.stage is Finalizing && event == (StreamEvent::<Seq<char>>::Finalized {
            ok: true,
        }),
        s.stage is Finalizing && event == (StreamEvent::<Seq<char>>::Finalized { ok: false }) ==> s.next(
            event,
        ).1 is Release,
{
}

/// After too many edits the loop waits as long as it was told to, within bounds.
pub proof fn law_a_told_wait_is_kept(interval: u64, secs: u64)
    requires
        1 <= secs <= 20,
    ensures
        throttled(interval, Some(secs)) == secs * 1_000_000_000,
{
}

/// Once the time is up, the round that notices it is the last one.
pub proof fn law_the_stream_ends_in_time(s: StreamTurn<Seq<char>>, now: u64)
    requires
        now >= s.timeout,
    ensures
        s.resting(now).0.stage is Ended,
{
}

/// A round looks for the reply first: where it is there it is claimed, and else
/// the owner sees that the agent is at work.
pub proof fn law_a_reply_that_came_is_claimed(s: StreamTurn<Seq<char>>, now: u64)
    requires
        s.stage is Looking,
    ensures
        s.next(StreamEvent::Look { now, arrived: true }).1 is Claim,
        s.next(StreamEvent::Look { now, arrived: true }).0.stage is Claiming,
        s.typed_at is None ==> s.next(StreamEvent::Look { now, arrived: false }).1 is SendTyping,
        s.typed_at matches Some(at) ==> (s.next(StreamEvent::Look { now, arrived: false }).1 is SendTyping <==> now
            >= at + 4_000_000_000),
        !(s.next(StreamEvent::Look { now, arrived: false }).1 is SendTyping) ==> s.next(
            StreamEvent::Look { now, arrived: false },
        ).1 is ReadProgress,
{
}

/// After a sign of typing the progress is read, and the sign counts from then.
pub proof fn law_a_sign_of_typing_is_remembered(s: StreamTurn<Seq<char>>, now: u64)
    requires
        s.stage is Typing,
    ensures
        s.next(StreamEvent::Typed { now }).1 is ReadProgress,
        s.next(StreamEvent::Typed { now }).0.typed_at == Some(now),
        s.next(StreamEvent::Typed { now }).0.stage is Rendering,
{
}

/// A reply that was claimed takes the place of the live message, as it reads;
/// where it says that there is nothing to say, the live message is taken down.
/// One that cannot be read is dropped.
pub proof fn law_a_claimed_reply_replaces_the_live_message(s: StreamTurn<Seq<char>>, raw: Seq<char>, sent: Seq<char>)
    requires
        s.stage is Reading,
        !t::has(raw, "[[ONBOARDING_COMPLETE]]"@),
        delivery::fits(raw, sent),
    ensures
        ({
            let (after, action) = s.next(StreamEvent::Content { text: Some(raw) });
            &&& t::trimmed(sent) != s.sentinel ==> action == (StreamAction::Finalize {
                live_id: s.live.message_id,
                text: sent,
                ends_interview: false,
            }) && after.stage == (StreamStage::Finalizing { text: sent })
            &&& t::trimmed(sent) == s.sentinel ==> action == (StreamAction::<Seq<char>>::Silence {
                live_id: s.live.message_id,
                ends_interview: false,
            })
            &&& s.next(StreamEvent::Content { text: None }).1 is Drop
        }),
{
}

/// A claim that was lost withdraws the live message, and one that was won is read.
pub proof fn law_a_lost_claim_withdraws_the_live_message(s: StreamTurn<Seq<char>>)
    requires
        s.stage is Claiming,
    ensures
        s.next(StreamEvent::Claimed { won: true }).1 is Read,
        s.next(StreamEvent::Claimed { won: true }).0.stage is Reading,
        s.next(StreamEvent::Claimed { won: false }).1 == (StreamAction::<Seq<char>>::Withdraw {
            live_id: s.live.message_id,
        }),
        s.next(StreamEvent::Claimed { won: false }).0.stage is Ended,
{
}

/// What stands in the chat is what is recorded.
pub proof fn law_what_stands_in_the_chat_is_recorded(s: StreamTurn<Seq<char>>)
    requires
        s.stage is Finalizing,
    ensures
        s.next(StreamEvent::Finalized { ok: true }).1 == (StreamAction::Record { text: s.stage->text }),
        s.next(StreamEvent::Finalized { ok: false }).1 is Release,
{
}

/// The live message shows the progress and the time; it is posted once and then
/// edited, when it is due and there is something new or the last edit failed.
pub proof fn law_the_live_message_shows_the_progress(s: StreamTurn<Seq<char>>, now: u64, progress: Seq<char>)
    requires
        s.stage is Rendering,
        progress.len() > 0,
    ensures
        ({
            let (after, action) = s.next(StreamEvent::Progress { now, html: progress });
            let shown = progress + "\n<pre>⏳ "@ + clock(now) + "</pre>"@;
            let due = now >= s.live.next_edit_at && (shown != s.live.shown || !s.live.well);
            &&& due && s.live.message_id is Some ==> action == (StreamAction::Edit {
                id: s.live.message_id->0,
                html: shown,
            }) && after.stage == (StreamStage::Editing { html: shown, at: now })
            &&& due && s.live.message_id is None ==> action == (StreamAction::Post { html: shown }) && after.stage == (
            StreamStage::Posting { html: shown, at: now })
            &&& !due ==> action is Nap || action is Stop
            &&& after.live == s.live
        }),
{
}

/// What a posted or edited live message shows is remembered, with its id; after
/// a failure it is tried again later, the interval doubled.
pub proof fn law_an_edit_is_remembered(s: StreamTurn<Seq<char>>, now: u64, id: i64, retry: Option<u64>, detail: Seq<char>)
    requires
        s.sound(),
        now <= TIME_LIMIT,
    ensures
        s.stage matches StreamStage::Editing { html, at } ==> {
            let good = s.next(StreamEvent::Edited { now, outcome: LiveEditOutcome::Done }).0.live;
            let bad = s.next(StreamEvent::Edited { now, outcome: LiveEditOutcome::Failed { error: detail } }).0.live;
            let slow = s.next(
                StreamEvent::Edited { now, outcome: LiveEditOutcome::Throttled { retry_after: retry } },
            ).0.live;
            &&& good.shown == html && good.well && good.message_id == s.live.message_id && good.interval
                == 1_000_000_000
            &&& bad.shown == s.live.shown && !bad.well && bad.message_id == s.live.message_id
            &&& s.live.interval <= 10_000_000_000 ==> bad.interval == s.live.interval * 2
            &&& slow.shown == s.live.shown && !slow.well && slow.message_id == s.live.message_id
        },
        s.stage matches StreamStage::Posting { html, at } ==> {
            let good = s.next(StreamEvent::Posted { now, id: Some(id) }).0.live;
            let bad = s.next(StreamEvent::Posted { now, id: None }).0.live;
            &&& good.shown == html && good.well && good.message_id == Some(id)
            &&& bad.shown == s.live.shown && !bad.well && bad.message_id == s.live.message_id
        },
{
}

/// The loop rests between rounds until its time is up.
pub proof fn law_the_stream_goes_on_until_its_time_is_up(s: StreamTurn<Seq<char>>, now: u64, outcome: LiveEditOutcome<Seq<char>>)
    requires
        s.stage is Editing,
    ensures
        ({
            let (after, action) = s.next(StreamEvent::Edited { now, outcome });
            &&& now < s.timeout ==> action is Nap && after.stage is Looking
            &&& now >= s.timeout ==> action is Stop && after.stage is Ended
            &&& after.sentinel == s.sentinel
            &&& after.timeout == s.timeout
            &&& after.typed_at == s.typed_at
        }),
{
}

// ---------------------------------------------------------------------------
// Tools
// ---------------------------------------------------------------------------

/// What the status message of a tool shows.
#[derive(Debug, PartialEq, Eq)]
pub enum Phase<S> {
    Running { tool: S },
    Done { detail: S },
    Failed { detail: S },
}

impl View for Phase<String> {
    type V = Phase<Seq<char>>;

    open spec fn view(&self) -> Phase<Seq<char>> {
        match self {
            Phase::Running { tool } => Phase::Running { tool: tool@ },
            Phase::Done { detail } => Phase::Done { detail: detail@ },
            Phase::Failed { detail } => Phase::Failed { detail: detail@ },
        }
    }
}

/// The run of a tool.
#[derive(Debug, PartialEq, Eq)]
pub struct ToolRun {
    pub ok: bool,
    pub stdout: String,
    pub stderr: String,
    pub duration_ms: u64,
}

/// What is said and kept of the run of a tool.
#[derive(Debug, PartialEq, Eq)]
pub struct ToolReport<S> {
    /// What the status message shows in the end.
    pub phase: Phase<S>,
    /// What is sent to the chat.
    pub body: S,
    /// The input and the output that are recorded.
    pub input: S,
    pub output: S,
    /// What the audit log says, where the tool ran.
    pub audit: Option<S>,
}

impl View for ToolReport<String> {
    type V = ToolReport<Seq<char>>;

    open spec fn view(&self) -> ToolReport<Seq<char>> {
        ToolReport {
            phase: self.phase@,
            body: self.body@,
            input: self.input@,
            output: self.output@,
            audit: t::opt_view(self.audit),
        }
    }
}

pub open spec fn run_report(name: Seq<char>, input: Seq<char>, run: ToolRun) -> ToolReport<Seq<char>> {
    let out = delivery::fit_for_chat(run.stdout@);
    ToolReport {
        phase: if run.ok {
            Phase::Done { detail: "`"@ + name + "` in "@ + t::decimal(run.duration_ms as nat) + "ms"@ }
        } else {
            Phase::Failed { detail: t::truncated(t::trimmed(run.stderr@), 80) }
        },
        body: if !run.ok {
            "Tool failed: "@ + delivery::fit_for_chat(t::trimmed(run.stderr@))
        } else if t::trimmed(out).len() == 0 {
            "(tool produced no output)"@
        } else {
            out
        },
        input: "/tool "@ + name + " "@ + input,
        output: run.stdout@,
        audit: Some("ran tool "@ + name + " ok="@ + (if run.ok {
            "true"@
        } else {
            "false"@
        })),
    }
}

pub open spec fn error_report(name: Seq<char>, input: Seq<char>, error: Seq<char>) -> ToolReport<Seq<char>> {
    ToolReport {
        phase: Phase::Failed { detail: t::truncated(error, 80) },
        body: "Tool error: "@ + error,
        input: "/tool "@ + name + " "@ + input,
        output: error,
        audit: None,
    }
}

/// What is said and kept of a tool that ran, or could not.
pub fn tool_report(name: &str, input: &str, result: &Result<ToolRun, String>) -> (r: ToolReport<String>)
    ensures
        r@ == match result {
            Ok(run) => run_report(name@, input@, *run),
            Err(error) => error_report(name@, input@, error@),
        },
{
    let recorded = "/tool ".to_owned().concat(name).concat(" ").concat(input);
    match result {
        Ok(run) => {
            let phase = if run.ok {
                Phase::Done {
                    detail: "`".to_owned().concat(name).concat("` in ").concat(
                        t::u64_text(run.duration_ms).as_str(),
                    ).concat("ms"),
                }
            } else {
                Phase::Failed { detail: t::truncate(t::trim(run.stderr.as_str()).as_str(), 80) }
            };
            let body = if !run.ok {
                "Tool failed: ".to_owned().concat(
                    truncate_for_telegram(t::trim(run.stderr.as_str()).as_str()).as_str(),
                )
            } else {
                let out = truncate_for_telegram(run.stdout.as_str());
                if t::trim(out.as_str()).as_str().is_empty() {
                    "(tool produced no output)".to_owned()
                } else {
                    out
                }
            };
            let audit = "ran tool ".to_owned().concat(name).concat(" ok=").concat(
                if run.ok {
                    "true"
                } else {
                    "false"
                },
            );
            ToolReport { phase, body, input: recorded, output: run.stdout.clone(), audit: Some(audit) }
        },
        Err(error) => ToolReport {
            phase: Phase::Failed { detail: t::truncate(error.as_str(), 80) },
            body: "Tool error: ".to_owned().concat(error.as_str()),
            input: recorded,
            output: error.clone(),
            audit: None,
        },
    }
}

/// What is sent where there is no such tool.
pub fn tool_missing_text(name: &str) -> (r: String)
    ensures
        r@ == "Tool `"@ + name@ + "` is not registered. Use `maturana tool register` first."@,
{
    "Tool `".to_owned().concat(name).concat("` is not registered. Use `maturana tool register` first.")
}

/// A tool that ran well is answered with its output, and one that failed with
/// what it complained of; both are kept with what was asked and what came out.
pub proof fn law_a_tool_is_answered_with_its_output(name: Seq<char>, input: Seq<char>, run: ToolRun, sent: Seq<char>)
    requires
        delivery::fits(run.stdout@, sent),
    ensures
        ({
            let report = run_report(name, input, run);
            &&& run.ok && t::trimmed(sent).len() > 0 ==> report.body == sent
            &&& run.ok && t::trimmed(sent).len() == 0 ==> report.body == "(tool produced no output)"@
            &&& !run.ok ==> t::starts(report.body, "Tool failed: "@)
            &&& run.ok <==> report.phase is Done
            &&& !run.ok <==> report.phase is Failed
            &&& report.input == "/tool "@ + name + " "@ + input
            &&& report.output == run.stdout@
            &&& run.ok ==> report.audit == Some("ran tool "@ + name + " ok="@ + "true"@)
            &&& !run.ok ==> report.audit == Some("ran tool "@ + name + " ok="@ + "false"@)
        }),
{
    let front = "Tool failed: "@;
    let body = front + delivery::fit_for_chat(t::trimmed(run.stderr@));
    assert(body.subrange(0, front.len() as int) =~= front);
}

/// A tool that could not be run is answered with the reason, which is kept.
pub proof fn law_a_tool_that_cannot_run_says_why(name: Seq<char>, input: Seq<char>, error: Seq<char>)
    ensures
        error_report(name, input, error).body == "Tool error: "@ + error,
        error_report(name, input, error).phase is Failed,
        error_report(name, input, error).input == "/tool "@ + name + " "@ + input,
        error_report(name, input, error).output == error,
        error_report(name, input, error).audit is None,
{
}

/// While nothing has happened nothing is shown at first, and then, with the time,
/// that the agent thinks.
pub proof fn law_a_silent_turn_is_shown_as_thinking(now: u64)
    ensures
        now < THINKING_NANOS ==> live_html(Seq::empty(), now).len() == 0,
        now >= THINKING_NANOS ==> live_html(Seq::empty(), now).len() > 0 && t::has(
            live_html(Seq::empty(), now),
            clock(now),
        ),
{
    let a = "<pre>💭 Thinking… "@;
    reveal_strlit("<pre>💭 Thinking… ");
    t::lemma_has_part(a, clock(now), "</pre>"@);
    assert(a.len() > 0);
}

} // verus!
