//! The Slack channel.

use crate::json;
use crate::json::{field, record, Json, Tree};
use crate::text as t;
use vstd::prelude::*;
use vstd::string::*;

verus! {

/// A text without the mention of the bot in front.
pub open spec fn without_mention(text: Seq<char>) -> Seq<char> {
    match t::after_prefix(t::trimmed_start(text), "<"@) {
        Some(rest) => match t::cut(rest, ">"@) {
            Some((_, tail)) => if t::starts(rest, "@"@) {
                t::trimmed(tail)
            } else {
                text
            },
            None => text,
        },
        None => text,
    }
}

pub fn strip_slack_mention(text: &str) -> (r: String)
    ensures
        r@ == without_mention(text@),
{
    let lead = t::trim_start(text);
    match t::strip_prefix(lead.as_str(), "<") {
        Some(rest) => match t::split_once(rest.as_str(), ">") {
            Some((_, tail)) => if t::starts_with(rest.as_str(), "@") {
                t::trim(tail.as_str())
            } else {
                text.to_owned()
            },
            None => text.to_owned(),
        },
        None => text.to_owned(),
    }
}

/// A message for the agent: the channel, the text and the thread.
#[derive(Debug, PartialEq, Eq)]
pub struct SlackPrompt<S> {
    pub channel: S,
    pub text: S,
    pub thread: Option<S>,
}

impl View for SlackPrompt<String> {
    type V = SlackPrompt<Seq<char>>;

    open spec fn view(&self) -> SlackPrompt<Seq<char>> {
        SlackPrompt { channel: self.channel@, text: self.text@, thread: t::opt_view(self.thread) }
    }
}

pub open spec fn opt_prompt(o: Option<SlackPrompt<String>>) -> Option<SlackPrompt<Seq<char>>> {
    match o {
        Some(p) => Some(p@),
        None => None,
    }
}

/// What an event asks of the agent: only what a user wrote counts.
pub open spec fn prompt_in_event(event: Tree) -> Option<SlackPrompt<Seq<char>>> {
    let kind = event.text_at("type"@);
    if kind != Some("message"@) && kind != Some("app_mention"@) {
        None
    } else if event.get("bot_id"@) is Some || event.get("subtype"@) is Some {
        None
    } else {
        match (event.text_at("text"@), event.text_at("channel"@)) {
            (Some(text), Some(channel)) => if t::trimmed(text).len() == 0 {
                None
            } else {
                Some(
                    SlackPrompt {
                        channel,
                        text: without_mention(t::trimmed(text)),
                        thread: if event.get("thread_ts"@) is Some {
                            event.text_at("thread_ts"@)
                        } else {
                            event.text_at("ts"@)
                        },
                    },
                )
            },
            _ => None,
        }
    }
}

/// What an envelope asks of the agent.
pub open spec fn slack_prompt(envelope: Tree) -> Option<SlackPrompt<Seq<char>>> {
    match envelope.get("payload"@) {
        Some(payload) => match payload.get("event"@) {
            Some(event) => prompt_in_event(event),
            None => None,
        },
        None => None,
    }
}

fn event_prompt(event: &Json) -> (r: Option<SlackPrompt<String>>)
    ensures
        opt_prompt(r) == prompt_in_event(event@),
{
    let relevant = match event.text_at("type") {
        Some(kind) => t::same(kind.as_str(), "message") || t::same(kind.as_str(), "app_mention"),
        None => false,
    };
    if !relevant || event.get("bot_id").is_some() || event.get("subtype").is_some() {
        return None;
    }
    match (event.text_at("text"), event.text_at("channel")) {
        (Some(text), Some(channel)) => {
            let words = t::trim(text.as_str());
            if words.as_str().is_empty() {
                return None;
            }
            let thread = if event.get("thread_ts").is_some() {
                event.text_at("thread_ts")
            } else {
                event.text_at("ts")
            };
            Some(SlackPrompt { channel, text: strip_slack_mention(words.as_str()), thread })
        },
        _ => None,
    }
}

/// Reads what an envelope asks of the agent.
pub fn slack_extract_prompt(envelope: &Json) -> (r: Option<SlackPrompt<String>>)
    ensures
        opt_prompt(r) == slack_prompt(envelope@),
{
    match envelope.get("payload") {
        Some(payload) => match payload.get("event") {
            Some(event) => event_prompt(event),
            None => None,
        },
        None => None,
    }
}

/// What is done about an envelope: the id to acknowledge, where it has one, and
/// what it asks of the agent.
pub open spec fn envelope_of(envelope: Tree) -> (Option<Seq<char>>, Option<SlackPrompt<Seq<char>>>) {
    (
        envelope.text_at("envelope_id"@),
        if envelope.text_at("type"@) == Some("events_api"@) {
            slack_prompt(envelope)
        } else {
            None
        },
    )
}

/// Reads the text of an envelope; none where it is no JSON.
pub fn take_envelope(text: &str) -> (r: Option<(Option<String>, Option<SlackPrompt<String>>)>)
    ensures
        match json::parsed_json(text@) {
            Some(envelope) => r matches Some(x) && (t::opt_view(x.0), opt_prompt(x.1)) == envelope_of(envelope),
            None => r is None,
        },
{
    match json::parse_json(text) {
        Some(envelope) => Some(read_envelope(&envelope)),
        None => None,
    }
}

pub fn read_envelope(envelope: &Json) -> (r: (Option<String>, Option<SlackPrompt<String>>))
    ensures
        (t::opt_view(r.0), opt_prompt(r.1)) == envelope_of(envelope@),
{
    let ack = envelope.text_at("envelope_id");
    let relevant = match envelope.text_at("type") {
        Some(kind) => t::same(kind.as_str(), "events_api"),
        None => false,
    };
    if relevant {
        (ack, slack_extract_prompt(envelope))
    } else {
        (ack, None)
    }
}

/// The document that acknowledges an envelope.
pub fn ack_body(envelope_id: &str) -> (r: Json)
    ensures
        r@ == Tree::Record(seq![("envelope_id"@, Tree::Text(envelope_id@))]),
{
    let mut f: Vec<(String, Json)> = Vec::new();
    field(&mut f, "envelope_id", Json::Text(envelope_id.to_owned()));
    assert(json::entries(f@) =~= seq![("envelope_id"@, Tree::Text(envelope_id@))]);
    record(f)
}

/// Messages by bots, edits and other events never reach the agent.
pub proof fn law_only_users_are_heard(envelope: Tree, event: Tree)
    requires
        envelope.get("payload"@) is Some,
        envelope.get("payload"@)->0.get("event"@) == Some(event),
        event.get("bot_id"@) is Some || event.get("subtype"@) is Some || (event.text_at("type"@) != Some("message"@)
            && event.text_at("type"@) != Some("app_mention"@)),
    ensures
        slack_prompt(envelope) is None,
{
}

/// The document of a message to a channel, in its thread where there is one.
pub open spec fn post_body(channel: Seq<char>, thread: Option<Seq<char>>, text: Seq<char>) -> Tree {
    let base = seq![("channel"@, Tree::Text(channel)), ("text"@, Tree::Text(text))];
    Tree::Record(
        match thread {
            Some(ts) => base.push(("thread_ts"@, Tree::Text(ts))),
            None => base,
        },
    )
}

pub fn slack_post_message(channel: &str, thread: Option<&str>, text: &str) -> (r: Json)
    ensures
        r@ == post_body(channel@, t::opt_str(thread), text@),
{
    let mut f: Vec<(String, Json)> = Vec::new();
    field(&mut f, "channel", Json::Text(channel.to_owned()));
    field(&mut f, "text", Json::Text(text.to_owned()));
    assert(json::entries(f@) =~= seq![("channel"@, Tree::Text(channel@)), ("text"@, Tree::Text(text@))]);
    match thread {
        Some(ts) => field(&mut f, "thread_ts", Json::Text(ts.to_owned())),
        None => {},
    }
    record(f)
}

/// What the answer to a call means.
#[derive(Debug, PartialEq, Eq)]
pub enum SlackAnswer<S> {
    /// The call was refused.
    Refused,
    /// The call went well; what it was made for, where the answer holds it.
    Done { value: Option<S> },
}

impl View for SlackAnswer<String> {
    type V = SlackAnswer<Seq<char>>;

    open spec fn view(&self) -> SlackAnswer<Seq<char>> {
        match self {
            SlackAnswer::Refused => SlackAnswer::Refused,
            SlackAnswer::Done { value } => SlackAnswer::Done { value: t::opt_view(*value) },
        }
    }
}

/// Reads the answer to a call, of which the text under `key` is wanted: `url` for
/// a new connection, `ts` for a message.
pub fn read_answer(answer: &Json, key: &str) -> (r: SlackAnswer<String>)
    ensures
        r@ == if answer@.truth_at("ok"@) == Some(true) {
            SlackAnswer::Done { value: answer@.text_at(key@) }
        } else {
            SlackAnswer::Refused
        },
{
    match answer.truth_at("ok") {
        Some(true) => SlackAnswer::Done { value: answer.text_at(key) },
        _ => SlackAnswer::Refused,
    }
}

/// Where the served channel stands.
#[derive(Debug, PartialEq, Eq)]
pub enum SlackStage<P> {
    /// The socket is opened.
    Connecting,
    /// An envelope is awaited.
    Reading,
    /// An envelope is acknowledged; it may ask something of the agent.
    Acking { prompt: Option<P> },
    Enqueueing { prompt: P },
    /// The agent takes its turn here.
    Running { prompt: P },
    Delivering { prompt: P },
    /// The channel rests before it connects again.
    Resting,
    Ended,
}

#[derive(Debug, PartialEq, Eq)]
pub enum SlackEvent<S, P> {
    Done,
    /// An envelope came: its id, and what it asks of the agent.
    Envelope { id: Option<S>, prompt: Option<P> },
    Failed,
}

#[derive(Debug, PartialEq, Eq)]
pub enum SlackAction<S, P> {
    Connect,
    Read,
    Ack { id: S },
    Enqueue { prompt: P },
    /// Let the agent take one turn here.
    RunOnce,
    /// Send what waits for the channel, in the thread of the message.
    Deliver { prompt: P },
    /// Report the error that came last, and rest.
    ReportAndRest { seconds: u64 },
    /// Report the error that came last, and end.
    ReportAndFinish,
    /// The event is not one that was waited for.
    Ignore,
}

pub type StageView = SlackStage<SlackPrompt<Seq<char>>>;

pub type EventView = SlackEvent<Seq<char>, SlackPrompt<Seq<char>>>;

pub type ActionView = SlackAction<Seq<char>, SlackPrompt<Seq<char>>>;

impl View for SlackStage<SlackPrompt<String>> {
    type V = StageView;

    open spec fn view(&self) -> StageView {
        match self {
            SlackStage::Connecting => SlackStage::Connecting,
            SlackStage::Reading => SlackStage::Reading,
            SlackStage::Acking { prompt } => SlackStage::Acking { prompt: opt_prompt(*prompt) },
            SlackStage::Enqueueing { prompt } => SlackStage::Enqueueing { prompt: prompt@ },
            SlackStage::Running { prompt } => SlackStage::Running { prompt: prompt@ },
            SlackStage::Delivering { prompt } => SlackStage::Delivering { prompt: prompt@ },
            SlackStage::Resting => SlackStage::Resting,
            SlackStage::Ended => SlackStage::Ended,
        }
    }
}

impl View for SlackEvent<String, SlackPrompt<String>> {
    type V = EventView;

    open spec fn view(&self) -> EventView {
        match self {
            SlackEvent::Done => SlackEvent::Done,
            SlackEvent::Envelope { id, prompt } => SlackEvent::Envelope {
                id: t::opt_view(*id),
                prompt: opt_prompt(*prompt),
            },
            SlackEvent::Failed => SlackEvent::Failed,
        }
    }
}

impl View for SlackAction<String, SlackPrompt<String>> {
    type V = ActionView;

    open spec fn view(&self) -> ActionView {
        match self {
            SlackAction::Connect => SlackAction::Connect,
            SlackAction::Read => SlackAction::Read,
            SlackAction::Ack { id } => SlackAction::Ack { id: id@ },
            SlackAction::Enqueue { prompt } => SlackAction::Enqueue { prompt: prompt@ },
            SlackAction::RunOnce => SlackAction::RunOnce,
            SlackAction::Deliver { prompt } => SlackAction::Deliver { prompt: prompt@ },
            SlackAction::ReportAndRest { seconds } => SlackAction::ReportAndRest { seconds: *seconds },
            SlackAction::ReportAndFinish => SlackAction::ReportAndFinish,
            SlackAction::Ignore => SlackAction::Ignore,
        }
    }
}

impl SlackPrompt<String> {
    pub fn copy(&self) -> (r: SlackPrompt<String>)
        ensures
            r@ == self@,
    {
        SlackPrompt {
            channel: self.channel.clone(),
            text: self.text.clone(),
            thread: match &self.thread {
                Some(ts) => Some(ts.clone()),
                None => None,
            },
        }
    }
}

/// How the channel is served: one session only, and whether the agent takes its
/// turns here.
#[derive(Debug, PartialEq, Eq)]
pub struct SlackOptions {
    pub once: bool,
    pub run_here: bool,
}

/// What is done about an envelope once it was acknowledged.
pub open spec fn taken(prompt: Option<SlackPrompt<Seq<char>>>) -> (StageView, ActionView) {
    match prompt {
        Some(prompt) => (SlackStage::Enqueueing { prompt }, SlackAction::Enqueue { prompt }),
        None => (SlackStage::Reading, SlackAction::Read),
    }
}

impl SlackOptions {
    /// One socket session: from an envelope to the delivery of its reply, and to
    /// the next envelope.
    pub open spec fn session(self, stage: StageView, event: EventView) -> Option<(StageView, ActionView)> {
        match (stage, event) {
            (SlackStage::Connecting, SlackEvent::Done) => Some((SlackStage::Reading, SlackAction::Read)),
            (SlackStage::Reading, SlackEvent::Envelope { id: Some(id), prompt }) => Some(
                (SlackStage::Acking { prompt }, SlackAction::Ack { id }),
            ),
            (SlackStage::Reading, SlackEvent::Envelope { id: None, prompt }) => Some(taken(prompt)),
            (SlackStage::Acking { prompt }, SlackEvent::Done | SlackEvent::Failed) => Some(taken(prompt)),
            (SlackStage::Enqueueing { prompt }, SlackEvent::Done) => Some(
                if self.run_here {
                    (SlackStage::Running { prompt }, SlackAction::RunOnce)
                } else {
                    (SlackStage::Delivering { prompt }, SlackAction::Deliver { prompt })
                },
            ),
            (SlackStage::Running { prompt }, SlackEvent::Done) => Some(
                (SlackStage::Delivering { prompt }, SlackAction::Deliver { prompt }),
            ),
            (SlackStage::Delivering { .. }, SlackEvent::Done) => Some((SlackStage::Reading, SlackAction::Read)),
            _ => None,
        }
    }

    /// The served channel: a session that fails is reported, and another one is
    /// opened a while later, unless one was all that was asked for.
    pub open spec fn next(self, stage: StageView, event: EventView) -> (StageView, ActionView) {
        match self.session(stage, event) {
            Some(step) => step,
            None => match (stage, event) {
                (SlackStage::Resting, SlackEvent::Done) => (SlackStage::Connecting, SlackAction::Connect),
                (
                    SlackStage::Connecting | SlackStage::Reading | SlackStage::Enqueueing { .. }
                    | SlackStage::Running { .. } | SlackStage::Delivering { .. },
                    SlackEvent::Failed,
                ) => if self.once {
                    (SlackStage::Ended, SlackAction::ReportAndFinish)
                } else {
                    (SlackStage::Resting, SlackAction::ReportAndRest { seconds: 5 })
                },
                _ => (stage, SlackAction::Ignore),
            },
        }
    }

    /// Goes on when an event comes; the channel starts in `Connecting`, with its
    /// connection.
    pub fn serve_slack(&self, stage: SlackStage<SlackPrompt<String>>, event: SlackEvent<String, SlackPrompt<String>>) -> (r:
        (SlackStage<SlackPrompt<String>>, SlackAction<String, SlackPrompt<String>>))
        ensures
            (r.0@, r.1@) == self.next(stage@, event@),
    {
        match (stage, event) {
            (SlackStage::Connecting, SlackEvent::Done) => (SlackStage::Reading, SlackAction::Read),
            (SlackStage::Reading, SlackEvent::Envelope { id: Some(id), prompt }) => (
                SlackStage::Acking { prompt },
                SlackAction::Ack { id },
            ),
            (SlackStage::Reading, SlackEvent::Envelope { id: None, prompt }) => take_prompt(prompt),
            (SlackStage::Acking { prompt }, SlackEvent::Done | SlackEvent::Failed) => take_prompt(prompt),
            (SlackStage::Enqueueing { prompt }, SlackEvent::Done) => if self.run_here {
                (SlackStage::Running { prompt }, SlackAction::RunOnce)
            } else {
                let due = prompt.copy();
                (SlackStage::Delivering { prompt }, SlackAction::Deliver { prompt: due })
            },
            (SlackStage::Running { prompt }, SlackEvent::Done) => {
                let due = prompt.copy();
                (SlackStage::Delivering { prompt }, SlackAction::Deliver { prompt: due })
            },
            (SlackStage::Delivering { .. }, SlackEvent::Done) => (SlackStage::Reading, SlackAction::Read),
            (SlackStage::Resting, SlackEvent::Done) => (SlackStage::Connecting, SlackAction::Connect),
            (
                SlackStage::Connecting | SlackStage::Reading | SlackStage::Enqueueing { .. } | SlackStage::Running { .. }
                | SlackStage::Delivering { .. },
                SlackEvent::Failed,
            ) => if self.once {
                (SlackStage::Ended, SlackAction::ReportAndFinish)
            } else {
                (SlackStage::Resting, SlackAction::ReportAndRest { seconds: 5 })
            },
            (stage, _) => (stage, SlackAction::Ignore),
        }
    }
}

fn take_prompt(prompt: Option<SlackPrompt<String>>) -> (r: (
    SlackStage<SlackPrompt<String>>,
    SlackAction<String, SlackPrompt<String>>,
))
    ensures
        (r.0@, r.1@) == taken(opt_prompt(prompt)),
{
    match prompt {
        Some(prompt) => {
            let words = prompt.copy();
            (SlackStage::Enqueueing { prompt }, SlackAction::Enqueue { prompt: words })
        },
        None => (SlackStage::Reading, SlackAction::Read),
    }
}

/// An envelope that has an id is acknowledged before the agent hears of it, and
/// the agent hears of it though the acknowledgement fails.
pub proof fn law_an_envelope_is_acknowledged_first(
    o: SlackOptions,
    id: Seq<char>,
    prompt: SlackPrompt<Seq<char>>,
    acked: EventView,
)
    requires
        acked is Done || acked is Failed,
    ensures
        ({
            let (acking, first) = o.next(
                SlackStage::Reading,
                SlackEvent::Envelope { id: Some(id), prompt: Some(prompt) },
            );
            first == (ActionView::Ack { id }) && o.next(acking, acked).1 == (ActionView::Enqueue { prompt })
        }),
{
}

/// A channel that is served on comes back after every failure.
pub proof fn law_a_lost_session_is_opened_again(o: SlackOptions, stage: StageView)
    requires
        !o.once,
        o.next(stage, SlackEvent::Failed).1 !is Ignore,
        stage !is Acking,
    ensures
        o.next(o.next(stage, SlackEvent::Failed).0, SlackEvent::Done) == (
            StageView::Connecting,
            ActionView::Connect,
        ),
{
}

/// What a user writes in a channel reaches the agent: in the channel and in the
/// thread it was written in, without the mention of the bot.
pub proof fn law_what_a_user_writes_is_heard(envelope: Tree, payload: Tree, event: Tree, text: Seq<char>, channel: Seq<char>)
    requires
        envelope.get("payload"@) == Some(payload),
        payload.get("event"@) == Some(event),
        event.text_at("type"@) == Some("message"@) || event.text_at("type"@) == Some("app_mention"@),
        event.get("bot_id"@) is None,
        event.get("subtype"@) is None,
        event.text_at("text"@) == Some(text),
        event.text_at("channel"@) == Some(channel),
        t::trimmed(text).len() > 0,
    ensures
        slack_prompt(envelope) matches Some(p) && {
            &&& p.channel == channel
            &&& t::trimmed(text)[0] != '<' ==> p.text == t::trimmed(text)
            &&& event.get("thread_ts"@) is Some ==> p.thread == event.text_at("thread_ts"@)
            &&& event.get("thread_ts"@) is None ==> p.thread == event.text_at("ts"@)
        },
        envelope.text_at("type"@) == Some("events_api"@) ==> envelope_of(envelope) == (
            envelope.text_at("envelope_id"@),
            slack_prompt(envelope),
        ),
        envelope.text_at("type"@) != Some("events_api"@) ==> envelope_of(envelope).1 is None,
{
    let said = t::trimmed(text);
    t::lemma_trimmed_twice(text);
    reveal_strlit("<");
    assert("<"@.len() == 1 && "<"@[0] == '<');
    assert(t::trimmed_start(said) == said);
    if t::starts(said, "<"@) {
        assert(said.subrange(0, 1)[0] == said[0]);
    }
}

/// The mention in front is taken off, and what stands behind it is trimmed.
pub proof fn law_a_mention_is_taken_off(who: Seq<char>, said: Seq<char>)
    requires
        forall|i: int| 0 <= i < who.len() ==> #[trigger] who[i] != '>',
    ensures
        without_mention("<@"@ + who + ">"@ + said) == t::trimmed(said),
{
    reveal_strlit("<@");
    reveal_strlit("<");
    reveal_strlit("@");
    reveal_strlit(">");
    assert("<@"@.len() == 2 && "<@"@[0] == '<' && "<@"@[1] == '@');
    assert("<"@.len() == 1 && "<"@[0] == '<');
    assert("@"@.len() == 1 && "@"@[0] == '@');
    assert(">"@.len() == 1 && ">"@[0] == '>');
    let text = "<@"@ + who + ">"@ + said;
    assert(text[0] == '<');
    reveal_with_fuel(t::trim_start_by, 2);
    assert(t::trimmed_start(text) == text);
    assert(text.subrange(0, 1) =~= "<"@);
    let rest = "@"@ + who + ">"@ + said;
    assert(text.skip(1) =~= rest);
    assert(rest.subrange(0, 1) =~= "@"@);
    let front = "@"@ + who;
    assert forall|i: int| 0 <= i < front.len() implies #[trigger] front[i] != '>' by {
        if i > 0 {
            assert(front[i] == who[i - 1]);
        }
    }
    assert(">"@ =~= seq!['>']);
    assert(rest =~= front + seq!['>'] + said);
    t::lemma_cut_char(front, '>', said);
}

/// A message is posted to its channel, with its text, in its thread.
pub proof fn law_a_message_is_posted_in_its_thread(channel: Seq<char>, thread: Option<Seq<char>>, text: Seq<char>)
    ensures
        post_body(channel, thread, text).text_at("channel"@) == Some(channel),
        post_body(channel, thread, text).text_at("text"@) == Some(text),
        post_body(channel, thread, text).text_at("thread_ts"@) == thread,
        thread is None ==> post_body(channel, thread, text).get("thread_ts"@) is None,
{
    reveal_strlit("channel");
    reveal_strlit("text");
    reveal_strlit("thread_ts");
    assert("channel"@.len() == 7 && "channel"@[0] == 'c' && "channel"@[1] == 'h' && "channel"@[2] == 'a' && "channel"@[3] == 'n' && "channel"@[4] == 'n' && "channel"@[5] == 'e');
    assert("text"@.len() == 4 && "text"@[0] == 't' && "text"@[1] == 'e' && "text"@[2] == 'x' && "text"@[3] == 't');
    assert("thread_ts"@.len() == 9 && "thread_ts"@[0] == 't' && "thread_ts"@[1] == 'h' && "thread_ts"@[2] == 'r' && "thread_ts"@[3] == 'e' && "thread_ts"@[4] == 'a' && "thread_ts"@[5] == 'd');
    reveal_with_fuel(json::entry_from, 4);
}

/// Once it is with the agent, a message is answered in its own channel and
/// thread, after the agent took its turn where it does so here; then the next one
/// is read.
pub proof fn law_a_message_is_answered_where_it_came_from(o: SlackOptions, prompt: SlackPrompt<Seq<char>>)
    ensures
        o.next(StageView::Connecting, EventView::Done) == (StageView::Reading, ActionView::Read),
        o.next(StageView::Reading, EventView::Envelope { id: None, prompt: Some(prompt) }) == (
            StageView::Enqueueing { prompt },
            ActionView::Enqueue { prompt },
        ),
        o.next(StageView::Reading, EventView::Envelope { id: None, prompt: None }) == (StageView::Reading, ActionView::Read),
        !o.run_here ==> o.next(StageView::Enqueueing { prompt }, EventView::Done) == (
            StageView::Delivering { prompt },
            ActionView::Deliver { prompt },
        ),
        o.run_here ==> o.next(StageView::Enqueueing { prompt }, EventView::Done) == (
            StageView::Running { prompt },
            ActionView::RunOnce,
        ),
        o.next(StageView::Running { prompt }, EventView::Done) == (
            StageView::Delivering { prompt },
            ActionView::Deliver { prompt },
        ),
        o.next(StageView::Delivering { prompt }, EventView::Done) == (StageView::Reading, ActionView::Read),
{
}

/// A failed session is reported: it ends where only one was asked for, and else
/// another follows after five seconds.
pub proof fn law_a_failed_session_is_reported(o: SlackOptions, stage: StageView)
    requires
        stage is Connecting || stage is Reading || stage is Enqueueing || stage is Running || stage is Delivering,
    ensures
        o.once ==> o.next(stage, EventView::Failed) == (StageView::Ended, ActionView::ReportAndFinish),
        !o.once ==> o.next(stage, EventView::Failed) == (StageView::Resting, ActionView::ReportAndRest { seconds: 5 }),
{
}

} // verus!
