//! The Discord channel.

use crate::channels::buttons;
use crate::channels::buttons::{rows_json, Style};
use crate::channels::console_bridge;
use crate::channels::console_bridge::{
    dispatch_slash_command, ConsoleCommand, ConsoleCommandView, ConsoleOptions, ConsoleStep, ConsoleStepView,
};
use crate::channels::media;
use crate::channels::media::{extension_text, is_ingestible};
use crate::channels::settings;
use crate::channels::settings::{command_selector_buttons, ChannelSettings, Choices, ChoicesView, SettingsView};
use crate::json;
use crate::json::{field, record, Json, Tree};
use crate::text as t;
use vstd::prelude::*;
use vstd::string::*;

verus! {

/// The largest file that is sent or fetched, in bytes.
pub const MAX_DISCORD_UPLOAD_BYTES: u64 = 26_214_400;

/// What the bot listens to: guilds, the messages in them and in private, and what
/// the messages say.
pub const DISCORD_INTENTS: u64 = 37_377;

/// The channel that a kept note names; none where it is empty.
pub fn current_discord_delivery_channel(raw: &str) -> (r: Option<String>)
    ensures
        t::opt_view(r) == if t::trimmed(raw@).len() > 0 {
            Some(t::trimmed(raw@))
        } else {
            None
        },
{
    let name = t::trim(raw);
    if name.as_str().is_empty() {
        None
    } else {
        Some(name)
    }
}

// ---------------------------------------------------------------------------
// Messages
// ---------------------------------------------------------------------------

/// A text without the mention of the bot in front.
pub open spec fn without_mention(text: Seq<char>) -> Seq<char> {
    match t::after_prefix(t::trimmed_start(text), "<@"@) {
        Some(rest) => match t::cut(rest, ">"@) {
            Some((_, tail)) => t::trimmed(tail),
            None => text,
        },
        None => text,
    }
}

pub fn strip_discord_mention(text: &str) -> (r: String)
    ensures
        r@ == without_mention(text@),
{
    let lead = t::trim_start(text);
    match t::strip_prefix(lead.as_str(), "<@") {
        Some(rest) => match t::split_once(rest.as_str(), ">") {
            Some((_, tail)) => t::trim(tail.as_str()),
            None => text.to_owned(),
        },
        None => text.to_owned(),
    }
}

/// A message for the agent; each attachment has a name and an address.
#[derive(Debug, PartialEq, Eq)]
pub struct DiscordMessage {
    pub channel_id: String,
    pub content: String,
    pub attachments: Vec<(String, String)>,
}

pub struct DiscordMessageView {
    pub channel_id: Seq<char>,
    pub content: Seq<char>,
    pub attachments: Seq<(Seq<char>, Seq<char>)>,
}

impl View for DiscordMessage {
    type V = DiscordMessageView;

    open spec fn view(&self) -> DiscordMessageView {
        DiscordMessageView {
            channel_id: self.channel_id@,
            content: self.content@,
            attachments: settings::button_views(self.attachments@),
        }
    }
}

pub open spec fn opt_message(o: Option<DiscordMessage>) -> Option<DiscordMessageView> {
    match o {
        Some(m) => Some(m@),
        None => None,
    }
}

/// The attachments that have an address.
pub open spec fn attachments_in(items: Seq<Tree>) -> Seq<(Seq<char>, Seq<char>)>
    decreases items.len(),
{
    if items.len() == 0 {
        Seq::empty()
    } else {
        let rest = attachments_in(items.drop_last());
        match items.last().text_at("url"@) {
            Some(url) => rest.push(
                (
                    match items.last().text_at("filename"@) {
                        Some(name) => name,
                        None => "attachment"@,
                    },
                    url,
                ),
            ),
            None => rest,
        }
    }
}

fn read_attachments(items: &Vec<Json>) -> (r: Vec<(String, String)>)
    ensures
        settings::button_views(r@) == attachments_in(json::trees(items@)),
{
    let ghost all = json::trees(items@);
    let mut r: Vec<(String, String)> = Vec::new();
    let mut i: usize = 0;
    assert(all.take(0) =~= Seq::<Tree>::empty());
    assert(settings::button_views(r@) =~= Seq::<(Seq<char>, Seq<char>)>::empty());
    while i < items.len()
        invariant
            i <= items.len(),
            all == json::trees(items@),
            settings::button_views(r@) == attachments_in(all.take(i as int)),
        decreases items.len() - i,
    {
        let ghost before = settings::button_views(r@);
        assert(all.take(i as int + 1).drop_last() =~= all.take(i as int));
        assert(all.take(i as int + 1).last() == items@[i as int]@);
        match items[i].text_at("url") {
            Some(url) => {
                let name = match items[i].text_at("filename") {
                    Some(name) => name,
                    None => "attachment".to_owned(),
                };
                let ghost pair = (name@, url@);
                r.push((name, url));
                assert(settings::button_views(r@) =~= before.push(pair));
            },
            None => {},
        }
        i += 1;
    }
    assert(all.take(all.len() as int) =~= all);
    r
}

pub open spec fn author(d: Tree) -> Option<Tree> {
    d.get("author"@)
}

/// Whether a bot wrote the message, or this bot itself.
pub open spec fn by_a_bot(d: Tree, self_id: Option<Seq<char>>) -> bool {
    match author(d) {
        Some(a) => a.truth_at("bot"@) == Some(true) || (self_id is Some && a.text_at("id"@) == self_id),
        None => false,
    }
}

pub open spec fn message_in(d: Tree, self_id: Option<Seq<char>>) -> Option<DiscordMessageView> {
    let content = match d.text_at("content"@) {
        Some(s) => t::trimmed(s),
        None => t::trimmed(Seq::empty()),
    };
    let attachments = match d.items_at("attachments"@) {
        Some(items) => attachments_in(items),
        None => Seq::empty(),
    };
    match d.text_at("channel_id"@) {
        Some(channel_id) => if by_a_bot(d, self_id) || (content.len() == 0 && attachments.len() == 0) {
            None
        } else {
            Some(DiscordMessageView { channel_id, content: without_mention(content), attachments })
        },
        None => None,
    }
}

/// What a user wrote or sent, from the event that says so.
pub open spec fn discord_message(event: Tree, self_id: Option<Seq<char>>) -> Option<DiscordMessageView> {
    match event.get("d"@) {
        Some(d) => message_in(d, self_id),
        None => None,
    }
}

fn is_by_a_bot(d: &Json, self_id: Option<&str>) -> (r: bool)
    ensures
        r == by_a_bot(d@, t::opt_str(self_id)),
{
    match d.get("author") {
        Some(a) => {
            let bot = match a.truth_at("bot") {
                Some(b) => b,
                None => false,
            };
            let own = match (self_id, a.text_at("id")) {
                (Some(me), Some(id)) => t::same(me, id.as_str()),
                _ => false,
            };
            bot || own
        },
        None => false,
    }
}

fn read_message(d: &Json, self_id: Option<&str>) -> (r: Option<DiscordMessage>)
    ensures
        opt_message(r) == message_in(d@, t::opt_str(self_id)),
{
    if is_by_a_bot(d, self_id) {
        return None;
    }
    let channel_id = match d.text_at("channel_id") {
        Some(c) => c,
        None => {
            return None;
        },
    };
    let content = match d.text_at("content") {
        Some(s) => t::trim(s.as_str()),
        None => {
            let none = String::new();
            assert(none@ =~= Seq::<char>::empty());
            t::trim(none.as_str())
        },
    };
    let attachments = match d.items_at("attachments") {
        Some(items) => read_attachments(items),
        None => {
            let none: Vec<(String, String)> = Vec::new();
            assert(settings::button_views(none@) =~= Seq::<(Seq<char>, Seq<char>)>::empty());
            none
        },
    };
    assert(settings::button_views(attachments@).len() == attachments@.len());
    if content.as_str().is_empty() && attachments.len() == 0 {
        return None;
    }
    Some(DiscordMessage { channel_id, content: strip_discord_mention(content.as_str()), attachments })
}

/// Reads what a user wrote or sent; messages by bots, this one among them, are
/// passed over.
pub fn discord_extract_message(event: &Json, self_id: Option<&str>) -> (r: Option<DiscordMessage>)
    ensures
        opt_message(r) == discord_message(event@, t::opt_str(self_id)),
{
    match event.get("d") {
        Some(d) => read_message(d, self_id),
        None => None,
    }
}

/// The bot never answers itself.
pub proof fn law_own_messages_are_passed_over(event: Tree, d: Tree, id: Seq<char>)
    requires
        event.get("d"@) == Some(d),
        author(d) is Some,
        author(d)->0.text_at("id"@) == Some(id),
    ensures
        discord_message(event, Some(id)) is None,
{
}

// ---------------------------------------------------------------------------
// The gateway
// ---------------------------------------------------------------------------

/// What the session with the gateway has come to know. Times are in nanoseconds
/// since it began.
#[derive(Debug, PartialEq, Eq)]
pub struct Gateway<S> {
    pub heartbeat_ms: u64,
    pub last_heartbeat: u64,
    pub last_seq: Option<i64>,
    pub identified: bool,
    pub self_id: Option<S>,
    /// The channel that a message came from last.
    pub last_channel: Option<S>,
    pub last_flush: u64,
}

impl View for Gateway<String> {
    type V = Gateway<Seq<char>>;

    open spec fn view(&self) -> Gateway<Seq<char>> {
        Gateway {
            heartbeat_ms: self.heartbeat_ms,
            last_heartbeat: self.last_heartbeat,
            last_seq: self.last_seq,
            identified: self.identified,
            self_id: t::opt_view(self.self_id),
            last_channel: t::opt_view(self.last_channel),
            last_flush: self.last_flush,
        }
    }
}

/// What a frame asks for.
#[derive(Debug, PartialEq, Eq)]
pub enum FrameAction<M, I> {
    Nothing,
    /// Introduce the bot.
    Identify,
    /// Send a heartbeat at once; a failure is passed over.
    Beat,
    /// The gateway wants a new session.
    Reconnect { op: i64 },
    /// A message for the agent.
    Message { message: M },
    /// A tap on a button.
    Interaction { tap: I },
}

/// A tap on a button: the interaction, the token to answer it with, and the data
/// of the button.
#[derive(Debug, PartialEq, Eq)]
pub struct Tap<S> {
    pub id: S,
    pub token: S,
    pub data: S,
}

impl View for Tap<String> {
    type V = Tap<Seq<char>>;

    open spec fn view(&self) -> Tap<Seq<char>> {
        Tap { id: self.id@, token: self.token@, data: self.data@ }
    }
}

pub type FrameActionView = FrameAction<DiscordMessageView, Tap<Seq<char>>>;

impl View for FrameAction<DiscordMessage, Tap<String>> {
    type V = FrameActionView;

    open spec fn view(&self) -> FrameActionView {
        match self {
            FrameAction::Nothing => FrameAction::Nothing,
            FrameAction::Identify => FrameAction::Identify,
            FrameAction::Beat => FrameAction::Beat,
            FrameAction::Reconnect { op } => FrameAction::Reconnect { op: *op },
            FrameAction::Message { message } => FrameAction::Message { message: message@ },
            FrameAction::Interaction { tap } => FrameAction::Interaction { tap: tap@ },
        }
    }
}

pub open spec fn or_empty(o: Option<Seq<char>>) -> Seq<char> {
    match o {
        Some(s) => s,
        None => Seq::empty(),
    }
}

fn text_or_empty(o: Option<String>) -> (r: String)
    ensures
        r@ == or_empty(t::opt_view(o)),
{
    match o {
        Some(s) => s,
        None => {
            let none = String::new();
            assert(none@ =~= Seq::<char>::empty());
            none
        },
    }
}

/// The tap that an event speaks of, where it is complete.
pub open spec fn tap_in(event: Tree) -> Option<Tap<Seq<char>>> {
    match event.get("d"@) {
        Some(d) => {
            let id = or_empty(d.text_at("id"@));
            let token = or_empty(d.text_at("token"@));
            let data = match d.get("data"@) {
                Some(x) => or_empty(x.text_at("custom_id"@)),
                None => Seq::empty(),
            };
            if d.int64_at("type"@) != Some(3int) || id.len() == 0 || token.len() == 0 || data.len() == 0 {
                None
            } else {
                Some(Tap { id, token, data })
            }
        },
        None => None,
    }
}

pub open spec fn opt_tap(o: Option<Tap<String>>) -> Option<Tap<Seq<char>>> {
    match o {
        Some(x) => Some(x@),
        None => None,
    }
}

/// Reads a tap on a button.
pub fn handle_discord_interaction(event: &Json) -> (r: Option<Tap<String>>)
    ensures
        opt_tap(r) == tap_in(event@),
{
    match event.get("d") {
        Some(d) => {
            let pressed = match d.int64_at("type") {
                Some(n) => n == 3,
                None => false,
            };
            let id = text_or_empty(d.text_at("id"));
            let token = text_or_empty(d.text_at("token"));
            let data = match d.get("data") {
                Some(x) => text_or_empty(x.text_at("custom_id")),
                None => text_or_empty(None),
            };
            if !pressed || id.as_str().is_empty() || token.as_str().is_empty() || data.as_str().is_empty() {
                None
            } else {
                Some(Tap { id, token, data })
            }
        },
        None => None,
    }
}

pub open spec fn elapsed(now: u64, since: u64) -> int {
    if now >= since {
        now - since
    } else {
        0
    }
}

fn time_since(now: u64, since: u64) -> (r: u64)
    ensures
        r == elapsed(now, since),
{
    if now >= since {
        now - since
    } else {
        0
    }
}

impl Gateway<Seq<char>> {
    /// Whether replies are to be delivered: once a second.
    pub open spec fn flush_due(self, now: u64) -> bool {
        elapsed(now, self.last_flush) >= 1_000_000_000
    }

    pub open spec fn beat_due(self, now: u64) -> bool {
        elapsed(now, self.last_heartbeat) >= self.heartbeat_ms * 1_000_000
    }

    /// The number of the last event is kept from every frame that has one.
    pub open spec fn numbered(self, event: Tree) -> Gateway<Seq<char>> {
        match event.int64_at("s"@) {
            Some(s) => Gateway { last_seq: Some(s as i64), ..self },
            None => self,
        }
    }

    pub open spec fn greeted(self, event: Tree, now: u64) -> (Gateway<Seq<char>>, FrameActionView) {
        let told = match event.get("d"@) {
            Some(d) => d.uint64_at("heartbeat_interval"@),
            None => None,
        };
        (
            Gateway {
                heartbeat_ms: match told {
                    Some(ms) => ms as u64,
                    None => self.heartbeat_ms,
                },
                last_heartbeat: now,
                identified: true,
                ..self
            },
            if self.identified {
                FrameAction::Nothing
            } else {
                FrameAction::Identify
            },
        )
    }

    pub open spec fn dispatched(self, event: Tree) -> (Gateway<Seq<char>>, FrameActionView) {
        let kind = event.text_at("t"@);
        if kind == Some("READY"@) {
            let id = match event.get("d"@) {
                Some(d) => match d.get("user"@) {
                    Some(u) => u.text_at("id"@),
                    None => None,
                },
                None => None,
            };
            (Gateway { self_id: id, ..self }, FrameAction::Nothing)
        } else if kind == Some("MESSAGE_CREATE"@) {
            match discord_message(event, self.self_id) {
                Some(m) => (
                    Gateway { last_channel: Some(m.channel_id), ..self },
                    FrameAction::Message { message: m },
                ),
                None => (self, FrameAction::Nothing),
            }
        } else if kind == Some("INTERACTION_CREATE"@) {
            match tap_in(event) {
                Some(tap) => (self, FrameAction::Interaction { tap }),
                None => (self, FrameAction::Nothing),
            }
        } else {
            (self, FrameAction::Nothing)
        }
    }

    pub open spec fn next(self, event: Tree, now: u64) -> (Gateway<Seq<char>>, FrameActionView) {
        let s = self.numbered(event);
        match event.int64_at("op"@) {
            Some(op) => if op == 10 {
                s.greeted(event, now)
            } else if op == 1 {
                (Gateway { last_heartbeat: now, ..s }, FrameAction::Beat)
            } else if op == 7 || op == 9 {
                (s, FrameAction::Reconnect { op: op as i64 })
            } else if op == 0 {
                s.dispatched(event)
            } else {
                (s, FrameAction::Nothing)
            },
            None => (s, FrameAction::Nothing),
        }
    }
}

impl Gateway<String> {
    pub fn new() -> (r: Self)
        ensures
            r@ == (Gateway::<Seq<char>> {
                heartbeat_ms: 41_000,
                last_heartbeat: 0,
                last_seq: None,
                identified: false,
                self_id: None,
                last_channel: None,
                last_flush: 0,
            }),
    {
        Gateway {
            heartbeat_ms: 41_000,
            last_heartbeat: 0,
            last_seq: None,
            identified: false,
            self_id: None,
            last_channel: None,
            last_flush: 0,
        }
    }

    pub fn is_flush_due(&self, now: u64) -> (r: bool)
        ensures
            r == self@.flush_due(now),
    {
        time_since(now, self.last_flush) >= 1_000_000_000
    }

    pub fn is_beat_due(&self, now: u64) -> (r: bool)
        ensures
            r == self@.beat_due(now),
    {
        let passed: u128 = time_since(now, self.last_heartbeat) as u128;
        passed >= self.heartbeat_ms as u128 * 1_000_000
    }

    /// Replies were delivered.
    pub fn flushed(self, now: u64) -> (r: Self)
        ensures
            r@ == (Gateway { last_flush: now, ..self@ }),
    {
        let mut s = self;
        s.last_flush = now;
        s
    }

    /// A heartbeat was sent.
    pub fn beaten(self, now: u64) -> (r: Self)
        ensures
            r@ == (Gateway { last_heartbeat: now, ..self@ }),
    {
        let mut s = self;
        s.last_heartbeat = now;
        s
    }

    fn number(self, event: &Json) -> (r: Self)
        ensures
            r@ == self@.numbered(event@),
    {
        let mut s = self;
        match event.int64_at("s") {
            Some(n) => {
                s.last_seq = Some(n);
            },
            None => {},
        }
        s
    }

    fn greet(self, event: &Json, now: u64) -> (r: (Self, FrameAction<DiscordMessage, Tap<String>>))
        ensures
            (r.0@, r.1@) == self@.greeted(event@, now),
    {
        let told = match event.get("d") {
            Some(d) => d.uint64_at("heartbeat_interval"),
            None => None,
        };
        let mut s = self;
        match told {
            Some(ms) => {
                s.heartbeat_ms = ms;
            },
            None => {},
        }
        s.last_heartbeat = now;
        if s.identified {
            (s, FrameAction::Nothing)
        } else {
            s.identified = true;
            (s, FrameAction::Identify)
        }
    }

    fn dispatch(self, event: &Json) -> (r: (Self, FrameAction<DiscordMessage, Tap<String>>))
        ensures
            (r.0@, r.1@) == self@.dispatched(event@),
    {
        let mut s = self;
        let kind = match event.text_at("t") {
            Some(k) => k,
            None => {
                return (s, FrameAction::Nothing);
            },
        };
        if t::same(kind.as_str(), "READY") {
            let id = match event.get("d") {
                Some(d) => match d.get("user") {
                    Some(u) => u.text_at("id"),
                    None => None,
                },
                None => None,
            };
            s.self_id = id;
            (s, FrameAction::Nothing)
        } else if t::same(kind.as_str(), "MESSAGE_CREATE") {
            let found = {
                let me = match &s.self_id {
                    Some(id) => Some(id.as_str()),
                    None => None,
                };
                discord_extract_message(event, me)
            };
            match found {
                Some(message) => {
                    s.last_channel = Some(message.channel_id.clone());
                    (s, FrameAction::Message { message })
                },
                None => (s, FrameAction::Nothing),
            }
        } else if t::same(kind.as_str(), "INTERACTION_CREATE") {
            match handle_discord_interaction(event) {
                Some(tap) => (s, FrameAction::Interaction { tap }),
                None => (s, FrameAction::Nothing),
            }
        } else {
            (s, FrameAction::Nothing)
        }
    }

    /// Takes a frame from the gateway.
    pub fn discord_gateway_session(self, event: &Json, now: u64) -> (r: (
        Self,
        FrameAction<DiscordMessage, Tap<String>>,
    ))
        ensures
            (r.0@, r.1@) == self@.next(event@, now),
    {
        let s = self.number(event);
        match event.int64_at("op") {
            Some(op) => if op == 10 {
                s.greet(event, now)
            } else if op == 1 {
                let mut s = s;
                s.last_heartbeat = now;
                (s, FrameAction::Beat)
            } else if op == 7 || op == 9 {
                (s, FrameAction::Reconnect { op })
            } else if op == 0 {
                s.dispatch(event)
            } else {
                (s, FrameAction::Nothing)
            },
            None => (s, FrameAction::Nothing),
        }
    }
}

impl Gateway<String> {
    /// Takes the text of a frame; none where it is no JSON.
    pub fn take_frame(self, text: &str, now: u64) -> (r: Option<(Self, FrameAction<DiscordMessage, Tap<String>>)>)
        ensures
            match json::parsed_json(text@) {
                Some(event) => r matches Some(x) && (x.0@, x.1@) == self@.next(event, now),
                None => r is None,
            },
    {
        match json::parse_json(text) {
            Some(event) => Some(self.discord_gateway_session(&event, now)),
            None => None,
        }
    }
}

/// The bot introduces itself once in a session at most.
pub proof fn law_the_bot_identifies_once(g: Gateway<Seq<char>>, event: Tree, now: u64)
    ensures
        g.next(event, now).1 is Identify ==> !g.identified && g.next(event, now).0.identified,
        g.identified ==> g.next(event, now).0.identified,
{
}

/// Why a session ends when the gateway wants a new one.
pub fn reconnect_text(op: i64) -> (r: String)
    ensures
        r@ == "discord gateway requested reconnect (op "@ + t::signed_decimal(op as int) + ")"@,
{
    "discord gateway requested reconnect (op ".to_owned().concat(t::i64_text(op).as_str()).concat(")")
}

/// A heartbeat with the number of the last event.
pub open spec fn heartbeat_body(seq: Option<i64>) -> Tree {
    Tree::Record(
        seq![
            ("op"@, Tree::Int(1)),
            (
                "d"@,
                match seq {
                    Some(n) => Tree::Int(n as int),
                    None => Tree::Null,
                },
            ),
        ],
    )
}

pub fn heartbeat_json(seq: Option<i64>) -> (r: Json)
    ensures
        r@ == heartbeat_body(seq),
{
    let d = match seq {
        Some(n) => Json::Int(n as i128),
        None => Json::Null,
    };
    let mut f: Vec<(String, Json)> = Vec::new();
    field(&mut f, "op", Json::Int(1));
    field(&mut f, "d", d);
    assert(json::entries(f@) =~= heartbeat_body(seq)->Record_0);
    record(f)
}

/// How the bot introduces itself.
pub open spec fn identify_body(token: Seq<char>) -> Tree {
    Tree::Record(
        seq![
            ("op"@, Tree::Int(2)),
            (
                "d"@,
                Tree::Record(
                    seq![
                        ("token"@, Tree::Text(token)),
                        ("intents"@, Tree::Int(37_377)),
                        (
                            "properties"@,
                            Tree::Record(
                                seq![
                                    ("os"@, Tree::Text("linux"@)),
                                    ("browser"@, Tree::Text("maturana"@)),
                                    ("device"@, Tree::Text("maturana"@)),
                                ],
                            ),
                        ),
                    ],
                ),
            ),
        ],
    )
}

pub fn identify_json(token: &str) -> (r: Json)
    ensures
        r@ == identify_body(token@),
{
    let mut p: Vec<(String, Json)> = Vec::new();
    field(&mut p, "os", Json::Text("linux".to_owned()));
    field(&mut p, "browser", Json::Text("maturana".to_owned()));
    field(&mut p, "device", Json::Text("maturana".to_owned()));
    assert(json::entries(p@) =~= seq![
        ("os"@, Tree::Text("linux"@)),
        ("browser"@, Tree::Text("maturana"@)),
        ("device"@, Tree::Text("maturana"@)),
    ]);
    let mut d: Vec<(String, Json)> = Vec::new();
    field(&mut d, "token", Json::Text(token.to_owned()));
    field(&mut d, "intents", Json::Int(DISCORD_INTENTS as i128));
    let ghost props = Tree::Record(json::entries(p@));
    field(&mut d, "properties", record(p));
    assert(json::entries(d@) =~= seq![
        ("token"@, Tree::Text(token@)),
        ("intents"@, Tree::Int(37_377)),
        ("properties"@, props),
    ]);
    let ghost data = Tree::Record(json::entries(d@));
    let mut f: Vec<(String, Json)> = Vec::new();
    field(&mut f, "op", Json::Int(2));
    field(&mut f, "d", record(d));
    assert(json::entries(f@) =~= seq![("op"@, Tree::Int(2)), ("d"@, data)]);
    record(f)
}

// ---------------------------------------------------------------------------
// Commands
// ---------------------------------------------------------------------------

/// What a message comes to.
#[derive(Debug, PartialEq, Eq)]
pub enum DiscordStep<S, C, D> {
    /// Hand the text to the agent.
    Prompt { text: S },
    /// Post the choices as buttons.
    Choose { choices: C },
    Post { text: S },
    /// Do what the slash command asks for.
    Command { step: D },
}

pub type DiscordStepView = DiscordStep<Seq<char>, ChoicesView, ConsoleStepView>;

impl View for DiscordStep<String, Choices, ConsoleStep<String, ConsoleCommand<String, ConsoleOptions>>> {
    type V = DiscordStepView;

    open spec fn view(&self) -> DiscordStepView {
        match self {
            DiscordStep::Prompt { text } => DiscordStep::Prompt { text: text@ },
            DiscordStep::Choose { choices } => DiscordStep::Choose { choices: choices@ },
            DiscordStep::Post { text } => DiscordStep::Post { text: text@ },
            DiscordStep::Command { step } => DiscordStep::Command { step: step@ },
        }
    }
}

pub open spec fn slash_step(s: SettingsView, models: Seq<Seq<char>>, content: Seq<char>) -> DiscordStepView {
    let (head, args) = crate::channels::routing::head_and_rest(t::trimmed(content));
    let name = console_bridge::command_name(head);
    if console_bridge::picks(name) && args.len() == 0 {
        match settings::choices_of(s, models, name) {
            Some(choices) => DiscordStep::Choose { choices },
            None => DiscordStep::Post { text: "No options available for that command."@ },
        }
    } else {
        DiscordStep::Command { step: console_bridge::console_step(s, models, content) }
    }
}

/// A slash command is looked into; anything else goes to the agent.
pub open spec fn content_step(s: SettingsView, models: Seq<Seq<char>>, content: Seq<char>) -> DiscordStepView {
    if t::starts(t::trimmed_start(content), "/"@) {
        slash_step(s, models, content)
    } else {
        DiscordStep::Prompt { text: content }
    }
}

/// Decides about what a user wrote.
pub fn handle_discord_content(s: &ChannelSettings, models: &Vec<String>, content: String) -> (r: DiscordStep<
    String,
    Choices,
    ConsoleStep<String, ConsoleCommand<String, ConsoleOptions>>,
>)
    ensures
        r@ == content_step(s@, t::texts(models@), content@),
{
    if !t::starts_with(t::trim_start(content.as_str()).as_str(), "/") {
        return DiscordStep::Prompt { text: content };
    }
    let (name, args) = console_bridge::split_command(content.as_str());
    let n = name.as_str();
    let picks = t::same(n, "model") || t::same(n, "models") || t::same(n, "reasoning") || t::same(
        n,
        "tts-provider",
    ) || t::same(n, "session");
    if picks && args.as_str().is_empty() {
        match command_selector_buttons(s, models, n) {
            Some(choices) => DiscordStep::Choose { choices },
            None => DiscordStep::Post { text: "No options available for that command.".to_owned() },
        }
    } else {
        DiscordStep::Command { step: dispatch_slash_command(s, models, content.as_str()) }
    }
}

/// What is posted for a console command, or handed to the agent.
#[derive(Debug, PartialEq, Eq)]
pub enum DiscordAnswer<S> {
    Post { text: S },
    Prompt { text: S },
}

impl View for DiscordAnswer<String> {
    type V = DiscordAnswer<Seq<char>>;

    open spec fn view(&self) -> DiscordAnswer<Seq<char>> {
        match self {
            DiscordAnswer::Post { text } => DiscordAnswer::Post { text: text@ },
            DiscordAnswer::Prompt { text } => DiscordAnswer::Prompt { text: text@ },
        }
    }
}

pub open spec fn option_lines(options: Seq<(Seq<char>, Seq<char>)>, n: int) -> Seq<char>
    decreases n,
{
    if n <= 0 || n > options.len() {
        Seq::empty()
    } else {
        option_lines(options, n - 1) + "\n• "@ + options[n - 1].0
    }
}

pub open spec fn discord_answer(c: ConsoleCommandView) -> DiscordAnswer<Seq<char>> {
    match c {
        ConsoleCommand::Reply { text } => DiscordAnswer::Post { text },
        ConsoleCommand::Prompt { text } => DiscordAnswer::Prompt { text },
        ConsoleCommand::NewSession => DiscordAnswer::Post { text: "New session started."@ },
        ConsoleCommand::Clear => DiscordAnswer::Post { text: "Cleared."@ },
        ConsoleCommand::Quit => DiscordAnswer::Post { text: "`/quit` is console-only."@ },
        ConsoleCommand::Select { title, options } => DiscordAnswer::Post {
            text: (if t::lines_of(title).len() > 0 {
                t::lines_of(title)[0]
            } else {
                "Options"@
            }) + option_lines(options, options.len() as int),
        },
    }
}

/// Decides about what a slash command came to.
pub fn handle_discord_slash(c: ConsoleCommand<String, ConsoleOptions>) -> (r: DiscordAnswer<String>)
    ensures
        r@ == discord_answer(c@),
{
    match c {
        ConsoleCommand::Reply { text } => DiscordAnswer::Post { text },
        ConsoleCommand::Prompt { text } => DiscordAnswer::Prompt { text },
        ConsoleCommand::NewSession => DiscordAnswer::Post { text: "New session started.".to_owned() },
        ConsoleCommand::Clear => DiscordAnswer::Post { text: "Cleared.".to_owned() },
        ConsoleCommand::Quit => DiscordAnswer::Post { text: "`/quit` is console-only.".to_owned() },
        ConsoleCommand::Select { title, options } => {
            let ghost all = settings::button_views(options@);
            let lines = t::lines(title.as_str());
            assert(t::texts(lines@).len() == lines@.len());
            let head = if lines.len() > 0 {
                assert(t::texts(lines@)[0] == lines@[0]@);
                lines[0].clone()
            } else {
                "Options".to_owned()
            };
            let mut rest = String::new();
            let mut i: usize = 0;
            assert(rest@ =~= option_lines(all, 0));
            while i < options.len()
                invariant
                    i <= options.len(),
                    all == settings::button_views(options@),
                    rest@ == option_lines(all, i as int),
                decreases options.len() - i,
            {
                assert(all[i as int] == (options@[i as int].0@, options@[i as int].1@));
                rest.append("\n• ");
                rest.append(options[i].0.as_str());
                i += 1;
            }
            DiscordAnswer::Post { text: head.concat(rest.as_str()) }
        },
    }
}

/// The document of a message.
pub open spec fn post_body(text: Seq<char>) -> Tree {
    Tree::Record(seq![("content"@, Tree::Text(t::head(text, 2000)))])
}

pub fn discord_post_message(text: &str) -> (r: Json)
    ensures
        r@ == post_body(text@),
{
    let mut f: Vec<(String, Json)> = Vec::new();
    field(&mut f, "content", Json::Text(t::take_chars(text, 2000)));
    assert(json::entries(f@) =~= seq![("content"@, Tree::Text(t::head(text@, 2000)))]);
    record(f)
}

/// How many buttons stand in a row: enough that five rows hold them all, and five
/// at most.
pub open spec fn per_row(n: int, columns: int) -> int {
    let needed = (n + 4) / 5;
    let wanted = if columns > needed {
        columns
    } else {
        needed
    };
    if wanted < 1 {
        1
    } else if wanted > 5 {
        5
    } else {
        wanted
    }
}

pub open spec fn buttons_body(content: Seq<char>, choices: Seq<(Seq<char>, Seq<char>)>, columns: int) -> Tree {
    let shown = if choices.len() > 25 {
        choices.take(25)
    } else {
        choices
    };
    Tree::Record(
        seq![
            ("content"@, Tree::Text(t::head(content, 2000))),
            (
                "components"@,
                Tree::List(buttons::rows(Style::Discord, shown, per_row(shown.len() as int, columns))),
            ),
        ],
    )
}

/// The document of a message with buttons.
pub fn discord_post_message_with_buttons(content: &str, choices: &Vec<(String, String)>, columns: usize) -> (r: Json)
    ensures
        r@ == buttons_body(content@, settings::button_views(choices@), columns as int),
{
    let mut shown: Vec<(String, String)> = Vec::new();
    let mut i: usize = 0;
    while i < choices.len() && i < 25
        invariant
            i <= choices.len(),
            i <= 25,
            shown.len() == i,
            forall|k: int|
                0 <= k < i ==> (#[trigger] shown@[k]).0@ == choices@[k].0@ && shown@[k].1@ == choices@[k].1@,
        decreases choices.len() - i,
    {
        shown.push((choices[i].0.clone(), choices[i].1.clone()));
        i += 1;
    }
    let ghost all = settings::button_views(choices@);
    assert(settings::button_views(shown@) =~= if all.len() > 25 {
        all.take(25)
    } else {
        all
    });
    let needed: usize = (shown.len() + 4) / 5;
    let wanted: usize = if columns > needed {
        columns
    } else {
        needed
    };
    let width: usize = if wanted < 1 {
        1
    } else if wanted > 5 {
        5
    } else {
        wanted
    };
    let mut f: Vec<(String, Json)> = Vec::new();
    field(&mut f, "content", Json::Text(t::take_chars(content, 2000)));
    field(&mut f, "components", rows_json(Style::Discord, &shown, width));
    assert(json::entries(f@) =~= buttons_body(content@, all, columns as int)->Record_0);
    record(f)
}

/// A message never has more than five rows of buttons, nor more than five in a row.
pub proof fn law_buttons_fit_into_five_rows(n: int, columns: int)
    requires
        0 <= n <= 25,
        columns >= 0,
    ensures
        1 <= per_row(n, columns) <= 5,
        buttons::row_count(n, per_row(n, columns)) <= 5,
{
    let w = per_row(n, columns);
    let needed = (n + 4) / 5;
    assert(needed <= 5);
    assert(w >= needed);
    assert(n <= 5 * needed);
    assert((n + w - 1) / w <= 5) by (nonlinear_arith)
        requires
            w >= 1,
            n <= 5 * w,
            n >= 0,
    ;
}

pub open spec fn callback_body(content: Seq<char>) -> Tree {
    Tree::Record(
        seq![
            ("type"@, Tree::Int(7)),
            (
                "data"@,
                Tree::Record(
                    seq![
                        ("content"@, Tree::Text(t::head(content, 2000))),
                        ("components"@, Tree::List(Seq::empty())),
                    ],
                ),
            ),
        ],
    )
}

/// The document that puts a text in place of the buttons.
pub fn discord_interaction_callback(content: &str) -> (r: Json)
    ensures
        r@ == callback_body(content@),
{
    let none: Vec<Json> = Vec::new();
    assert(json::trees(none@) =~= Seq::<Tree>::empty());
    let mut d: Vec<(String, Json)> = Vec::new();
    field(&mut d, "content", Json::Text(t::take_chars(content, 2000)));
    field(&mut d, "components", json::list(none));
    assert(json::entries(d@) =~= seq![
        ("content"@, Tree::Text(t::head(content@, 2000))),
        ("components"@, Tree::List(Seq::<Tree>::empty())),
    ]);
    let ghost data = Tree::Record(json::entries(d@));
    let mut f: Vec<(String, Json)> = Vec::new();
    field(&mut f, "type", Json::Int(7));
    field(&mut f, "data", record(d));
    assert(json::entries(f@) =~= seq![("type"@, Tree::Int(7)), ("data"@, data)]);
    record(f)
}

// ---------------------------------------------------------------------------
// Files
// ---------------------------------------------------------------------------

pub open spec fn image_ext(e: Seq<char>) -> bool {
    e == "jpg"@ || e == "jpeg"@ || e == "png"@ || e == "gif"@ || e == "webp"@ || e == "bmp"@ || e == "heic"@ || e
        == "heif"@ || e == "tif"@ || e == "tiff"@
}

pub open spec fn image_name(file_name: Seq<char>) -> bool {
    media::extension(file_name) is Some && image_ext(media::extension(file_name)->0)
}

/// Whether a file is an image, by its name.
pub fn is_image(file_name: &str) -> (r: bool)
    ensures
        r == image_name(file_name@),
{
    match extension_text(file_name) {
        Some(name) => {
            let e = name.as_str();
            t::same(e, "jpg") || t::same(e, "jpeg") || t::same(e, "png") || t::same(e, "gif") || t::same(e, "webp")
                || t::same(e, "bmp") || t::same(e, "heic") || t::same(e, "heif") || t::same(e, "tif") || t::same(
                e,
                "tiff",
            )
        },
        None => false,
    }
}

/// What is done with a file that was fetched.
#[derive(Clone, Copy, Debug, PartialEq, Eq, Structural)]
pub enum FileStep {
    /// Let the agent look at it; where it cannot be reached, go on as with any
    /// file.
    Show,
    Ingest,
    /// It stays in the inbox.
    Keep,
}

pub open spec fn file_step(file_name: Seq<char>, graph: bool, tried: bool) -> FileStep {
    if image_name(file_name) && !tried {
        FileStep::Show
    } else if graph && media::ingestible(file_name) {
        FileStep::Ingest
    } else {
        FileStep::Keep
    }
}

/// Decides about a fetched file: `graph` says whether the agent's graph is at
/// hand, and `tried` whether the agent could not be shown the image.
pub fn handle_discord_attachment(file_name: &str, graph: bool, tried: bool) -> (r: FileStep)
    ensures
        r == file_step(file_name@, graph, tried),
{
    if !tried && is_image(file_name) {
        FileStep::Show
    } else if graph && is_ingestible(file_name) {
        FileStep::Ingest
    } else {
        FileStep::Keep
    }
}

/// What became of a file.
#[derive(Debug, PartialEq, Eq)]
pub enum FileOutcome {
    NotFetched { error: String },
    Shown,
    Ingested { chunks: usize },
    NotIngested { error: String },
    Kept,
}

pub open spec fn outcome_line(file_name: Seq<char>, outcome: FileOutcome) -> Seq<char> {
    let head = "• `"@ + file_name;
    match outcome {
        FileOutcome::NotFetched { error } => head + "` — download failed: "@ + error@,
        FileOutcome::Shown => head + "` — 👁️ viewing it now"@,
        FileOutcome::Ingested { chunks } => head + "` → added to my knowledge graph ("@ + t::decimal(chunks as nat)
            + " chunks)"@,
        FileOutcome::NotIngested { error } => head + "` — could not ingest: "@ + error@,
        FileOutcome::Kept => head + "` — saved to my inbox"@,
    }
}

/// The line for a file.
pub fn attachment_line(file_name: &str, outcome: &FileOutcome) -> (r: String)
    ensures
        r@ == outcome_line(file_name@, *outcome),
{
    let head = "• `".to_owned().concat(file_name);
    match outcome {
        FileOutcome::NotFetched { error } => head.concat("` — download failed: ").concat(error.as_str()),
        FileOutcome::Shown => head.concat("` — 👁️ viewing it now"),
        FileOutcome::Ingested { chunks } => head.concat("` → added to my knowledge graph (").concat(
            t::usize_text(*chunks).as_str(),
        ).concat(" chunks)"),
        FileOutcome::NotIngested { error } => head.concat("` — could not ingest: ").concat(error.as_str()),
        FileOutcome::Kept => head.concat("` — saved to my inbox"),
    }
}

pub open spec fn received(lines: Seq<Seq<char>>, caption: Seq<char>) -> Option<Seq<char>> {
    let trailer = if t::trimmed(caption).len() == 0 {
        Seq::empty()
    } else {
        "\n\n_re: "@ + t::head(t::trimmed(caption), 180) + "_"@
    };
    if lines.len() == 0 {
        None
    } else {
        Some("📎 Received:\n"@ + t::joined(lines, "\n"@) + trailer)
    }
}

/// What is posted of the files of a message.
pub fn received_text(lines: &Vec<String>, caption: &str) -> (r: Option<String>)
    ensures
        t::opt_view(r) == received(t::texts(lines@), caption@),
{
    assert(t::texts(lines@).len() == lines@.len());
    if lines.len() == 0 {
        return None;
    }
    let words = t::trim(caption);
    let trailer = if words.as_str().is_empty() {
        let none = String::new();
        assert(none@ =~= Seq::<char>::empty());
        none
    } else {
        "\n\n_re: ".to_owned().concat(t::take_chars(words.as_str(), 180).as_str()).concat("_")
    };
    Some("📎 Received:\n".to_owned().concat(t::join(lines, "\n").as_str()).concat(trailer.as_str()))
}

/// A file for an upload: its place in the list, its name for the form, and what
/// it holds.
#[derive(Debug, PartialEq, Eq)]
pub struct UploadFile {
    pub index: usize,
    pub name: String,
    pub content: Vec<u8>,
}

/// The name of a file in a form: `file` and its place where it has none.
pub fn upload_file_name(index: usize, name: Option<&str>) -> (r: String)
    ensures
        r@ == match name {
            Some(n) => crate::channels::telegram_api::upload_name(Some(n@)),
            None => "file"@ + t::decimal(index as nat),
        },
{
    match name {
        Some(n) => crate::channels::telegram_api::upload_name_text(Some(n)),
        None => "file".to_owned().concat(t::usize_text(index).as_str()),
    }
}

pub open spec fn bytes(s: Seq<char>) -> Seq<u8> {
    vstd::utf8::encode_utf8(s)
}

pub open spec fn file_part(f: UploadFile) -> Seq<u8> {
    bytes(
        "--maturanadiscordfileboundary7e3f\r\ncontent-disposition: form-data; name=\"files["@ + t::decimal(
            f.index as nat,
        ) + "]\"; filename=\""@ + f.name@ + "\"\r\ncontent-type: application/octet-stream\r\n\r\n"@,
    ) + f.content@ + bytes("\r\n"@)
}

pub open spec fn file_parts(files: Seq<UploadFile>, n: int) -> Seq<u8>
    decreases n,
{
    if n <= 0 || n > files.len() {
        Seq::empty()
    } else {
        file_parts(files, n - 1) + file_part(files[n - 1])
    }
}

/// The form of a message with files; `payload` is the serialized document of the
/// message.
pub open spec fn files_form(payload: Seq<char>, files: Seq<UploadFile>) -> Seq<u8> {
    bytes(
        "--maturanadiscordfileboundary7e3f\r\ncontent-disposition: form-data; name=\"payload_json\"\r\ncontent-type: application/json\r\n\r\n"@
            + payload + "\r\n"@,
    ) + file_parts(files, files.len() as int) + bytes("--maturanadiscordfileboundary7e3f--\r\n"@)
}

fn add_bytes(body: &mut Vec<u8>, s: &str)
    ensures
        final(body)@ == old(body)@ + bytes(s@),
{
    body.extend_from_slice(s.as_bytes());
    assert(body@ =~= old(body)@ + bytes(s@));
}

/// The content type and the body of a message with files; nothing where no file
/// is left.
pub fn discord_post_message_with_files(payload: &str, files: &Vec<UploadFile>) -> (r: Result<
    (String, Vec<u8>),
    String,
>)
    ensures
        r is Ok <==> files@.len() > 0,
        r matches Ok(x) ==> x.0@ == "multipart/form-data; boundary=maturanadiscordfileboundary7e3f"@ && x.1@
            == files_form(payload@, files@),
        r matches Err(e) ==> e@ == "no attachable files (all missing or over 25 MB)"@,
{
    if files.len() == 0 {
        return Err("no attachable files (all missing or over 25 MB)".to_owned());
    }
    let head = "--maturanadiscordfileboundary7e3f\r\ncontent-disposition: form-data; name=\"payload_json\"\r\ncontent-type: application/json\r\n\r\n".to_owned().concat(
        payload,
    ).concat("\r\n");
    let mut body: Vec<u8> = Vec::new();
    add_bytes(&mut body, head.as_str());
    let ghost start = bytes(head@);
    assert(body@ =~= start + file_parts(files@, 0));
    let mut i: usize = 0;
    while i < files.len()
        invariant
            i <= files.len(),
            body@ == start + file_parts(files@, i as int),
        decreases files.len() - i,
    {
        let ghost before = body@;
        let f = &files[i];
        let line = "--maturanadiscordfileboundary7e3f\r\ncontent-disposition: form-data; name=\"files[".to_owned().concat(
            t::usize_text(f.index).as_str(),
        ).concat("]\"; filename=\"").concat(f.name.as_str()).concat(
            "\"\r\ncontent-type: application/octet-stream\r\n\r\n",
        );
        add_bytes(&mut body, line.as_str());
        body.extend_from_slice(f.content.as_slice());
        add_bytes(&mut body, "\r\n");
        assert(body@ =~= before + file_part(*f));
        assert(body@ =~= start + (file_parts(files@, i as int) + file_part(files@[i as int])));
        i += 1;
    }
    add_bytes(&mut body, "--maturanadiscordfileboundary7e3f--\r\n");
    Ok(("multipart/form-data; boundary=maturanadiscordfileboundary7e3f".to_owned(), body))
}

/// What is posted instead when the upload failed.
pub open spec fn not_attached(text: Seq<char>, names: Seq<Seq<char>>) -> Seq<char> {
    let note = "(couldn't attach: "@ + t::joined(names, ", "@) + ")"@;
    if t::trimmed(text).len() == 0 {
        note
    } else {
        text + "\n"@ + note
    }
}

pub fn not_attached_text(text: &str, names: &Vec<String>) -> (r: String)
    ensures
        r@ == not_attached(text@, t::texts(names@)),
{
    let note = "(couldn't attach: ".to_owned().concat(t::join(names, ", ").as_str()).concat(")");
    if t::trim(text).as_str().is_empty() {
        note
    } else {
        text.to_owned().concat("\n").concat(note.as_str())
    }
}

/// What a user writes reaches the agent in the channel it was written in, with
/// its attachments; what bots write, and a message without words and files, does
/// not.
pub proof fn law_what_a_user_writes_is_heard(event: Tree, d: Tree, channel: Seq<char>, content: Seq<char>, me: Option<Seq<char>>)
    requires
        event.get("d"@) == Some(d),
        d.text_at("channel_id"@) == Some(channel),
        d.text_at("content"@) == Some(content),
    ensures
        author(d) is None && t::trimmed(content).len() > 0 ==> (discord_message(event, me) matches Some(m)
            && m.channel_id == channel && m.content == without_mention(t::trimmed(content))),
        author(d) matches Some(a) ==> a.truth_at("bot"@) == Some(true) ==> discord_message(event, me) is None,
        author(d) matches Some(a) ==> a.truth_at("bot"@) != Some(true) && (me is None || a.text_at("id"@) != me)
            && t::trimmed(content).len() > 0 ==> (discord_message(event, me) matches Some(m) && m.channel_id == channel
            && m.content == without_mention(t::trimmed(content)) && (d.items_at("attachments"@) matches Some(items)
            ==> m.attachments == attachments_in(items))),
        t::trimmed(content).len() == 0 && d.items_at("attachments"@) is None ==> discord_message(event, me) is None,
{
}

/// The mention in front is taken off, and what stands behind it is trimmed; a
/// text without one stays as it is.
pub proof fn law_a_mention_is_taken_off(who: Seq<char>, said: Seq<char>)
    requires
        forall|i: int| 0 <= i < who.len() ==> #[trigger] who[i] != '>',
    ensures
        without_mention("<@"@ + who + ">"@ + said) == t::trimmed(said),
        said.len() > 0 && !t::space(said[0]) && said[0] != '<' ==> without_mention(said) == said,
{
    reveal_strlit("<@");
    reveal_strlit(">");
    assert("<@"@.len() == 2 && "<@"@[0] == '<' && "<@"@[1] == '@');
    assert(">"@.len() == 1 && ">"@[0] == '>');
    let text = "<@"@ + who + ">"@ + said;
    assert(text[0] == '<');
    reveal_with_fuel(t::trim_start_by, 2);
    assert(t::trimmed_start(text) == text);
    assert(text.subrange(0, 2) =~= "<@"@);
    let rest = who + ">"@ + said;
    assert(text.skip(2) =~= rest);
    assert(">"@ =~= seq!['>']);
    t::lemma_cut_char(who, '>', said);
    if said.len() > 0 && !t::space(said[0]) && said[0] != '<' {
        assert(t::trimmed_start(said) == said);
        if t::starts(said, "<@"@) {
            assert(said.subrange(0, 2)[0] == said[0]);
        }
    }
}

/// Every attachment with an address is taken, with its name.
pub proof fn law_every_attachment_with_an_address_is_taken(items: Seq<Tree>, item: Tree, url: Seq<char>)
    requires
        item.text_at("url"@) == Some(url),
    ensures
        attachments_in(items.push(item)).len() == attachments_in(items).len() + 1,
        attachments_in(items.push(item)).drop_last() == attachments_in(items),
        attachments_in(items.push(item)).last().1 == url,
        item.text_at("filename"@) matches Some(name) ==> attachments_in(items.push(item)).last().0 == name,
        attachments_in(Seq::empty()).len() == 0,
{
    assert(items.push(item).drop_last() =~= items);
    assert(items.push(item).last() == item);
    assert(attachments_in(items.push(item)).drop_last() =~= attachments_in(items));
}

/// The bot introduces itself when the gateway greets it, beats when it is told
/// to, opens a new session when the gateway wants one, and keeps the number of
/// the last event.
pub proof fn law_the_gateway_is_obeyed(g: Gateway<Seq<char>>, event: Tree, now: u64, op: int)
    requires
        event.int64_at("op"@) == Some(op),
    ensures
        op == 10 && !g.identified ==> g.next(event, now).1 is Identify,
        op == 10 ==> g.next(event, now).0.last_heartbeat == now,
        op == 10 ==> (event.get("d"@) matches Some(d) ==> (d.uint64_at("heartbeat_interval"@) matches Some(ms) ==> g.next(
            event,
            now,
        ).0.heartbeat_ms == ms as u64)),
        op == 1 ==> g.next(event, now).1 is Beat && g.next(event, now).0.last_heartbeat == now,
        op == 7 || op == 9 ==> g.next(event, now).1 == (FrameActionView::Reconnect { op: op as i64 }),
        event.int64_at("s"@) matches Some(s) ==> g.next(event, now).0.last_seq == Some(s as i64),
        event.int64_at("s"@) is None ==> g.next(event, now).0.last_seq == g.last_seq,
{
}

/// A message of a user and a tap on a button are handed on as they came, and the
/// channel of the message is kept; the bot learns who it is when it is ready.
pub proof fn law_an_event_is_handed_on(g: Gateway<Seq<char>>, event: Tree, now: u64)
    requires
        event.int64_at("op"@) == Some(0int),
    ensures
        event.text_at("t"@) == Some("MESSAGE_CREATE"@) ==> (discord_message(event, g.self_id) matches Some(m) ==> g.next(
            event,
            now,
        ).1 == (FrameActionView::Message { message: m }) && g.next(event, now).0.last_channel == Some(m.channel_id)),
        event.text_at("t"@) == Some("INTERACTION_CREATE"@) ==> (tap_in(event) matches Some(tap) ==> g.next(event, now).1
            == (FrameActionView::Interaction { tap })),
        event.text_at("t"@) == Some("READY"@) ==> (event.get("d"@) matches Some(d) ==> (d.get("user"@) matches Some(
            u,
        ) ==> g.next(event, now).0.self_id == u.text_at("id"@))),
{
    reveal_strlit("READY");
    reveal_strlit("MESSAGE_CREATE");
    reveal_strlit("INTERACTION_CREATE");
    assert("READY"@.len() == 5 && "READY"@[0] == 'R' && "READY"@[1] == 'E' && "READY"@[2] == 'A' && "READY"@[3] == 'D' && "READY"@[4] == 'Y');
    assert("MESSAGE_CREATE"@.len() == 14 && "MESSAGE_CREATE"@[0] == 'M' && "MESSAGE_CREATE"@[1] == 'E' && "MESSAGE_CREATE"@[2] == 'S' && "MESSAGE_CREATE"@[3] == 'S' && "MESSAGE_CREATE"@[4] == 'A' && "MESSAGE_CREATE"@[5] == 'G');
    assert("INTERACTION_CREATE"@.len() == 18 && "INTERACTION_CREATE"@[0] == 'I' && "INTERACTION_CREATE"@[1] == 'N' && "INTERACTION_CREATE"@[2] == 'T' && "INTERACTION_CREATE"@[3] == 'E' && "INTERACTION_CREATE"@[4] == 'R' && "INTERACTION_CREATE"@[5] == 'A');
}

/// A tap is taken with its id, its token and what the button stands for.
pub proof fn law_a_tap_is_taken_as_it_came(event: Tree, d: Tree, x: Tree, id: Seq<char>, token: Seq<char>, data: Seq<char>)
    requires
        event.get("d"@) == Some(d),
        d.get("data"@) == Some(x),
        d.int64_at("type"@) == Some(3int),
        d.text_at("id"@) == Some(id),
        d.text_at("token"@) == Some(token),
        x.text_at("custom_id"@) == Some(data),
        id.len() > 0 && token.len() > 0 && data.len() > 0,
    ensures
        tap_in(event) == Some(Tap { id, token, data }),
{
}

/// Replies are delivered once a second, and the heart beats at the pace that the
/// gateway asked for.
pub proof fn law_the_heart_beats_at_its_pace(g: Gateway<Seq<char>>, since: u64)
    requires
        g.last_heartbeat + since <= u64::MAX,
        g.last_flush + since <= u64::MAX,
    ensures
        g.beat_due((g.last_heartbeat + since) as u64) <==> since >= g.heartbeat_ms * 1_000_000,
        g.flush_due((g.last_flush + since) as u64) <==> since >= 1_000_000_000,
{
}

/// The heartbeat carries the number of the last event, and the introduction the
/// token.
pub proof fn law_the_heartbeat_carries_the_last_number(n: i64, token: Seq<char>)
    ensures
        heartbeat_body(Some(n)).int64_at("op"@) == Some(1int),
        heartbeat_body(Some(n)).int64_at("d"@) == Some(n as int),
        heartbeat_body(None).get("d"@) == Some(Tree::Null),
        identify_body(token).int64_at("op"@) == Some(2int),
        identify_body(token).get("d"@) matches Some(d) && d.text_at("token"@) == Some(token),
{
    reveal_strlit("op");
    reveal_strlit("d");
    reveal_strlit("token");
    reveal_strlit("intents");
    assert("op"@.len() == 2 && "op"@[0] == 'o' && "op"@[1] == 'p');
    assert("d"@.len() == 1 && "d"@[0] == 'd');
    assert("token"@.len() == 5 && "token"@[0] == 't' && "token"@[1] == 'o' && "token"@[2] == 'k' && "token"@[3] == 'e' && "token"@[4] == 'n');
    assert("intents"@.len() == 7 && "intents"@[0] == 'i' && "intents"@[1] == 'n' && "intents"@[2] == 't' && "intents"@[3] == 'e' && "intents"@[4] == 'n' && "intents"@[5] == 't');
    reveal_with_fuel(json::entry_from, 3);
}

/// A text that is no command goes to the agent as it is, and a command does not.
pub proof fn law_only_commands_are_looked_into(s: SettingsView, models: Seq<Seq<char>>, content: Seq<char>)
    ensures
        content.len() > 0 && !t::space(content[0]) && content[0] != '/' ==> content_step(s, models, content) == (
        DiscordStepView::Prompt { text: content }),
        content.len() > 0 && content[0] == '/' ==> content_step(s, models, content) !is Prompt,
{
    reveal_strlit("/");
    assert("/"@.len() == 1 && "/"@[0] == '/');
    reveal_with_fuel(t::trim_start_by, 2);
    if content.len() > 0 && !t::space(content[0]) {
        assert(t::trimmed_start(content) == content);
        assert(content.subrange(0, 1)[0] == content[0]);
        if content[0] == '/' {
            assert(content.subrange(0, 1) =~= "/"@);
        }
    }
}

/// What a command came to is posted as it is, and a prompt goes to the agent.
pub proof fn law_a_command_is_answered_or_goes_on(c: ConsoleCommandView)
    ensures
        c matches ConsoleCommand::Reply { text } ==> discord_answer(c) == (DiscordAnswer::<Seq<char>>::Post { text }),
        c matches ConsoleCommand::Prompt { text } ==> discord_answer(c) == (DiscordAnswer::<Seq<char>>::Prompt { text }),
        c is NewSession || c is Clear || c is Quit || c is Select ==> discord_answer(c) is Post,
{
}

/// A message holds its text, as far as the service takes it.
pub proof fn law_a_message_holds_its_text(text: Seq<char>)
    requires
        text.len() <= 2000,
    ensures
        post_body(text).text_at("content"@) == Some(text),
        callback_body(text).get("data"@) matches Some(d) && d.text_at("content"@) == Some(text),
        callback_body(text).int64_at("type"@) == Some(7int),
{
    reveal_strlit("content");
    reveal_strlit("type");
    reveal_strlit("data");
    reveal_strlit("components");
    assert("content"@.len() == 7 && "content"@[0] == 'c' && "content"@[1] == 'o' && "content"@[2] == 'n' && "content"@[3] == 't' && "content"@[4] == 'e' && "content"@[5] == 'n');
    assert("type"@.len() == 4 && "type"@[0] == 't' && "type"@[1] == 'y' && "type"@[2] == 'p' && "type"@[3] == 'e');
    assert("data"@.len() == 4 && "data"@[0] == 'd' && "data"@[1] == 'a' && "data"@[2] == 't' && "data"@[3] == 'a');
    assert("components"@.len() == 10 && "components"@[0] == 'c' && "components"@[1] == 'o' && "components"@[2] == 'm' && "components"@[3] == 'p' && "components"@[4] == 'o' && "components"@[5] == 'n');
    reveal_with_fuel(json::entry_from, 3);
}

/// A picture is shown, unless that was tried; a document goes into the graph; and
/// anything else is kept.
pub proof fn law_a_file_is_used_for_what_it_is(name: Seq<char>, graph: bool)
    ensures
        image_name(name) ==> file_step(name, graph, false) == FileStep::Show,
        graph && media::ingestible(name) ==> file_step(name, graph, true) == FileStep::Ingest,
        graph && media::ingestible(name) && !image_name(name) ==> file_step(name, graph, false) == FileStep::Ingest,
        !media::ingestible(name) || !graph ==> file_step(name, graph, true) == FileStep::Keep,
        file_step(name, graph, true) != FileStep::Show,
{
}

/// The text of a reply is kept where files could not be attached, and the files
/// are named.
pub proof fn law_files_that_were_not_attached_are_named(text: Seq<char>, names: Seq<Seq<char>>)
    ensures
        t::trimmed(text).len() > 0 ==> t::starts(not_attached(text, names), text),
        t::has(not_attached(text, names), t::joined(names, ", "@)),
{
    let all = not_attached(text, names);
    let list = t::joined(names, ", "@);
    if t::trimmed(text).len() > 0 {
        assert(all.subrange(0, text.len() as int) =~= text);
        t::lemma_has_part(text + "\n"@ + "(couldn't attach: "@, list, ")"@);
        assert(text + "\n"@ + "(couldn't attach: "@ + list + ")"@ =~= all);
    } else {
        t::lemma_has_part("(couldn't attach: "@, list, ")"@);
    }
}

} // verus!
