//! Where the Telegram channel keeps what it knows.

use crate::json;
use crate::json::{field, record, Json, Tree};
use crate::text as t;
use vstd::prelude::*;
use vstd::string::*;

verus! {

/// What is kept between runs of the channel.
#[derive(Debug, PartialEq, Eq)]
pub struct TelegramChannelState {
    /// The first update that has not been seen.
    pub offset: Option<i64>,
    pub last_seen_at: Option<String>,
}

/// A path below the home of one agent, or below the common root.
#[derive(Debug, PartialEq, Eq)]
pub struct StatePath {
    pub common: bool,
    pub path: &'static str,
}

fn state_path(agent_id: &str, path: &'static str) -> (r: StatePath)
    ensures
        r.common == (agent_id@ == "default"@),
        r.path@ == path@,
{
    StatePath { common: t::same(agent_id, "default"), path }
}

pub fn telegram_state_path(agent_id: &str) -> (r: StatePath)
    ensures
        r.common == (agent_id@ == "default"@),
        r.path@ == "channels/telegram/state.json"@,
{
    state_path(agent_id, "channels/telegram/state.json")
}

pub fn telegram_heartbeat_path(agent_id: &str) -> (r: StatePath)
    ensures
        r.common == (agent_id@ == "default"@),
        r.path@ == "channels/telegram/heartbeat.json"@,
{
    state_path(agent_id, "channels/telegram/heartbeat.json")
}

pub open spec fn key_for(agent_id: Seq<char>, what: Seq<char>) -> Seq<char> {
    if agent_id == "default"@ {
        "telegram/"@ + what
    } else {
        "telegram/"@ + agent_id + "/"@ + what
    }
}

fn key_text(agent_id: &str, what: &str) -> (r: String)
    ensures
        r@ == key_for(agent_id@, what@),
{
    if t::same(agent_id, "default") {
        "telegram/".to_owned().concat(what)
    } else {
        "telegram/".to_owned().concat(agent_id).concat("/").concat(what)
    }
}

/// The key of the code that pairs a chat with the agent.
pub fn telegram_pair_code_key(agent_id: &str) -> (r: String)
    ensures
        r@ == key_for(agent_id@, "pair-code"@),
{
    key_text(agent_id, "pair-code")
}

/// The key of the chat that the agent is paired with.
pub fn telegram_chat_id_key(agent_id: &str) -> (r: String)
    ensures
        r@ == key_for(agent_id@, "chat-id"@),
{
    key_text(agent_id, "chat-id")
}

/// The agent's own value, else the one that all agents share.
pub fn own_or_shared(own: Option<String>, shared: Option<String>) -> (r: Option<String>)
    ensures
        t::opt_view(r) == if own is Some {
            t::opt_view(own)
        } else {
            t::opt_view(shared)
        },
{
    match own {
        Some(s) => Some(s),
        None => shared,
    }
}

pub open spec fn paired_chat(own: Option<Seq<char>>, shared: Option<Seq<char>>) -> Option<int> {
    match (if own is Some {
        own
    } else {
        shared
    }) {
        Some(s) => t::parsed_signed(s, i64::MAX as nat),
        None => None,
    }
}

/// The chat that the agent is paired with, from its own key or the shared one.
pub fn paired_chat_id(own: Option<String>, shared: Option<String>) -> (r: Option<i64>)
    ensures
        r is Some <==> paired_chat(t::opt_view(own), t::opt_view(shared)) is Some,
        r matches Some(n) ==> paired_chat(t::opt_view(own), t::opt_view(shared)) == Some(n as int),
{
    match own_or_shared(own, shared) {
        Some(s) => t::parse_i64(s.as_str()),
        None => None,
    }
}

pub open spec fn heartbeat_tree(
    agent_id: Seq<char>,
    status: Seq<char>,
    error: Option<Seq<char>>,
    at: Seq<char>,
) -> Tree {
    Tree::Record(
        seq![
            ("agent_id"@, Tree::Text(agent_id)),
            ("status"@, Tree::Text(status)),
            (
                "error"@,
                match error {
                    Some(e) => Tree::Text(e),
                    None => Tree::Null,
                },
            ),
            ("at"@, Tree::Text(at)),
        ],
    )
}

/// The heartbeat that the bridge leaves behind; `at` is the time of it.
pub fn write_telegram_heartbeat(agent_id: &str, status: &str, error: Option<&str>, at: &str) -> (r: Json)
    ensures
        r@ == heartbeat_tree(agent_id@, status@, t::opt_str(error), at@),
{
    let cause = match error {
        Some(e) => Json::Text(e.to_owned()),
        None => Json::Null,
    };
    let mut f: Vec<(String, Json)> = Vec::new();
    field(&mut f, "agent_id", Json::Text(agent_id.to_owned()));
    field(&mut f, "status", Json::Text(status.to_owned()));
    field(&mut f, "error", cause);
    field(&mut f, "at", Json::Text(at.to_owned()));
    assert(json::entries(f@) =~= heartbeat_tree(agent_id@, status@, t::opt_str(error), at@)->Record_0);
    record(f)
}

/// How old, in nanoseconds, the heartbeat of a live bridge may be.
pub const HEARTBEAT_NANOS: u128 = 120_000_000_000;

/// Whether the bridge is alive, from the age of its heartbeat; there is none
/// where the heartbeat is missing or lies in the future.
pub fn telegram_bridge_live(age_nanos: Option<u128>) -> (r: bool)
    ensures
        r == (age_nanos is Some && age_nanos->0 <= HEARTBEAT_NANOS),
{
    match age_nanos {
        Some(age) => age <= HEARTBEAT_NANOS,
        None => false,
    }
}

/// Where the paired chat is kept, where there is one.
pub fn paired_telegram_chat_source(paired: bool) -> (r: Option<String>)
    ensures
        t::opt_view(r) == if paired {
            Some("pipelock:telegram/chat-id"@)
        } else {
            None
        },
{
    if paired {
        Some("pipelock:telegram/chat-id".to_owned())
    } else {
        None
    }
}

/// The last lines of the channel's status.
pub fn channel_status_text(presence: &str, state: &TelegramChannelState) -> (r: String)
    ensures
        r@ == "telegram.presence: "@ + presence@ + "\ntelegram.offset: "@ + (match state.offset {
            Some(n) => t::signed_decimal(n as int),
            None => Seq::empty(),
        }) + "\ntelegram.last_seen_at: "@ + (match t::opt_view(state.last_seen_at) {
            Some(at) => at,
            None => Seq::empty(),
        }),
{
    let offset = match state.offset {
        Some(n) => t::i64_text(n),
        None => String::new(),
    };
    let seen = match &state.last_seen_at {
        Some(at) => at.clone(),
        None => String::new(),
    };
    "telegram.presence: ".to_owned().concat(presence).concat("\ntelegram.offset: ").concat(
        offset.as_str(),
    ).concat("\ntelegram.last_seen_at: ").concat(seen.as_str())
}

/// Each agent has keys of its own; those of the default agent carry no name.
pub proof fn law_each_agent_has_its_own_keys(agent_id: Seq<char>, what: Seq<char>)
    ensures
        key_for("default"@, what) == "telegram/"@ + what,
        agent_id != "default"@ ==> key_for(agent_id, what) == "telegram/"@ + agent_id + "/"@ + what,
{
}

/// The chat that an agent is paired with stands under its own key, else under the
/// shared one.
pub proof fn law_the_own_key_comes_first(own: i64, shared: Seq<char>)
    requires
        own >= 0,
    ensures
        paired_chat(Some(t::signed_decimal(own as int)), Some(shared)) == Some(own as int),
        paired_chat(None, Some(t::signed_decimal(own as int))) == Some(own as int),
        paired_chat(None, None) is None,
{
    t::law_a_number_is_read_back(own as nat, i64::MAX as nat);
}

/// The heartbeat of the bridge tells whose it is, how it is doing, what went
/// wrong, and when.
pub proof fn law_the_heartbeat_tells_how_the_bridge_is_doing(
    agent_id: Seq<char>,
    status: Seq<char>,
    error: Option<Seq<char>>,
    at: Seq<char>,
)
    ensures
        ({
            let h = heartbeat_tree(agent_id, status, error, at);
            &&& h.text_at("agent_id"@) == Some(agent_id)
            &&& h.text_at("status"@) == Some(status)
            &&& h.text_at("error"@) == error
            &&& h.text_at("at"@) == Some(at)
        }),
{
    reveal_strlit("agent_id");
    reveal_strlit("status");
    reveal_strlit("error");
    reveal_strlit("at");
    assert("agent_id"@.len() == 8 && "agent_id"@[0] == 'a' && "agent_id"@[1] == 'g' && "agent_id"@[2] == 'e' && "agent_id"@[3] == 'n' && "agent_id"@[4] == 't' && "agent_id"@[5] == '_');
    assert("status"@.len() == 6 && "status"@[0] == 's' && "status"@[1] == 't' && "status"@[2] == 'a' && "status"@[3] == 't' && "status"@[4] == 'u' && "status"@[5] == 's');
    assert("error"@.len() == 5 && "error"@[0] == 'e' && "error"@[1] == 'r' && "error"@[2] == 'r' && "error"@[3] == 'o' && "error"@[4] == 'r');
    assert("at"@.len() == 2 && "at"@[0] == 'a' && "at"@[1] == 't');
    reveal_with_fuel(json::entry_from, 5);
}

} // verus!
