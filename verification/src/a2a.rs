//! Calls from agent to agent.

use crate::http::constant_time_eq;
use crate::json;
use crate::json::{Json, Tree};
use crate::text as t;
use vstd::prelude::*;
use vstd::string::*;

verus! {

#[derive(Debug, PartialEq, Eq)]
pub struct A2aCommand {
    pub command: A2aSubcommand,
}

#[derive(Debug, PartialEq, Eq)]
pub enum A2aSubcommand {
    /// Serve the cards and the calls of all agents.
    Serve { bind: String, token: Option<String> },
}

/// How long a call waits for the reply.
pub const A2A_REPLY_TIMEOUT_SECONDS: u64 = 300;

/// How many times a task may be handed on.
pub const MAX_A2A_DEPTH: u64 = 2;

/// Why the service does not start, where it has no token.
pub fn serve_refusal(token: Option<&str>) -> (r: Option<&'static str>)
    ensures
        t::opt_str(r) == if token is Some && token->0@.len() > 0 {
            None
        } else {
            Some(
                "a2a serve requires a token (it binds a public interface); pass --token or MATURANA_SESSIOND_TOKEN"@,
            )
        },
{
    match token {
        Some(s) => if !s.is_empty() {
            return None;
        },
        None => {},
    }
    Some("a2a serve requires a token (it binds a public interface); pass --token or MATURANA_SESSIOND_TOKEN")
}

/// Where a request goes.
#[derive(Debug, PartialEq, Eq)]
pub enum A2aRoute<S> {
    Unauthorized,
    /// The card of an agent.
    Card { agent: S },
    /// A call to an agent.
    Call { agent: S },
    NotFound,
}

impl View for A2aRoute<String> {
    type V = A2aRoute<Seq<char>>;

    open spec fn view(&self) -> A2aRoute<Seq<char>> {
        match self {
            A2aRoute::Unauthorized => A2aRoute::Unauthorized,
            A2aRoute::Card { agent } => A2aRoute::Card { agent: agent@ },
            A2aRoute::Call { agent } => A2aRoute::Call { agent: agent@ },
            A2aRoute::NotFound => A2aRoute::NotFound,
        }
    }
}

pub open spec fn a2a_route(
    method: Seq<char>,
    path: Seq<char>,
    sent: Option<Seq<char>>,
    token: Seq<char>,
) -> A2aRoute<Seq<char>> {
    let given = match sent {
        Some(s) => s,
        None => Seq::empty(),
    };
    if vstd::utf8::encode_utf8(given) != vstd::utf8::encode_utf8(token) {
        A2aRoute::Unauthorized
    } else {
        match t::after_prefix(path, "/a2a/"@) {
            None => A2aRoute::NotFound,
            Some(rest) => if method == "GET"@ {
                match t::before_suffix(rest, "/.well-known/agent-card.json"@) {
                    Some(agent) => A2aRoute::Card { agent },
                    None => A2aRoute::NotFound,
                }
            } else if method == "POST"@ {
                A2aRoute::Call { agent: t::trim_end_by(rest, (t::Trim::One { c: '/' }).pred()) }
            } else {
                A2aRoute::NotFound
            },
        }
    }
}

/// Decides where a request goes; `sent` is the token that came with it, and
/// `token` the one that opens the service.
pub fn handle_a2a_connection(method: &str, path: &str, sent: Option<&str>, token: &str) -> (r: A2aRoute<String>)
    ensures
        r@ == a2a_route(method@, path@, t::opt_str(sent), token@),
{
    let given = match sent {
        Some(s) => s.to_owned(),
        None => {
            let none = String::new();
            assert(none@ =~= Seq::<char>::empty());
            none
        },
    };
    if !constant_time_eq(given.as_str().as_bytes(), token.as_bytes()) {
        return A2aRoute::Unauthorized;
    }
    match t::strip_prefix(path, "/a2a/") {
        None => A2aRoute::NotFound,
        Some(rest) => if t::same(method, "GET") {
            match t::strip_suffix(rest.as_str(), "/.well-known/agent-card.json") {
                Some(agent) => A2aRoute::Card { agent },
                None => A2aRoute::NotFound,
            }
        } else if t::same(method, "POST") {
            A2aRoute::Call { agent: t::trim_end_matches(rest.as_str(), &t::Trim::One { c: '/' }) }
        } else {
            A2aRoute::NotFound
        },
    }
}

/// Without the token nothing is served.
pub proof fn law_the_token_guards_the_agents(
    method: Seq<char>,
    path: Seq<char>,
    sent: Option<Seq<char>>,
    token: Seq<char>,
)
    requires
        token.len() > 0,
        sent != Some(token),
    ensures
        a2a_route(method, path, sent, token) is Unauthorized,
{
    let given = match sent {
        Some(s) => s,
        None => Seq::empty(),
    };
    vstd::utf8::encode_utf8_decode_utf8(given);
    vstd::utf8::encode_utf8_decode_utf8(token);
}

// ---------------------------------------------------------------------------
// Calls
// ---------------------------------------------------------------------------

pub open spec fn meta_depth(metadata: Option<Tree>) -> int {
    match metadata {
        Some(m) => match m.uint64_at("maturana_depth"@) {
            Some(n) => n,
            None => 0,
        },
        None => 0,
    }
}

pub open spec fn meta_text(metadata: Option<Tree>, key: Seq<char>) -> Option<Seq<char>> {
    match metadata {
        Some(m) => m.text_at(key),
        None => None,
    }
}

/// Why a call is refused, where it is: it was handed on too often, or an agent
/// calls itself.
pub open spec fn refusal(target: Seq<char>, metadata: Option<Tree>) -> Option<Seq<char>> {
    if meta_depth(metadata) >= MAX_A2A_DEPTH {
        Some("refused: max delegation depth 2 reached"@)
    } else if meta_text(metadata, "maturana_caller"@) == Some(target) {
        Some("refused: an agent cannot dispatch to itself (its one-flight worker would deadlock)"@)
    } else {
        None
    }
}

/// Looks whether a call to `target` is to be refused, from what the message says
/// about itself.
pub fn refuse_dispatch(target: &str, metadata: Option<&Json>) -> (r: Option<String>)
    ensures
        t::opt_view(r) == refusal(target@, json::opt_tree(metadata)),
{
    let depth: u64 = match metadata {
        Some(m) => match m.uint64_at("maturana_depth") {
            Some(n) => n,
            None => 0,
        },
        None => 0,
    };
    if depth >= MAX_A2A_DEPTH {
        return Some("refused: max delegation depth 2 reached".to_owned());
    }
    let own = match metadata {
        Some(m) => match m.text_at("maturana_caller") {
            Some(c) => t::same(c.as_str(), target),
            None => false,
        },
        None => false,
    };
    if own {
        Some("refused: an agent cannot dispatch to itself (its one-flight worker would deadlock)".to_owned())
    } else {
        None
    }
}

/// The model that a message asks for, where it does.
pub fn requested_model(metadata: Option<&Json>) -> (r: Option<String>)
    ensures
        t::opt_view(r) == meta_text(json::opt_tree(metadata), "maturana_model"@),
{
    match metadata {
        Some(m) => m.text_at("maturana_model"),
        None => None,
    }
}

/// What a call is, as far as it has come.
#[derive(Debug, PartialEq, Eq)]
pub enum CallStep<S> {
    /// Hand the message to the agent, with the model that it asks for.
    Enqueue { model: Option<S> },
    /// Look for the reply again after two seconds.
    Wait,
    /// The task is done.
    Completed { reply: S },
    /// The task failed.
    Failed { reason: S },
}

impl View for CallStep<String> {
    type V = CallStep<Seq<char>>;

    open spec fn view(&self) -> CallStep<Seq<char>> {
        match self {
            CallStep::Enqueue { model } => CallStep::Enqueue { model: t::opt_view(*model) },
            CallStep::Wait => CallStep::Wait,
            CallStep::Completed { reply } => CallStep::Completed { reply: reply@ },
            CallStep::Failed { reason } => CallStep::Failed { reason: reason@ },
        }
    }
}

pub open spec fn dispatch_step(target: Seq<char>, metadata: Option<Tree>) -> CallStep<Seq<char>> {
    match refusal(target, metadata) {
        Some(reason) => CallStep::Failed { reason },
        None => CallStep::Enqueue { model: meta_text(metadata, "maturana_model"@) },
    }
}

/// Begins a call.
pub fn a2a_dispatch(target: &str, metadata: Option<&Json>) -> (r: CallStep<String>)
    ensures
        r@ == dispatch_step(target@, json::opt_tree(metadata)),
{
    match refuse_dispatch(target, metadata) {
        Some(reason) => CallStep::Failed { reason },
        None => CallStep::Enqueue { model: requested_model(metadata) },
    }
}

pub open spec fn wait_step(target: Seq<char>, elapsed_nanos: u64, reply: Option<Seq<char>>) -> CallStep<Seq<char>> {
    if elapsed_nanos >= 300_000_000_000 {
        CallStep::Failed { reason: "timed out waiting for "@ + target + " after 300s"@ }
    } else {
        match reply {
            Some(reply) => CallStep::Completed { reply },
            None => CallStep::Wait,
        }
    }
}

/// Whether a call still waits: the time is looked at first, then the reply.
pub fn await_reply(target: &str, elapsed_nanos: u64, reply: Option<String>) -> (r: CallStep<String>)
    ensures
        r@ == wait_step(target@, elapsed_nanos, t::opt_view(reply)),
{
    if elapsed_nanos >= 300_000_000_000 {
        CallStep::Failed {
            reason: "timed out waiting for ".to_owned().concat(target).concat(" after 300s"),
        }
    } else {
        match reply {
            Some(reply) => CallStep::Completed { reply },
            None => CallStep::Wait,
        }
    }
}

/// A task is never handed on without bound, and an agent never waits for itself.
pub proof fn law_delegation_is_bounded(target: Seq<char>, metadata: Tree, depth: int)
    requires
        metadata.uint64_at("maturana_depth"@) == Some(depth),
        depth >= MAX_A2A_DEPTH,
    ensures
        dispatch_step(target, Some(metadata)) is Failed,
{
}

/// An agent's call to itself fails.
pub proof fn law_no_agent_calls_itself(target: Seq<char>, metadata: Tree)
    requires
        metadata.text_at("maturana_caller"@) == Some(target),
    ensures
        dispatch_step(target, Some(metadata)) is Failed,
{
}

/// What a call asks for, as far as it could be read.
#[derive(Debug, PartialEq, Eq)]
pub enum RpcStep<S> {
    /// Hand the message to the agent.
    Send,
    Error { code: i64, message: S },
}

impl View for RpcStep<String> {
    type V = RpcStep<Seq<char>>;

    open spec fn view(&self) -> RpcStep<Seq<char>> {
        match self {
            RpcStep::Send => RpcStep::Send,
            RpcStep::Error { code, message } => RpcStep::Error { code: *code, message: message@ },
        }
    }
}

pub open spec fn rpc_step(method: Seq<char>, params: Result<(), Seq<char>>) -> RpcStep<Seq<char>> {
    if method == "message/send"@ {
        match params {
            Ok(_) => RpcStep::Send,
            Err(e) => RpcStep::Error { code: -32602i64, message: "invalid params: "@ + e },
        }
    } else {
        RpcStep::Error { code: -32601i64, message: "method not found"@ }
    }
}

/// Decides about a call: its method, and why its parameters could not be read,
/// where they could not.
pub fn dispatch_rpc(method: &str, params_error: Option<&str>) -> (r: RpcStep<String>)
    ensures
        r@ == rpc_step(
            method@,
            match t::opt_str(params_error) {
                Some(e) => Err(e),
                None => Ok(()),
            },
        ),
{
    if t::same(method, "message/send") {
        match params_error {
            None => RpcStep::Send,
            Some(e) => RpcStep::Error { code: -32602, message: "invalid params: ".to_owned().concat(e) },
        }
    } else {
        RpcStep::Error { code: -32601, message: "method not found".to_owned() }
    }
}

/// The code of a call that failed on the way.
pub const DISPATCH_ERROR: i64 = -32000;

// ---------------------------------------------------------------------------
// Cards
// ---------------------------------------------------------------------------

/// What an agent can be asked for.
#[derive(Debug, PartialEq, Eq)]
pub struct AgentSkill {
    pub id: String,
    pub name: String,
    pub description: String,
    pub tags: Vec<String>,
    pub examples: Vec<String>,
}

/// What an agent says of itself.
#[derive(Debug, PartialEq, Eq)]
pub struct AgentCard {
    pub protocol_version: String,
    pub name: String,
    pub description: String,
    pub url: String,
    pub version: String,
    pub default_input_modes: Vec<String>,
    pub default_output_modes: Vec<String>,
    pub skills: Vec<AgentSkill>,
}

fn one(s: &str) -> (r: Vec<String>)
    ensures
        t::texts(r@) == seq![s@],
{
    let mut r: Vec<String> = Vec::new();
    r.push(s.to_owned());
    assert(t::texts(r@) =~= seq![s@]);
    r
}

/// The card of an agent; its address is relative, as the caller knows the host.
pub fn build_agent_card(agent: &str, protocol_version: &str, version: &str) -> (r: AgentCard)
    ensures
        r.protocol_version@ == protocol_version@,
        r.name@ == agent@,
        r.description@ == "Maturana agent '"@ + agent@ + "', reachable over A2A message/send."@,
        r.url@ == "/a2a/"@ + agent@,
        r.version@ == version@,
        t::texts(r.default_input_modes@) == seq!["text/plain"@],
        t::texts(r.default_output_modes@) == seq!["text/plain"@],
        r.skills@.len() == 1,
        r.skills@[0].id@ == "respond"@,
        r.skills@[0].name@ == "respond"@,
        r.skills@[0].description@ == "Run a task as the "@ + agent@ + " agent and return the result."@,
        t::texts(r.skills@[0].tags@) == seq!["maturana"@],
        r.skills@[0].examples@.len() == 0,
{
    let skill = AgentSkill {
        id: "respond".to_owned(),
        name: "respond".to_owned(),
        description: "Run a task as the ".to_owned().concat(agent).concat(" agent and return the result."),
        tags: one("maturana"),
        examples: Vec::new(),
    };
    let mut skills: Vec<AgentSkill> = Vec::new();
    skills.push(skill);
    AgentCard {
        protocol_version: protocol_version.to_owned(),
        name: agent.to_owned(),
        description: "Maturana agent '".to_owned().concat(agent).concat("', reachable over A2A message/send."),
        url: "/a2a/".to_owned().concat(agent),
        version: version.to_owned(),
        default_input_modes: one("text/plain"),
        default_output_modes: one("text/plain"),
        skills,
    }
}

/// The address of an agent on a server.
pub fn agent_url(base_url: &str, agent: &str) -> (r: String)
    ensures
        r@ == t::trim_end_by(base_url@, (t::Trim::One { c: '/' }).pred()) + "/a2a/"@ + agent@,
{
    t::trim_end_matches(base_url, &t::Trim::One { c: '/' }).concat("/a2a/").concat(agent)
}

/// Why an answer is no task, where it is not: it holds an error, or no result.
pub fn a2a_client_error(error: Option<(i64, &str)>, has_result: bool) -> (r: Option<String>)
    ensures
        t::opt_view(r) == match error {
            Some((code, message)) => Some("a2a error "@ + t::signed_decimal(code as int) + ": "@ + message@),
            None => if has_result {
                None
            } else {
                Some("a2a response had no result"@)
            },
        },
{
    match error {
        Some((code, message)) => Some(
            "a2a error ".to_owned().concat(t::i64_text(code).as_str()).concat(": ").concat(message),
        ),
        None => if has_result {
            None
        } else {
            Some("a2a response had no result".to_owned())
        },
    }
}

/// With the token, the card of an agent is asked for under its name, and a call
/// is made at its address, with or without a slash behind.
pub proof fn law_an_agent_is_reached_by_its_name(agent: Seq<char>, token: Seq<char>)
    requires
        agent.len() > 0,
        agent.last() != '/',
    ensures
        a2a_route("GET"@, "/a2a/"@ + agent + "/.well-known/agent-card.json"@, Some(token), token) == (
        A2aRoute::<Seq<char>>::Card { agent }),
        a2a_route("POST"@, "/a2a/"@ + agent, Some(token), token) == (A2aRoute::<Seq<char>>::Call { agent }),
        a2a_route("POST"@, "/a2a/"@ + agent + seq!['/'], Some(token), token) == (A2aRoute::<Seq<char>>::Call { agent }),
{
    reveal_strlit("GET");
    reveal_strlit("POST");
    assert("GET"@.len() == 3 && "GET"@[0] == 'G' && "GET"@[1] == 'E' && "GET"@[2] == 'T');
    assert("POST"@.len() == 4 && "POST"@[0] == 'P' && "POST"@[1] == 'O' && "POST"@[2] == 'S' && "POST"@[3] == 'T');
    let a = "/a2a/"@;
    let z = "/.well-known/agent-card.json"@;
    let card = a + agent + z;
    let rest = agent + z;
    assert(card.subrange(0, a.len() as int) =~= a);
    assert(card.skip(a.len() as int) =~= rest);
    assert(rest.subrange(rest.len() - z.len(), rest.len() as int) =~= z);
    assert(rest.take(rest.len() - z.len()) =~= agent);
    let call = a + agent;
    assert(call.subrange(0, a.len() as int) =~= a);
    assert(call.skip(a.len() as int) =~= agent);
    let slash = a + agent + seq!['/'];
    assert(slash.subrange(0, a.len() as int) =~= a);
    assert(slash.skip(a.len() as int) =~= agent.push('/'));
    let p = (t::Trim::One { c: '/' }).pred();
    reveal_with_fuel(t::trim_end_by, 2);
    assert(agent.push('/').drop_last() =~= agent);
    assert(t::trim_end_by(agent, p) == agent);
    assert(t::trim_end_by(agent.push('/'), p) == agent);
}

/// A call that was handed on less than twice, by another agent, is taken up with
/// the model that it asks for.
pub proof fn law_a_call_is_taken_up(target: Seq<char>, metadata: Tree)
    requires
        metadata.text_at("maturana_caller"@) != Some(target),
        metadata.uint64_at("maturana_depth"@) matches Some(n) ==> n < 2,
    ensures
        dispatch_step(target, Some(metadata)) == (CallStep::<Seq<char>>::Enqueue {
            model: metadata.text_at("maturana_model"@),
        }),
        dispatch_step(target, None) == (CallStep::<Seq<char>>::Enqueue { model: None }),
{
}

/// A reply that comes in time completes the task; for five minutes the call
/// waits, and then it fails, naming who was waited for.
pub proof fn law_a_call_waits_five_minutes(target: Seq<char>, nanos: u64, reply: Seq<char>)
    ensures
        nanos < 300_000_000_000 ==> wait_step(target, nanos, Some(reply)) == (CallStep::<Seq<char>>::Completed { reply }),
        nanos < 300_000_000_000 ==> wait_step(target, nanos, None) is Wait,
        nanos >= 300_000_000_000 ==> (wait_step(target, nanos, None) matches CallStep::Failed { reason } && t::has(
            reason,
            target,
        )),
{
    t::lemma_has_part("timed out waiting for "@, target, " after 300s"@);
}

/// Only a message to send is taken; a call of another method, and one whose
/// parameters cannot be read, get the error that says so.
pub proof fn law_only_messages_are_taken(method: Seq<char>, error: Seq<char>)
    ensures
        rpc_step("message/send"@, Ok(())) is Send,
        rpc_step("message/send"@, Err(error)) == (RpcStep::<Seq<char>>::Error {
            code: -32602i64,
            message: "invalid params: "@ + error,
        }),
        method != "message/send"@ ==> (rpc_step(method, Ok(())) matches RpcStep::Error { code, .. } && code
            == -32601i64),
{
}

} // verus!
