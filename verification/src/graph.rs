//! The knowledge graph service and the commands around it.

use crate::channels::media;
use crate::channels::media::supported_ext_names;
use crate::http;
use crate::http::constant_time_eq;
use crate::json;
use crate::json::{Json, Tree};
use crate::text as t;
use vstd::prelude::*;
use vstd::string::*;

verus! {

#[derive(Debug, PartialEq, Eq)]
pub struct GraphCommand {
    pub command: GraphSubcommand,
}

#[derive(Debug, PartialEq, Eq)]
pub enum GraphSubcommand {
    /// Serve the graphs.
    Serve { bind: String, token: Option<String> },
    /// Ingest a document, or a directory of them, into a named graph.
    Ingest {
        path: String,
        graph: String,
        url: String,
        token_path: String,
        chunk_chars: usize,
        recursive: bool,
    },
    /// Query a named graph.
    Query { terms: Vec<String>, graph: String, url: String, token_path: String, depth: usize },
}

pub open spec fn name_char(c: char) -> bool {
    t::ascii_alnum(c) || c == '-' || c == '_' || c == '.'
}

/// Whether a graph may have this name.
pub open spec fn graph_name(s: Seq<char>) -> bool {
    &&& s.len() > 0
    &&& vstd::utf8::encode_utf8(s).len() <= 128
    &&& s != "."@
    &&& !t::has(s, ".."@)
    &&& forall|i: int| 0 <= i < s.len() ==> name_char(#[trigger] s[i])
}

fn all_name_chars(v: &Vec<char>) -> (r: bool)
    ensures
        r == forall|i: int| 0 <= i < v@.len() ==> name_char(#[trigger] v@[i]),
{
    let mut i: usize = 0;
    while i < v.len()
        invariant
            i <= v@.len(),
            forall|k: int| 0 <= k < i ==> name_char(#[trigger] v@[k]),
        decreases v@.len() - i,
    {
        let c = v[i];
        if !(t::is_ascii_alnum(c) || c == '-' || c == '_' || c == '.') {
            assert(!name_char(v@[i as int]));
            return false;
        }
        i += 1;
    }
    true
}

/// Whether a graph may have this name, so that it stays in the directory of graphs.
pub fn valid_graph_name(value: &str) -> (r: bool)
    ensures
        r == graph_name(value@),
{
    let v = t::chars_of(value);
    !value.is_empty() && value.as_bytes().len() <= 128 && !t::same(value, ".") && !t::contains(value, "..")
        && all_name_chars(&v)
}

/// A graph's name is a plain path component: it has no separator and no step
/// upwards.
pub proof fn law_a_graph_stays_in_its_directory(s: Seq<char>)
    requires
        graph_name(s),
    ensures
        s.len() > 0,
        !s.contains('/'),
        !s.contains('\\'),
        s != "."@,
        s != ".."@,
{
    if s == ".."@ {
        assert(s.subrange(0, s.len() as int) =~= s);
        assert(t::occurs_at(s, ".."@, 0));
    }
}

/// Where a request goes.
#[derive(Clone, Copy, Debug, PartialEq, Eq, Structural)]
pub enum GraphRoute {
    Unauthorized,
    Health,
    Upsert,
    Query,
    Delete,
    Stats,
    NotFound,
}

pub open spec fn graph_route(
    method: Seq<char>,
    path: Seq<char>,
    sent: Option<Seq<char>>,
    token: Seq<char>,
) -> GraphRoute {
    let given = match sent {
        Some(s) => s,
        None => Seq::empty(),
    };
    if path != "/health"@ && vstd::utf8::encode_utf8(given) != vstd::utf8::encode_utf8(token) {
        GraphRoute::Unauthorized
    } else if method == "GET"@ && path == "/health"@ {
        GraphRoute::Health
    } else if method == "POST"@ && path == "/graph/upsert"@ {
        GraphRoute::Upsert
    } else if method == "POST"@ && path == "/graph/query"@ {
        GraphRoute::Query
    } else if method == "POST"@ && path == "/graph/delete"@ {
        GraphRoute::Delete
    } else if method == "POST"@ && path == "/graph/stats"@ {
        GraphRoute::Stats
    } else {
        GraphRoute::NotFound
    }
}

/// Decides where a request goes: `sent` is the token that came with it, where one
/// did, and `token` the one that opens the service.
pub fn route_request(method: &str, path: &str, sent: Option<&str>, token: &str) -> (r: GraphRoute)
    ensures
        r == graph_route(method@, path@, t::opt_str(sent), token@),
{
    let given = match sent {
        Some(s) => s.to_owned(),
        None => {
            let none = String::new();
            assert(none@ =~= Seq::<char>::empty());
            none
        },
    };
    if !t::same(path, "/health") && !constant_time_eq(given.as_str().as_bytes(), token.as_bytes()) {
        return GraphRoute::Unauthorized;
    }
    let get = t::same(method, "GET");
    let post = t::same(method, "POST");
    if get && t::same(path, "/health") {
        GraphRoute::Health
    } else if post && t::same(path, "/graph/upsert") {
        GraphRoute::Upsert
    } else if post && t::same(path, "/graph/query") {
        GraphRoute::Query
    } else if post && t::same(path, "/graph/delete") {
        GraphRoute::Delete
    } else if post && t::same(path, "/graph/stats") {
        GraphRoute::Stats
    } else {
        GraphRoute::NotFound
    }
}

/// Without the token nothing is served but the health of the service.
pub proof fn law_the_token_guards_the_graphs(
    method: Seq<char>,
    path: Seq<char>,
    sent: Option<Seq<char>>,
    token: Seq<char>,
)
    requires
        token.len() > 0,
        sent != Some(token),
    ensures
        graph_route(method, path, sent, token) is Unauthorized || graph_route(method, path, sent, token) is Health
            || graph_route(method, path, sent, token) is NotFound,
{
    reveal_strlit("/health");
    reveal_strlit("/graph/upsert");
    reveal_strlit("/graph/query");
    reveal_strlit("/graph/delete");
    reveal_strlit("/graph/stats");
    let given = match sent {
        Some(s) => s,
        None => Seq::empty(),
    };
    vstd::utf8::encode_utf8_decode_utf8(given);
    vstd::utf8::encode_utf8_decode_utf8(token);
    assert("/health"@.len() == 7);
    assert("/graph/upsert"@.len() == 13 && "/graph/query"@.len() == 12);
    assert("/graph/delete"@.len() == 13 && "/graph/stats"@.len() == 12);
    assert(given != token);
}

/// The body of an error.
pub open spec fn error_tree(message: Seq<char>) -> Tree {
    Tree::Record(seq![("ok"@, Tree::Bool(false)), ("error"@, Tree::Text(message))])
}

pub fn error_body(message: &str) -> (r: Json)
    ensures
        r@ == error_tree(message@),
{
    let mut f: Vec<(String, Json)> = Vec::new();
    json::field(&mut f, "ok", Json::Bool(false));
    json::field(&mut f, "error", Json::Text(message.to_owned()));
    assert(json::entries(f@) =~= seq![("ok"@, Tree::Bool(false)), ("error"@, Tree::Text(message@))]);
    json::record(f)
}

/// What is done about a request.
#[derive(Debug, PartialEq, Eq)]
pub enum GraphStep {
    /// Answer with this status and body.
    Reply { status: u16, body: Json },
    /// Read the body, then look at the name of the graph that it asks for.
    Serve { route: GraphRoute },
}

/// Handles a request as far as its head goes.
pub fn handle_request(method: &str, path: &str, sent: Option<&str>, token: &str) -> (r: GraphStep)
    ensures
        match graph_route(method@, path@, t::opt_str(sent), token@) {
            GraphRoute::Unauthorized => r matches GraphStep::Reply { status, body } && status == 401 && body@
                == error_tree("unauthorized"@),
            GraphRoute::Health => r matches GraphStep::Reply { status, body } && status == 200 && body@
                == Tree::Record(seq![("ok"@, Tree::Bool(true))]),
            GraphRoute::NotFound => r matches GraphStep::Reply { status, body } && status == 404 && body@
                == error_tree("not found"@),
            route => r == (GraphStep::Serve { route }),
        },
{
    match route_request(method, path, sent, token) {
        GraphRoute::Unauthorized => GraphStep::Reply { status: 401, body: error_body("unauthorized") },
        GraphRoute::Health => {
            let mut f: Vec<(String, Json)> = Vec::new();
            json::field(&mut f, "ok", Json::Bool(true));
            assert(json::entries(f@) =~= seq![("ok"@, Tree::Bool(true))]);
            GraphStep::Reply { status: 200, body: json::record(f) }
        },
        GraphRoute::NotFound => GraphStep::Reply { status: 404, body: error_body("not found") },
        route => GraphStep::Serve { route },
    }
}

/// The answer to a request for a graph that is not opened: its name is not
/// valid, or the store could not be opened.
pub fn store_refusal(graph: &str, open_error: Option<&str>) -> (r: Option<(u16, Json)>)
    ensures
        if !graph_name(graph@) {
            r matches Some((status, body)) && status == 400 && body@ == error_tree("invalid graph name"@)
        } else {
            match open_error {
                Some(e) => r matches Some((status, body)) && status == 400 && body@ == error_tree(e@),
                None => r is None,
            }
        },
{
    if !valid_graph_name(graph) {
        return Some((400, error_body("invalid graph name")));
    }
    match open_error {
        Some(e) => Some((400, error_body(e))),
        None => None,
    }
}

/// The answer to a request that went well: `key` is `stats` or `result`.
pub fn graph_answer(key: &str, value: Json) -> (r: Json)
    ensures
        r@ == Tree::Record(seq![("ok"@, Tree::Bool(true)), (key@, value@)]),
{
    let ghost v = value@;
    let mut f: Vec<(String, Json)> = Vec::new();
    json::field(&mut f, "ok", Json::Bool(true));
    json::field(&mut f, key, value);
    assert(json::entries(f@) =~= seq![("ok"@, Tree::Bool(true)), (key@, v)]);
    json::record(f)
}

/// Why the service does not start, where it has no token.
pub fn serve_refusal(token: Option<&str>) -> (r: Option<&'static str>)
    ensures
        t::opt_str(r) == if token is Some && token->0@.len() > 0 {
            None
        } else {
            Some(
                "graph serve requires a token; pass --token or set MATURANA_GRAPH_TOKEN (it binds a public interface)"@,
            )
        },
{
    match token {
        Some(s) => if !s.is_empty() {
            return None;
        },
        None => {},
    }
    Some("graph serve requires a token; pass --token or set MATURANA_GRAPH_TOKEN (it binds a public interface)")
}

pub open spec fn query_tree(graph: Seq<char>, terms: Seq<Seq<char>>, depth: usize) -> Tree {
    Tree::Record(
        seq![
            ("graph"@, Tree::Text(graph)),
            ("query_terms"@, Tree::List(terms.map_values(|s: Seq<char>| Tree::Text(s)))),
            ("depth"@, Tree::Int(depth as int)),
        ],
    )
}

/// The document of a query.
pub fn query_body(graph: &str, terms: &Vec<String>, depth: usize) -> (r: Json)
    ensures
        r@ == query_tree(graph@, t::texts(terms@), depth),
{
    let mut items: Vec<Json> = Vec::new();
    let mut i: usize = 0;
    while i < terms.len()
        invariant
            i <= terms@.len(),
            items@.len() == i,
            forall|k: int| 0 <= k < i ==> (#[trigger] items@[k])@ == Tree::Text(terms@[k]@),
        decreases terms@.len() - i,
    {
        items.push(Json::Text(terms[i].clone()));
        i += 1;
    }
    assert(json::trees(items@) =~= t::texts(terms@).map_values(|s: Seq<char>| Tree::Text(s)));
    let mut f: Vec<(String, Json)> = Vec::new();
    json::field(&mut f, "graph", Json::Text(graph.to_owned()));
    json::field(&mut f, "query_terms", json::list(items));
    json::field(&mut f, "depth", Json::Int(depth as i128));
    assert(json::entries(f@) =~= query_tree(graph@, t::texts(terms@), depth)->Record_0);
    json::record(f)
}

/// The context that an answer holds.
pub open spec fn rendered_context(answer: Tree) -> Seq<char> {
    let found = match answer.get("result"@) {
        Some(r) => r.text_at("rendered_context"@),
        None => None,
    };
    match found {
        Some(s) => s,
        None => "(no result)"@,
    }
}

pub fn query_rendered_context(answer: &Json) -> (r: String)
    ensures
        r@ == rendered_context(answer@),
{
    let found = match answer.get("result") {
        Some(r) => r.text_at("rendered_context"),
        None => None,
    };
    match found {
        Some(s) => s,
        None => "(no result)".to_owned(),
    }
}

/// Whether files with this extension are ingested.
pub fn is_supported_ext(ext: &str) -> (r: bool)
    ensures
        r == media::supported_exts().contains(t::lower(ext@)),
{
    t::list_has(&supported_ext_names(), t::to_lower(ext).as_str())
}

/// What came of ingesting several documents.
#[derive(Clone, Copy, Debug, PartialEq, Eq, Structural)]
pub struct IngestTally {
    pub done: usize,
    pub chunks: usize,
}

impl IngestTally {
    pub fn new() -> (r: IngestTally)
        ensures
            r == (IngestTally { done: 0, chunks: 0 }),
    {
        IngestTally { done: 0, chunks: 0 }
    }

    /// One more document was ingested.
    pub fn add_document(&self, chunks: usize) -> (r: IngestTally)
        requires
            self.done < usize::MAX,
            self.chunks + chunks <= usize::MAX,
        ensures
            r == (IngestTally { done: (self.done + 1) as usize, chunks: (self.chunks + chunks) as usize }),
    {
        IngestTally { done: self.done + 1, chunks: self.chunks + chunks }
    }

    pub fn summary(&self, total: usize, graph: &str) -> (r: String)
        ensures
            r@ == "ingested "@ + t::decimal(self.done as nat) + "/"@ + t::decimal(total as nat) + " document(s), "@
                + t::decimal(self.chunks as nat) + " chunks, into graph '"@ + graph@ + "'"@,
    {
        "ingested ".to_owned().concat(t::usize_text(self.done).as_str()).concat("/").concat(
            t::usize_text(total).as_str(),
        ).concat(" document(s), ").concat(t::usize_text(self.chunks).as_str()).concat(
            " chunks, into graph '",
        ).concat(graph).concat("'")
    }
}

/// With the token each request is served at its own address, and only by its own
/// method.
pub proof fn law_a_graph_request_is_served_at_its_address(token: Seq<char>, method: Seq<char>, path: Seq<char>)
    ensures
        graph_route("POST"@, "/graph/upsert"@, Some(token), token) is Upsert,
        graph_route("POST"@, "/graph/query"@, Some(token), token) is Query,
        graph_route("POST"@, "/graph/delete"@, Some(token), token) is Delete,
        graph_route("POST"@, "/graph/stats"@, Some(token), token) is Stats,
        graph_route("GET"@, "/health"@, None, token) is Health,
        method != "POST"@ && path != "/health"@ ==> graph_route(method, path, Some(token), token) is NotFound,
        graph_route(method, path, Some(token), token) is Delete ==> path == "/graph/delete"@,
        graph_route(method, path, Some(token), token) is Upsert ==> path == "/graph/upsert"@,
{
    reveal_strlit("GET");
    reveal_strlit("POST");
    reveal_strlit("/health");
    reveal_strlit("/graph/upsert");
    reveal_strlit("/graph/query");
    reveal_strlit("/graph/delete");
    reveal_strlit("/graph/stats");
    assert("GET"@.len() == 3 && "GET"@[0] == 'G' && "GET"@[1] == 'E' && "GET"@[2] == 'T');
    assert("POST"@.len() == 4 && "POST"@[0] == 'P' && "POST"@[1] == 'O' && "POST"@[2] == 'S' && "POST"@[3] == 'T');
    assert("/health"@.len() == 7 && "/health"@[0] == '/' && "/health"@[1] == 'h' && "/health"@[2] == 'e' && "/health"@[3] == 'a' && "/health"@[4] == 'l' && "/health"@[5] == 't' && "/health"@[6] == 'h');
    assert("/graph/upsert"@.len() == 13 && "/graph/upsert"@[0] == '/' && "/graph/upsert"@[7] == 'u' && "/graph/upsert"@[8] == 'p' && "/graph/upsert"@[12] == 't');
    assert("/graph/query"@.len() == 12 && "/graph/query"@[0] == '/' && "/graph/query"@[7] == 'q' && "/graph/query"@[8] == 'u' && "/graph/query"@[11] == 'y');
    assert("/graph/delete"@.len() == 13 && "/graph/delete"@[0] == '/' && "/graph/delete"@[7] == 'd' && "/graph/delete"@[8] == 'e' && "/graph/delete"@[12] == 'e');
    assert("/graph/stats"@.len() == 12 && "/graph/stats"@[0] == '/' && "/graph/stats"@[7] == 's' && "/graph/stats"@[8] == 't' && "/graph/stats"@[11] == 's');
}

/// A plain name is one that a graph may have; a name that is too long, holds
/// another character or steps upwards is not.
pub proof fn law_a_plain_name_names_a_graph(s: Seq<char>)
    requires
        s.len() > 0,
        vstd::utf8::encode_utf8(s).len() <= 128,
        forall|i: int| 0 <= i < s.len() ==> t::ascii_alnum(#[trigger] s[i]) || s[i] == '-' || s[i] == '_',
    ensures
        graph_name(s),
{
    reveal_strlit(".");
    reveal_strlit("..");
    assert("."@[0] == '.' && "."@.len() == 1 && ".."@[0] == '.' && ".."@.len() == 2);
    if t::has(s, ".."@) {
        let i = choose|i: int| t::occurs_at(s, ".."@, i);
        assert(s.subrange(i, i + 2)[0] == s[i]);
    }
}

/// A query carries its graph, its terms and its depth.
pub proof fn law_a_query_carries_its_terms(graph: Seq<char>, terms: Seq<Seq<char>>, depth: usize)
    ensures
        query_tree(graph, terms, depth).text_at("graph"@) == Some(graph),
        query_tree(graph, terms, depth).items_at("query_terms"@) matches Some(v) && v.len() == terms.len() && forall|
            i: int,
        | 0 <= i < v.len() ==> #[trigger] v[i] == Tree::Text(terms[i]),
        query_tree(graph, terms, depth).get("depth"@) == Some(Tree::Int(depth as int)),
        error_tree(graph).truth_at("ok"@) == Some(false),
        error_tree(graph).text_at("error"@) == Some(graph),
{
    reveal_strlit("graph");
    reveal_strlit("query_terms");
    reveal_strlit("depth");
    reveal_strlit("ok");
    reveal_strlit("error");
    assert("graph"@.len() == 5 && "graph"@[0] == 'g' && "graph"@[1] == 'r' && "graph"@[2] == 'a' && "graph"@[3] == 'p' && "graph"@[4] == 'h');
    assert("query_terms"@.len() == 11 && "query_terms"@[0] == 'q' && "query_terms"@[1] == 'u' && "query_terms"@[2] == 'e' && "query_terms"@[3] == 'r' && "query_terms"@[4] == 'y' && "query_terms"@[5] == '_');
    assert("depth"@.len() == 5 && "depth"@[0] == 'd' && "depth"@[1] == 'e' && "depth"@[2] == 'p' && "depth"@[3] == 't' && "depth"@[4] == 'h');
    assert("ok"@.len() == 2 && "ok"@[0] == 'o' && "ok"@[1] == 'k');
    assert("error"@.len() == 5 && "error"@[0] == 'e' && "error"@[1] == 'r' && "error"@[2] == 'r' && "error"@[3] == 'o' && "error"@[4] == 'r');
    reveal_with_fuel(json::entry_from, 4);
}

/// What the graph found is what is told.
pub proof fn law_what_the_graph_found_is_told(answer: Tree, found: Tree, context: Seq<char>)
    requires
        answer.get("result"@) == Some(found),
        found.text_at("rendered_context"@) == Some(context),
    ensures
        rendered_context(answer) == context,
{
}

} // verus!
