use maturana::a2a::{
    a2a_client_error, a2a_dispatch, agent_url, await_reply, build_agent_card, dispatch_rpc,
    handle_a2a_connection, requested_model, A2aRoute, CallStep, RpcStep, MAX_A2A_DEPTH,
};
use maturana::graph::{
    graph_answer, handle_request, is_supported_ext, query_body, query_rendered_context,
    route_request, store_refusal, valid_graph_name, GraphRoute, GraphStep, IngestTally,
};
use maturana::http::{
    constant_time_eq, content_length, find_header_end, json_response_head, needs_more, parse_head,
    read_head, reason, take_body, HeadStep, MAX_BODY_BYTES, MAX_HEAD_BYTES,
};
use maturana::json::{parse_json, parse_json_bytes, Json};

fn doc(text: &str) -> Json {
    parse_json(text).expect("a JSON document")
}

#[test]
fn dispatch_refuses_excessive_depth() {
    let metadata = Json::Record(vec![(
        "maturana_depth".to_string(),
        Json::Int(MAX_A2A_DEPTH as i128),
    )]);
    match a2a_dispatch("some-agent", Some(&metadata)) {
        CallStep::Failed { reason } => assert!(reason.contains("depth")),
        other => panic!("expected a refusal, got {other:?}"),
    }
}

#[test]
fn dispatch_refuses_self_dispatch() {
    let metadata = doc(r#"{"maturana_caller": "codex-firecracker"}"#);
    match a2a_dispatch("codex-firecracker", Some(&metadata)) {
        CallStep::Failed { reason } => assert!(reason.contains("itself")),
        other => panic!("expected a refusal, got {other:?}"),
    }
}

#[test]
fn agent_card_has_expected_shape() {
    let card = build_agent_card("codex-firecracker", "0.3.0", "1.0.0");
    assert_eq!(card.name, "codex-firecracker");
    assert_eq!(card.url, "/a2a/codex-firecracker");
    assert_eq!(card.protocol_version, "0.3.0");
    assert_eq!(card.skills[0].id, "respond");
}

#[test]
fn a_call_within_the_limits_is_queued() {
    let metadata = doc(r#"{"maturana_depth": 1, "maturana_caller": "other", "maturana_model": "gpt-5"}"#);
    assert_eq!(requested_model(Some(&metadata)).as_deref(), Some("gpt-5"));
    assert_eq!(
        a2a_dispatch("agent", Some(&metadata)),
        CallStep::Enqueue { model: Some("gpt-5".to_string()) }
    );
    assert_eq!(a2a_dispatch("agent", None), CallStep::Enqueue { model: None });
}

#[test]
fn a_reply_is_awaited_for_five_minutes() {
    assert_eq!(await_reply("agent", 0, None), CallStep::Wait);
    assert_eq!(
        await_reply("agent", 299_000_000_000, Some("done".to_string())),
        CallStep::Completed { reply: "done".to_string() }
    );
    match await_reply("agent", 301_000_000_000, None) {
        CallStep::Failed { reason } => assert!(reason.contains("agent")),
        other => panic!("expected a timeout, got {other:?}"),
    }
}

#[test]
fn an_unknown_rpc_method_is_an_error() {
    assert_eq!(dispatch_rpc("message/send", None), RpcStep::Send);
    assert!(matches!(
        dispatch_rpc("message/send", Some("bad")),
        RpcStep::Error { code: -32602, .. }
    ));
    assert!(matches!(
        dispatch_rpc("tasks/get", None),
        RpcStep::Error { code: -32601, .. }
    ));
}

#[test]
fn the_token_opens_the_agents() {
    assert_eq!(
        handle_a2a_connection("POST", "/a2a/worker", Some("wrong"), "tok"),
        A2aRoute::Unauthorized
    );
    assert_eq!(
        handle_a2a_connection("POST", "/a2a/worker", None, "tok"),
        A2aRoute::Unauthorized
    );
    assert_eq!(
        handle_a2a_connection("POST", "/a2a/worker", Some("tok"), "tok"),
        A2aRoute::Call { agent: "worker".to_string() }
    );
    assert_eq!(
        handle_a2a_connection("GET", "/a2a/worker/.well-known/agent-card.json", Some("tok"), "tok"),
        A2aRoute::Card { agent: "worker".to_string() }
    );
    assert_eq!(
        handle_a2a_connection("GET", "/elsewhere", Some("tok"), "tok"),
        A2aRoute::NotFound
    );
    assert!(maturana::a2a::serve_refusal(None).is_some());
    assert!(maturana::a2a::serve_refusal(Some("tok")).is_none());
    assert_eq!(agent_url("http://h/", "w"), "http://h/a2a/w");
}

#[test]
fn an_answer_without_a_result_is_an_error() {
    assert!(a2a_client_error(None, false).is_some());
    assert!(a2a_client_error(None, true).is_none());
    assert!(a2a_client_error(Some((-32000, "boom")), true).unwrap().contains("boom"));
}

#[test]
fn graph_name_validation_blocks_traversal() {
    assert!(valid_graph_name("personal"));
    assert!(valid_graph_name("team-kb"));
    assert!(valid_graph_name("agent.codex-firecracker"));
    for bad in ["", "..", "../x", "a/b", "a\\b", "/abs"] {
        assert!(!valid_graph_name(bad), "should reject {bad:?}");
    }
}

#[test]
fn constant_time_eq_matches() {
    assert!(constant_time_eq(b"tok", b"tok"));
    assert!(!constant_time_eq(b"tok", b"toK"));
    assert!(!constant_time_eq(b"tok", b"to"));
}

#[test]
fn the_token_opens_the_graphs() {
    assert_eq!(route_request("GET", "/health", None, "tok"), GraphRoute::Health);
    assert_eq!(route_request("POST", "/graph/query", None, "tok"), GraphRoute::Unauthorized);
    assert_eq!(route_request("POST", "/graph/query", Some("tok"), "tok"), GraphRoute::Query);
    assert_eq!(route_request("POST", "/graph/upsert", Some("tok"), "tok"), GraphRoute::Upsert);
    assert_eq!(route_request("POST", "/graph/delete", Some("tok"), "tok"), GraphRoute::Delete);
    assert_eq!(route_request("POST", "/other", Some("tok"), "tok"), GraphRoute::NotFound);
    assert!(matches!(
        handle_request("POST", "/graph/query", Some("bad"), "tok"),
        GraphStep::Reply { status: 401, .. }
    ));
    assert!(matches!(
        handle_request("POST", "/other", Some("tok"), "tok"),
        GraphStep::Reply { status: 404, .. }
    ));
    assert_eq!(
        handle_request("POST", "/graph/query", Some("tok"), "tok"),
        GraphStep::Serve { route: GraphRoute::Query }
    );
    assert!(maturana::graph::serve_refusal(Some("")).is_some());
}

#[test]
fn a_graph_request_with_a_bad_name_is_refused() {
    assert!(matches!(store_refusal("../x", None), Some((400, _))));
    assert!(matches!(store_refusal("personal", Some("locked")), Some((400, _))));
    assert!(store_refusal("personal", None).is_none());
}

#[test]
fn graph_bodies_are_records() {
    let body = query_body("personal", &vec!["tea".to_string()], 2);
    assert_eq!(body.text_at("graph").as_deref(), Some("personal"));
    assert_eq!(body.uint64_at("depth"), Some(2));
    assert_eq!(body.items_at("query_terms").unwrap().len(), 1);
    let answer = graph_answer("rendered", Json::Text("facts".to_string()));
    assert_eq!(answer.text_at("rendered").as_deref(), Some("facts"));
    assert_eq!(
        query_rendered_context(&doc(r#"{"result": {"rendered_context": "tea"}}"#)),
        "tea"
    );
    assert_eq!(query_rendered_context(&doc("{}")), "(no result)");
}

#[test]
fn an_ingest_is_summed_up() {
    assert!(is_supported_ext("md"));
    assert!(!is_supported_ext("exe"));
    let tally = IngestTally::new().add_document(3).add_document(4);
    assert_eq!((tally.done, tally.chunks), (2, 7));
    assert!(tally.summary(5, "personal").contains("personal"));
}

#[test]
fn a_request_is_read_in_pieces() {
    let whole = b"POST /query HTTP/1.1\r\nHost: x\r\nContent-Length: 4\r\n\r\nabcd".to_vec();
    let early = whole[..10].to_vec();
    assert_eq!(read_head(&early), HeadStep::More);
    match read_head(&whole) {
        HeadStep::Found { head, body_start, length } => {
            assert_eq!(head.method, "POST");
            assert_eq!(head.path, "/query");
            assert_eq!(content_length(&head.headers), 4);
            assert_eq!(length, 4);
            assert_eq!(take_body(&whole, body_start, length), b"abcd".to_vec());
            assert!(!needs_more(whole.len(), body_start, length));
            assert!(needs_more(whole.len() - 1, body_start, length));
        }
        other => panic!("expected a head, got {other:?}"),
    }
    assert_eq!(find_header_end(b"a\r\n\r\nb"), Some(1));
    assert_eq!(find_header_end(b"a\r\n"), None);
}

#[test]
fn oversized_requests_are_refused() {
    let endless = vec![b'a'; MAX_HEAD_BYTES + 1];
    assert_eq!(read_head(&endless), HeadStep::HeadTooLarge);
    let big = format!("POST / HTTP/1.1\r\ncontent-length: {}\r\n\r\n", MAX_BODY_BYTES + 1);
    assert_eq!(read_head(&big.into_bytes()), HeadStep::BodyTooLarge);
}

#[test]
fn undecodable_head_bytes_are_replaced() {
    let head = b"GET /a\xffb HTTP/1.1\r\n\r\n".to_vec();
    match read_head(&head) {
        HeadStep::Found { head, .. } => assert_eq!(head.path, "/a\u{fffd}b"),
        other => panic!("expected a head, got {other:?}"),
    }
}

#[test]
fn header_names_are_lowercased() {
    let head = parse_head("GET / HTTP/1.1\r\nX-Maturana-Token:  Tok \r\n");
    assert!(head
        .headers
        .contains(&("x-maturana-token".to_string(), "Tok".to_string())));
}

#[test]
fn responses_name_their_status() {
    assert_eq!(reason(200), "OK");
    assert_eq!(reason(404), "Not Found");
    assert!(json_response_head(401, 7).starts_with("HTTP/1.1 401 "));
    assert!(json_response_head(401, 7).contains("7\r\n"));
}

#[test]
fn json_is_read_as_a_tree() {
    let tree = doc(r#"{"a": [1, -2, 1.5, null, true], "b": "x"}"#);
    assert_eq!(
        tree.get("a"),
        Some(&Json::List(vec![
            Json::Int(1),
            Json::Int(-2),
            Json::Fraction,
            Json::Null,
            Json::Bool(true),
        ]))
    );
    assert_eq!(tree.text_at("b").as_deref(), Some("x"));
    assert_eq!(tree.get("a").unwrap().items().unwrap()[1].int64(), Some(-2));
    assert!(parse_json("{").is_none());
    assert_eq!(parse_json_bytes(b"[true]"), Some(Json::List(vec![Json::Bool(true)])));
    assert!(parse_json_bytes(b"\xff").is_none());
}
