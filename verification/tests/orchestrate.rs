use maturana::orchestrate::delivery::{
    delivery_candidates, delivery_route, is_deliverable, resolve_channel_delivery, AgentReach,
};
use maturana::orchestrate::plan::{Plan, PlanError, RoleRegistry, Step, StepStatus};
use maturana::orchestrate::run::Role;
use maturana::orchestrate::replies::{
    extract_file_manifest, out_basename, parse_plan, parse_review, read_plan, safe_relative_path,
    ReviewVerdict,
};

fn registry() -> RoleRegistry {
    let own = [Role::Coordinator, Role::Reviewer, Role::Synthesizer];
    let mut names: Vec<String> = own.iter().map(|r| format!("{r:?}").to_lowercase()).collect();
    names.extend(["researcher".to_string(), "developer".to_string()]);
    RoleRegistry { names }
}

fn step(id: &str, deps: &[&str], status: StepStatus) -> Step {
    Step {
        id: id.to_string(),
        role: "researcher".to_string(),
        task: "t".to_string(),
        deps: deps.iter().map(|s| s.to_string()).collect(),
        review: false,
        status,
        result: None,
        attempts: 0,
        review_cycles: 0,
    }
}

fn plan(steps: Vec<Step>) -> Plan {
    Plan { goal: "g".to_string(), steps }
}

#[test]
fn manifest_extracted_from_bare_json_and_fenced() {
    let files = extract_file_manifest(
        r#"{"files":[{"path":"index.html","content":"<h1>hi</h1>"},{"path":"game.js","content":"x=1"}]}"#,
    )
    .expect("bare json manifest");
    assert_eq!(files.len(), 2);
    assert_eq!(files[0].path, "index.html");

    let fenced = "Here you go:\n```json\n{\"files\":[{\"path\":\"a.py\",\"content\":\"print(1)\"}]}\n```\nDone.";
    let files = extract_file_manifest(fenced).expect("fenced manifest");
    assert_eq!(files[0].path, "a.py");
}

#[test]
fn channel_delivery_resolution_is_honest_when_unreachable() {
    // No agent has a live bridge.
    let (channel, pinned) = delivery_route("telegram");
    assert_eq!((channel.as_str(), pinned.as_deref()), ("telegram", None));
    let err = resolve_channel_delivery(&channel, pinned.is_some(), &vec![]).unwrap_err();
    assert!(err.contains("Telegram"), "got: {err}");

    // A channel that nothing can be pushed to.
    let (channel, pinned) = delivery_route("slack:codex-firecracker");
    assert_eq!(
        (channel.as_str(), pinned.as_deref()),
        ("slack", Some("codex-firecracker"))
    );
    let err = resolve_channel_delivery(&channel, pinned.is_some(), &vec![]).unwrap_err();
    assert!(err.contains("no host-side push destination"), "got: {err}");
}

fn reach(agent_id: &str, telegram_live: bool, chat: Option<i64>) -> AgentReach {
    AgentReach {
        agent_id: agent_id.to_string(),
        telegram_live,
        telegram_chat: chat,
        discord_channel: None,
        session_id: Some("main".to_string()),
    }
}

#[test]
fn the_first_live_bridge_is_delivered_to() {
    let agents = vec![reach("dark", false, Some(1)), reach("lit", true, Some(42))];
    let target = resolve_channel_delivery("telegram", false, &agents).unwrap();
    assert_eq!(target.channel, "telegram");
    assert_eq!(target.platform_id, "42");
    assert_eq!(target.agent_id, "lit");
    assert_eq!(target.session_id, "main");
}

#[test]
fn the_preferred_agent_is_tried_first() {
    let ids = vec!["a".to_string(), "b".to_string()];
    assert_eq!(delivery_candidates(&ids, None, Some("b"))[0], "b");
    assert_eq!(delivery_candidates(&ids, Some("b"), None), vec!["b".to_string()]);
}

#[test]
fn silence_is_not_delivered() {
    assert!(!is_deliverable("  ", "[[SILENT]]"));
    assert!(!is_deliverable("[[SILENT]]", "[[SILENT]]"));
    assert!(is_deliverable("a result", "[[SILENT]]"));
}

#[test]
fn prose_is_not_a_manifest() {
    assert!(extract_file_manifest("The answer is 42. Paris has ~2.1M people.").is_none());
    assert!(extract_file_manifest(r#"{"answer":"42"}"#).is_none());
    assert!(extract_file_manifest(r#"{"files":[]}"#).is_none());
}

#[test]
fn safe_relative_path_blocks_traversal_and_absolutes() {
    assert_eq!(safe_relative_path("a/b.txt").unwrap(), "a/b.txt");
    assert_eq!(safe_relative_path("/etc/passwd").unwrap(), "etc/passwd");
    assert_eq!(safe_relative_path("../../x").unwrap(), "x");
    assert_eq!(safe_relative_path("src/./main.rs").unwrap(), "src/main.rs");
    assert!(safe_relative_path("../..").is_none());
    assert!(safe_relative_path("").is_none());
}

#[test]
fn out_basename_is_the_last_segment() {
    assert_eq!(
        out_basename("/workspace/maturana-out-run-123"),
        "maturana-out-run-123"
    );
    assert_eq!(
        out_basename("/workspace/maturana-out-run-123/"),
        "maturana-out-run-123"
    );
}

#[test]
fn ready_steps_respects_dependencies() {
    let plan = plan(vec![
        step("s1", &[], StepStatus::Done),
        step("s2", &["s1"], StepStatus::Waiting),
        step("s3", &["s2"], StepStatus::Waiting),
    ]);
    let ready: Vec<&str> = plan.ready_steps().iter().map(|s| s.id.as_str()).collect();
    assert_eq!(ready, vec!["s2"]);
}

#[test]
fn validate_rejects_cycles_unknown_roles_and_bad_deps() {
    let reg = registry();
    let cyclic = plan(vec![
        step("a", &["b"], StepStatus::Waiting),
        step("b", &["a"], StepStatus::Waiting),
    ]);
    assert!(cyclic.validate(&reg).is_err(), "cycle must be rejected");
    assert_eq!(cyclic.validate(&reg), Err(PlanError::Cycle));

    let mut bad_role = plan(vec![step("s1", &[], StepStatus::Waiting)]);
    bad_role.steps[0].role = "wizard".to_string();
    assert!(
        bad_role.validate(&reg).is_err(),
        "unknown role must be rejected"
    );
    assert_eq!(bad_role.validate(&reg), Err(PlanError::UnknownRole { step: 0 }));

    let dangling = plan(vec![step("s1", &["ghost"], StepStatus::Waiting)]);
    assert!(
        dangling.validate(&reg).is_err(),
        "unknown dep must be rejected"
    );
    assert_eq!(dangling.validate(&reg), Err(PlanError::UnknownDependency { step: 0 }));

    let ok = plan(vec![
        step("s1", &[], StepStatus::Waiting),
        step("s2", &["s1"], StepStatus::Waiting),
    ]);
    assert!(ok.validate(&reg).is_ok());
}

#[test]
fn parse_plan_extracts_json_from_prose() {
    let reg = registry();
    let reply = "Sure! Here is the plan:\n```json\n\
            {\"steps\":[{\"id\":\"s1\",\"role\":\"researcher\",\"task\":\"find X\",\"deps\":[],\"review\":false}]}\n\
            ```\nHope that helps.";
    let plan = parse_plan("the goal", reply, &reg).expect("should parse");
    assert_eq!(plan.steps.len(), 1);
    assert_eq!(plan.steps[0].role, "researcher");
    assert_eq!(plan.steps[0].status, StepStatus::Waiting);
}

#[test]
fn a_reply_without_a_plan_is_refused() {
    let reg = registry();
    assert_eq!(parse_plan("g", "no braces", &reg), Err(PlanError::NoObject));
    assert_eq!(parse_plan("g", "{\"steps\": 3}", &reg), Err(PlanError::Malformed));
    assert_eq!(read_plan("g", "no braces", &reg), Err(PlanError::NoObject));
}

#[test]
fn dependency_context_includes_upstream_results() {
    let mut plan = plan(vec![
        step("s1", &[], StepStatus::Done),
        step("s2", &["s1"], StepStatus::Waiting),
    ]);
    plan.steps[0].result = Some("the answer is 42".to_string());
    let ctx = plan.dependency_context(&plan.steps[1]);
    assert!(ctx.contains("the answer is 42"));
    assert!(ctx.contains("s1"));
}

#[test]
fn review_verdict_is_read_from_markers() {
    assert!(matches!(
        parse_review("looks good [[REVIEW: APPROVE]]"),
        ReviewVerdict::Approve
    ));
    match parse_review("[[REVIEW: REVISE]] fix the title") {
        ReviewVerdict::Revise(fb) => assert_eq!(fb, "fix the title"),
        _ => panic!("expected revise"),
    }
    assert!(matches!(
        parse_review("no marker here"),
        ReviewVerdict::Unclear
    ));
}
