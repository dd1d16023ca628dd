use maturana::commands::agent::{
    agent_run_expired, handle_agent, outbound_message_text, push_live_path, read_agent_prompt,
    read_live_log, render_live_guest_state_script, scp_failed, Access, AgentAction, AgentEvent,
    AgentSubcommand, Guest, LogKind, PromptSource,
};
use maturana::commands::audit::{audit_entries, handle_audit, tail_start, AuditEvent};
use maturana::commands::claude_refresh::{
    claude_refresh_tick, daemon_line, minutes_until, poll_wait, repush_claude_auth,
    watched_agents, worker_is_idle, HostAgent, RefreshAction, RefreshEvent,
};
use maturana::commands::doctor::{run_doctor, DoctorAgent, DoctorCheck, DoctorReport};
use maturana::commands::hostd::{
    bind_error_text, command_output_lines, direct_response, ensure_hostd_server_token,
    handle_hostd_stream, hostd_request_authorized, hostd_vm_name, hyperv_json_script,
    hyperv_json_script_with_not_found, hyperv_launch_ubuntu, is_decodable, is_target_decodable,
    parse_hostd_bind_prefix, parse_http_target, percent_decode_minimal, read_hostd_request,
    validate_hostd_agent_id, validate_hostd_snapshot_name, write_hostd_json, BindError,
    HostdHttpRequest, HostdLaunch, HostdLaunchBody, HostdRoute, MAX_REQUEST_BYTES,
};
use maturana::commands::improve::{choose_target, report_lines, RewardTarget};
use maturana::commands::notify::{
    chat_source, handle_notify, notified, NotifyStart, NotifySubcommand,
};
use maturana::commands::pipelock::{
    free_proxy_bind, proxy_bind, read_pipelock_value, run_pipelock_proxy, stdin_value,
    trim_trailing_newlines, ValueSource,
};
use maturana::commands::plugin::{
    list_assets, retain_assets, validate_plugin, PluginAsset, PluginValidationReport,
};
use maturana::commands::repair::{
    parse_harness_runtime, run_repair, HarnessRuntime, RepairAction, RepairCommand, RepairEvent,
    RepairSubcommand, WorkerSetup,
};
use maturana::commands::search::{run_search, SearchCommand};
use maturana::commands::skill::{
    derive_skill_description, render_codex_skill, report_validation, required_initial_skills,
    section_bullet_count, sync_codex_prompts, validate_skill_pack, yaml_quote_scalar,
    PluginSkillAsset, SkillFile,
};
use maturana::commands::snapshot::{
    handle_snapshot, record_restore_penalty, snapshot_audit_event, SnapshotAction, SnapshotEvent,
    SnapshotSubcommand,
};
use maturana::commands::spec::{handle_spec, ValidationReport};
use maturana::commands::status::{
    humanize_uptime, print_agent_table, read_status, status_report, AgentRow,
};
use maturana::commands::tool::{
    run_tool_command, ToolAction, ToolCommand, ToolEvent, ToolRun, ToolSubcommand,
};
use maturana::commands::up::{
    agent_runtime, build_orchestrator_config, chosen_agents, redact_args, supervise_process,
    AgentFacts, ProcessState, SpecFacts, SupervisorStep, UpCommand,
};
use maturana::commands::vm::{handle_vm, rootfs_path, VmAction, VmCommand, VmEvent, VmSubcommand};
use maturana::json::Json;
use maturana::commands::web::{read_choice, tailscale_ipv4, web_bind_for, web_command};
use maturana::commands::CommandKind;

fn text(s: &str) -> String {
    s.to_string()
}

fn texts(list: &[&str]) -> Vec<String> {
    list.iter().map(|s| s.to_string()).collect()
}

// Agents

#[test]
fn live_guest_state_script_smokes_browser_only_when_requested() {
    let without_browser = render_live_guest_state_script(false, "coder");
    assert!(without_browser.contains("live.browser_expected: false"));
    assert!(!without_browser.contains("browser-smoke.js"));

    let with_browser = render_live_guest_state_script(true, "coder");
    assert!(with_browser.contains("live.browser_expected: true"));
    assert!(with_browser.contains("/opt/maturana/bin/browser-smoke.js"));
    assert!(with_browser.contains("PLAYWRIGHT_BROWSERS_PATH"));
    assert!(with_browser.contains("live.browser_smoke_output"));
    assert!(with_browser.contains("live.agent_log_tail"));
    assert!(with_browser.contains("(coder --version 2>/dev/null || coder-code --version"));
}

fn access(ip: Option<&str>) -> Access<String> {
    Access {
        agent_id: text("a"),
        ip: ip.map(str::to_string),
        ssh_user: text("ubuntu"),
        ssh_key: text("key"),
    }
}

#[test]
fn a_log_is_read_once_the_host_key_is_known() {
    let command =
        AgentSubcommand::Logs { access: access(Some("10.0.0.2")), kind: LogKind::Agent, lines: 5 };
    let (stage, step) = handle_agent(command);
    assert_eq!(
        step.action,
        AgentAction::ResolveHostKey { agent_id: text("a"), ip: text("10.0.0.2") }
    );
    let (stage, step) = stage.advance("coder", AgentEvent::Done);
    match step.action {
        AgentAction::RunRemote { guest, command } => {
            assert_eq!(guest.ip, "10.0.0.2");
            assert_eq!(command, read_live_log(LogKind::Agent, 5));
        }
        other => panic!("expected the log to be read, got {other:?}"),
    }
    // What was read is told only after the audit.
    let (stage, step) = stage.advance("coder", AgentEvent::Text { text: text("line\n") });
    assert!(step.say.is_empty());
    assert!(matches!(step.action, AgentAction::Audit { .. }));
    let (_, step) = stage.advance("coder", AgentEvent::Done);
    assert_eq!(step.say, "line\n");
    assert_eq!(step.action, AgentAction::Finish);
}

#[test]
fn a_failure_ends_an_agent_command() {
    let (stage, _) =
        handle_agent(AgentSubcommand::Stop { agent_id: text("a"), live: true });
    let (stage, step) = stage.advance("coder", AgentEvent::Failed { error: text("boom") });
    assert!(matches!(step.action, AgentAction::Fail { .. }));
    let (_, step) = stage.advance("coder", AgentEvent::Done);
    assert_eq!(step.action, AgentAction::Ignore);
}

#[test]
fn a_prompt_has_one_source() {
    assert_eq!(
        read_agent_prompt(Some(text("hi")), None),
        PromptSource::Given { prompt: text("hi") }
    );
    assert_eq!(
        read_agent_prompt(None, Some(text("p.txt"))),
        PromptSource::File { path: text("p.txt") }
    );
    assert_eq!(
        read_agent_prompt(Some(text("hi")), Some(text("p.txt"))),
        PromptSource::Refused { message: text("pass either --prompt or --prompt-file, not both") }
    );
    assert_eq!(
        read_agent_prompt(Some(text("  ")), None),
        PromptSource::Refused { message: text("agent run requires --prompt or --prompt-file") }
    );
}

#[test]
fn a_run_waits_at_least_a_second() {
    assert_eq!(agent_run_expired("s", "m", 0, 0), None);
    assert_eq!(agent_run_expired("s", "m", 5, 4), None);
    assert_eq!(
        agent_run_expired("s", "m", 5, 5),
        Some(text("timed out waiting for response to m in session s"))
    );
}

#[test]
fn an_outbound_message_is_a_text() {
    assert_eq!(outbound_message_text(r#"{"text": "hi"}"#), Ok(text("hi")));
    assert!(outbound_message_text("{").is_err());
}

#[test]
fn a_missing_file_is_not_pushed() {
    let guest = Guest {
        agent_id: text("a"),
        ip: text("10.0.0.2"),
        ssh_user: text("ubuntu"),
        ssh_key: text("key"),
    };
    assert!(push_live_path(&guest, "here", false, "/there", false).is_err());
    let args = push_live_path(&guest, "here", true, "/there", true).unwrap();
    assert!(args.contains(&text("-r")));
    assert_eq!(args.last().map(String::as_str), Some("ubuntu@10.0.0.2:/there"));
    assert!(scp_failed(b"no \xff route").contains("no \u{fffd} route"));
}

// The daemon for virtual machines

#[test]
fn rust_hostd_bind_prefix_stays_loopback() {
    assert_eq!(parse_hostd_bind_prefix("http://127.0.0.1:47832/"), Ok(47832));
    assert_eq!(parse_hostd_bind_prefix("http://localhost:47832"), Ok(47832));
    assert!(parse_hostd_bind_prefix("https://127.0.0.1:47832/").is_err());
    assert!(parse_hostd_bind_prefix("http://0.0.0.0:47832/").is_err());
}

#[test]
fn each_bad_bind_prefix_has_its_error() {
    assert_eq!(parse_hostd_bind_prefix("https://127.0.0.1:1"), Err(BindError::Scheme));
    assert_eq!(parse_hostd_bind_prefix("http://localhost"), Err(BindError::NoPort));
    assert_eq!(
        parse_hostd_bind_prefix("http://0.0.0.0:1"),
        Err(BindError::NotLoopback { host: text("0.0.0.0") })
    );
    assert_eq!(
        parse_hostd_bind_prefix("http://localhost:x"),
        Err(BindError::BadPort { port: text("x") })
    );
    assert!(bind_error_text(&BindError::NotLoopback { host: text("0.0.0.0") })
        .unwrap()
        .contains("loopback"));
}

#[test]
fn rust_hostd_validates_agent_and_snapshot_names() {
    assert!(validate_hostd_agent_id("codex-demo-1").is_ok());
    assert!(validate_hostd_agent_id("Codex").is_err());
    assert!(validate_hostd_agent_id("../demo").is_err());
    assert_eq!(hostd_vm_name("codex-demo").unwrap(), "maturana-codex-demo");

    assert!(validate_hostd_snapshot_name("before.update-1").is_ok());
    assert!(validate_hostd_snapshot_name("../escape").is_err());
    assert!(validate_hostd_snapshot_name("bad/name").is_err());
}

fn hostd_request(method: &str, path: &str, body: &str, token: Option<&str>) -> HostdHttpRequest {
    HostdHttpRequest {
        method: text(method),
        path: text(path),
        query: vec![],
        headers: token
            .map(|token| (text("x-maturana-hostd-token"), text(token)))
            .into_iter()
            .collect(),
        body: body.as_bytes().to_vec(),
    }
}

#[test]
fn rust_hostd_auth_and_target_parsing_are_fixed() {
    assert!(is_target_decodable("/agents/snapshot/list?agent_id=codex-demo%201"));
    let (path, query) = parse_http_target("/agents/snapshot/list?agent_id=codex-demo%201");
    assert_eq!(path, "/agents/snapshot/list");
    assert!(query.contains(&(text("agent_id"), text("codex-demo 1"))));

    let mut request = HostdHttpRequest {
        method: text("GET"),
        path,
        query,
        headers: vec![],
        body: vec![],
    };
    assert!(!hostd_request_authorized(&request, "secret"));
    request.headers.push((text("x-maturana-hostd-token"), text("secret")));
    assert!(hostd_request_authorized(&request, "secret"));
}

#[test]
fn percent_codes_are_decoded() {
    assert!(is_decodable("a%20b"));
    assert_eq!(percent_decode_minimal("a%20b+c"), "a b c");
    assert_eq!(percent_decode_minimal("100%"), "100%");
}

#[test]
fn a_stop_request_runs_a_script() {
    let stop = hostd_request("POST", "/agents/stop", r#"{"agent_id": "codex-demo"}"#, Some("t"));
    match handle_hostd_stream(&stop, "t") {
        HostdRoute::Script { script } => assert!(script.contains("'maturana-codex-demo'")),
        other => panic!("expected a script, got {other:?}"),
    }
    assert_eq!(handle_hostd_stream(&stop, "other"), HostdRoute::Unauthorized);
    let bad = hostd_request("POST", "/agents/stop", r#"{"agent_id": "x'; rm"}"#, Some("t"));
    assert!(matches!(handle_hostd_stream(&bad, "t"), HostdRoute::Fail { .. }));
    let empty = hostd_request("POST", "/agents/stop", "{}", Some("t"));
    assert!(matches!(handle_hostd_stream(&empty, "t"), HostdRoute::Fail { .. }));
    let lost = hostd_request("GET", "/nowhere", "", Some("t"));
    assert_eq!(handle_hostd_stream(&lost, "t"), HostdRoute::Unknown);
    assert!(matches!(direct_response(&HostdRoute::Unauthorized), Some((401, _))));
    assert!(direct_response(&HostdRoute::Launch).is_none());
}

#[test]
fn a_request_is_read_from_its_lines() {
    let lines = texts(&["Content-Length: 7\r\n", "X-Maturana-Hostd-Token: t\r\n", "\r\n"]);
    let (request, length) = read_hostd_request("GET /vms?x=1 HTTP/1.1\r\n", &lines).unwrap();
    assert_eq!(request.method, "GET");
    assert_eq!(request.path, "/vms");
    assert_eq!(length, 7);
    let large = format!("Content-Length: {}\r\n", MAX_REQUEST_BYTES + 1);
    assert!(read_hostd_request("GET / HTTP/1.1\r\n", &vec![large]).is_err());
}

#[test]
fn the_output_of_a_script_is_answered() {
    let (status, body) = hyperv_json_script(true, b"{\"ok\": true}", b"");
    assert_eq!(status, 200);
    assert_eq!(body.truth_at("ok"), Some(true));
    let (status, _) = hyperv_json_script(false, b"", b"boom");
    assert_eq!(status, 500);
    let (status, _) = hyperv_json_script_with_not_found(false, b"", b"VM not found: x");
    assert_eq!(status, 404);
    assert_eq!(command_output_lines(b"a\nb\n", b"c\n"), texts(&["a", "b", "c"]));
    assert!(write_hostd_json(200, 2).starts_with("HTTP/1.1 200 OK\r\n"));
}

fn launch_body(harness: &str) -> HostdLaunchBody<String> {
    HostdLaunchBody {
        agent_id: Some(text("codex-demo")),
        harness: Some(text(harness)),
        base_vhdx_path: None,
        switch_name: None,
        ssh_user: None,
        ssh_key_path: None,
        cloud_init_user_data_path: None,
        cloud_init_meta_data_path: None,
        disk_size_gb: Some(40),
        vcpu: None,
        memory_mib: None,
        provision_existing: None,
        force: Some(true),
    }
}

#[test]
fn only_known_harnesses_are_launched() {
    match hyperv_launch_ubuntu(&launch_body("coder-code"), "coder") {
        HostdLaunch::Run { args, .. } => {
            assert!(args.contains(&text("40")));
            assert_eq!(args.last().map(String::as_str), Some("-Force"));
        }
        other => panic!("expected a launch, got {other:?}"),
    }
    assert_eq!(
        hyperv_launch_ubuntu(&launch_body("vim"), "coder"),
        HostdLaunch::Refuse { message: text("unsupported harness: vim") }
    );
}

#[test]
fn a_daemon_needs_a_token() {
    assert_eq!(ensure_hostd_server_token(" t \n", "p"), Ok(text("t")));
    assert!(ensure_hostd_server_token("  ", "p").is_err());
}

// Skills

#[test]
fn skill_validator_enforces_agents_initial_skill_contract() {
    let required = required_initial_skills();
    assert!(required.contains(&"maturana-agent-create"));
    assert!(required.contains(&"maturana-agent-update"));
    assert!(required.contains(&"maturana-skill-create"));
    assert!(required.contains(&"maturana-tool-create"));
    assert!(required.contains(&"maturana-skill-deploy"));
    assert!(required.contains(&"maturana-security-review"));
    assert_eq!(required.len(), 10);
}

fn skill(path: &str, raw: &str) -> SkillFile<String> {
    SkillFile { path: text(path), raw: Some(text(raw)) }
}

#[test]
fn skill_validator_rejects_wrapper_shape() {
    let found = vec![skill(
        "thin-wrapper/SKILL.md",
        "# thin-wrapper\n\nUse this skill when testing.\n\n## Procedure\n\nsimply run `maturana --help`.\n",
    )];
    let report = validate_skill_pack("root", true, &vec![], &found).unwrap();
    assert!(report.failures.iter().any(|failure| failure.contains("## Grounding")));
    assert!(report.failures.iter().any(|failure| failure.contains("catch-all Procedure")));
    assert!(report.failures.iter().any(|failure| failure.contains("thin-wrapper language")));
    let outcome = report_validation(&report, false);
    assert!(outcome.failure.is_some());
}

#[test]
fn codex_prompts_quote_descriptions_with_colons() {
    let body =
        "# voicey\n\nUse this skill when an agent needs speech: transcribe audio to text.\n";
    let plan = sync_codex_prompts(&texts(&["voicey"]), &vec![]);
    assert_eq!(plan.outcome, Ok(1));
    assert_eq!(plan.names, texts(&["voicey"]));

    let generated = render_codex_skill("voicey", body, None);
    let desc_line = generated
        .lines()
        .find(|l| l.starts_with("description:"))
        .expect("description line present");
    let value = desc_line.trim_start_matches("description:").trim();
    assert!(
        value.starts_with('"') && value.ends_with('"'),
        "description not quoted: {desc_line}"
    );
    assert!(
        value.contains("speech:"),
        "colon-bearing text preserved: {desc_line}"
    );
    assert!(generated.contains("name: \"voicey\""));
}

fn plugin_skill(name: &str, description: Option<&str>) -> PluginSkillAsset<String> {
    PluginSkillAsset {
        plugin: text("demo"),
        name: text(name),
        path: text("plugin/SKILL.md"),
        description: description.map(str::to_string),
    }
}

#[test]
fn codex_prompts_install_enabled_plugin_skills() {
    let skills = vec![plugin_skill("demo-plugin", Some("Plugin-provided Codex skill"))];
    let plan = sync_codex_prompts(&texts(&["corey"]), &skills);
    assert_eq!(plan.outcome, Ok(2));
    let generated = render_codex_skill(
        "demo-plugin",
        "# demo-plugin\n\nUse this skill when testing plugin install.\n",
        Some("Plugin-provided Codex skill"),
    );
    assert!(generated.contains("name: \"demo-plugin\""));
    assert!(generated.contains("description: \"Plugin-provided Codex skill\""));
    assert!(plan.names.contains(&text("corey")));
}

#[test]
fn codex_prompts_reject_plugin_skill_shadowing() {
    let skills = vec![plugin_skill("same", None)];
    let plan = sync_codex_prompts(&texts(&["same"]), &skills);
    let error = plan.outcome.unwrap_err();
    assert!(error.contains("conflicts with an installed Codex skill"));
}

#[test]
fn skill_validator_requires_evidence_recovery_and_boundaries() {
    let raw = r#"# thin-proof

Use this skill when testing.

## Grounding

Read `AGENTS.md` first.

## Preflight

- Check.

## Decision Path

- Decide.

## Actions

- Act.

## Evidence

- Command returned.

## Recovery

- Retry.

## Boundaries

- Do not bypass validation.
"#;
    let found = vec![skill("thin-proof/SKILL.md", raw)];
    let report = validate_skill_pack("root", true, &vec![], &found).unwrap();
    assert!(report
        .failures
        .iter()
        .any(|failure| failure.contains("at least four concrete proof points")));
    assert!(report
        .failures
        .iter()
        .any(|failure| failure.contains("at least four failure-handling paths")));
    assert!(report
        .failures
        .iter()
        .any(|failure| failure.contains("at least three explicit 'Do not' limits")));
    assert_eq!(section_bullet_count(raw, "## Evidence", Some("## Recovery")), 1);
}

#[test]
fn a_skill_pack_needs_its_directory() {
    assert!(validate_skill_pack("root", false, &vec![], &vec![]).is_err());
}

#[test]
fn a_quoted_scalar_escapes_quotes() {
    assert_eq!(yaml_quote_scalar("say \"hi\" \\ now"), "\"say \\\"hi\\\" \\\\ now\"");
    assert_eq!(
        derive_skill_description("# t\n\nUse it.\n"),
        "Use it."
    );
    assert_eq!(
        derive_skill_description("# t\n\nIntro line.\n\nUse this skill when testing X.\n"),
        "when testing X."
    );
    assert_eq!(derive_skill_description("# t\n"), "A Maturana skill.");
}

#[test]
fn a_ready_skill_is_kept() {
    let body = "# t\n\nUse this skill when testing.\n";
    let ready = render_codex_skill("t", body, None);
    assert!(ready.starts_with("---\nname: \"t\"\n"));
    assert!(ready.ends_with(body));
    assert_eq!(render_codex_skill("other", &ready, Some("else")), ready);
}

#[test]
fn a_skill_pack_holds_the_initial_skills() {
    let all: Vec<String> = required_initial_skills().iter().map(|name| name.to_string()).collect();
    let report = validate_skill_pack("root", true, &all, &vec![]).unwrap();
    assert!(report.failures.is_empty());
    let report = validate_skill_pack("root", true, &all[1..].to_vec(), &vec![]).unwrap();
    assert_eq!(
        report.failures,
        texts(&["missing AGENTS.md initial skill: root/maturana-agent-create/SKILL.md"])
    );
}

// Repairs

fn worker(harness: &str, force: bool) -> WorkerSetup<String> {
    WorkerSetup {
        agent_id: text("a"),
        session_id: text("s"),
        harness: text(harness),
        coder: text("coder"),
        ssh_user: text("ubuntu"),
        ssh_key: text("key"),
        harness_auth_guest_path: text("/auth"),
        sessiond_url: text("url"),
        sessiond_token_path: text("token"),
        auth_source: None,
        install_harness: true,
        force_reseed_auth: force,
    }
}

#[test]
fn a_worker_keeps_its_credentials_unless_told_otherwise() {
    for force in [false, true] {
        let (stage, action) = run_repair(RepairCommand {
            command: RepairSubcommand::GuestWorker { guest_ip: None, worker: worker("codex", force) },
        });
        assert_eq!(action, RepairAction::FindGuestIp { agent_id: text("a") });
        let (_, action) = stage.advance(RepairEvent::Ip { ip: Some(text("10.0.0.2")) });
        match action {
            RepairAction::InstallWorker { install } => {
                assert_eq!(install.force_reseed_auth, force);
                assert_eq!(install.harness, HarnessRuntime::Codex);
                assert_eq!(install.guest_ip, "10.0.0.2");
            }
            other => panic!("expected an install, got {other:?}"),
        }
    }
}

#[test]
fn harnesses_are_read_by_name() {
    assert_eq!(parse_harness_runtime("codex", "coder"), Ok(HarnessRuntime::Codex));
    assert_eq!(parse_harness_runtime("coder-code", "coder"), Ok(HarnessRuntime::ClaudeCode));
    assert_eq!(parse_harness_runtime("opencode", "coder"), Ok(HarnessRuntime::Opencode));
    assert_eq!(
        parse_harness_runtime("vim", "coder"),
        Err(text("unsupported harness: vim"))
    );
}

// Tokens

#[test]
fn only_idle_guests_get_new_tokens() {
    let (stage, step) = claude_refresh_tick(texts(&["busy", "idle"]), vec![]);
    assert_eq!(step.action, RefreshAction::ReadCreds);
    let (stage, step) = stage.advance(RefreshEvent::Creds { due: true });
    assert_eq!(step.action, RefreshAction::Rotate);
    let (stage, step) = stage.advance(RefreshEvent::Done);
    assert_eq!(step.action, RefreshAction::WriteCreds);
    let (stage, step) = stage.advance(RefreshEvent::Written { minutes: 480 });
    assert_eq!(step.say.as_deref(), Some("rotated host token (expires in 480 min)"));
    assert_eq!(step.action, RefreshAction::Look { agent: text("busy") });
    let (stage, step) = stage.advance(RefreshEvent::Idle { idle: false });
    assert_eq!(step.say.as_deref(), Some("busy busy; will re-push next cycle"));
    assert_eq!(step.action, RefreshAction::Look { agent: text("idle") });
    let (stage, step) = stage.advance(RefreshEvent::Idle { idle: true });
    assert_eq!(step.action, RefreshAction::Push { agent: text("idle") });
    let (stage, step) = stage.advance(RefreshEvent::Failed { error: text("gone") });
    assert_eq!(step.complain.as_deref(), Some("re-push idle failed: gone"));
    assert_eq!(step.action, RefreshAction::Finish);

    // The next round is not due, and catches the busy one.
    let (stage, _) = claude_refresh_tick(texts(&["busy", "idle"]), stage.into_owed());
    let (stage, step) = stage.advance(RefreshEvent::Creds { due: false });
    assert_eq!(step.action, RefreshAction::Look { agent: text("busy") });
    let (stage, step) = stage.advance(RefreshEvent::Idle { idle: true });
    assert_eq!(step.action, RefreshAction::Push { agent: text("busy") });
    let (stage, step) = stage.advance(RefreshEvent::Done);
    assert_eq!(step.action, RefreshAction::Finish);
    assert!(stage.into_owed().is_empty());
}

#[test]
fn a_fresh_token_is_left_alone() {
    let (stage, _) = claude_refresh_tick(texts(&["a"]), vec![]);
    let (_, step) = stage.advance(RefreshEvent::Creds { due: false });
    assert_eq!(step.action, RefreshAction::Finish);
}

#[test]
fn a_push_keeps_the_credentials_of_the_guest() {
    let install = repush_claude_auth("a", Some("10.0.0.2"), None, "token", "coder").unwrap();
    assert_eq!(install.session_id, "a-main");
    assert_eq!(install.harness_auth_guest_path, "/home/ubuntu/.coder");
    assert_eq!(install.auth_source, None);
    assert!(!install.force_reseed_auth);
    assert_eq!(
        repush_claude_auth("a", None, None, "token", "coder"),
        Err(text("a has no IPv4 yet"))
    );
    assert_eq!(daemon_line("coder", "x"), "coder-refresh: x");
}

#[test]
fn the_time_to_expiry_is_in_minutes() {
    assert_eq!(minutes_until(600_000, 0), 10);
    assert_eq!(poll_wait(0), 30);
    assert!(worker_is_idle(Some(r#"{"status": "idle"}"#)));
    assert!(!worker_is_idle(Some(r#"{"status": "running"}"#)));
    assert!(worker_is_idle(None));
}

// Snapshots

#[test]
fn a_failed_restore_is_audited_and_fails() {
    let (stage, step) = handle_snapshot(SnapshotSubcommand::Restore {
        agent_id: text("a"),
        name: text("n"),
        live: true,
    });
    assert_eq!(
        step.action,
        SnapshotAction::RestoreSnapshot { agent_id: text("a"), name: text("n"), live: true }
    );
    let (stage, step) = stage.advance(SnapshotEvent::Failed {
        error: text("boom"),
        chain: text("boom: deep"),
    });
    match step.action {
        SnapshotAction::Audit { action, .. } => {
            assert_eq!(action, snapshot_audit_event("restore", true, true))
        }
        other => panic!("expected an audit, got {other:?}"),
    }
    let (_, step) = stage.advance(SnapshotEvent::Audited);
    assert!(matches!(step.action, SnapshotAction::Fail { .. }));
    assert!(record_restore_penalty("a", Err("down")).is_some());
}

// Virtual machines

#[test]
fn a_rollback_reads_what_a_snapshot_wrote() {
    let start = |rollback: bool| {
        let agent_id = text("a");
        let name = text("n");
        let command = if rollback {
            VmSubcommand::Rollback { agent_id, name }
        } else {
            VmSubcommand::Snapshot { agent_id, name }
        };
        let (stage, action) = handle_vm(VmCommand { command });
        assert_eq!(action, VmAction::FindRootfs { agent_id: text("a") });
        stage.advance(VmEvent::Rootfs { path: Some(text("/r")) }).1
    };
    match (start(false), start(true)) {
        (
            VmAction::TakeSnapshot { file: written, .. },
            VmAction::RollBack { file: read, .. },
        ) => assert_eq!(written, read),
        other => panic!("unexpected actions {other:?}"),
    }
}

// Tools

#[test]
fn a_failed_tool_run_is_an_error() {
    let (stage, step) = run_tool_command(ToolCommand {
        command: ToolSubcommand::Run {
            name: text("weather"),
            input: text("{}"),
            input_file: None,
            agent_id: None,
        },
    });
    assert_eq!(
        step.action,
        ToolAction::RunTool { name: text("weather"), input: text("{}") }
    );
    let (_, step) = stage.advance(ToolEvent::Ran {
        run: ToolRun {
            tool: text("weather"),
            ok: false,
            duration_ms: 3,
            stdout: text(""),
            stderr: text("trap"),
        },
    });
    assert!(matches!(step.action, ToolAction::Fail { .. }));
}

#[test]
fn a_tool_run_for_an_agent_is_kept_and_audited() {
    let (stage, _) = run_tool_command(ToolCommand {
        command: ToolSubcommand::Run {
            name: text("weather"),
            input: text("{}"),
            input_file: None,
            agent_id: Some(text("a")),
        },
    });
    let (stage, step) = stage.advance(ToolEvent::Ran {
        run: ToolRun {
            tool: text("weather"),
            ok: true,
            duration_ms: 3,
            stdout: text("sunny"),
            stderr: text(""),
        },
    });
    assert_eq!(
        step.action,
        ToolAction::Record {
            agent_id: text("a"),
            session_id: text("telegram-main"),
            kind: text("tool"),
            input: text("/tool weather {}"),
            output: text("sunny"),
            tool_calls: text("[]"),
        }
    );
    let (stage, step) = stage.advance(ToolEvent::Failed { error: text("no store") });
    assert_eq!(
        step.action,
        ToolAction::Audit {
            agent_id: text("a"),
            action: text("tool.run"),
            message: text("ran tool weather ok=true duration_ms=3"),
        }
    );
    let (_, step) = stage.advance(ToolEvent::Done);
    assert_eq!(step.say, "sunny\n");
    assert_eq!(step.action, ToolAction::Finish);
}

#[test]
fn a_relative_image_counts_from_beside_the_home() {
    assert_eq!(rootfs_path("/img/a.ext4", true, "/r/.maturana", Some("/r")), "/img/a.ext4");
    assert_eq!(rootfs_path("img/a.ext4", false, "/r/.maturana", Some("/r")), "/r/img/a.ext4");
    assert_eq!(rootfs_path("img/a.ext4", false, "/", None), "/img/a.ext4");
}

#[test]
fn the_watched_agents_are_the_named_ones_or_all() {
    let all = vec![
        HostAgent { id: text("a"), runs_coder: true },
        HostAgent { id: text("b"), runs_coder: false },
        HostAgent { id: text("c"), runs_coder: true },
    ];
    assert_eq!(watched_agents(&vec![], &all), texts(&["a", "c"]));
    assert_eq!(watched_agents(&texts(&["b"]), &all), texts(&["b"]));
}

#[test]
fn the_dashboard_is_read_from_what_the_supervisor_left() {
    let rows = vec![AgentRow {
        agent: text("a"),
        harness: text("codex"),
        vm: text("up"),
        queue: text("0"),
        last_turn: text("-"),
    }];
    let lines = read_status(Some(r#"{"pid": 7, "processes": []}"#), true, false, &rows, "/h");
    assert_eq!(lines[1], "  supervisor                          running (pid 7)");
    assert_eq!(lines[3], "  graph    :47835                     not running");
    let lines = read_status(Some("not json"), true, true, &rows, "/h");
    assert!(lines[1].contains("plane NOT running"));
    let report = status_report(Some(r#"{"pid": 7}"#), true, false, Json::List(vec![]));
    assert_eq!(report.get("plane").and_then(|plane| plane.uint64_at("pid")), Some(7));
    assert_eq!(report.truth_at("graph_ok"), Some(false));
    let report = status_report(None, true, true, Json::List(vec![]));
    assert_eq!(report.get("plane"), Some(&Json::Null));
}

// The plane

fn up_command(dry_run: bool) -> UpCommand<String, Vec<String>> {
    UpCommand {
        agent_ids: vec![],
        sessiond_bind: text("127.0.0.1:47834"),
        sessiond_token: None,
        session_id: None,
        telegram_token_source: text("env:TOKEN"),
        no_telegram: false,
        no_schedules: false,
        no_proactive: false,
        channel_poll_seconds: 5,
        schedule_poll_seconds: 30,
        dry_run,
    }
}

fn facts(agent_id: &str, claude_code: bool, firecracker: bool) -> AgentFacts {
    AgentFacts {
        agent_id: text(agent_id),
        spec: Some(SpecFacts {
            claude_code,
            firecracker,
            knowledge_graph: false,
            slack: None,
            discord: None,
            agentmail: None,
            telegram_token_source: None,
            proxy: None,
        }),
        session: Ok(text("main")),
        profile_token_source: None,
    }
}

#[test]
fn every_agent_runs() {
    let agents = vec![facts("a", true, false), facts("b", true, true), facts("c", false, false)];
    let config =
        build_orchestrator_config(&up_command(false), &agents, Some(text("t")), None).unwrap();
    assert_eq!(config.agents.len(), 3);
    assert_eq!(config.agents[1].agent_id, "b");
    assert_eq!(config.claude_refresh_agents, texts(&["a"]));
    let one = agent_runtime(&up_command(false), &agents[0]).unwrap();
    assert_eq!(one.session_id, "main");
    assert_eq!(one.telegram_token_source, "env:TOKEN");
    assert_eq!(chosen_agents(&texts(&["b"]), &texts(&["a", "b"])), texts(&["b"]));
    assert_eq!(chosen_agents(&vec![], &texts(&["a", "b"])), texts(&["a", "b"]));
}

#[test]
fn no_token_is_printed() {
    let shown = redact_args(&texts(&["serve", "--token", "secret", "--bind", "x"]));
    assert_eq!(shown.len(), 5);
    assert!(!shown.contains(&text("secret")));
    assert_eq!(shown[4], "x");
}

#[test]
fn a_process_is_restarted_ever_later() {
    let exited = ProcessState::Exited { status: text("exit status: 1") };
    let mut last: u64 = 0;
    for restarts in 0..4u32 {
        match supervise_process("graph", false, restarts, 0, &exited) {
            SupervisorStep::Restart { backoff_seconds, .. } => {
                assert!(backoff_seconds >= last);
                last = backoff_seconds;
            }
            other => panic!("expected a restart, got {other:?}"),
        }
    }
    assert!(matches!(
        supervise_process("sessiond", true, 0, 0, &exited),
        SupervisorStep::Stop { .. }
    ));
    assert_eq!(
        supervise_process("graph", false, 0, 0, &ProcessState::Running),
        SupervisorStep::Keep
    );
}

// Tables and reports

#[test]
fn the_columns_of_the_table_line_up() {
    let row = |agent: &str| AgentRow {
        agent: text(agent),
        harness: text("codex"),
        vm: text("running"),
        queue: text("0"),
        last_turn: text("-"),
    };
    let lines = print_agent_table(&vec![row("a"), row("a-long-name")], "");
    assert_eq!(lines.len(), 3);
    let at = lines[1].find("codex");
    assert_eq!(at, lines[2].find("codex"));
    assert!(at.is_some());
}

#[test]
fn uptimes_are_short() {
    assert_eq!(humanize_uptime(59), "59s");
    assert_eq!(humanize_uptime(61), "1m");
    assert_eq!(humanize_uptime(7_260), "2h");
    assert_eq!(humanize_uptime(86_400), "1d");
}

#[test]
fn the_last_audit_events_are_listed() {
    let event = |n: &str| AuditEvent { at: text(n), action: text("act"), message: text("m") };
    let lines = handle_audit("a", &vec![event("1"), event("2"), event("3")], 2);
    assert!(lines.iter().any(|line| line.contains('3')));
    assert!(!lines.iter().any(|line| line.contains('1')));
    assert_eq!(tail_start(3, 2), 1);
    assert_eq!(tail_start(1, 2), 0);
    assert_eq!(audit_entries("{}\n\n{}\n").len(), 2);
}

#[test]
fn a_doctor_reports_failures() {
    let ok = |ok: bool| DoctorCheck { ok, message: text("m") };
    let report = |fine: bool| DoctorReport {
        ok: fine,
        home: text("h"),
        hostd: ok(true),
        sessiond: ok(fine),
        agents: vec![DoctorAgent {
            agent_id: text("a"),
            vm: ok(true),
            telegram: ok(true),
            guest_worker: ok(true),
        }],
    };
    assert!(run_doctor(&report(true), false).1.is_none());
    assert!(run_doctor(&report(false), false).1.is_some());
}

#[test]
fn an_invalid_description_is_a_failure() {
    let report = |valid: bool| ValidationReport {
        valid,
        errors: if valid { vec![] } else { texts(&["bad"]) },
        warnings: vec![],
    };
    assert!(handle_spec(&report(true), &vec![], false).failure.is_none());
    assert!(handle_spec(&report(false), &vec![], false).failure.is_some());
    assert!(handle_spec(&report(true), &texts(&["clash"]), false).failure.is_some());
}

#[test]
fn only_assets_of_the_kind_are_listed() {
    let asset = |kind: &str, name: &str| PluginAsset {
        plugin: text("p"),
        kind: text(kind),
        name: text(name),
        feature: None,
        path: text("x"),
    };
    let list = vec![asset("skill", "one"), asset("tool", "two")];
    assert_eq!(retain_assets(&list, Some("tool")), vec![1]);
    assert_eq!(retain_assets(&list, None), vec![0, 1]);
    assert!(list_assets(&list, Some("tool")).iter().any(|line| line.contains("two")));
    let bad = PluginValidationReport { valid: false, errors: texts(&["e"]), warnings: vec![] };
    assert!(validate_plugin(&bad, false).1.is_some());
}

#[test]
fn a_reward_needs_a_target() {
    assert_eq!(
        choose_target(Some(text("t")), None, text("s")),
        RewardTarget::Trajectory { id: text("t") }
    );
    assert_eq!(
        choose_target(None, Some(text("a")), text("s")),
        RewardTarget::Latest { agent_id: text("a"), session_id: text("s") }
    );
    assert!(matches!(choose_target(None, None, text("s")), RewardTarget::Refused { .. }));
    assert_eq!(report_lines(4, 3, 2, 1).len(), 4);
}

#[test]
fn a_dry_run_sends_nothing() {
    let notify = |dry_run: bool| {
        handle_notify(NotifySubcommand::Discord {
            webhook_source: text("env:HOOK"),
            message: text("hi"),
            dry_run,
        })
    };
    assert!(matches!(notify(true), NotifyStart::DryRun { .. }));
    assert!(matches!(notify(false), NotifyStart::Discord { .. }));
    assert_eq!(chat_source(Some(text("g")), Some(text("p"))), Ok(text("g")));
    assert!(chat_source(None, None).is_err());
    assert!(notified(true, Some("down")).is_err());
    assert!(notified(true, None).is_ok());
}

#[test]
fn a_secret_has_one_source() {
    assert_eq!(trim_trailing_newlines(text("v\r\n\n")), "v");
    assert_eq!(
        read_pipelock_value(Some(text("v")), None),
        ValueSource::Given { value: text("v") }
    );
    assert_eq!(read_pipelock_value(None, None), ValueSource::Stdin);
    assert!(stdin_value(text("")).is_err());
    assert_eq!(stdin_value(text("v\n")), Ok(text("v")));
}

#[test]
fn a_proxy_listens_where_the_description_says() {
    assert!(proxy_bind("spec.toml", false, None, None).is_err());
    assert!(!free_proxy_bind(None).is_empty());
    assert_eq!(free_proxy_bind(Some("127.0.0.1:9")), "127.0.0.1:9");
    assert!(run_pipelock_proxy("b", &vec![], false, &vec![], &vec![], false, &vec![], "proxy").is_err());
    let plan = run_pipelock_proxy(
        "b",
        &texts(&["a.com"]),
        false,
        &texts(&["X-One: 1"]),
        &texts(&["b.com"]),
        false,
        &texts(&["X-Two: 2"]),
        "proxy",
    )
    .unwrap();
    assert_eq!(plan.injections, texts(&["X-One: 1", "X-Two: 2"]));
    assert_eq!(plan.allowlist, texts(&["a.com", "b.com"]));
    assert!(!plan.allow_all);
}

#[test]
fn a_search_needs_words() {
    let search = |words: &[&str]| SearchCommand {
        query: texts(words),
        provider: text("brave"),
        count: 5,
        json: false,
    };
    assert_eq!(run_search(&search(&["two", "words"])), Ok(text("two words")));
    assert!(run_search(&search(&["  "])).is_err());
}

#[test]
fn the_cockpit_stays_where_it_was_put() {
    assert_eq!(web_bind_for(Some("1.2.3.4:5"), false, None, None), Ok(text("1.2.3.4:5")));
    assert_eq!(
        web_bind_for(Some("127.0.0.1:9000"), true, Some("100.64.0.1"), None),
        Ok(text("127.0.0.1:9000"))
    );
    assert!(web_bind_for(None, true, None, None).is_err());
    assert!(web_bind_for(None, true, Some("100.1.2.3"), None)
        .unwrap()
        .starts_with("100.1.2.3:"));
    assert_eq!(tailscale_ipv4(true, b"100.1.2.3\n"), Some(text("100.1.2.3")));
    assert_eq!(tailscale_ipv4(false, b"100.1.2.3\n"), None);
    assert_eq!(read_choice("  2 \n"), "2");
    assert_eq!(web_command("hello"), None);
}

#[test]
fn commands_have_names() {
    assert_eq!(CommandKind::Repair.plugin_command_name("coder"), "setup");
    assert_eq!(CommandKind::ClaudeRefresh.plugin_command_name("coder"), "coder-refresh");
    assert_eq!(CommandKind::A2a.plugin_command_name("coder"), "a2a");
}
