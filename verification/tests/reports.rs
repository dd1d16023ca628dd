//! What the commands print and answer, word for word.

use maturana::commands::hostd::{
    ends_head, hostd_status_lines, hyperv_vms, is_request_decodable, launch_log_name,
    launch_requested_text, launch_response, HostdStatus,
};
use maturana::commands::improve::{
    curate_lines, recorded_text, rewarded_latest_text, rewarded_text, truncate_inline, Curated,
};
use maturana::commands::pipelock::{handle_pipelock, proxy_audit_name, proxy_spec, VaultOutcome};
use maturana::commands::plugin::{
    inspect_plugin, install_plugin, list_plugins, print_roots, set_plugin_enabled, Contribution,
    Permissions, PluginDetail, PluginFeature, PluginRoot, PluginRow, PluginValidationReport,
};
use maturana::commands::skill::codex_prompts_text;
use maturana::commands::web::{bind_question, cockpit_lines, web_chat_name, web_ingest_refusal};
use maturana::json::Json;

fn text(s: &str) -> String {
    s.to_string()
}

fn texts(list: &[&str]) -> Vec<String> {
    list.iter().map(|s| s.to_string()).collect()
}

fn root(scope: &str, path: &str) -> PluginRoot<String> {
    PluginRoot { scope: text(scope), path: text(path) }
}

fn contribution(name: &str, feature: Option<&str>, path: &str) -> Contribution<String> {
    Contribution { name: text(name), feature: feature.map(text), path: text(path) }
}

#[test]
fn an_empty_plugin_list_says_where_it_searched() {
    let searched = vec![root("home", "/h/plugins"), root("repo", "/r/plugins")];
    assert_eq!(
        list_plugins(&Vec::new(), &searched),
        texts(&[
            "No plugins found.",
            "Search roots:",
            "  home: /h/plugins",
            "  repo: /r/plugins",
        ])
    );
    assert_eq!(print_roots("", &searched), texts(&["home: /h/plugins", "repo: /r/plugins"]));
}

#[test]
fn plugins_are_listed_in_columns() {
    let rows = vec![
        PluginRow {
            name: text("voice"),
            version: text("1.2.0"),
            scope: text("home"),
            features: 3,
            enabled: true,
            valid: true,
            root: text("/h/voice"),
        },
        PluginRow {
            name: text("broken"),
            version: text("0.1.0"),
            scope: text("repo"),
            features: 0,
            enabled: false,
            valid: false,
            root: text("/r/broken"),
        },
    ];
    let columns = |a: &str, b: &str, c: &str, d: &str, e: &str, f: &str, g: &str| {
        format!("{a:<28} {b:<10} {c:<10} {d:<8} {e:<8} {f:<8} {g}")
    };
    assert_eq!(
        list_plugins(&rows, &Vec::new()),
        vec![
            columns("PLUGIN", "VERSION", "SCOPE", "FEATURES", "ENABLED", "STATUS", "ROOT"),
            columns("voice", "1.2.0", "home", "3", "yes", "ok", "/h/voice"),
            columns("broken", "0.1.0", "repo", "0", "no", "invalid", "/r/broken"),
        ]
    );
}

fn detail() -> PluginDetail {
    PluginDetail {
        name: text("voice"),
        version: text("1.2.0"),
        scope: text("home"),
        root: text("/h/voice"),
        manifest: text("/h/voice/plugin.json"),
        enabled: true,
        description: text("Speaks."),
        features: vec![
            PluginFeature {
                name: text("tts"),
                kind: text("tool"),
                default_enabled: true,
                enabled: true,
                description: text("speech"),
            },
            PluginFeature {
                name: text("stt"),
                kind: text("tool"),
                default_enabled: false,
                enabled: false,
                description: text("dictation"),
            },
        ],
        skills: vec![contribution("speak", Some("tts"), "skills/speak")],
        tools: Vec::new(),
        commands: vec![contribution("say", None, "bin/say")],
        permissions: Permissions {
            filesystem: Vec::new(),
            egress: texts(&["a.example", "b.example"]),
            secrets: texts(&["key"]),
        },
        validation: PluginValidationReport {
            valid: false,
            errors: texts(&["no entrypoint"]),
            warnings: texts(&["old manifest"]),
        },
    }
}

#[test]
fn an_inspected_plugin_shows_the_parts_that_it_has() {
    assert_eq!(
        inspect_plugin("voice", Some(&detail())),
        Ok(texts(&[
            "plugin: voice",
            "version: 1.2.0",
            "scope: home",
            "root: /h/voice",
            "manifest: /h/voice/plugin.json",
            "enabled: true",
            "description: Speaks.",
            "features:",
            "  tts [tool default] enabled - speech",
            "  stt [tool] disabled - dictation",
            "skills:",
            "  speak [feature:tts] -> skills/speak",
            "commands:",
            "  say -> bin/say",
            "effective permissions:",
            "  egress: a.example, b.example",
            "  secrets: key",
            "valid: false",
            "error: no entrypoint",
            "warning: old manifest",
        ]))
    );
    assert_eq!(inspect_plugin("ghost", None), Err(text("plugin not found: ghost")));
}

#[test]
fn switching_and_installing_a_plugin_is_reported() {
    assert_eq!(
        set_plugin_enabled("voice", None, true, "/h/plugins.json"),
        texts(&["enabled plugin voice", "config: /h/plugins.json"])
    );
    assert_eq!(
        set_plugin_enabled("voice", Some("tts"), false, "/h/plugins.json"),
        texts(&["disabled feature voice/tts", "config: /h/plugins.json"])
    );
    let lines = install_plugin("voice", "1.2.0", "/src", "/dst", false, false);
    assert_eq!(
        lines,
        texts(&[
            "installed plugin voice v1.2.0",
            "source: /src",
            "destination: /dst",
            "enabled: false",
        ])
    );
    let lines = install_plugin("voice", "1.2.0", "/src", "/dst", true, true);
    assert_eq!(lines[3..], texts(&["enabled: true", "replaced: true"])[..]);
}

#[test]
fn the_vault_reports_what_was_done() {
    assert_eq!(
        handle_pipelock(VaultOutcome::Made { vault: text("/h/vault"), key: text("/h/key") }),
        texts(&["pipelock vault: /h/vault", "pipelock key: /h/key"])
    );
    assert_eq!(
        handle_pipelock(VaultOutcome::Stored { name: text("token") }),
        texts(&["pipelock secret stored: token"])
    );
    assert_eq!(handle_pipelock(VaultOutcome::Value { value: text("v") }), texts(&["v"]));
    assert_eq!(
        handle_pipelock(VaultOutcome::Names { names: texts(&["a", "b"]) }),
        texts(&["a", "b"])
    );
    assert_eq!(
        handle_pipelock(VaultOutcome::Deleted { name: text("a"), found: true }),
        texts(&["pipelock secret deleted: a"])
    );
    assert_eq!(
        handle_pipelock(VaultOutcome::Deleted { name: text("a"), found: false }),
        texts(&["pipelock secret not found: a"])
    );
    assert_eq!(
        handle_pipelock(VaultOutcome::Certificate { path: text("/h/ca.pem") }),
        texts(&["/h/ca.pem"])
    );
}

#[test]
fn a_named_proxy_spec_goes_before_that_of_the_agent() {
    assert_eq!(proxy_spec(Some(text("a")), Some(text("b"))), Some(text("a")));
    assert_eq!(proxy_spec(None, Some(text("b"))), Some(text("b")));
    assert_eq!(proxy_spec(None, None), None);
    assert_eq!(proxy_audit_name(Some("worker")), "worker-pipelock-proxy.jsonl");
    assert_eq!(proxy_audit_name(None), "pipelock-proxy.jsonl");
}

#[test]
fn rewards_are_reported_with_their_source() {
    assert_eq!(recorded_text("t1"), "recorded trajectory t1");
    assert_eq!(rewarded_text("t1", "user", "+1"), "rewarded t1 (user +1)");
    assert_eq!(
        rewarded_latest_text(Some("t1"), "a", "s", "user", "-1"),
        "rewarded latest trajectory t1 (user -1)"
    );
    assert_eq!(
        rewarded_latest_text(None, "a", "s", "user", "-1"),
        "no trajectory for a/s to reward"
    );
}

#[test]
fn curated_trajectories_are_listed_or_said_to_be_missing() {
    assert_eq!(
        curate_lines(&Vec::new(), "0.5"),
        texts(&["no trajectories at or above reward 0.5"])
    );
    let list = vec![Curated { id: text("t1"), reward: text("+2"), signals: 2, input: text("hello") }];
    assert_eq!(curate_lines(&list, "0"), texts(&["t1 reward=+2 (2 signals) :: hello"]));
    let list = vec![Curated { id: text("t1"), reward: text("+2"), signals: 2, input: text("\n hello ") }];
    assert_eq!(curate_lines(&list, "0"), texts(&["t1 reward=+2 (2 signals) ::   hello "]));
}

#[test]
fn an_input_keeps_its_blanks_in_one_row() {
    assert_eq!(truncate_inline(" x\n", 5), " x ");
    assert_eq!(truncate_inline("  a\nb", 5), "  a b");
    assert_eq!(truncate_inline("  a\nbc", 5), "  a b…");
    assert_eq!(truncate_inline("ab", 0), "…");
    assert_eq!(truncate_inline("", 0), "");
}

#[test]
fn the_cockpit_asks_only_on_a_terminal_with_a_tailnet() {
    let asked = bind_question(false, false, Some("100.64.0.7"), true).unwrap();
    assert!(asked.starts_with("Tailscale detected at 100.64.0.7."));
    assert!(asked.contains("\n  [1] tailnet only   100.64.0.7:47836 "));
    assert!(asked.ends_with("Choose [1]: "));
    assert_eq!(bind_question(true, false, Some("100.64.0.7"), true), None);
    assert_eq!(bind_question(false, true, Some("100.64.0.7"), true), None);
    assert_eq!(bind_question(false, false, None, true), None);
    assert_eq!(bind_question(false, false, Some("100.64.0.7"), false), None);
}

#[test]
fn the_cockpit_says_where_it_listens() {
    assert_eq!(
        cockpit_lines("0.0.0.0:47836", "/h"),
        texts(&[
            "Maturana web cockpit \u{2192} http://0.0.0.0:47836",
            "  login token: `maturana web token` (stored at /h/web/token)",
        ])
    );
    assert_eq!(web_chat_name("main"), "web:main");
}

#[test]
fn an_upload_is_refused_for_the_first_reason_that_holds() {
    let refused = |graph, token, extension| web_ingest_refusal(graph, token, extension);
    assert_eq!(
        refused(false, false, None),
        Some(text("knowledge graph is not enabled for this agent"))
    );
    assert_eq!(refused(true, false, None), Some(text("graph service token is missing")));
    let unsupported = refused(true, true, Some("exe")).unwrap();
    assert!(unsupported.starts_with("unsupported file type for graph ingest (supported: "));
    assert_eq!(refused(true, true, None), Some(unsupported));
    assert_eq!(refused(true, true, Some("MD")), None);
}

#[test]
fn the_host_daemon_reports_a_launch() {
    let (status, body) = launch_response("a", true, Some(0), "/l", b"one\n", b"two\n");
    assert_eq!(status, 200);
    assert_eq!(body.truth_at("ok"), Some(true));
    assert_eq!(body.text_at("agent_id"), Some(text("a")));
    assert_eq!(body.text_at("status"), Some(text("succeeded")));
    assert_eq!(body.text_at("log"), Some(text("/l")));
    let (status, body) = launch_response("a", false, None, "/l", b"", b"");
    assert_eq!(status, 500);
    assert_eq!(body.text_at("status"), Some(text("failed")));
    assert!(matches!(body, Json::Record(_)));
    assert_eq!(launch_requested_text("a", "codex"), "launch requested; agent=a harness=codex");
    assert_eq!(launch_log_name("a"), "hyperv-launch-a.log");
}

#[test]
fn the_host_daemon_reports_how_it_is() {
    let mut status = HostdStatus {
        url: text("http://127.0.0.1:47835"),
        reachable: false,
        token_present: true,
        error: Some(text("refused")),
    };
    assert_eq!(
        hostd_status_lines(&status),
        texts(&[
            "hostd.url: http://127.0.0.1:47835",
            "hostd.reachable: false",
            "hostd.token_present: true",
            "hostd.error: refused",
        ])
    );
    status.error = None;
    assert_eq!(hostd_status_lines(&status).len(), 3);
}

#[test]
fn a_request_head_ends_with_an_empty_line() {
    assert!(ends_head("\r\n"));
    assert!(ends_head(""));
    assert!(!ends_head("Host: x\r\n"));
    assert!(is_request_decodable("GET /v1/snapshots?agent_id=a%20b HTTP/1.1"));
    assert!(is_request_decodable(""));
    assert!(hyperv_vms().contains("Get-MaturanaVMIPv4"));
}

#[test]
fn installed_prompts_are_counted() {
    assert_eq!(
        codex_prompts_text(3),
        "installed 3 Codex skill(s); use /skills or $<name> in Codex"
    );
}
