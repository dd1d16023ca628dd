use maturana::channels::command_catalog::{
    command_groups, commands_text, console_command_catalog, help_text,
};
use maturana::channels::command_handler::{
    handle_channel_command, status_text, CommandStep, StatusFacts,
};
use maturana::channels::console_bridge::{
    dispatch_slash_command, read_console_transcript, run_console_command, ConsoleCommand, ConsoleStep,
};
use maturana::channels::conversation::build_dispatch_prompt;
use maturana::channels::delivery::{Delivery, DeliveryAction, DeliveryEvent};
use maturana::channels::discord::{discord_extract_message, DiscordMessage};
use maturana::channels::media::sanitize_document_name;
use maturana::channels::models::{
    codex_auth_mode, codex_models_for_auth, recent_openrouter_models, CodexAuthMode,
    OpenRouterModel,
};
use maturana::channels::onboarding::finalize_onboarding_reply;
use maturana::channels::routing::{classify_telegram_update, is_pair_command, InboundAction};
use maturana::channels::settings::ChannelSettings;
use maturana::channels::slack::slack_extract_prompt;
use maturana::channels::stream::{StreamAction, StreamEvent, StreamTurn};
use maturana::channels::subagents::{slugify_channel_id, SpawnMode};
use maturana::channels::telegram::{
    TelegramChat, TelegramDocument, TelegramMessage, TelegramPhotoSize, TelegramUpdate,
    TelegramVoice,
};
use maturana::channels::telegram_api::{
    edit_telegram_message, live_edit_outcome, send_telegram_html, LiveEditOutcome, LiveReply,
};
use maturana::channels::telegram_live::{
    finalize_reply, render_progress_html, FinalizeAction, FinalizeEvent, FinalizeStage,
    ProgressEvent,
};
use maturana::channels::voice::multipart_audio;
use maturana::json::{parse_json, Json};

const SENTINEL: &str = "[[SILENT]]";

fn doc(text: &str) -> Json {
    parse_json(text).expect("a JSON document")
}

fn text_update(chat_id: i64, text: &str) -> TelegramUpdate {
    TelegramUpdate {
        update_id: 1,
        message: Some(TelegramMessage {
            message_id: 1,
            text: Some(text.to_string()),
            caption: None,
            document: None,
            photo: None,
            voice: None,
            audio: None,
            chat: TelegramChat { id: chat_id },
        }),
        channel_post: None,
        callback_query: None,
    }
}

fn document_update(chat_id: i64, file_name: &str, caption: Option<&str>) -> TelegramUpdate {
    TelegramUpdate {
        update_id: 1,
        message: Some(TelegramMessage {
            message_id: 1,
            text: None,
            caption: caption.map(str::to_string),
            document: Some(TelegramDocument {
                file_id: "file-123".to_string(),
                file_name: Some(file_name.to_string()),
                file_size: Some(1024),
            }),
            photo: None,
            voice: None,
            audio: None,
            chat: TelegramChat { id: chat_id },
        }),
        channel_post: None,
        callback_query: None,
    }
}

fn photo_update(chat_id: i64, caption: Option<&str>) -> TelegramUpdate {
    TelegramUpdate {
        update_id: 1,
        message: Some(TelegramMessage {
            message_id: 1,
            text: None,
            caption: caption.map(str::to_string),
            document: None,
            photo: Some(vec![
                TelegramPhotoSize { file_id: "photo-small".to_string() },
                TelegramPhotoSize { file_id: "photo-large".to_string() },
            ]),
            voice: None,
            audio: None,
            chat: TelegramChat { id: chat_id },
        }),
        channel_post: None,
        callback_query: None,
    }
}

fn voice_update(chat_id: i64) -> TelegramUpdate {
    TelegramUpdate {
        update_id: 1,
        message: Some(TelegramMessage {
            message_id: 1,
            text: None,
            caption: None,
            document: None,
            photo: None,
            voice: Some(TelegramVoice { file_id: "voice-123".to_string() }),
            audio: None,
            chat: TelegramChat { id: chat_id },
        }),
        channel_post: None,
        callback_query: None,
    }
}

#[test]
fn spellings_of_a_command_are_one() {
    for (a, b) in [
        ("/graph_query@Bot who is it", "/Graph-Query@Bot who is it"),
        ("/TTS_PROVIDER", "/tts-provider"),
        ("/no_such_thing x", "/NO-such-thing x"),
    ] {
        assert_eq!(
            classify_telegram_update(&text_update(7, a), Some(7), None),
            classify_telegram_update(&text_update(7, b), Some(7), None),
            "{a} {b}"
        );
    }
}

#[test]
fn an_id_keeps_its_slug() {
    for value in ["Fix  the_BUG!", "-a--b-", "\u{e9}t\u{e9} 7", "..."] {
        let id = slugify_channel_id(value);
        assert_eq!(slugify_channel_id(&id), id);
        assert_eq!(slugify_channel_id(&value.to_ascii_uppercase()), id);
    }
    assert_eq!(slugify_channel_id("Fix  the_BUG!"), "fix-the-bug");
    assert_eq!(slugify_channel_id("..."), "subagent");
}

#[test]
fn a_clean_name_is_kept() {
    for name in [". ../a b.txt ", "x:y.pdf", "..."] {
        let clean = sanitize_document_name(Some(name));
        assert_eq!(sanitize_document_name(Some(&clean)), clean);
    }
    assert_eq!(sanitize_document_name(Some(". ../a b.txt ")), "-a b.txt");
}

#[test]
fn discord_extract_message_keeps_file_only_messages() {
    let ev = doc(
        r#"{"d": {"channel_id": "123", "content": "", "author": {"id": "user1"},
            "attachments": [
                {"filename": "report.pdf", "url": "https://cdn.discordapp.com/x/report.pdf"}
            ]}}"#,
    );
    let message = discord_extract_message(&ev, Some("bot9")).unwrap();
    assert_eq!(message.channel_id, "123");
    assert!(message.content.is_empty());
    assert_eq!(
        message.attachments,
        vec![(
            "report.pdf".to_string(),
            "https://cdn.discordapp.com/x/report.pdf".to_string()
        )]
    );
    // The bot's own messages are passed over.
    let own = doc(r#"{"d": {"channel_id": "1", "content": "hi", "author": {"id": "bot9"}}}"#);
    assert!(discord_extract_message(&own, Some("bot9")).is_none());
    // Plain text without attachments.
    let txt = doc(r#"{"d": {"channel_id": "9", "content": "  hello  ", "author": {"id": "u"}}}"#);
    let message = discord_extract_message(&txt, Some("bot9")).unwrap();
    assert_eq!(message.content, "hello");
    assert!(message.attachments.is_empty());
}

#[test]
fn recent_models_are_newest_first_and_filter_non_chat() {
    let m = |id: &str, created: i64, text_output: bool, supports_tools: bool| OpenRouterModel {
        id: id.to_string(),
        created,
        text_output,
        supports_tools,
    };
    let catalog = vec![
        m("deepseek/deepseek-chat-v3.1", 100, true, true),
        m("google/gemini-3.5-flash", 300, true, true),
        m("anthropic/opus-4.8", 250, true, true),
        m("z-ai/glm-5.2", 280, true, true),
        m("google/gemini-3-pro-image", 999, false, true),
        m("nvidia/nemotron-3.5-content-safety", 998, true, true),
        m("openrouter/fusion", 997, true, false),
    ];
    let picked = recent_openrouter_models(&catalog, 3);
    assert_eq!(
        picked,
        vec![
            "google/gemini-3.5-flash".to_string(),
            "z-ai/glm-5.2".to_string(),
            "anthropic/opus-4.8".to_string(),
        ]
    );
    assert!(!picked.iter().any(|id| {
        id.contains("image") || id.contains("content-safety") || id.contains("fusion")
    }));
}

#[test]
fn classifies_pair_before_authorization() {
    let update = text_update(7, "/pair ABC123");
    assert_eq!(
        classify_telegram_update(&update, None, Some("ABC123")),
        InboundAction::Pair { chat_id: 7 }
    );
}

#[test]
fn denies_unpaired_chat() {
    let update = text_update(9, "hello");
    assert_eq!(
        classify_telegram_update(&update, Some(7), None),
        InboundAction::Deny { chat_id: 9 }
    );
}

#[test]
fn classifies_onboard_as_its_own_action() {
    let update = text_update(7, "/onboard");
    assert_eq!(
        classify_telegram_update(&update, Some(7), None),
        InboundAction::Onboard { chat_id: 7 }
    );
}

#[test]
fn routes_paired_prompt_and_status() {
    assert_eq!(
        classify_telegram_update(&text_update(7, "/status"), Some(7), None),
        InboundAction::Status { chat_id: 7 }
    );
    assert_eq!(
        classify_telegram_update(&text_update(7, "/new"), Some(7), None),
        InboundAction::New { chat_id: 7 }
    );
    assert_eq!(
        classify_telegram_update(&text_update(7, "hello"), Some(7), None),
        InboundAction::Prompt { chat_id: 7, text: "hello".to_string() }
    );
}

#[test]
fn routes_tool_and_feedback_commands() {
    assert_eq!(
        classify_telegram_update(
            &text_update(7, "/tool weather {\"city\":\"oslo\"}"),
            Some(7),
            None
        ),
        InboundAction::Tool {
            chat_id: 7,
            name: "weather".to_string(),
            input: "{\"city\":\"oslo\"}".to_string(),
        }
    );
    assert_eq!(
        classify_telegram_update(&text_update(7, "/tool weather"), Some(7), None),
        InboundAction::Tool {
            chat_id: 7,
            name: "weather".to_string(),
            input: "{}".to_string(),
        }
    );
    assert_eq!(
        classify_telegram_update(&text_update(7, "/good"), Some(7), None),
        InboundAction::Feedback { chat_id: 7, up: true }
    );
    assert_eq!(
        classify_telegram_update(&text_update(7, "/bad"), Some(7), None),
        InboundAction::Feedback { chat_id: 7, up: false }
    );
    // A name that no tool can have is answered with help.
    assert_eq!(
        classify_telegram_update(&text_update(7, "/tool Bad_Name"), Some(7), None),
        InboundAction::Help { chat_id: 7 }
    );
}

#[test]
fn routes_spawn_command() {
    assert_eq!(
        classify_telegram_update(
            &text_update(7, "/spawn persistent Researcher -- find context"),
            Some(7),
            None
        ),
        InboundAction::Spawn {
            chat_id: 7,
            mode: SpawnMode::Persistent,
            name: "researcher".to_string(),
            prompt: "find context".to_string(),
        }
    );
}

#[test]
fn routes_new_slash_commands() {
    assert_eq!(
        classify_telegram_update(&text_update(7, "/models"), Some(7), None),
        InboundAction::Command {
            chat_id: 7,
            name: "models".to_string(),
            args: String::new()
        }
    );
    assert_eq!(
        classify_telegram_update(&text_update(7, "/model openai/gpt-5"), Some(7), None),
        InboundAction::Command {
            chat_id: 7,
            name: "model".to_string(),
            args: "openai/gpt-5".to_string()
        }
    );
    assert_eq!(
        classify_telegram_update(&text_update(7, "/graph-query roadmap q3"), Some(7), None),
        InboundAction::Command {
            chat_id: 7,
            name: "graph-query".to_string(),
            args: "roadmap q3".to_string()
        }
    );
    assert_eq!(
        classify_telegram_update(&text_update(7, "/emerge summarize my inbox"), Some(7), None),
        InboundAction::Spawn {
            chat_id: 7,
            mode: SpawnMode::Ephemeral,
            name: "summarize-my-inbox".to_string(),
            prompt: "summarize my inbox".to_string(),
        }
    );
    assert_eq!(
        classify_telegram_update(
            &text_update(7, "/skill maturana-pipelock list"),
            Some(7),
            None
        ),
        InboundAction::Prompt {
            chat_id: 7,
            text: "Use the `maturana-pipelock` skill. list".to_string(),
        }
    );
    assert_eq!(
        classify_telegram_update(&text_update(7, "/wat"), Some(7), None),
        InboundAction::Command {
            chat_id: 7,
            name: "unknown".to_string(),
            args: "/wat".to_string()
        }
    );
}

#[test]
fn command_menu_underscores_map_to_hyphenated_commands() {
    assert_eq!(
        classify_telegram_update(&text_update(7, "/graph_query roadmap q3"), Some(7), None),
        InboundAction::Command {
            chat_id: 7,
            name: "graph-query".to_string(),
            args: "roadmap q3".to_string()
        }
    );
    assert_eq!(
        classify_telegram_update(&text_update(7, "/tts_provider"), Some(7), None),
        InboundAction::Command {
            chat_id: 7,
            name: "tts-provider".to_string(),
            args: String::new()
        }
    );
}

#[test]
fn discord_extracts_prompt_and_skips_bot_and_self() {
    let ev = doc(
        r#"{"op": 0, "t": "MESSAGE_CREATE",
            "d": {"channel_id": "123", "content": "<@999> hello there",
                  "author": {"id": "42", "bot": false}}}"#,
    );
    assert_eq!(
        discord_extract_message(&ev, Some("999")),
        Some(DiscordMessage {
            channel_id: "123".to_string(),
            content: "hello there".to_string(),
            attachments: vec![],
        })
    );
    let bot = doc(r#"{"d": {"channel_id": "1", "content": "hi", "author": {"id": "7", "bot": true}}}"#);
    assert_eq!(discord_extract_message(&bot, Some("999")), None);
    let own = doc(r#"{"d": {"channel_id": "1", "content": "hi", "author": {"id": "999"}}}"#);
    assert_eq!(discord_extract_message(&own, Some("999")), None);
    let empty = doc(r#"{"d": {"channel_id": "1", "content": "   ", "author": {"id": "42"}}}"#);
    assert_eq!(discord_extract_message(&empty, Some("999")), None);
}

#[test]
fn help_and_commands_cover_the_catalog() {
    let help = help_text();
    for group in [
        "Session",
        "Options",
        "Status",
        "Management",
        "MaturanaGraph",
        "Voice",
    ] {
        assert!(help.contains(group), "help missing group {group}");
    }
    for cmd in [
        "/model",
        "/models",
        "/tools",
        "/status",
        "/subagents",
        "/graph-query",
        "/tts",
    ] {
        assert!(help.contains(cmd), "help missing {cmd}");
        assert!(commands_text().contains(cmd), "commands missing {cmd}");
    }
}

#[test]
fn codex_models_track_auth_mode() {
    // A ChatGPT login is offered one model.
    let chatgpt = r#"{"auth_mode":"chatgpt","OPENAI_API_KEY":null,"tokens":{"access_token":"x"}}"#;
    assert_eq!(codex_auth_mode(Some(chatgpt)), CodexAuthMode::ChatGpt);
    assert_eq!(
        codex_models_for_auth(Some(chatgpt), None),
        vec!["gpt-5.5".to_string()]
    );

    // A key login is offered the wider list.
    let key = r#"{"auth_mode":"apikey","OPENAI_API_KEY":"sk-test","tokens":null}"#;
    assert_eq!(codex_auth_mode(Some(key)), CodexAuthMode::ApiKey);
    assert!(codex_models_for_auth(Some(key), None).contains(&"gpt-5".to_string()));

    // Without an explicit mode the filled credential tells.
    let bare = r#"{"OPENAI_API_KEY":null,"tokens":{"access_token":"x"}}"#;
    assert_eq!(codex_auth_mode(Some(bare)), CodexAuthMode::ChatGpt);

    // The configured default comes first.
    let config = "model = \"gpt-6-preview\"\nmodel_reasoning_effort = \"low\"\n[tui]\n";
    let models = codex_models_for_auth(Some(bare), Some(config));
    assert_eq!(models.first().map(String::as_str), Some("gpt-6-preview"));
    assert!(models.contains(&"gpt-5.5".to_string()));

    // An unreadable login gets the safe list.
    assert_eq!(codex_auth_mode(None), CodexAuthMode::Unknown);
    assert_eq!(codex_models_for_auth(None, None), vec!["gpt-5.5".to_string()]);
}

#[test]
fn pair_command_accepts_bot_suffix() {
    assert!(is_pair_command("/pair@LuhmannSystemsBot ABC123", "ABC123"));
    assert!(!is_pair_command("/pair@LuhmannSystemsBot WRONG", "ABC123"));
}

#[test]
fn dispatch_prompt_never_starts_with_a_dash() {
    let p = build_dispatch_prompt(
        Some("# Agent\nidentity\n"),
        Some("operator: Anders\n"),
        "do the thing",
    );
    assert!(!p.starts_with('-'), "prompt must not start with '-': {p}");
    assert!(
        p.contains("WHO YOU ARE") && p.contains("operator: Anders") && p.contains("do the thing")
    );

    let bare = build_dispatch_prompt(None, None, "do the thing");
    assert!(!bare.starts_with('-'));
}

/// Runs one row through the delivery loop; the sends fail if `fail` holds.
fn deliver(
    delivery: Delivery<String>,
    channel: &str,
    text: &str,
    age_nanos: u128,
    streaming: bool,
    fail: bool,
) -> (Delivery<String>, Vec<DeliveryAction<String, Vec<String>>>) {
    let mut actions = vec![];
    let (mut delivery, mut action) = delivery.deliver_outbox(DeliveryEvent::Row {
        channel: channel.to_string(),
        platform_id: "111".to_string(),
        age_nanos: Some(age_nanos),
        streaming,
    });
    loop {
        let event = match &action {
            DeliveryAction::Claim => DeliveryEvent::Claimed { won: true },
            DeliveryAction::Read => {
                DeliveryEvent::Content { text: Some(text.to_string()), files: vec![] }
            }
            DeliveryAction::Send { .. } => DeliveryEvent::Sent { ok: !fail },
            _ => {
                actions.push(action);
                return (delivery, actions);
            }
        };
        actions.push(action);
        let (next, step) = delivery.deliver_outbox(event);
        delivery = next;
        action = step;
    }
}

fn sent(actions: &Vec<DeliveryAction<String, Vec<String>>>) -> Vec<String> {
    actions
        .iter()
        .filter_map(|action| match action {
            DeliveryAction::Send { text, .. } => Some(text.clone()),
            _ => None,
        })
        .collect()
}

#[test]
fn deliver_outbox_is_the_single_delivery_loop() {
    let delivery =
        Delivery::new("tg".to_string(), "111".to_string(), None, SENTINEL.to_string());
    let (delivery, first) = deliver(delivery, "tg", "hello there", 0, false, false);
    assert_eq!(sent(&first), vec!["hello there".to_string()]);
    assert_eq!(
        first.last(),
        Some(&DeliveryAction::Record { text: "hello there".to_string() })
    );
    let (delivery, silent) = deliver(delivery, "tg", SENTINEL, 0, false, false);
    assert!(sent(&silent).is_empty());
    assert_eq!(silent.last(), Some(&DeliveryAction::Silence { ends_interview: false }));
    let (delivery, other) = deliver(delivery, "other", "wrong channel", 0, false, false);
    assert_eq!(other, vec![DeliveryAction::Skip]);
    assert_eq!(delivery.delivered, 1);

    // A failed send gives the row back.
    let (delivery, failed) = deliver(delivery, "tg", "retry me", 0, false, true);
    assert_eq!(failed.last(), Some(&DeliveryAction::Release));
    assert_eq!(delivery.delivered, 1);
}

#[test]
fn deliver_outbox_does_not_make_unstreamed_replies_wait_the_backstop() {
    let backstop: u128 = 3_600_000_000_000;
    let fresh = || {
        Delivery::new(
            "tg".to_string(),
            "111".to_string(),
            Some(backstop),
            SENTINEL.to_string(),
        )
    };
    let (done, actions) = deliver(fresh(), "tg", "greeting", 1, false, false);
    assert_eq!(done.delivered, 1);
    assert_eq!(sent(&actions).len(), 1);

    let (waiting, actions) = deliver(fresh(), "tg", "greeting", 1, true, false);
    assert_eq!(waiting.delivered, 0);
    assert!(sent(&actions).is_empty());
}

#[test]
fn the_completion_sentinel_ends_the_interview() {
    assert_eq!(
        finalize_onboarding_reply("Great, all set!\n[[ONBOARDING_COMPLETE]]"),
        ("Great, all set!".to_string(), true)
    );
    assert_eq!(
        finalize_onboarding_reply("And your name?"),
        ("And your name?".to_string(), false)
    );
}

#[test]
fn slack_extracts_user_message_and_strips_mention() {
    let envelope = doc(
        r#"{"type": "events_api", "envelope_id": "env-1",
            "payload": {"event": {"type": "app_mention", "channel": "C123", "ts": "1700.1",
                "text": "<@U0BOT> what is the roadmap?"}}}"#,
    );
    let prompt = slack_extract_prompt(&envelope).unwrap();
    assert_eq!(prompt.channel, "C123");
    assert_eq!(prompt.text, "what is the roadmap?");
    assert_eq!(prompt.thread.as_deref(), Some("1700.1"));
}

#[test]
fn slack_ignores_bot_and_non_message_events() {
    let bot = doc(
        r#"{"type": "events_api",
            "payload": {"event": {"type": "message", "channel": "C1", "text": "hi", "bot_id": "B1"}}}"#,
    );
    assert!(slack_extract_prompt(&bot).is_none());
    let edit = doc(
        r#"{"type": "events_api",
            "payload": {"event": {"type": "message", "channel": "C1", "text": "hi", "subtype": "message_changed"}}}"#,
    );
    assert!(slack_extract_prompt(&edit).is_none());
    let reaction =
        doc(r#"{"type": "events_api", "payload": {"event": {"type": "reaction_added"}}}"#);
    assert!(slack_extract_prompt(&reaction).is_none());
}

#[test]
fn a_console_transcript_is_read_turn_by_turn() {
    let raw = "## 2024-01-01T00:00:00Z user\n\nhello\nworld\n\n## 2024-01-01T00:00:01Z assistant\n\nhi there\n\n";
    assert_eq!(
        read_console_transcript(raw),
        vec![
            ("user".to_string(), "hello\nworld".to_string()),
            ("assistant".to_string(), "hi there".to_string()),
        ]
    );
    assert!(read_console_transcript("").is_empty());
}

#[test]
fn dispatch_model_with_args_sets_via_text_not_picker() {
    let settings = ChannelSettings::default();
    let out = dispatch_slash_command(&settings, &vec![], "/model gpt-5");
    match out {
        ConsoleStep::Channel { name, args } => {
            match handle_channel_command(&settings, "s", &name, &args) {
                CommandStep::Save { settings, .. } => {
                    assert_eq!(settings.model.as_deref(), Some("gpt-5"))
                }
                other => panic!("expected a saved setting, got {other:?}"),
            }
        }
        other => panic!("expected a text command, got {other:?}"),
    }
}

#[test]
fn every_catalog_command_dispatches_on_all_surfaces() {
    let settings = ChannelSettings::default();
    let names: Vec<&str> = command_groups()
        .into_iter()
        .flat_map(|group| group.commands.into_iter().map(|(name, _)| name))
        .collect();
    assert!(!names.is_empty(), "command catalog is empty");
    for name in names {
        let raw = if name == "/loop" {
            format!("{name} status")
        } else {
            format!("{name} x")
        };
        let reply = match dispatch_slash_command(&settings, &vec![], &raw) {
            ConsoleStep::Done { command: ConsoleCommand::Reply { text } } => Some(text),
            ConsoleStep::Channel { name, args } => {
                match handle_channel_command(&settings, "s", &name, &args) {
                    CommandStep::Reply { text } => Some(text),
                    _ => None,
                }
            }
            _ => None,
        };
        if let Some(text) = reply {
            assert!(
                !text.starts_with("Unknown command"),
                "catalog command {name} fell through to Unknown: {text}"
            );
        }
    }
}

#[test]
fn routes_voice_notes_to_transcription_from_paired_chat_only() {
    assert_eq!(
        classify_telegram_update(&voice_update(7), Some(7), None),
        InboundAction::Voice {
            chat_id: 7,
            file_id: "voice-123".to_string(),
            filename: "voice.ogg".to_string(),
        }
    );
    assert_eq!(
        classify_telegram_update(&voice_update(9), Some(7), None),
        InboundAction::Deny { chat_id: 9 }
    );
}

#[test]
fn stt_multipart_carries_model_and_audio() {
    let (content_type, body) =
        multipart_audio("model_id", "scribe_v1", "voice.ogg", &b"OGGDATA".to_vec());
    assert!(content_type.contains("multipart/form-data; boundary="));
    let text = String::from_utf8_lossy(&body);
    assert!(text.contains("name=\"model_id\""));
    assert!(text.contains("scribe_v1"));
    assert!(text.contains("filename=\"voice.ogg\""));
    assert!(text.contains("OGGDATA"));
    assert!(text.trim_end().ends_with("--"));
}

#[test]
fn routes_photo_uploads_to_ocr_from_paired_chat_only() {
    assert_eq!(
        classify_telegram_update(&photo_update(7, Some("store this")), Some(7), None),
        InboundAction::Photo {
            chat_id: 7,
            file_id: "photo-large".to_string(),
            caption: Some("store this".to_string()),
        }
    );
    assert_eq!(
        classify_telegram_update(&photo_update(9, None), Some(7), None),
        InboundAction::Deny { chat_id: 9 }
    );
}

#[test]
fn routes_document_uploads_from_paired_chat_only() {
    let update = document_update(7, "notes.pdf", Some("for the graph"));
    assert_eq!(
        classify_telegram_update(&update, Some(7), None),
        InboundAction::Document {
            chat_id: 7,
            document: TelegramDocument {
                file_id: "file-123".to_string(),
                file_name: Some("notes.pdf".to_string()),
                file_size: Some(1024),
            },
            caption: Some("for the graph".to_string()),
        }
    );
    assert_eq!(
        classify_telegram_update(&document_update(9, "notes.pdf", None), Some(7), None),
        InboundAction::Deny { chat_id: 9 }
    );
    assert_eq!(
        classify_telegram_update(&document_update(9, "notes.pdf", None), None, None),
        InboundAction::Deny { chat_id: 9 }
    );
}

#[test]
fn sanitizes_telegram_document_names() {
    assert_eq!(
        sanitize_document_name(Some("Q3 Roadmap.pdf")),
        "Q3 Roadmap.pdf"
    );
    assert_eq!(
        sanitize_document_name(Some("../../etc/passwd")),
        "-..-etc-passwd"
    );
    assert_eq!(sanitize_document_name(Some("..")), "document");
    assert_eq!(sanitize_document_name(None), "document");
    assert_eq!(sanitize_document_name(Some("a/b\\c.md")), "a-b-c.md");
}

#[test]
fn console_command_dispatch_matches_telegram_catalog() {
    let settings = ChannelSettings::default();
    let run = |raw: &str| dispatch_slash_command(&settings, &vec![], raw);

    assert_eq!(run("/clear"), ConsoleStep::Done { command: ConsoleCommand::Clear });
    assert_eq!(run("/quit"), ConsoleStep::Done { command: ConsoleCommand::Quit });
    // The context is reset before a new session is announced.
    assert_eq!(run("/new"), ConsoleStep::Reset);
    assert_eq!(
        run_console_command(run("/new"), Ok(String::new())),
        ConsoleCommand::NewSession
    );
    assert_eq!(run("/status"), ConsoleStep::Status);
    let status = status_text(
        &settings,
        &StatusFacts {
            agent_id: "agent",
            channel: "console",
            session_id: "telegram-main",
            presence: "unknown",
            harness: "codex",
            os: "linux",
            time: "now",
        },
    );
    match run_console_command(run("/status"), Ok(status)) {
        ConsoleCommand::Reply { text } => {
            assert!(text.contains("agent: agent"));
            assert!(text.contains("console"));
        }
        other => panic!("/status should produce a reply, got {other:?}"),
    }
    assert_eq!(
        run("/skill summarize the notes"),
        ConsoleStep::Done {
            command: ConsoleCommand::Prompt {
                text: "Use the `summarize` skill. the notes".to_string()
            }
        }
    );
    match run("/model gpt-5") {
        ConsoleStep::Channel { name, args } => {
            match handle_channel_command(&settings, "telegram-main", &name, &args) {
                CommandStep::Save { text, .. } => assert!(text.contains("gpt-5")),
                other => panic!("/model should reply, got {other:?}"),
            }
        }
        other => panic!("/model should reply, got {other:?}"),
    }
    match run("/bogus") {
        ConsoleStep::Channel { name, args } => {
            match handle_channel_command(&settings, "telegram-main", &name, &args) {
                CommandStep::Reply { text } => assert!(text.contains("Unknown command")),
                other => panic!("unknown command should reply, got {other:?}"),
            }
        }
        other => panic!("unknown command should reply, got {other:?}"),
    }
    let names: Vec<&str> = console_command_catalog().into_iter().map(|(n, _)| n).collect();
    for cmd in [
        "/model",
        "/models",
        "/session",
        "/tools",
        "/subagents",
        "/graph-query",
        "/tts",
        "/onboard",
        "/new",
        "/good",
    ] {
        assert!(names.contains(&cmd), "catalog missing {cmd}");
    }
}

#[test]
fn live_edit_classifies_429_with_retry_after() {
    let outcome = live_edit_outcome(&LiveReply::Status {
        code: 429,
        retry_after: Some("3".to_string()),
        body: Some(
            r#"{"ok":false,"error_code":429,"description":"Too Many Requests: retry after 3","parameters":{"retry_after":3}}"#
                .to_string(),
        ),
    });
    assert_eq!(outcome, LiveEditOutcome::Throttled { retry_after: Some(3) });
}

#[test]
fn live_edit_treats_not_modified_400_as_ok() {
    let outcome = live_edit_outcome(&LiveReply::Status {
        code: 400,
        retry_after: None,
        body: Some(
            r#"{"ok":false,"error_code":400,"description":"Bad Request: message is not modified"}"#
                .to_string(),
        ),
    });
    assert_eq!(outcome, LiveEditOutcome::Done);
}

#[test]
fn finalize_edits_thinking_bubble_into_answer() {
    let answer = "Three biggest stories: one, two, and three with a short note on each.";
    let draft = send_telegram_html("123", "<pre>💭 Thinking… 0:08</pre>", None);
    assert_eq!(draft.method, "sendMessage");
    assert!(draft.body.text_at("text").unwrap().contains("Thinking"));

    let (stage, action) =
        finalize_reply(FinalizeStage::Start { live_id: Some(4242) }, FinalizeEvent::Begin);
    let id = match action {
        FinalizeAction::Edit { id } => id,
        other => panic!("the bubble is edited, got {other:?}"),
    };
    let edit = edit_telegram_message(123, id, answer);
    assert_eq!(edit.method, "editMessageText");
    assert!(edit.body.text_at("text").unwrap().contains("short note on each"));
    // Nothing is sent or deleted after the edit.
    let (stage, action) = finalize_reply(stage, FinalizeEvent::Done);
    assert_eq!(action, FinalizeAction::Finish { id: Some(4242) });
    assert_eq!(stage, FinalizeStage::Ended);
}

const SECOND: u64 = 1_000_000_000;

/// Plays a streamed turn against a clock. The reply is there from `ready` on.
fn play_turn(ready: u64, won: bool, answer: &str) -> Vec<StreamAction<String>> {
    let mut seen = vec![];
    let mut now: u64 = 0;
    let mut turn = StreamTurn::new(SENTINEL.to_string(), 25 * SECOND, None);
    let mut event = StreamEvent::Look { now, arrived: false };
    loop {
        let (next, action) = turn.stream_turn_to_telegram(event);
        turn = next;
        event = match &action {
            StreamAction::SendTyping => StreamEvent::Typed { now },
            StreamAction::ReadProgress => StreamEvent::Progress { now, html: String::new() },
            StreamAction::Edit { .. } => {
                StreamEvent::Edited { now, outcome: LiveEditOutcome::Done }
            }
            StreamAction::Post { .. } => StreamEvent::Posted { now, id: Some(4242) },
            StreamAction::Nap { nanos } => {
                now += *nanos;
                StreamEvent::Look { now, arrived: now >= ready }
            }
            StreamAction::Claim => StreamEvent::Claimed { won },
            StreamAction::Read => StreamEvent::Content { text: Some(answer.to_string()) },
            StreamAction::Finalize { .. } => StreamEvent::Finalized { ok: true },
            _ => {
                seen.push(action);
                return seen;
            }
        };
        seen.push(action);
    }
}

#[test]
fn live_loop_ticks_counter_then_edits_into_answer() {
    let answer = "Here is a reasonably long answer that the live bubble is edited into when the turn completes.";
    let seen = play_turn(8 * SECOND, true, answer);
    let mut frames: Vec<&String> = vec![];
    for action in &seen {
        let html = match action {
            StreamAction::Edit { html, .. } => html,
            StreamAction::Post { html } => html,
            _ => continue,
        };
        assert!(html.contains("Thinking"));
        assert!(!html.contains('·'), "no dust frames");
        if !frames.contains(&html) {
            frames.push(html);
        }
    }
    assert!(
        (3..=14).contains(&frames.len()),
        "the counter advances about once a second, got {}",
        frames.len()
    );
    assert!(seen.contains(&StreamAction::Finalize {
        live_id: Some(4242),
        text: answer.to_string(),
        ends_interview: false,
    }));
    assert!(!seen.iter().any(|action| matches!(action, StreamAction::Withdraw { .. })));
    assert_eq!(seen.last(), Some(&StreamAction::Record { text: answer.to_string() }));
}

#[test]
fn live_loop_deletes_orphan_bubble_when_reply_already_delivered() {
    let answer = "Already delivered by the backstop.";
    let seen = play_turn(3 * SECOND + SECOND / 2, false, answer);
    assert_eq!(seen.last(), Some(&StreamAction::Withdraw { live_id: Some(4242) }));
    assert!(!seen.iter().any(|action| matches!(action, StreamAction::Finalize { .. })));
}

fn event(kind: &str, text: &str) -> ProgressEvent {
    ProgressEvent { kind: kind.to_string(), text: text.to_string() }
}

#[test]
fn progress_html_renders_monospace_tool_block() {
    assert_eq!(render_progress_html(&vec![]), "");

    let events = vec![
        event("tool", "web_search\u{1f}L:Ron:Harald top songs"),
        event("tool", "bash\u{1f}rg foo"),
    ];
    let rendered = render_progress_html(&events);
    assert!(
        rendered.starts_with("<pre>") && rendered.ends_with("</pre>"),
        "{rendered}"
    );
    assert!(
        rendered.contains("🔎 Web Search: L:Ron:Harald top songs"),
        "{rendered}"
    );
    assert!(rendered.contains("🛠️ rg foo"), "{rendered}");
    assert!(!rendered.contains('🧠'), "no brain emoji: {rendered}");

    let legacy = vec![event("tool", "running: ls -la")];
    assert!(render_progress_html(&legacy).contains("🛠️ ls -la"));

    let unsafe_detail = vec![event("tool", "bash\u{1f}grep <foo> & bar")];
    let escaped = render_progress_html(&unsafe_detail);
    assert!(escaped.contains("grep &lt;foo&gt; &amp; bar"), "{escaped}");

    let mixed = vec![
        event("thinking", "Looking it up"),
        event("text", "Here is the answer."),
    ];
    let r = render_progress_html(&mixed);
    assert!(r.contains("Here is the answer."));
    assert!(!r.contains("Looking it up"), "thinking suppressed: {r}");

    let unknown = vec![event("tool", "record_voice\u{1f}cue")];
    assert!(render_progress_html(&unknown).contains("🧩 Record Voice: cue"));
}
