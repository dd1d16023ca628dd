use maturana::channels::agentmail::{
    agentmail_messages, last_seen, MailAction, MailEvent, MailOptions, MailStage,
};
use maturana::channels::attachments::{
    handle_discord_attachments, AttachmentAction, AttachmentEvent, AttachmentNote,
};
use maturana::channels::buttons::{rows_json, Style};
use maturana::channels::command_handler::presence_of;
use maturana::channels::commands::{
    handle_channel, ChannelCommand, ChannelSubcommand, ChannelTask,
};
use maturana::channels::console_bridge::{
    apply_web_console_command, feedback_text, ConsoleCommand, FeedbackOutcome, WebAnswer,
};
use maturana::channels::conversation::{enqueue_dispatch_turn, enqueue_onboarding};
use maturana::channels::delivery::{is_deferred, reply_target, truncate_for_telegram};
use maturana::channels::discord::{
    attachment_line, discord_post_message_with_buttons, handle_discord_attachment, identify_json, FileOutcome, FileStep, FrameAction,
    Gateway,
};
use maturana::channels::loops::{handle_loop_command, LoopStep};
use maturana::channels::media::{handle_telegram_document, DocumentStep};
use maturana::channels::models::{harness_label, parse_openrouter_catalog, Harness};
use maturana::channels::prompt_run::{run_channel_prompt, PromptAction, PromptEvent, PromptStage};
use maturana::channels::serve::{Serve, ServeAction, ServeEvent, ServeOptions};
use maturana::channels::settings::{
    apply_channel_selection, command_selector_buttons, selection_reply_text, ChannelSettings,
};
use maturana::channels::stream::{
    clock_text, StreamAction, StreamEvent, StreamTurn, ToolRun, LIVE_EDIT_BASE,
};
use maturana::channels::subagents::{frame_subtask, slugify_channel_id, SpawnMode};
use maturana::channels::telegram::{TelegramChat, TelegramMessage, TelegramUpdate};
use maturana::channels::telegram_api::LiveEditOutcome;
use maturana::channels::telegram_inbound::{
    handle_telegram_update, AgentState, Effect, UpdatePlan,
};
use maturana::channels::telegram_live::{
    finalize_reply, html_escape, titleize, tool_display, FinalizeAction, FinalizeEvent,
    FinalizeStage,
};
use maturana::channels::telegram_state::{
    paired_chat_id, telegram_bridge_live, write_telegram_heartbeat, HEARTBEAT_NANOS,
};
use maturana::channels::tool_run::{run_tool_with_animation, ToolRunAction, ToolRunEvent};
use maturana::channels::voice::{handle_telegram_voice, maybe_send_tts, VoiceStep};
use maturana::json::{parse_json, Json};
use maturana::orchestrate::board::{Board, Card, CardStatus, Moment};
use maturana::orchestrate::board_run::{BoardAction, BoardEnd, BoardEvent, BoardRun};
use maturana::orchestrate::budget::{CapsOverride, OrchestratorCaps, RunBudget};
use maturana::orchestrate::commands::{
    add_card, add_to_board, clean_needs, handle_board, BoardCommand, BoardOutcome,
    BoardSubcommand, NewCard,
};
use maturana::orchestrate::plan::RoleRegistry;
use maturana::orchestrate::run::{
    revise_request,
    clean_reply, failure_text, unplaced_text, Action, Event, Failure, Role, Run, StopReason,
};
use maturana::orchestrate::wire::{send_metadata, task_answer, wire_token};
use maturana::text;

fn s(value: &str) -> String {
    value.to_string()
}

// Texts

#[test]
fn numbers_are_written_and_read_back() {
    assert_eq!(text::u64_text(18_446_744_073_709_551_615), "18446744073709551615");
    assert_eq!(text::parse_u64("18446744073709551615"), Some(u64::MAX));
    assert_eq!(text::parse_u64("18446744073709551616"), None);
    assert_eq!(text::parse_u64("+7"), Some(7));
    assert_eq!(text::parse_u64(""), None);
    assert_eq!(text::i64_text(i64::MIN), "-9223372036854775808");
    assert_eq!(text::parse_i64("-9223372036854775808"), Some(i64::MIN));
}

#[test]
fn sorting_keeps_every_text() {
    let list = vec![s("b"), s("a"), s("ab"), s("a")];
    assert_eq!(text::sort_texts(&list), vec![s("a"), s("a"), s("ab"), s("b")]);
}

#[test]
fn texts_are_cut_like_lines_and_words() {
    assert_eq!(text::lines("a\r\nb\n\nc"), vec![s("a"), s("b"), s(""), s("c")]);
    assert_eq!(text::words("  a  b\t"), vec![s("a"), s("b")]);
    assert_eq!(text::split("a,,b", ","), vec![s("a"), s(""), s("b")]);
    assert_eq!(text::split_once("k=v=w", "="), Some((s("k"), s("v=w"))));
    assert_eq!(text::replace("aaa", "aa", "b"), "ba");
    assert_eq!(text::trim("\u{a0} x \n"), "x");
    assert_eq!(text::take_chars("aé😀", 2), "aé");
    assert_eq!(text::pad_right("ab", 4), "ab  ");
}

// Channels

fn update(chat_id: i64, body: &str) -> TelegramUpdate {
    TelegramUpdate {
        update_id: 1,
        message: Some(TelegramMessage {
            message_id: 5,
            text: Some(s(body)),
            caption: None,
            document: None,
            photo: None,
            voice: None,
            audio: None,
            chat: TelegramChat { id: chat_id },
        }),
        channel_post: None,
        callback_query: None,
    }
}

#[test]
fn an_unpaired_chat_changes_nothing() {
    let agent = AgentState {
        agent_id: s("a"),
        onboarded: true,
        settings: ChannelSettings::default(),
        models: vec![],
    };
    match handle_telegram_update(&agent, &update(9, "/model gpt-5"), Some(7), None) {
        UpdatePlan::Effects { effects, .. } => {
            assert!(effects.iter().all(|effect| matches!(
                effect,
                Effect::Audit { .. } | Effect::Send { .. }
            )));
        }
        other => panic!("expected effects, got {other:?}"),
    }
    match handle_telegram_update(&agent, &update(7, "/model gpt-5"), Some(7), None) {
        UpdatePlan::Effects { effects, .. } => {
            assert!(effects.iter().any(|effect| matches!(effect, Effect::Command { .. })));
        }
        other => panic!("expected effects, got {other:?}"),
    }
}

#[test]
fn escaped_text_has_no_markup() {
    assert_eq!(html_escape("<b> & </b>"), "&lt;b&gt; &amp; &lt;/b&gt;");
}

#[test]
fn titles_start_in_upper_case() {
    assert_eq!(titleize("record_voice-note"), "Record Voice Note");
    assert_eq!(titleize("éclair"), "Éclair");
    assert_eq!(tool_display("bash").1, "Bash");
}

#[test]
fn a_reply_never_stands_twice() {
    // An edit that fails is followed by a delete, and only then by a send.
    let (stage, action) =
        finalize_reply(FinalizeStage::Start { live_id: Some(1) }, FinalizeEvent::Begin);
    assert_eq!(action, FinalizeAction::Edit { id: 1 });
    let (stage, action) = finalize_reply(stage, FinalizeEvent::Failed { error: s("gone") });
    assert_eq!(action, FinalizeAction::Delete);
    let (stage, action) = finalize_reply(stage, FinalizeEvent::Done);
    assert_eq!(action, FinalizeAction::Send);
    let (_, action) = finalize_reply(stage, FinalizeEvent::Sent { id: Some(2) });
    assert_eq!(action, FinalizeAction::Finish { id: Some(2) });
}

#[test]
fn feedback_is_confirmed() {
    assert!(feedback_text(true, &FeedbackOutcome::Recorded).contains('👍'));
    assert!(feedback_text(false, &FeedbackOutcome::Recorded).contains('👎'));
    assert_eq!(
        feedback_text(true, &FeedbackOutcome::NoTurn),
        "No recent agent turn to rate yet."
    );
    assert_eq!(
        feedback_text(true, &FeedbackOutcome::Failed { error: s("disk") }),
        "Could not record feedback: disk"
    );
}

#[test]
fn the_web_console_resets_and_prompts() {
    assert_eq!(
        apply_web_console_command(ConsoleCommand::Prompt { text: s("go") }),
        WebAnswer::Enqueue { prompt: s("go") }
    );
    assert!(matches!(
        apply_web_console_command(ConsoleCommand::Clear),
        WebAnswer::ResetAndReply { .. }
    ));
}

#[test]
fn the_mail_loop_survives_a_failed_poll() {
    let options = MailOptions { once: false, run_here: false, poll_seconds: 1 };
    let (stage, action) = options.serve_agentmail(MailStage::Polling, MailEvent::Failed);
    assert_eq!(action, MailAction::ReportAndRest { seconds: 2 });
    let (stage, _) = options.serve_agentmail(stage, MailEvent::Done);
    // Mail is handed over and the state kept before anything is answered.
    let (stage, action) = options.serve_agentmail(stage, MailEvent::Mails { count: 1 });
    assert_eq!(action, MailAction::Enqueue { at: 0 });
    let (stage, action) = options.serve_agentmail(stage, MailEvent::Done);
    assert_eq!(action, MailAction::SaveState);
    let (_, action) = options.serve_agentmail(stage, MailEvent::Done);
    assert_eq!(action, MailAction::Deliver { at: 0 });
}

#[test]
fn mails_are_read_from_an_answer() {
    let answer = parse_json(
        r#"{"messages": [{"message_id": "m", "thread_id": "t", "timestamp": "2", "text": "hi"}]}"#,
    )
    .unwrap();
    let mails = agentmail_messages(&answer);
    assert_eq!(mails.len(), 1);
    assert_eq!(mails[0].thread_id, "t");
    assert_eq!(last_seen(Some(s("1")), &mails), Some(s("2")));
    assert_eq!(last_seen(Some(s("1")), &vec![]), Some(s("1")));
    assert_eq!(last_seen(Some(s("3")), &mails), Some(s("3")));
    let answer = parse_json(
        r#"{"messages": [{"message_id": "m", "thread_id": "t", "timestamp": "9", "text": "new"},
                         {"message_id": "n", "thread_id": "t", "timestamp": "5", "text": "old"}]}"#,
    )
    .unwrap();
    assert_eq!(last_seen(None, &agentmail_messages(&answer)), Some(s("9")));
}

#[test]
fn a_slug_is_never_empty() {
    assert_eq!(slugify_channel_id("My Inbox!"), "my-inbox");
    assert!(!slugify_channel_id("!!!").is_empty());
    assert_eq!(SpawnMode::Persistent.as_str(), "persistent");
    assert!(frame_subtask("n", "do it").contains("do it"));
}

#[test]
fn the_gateway_identifies_once() {
    let hello = parse_json(r#"{"op": 10, "d": {"heartbeat_interval": 1000}}"#).unwrap();
    let gateway = Gateway::new();
    let (gateway, action) = gateway.discord_gateway_session(&hello, 0);
    assert_eq!(action, FrameAction::Identify);
    assert_eq!(gateway.heartbeat_ms, 1000);
    let (_, action) = gateway.discord_gateway_session(&hello, 1);
    assert!(!matches!(action, FrameAction::Identify));
    let again = parse_json(r#"{"op": 7}"#).unwrap();
    let (_, action) = Gateway::new().discord_gateway_session(&again, 0);
    assert_eq!(action, FrameAction::Reconnect { op: 7 });
    let (_, action) = Gateway::new().take_frame(r#"{"op": 7}"#, 0).unwrap();
    assert_eq!(action, FrameAction::Reconnect { op: 7 });
    assert!(Gateway::new().take_frame("not json", 0).is_none());
    let identify = identify_json("tok");
    assert_eq!(identify.get("d").unwrap().text_at("token").as_deref(), Some("tok"));
}

#[test]
fn discord_files_are_shown_ingested_or_kept() {
    assert_eq!(handle_discord_attachment("a.png", false, false), FileStep::Show);
    assert_eq!(handle_discord_attachment("a.md", true, false), FileStep::Ingest);
    assert_eq!(handle_discord_attachment("a.md", false, false), FileStep::Keep);
    assert!(attachment_line("a.md", &FileOutcome::Ingested { chunks: 3 }).contains('3'));
}

#[test]
fn every_file_of_a_message_is_told_of() {
    let names = vec![s("a.png"), s("b.md"), s("c.bin")];
    let (files, action) = handle_discord_attachments(names, s("look"), true);
    assert_eq!(action, AttachmentAction::Fetch { at: 0 });
    let ((files, action), _) = files.advance(AttachmentEvent::Fetched);
    assert_eq!(action, AttachmentAction::Show { at: 0 });
    let ((files, action), note) =
        files.advance(AttachmentEvent::Shown { guest_path: s("/w/a.png") });
    assert!(matches!(note, AttachmentNote::Look { .. }));
    assert_eq!(action, AttachmentAction::Fetch { at: 1 });
    let ((files, action), _) = files.advance(AttachmentEvent::Fetched);
    assert_eq!(action, AttachmentAction::Ingest { at: 1 });
    let ((files, _), note) = files.advance(AttachmentEvent::Ingested { chunks: 2 });
    assert_eq!(
        note,
        AttachmentNote::Audit {
            action: s("channel.discord.document"),
            message: s("ingested b.md (2 chunks)"),
        }
    );
    let ((files, action), _) = files.advance(AttachmentEvent::Failed { error: s("gone") });
    match action {
        AttachmentAction::Post { text } => {
            assert!(text.contains("`a.png` — 👁️ viewing it now"));
            assert!(text.contains("`b.md` → added to my knowledge graph (2 chunks)"));
            assert!(text.contains("`c.bin` — download failed: gone"));
            assert!(text.ends_with("\n\n_re: look_"));
        }
        other => panic!("expected a post, got {other:?}"),
    }
    let ((_, action), _) = files.advance(AttachmentEvent::Fetched);
    assert_eq!(action, AttachmentAction::Ignore);
}

#[test]
fn an_image_that_cannot_be_shown_is_kept() {
    let (files, _) = handle_discord_attachments(vec![s("a.png")], s(""), false);
    let ((files, _), _) = files.advance(AttachmentEvent::Fetched);
    let ((_, action), note) = files.advance(AttachmentEvent::Failed { error: s("down") });
    assert!(matches!(note, AttachmentNote::Audit { .. }));
    assert!(matches!(action, AttachmentAction::Post { .. }));
}

#[test]
fn a_tool_result_is_told_kept_and_audited() {
    let (run, action) = run_tool_with_animation(s("weather"), s("{}"));
    assert_eq!(action, ToolRunAction::Find { name: s("weather") });
    let (run, action) = run.advance(ToolRunEvent::Found { known: true });
    assert!(matches!(action, ToolRunAction::Post { tick: 0, .. }));
    let (run, action) = run.advance(ToolRunEvent::Posted { id: Some(7) });
    assert!(matches!(action, ToolRunAction::Start { .. }));
    let (run, action) = run.advance(ToolRunEvent::Tick);
    assert!(matches!(action, ToolRunAction::Edit { id: 7, tick: 1, .. }));
    // A frame that cannot be shown does not matter.
    let (run, action) = run.advance(ToolRunEvent::Failed);
    assert_eq!(action, ToolRunAction::Wait);
    let (run, action) = run.advance(ToolRunEvent::Ran {
        run: ToolRun { ok: true, stdout: s("sunny"), stderr: s(""), duration_ms: 12 },
    });
    assert_eq!(action, ToolRunAction::OpenStore);
    let (run, action) = run.advance(ToolRunEvent::Done);
    assert!(matches!(action, ToolRunAction::Edit { id: 7, tick: 2, .. }));
    let (run, action) = run.advance(ToolRunEvent::Done);
    assert_eq!(action, ToolRunAction::Send { text: s("sunny") });
    let (run, action) = run.advance(ToolRunEvent::Done);
    assert_eq!(
        action,
        ToolRunAction::Record { input: s("/tool weather {}"), output: s("sunny") }
    );
    let (run, action) = run.advance(ToolRunEvent::Done);
    assert_eq!(action, ToolRunAction::Audit { message: s("ran tool weather ok=true") });
    let (_, action) = run.advance(ToolRunEvent::Done);
    assert_eq!(action, ToolRunAction::Finish);
}

#[test]
fn an_unknown_tool_is_refused() {
    let (run, _) = run_tool_with_animation(s("nope"), s("{}"));
    let (run, action) = run.advance(ToolRunEvent::Found { known: false });
    match action {
        ToolRunAction::Send { text } => assert!(text.contains("`nope` is not registered")),
        other => panic!("expected a refusal, got {other:?}"),
    }
    let (_, action) = run.advance(ToolRunEvent::Done);
    assert_eq!(action, ToolRunAction::Finish);
}

#[test]
fn queued_turns_carry_their_prompt() {
    let body = enqueue_dispatch_turn(None, None, "do it", Some("gpt-5"));
    assert_eq!(body.text_at("text").as_deref(), Some("do it"));
    assert_eq!(body.text_at("prompt").as_deref(), Some("=== TASK ===\ndo it"));
    assert_eq!(body.text_at("model").as_deref(), Some("gpt-5"));
    assert_eq!(body.get("reasoning"), Some(&Json::Null));
    let mut settings = ChannelSettings::default();
    settings.reasoning = Some(s("high"));
    let body = enqueue_onboarding("whole prompt", &settings);
    assert_eq!(body.text_at("prompt").as_deref(), Some("whole prompt"));
    assert_eq!(body.text_at("reasoning").as_deref(), Some("high"));
}

#[test]
fn the_presence_shows_the_heartbeat() {
    let beat = write_telegram_heartbeat("a", "polling", None, "noon");
    assert_eq!(presence_of(Some(&beat)), "polling (last beat noon)");
    assert_eq!(presence_of(None), "not started");
}

#[test]
fn buttons_stand_in_rows() {
    let buttons: Vec<(String, String)> =
        (0..30).map(|n| (format!("b{n}"), format!("d{n}"))).collect();
    let discord = rows_json(Style::Discord, &buttons, 10);
    assert_eq!(discord.items().unwrap().len(), 3);
    let message = discord_post_message_with_buttons("pick", &buttons, 2);
    let rows = message.items_at("components").unwrap();
    assert_eq!(rows.len(), 5);
    assert!(rows.iter().all(|row| row.items_at("components").unwrap().len() <= 5));
    let telegram = rows_json(Style::Telegram, &buttons, 2);
    assert_eq!(telegram.items().unwrap().len(), 15);
}

#[test]
fn a_selection_sets_one_setting() {
    let settings = ChannelSettings::default();
    let choices =
        command_selector_buttons(&settings, &vec![s("gpt-5")], "model").expect("a selection");
    let (label, data) = &choices.buttons[0];
    assert!(label.contains("gpt-5"));
    let (after, _) = apply_channel_selection(&settings, data).expect("an applied selection");
    assert_eq!(after.model.as_deref(), Some("gpt-5"));
    assert_eq!(after.reasoning, settings.reasoning);
    assert!(apply_channel_selection(&settings, "nonsense").is_none());
    assert!(apply_channel_selection(&settings, "reasoning:minimal").is_none());
    assert_eq!(
        selection_reply_text(&settings, "reasoning:minimal", None),
        "Unknown level `minimal`. Choose one of: low, medium, high"
    );
    assert_eq!(selection_reply_text(&settings, "nonsense", None), "Unknown selection.");
    for name in ["reasoning", "tts-provider", "tts", "session"] {
        let choices = command_selector_buttons(&settings, &vec![], name).expect("a selection");
        for (_, data) in &choices.buttons {
            assert!(apply_channel_selection(&settings, data).is_some(), "{name}: {data}");
        }
    }
}

#[test]
fn a_handled_update_is_behind_the_offset() {
    let options = ServeOptions { once: true, poll_seconds: 5, timeout_seconds: 600 };
    let serve = Serve::new(options, Some(3));
    let (serve, action) = serve.serve_telegram(ServeEvent::Ready);
    assert!(matches!(action, ServeAction::Poll { offset: Some(3), .. }));
    let (serve, action) = serve.serve_telegram(ServeEvent::Updates { ids: vec![3, 9] });
    assert_eq!(action, ServeAction::Handle { at: 0 });
    assert_eq!(serve.offset, Some(4));
    let (serve, action) = serve.serve_telegram(ServeEvent::Ready);
    assert_eq!(action, ServeAction::Handle { at: 1 });
    assert_eq!(serve.offset, Some(10));
    let (serve, action) = serve.serve_telegram(ServeEvent::Ready);
    assert_eq!(action, ServeAction::SaveState);
    let (serve, action) = serve.serve_telegram(ServeEvent::Ready);
    assert_eq!(action, ServeAction::Deliver);
    let (serve, action) = serve.serve_telegram(ServeEvent::Ready);
    assert_eq!(action, ServeAction::Finish);
    let (_, action) = serve.serve_telegram(ServeEvent::Updates { ids: vec![11] });
    assert_eq!(action, ServeAction::Finish);
}

#[test]
fn serving_survives_a_failed_update() {
    let options = ServeOptions { once: false, poll_seconds: 5, timeout_seconds: 600 };
    let serve = Serve::new(options, Some(3));
    let (serve, action) = serve.serve_telegram(ServeEvent::Ready);
    assert_eq!(action, ServeAction::StartDelivery);
    let (serve, action) = serve.serve_telegram(ServeEvent::Ready);
    assert!(matches!(action, ServeAction::Poll { .. }));
    let (serve, action) = serve.serve_telegram(ServeEvent::Updates { ids: vec![3, 9] });
    assert_eq!(action, ServeAction::Handle { at: 0 });
    let (serve, action) = serve.serve_telegram(ServeEvent::Failed);
    assert_eq!(action, ServeAction::ReportUpdate);
    let (_, action) = serve.serve_telegram(ServeEvent::Ready);
    assert_eq!(action, ServeAction::Handle { at: 1 });
}

#[test]
fn a_turn_is_delivered_though_it_could_not_be_shown() {
    let mut stage = PromptStage::Auditing;
    let mut seen = vec![];
    let mut event = PromptEvent::Done;
    for _ in 0..8 {
        let (next, action) = run_channel_prompt(false, stage, event);
        stage = next;
        event = if action == PromptAction::Stream { PromptEvent::Failed } else { PromptEvent::Done };
        seen.push(action);
        if action == PromptAction::Finish {
            break;
        }
    }
    assert!(seen.contains(&PromptAction::Stream));
    assert!(seen.contains(&PromptAction::NoteAndDeliver));
    assert_eq!(seen.last(), Some(&PromptAction::Finish));
}

#[test]
fn edits_of_the_live_message_are_spaced() {
    let second: u64 = 1_000_000_000;
    let mut turn = StreamTurn::new(s("[[SILENT]]"), 10 * second, None);
    let mut now: u64 = 0;
    let mut last_edit: Option<u64> = None;
    let mut event = StreamEvent::Look { now, arrived: false };
    loop {
        let (next, action) = turn.stream_turn_to_telegram(event);
        turn = next;
        event = match action {
            StreamAction::SendTyping => StreamEvent::Typed { now },
            StreamAction::ReadProgress => StreamEvent::Progress { now, html: s("") },
            StreamAction::Post { .. } => {
                last_edit = Some(now);
                StreamEvent::Posted { now, id: Some(1) }
            }
            StreamAction::Edit { .. } => {
                if let Some(at) = last_edit {
                    assert!(now - at >= LIVE_EDIT_BASE);
                }
                last_edit = Some(now);
                StreamEvent::Edited {
                    now,
                    outcome: LiveEditOutcome::Throttled { retry_after: Some(3) },
                }
            }
            StreamAction::Nap { nanos } => {
                now += nanos;
                StreamEvent::Look { now, arrived: false }
            }
            StreamAction::Stop => break,
            other => panic!("unexpected action {other:?}"),
        };
    }
    // The turn ends in time.
    assert!(now <= 11 * second);
    assert_eq!(clock_text(68 * second), "1:08");
}

#[test]
fn only_old_streamed_replies_are_taken_over() {
    assert!(is_deferred(Some(10), Some(5), true));
    assert!(!is_deferred(Some(10), Some(5), false));
    assert!(!is_deferred(Some(10), Some(10), true));
    assert!(!is_deferred(None, Some(5), true));
    assert_eq!(reply_target(Some("42")), Some(42));
    assert_eq!(reply_target(Some("x")), None);
    assert!(truncate_for_telegram(&"x".repeat(4000)).len() < 4000);
}

#[test]
fn a_bridge_is_live_while_its_heart_beats() {
    assert!(telegram_bridge_live(Some(HEARTBEAT_NANOS - 1)));
    assert!(!telegram_bridge_live(Some(HEARTBEAT_NANOS + 1)));
    assert!(!telegram_bridge_live(None));
    assert_eq!(paired_chat_id(None, Some(s("42"))), Some(42));
}

#[test]
fn loops_are_started_and_stopped_from_a_chat() {
    assert_eq!(handle_loop_command(""), LoopStep::Usage);
    assert_eq!(handle_loop_command("abort run-1"), LoopStep::Abort { run_id: s("run-1") });
    assert_eq!(handle_loop_command("abort"), LoopStep::AbortUsage);
    assert_eq!(
        handle_loop_command("build a site"),
        LoopStep::Start { goal: s("build a site"), fast: false }
    );
}

#[test]
fn a_document_is_ingested_where_a_graph_is() {
    assert!(matches!(
        handle_telegram_document(Some("notes.pdf"), Some(10), true),
        DocumentStep::Ingest { .. }
    ));
    assert!(matches!(
        handle_telegram_document(Some("notes.pdf"), Some(10), false),
        DocumentStep::Refuse { .. }
    ));
    assert!(matches!(
        handle_telegram_document(Some("notes.pdf"), Some(i64::MAX), true),
        DocumentStep::Refuse { .. }
    ));
}

#[test]
fn voices_are_heard_and_spoken() {
    assert!(matches!(handle_telegram_voice("openai", Ok("hello")), VoiceStep::Heard { .. }));
    assert!(matches!(handle_telegram_voice("openai", Err("no key")), VoiceStep::Complain { .. }));
    let mut settings = ChannelSettings::default();
    assert_eq!(maybe_send_tts(&settings, "hello", "[[SILENT]]"), None);
    settings.tts_enabled = true;
    assert!(maybe_send_tts(&settings, "hello", "[[SILENT]]").is_some());
    assert_eq!(maybe_send_tts(&settings, "[[SILENT]]", "[[SILENT]]"), None);
}

#[test]
fn catalogs_are_read() {
    let raw = r#"{"data": [{"id": "m/one", "created": 5,
        "architecture": {"output_modalities": ["text"]},
        "supported_parameters": ["tools"]}]}"#;
    let models = parse_openrouter_catalog(raw).expect("a catalog");
    assert_eq!(models.len(), 1);
    assert_eq!(models[0].created, 5);
    assert!(models[0].text_output && models[0].supports_tools);
    assert!(parse_openrouter_catalog("{").is_none());
    assert_eq!(harness_label(Harness::ClaudeCode, "coder"), "coder-code");
}

#[test]
fn a_channel_status_is_asked_for() {
    assert_eq!(
        handle_channel(ChannelCommand {
            command: ChannelSubcommand::Status { platform: s("telegram"), agent_id: s("a") }
        }),
        ChannelTask::Status { agent_id: s("a") }
    );
}

// Runs

const CAPS: OrchestratorCaps = OrchestratorCaps {
    max_total_turns: 3,
    max_wall_seconds: 60,
    max_parallel: 2,
    max_concurrent_vms: 2,
    max_steps: 5,
    max_review_cycles: 1,
    max_ticks: 20,
};

fn registry() -> RoleRegistry {
    RoleRegistry { names: vec![s("coordinator"), s("researcher"), s("synthesizer")] }
}

const PLAN: &str = r#"{"steps":[{"id":"s1","role":"researcher","task":"find X","deps":[],"review":false}]}"#;

#[test]
fn a_goal_runs_to_its_answer() {
    let run = Run::new(s("goal"), registry(), CAPS, false, s("[[ORCH_DONE]]"), s("[[BLOCKED]]"));
    let (run, action) = run.run_inner(Event::Begin);
    assert_eq!(action, Action::AskCoordinator { role: Role::Coordinator, strict: false });
    let (run, action) = run.run_inner(Event::Reply { text: s(PLAN), aborted: false });
    assert_eq!(action, Action::PlanReady);
    let (run, action) = run.run_inner(Event::Clock { elapsed_ns: 0, spawn_ns: 0, aborted: false });
    assert_eq!(action, Action::PlaceStep { id: s("s1"), role: s("researcher") });
    let (run, action) = run.run_inner(Event::Placed { agent: s("w") });
    assert_eq!(action, Action::Work { id: s("s1"), agent: s("w") });
    assert_eq!(run.budget.turns, 1);
    let (run, action) = run.run_inner(Event::Reply { text: s("found X"), aborted: false });
    assert_eq!(action, Action::Collect { agent: s("w") });
    let (run, action) = run.run_inner(Event::Collected { files: 0 });
    assert!(matches!(action, Action::StepDone { done: 1, total: 1, .. }));
    let (run, action) = run.run_inner(Event::Next);
    assert_eq!(action, Action::Check);
    let (run, action) = run.run_inner(Event::Clock { elapsed_ns: 1, spawn_ns: 0, aborted: false });
    // Nothing was collected, so there are no files to deliver.
    assert_eq!(action, Action::PlaceSynthesizer { role: Role::Synthesizer });
    let (run, action) = run.run_inner(Event::Placed { agent: s("z") });
    assert!(matches!(action, Action::Synthesize { .. }));
    assert_eq!(run.budget.turns, 0);
    let (run, action) =
        run.run_inner(Event::Reply { text: s("the answer\n[[ORCH_DONE]]"), aborted: false });
    assert_eq!(action, Action::WriteReply { reply: s("the answer") });
    let (_, action) = run.run_inner(Event::Begin);
    assert_eq!(action, Action::Refused);
}

#[test]
fn a_run_stops_when_its_time_is_up() {
    let run = Run::new(s("goal"), registry(), CAPS, false, s("[[ORCH_DONE]]"), s("[[BLOCKED]]"));
    let (run, _) = run.run_inner(Event::Begin);
    let (run, _) = run.run_inner(Event::Reply { text: s(PLAN), aborted: false });
    let (_, action) = run.run_inner(Event::Clock {
        elapsed_ns: 61_000_000_000,
        spawn_ns: 0,
        aborted: false,
    });
    assert_eq!(
        action,
        Action::Fail { failure: Failure::Stopped { reason: StopReason::WallClock } }
    );
    assert!(!StopReason::WallClock.text().is_empty());
}

#[test]
fn a_step_without_an_agent_fails_with_the_reason() {
    let reviewed = PLAN.replace("\"review\":false", "\"review\":true");
    let begin = |plan: &str| {
        let run =
            Run::new(s("goal"), registry(), CAPS, false, s("[[ORCH_DONE]]"), s("[[BLOCKED]]"));
        let (run, _) = run.run_inner(Event::Begin);
        let (run, _) = run.run_inner(Event::Reply { text: s(plan), aborted: false });
        run.run_inner(Event::Clock { elapsed_ns: 0, spawn_ns: 0, aborted: false }).0
    };
    let (_, action) = begin(PLAN).run_inner(Event::Unplaced { error: s("nobody") });
    assert_eq!(
        action,
        Action::StepUnplaced { id: s("s1"), role: s("researcher"), error: s("nobody") }
    );
    assert_eq!(
        unplaced_text("s1", "researcher", "nobody"),
        "orchestrator: step s1 role 'researcher' unresolved: nobody"
    );
    // A step that is to be reviewed asks for its reviewing role, and goes on
    // without one that nobody plays.
    let (run, _) = begin(&reviewed).run_inner(Event::Placed { agent: s("w") });
    let (run, action) = run.run_inner(Event::Reply { text: s("found"), aborted: false });
    assert_eq!(action, Action::PlaceReviewer { role: Role::Reviewer });
    let (run, action) = run.run_inner(Event::Unplaced { error: s("nobody") });
    assert_eq!(action, Action::Collect { agent: s("w") });
    let (run, _) = run.run_inner(Event::Collected { files: 0 });
    let (run, _) = run.run_inner(Event::Next);
    let (run, _) = run.run_inner(Event::Clock { elapsed_ns: 1, spawn_ns: 0, aborted: false });
    let (_, action) = run.run_inner(Event::Unplaced { error: s("no synthesizer") });
    let failure = Failure::Unplaced { error: s("no synthesizer") };
    assert_eq!(failure_text(&failure, "r", "c", "", ""), "no synthesizer");
    assert_eq!(action, Action::Fail { failure });
}

#[test]
fn markers_are_cut_from_an_answer() {
    assert_eq!(clean_reply(" done ", "", ""), "done");
    assert_eq!(clean_reply("done [[ORCH_DONE]]", "[[ORCH_DONE]]", "[[BLOCKED]]"), "done");
}

#[test]
fn overrides_only_tighten() {
    let over = CapsOverride {
        max_total_turns: Some(2),
        max_wall_seconds: Some(600),
        max_parallel: None,
        max_concurrent_vms: None,
        max_steps: None,
    };
    let tight = CAPS.tighten_with(&over);
    assert_eq!(tight.max_total_turns, 2);
    assert_eq!(tight.max_wall_seconds, 60);
    let mut budget = RunBudget::new(&tight);
    assert!(budget.spend_turn() && budget.spend_turn());
    assert!(!budget.spend_turn());
}

#[test]
fn an_agent_takes_what_the_orchestrator_sends() {
    let metadata = send_metadata(Some("gpt-5"));
    assert_eq!(
        maturana::a2a::a2a_dispatch("worker", Some(&metadata)),
        maturana::a2a::CallStep::Enqueue { model: Some(s("gpt-5")) }
    );
    assert_eq!(task_answer(true, Some(s("r")), None), Ok(s("r")));
    assert!(task_answer(false, None, Some(s("broken"))).is_err());
    assert!(wire_token(None, "/home").is_err());
    assert_eq!(wire_token(Some(" t\n"), "/home"), Ok(s("t")));
}

#[test]
fn a_revision_is_asked_for_with_the_feedback() {
    assert_eq!(
        revise_request("T", "F", "R"),
        ["Revise your result for this", " task.\nTask:\nT\nReviewer feedback:\nF\nYour previous result:\nR"].concat()
    );
}

// Boards

fn card(id: &str, priority: i64, deps: &[&str]) -> Card {
    Card {
        id: s(id),
        title: s("title"),
        detail: s("detail"),
        assignee: None,
        deps: deps.iter().map(|d| d.to_string()).collect(),
        priority,
        tenant: None,
        scheduled_at: None,
        max_retries: 1,
        goal: false,
        goal_max_turns: 0,
        status: CardStatus::Todo,
        result: None,
        attempts: 0,
        block_kind: None,
        comments: vec![],
        runs: vec![],
        deliver: None,
    }
}

fn board(cards: Vec<Card>) -> Board {
    Board { name: s("main"), cards }
}

const NOW: Moment = Moment { seconds: 100, nanos: 0 };

#[test]
fn status_names_are_read_back() {
    for status in [
        CardStatus::Triage,
        CardStatus::Todo,
        CardStatus::Doing,
        CardStatus::Done,
        CardStatus::Blocked,
        CardStatus::Archived,
    ] {
        assert_eq!(CardStatus::parse(status.label()), Some(status));
    }
    assert_eq!(CardStatus::parse("nope"), None);
}

#[test]
fn the_most_pressing_runnable_card_comes_first() {
    let mut late = card("late", 9, &[]);
    late.scheduled_at = Some(Moment { seconds: 200, nanos: 0 });
    let b = board(vec![card("low", 1, &[]), card("high", 5, &[]), card("held", 9, &["low"]), late]);
    let ready: Vec<&str> = b.ready(NOW).iter().map(|i| b.cards[*i].id.as_str()).collect();
    assert_eq!(ready, vec!["high", "low"]);
}

#[test]
fn reclaiming_leaves_no_card_at_work() {
    let mut b = board(vec![card("one", 1, &[])]);
    b.cards[0].status = CardStatus::Doing;
    assert_eq!(b.reclaim_in_flight(), 1);
    assert_eq!(b.count(CardStatus::Doing), 0);
    assert_eq!(b.cards[0].status, CardStatus::Todo);
}

fn new_card(title: &str) -> NewCard {
    NewCard {
        title: s(title),
        detail: None,
        assignee: None,
        priority: None,
        tenant: None,
        max_retries: None,
        goal: false,
        goal_max_turns: None,
        triage: false,
    }
}

#[test]
fn a_new_card_has_a_new_id() {
    let mut b = board(vec![card("c1", 1, &[]), card("c2", 1, &[])]);
    let id = add_card(&mut b, new_card("third"), vec![], None);
    assert_eq!(b.cards.iter().filter(|c| c.id == id).count(), 1);
    assert_eq!(b.cards.len(), 3);
}

#[test]
fn a_card_cannot_need_what_is_not_there() {
    let outcome = add_to_board(board(vec![]), new_card("x"), vec![s("ghost")], None);
    assert!(matches!(outcome, BoardOutcome::Fail { .. }));
    assert_eq!(clean_needs(&vec![s(" a "), s("")]), vec![s("a")]);
}

fn add_at(when: &str) -> BoardOutcome {
    handle_board(
        BoardCommand {
            command: BoardSubcommand::Add {
                title: s("x"),
                detail: None,
                assignee: None,
                needs: vec![],
                priority: None,
                tenant: None,
                scheduled_at: Some(s(when)),
                max_retries: None,
                goal: false,
                goal_max_turns: None,
                triage: false,
                board: s("main"),
            },
        },
        board(vec![]),
    )
}

#[test]
fn a_card_is_scheduled_by_a_moment_in_time() {
    match add_at("1970-01-01T01:00:01+01:00") {
        BoardOutcome::Save { board, .. } => assert_eq!(
            board.cards[0].scheduled_at,
            Some(Moment { seconds: 1, nanos: 0 })
        ),
        other => panic!("expected a saved board, got {other:?}"),
    }
    assert!(matches!(add_at("tomorrow"), BoardOutcome::Fail { .. }));
}

#[test]
fn a_failed_card_is_tried_again_and_then_blocked() {
    let mut run = BoardRun::new(board(vec![card("one", 1, &[])]), CAPS, None);
    for attempt in 0..2 {
        let (next, action) = run.run_board_inner(BoardEvent::Clock { elapsed_ns: 0, now: NOW });
        assert_eq!(action, BoardAction::Place { id: s("one"), assignee: None });
        let (next, action) =
            next.run_board_inner(BoardEvent::Placed { agent: s("w"), at: NOW });
        match action {
            BoardAction::Dispatch { batch } => assert_eq!(batch.len(), 1),
            other => panic!("expected a batch, got {other:?}"),
        }
        let (next, action) = next.run_board_inner(BoardEvent::CardFailed { error: s("boom") });
        if attempt == 0 {
            assert!(matches!(action, BoardAction::CardRetry { .. }));
            assert_eq!(next.board.cards[0].result, Some(s("attempt 1 failed: boom")));
            assert_eq!(next.board.cards[0].block_kind, Some(s("transient")));
        } else {
            assert!(matches!(action, BoardAction::CardBlocked { .. }));
        }
        run = next;
    }
    let failing = &run.board.cards[0];
    assert_eq!(failing.status, CardStatus::Blocked);
    assert_eq!(failing.block_kind, Some(s("transient")));
    assert_eq!(failing.result, Some(s("failed: boom")));
    assert_eq!(failing.runs.len(), 2);
    for (entry, (attempt, outcome)) in failing.runs.iter().zip([(1, "crashed"), (2, "gave_up")]) {
        assert_eq!(entry.attempt, attempt);
        assert_eq!(entry.outcome, outcome);
        assert_eq!(entry.agent, Some(s("w")));
        assert_eq!(entry.summary, "boom");
        assert_eq!(entry.started_at, NOW);
    }
    let (run, action) = run.run_board_inner(BoardEvent::Clock { elapsed_ns: 0, now: NOW });
    assert!(matches!(
        action,
        BoardAction::End { why: BoardEnd::Stuck } | BoardAction::End { why: BoardEnd::Drained }
            | BoardAction::End { why: BoardEnd::Complete }
    ));
    let (_, action) = run.run_board_inner(BoardEvent::Clock { elapsed_ns: 0, now: NOW });
    assert!(matches!(action, BoardAction::Refused));
}

#[test]
fn a_goal_card_is_judged_by_the_judging_role() {
    let mut goal = card("one", 1, &[]);
    goal.goal = true;
    let run = BoardRun::new(board(vec![goal]), CAPS, Some(s("critic")));
    let (run, _) = run.run_board_inner(BoardEvent::Clock { elapsed_ns: 0, now: NOW });
    let (run, _) = run.run_board_inner(BoardEvent::Placed { agent: s("w"), at: NOW });
    let (run, action) = run.run_board_inner(BoardEvent::CardReply { text: s("done"), files: 0 });
    match action {
        BoardAction::Judge { judge, .. } => assert_eq!(judge, "critic"),
        other => panic!("expected a judgement, got {other:?}"),
    }
    let (_, action) =
        run.run_board_inner(BoardEvent::Judged { pass: true, feedback: s("") });
    assert!(matches!(action, BoardAction::CardDone { .. }));
}

#[test]
fn a_reply_completes_a_plain_card() {
    let run = BoardRun::new(board(vec![card("one", 1, &[])]), CAPS, None);
    let (run, _) = run.run_board_inner(BoardEvent::Clock { elapsed_ns: 0, now: NOW });
    let (run, _) = run.run_board_inner(BoardEvent::Placed { agent: s("w"), at: NOW });
    let (run, action) = run.run_board_inner(BoardEvent::CardReply { text: s("done"), files: 2 });
    assert!(matches!(action, BoardAction::CardDone { .. }));
    assert_eq!(run.board.cards[0].status, CardStatus::Done);
    assert!(run.board.is_complete());
    assert_eq!(Json::Null.get("x"), None);
}
