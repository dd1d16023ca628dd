use maturana::channels::conversation::{
    try_collect_dispatch, CollectAction, CollectEvent, CollectStage,
};
use maturana::channels::slack::{
    take_envelope, SlackAction, SlackEvent, SlackOptions, SlackPrompt, SlackStage,
};
use maturana::channels::upload::{Upload, UploadAction, UploadEvent, UploadStage};
use maturana::http::{ReadEvent, ReadStep, RequestReader, MAX_HEAD_BYTES};
use maturana::orchestrate::lifecycle::{
    run_board, run_loop, BoardLife, BoardLifeAction, BoardLifeEvent, LoopAction, LoopEvent, LoopStage,
};

fn s(value: &str) -> String {
    value.to_string()
}

// Runs

fn started_loop() -> LoopStage<String> {
    let (stage, action) = run_loop();
    assert_eq!(action, LoopAction::Place);
    let (stage, action) = stage.advance("/h", LoopEvent::Done);
    assert_eq!(action, LoopAction::MakeDir);
    let (stage, action) = stage.advance("/h", LoopEvent::Done);
    assert_eq!(action, LoopAction::Announce);
    let (stage, action) = stage.advance("/h", LoopEvent::Done);
    assert_eq!(action, LoopAction::ReadToken);
    let (stage, action) = stage.advance("/h", LoopEvent::Token { raw: Some(s(" key\n")) });
    assert_eq!(action, LoopAction::Serve { token: s("key") });
    let (stage, action) = stage.advance("/h", LoopEvent::Done);
    assert_eq!(action, LoopAction::Work);
    stage
}

#[test]
fn an_envelope_is_read_from_its_text() {
    let (id, prompt) = take_envelope(
        r#"{"type": "events_api", "envelope_id": "e1", "payload": {"event":
            {"type": "message", "channel": "C1", "text": " hi ", "ts": "1.5"}}}"#,
    )
    .unwrap();
    assert_eq!(id.as_deref(), Some("e1"));
    let prompt = prompt.unwrap();
    assert_eq!((prompt.channel.as_str(), prompt.text.as_str()), ("C1", "hi"));
    assert_eq!(prompt.thread.as_deref(), Some("1.5"));
    let (id, prompt) = take_envelope(r#"{"type": "hello"}"#).unwrap();
    assert!(id.is_none() && prompt.is_none());
    assert!(take_envelope("not json").is_none());
}

#[test]
fn workers_are_taken_down_after_a_run() {
    let (stage, action) = started_loop().advance("/h", LoopEvent::Done);
    assert_eq!(action, LoopAction::TearDown);
    let (stage, action) = stage.advance("/h", LoopEvent::Done);
    assert_eq!((stage, action), (LoopStage::Ended, LoopAction::Finish));
}

#[test]
fn workers_are_taken_down_after_a_failed_run() {
    let (stage, action) = started_loop().advance("/h", LoopEvent::Failed { error: s("stuck") });
    assert_eq!(action, LoopAction::TearDown);
    let (stage, action) = stage.advance("/h", LoopEvent::Done);
    assert_eq!(action, LoopAction::Report { error: s("stuck") });
    let (stage, action) = stage.advance("/h", LoopEvent::Done);
    assert_eq!(action, LoopAction::Fail { error: s("stuck") });
    assert_eq!(stage.advance("/h", LoopEvent::Done), (LoopStage::Ended, LoopAction::Ignore));
}

#[test]
fn a_run_needs_a_token() {
    let wanted = s("the A2A wire needs the sessiond token at /h/sessiond/token");
    for raw in [None, Some(s("  \n"))] {
        let (stage, action) = LoopStage::ReadingToken.advance("/h", LoopEvent::Token { raw });
        assert_eq!((stage, action), (LoopStage::Ended, LoopAction::Fail { error: wanted.clone() }));
    }
    let (_, action) = LoopStage::Placing.advance("/h", LoopEvent::Failed { error: s("no agents") });
    assert_eq!(action, LoopAction::Fail { error: s("no agents") });
}

#[test]
fn a_board_is_stored_after_its_work() {
    let (stage, action) = run_board();
    assert_eq!(action, BoardLifeAction::Load);
    let (stage, action) = stage.advance("/h", BoardLifeEvent::Loaded { reclaimed: 2 });
    assert_eq!(action, BoardLifeAction::SaveReclaimed { reclaimed: 2 });
    let (stage, action) = stage.advance("/h", BoardLifeEvent::Done);
    assert_eq!(action, BoardLifeAction::Place);
    let (stage, action) = stage.advance("/h", BoardLifeEvent::Done);
    assert_eq!(action, BoardLifeAction::ReadToken);
    let (stage, action) = stage.advance("/h", BoardLifeEvent::Token { raw: Some(s("key")) });
    assert_eq!(action, BoardLifeAction::Serve { token: s("key") });
    let (stage, action) = stage.advance("/h", BoardLifeEvent::Done);
    assert_eq!(action, BoardLifeAction::MakeDir);
    let (stage, action) = stage.advance("/h", BoardLifeEvent::Done);
    assert_eq!(action, BoardLifeAction::Work);
    let (stage, action) = stage.advance("/h", BoardLifeEvent::Failed { error: s("gone") });
    assert_eq!(action, BoardLifeAction::TearDown);
    let (stage, action) = stage.advance("/h", BoardLifeEvent::Done);
    assert_eq!(action, BoardLifeAction::Save);
    let (stage, action) = stage.advance("/h", BoardLifeEvent::Failed { error: s("disk") });
    assert_eq!(action, BoardLifeAction::CountFiles);
    let (stage, action) = stage.advance("/h", BoardLifeEvent::Counted { files: 1 });
    assert_eq!(action, BoardLifeAction::CopyFiles);
    let (stage, action) = stage.advance("/h", BoardLifeEvent::Done);
    assert_eq!(action, BoardLifeAction::Close);
    let (_, action) = stage.advance("/h", BoardLifeEvent::Done);
    assert_eq!(action, BoardLifeAction::Fail { error: s("gone") });
}

#[test]
fn a_board_without_leftovers_or_files_runs_through() {
    let (stage, action) = run_board().0.advance("/h", BoardLifeEvent::Loaded { reclaimed: 0 });
    assert_eq!((stage, action), (BoardLife::Placing, BoardLifeAction::Place));
    let counting = BoardLife::Counting { error: None };
    let (stage, action) = counting.advance("/h", BoardLifeEvent::Counted { files: 0 });
    assert_eq!(action, BoardLifeAction::Close);
    assert_eq!(stage.advance("/h", BoardLifeEvent::Done).1, BoardLifeAction::Finish);
    let copying = BoardLife::Copying { error: Some(s("first")) };
    let (_, action) = copying.advance("/h", BoardLifeEvent::Failed { error: s("copy") });
    assert_eq!(action, BoardLifeAction::Fail { error: s("copy") });
}

// Requests

fn feed(reader: RequestReader, bytes: &[u8]) -> (RequestReader, ReadStep) {
    reader.read_http_request(ReadEvent::Bytes { chunk: bytes.to_vec() })
}

#[test]
fn a_request_comes_in_any_pieces() {
    let whole = b"POST /graph/stats HTTP/1.1\r\ncontent-length: 4\r\n\r\nabcdEXTRA";
    let (_, all) = feed(RequestReader::new(), whole);
    let ReadStep::Ready { head, body } = all else {
        panic!("not ready");
    };
    assert_eq!((head.method.as_str(), head.path.as_str()), ("POST", "/graph/stats"));
    assert_eq!(body, b"abcd");
    for cut in 1..50 {
        let (reader, step) = feed(RequestReader::new(), &whole[..cut]);
        assert_eq!(step, ReadStep::More);
        let (_, step) = feed(reader, &whole[cut..]);
        let ReadStep::Ready { head: h, body: b } = step else {
            panic!("not ready");
        };
        assert_eq!((h, b), (feed_head(whole), b"abcd".to_vec()));
    }
}

fn feed_head(whole: &[u8]) -> maturana::http::RequestHead {
    match feed(RequestReader::new(), whole).1 {
        ReadStep::Ready { head, .. } => head,
        other => panic!("{other:?}"),
    }
}

#[test]
fn a_request_that_breaks_off_is_refused_or_has_no_body() {
    let (_, step) = RequestReader::new().read_http_request(ReadEvent::Closed);
    assert_eq!(step, ReadStep::Failed { error: "connection closed while reading request" });
    let (reader, step) =
        feed(RequestReader::new(), b"POST /x HTTP/1.1\r\ncontent-length: 9\r\n\r\nabc");
    assert_eq!(step, ReadStep::More);
    match reader.read_http_request(ReadEvent::Closed).1 {
        ReadStep::Ready { head, body } => {
            assert_eq!(head.path, "/x");
            assert!(body.is_empty());
        }
        other => panic!("{other:?}"),
    }
}

#[test]
fn a_request_that_is_too_large_is_refused() {
    let (_, step) = feed(RequestReader::new(), &vec![b'a'; MAX_HEAD_BYTES + 1]);
    assert_eq!(step, ReadStep::Failed { error: "request headers too large" });
    let (_, step) =
        feed(RequestReader::new(), b"POST /x HTTP/1.1\r\ncontent-length: 16777217\r\n\r\n");
    assert_eq!(step, ReadStep::Failed { error: "request body too large" });
}

// Files with a reply

fn names() -> Vec<Option<String>> {
    vec![Some(s("a.txt")), None, Some(s("c.txt"))]
}

#[test]
fn the_text_goes_out_though_no_file_does() {
    let (mut upload, action) = Upload::send_files(s("done"), names(), None);
    assert_eq!(action, UploadAction::Clear);
    let (next, mut action) = upload.advance(UploadEvent::Done);
    upload = next;
    for at in 0..3 {
        assert_eq!(action, UploadAction::Upload { at, captioned: at == 0 });
        (upload, action) = upload.advance(UploadEvent::Failed { error: s("no") });
    }
    assert_eq!(action, UploadAction::Send { text: s("done\n(couldn't attach: a.txt, c.txt)") });
    let (upload, action) = upload.advance(UploadEvent::Sent { id: Some(7) });
    assert_eq!(action, UploadAction::Finish { id: Some(7) });
    assert_eq!(upload.stage, UploadStage::Ended);
}

#[test]
fn a_live_message_takes_the_text_of_a_reply_with_files() {
    let (upload, action) = Upload::send_files(s("done"), vec![Some(s("a.txt"))], Some(5));
    assert_eq!(action, UploadAction::Finalize { live_id: 5 });
    let (upload, action) = upload.advance(UploadEvent::Sent { id: Some(5) });
    assert_eq!(action, UploadAction::Clear);
    let (upload, action) = upload.advance(UploadEvent::Done);
    assert_eq!(action, UploadAction::Upload { at: 0, captioned: false });
    let (_, action) = upload.advance(UploadEvent::Failed { error: s("no") });
    assert_eq!(action, UploadAction::Finish { id: None });
    let (upload, _) = Upload::send_files(s("done"), names(), Some(5));
    let (_, action) = upload.advance(UploadEvent::Failed { error: s("gone") });
    assert_eq!(action, UploadAction::Fail { error: s("gone") });
}

#[test]
fn the_last_upload_names_the_message() {
    let (upload, _) = Upload::send_files(s("done"), names(), None);
    let (upload, _) = upload.advance(UploadEvent::Done);
    let (upload, action) = upload.advance(UploadEvent::Sent { id: Some(1) });
    assert_eq!(action, UploadAction::Upload { at: 1, captioned: false });
    let (upload, _) = upload.advance(UploadEvent::Sent { id: Some(2) });
    let (_, action) = upload.advance(UploadEvent::Failed { error: s("no") });
    assert_eq!(action, UploadAction::Finish { id: Some(2) });
}

// Slack

fn prompt() -> SlackPrompt<String> {
    SlackPrompt { channel: s("C1"), text: s("hi"), thread: Some(s("1.2")) }
}

#[test]
fn an_envelope_is_acknowledged_first() {
    let options = SlackOptions { once: false, run_here: true };
    let (stage, action) = options.serve_slack(SlackStage::Connecting, SlackEvent::Done);
    assert_eq!(action, SlackAction::Read);
    let event = SlackEvent::Envelope { id: Some(s("e1")), prompt: Some(prompt()) };
    let (stage, action) = options.serve_slack(stage, event);
    assert_eq!(action, SlackAction::Ack { id: s("e1") });
    let (stage, action) = options.serve_slack(stage, SlackEvent::Failed);
    assert_eq!(action, SlackAction::Enqueue { prompt: prompt() });
    let (stage, action) = options.serve_slack(stage, SlackEvent::Done);
    assert_eq!(action, SlackAction::RunOnce);
    let (stage, action) = options.serve_slack(stage, SlackEvent::Done);
    assert_eq!(action, SlackAction::Deliver { prompt: prompt() });
    let (stage, action) = options.serve_slack(stage, SlackEvent::Done);
    assert_eq!((stage, action), (SlackStage::Reading, SlackAction::Read));
}

#[test]
fn a_lost_slack_session_is_opened_again() {
    let options = SlackOptions { once: false, run_here: false };
    let (stage, action) = options.serve_slack(SlackStage::Reading, SlackEvent::Failed);
    assert_eq!(action, SlackAction::ReportAndRest { seconds: 5 });
    let (_, action) = options.serve_slack(stage, SlackEvent::Done);
    assert_eq!(action, SlackAction::Connect);
    let once = SlackOptions { once: true, run_here: false };
    let (stage, action) = once.serve_slack(SlackStage::Connecting, SlackEvent::Failed);
    assert_eq!((stage, action), (SlackStage::Ended, SlackAction::ReportAndFinish));
    let bare = SlackEvent::Envelope { id: None, prompt: None };
    assert_eq!(options.serve_slack(SlackStage::Reading, bare).1, SlackAction::Read);
}

// Answers of dispatched turns

#[test]
fn an_answer_is_claimed_before_it_is_taken() {
    let (stage, action) = try_collect_dispatch();
    assert_eq!(action, CollectAction::List);
    let (stage, action) = stage.advance(CollectEvent::Listed { at: Some(3) });
    assert_eq!(action, CollectAction::Claim { at: 3 });
    let (stage, action) = stage.advance(CollectEvent::Claimed { won: true });
    assert_eq!(action, CollectAction::Read { at: 3 });
    let (stage, action) = stage.advance(CollectEvent::Read { text: Err(s("bad")) });
    assert_eq!(action, CollectAction::Mark);
    let (_, action) = stage.advance(CollectEvent::Done);
    assert_eq!(action, CollectAction::Collected { text: s("[unparseable worker reply: bad]") });
    let (_, action) = CollectStage::Claiming { at: 3 }.advance(CollectEvent::Claimed { won: false });
    assert_eq!(action, CollectAction::Nothing);
    let (_, action) = try_collect_dispatch().0.advance(CollectEvent::Listed { at: None });
    assert_eq!(action, CollectAction::Nothing);
    let (_, action) = CollectStage::Marking { text: s("x") }.advance(CollectEvent::Failed);
    assert_eq!(action, CollectAction::Fail);
}
