//! The calls to Telegram: what is sent, and what an answer means.

use crate::channels::buttons;
use crate::channels::buttons::{rows_json, Style};
use crate::channels::command_catalog;
use crate::channels::command_catalog::{command_groups, CommandGroup};
use crate::channels::settings;
use crate::json::{field, record, Json, Tree};
use crate::json;
use crate::text as t;
use vstd::prelude::*;
use vstd::string::*;

verus! {

/// A call to the Bot API: the method, and the document that goes with it.
pub struct TelegramCall {
    pub method: &'static str,
    pub body: Json,
}

pub open spec fn num(n: i64) -> Tree {
    Tree::Int(n as int)
}

fn text_value(s: &str) -> (r: Json)
    ensures
        r@ == Tree::Text(s@),
{
    Json::Text(s.to_owned())
}

fn number(n: i64) -> (r: Json)
    ensures
        r@ == num(n),
{
    Json::Int(n as i128)
}

fn reply_parameters(id: i64) -> (r: Json)
    ensures
        r@ == Tree::Record(seq![("message_id"@, num(id))]),
{
    let mut f: Vec<(String, Json)> = Vec::new();
    field(&mut f, "message_id", number(id));
    assert(json::entries(f@) =~= seq![("message_id"@, num(id))]);
    record(f)
}

/// The document of a message: with `mode` as its markup, and as an answer to
/// `reply_to`, where there are any.
pub open spec fn message_body(
    chat_id: Seq<char>,
    message: Seq<char>,
    reply_to: Option<i64>,
    mode: Option<Seq<char>>,
) -> Tree {
    let base = seq![("chat_id"@, Tree::Text(chat_id)), ("text"@, Tree::Text(message))];
    let marked = match mode {
        Some(m) => base.push(("parse_mode"@, Tree::Text(m))),
        None => base,
    };
    Tree::Record(
        match reply_to {
            Some(id) => marked.push(("reply_parameters"@, Tree::Record(seq![("message_id"@, num(id))]))),
            None => marked,
        },
    )
}

fn send_telegram_with(chat_id: &str, message: &str, reply_to: Option<i64>, mode: Option<&str>) -> (r: TelegramCall)
    ensures
        r.method@ == "sendMessage"@,
        r.body@ == message_body(chat_id@, message@, reply_to, t::opt_str(mode)),
{
    let mut f: Vec<(String, Json)> = Vec::new();
    field(&mut f, "chat_id", text_value(chat_id));
    field(&mut f, "text", text_value(message));
    assert(json::entries(f@) =~= seq![("chat_id"@, Tree::Text(chat_id@)), ("text"@, Tree::Text(message@))]);
    match mode {
        Some(m) => field(&mut f, "parse_mode", text_value(m)),
        None => {},
    }
    match reply_to {
        Some(id) => field(&mut f, "reply_parameters", reply_parameters(id)),
        None => {},
    }
    TelegramCall { method: "sendMessage", body: record(f) }
}

/// A plain message.
pub fn send_telegram(chat_id: &str, message: &str, reply_to: Option<i64>) -> (r: TelegramCall)
    ensures
        r.method@ == "sendMessage"@,
        r.body@ == message_body(chat_id@, message@, reply_to, None),
{
    send_telegram_with(chat_id, message, reply_to, None)
}

/// A message with markup.
pub fn send_telegram_html(chat_id: &str, html: &str, reply_to: Option<i64>) -> (r: TelegramCall)
    ensures
        r.method@ == "sendMessage"@,
        r.body@ == message_body(chat_id@, html@, reply_to, Some("HTML"@)),
{
    send_telegram_with(chat_id, html, reply_to, Some("HTML"))
}

/// The document of an edit.
pub open spec fn edit_body(chat_id: i64, message_id: i64, text: Seq<char>, mode: Option<Seq<char>>) -> Tree {
    let base = seq![("chat_id"@, num(chat_id)), ("message_id"@, num(message_id)), ("text"@, Tree::Text(text))];
    Tree::Record(
        match mode {
            Some(m) => base.push(("parse_mode"@, Tree::Text(m))),
            None => base,
        },
    )
}

fn edit_telegram_message_with(chat_id: i64, message_id: i64, text: &str, mode: Option<&str>) -> (r: TelegramCall)
    ensures
        r.method@ == "editMessageText"@,
        r.body@ == edit_body(chat_id, message_id, text@, t::opt_str(mode)),
{
    let mut f: Vec<(String, Json)> = Vec::new();
    field(&mut f, "chat_id", number(chat_id));
    field(&mut f, "message_id", number(message_id));
    field(&mut f, "text", text_value(text));
    assert(json::entries(f@) =~= seq![
        ("chat_id"@, num(chat_id)),
        ("message_id"@, num(message_id)),
        ("text"@, Tree::Text(text@)),
    ]);
    match mode {
        Some(m) => field(&mut f, "parse_mode", text_value(m)),
        None => {},
    }
    TelegramCall { method: "editMessageText", body: record(f) }
}

/// Puts a text in place of a message.
pub fn edit_telegram_message(chat_id: i64, message_id: i64, text: &str) -> (r: TelegramCall)
    ensures
        r.method@ == "editMessageText"@,
        r.body@ == edit_body(chat_id, message_id, text@, None),
{
    edit_telegram_message_with(chat_id, message_id, text, None)
}

/// Puts a text with markup in place of the live message.
pub fn edit_telegram_live_html(chat_id: i64, message_id: i64, html: &str) -> (r: TelegramCall)
    ensures
        r.method@ == "editMessageText"@,
        r.body@ == edit_body(chat_id, message_id, html@, Some("HTML"@)),
{
    edit_telegram_message_with(chat_id, message_id, html, Some("HTML"))
}

pub fn delete_telegram_message(chat_id: i64, message_id: i64) -> (r: TelegramCall)
    ensures
        r.method@ == "deleteMessage"@,
        r.body@ == Tree::Record(seq![("chat_id"@, num(chat_id)), ("message_id"@, num(message_id))]),
{
    let mut f: Vec<(String, Json)> = Vec::new();
    field(&mut f, "chat_id", number(chat_id));
    field(&mut f, "message_id", number(message_id));
    assert(json::entries(f@) =~= seq![("chat_id"@, num(chat_id)), ("message_id"@, num(message_id))]);
    TelegramCall { method: "deleteMessage", body: record(f) }
}

pub fn send_telegram_chat_action(chat_id: &str, action: &str) -> (r: TelegramCall)
    ensures
        r.method@ == "sendChatAction"@,
        r.body@ == Tree::Record(seq![("chat_id"@, Tree::Text(chat_id@)), ("action"@, Tree::Text(action@))]),
{
    let mut f: Vec<(String, Json)> = Vec::new();
    field(&mut f, "chat_id", text_value(chat_id));
    field(&mut f, "action", text_value(action));
    assert(json::entries(f@) =~= seq![("chat_id"@, Tree::Text(chat_id@)), ("action"@, Tree::Text(action@))]);
    TelegramCall { method: "sendChatAction", body: record(f) }
}

pub open spec fn callback_body(id: Seq<char>, text: Option<Seq<char>>) -> Tree {
    let base = seq![("callback_query_id"@, Tree::Text(id))];
    Tree::Record(
        match text {
            Some(s) => if s.len() > 0 {
                base.push(("text"@, Tree::Text(s)))
            } else {
                base
            },
            None => base,
        },
    )
}

/// Answers a tap, with a short note where there is one.
pub fn answer_callback_query(id: &str, text: Option<&str>) -> (r: TelegramCall)
    ensures
        r.method@ == "answerCallbackQuery"@,
        r.body@ == callback_body(id@, t::opt_str(text)),
{
    let mut f: Vec<(String, Json)> = Vec::new();
    field(&mut f, "callback_query_id", text_value(id));
    assert(json::entries(f@) =~= seq![("callback_query_id"@, Tree::Text(id@))]);
    match text {
        Some(s) => if !s.is_empty() {
            field(&mut f, "text", text_value(s));
        },
        None => {},
    }
    TelegramCall { method: "answerCallbackQuery", body: record(f) }
}

// ---------------------------------------------------------------------------
// The keyboard and the menu
// ---------------------------------------------------------------------------

pub open spec fn at_least_one(columns: int) -> int {
    if columns < 1 {
        1
    } else {
        columns
    }
}

pub open spec fn keyboard_body(
    chat_id: Seq<char>,
    text: Seq<char>,
    choices: Seq<(Seq<char>, Seq<char>)>,
    columns: int,
    reply_to: Option<i64>,
) -> Tree {
    let base = seq![
        ("chat_id"@, Tree::Text(chat_id)),
        ("text"@, Tree::Text(text)),
        (
            "reply_markup"@,
            Tree::Record(seq![("inline_keyboard"@, Tree::List(buttons::rows(Style::Telegram, choices, at_least_one(columns))))]),
        ),
    ];
    Tree::Record(
        match reply_to {
            Some(id) => base.push(("reply_parameters"@, Tree::Record(seq![("message_id"@, num(id))]))),
            None => base,
        },
    )
}

/// A message with buttons below it.
pub fn send_telegram_keyboard(
    chat_id: &str,
    text: &str,
    choices: &Vec<(String, String)>,
    columns: usize,
    reply_to: Option<i64>,
) -> (r: TelegramCall)
    ensures
        r.method@ == "sendMessage"@,
        r.body@ == keyboard_body(chat_id@, text@, settings::button_views(choices@), columns as int, reply_to),
{
    let width: usize = if columns < 1 {
        1
    } else {
        columns
    };
    let mut k: Vec<(String, Json)> = Vec::new();
    field(&mut k, "inline_keyboard", rows_json(Style::Telegram, choices, width));
    let ghost key_rows = Tree::List(
        buttons::rows(Style::Telegram, settings::button_views(choices@), width as int),
    );
    assert(json::entries(k@) =~= seq![("inline_keyboard"@, key_rows)]);
    let mut f: Vec<(String, Json)> = Vec::new();
    field(&mut f, "chat_id", text_value(chat_id));
    field(&mut f, "text", text_value(text));
    field(&mut f, "reply_markup", record(k));
    assert(json::entries(f@) =~= seq![
        ("chat_id"@, Tree::Text(chat_id@)),
        ("text"@, Tree::Text(text@)),
        ("reply_markup"@, Tree::Record(seq![("inline_keyboard"@, key_rows)])),
    ]);
    match reply_to {
        Some(id) => field(&mut f, "reply_parameters", reply_parameters(id)),
        None => {},
    }
    TelegramCall { method: "sendMessage", body: record(f) }
}

/// How a command stands in the menu: Telegram takes no slash and no hyphen.
pub open spec fn menu_entry(c: (Seq<char>, Seq<char>)) -> Tree {
    Tree::Record(
        seq![
            (
                "command"@,
                Tree::Text(
                    t::replaced(t::trim_start_by(c.0, (t::Trim::One { c: '/' }).pred()), "-"@, "_"@),
                ),
            ),
            ("description"@, Tree::Text(t::head(c.1, 256))),
        ],
    )
}

pub open spec fn menu_of(commands: Seq<(Seq<char>, Seq<char>)>) -> Seq<Tree> {
    commands.map_values(|c: (Seq<char>, Seq<char>)| menu_entry(c))
}

/// The menu entries of the first `n` groups.
pub open spec fn menu(groups: Seq<command_catalog::GroupView>, n: int) -> Seq<Tree>
    decreases n,
{
    if n <= 0 || n > groups.len() {
        Seq::empty()
    } else {
        menu(groups, n - 1) + menu_of(groups[n - 1].commands)
    }
}

fn menu_entry_json(name: &str, description: &str) -> (r: Json)
    ensures
        r@ == menu_entry((name@, description@)),
{
    proof {
        reveal_strlit("-");
    }
    let bare = t::trim_start_matches(name, &t::Trim::One { c: '/' });
    let command = t::replace(bare.as_str(), "-", "_");
    let text = t::take_chars(description, 256);
    let mut f: Vec<(String, Json)> = Vec::new();
    field(&mut f, "command", text_value(command.as_str()));
    field(&mut f, "description", text_value(text.as_str()));
    assert(json::entries(f@) =~= seq![
        ("command"@, Tree::Text(command@)),
        ("description"@, Tree::Text(text@)),
    ]);
    record(f)
}

fn add_menu_entries(v: &mut Vec<Json>, g: &CommandGroup)
    ensures
        json::trees(final(v)@) == json::trees(old(v)@) + menu_of(g@.commands),
{
    let ghost before = json::trees(v@);
    let ghost all = menu_of(g@.commands);
    let mut i: usize = 0;
    assert(before + all.take(0) =~= before);
    while i < g.commands.len()
        invariant
            i <= g.commands.len(),
            all == menu_of(g@.commands),
            json::trees(v@) == before + all.take(i as int),
        decreases g.commands.len() - i,
    {
        let ghost now = json::trees(v@);
        v.push(menu_entry_json(g.commands[i].0, g.commands[i].1));
        assert(json::trees(v@) =~= now.push(all[i as int]));
        assert(all.take(i as int + 1) =~= all.take(i as int).push(all[i as int]));
        i += 1;
    }
    assert(all.take(all.len() as int) =~= all);
}

/// Registers the menu of slash commands.
pub fn set_telegram_commands() -> (r: TelegramCall)
    ensures
        r.method@ == "setMyCommands"@,
        r.body@ == Tree::Record(
            seq![
                (
                    "commands"@,
                    Tree::List(menu(command_catalog::catalog(), command_catalog::catalog().len() as int)),
                ),
            ],
        ),
{
    let groups = command_groups();
    let ghost all = command_catalog::catalog();
    assert(all.len() == groups@.len());
    let mut v: Vec<Json> = Vec::new();
    let mut i: usize = 0;
    assert(json::trees(v@) =~= menu(all, 0));
    while i < groups.len()
        invariant
            i <= groups.len(),
            all.len() == groups@.len(),
            all == command_catalog::group_views(groups@),
            json::trees(v@) == menu(all, i as int),
        decreases groups.len() - i,
    {
        assert(all[i as int] == groups@[i as int]@);
        add_menu_entries(&mut v, &groups[i]);
        i += 1;
    }
    let mut f: Vec<(String, Json)> = Vec::new();
    field(&mut f, "commands", json::list(v));
    assert(json::entries(f@) =~= seq![("commands"@, Tree::List(menu(all, all.len() as int)))]);
    TelegramCall { method: "setMyCommands", body: record(f) }
}

// ---------------------------------------------------------------------------
// Answers
// ---------------------------------------------------------------------------

/// What a request for updates asks for, and how long its answer may take: the
/// time that the server waits, and a while longer.
pub fn updates_query(offset: Option<i64>, wait: u64) -> (r: (String, u64))
    requires
        wait <= u64::MAX - 15,
    ensures
        r.0@ == "getUpdates?timeout="@ + t::decimal(wait as nat) + (match offset {
            Some(n) => "&offset="@ + t::signed_decimal(n as int),
            None => Seq::empty(),
        }),
        r.1 == wait + 15,
{
    let query = "getUpdates?timeout=".to_owned().concat(t::u64_text(wait).as_str());
    let tail = match offset {
        Some(n) => "&offset=".to_owned().concat(t::i64_text(n).as_str()),
        None => {
            let none = String::new();
            assert(none@ =~= Seq::<char>::empty());
            none
        },
    };
    (query.concat(tail.as_str()), wait + 15)
}

/// What became of a call: an answer that says whether all is well, an answer
/// that could not be read, or no answer.
#[derive(Debug, PartialEq, Eq)]
pub enum ApiReply {
    Answer { ok: bool },
    Unreadable { error: String },
    Failed { error: String },
}

/// Why a call came to nothing, where it did.
pub open spec fn api_error(label: Seq<char>, method: Seq<char>, reply: ApiReply) -> Option<Seq<char>> {
    match reply {
        ApiReply::Answer { ok } => if ok {
            None
        } else {
            Some("Telegram "@ + label + " returned ok=false"@)
        },
        ApiReply::Unreadable { error } => Some(
            "failed to parse Telegram "@ + method + " response: "@ + error@,
        ),
        ApiReply::Failed { error } => Some("Telegram "@ + label + " failed: "@ + error@),
    }
}

/// Reads the answer to a call of `method`, which goes by `label` in messages.
pub fn check_reply(label: &str, method: &str, reply: &ApiReply) -> (r: Option<String>)
    ensures
        t::opt_view(r) == api_error(label@, method@, *reply),
{
    match reply {
        ApiReply::Answer { ok } => if *ok {
            None
        } else {
            Some("Telegram ".to_owned().concat(label).concat(" returned ok=false"))
        },
        ApiReply::Unreadable { error } => Some(
            "failed to parse Telegram ".to_owned().concat(method).concat(" response: ").concat(error.as_str()),
        ),
        ApiReply::Failed { error } => Some(
            "Telegram ".to_owned().concat(label).concat(" failed: ").concat(error.as_str()),
        ),
    }
}

/// What became of an edit of the live message.
#[derive(Debug, PartialEq, Eq)]
pub enum LiveReply {
    Answer { ok: bool },
    Unreadable { error: String },
    /// A status that is no success, with the header that says when to come back
    /// and the body, as far as they could be read.
    Status { code: u16, retry_after: Option<String>, body: Option<String> },
    Failed { error: String },
}

/// What a live edit came to, so that the caller can back off.
#[derive(Debug, PartialEq, Eq)]
pub enum LiveEditOutcome<S> {
    Done,
    /// Too many edits; come back after this many seconds, if it was said.
    Throttled { retry_after: Option<u64> },
    Failed { error: S },
}

impl View for LiveEditOutcome<String> {
    type V = LiveEditOutcome<Seq<char>>;

    open spec fn view(&self) -> LiveEditOutcome<Seq<char>> {
        match self {
            LiveEditOutcome::Done => LiveEditOutcome::Done,
            LiveEditOutcome::Throttled { retry_after } => LiveEditOutcome::Throttled { retry_after: *retry_after },
            LiveEditOutcome::Failed { error } => LiveEditOutcome::Failed { error: error@ },
        }
    }
}

/// The seconds that a `retry-after` header gives.
pub open spec fn retry_seconds(header: Option<Seq<char>>) -> Option<u64> {
    match header {
        Some(h) => match t::parsed_unsigned(t::trimmed(h), u64::MAX as nat) {
            Some(n) => Some(n as u64),
            None => None,
        },
        None => None,
    }
}

pub open spec fn live_outcome(reply: LiveReply) -> LiveEditOutcome<Seq<char>> {
    match reply {
        LiveReply::Answer { ok } => if ok {
            LiveEditOutcome::Done
        } else {
            LiveEditOutcome::Failed { error: "editMessageText returned ok=false"@ }
        },
        LiveReply::Unreadable { error } => LiveEditOutcome::Failed { error: "parse: "@ + error@ },
        LiveReply::Status { code, retry_after, body } => if code == 429 {
            LiveEditOutcome::Throttled { retry_after: retry_seconds(t::opt_view(retry_after)) }
        } else if code == 400 {
            let text = match t::opt_view(body) {
                Some(s) => s,
                None => Seq::empty(),
            };
            if t::has(text, "not modified"@) {
                LiveEditOutcome::Done
            } else {
                LiveEditOutcome::Failed { error: "status 400: "@ + t::trimmed(text) }
            }
        } else {
            LiveEditOutcome::Failed { error: "status "@ + t::decimal(code as nat) }
        },
        LiveReply::Failed { error } => LiveEditOutcome::Failed { error: error@ },
    }
}

/// Reads the answer to an edit of the live message.
pub fn live_edit_outcome(reply: &LiveReply) -> (r: LiveEditOutcome<String>)
    ensures
        r@ == live_outcome(*reply),
{
    match reply {
        LiveReply::Answer { ok } => if *ok {
            LiveEditOutcome::Done
        } else {
            LiveEditOutcome::Failed { error: "editMessageText returned ok=false".to_owned() }
        },
        LiveReply::Unreadable { error } => LiveEditOutcome::Failed {
            error: "parse: ".to_owned().concat(error.as_str()),
        },
        LiveReply::Status { code, retry_after, body } => if *code == 429 {
            let seconds = match retry_after {
                Some(h) => t::parse_u64(t::trim(h.as_str()).as_str()),
                None => None,
            };
            LiveEditOutcome::Throttled { retry_after: seconds }
        } else if *code == 400 {
            let text = match body {
                Some(s) => s.clone(),
                None => String::new(),
            };
            assert(text@ =~= match t::opt_view(*body) {
                Some(s) => s,
                None => Seq::empty(),
            });
            if t::contains(text.as_str(), "not modified") {
                LiveEditOutcome::Done
            } else {
                LiveEditOutcome::Failed {
                    error: "status 400: ".to_owned().concat(t::trim(text.as_str()).as_str()),
                }
            }
        } else {
            LiveEditOutcome::Failed {
                error: "status ".to_owned().concat(t::u64_text(*code as u64).as_str()),
            }
        },
        LiveReply::Failed { error } => LiveEditOutcome::Failed { error: error.clone() },
    }
}

// ---------------------------------------------------------------------------
// Uploads
// ---------------------------------------------------------------------------

/// The largest file that is uploaded, in bytes.
pub const MAX_DOCUMENT_BYTES: u64 = 52_428_800;

/// Why a file is not uploaded, where it is too large.
pub fn upload_refusal(path: &str, bytes: u64) -> (r: Option<String>)
    ensures
        t::opt_view(r) == if bytes > MAX_DOCUMENT_BYTES {
            Some(
                path@ + " is "@ + t::decimal(bytes as nat) + " bytes (over Telegram's 50 MB sendDocument limit)"@,
            )
        } else {
            None
        },
{
    if bytes > MAX_DOCUMENT_BYTES {
        Some(
            path.to_owned().concat(" is ").concat(t::u64_text(bytes).as_str()).concat(
                " bytes (over Telegram's 50 MB sendDocument limit)",
            ),
        )
    } else {
        None
    }
}

/// The bytes of a text.
pub open spec fn bytes(s: Seq<char>) -> Seq<u8> {
    vstd::utf8::encode_utf8(s)
}

fn add_text(body: &mut Vec<u8>, s: &str)
    ensures
        final(body)@ == old(body)@ + bytes(s@),
{
    let b = s.as_bytes();
    let ghost before = body@;
    let mut i: usize = 0;
    assert(before + b@.take(0) =~= before);
    while i < b.len()
        invariant
            i <= b@.len(),
            body@ == before + b@.take(i as int),
        decreases b@.len() - i,
    {
        body.push(b[i]);
        assert(b@.take(i as int + 1) =~= b@.take(i as int).push(b@[i as int]));
        i += 1;
    }
    assert(b@.take(b@.len() as int) =~= b@);
}

/// One field of a form.
pub open spec fn form_field(name: Seq<char>, value: Seq<char>) -> Seq<u8> {
    bytes(
        "--maturanadocboundary7e3f\r\ncontent-disposition: form-data; name=\""@ + name + "\"\r\n\r\n"@ + value
            + "\r\n"@,
    )
}

fn add_field(body: &mut Vec<u8>, name: &str, value: &str)
    ensures
        final(body)@ == old(body)@ + form_field(name@, value@),
{
    let text = "--maturanadocboundary7e3f\r\ncontent-disposition: form-data; name=\"".to_owned().concat(
        name,
    ).concat("\"\r\n\r\n").concat(value).concat("\r\n");
    add_text(body, text.as_str());
}

/// A file name that can stand between quotes; `file` where there is none.
pub open spec fn upload_name(name: Option<Seq<char>>) -> Seq<char> {
    match name {
        Some(n) => n.map_values(
            |c: char|
                if c == '"' || c == '\r' || c == '\n' {
                    '_'
                } else {
                    c
                },
        ),
        None => "file"@,
    }
}

pub fn upload_name_text(name: Option<&str>) -> (r: String)
    ensures
        r@ == upload_name(t::opt_str(name)),
{
    match name {
        None => "file".to_owned(),
        Some(n) => {
            let v = t::chars_of(n);
            let mut r = String::new();
            let mut i: usize = 0;
            let ghost all = upload_name(Some(n@));
            assert(r@ =~= all.take(0));
            while i < v.len()
                invariant
                    i <= v.len(),
                    v@ == n@,
                    all == upload_name(Some(n@)),
                    r@ == all.take(i as int),
                decreases v.len() - i,
            {
                let c = v[i];
                if c == '"' || c == '\r' || c == '\n' {
                    r.push('_');
                } else {
                    r.push(c);
                }
                assert(all.take(i as int + 1) =~= all.take(i as int).push(all[i as int]));
                i += 1;
            }
            assert(all.take(all.len() as int) =~= all);
            r
        },
    }
}

/// The form that uploads a file: the chat, the caption and the message that it
/// answers, where there are any, and the file.
pub open spec fn document_form(
    chat_id: i64,
    caption: Option<Seq<char>>,
    reply_to: Option<i64>,
    name: Option<Seq<char>>,
    content: Seq<u8>,
) -> Seq<u8> {
    form_field("chat_id"@, t::signed_decimal(chat_id as int)) + (match caption {
        Some(c) => form_field("caption"@, t::head(c, 1000)),
        None => Seq::empty(),
    }) + (match reply_to {
        Some(id) => form_field("reply_to_message_id"@, t::signed_decimal(id as int)),
        None => Seq::empty(),
    }) + bytes(
        "--maturanadocboundary7e3f\r\ncontent-disposition: form-data; name=\"document\"; filename=\""@
            + upload_name(name) + "\"\r\ncontent-type: application/octet-stream\r\n\r\n"@,
    ) + content + bytes("\r\n--maturanadocboundary7e3f--\r\n"@)
}

/// The content type and the body of the upload of a file.
pub fn send_telegram_document(
    chat_id: i64,
    caption: Option<&str>,
    reply_to: Option<i64>,
    name: Option<&str>,
    content: &Vec<u8>,
) -> (r: (String, Vec<u8>))
    ensures
        r.0@ == "multipart/form-data; boundary=maturanadocboundary7e3f"@,
        r.1@ == document_form(chat_id, t::opt_str(caption), reply_to, t::opt_str(name), content@),
{
    let mut body: Vec<u8> = Vec::new();
    add_field(&mut body, "chat_id", t::i64_text(chat_id).as_str());
    let ghost a = form_field("chat_id"@, t::signed_decimal(chat_id as int));
    assert(body@ =~= a);
    match caption {
        Some(c) => add_field(&mut body, "caption", t::take_chars(c, 1000).as_str()),
        None => {},
    }
    let ghost b = a + (match t::opt_str(caption) {
        Some(c) => form_field("caption"@, t::head(c, 1000)),
        None => Seq::empty(),
    });
    assert(body@ =~= b);
    match reply_to {
        Some(id) => add_field(&mut body, "reply_to_message_id", t::i64_text(id).as_str()),
        None => {},
    }
    let ghost c = b + (match reply_to {
        Some(id) => form_field("reply_to_message_id"@, t::signed_decimal(id as int)),
        None => Seq::empty(),
    });
    assert(body@ =~= c);
    let head = "--maturanadocboundary7e3f\r\ncontent-disposition: form-data; name=\"document\"; filename=\"".to_owned().concat(
        upload_name_text(name).as_str(),
    ).concat("\"\r\ncontent-type: application/octet-stream\r\n\r\n");
    add_text(&mut body, head.as_str());
    body.extend_from_slice(content.as_slice());
    add_text(&mut body, "\r\n--maturanadocboundary7e3f--\r\n");
    ("multipart/form-data; boundary=maturanadocboundary7e3f".to_owned(), body)
}

/// A message goes to its chat with its text, in its style, and as a reply where
/// it is one.
pub proof fn law_a_message_goes_to_its_chat(chat_id: Seq<char>, text: Seq<char>, reply_to: Option<i64>, mode: Option<Seq<char>>)
    ensures
        ({
            let m = message_body(chat_id, text, reply_to, mode);
            &&& m.text_at("chat_id"@) == Some(chat_id)
            &&& m.text_at("text"@) == Some(text)
            &&& m.text_at("parse_mode"@) == mode
            &&& reply_to matches Some(id) ==> (m.get("reply_parameters"@) matches Some(r) && r.int64_at("message_id"@)
                == Some(id as int))
            &&& reply_to is None ==> m.get("reply_parameters"@) is None
        }),
{
    reveal_strlit("chat_id");
    reveal_strlit("text");
    reveal_strlit("parse_mode");
    reveal_strlit("reply_parameters");
    reveal_strlit("message_id");
    assert("chat_id"@.len() == 7 && "chat_id"@[0] == 'c' && "chat_id"@[1] == 'h' && "chat_id"@[2] == 'a' && "chat_id"@[3] == 't' && "chat_id"@[4] == '_' && "chat_id"@[5] == 'i');
    assert("text"@.len() == 4 && "text"@[0] == 't' && "text"@[1] == 'e' && "text"@[2] == 'x' && "text"@[3] == 't');
    assert("parse_mode"@.len() == 10 && "parse_mode"@[0] == 'p' && "parse_mode"@[1] == 'a' && "parse_mode"@[2] == 'r' && "parse_mode"@[3] == 's' && "parse_mode"@[4] == 'e' && "parse_mode"@[5] == '_');
    assert("reply_parameters"@.len() == 16 && "reply_parameters"@[0] == 'r' && "reply_parameters"@[1] == 'e' && "reply_parameters"@[2] == 'p' && "reply_parameters"@[3] == 'l' && "reply_parameters"@[4] == 'y' && "reply_parameters"@[5] == '_');
    assert("message_id"@.len() == 10 && "message_id"@[0] == 'm' && "message_id"@[1] == 'e' && "message_id"@[2] == 's' && "message_id"@[3] == 's' && "message_id"@[4] == 'a' && "message_id"@[5] == 'g');
    reveal_with_fuel(json::entry_from, 5);
}

/// A message is edited in its chat by its id, and a tap is answered by its id,
/// with a note where there is one.
pub proof fn law_a_message_is_edited_by_its_id(chat_id: i64, message_id: i64, text: Seq<char>, id: Seq<char>)
    ensures
        edit_body(chat_id, message_id, text, None).int64_at("chat_id"@) == Some(chat_id as int),
        edit_body(chat_id, message_id, text, None).int64_at("message_id"@) == Some(message_id as int),
        edit_body(chat_id, message_id, text, None).text_at("text"@) == Some(text),
        edit_body(chat_id, message_id, text, Some(id)).text_at("parse_mode"@) == Some(id),
        callback_body(id, Some(text)).text_at("callback_query_id"@) == Some(id),
        text.len() > 0 ==> callback_body(id, Some(text)).text_at("text"@) == Some(text),
        callback_body(id, None).get("text"@) is None,
{
    reveal_strlit("chat_id");
    reveal_strlit("message_id");
    reveal_strlit("text");
    reveal_strlit("parse_mode");
    reveal_strlit("callback_query_id");
    assert("chat_id"@.len() == 7 && "chat_id"@[0] == 'c' && "chat_id"@[1] == 'h' && "chat_id"@[2] == 'a' && "chat_id"@[3] == 't' && "chat_id"@[4] == '_' && "chat_id"@[5] == 'i');
    assert("message_id"@.len() == 10 && "message_id"@[0] == 'm' && "message_id"@[1] == 'e' && "message_id"@[2] == 's' && "message_id"@[3] == 's' && "message_id"@[4] == 'a' && "message_id"@[5] == 'g');
    assert("text"@.len() == 4 && "text"@[0] == 't' && "text"@[1] == 'e' && "text"@[2] == 'x' && "text"@[3] == 't');
    assert("parse_mode"@.len() == 10 && "parse_mode"@[0] == 'p' && "parse_mode"@[1] == 'a' && "parse_mode"@[2] == 'r' && "parse_mode"@[3] == 's' && "parse_mode"@[4] == 'e' && "parse_mode"@[5] == '_');
    assert("callback_query_id"@.len() == 17 && "callback_query_id"@[0] == 'c' && "callback_query_id"@[1] == 'a' && "callback_query_id"@[2] == 'l' && "callback_query_id"@[3] == 'l' && "callback_query_id"@[4] == 'b' && "callback_query_id"@[5] == 'a');
    reveal_with_fuel(json::entry_from, 5);
}

/// An offer goes to its chat with its text and every choice below it.
pub proof fn law_an_offer_carries_its_choices(
    chat_id: Seq<char>,
    text: Seq<char>,
    choices: Seq<(Seq<char>, Seq<char>)>,
    columns: int,
    reply_to: Option<i64>,
)
    ensures
        ({
            let m = keyboard_body(chat_id, text, choices, columns, reply_to);
            &&& m.text_at("chat_id"@) == Some(chat_id)
            &&& m.text_at("text"@) == Some(text)
            &&& m.get("reply_markup"@) matches Some(r) && (columns >= 1 ==> r.items_at("inline_keyboard"@) == Some(
                buttons::rows(Style::Telegram, choices, columns),
            ))
        }),
{
    reveal_strlit("chat_id");
    reveal_strlit("text");
    reveal_strlit("reply_markup");
    reveal_strlit("inline_keyboard");
    reveal_strlit("reply_parameters");
    assert("chat_id"@.len() == 7 && "chat_id"@[0] == 'c' && "chat_id"@[1] == 'h' && "chat_id"@[2] == 'a' && "chat_id"@[3] == 't' && "chat_id"@[4] == '_' && "chat_id"@[5] == 'i');
    assert("text"@.len() == 4 && "text"@[0] == 't' && "text"@[1] == 'e' && "text"@[2] == 'x' && "text"@[3] == 't');
    assert("reply_markup"@.len() == 12 && "reply_markup"@[0] == 'r' && "reply_markup"@[1] == 'e' && "reply_markup"@[2] == 'p' && "reply_markup"@[3] == 'l' && "reply_markup"@[4] == 'y' && "reply_markup"@[5] == '_');
    assert("inline_keyboard"@.len() == 15 && "inline_keyboard"@[0] == 'i' && "inline_keyboard"@[1] == 'n' && "inline_keyboard"@[2] == 'l' && "inline_keyboard"@[3] == 'i' && "inline_keyboard"@[4] == 'n' && "inline_keyboard"@[5] == 'e');
    assert("reply_parameters"@.len() == 16 && "reply_parameters"@[0] == 'r' && "reply_parameters"@[1] == 'e' && "reply_parameters"@[2] == 'p' && "reply_parameters"@[3] == 'l' && "reply_parameters"@[4] == 'y' && "reply_parameters"@[5] == '_');
    reveal_with_fuel(json::entry_from, 5);
}

/// A call went well only where the answer says so; anything else is told with
/// what went wrong.
pub proof fn law_only_an_ok_answer_is_well(label: Seq<char>, method: Seq<char>, error: String)
    ensures
        api_error(label, method, ApiReply::Answer { ok: true }) is None,
        api_error(label, method, ApiReply::Answer { ok: false }) is Some,
        api_error(label, method, ApiReply::Unreadable { error }) matches Some(s) && t::ends(s, error@),
        api_error(label, method, ApiReply::Failed { error }) matches Some(s) && t::ends(s, error@),
{
    let a = "failed to parse Telegram "@ + method + " response: "@;
    let b = "Telegram "@ + label + " failed: "@;
    let x = a + error@;
    let y = b + error@;
    assert(x.subrange(x.len() - error@.len(), x.len() as int) =~= error@);
    assert(y.subrange(y.len() - error@.len(), y.len() as int) =~= error@);
}

/// An edit that changed nothing is done; one that came too often waits as long as
/// it is told to; any other refusal fails.
pub proof fn law_an_edit_is_done_throttled_or_failed(code: u16, header: String, body: String)
    ensures
        live_outcome(LiveReply::Answer { ok: true }) is Done,
        live_outcome(LiveReply::Answer { ok: false }) is Failed,
        live_outcome(LiveReply::Status { code: 429, retry_after: Some(header), body: None }) matches LiveEditOutcome::Throttled {
            retry_after,
        } && (t::parsed_unsigned(t::trimmed(header@), u64::MAX as nat) matches Some(n) ==> retry_after == Some(n as u64)),
        t::has(body@, "not modified"@) ==> live_outcome(
            LiveReply::Status { code: 400, retry_after: None, body: Some(body) },
        ) is Done,
        !t::has(body@, "not modified"@) ==> live_outcome(
            LiveReply::Status { code: 400, retry_after: None, body: Some(body) },
        ) is Failed,
        code != 429 && code != 400 ==> live_outcome(LiveReply::Status { code, retry_after: None, body: Some(body) }) is Failed,
{
}

} // verus!
