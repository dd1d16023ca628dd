//! What an incoming Telegram message asks for.

use crate::channels::subagents;
use crate::channels::subagents::{slugify_channel_id, SpawnMode};
use crate::channels::telegram::{Document, TelegramMessage, TelegramUpdate};
use crate::text as t;
use vstd::prelude::*;
use vstd::string::*;

verus! {

/// What is done with an incoming message.
#[derive(Debug, PartialEq, Eq)]
pub enum InboundAction<S> {
    Ignore,
    Pair { chat_id: i64 },
    Help { chat_id: i64 },
    /// Run the first-run interview, routed back to this chat.
    Onboard { chat_id: i64 },
    Status { chat_id: i64 },
    New { chat_id: i64 },
    Spawn { chat_id: i64, mode: SpawnMode, name: S, prompt: S },
    Prompt { chat_id: i64, text: S },
    Document { chat_id: i64, document: Document<S>, caption: Option<S> },
    Photo { chat_id: i64, file_id: S, caption: Option<S> },
    /// A recording to transcribe and then treat as a prompt.
    Voice { chat_id: i64, file_id: S, filename: S },
    Tool { chat_id: i64, name: S, input: S },
    /// The last reply is rated up or down.
    Feedback { chat_id: i64, up: bool },
    Command { chat_id: i64, name: S, args: S },
    /// The chat is not the paired one.
    Deny { chat_id: i64 },
}

impl View for InboundAction<String> {
    type V = InboundAction<Seq<char>>;

    open spec fn view(&self) -> InboundAction<Seq<char>> {
        match self {
            InboundAction::Ignore => InboundAction::Ignore,
            InboundAction::Pair { chat_id } => InboundAction::Pair { chat_id: *chat_id },
            InboundAction::Help { chat_id } => InboundAction::Help { chat_id: *chat_id },
            InboundAction::Onboard { chat_id } => InboundAction::Onboard { chat_id: *chat_id },
            InboundAction::Status { chat_id } => InboundAction::Status { chat_id: *chat_id },
            InboundAction::New { chat_id } => InboundAction::New { chat_id: *chat_id },
            InboundAction::Spawn { chat_id, mode, name, prompt } => InboundAction::Spawn {
                chat_id: *chat_id,
                mode: *mode,
                name: name@,
                prompt: prompt@,
            },
            InboundAction::Prompt { chat_id, text } => InboundAction::Prompt { chat_id: *chat_id, text: text@ },
            InboundAction::Document { chat_id, document, caption } => InboundAction::Document {
                chat_id: *chat_id,
                document: document@,
                caption: t::opt_view(*caption),
            },
            InboundAction::Photo { chat_id, file_id, caption } => InboundAction::Photo {
                chat_id: *chat_id,
                file_id: file_id@,
                caption: t::opt_view(*caption),
            },
            InboundAction::Voice { chat_id, file_id, filename } => InboundAction::Voice {
                chat_id: *chat_id,
                file_id: file_id@,
                filename: filename@,
            },
            InboundAction::Tool { chat_id, name, input } => InboundAction::Tool {
                chat_id: *chat_id,
                name: name@,
                input: input@,
            },
            InboundAction::Feedback { chat_id, up } => InboundAction::Feedback { chat_id: *chat_id, up: *up },
            InboundAction::Command { chat_id, name, args } => InboundAction::Command {
                chat_id: *chat_id,
                name: name@,
                args: args@,
            },
            InboundAction::Deny { chat_id } => InboundAction::Deny { chat_id: *chat_id },
        }
    }
}

/// The message of an update: a chat message, else a channel post.
pub open spec fn message_of(u: TelegramUpdate) -> Option<TelegramMessage> {
    match u.message {
        Some(m) => Some(m),
        None => u.channel_post,
    }
}

pub fn telegram_message(update: &TelegramUpdate) -> (r: Option<&TelegramMessage>)
    ensures
        match r {
            Some(m) => message_of(*update) == Some(*m),
            None => message_of(*update) is None,
        },
{
    match &update.message {
        Some(m) => Some(m),
        None => match &update.channel_post {
            Some(m) => Some(m),
            None => None,
        },
    }
}

/// A command without the bot's name: `/cmd@bot rest` is `/cmd rest`, and a
/// single word ends at its first `@`.
pub open spec fn without_bot_name(text: Seq<char>) -> Seq<char> {
    match t::cut(text, " "@) {
        None => match t::cut(text, "@"@) {
            Some((command, _)) => command,
            None => text,
        },
        Some((command, rest)) => match t::cut(command, "@"@) {
            Some((base, _)) => if t::starts(base, "/"@) {
                base + " "@ + rest
            } else {
                text
            },
            None => text,
        },
    }
}

pub fn normalize_bot_command(text: &str) -> (r: String)
    ensures
        r@ == without_bot_name(text@),
{
    match t::split_once(text, " ") {
        None => match t::split_once(text, "@") {
            Some((command, _)) => command,
            None => text.to_owned(),
        },
        Some((command, rest)) => match t::split_once(command.as_str(), "@") {
            Some((base, _)) => if t::starts_with(base.as_str(), "/") {
                base.concat(" ").concat(rest.as_str())
            } else {
                text.to_owned()
            },
            None => text.to_owned(),
        },
    }
}

/// A message that pairs: `/pair` or `pair`, and then the code.
pub open spec fn pairs(text: Seq<char>, code: Seq<char>) -> bool {
    let s = without_bot_name(t::trimmed(text));
    if t::starts(s, "/pair"@) {
        t::trimmed(s.skip("/pair"@.len() as int)) == code
    } else {
        t::starts(s, "pair"@) && t::trimmed(s.skip("pair"@.len() as int)) == code
    }
}

pub fn is_pair_command(text: &str, code: &str) -> (r: bool)
    ensures
        r == pairs(text@, code@),
{
    let normalized = normalize_bot_command(t::trim(text).as_str());
    match t::strip_prefix(normalized.as_str(), "/pair") {
        Some(rest) => t::same(t::trim(rest.as_str()).as_str(), code),
        None => match t::strip_prefix(normalized.as_str(), "pair") {
            Some(rest) => t::same(t::trim(rest.as_str()).as_str(), code),
            None => false,
        },
    }
}

/// A tool name: lower-case ASCII letters, digits and hyphens, at least one.
pub open spec fn tool_name(s: Seq<char>) -> bool {
    &&& s.len() > 0
    &&& forall|i: int| 0 <= i < s.len() ==> t::ascii_lower(#[trigger] s[i]) || t::digit(s[i]) || s[i] == '-'
}

pub fn is_valid_tool_name(s: &str) -> (r: bool)
    ensures
        r == tool_name(s@),
{
    let v = t::chars_of(s);
    if v.len() == 0 {
        return false;
    }
    let mut i: usize = 0;
    while i < v.len()
        invariant
            i <= v.len(),
            v@ == s@,
            v.len() > 0,
            forall|k: int|
                0 <= k < i ==> t::ascii_lower(#[trigger] s@[k]) || t::digit(s@[k]) || s@[k] == '-',
        decreases v.len() - i,
    {
        let c = v[i];
        if !t::is_ascii_lower(c) && !t::is_digit(c) && c != '-' {
            assert(s@[i as int] == c);
            return false;
        }
        i += 1;
    }
    true
}

/// What stands before and after the first white space; all of it and nothing
/// where there is none.
pub open spec fn head_and_rest(s: Seq<char>) -> (Seq<char>, Seq<char>) {
    match t::cut_space(s) {
        Some((a, b)) => (a, t::trimmed(b)),
        None => (s, Seq::empty()),
    }
}

pub fn split_head(s: &str) -> (r: (String, String))
    ensures
        (r.0@, r.1@) == head_and_rest(s@),
{
    match t::split_once_space(s) {
        Some((a, b)) => (a, t::trim(b.as_str())),
        None => (s.to_owned(), String::new()),
    }
}

/// `/tool name input`: a valid name, and `{}` where no input is given.
pub open spec fn tool_call(command: Seq<char>) -> Option<(Seq<char>, Seq<char>)> {
    match t::after_prefix(command, "/tool"@) {
        None => None,
        Some(rest) => {
            let (name, input) = head_and_rest(t::trimmed(rest));
            if tool_name(t::trimmed(name)) {
                Some((t::trimmed(name), if input.len() == 0 {
                    "{}"@
                } else {
                    input
                }))
            } else {
                None
            }
        },
    }
}

pub fn parse_tool_command(command: &str) -> (r: Option<(String, String)>)
    ensures
        t::pair_view(r) == tool_call(command@),
{
    match t::strip_prefix(command, "/tool") {
        None => None,
        Some(rest) => {
            let (head, input) = split_head(t::trim(rest.as_str()).as_str());
            let name = t::trim(head.as_str());
            if !is_valid_tool_name(name.as_str()) {
                return None;
            }
            if input.as_str().is_empty() {
                Some((name, "{}".to_owned()))
            } else {
                Some((name, input))
            }
        },
    }
}

/// `/spawn [ephemeral|persistent] name -- prompt`.
pub open spec fn spawn_call(command: Seq<char>) -> Option<(SpawnMode, Seq<char>, Seq<char>)> {
    match t::after_prefix(command, "/spawn"@) {
        None => None,
        Some(rest) => match t::cut(t::trimmed(rest), "--"@) {
            None => None,
            Some((head, after)) => {
                let words = t::words_of(head);
                let prompt = t::trimmed(after);
                if words.len() == 0 || prompt.len() == 0 {
                    None
                } else if words[0] == "ephemeral"@ {
                    if words.len() > 1 {
                        Some((SpawnMode::Ephemeral, subagents::slug_of(words[1]), prompt))
                    } else {
                        None
                    }
                } else if words[0] == "persistent"@ {
                    if words.len() > 1 {
                        Some((SpawnMode::Persistent, subagents::slug_of(words[1]), prompt))
                    } else {
                        None
                    }
                } else {
                    Some((SpawnMode::Ephemeral, subagents::slug_of(words[0]), prompt))
                }
            },
        },
    }
}

pub open spec fn spawn_view(o: Option<(SpawnMode, String, String)>) -> Option<
    (SpawnMode, Seq<char>, Seq<char>),
> {
    match o {
        Some((m, n, p)) => Some((m, n@, p@)),
        None => None,
    }
}

pub fn parse_spawn_command(command: &str) -> (r: Option<(SpawnMode, String, String)>)
    ensures
        spawn_view(r) == spawn_call(command@),
{
    let rest = match t::strip_prefix(command, "/spawn") {
        None => {
            return None;
        },
        Some(rest) => rest,
    };
    let (head, after) = match t::split_once(t::trim(rest.as_str()).as_str(), "--") {
        None => {
            return None;
        },
        Some(pair) => pair,
    };
    let words = t::words(head.as_str());
    let prompt = t::trim(after.as_str());
    assert(t::texts(words@).len() == words@.len());
    if words.len() == 0 || prompt.as_str().is_empty() {
        return None;
    }
    assert(t::texts(words@)[0] == words@[0]@);
    if t::same(words[0].as_str(), "ephemeral") {
        if words.len() > 1 {
            assert(t::texts(words@)[1] == words@[1]@);
            return Some((SpawnMode::Ephemeral, slugify_channel_id(words[1].as_str()), prompt));
        }
        return None;
    }
    if t::same(words[0].as_str(), "persistent") {
        if words.len() > 1 {
            assert(t::texts(words@)[1] == words@[1]@);
            return Some((SpawnMode::Persistent, slugify_channel_id(words[1].as_str()), prompt));
        }
        return None;
    }
    Some((SpawnMode::Ephemeral, slugify_channel_id(words[0].as_str()), prompt))
}

/// The prompt that runs a skill: `name [args]`.
pub open spec fn skill_prompt(args: Seq<char>) -> Seq<char> {
    let (skill, rest) = head_and_rest(args);
    t::trimmed("Use the `"@ + skill + "` skill. "@ + rest)
}

pub fn skill_prompt_text(args: &str) -> (r: String)
    ensures
        r@ == skill_prompt(args@),
{
    let (skill, rest) = split_head(args);
    let text = "Use the `".to_owned().concat(skill.as_str()).concat("` skill. ").concat(rest.as_str());
    t::trim(text.as_str())
}

/// The commands that the command handler answers.
pub open spec fn handled(cmd: Seq<char>) -> bool {
    ||| cmd == "/commands"@
    ||| cmd == "/tools"@
    ||| cmd == "/models"@
    ||| cmd == "/model"@
    ||| cmd == "/reasoning"@
    ||| cmd == "/reset"@
    ||| cmd == "/stop"@
    ||| cmd == "/compact"@
    ||| cmd == "/session"@
    ||| cmd == "/subagents"@
    ||| cmd == "/graph-query"@
    ||| cmd == "/graph-insert"@
    ||| cmd == "/tts"@
    ||| cmd == "/tts-provider"@
    ||| cmd == "/emerge"@
    ||| cmd == "/skill"@
    ||| cmd == "/loop"@
}

fn is_handled(cmd: &str) -> (r: bool)
    ensures
        r == handled(cmd@),
{
    t::same(cmd, "/commands") || t::same(cmd, "/tools") || t::same(cmd, "/models") || t::same(cmd, "/model")
        || t::same(cmd, "/reasoning") || t::same(cmd, "/reset") || t::same(cmd, "/stop") || t::same(
        cmd,
        "/compact",
    ) || t::same(cmd, "/session") || t::same(cmd, "/subagents") || t::same(cmd, "/graph-query") || t::same(
        cmd,
        "/graph-insert",
    ) || t::same(cmd, "/tts") || t::same(cmd, "/tts-provider") || t::same(cmd, "/emerge") || t::same(
        cmd,
        "/skill",
    ) || t::same(cmd, "/loop")
}

/// The command word of a message in lower case; in a slash command, an
/// underscore stands for a hyphen.
pub open spec fn command_word(head: Seq<char>) -> Seq<char> {
    let word = t::lower(head);
    if t::starts(word, "/"@) {
        t::replaced(word, "_"@, "-"@)
    } else {
        word
    }
}

pub fn command_word_text(head: &str) -> (r: String)
    ensures
        r@ == command_word(head@),
{
    proof {
        reveal_strlit("_");
    }
    let word = t::to_lower(head);
    if t::starts_with(word.as_str(), "/") {
        t::replace(word.as_str(), "_", "-")
    } else {
        word
    }
}

pub open spec fn slashes() -> spec_fn(char) -> bool {
    |c: char| c == '/'
}

/// What a text message of the paired chat asks for.
pub open spec fn text_action(chat_id: i64, text: Seq<char>) -> InboundAction<Seq<char>> {
    let command = without_bot_name(text);
    let (head, args) = head_and_rest(command);
    let cmd = command_word(head);
    if cmd == "/start"@ || cmd == "/help"@ {
        InboundAction::Help { chat_id }
    } else if cmd == "/status"@ {
        InboundAction::Status { chat_id }
    } else if cmd == "/new"@ {
        InboundAction::New { chat_id }
    } else if cmd == "/good"@ {
        InboundAction::Feedback { chat_id, up: true }
    } else if cmd == "/bad"@ {
        InboundAction::Feedback { chat_id, up: false }
    } else if cmd == "/tool"@ {
        match tool_call(command) {
            Some((name, input)) => InboundAction::Tool { chat_id, name, input },
            None => InboundAction::Help { chat_id },
        }
    } else if cmd == "/spawn"@ {
        match spawn_call(command) {
            Some((mode, name, prompt)) => InboundAction::Spawn { chat_id, mode, name, prompt },
            None => InboundAction::Help { chat_id },
        }
    } else if cmd == "/emerge"@ && args.len() > 0 {
        InboundAction::Spawn {
            chat_id,
            mode: SpawnMode::Ephemeral,
            name: subagents::slug_of(args),
            prompt: args,
        }
    } else if cmd == "/skill"@ && args.len() > 0 {
        InboundAction::Prompt { chat_id, text: skill_prompt(args) }
    } else if cmd == "/onboard"@ {
        InboundAction::Onboard { chat_id }
    } else if handled(cmd) {
        InboundAction::Command { chat_id, name: t::trim_start_by(cmd, slashes()), args }
    } else if t::starts(cmd, "/"@) {
        InboundAction::Command { chat_id, name: "unknown"@, args: cmd }
    } else {
        InboundAction::Prompt { chat_id, text }
    }
}

pub fn route_text(chat_id: i64, text: &str) -> (r: InboundAction<String>)
    ensures
        r@ == text_action(chat_id, text@),
{
    let command = normalize_bot_command(text);
    let (head, args) = split_head(command.as_str());
    let word = command_word_text(head.as_str());
    let cmd = word.as_str();
    if t::same(cmd, "/start") || t::same(cmd, "/help") {
        return InboundAction::Help { chat_id };
    }
    if t::same(cmd, "/status") {
        return InboundAction::Status { chat_id };
    }
    if t::same(cmd, "/new") {
        return InboundAction::New { chat_id };
    }
    if t::same(cmd, "/good") {
        return InboundAction::Feedback { chat_id, up: true };
    }
    if t::same(cmd, "/bad") {
        return InboundAction::Feedback { chat_id, up: false };
    }
    if t::same(cmd, "/tool") {
        return match parse_tool_command(command.as_str()) {
            Some((name, input)) => InboundAction::Tool { chat_id, name, input },
            None => InboundAction::Help { chat_id },
        };
    }
    if t::same(cmd, "/spawn") {
        return match parse_spawn_command(command.as_str()) {
            Some((mode, name, prompt)) => InboundAction::Spawn { chat_id, mode, name, prompt },
            None => InboundAction::Help { chat_id },
        };
    }
    if t::same(cmd, "/emerge") && !args.as_str().is_empty() {
        let name = slugify_channel_id(args.as_str());
        return InboundAction::Spawn { chat_id, mode: SpawnMode::Ephemeral, name, prompt: args };
    }
    if t::same(cmd, "/skill") && !args.as_str().is_empty() {
        return InboundAction::Prompt { chat_id, text: skill_prompt_text(args.as_str()) };
    }
    if t::same(cmd, "/onboard") {
        return InboundAction::Onboard { chat_id };
    }
    if is_handled(cmd) {
        let name = t::trim_start_matches(cmd, &t::Trim::One { c: '/' });
        assert(t::Trim::One { c: '/' }.pred() =~= slashes());
        return InboundAction::Command { chat_id, name, args };
    }
    if t::starts_with(cmd, "/") {
        return InboundAction::Command { chat_id, name: "unknown".to_owned(), args: word };
    }
    InboundAction::Prompt { chat_id, text: text.to_owned() }
}

/// The recording of a message and the name it gets: a voice note before an
/// audio file.
pub open spec fn recording_of(m: TelegramMessage) -> Option<(Seq<char>, Seq<char>)> {
    match m.voice {
        Some(v) => Some((v.file_id@, "voice.ogg"@)),
        None => match m.audio {
            Some(a) => Some((a.file_id@, match a.file_name {
                Some(n) => n@,
                None => "audio.ogg"@,
            })),
            None => None,
        },
    }
}

fn recording(m: &TelegramMessage) -> (r: Option<(String, String)>)
    ensures
        t::pair_view(r) == recording_of(*m),
{
    match &m.voice {
        Some(v) => Some((v.file_id.clone(), "voice.ogg".to_owned())),
        None => match &m.audio {
            Some(a) => Some(
                (
                    a.file_id.clone(),
                    match &a.file_name {
                        Some(n) => n.clone(),
                        None => "audio.ogg".to_owned(),
                    },
                ),
            ),
            None => None,
        },
    }
}

/// The text of a message without the white space around it.
pub open spec fn text_of(m: TelegramMessage) -> Seq<char> {
    match m.text {
        Some(s) => t::trimmed(s@),
        None => t::trimmed(Seq::empty()),
    }
}

/// What an update asks for. Uploads and texts of a chat other than the paired
/// one are denied, except for the message that pairs.
pub open spec fn inbound_action(u: TelegramUpdate, paired: Option<i64>, code: Option<Seq<char>>) -> InboundAction<
    Seq<char>,
> {
    match message_of(u) {
        None => InboundAction::Ignore,
        Some(m) => {
            let chat_id = m.chat.id;
            let known = paired == Some(chat_id);
            if m.document is Some {
                if known {
                    InboundAction::Document {
                        chat_id,
                        document: m.document->0@,
                        caption: t::opt_view(m.caption),
                    }
                } else {
                    InboundAction::Deny { chat_id }
                }
            } else if m.photo is Some && m.photo->0@.len() > 0 {
                if known {
                    InboundAction::Photo {
                        chat_id,
                        file_id: m.photo->0@.last().file_id@,
                        caption: t::opt_view(m.caption),
                    }
                } else {
                    InboundAction::Deny { chat_id }
                }
            } else if recording_of(m) is Some {
                if known {
                    InboundAction::Voice {
                        chat_id,
                        file_id: (recording_of(m)->0).0,
                        filename: (recording_of(m)->0).1,
                    }
                } else {
                    InboundAction::Deny { chat_id }
                }
            } else if text_of(m).len() == 0 {
                InboundAction::Ignore
            } else if code is Some && pairs(text_of(m), code->0) {
                InboundAction::Pair { chat_id }
            } else if !known {
                InboundAction::Deny { chat_id }
            } else {
                text_action(chat_id, text_of(m))
            }
        },
    }
}

fn is_paired(paired: Option<i64>, chat_id: i64) -> (r: bool)
    ensures
        r == (paired == Some(chat_id)),
{
    match paired {
        Some(id) => id == chat_id,
        None => false,
    }
}

/// Says what an update asks for.
pub fn classify_telegram_update(
    update: &TelegramUpdate,
    paired_chat_id: Option<i64>,
    pair_code: Option<&str>,
) -> (r: InboundAction<String>)
    ensures
        r@ == inbound_action(*update, paired_chat_id, t::opt_str(pair_code)),
{
    let message = match telegram_message(update) {
        None => {
            return InboundAction::Ignore;
        },
        Some(m) => m,
    };
    let chat_id: i64 = message.chat.id;
    let known = is_paired(paired_chat_id, chat_id);
    match &message.document {
        Some(document) => {
            if !known {
                return InboundAction::Deny { chat_id };
            }
            return InboundAction::Document {
                chat_id,
                document: document.copy(),
                caption: message.caption.clone(),
            };
        },
        None => {},
    }
    match &message.photo {
        Some(sizes) => if sizes.len() > 0 {
            if !known {
                return InboundAction::Deny { chat_id };
            }
            let largest = &sizes[sizes.len() - 1];
            return InboundAction::Photo {
                chat_id,
                file_id: largest.file_id.clone(),
                caption: message.caption.clone(),
            };
        },
        None => {},
    }
    match recording(message) {
        Some((file_id, filename)) => {
            if !known {
                return InboundAction::Deny { chat_id };
            }
            return InboundAction::Voice { chat_id, file_id, filename };
        },
        None => {},
    }
    let text = match &message.text {
        Some(s) => t::trim(s.as_str()),
        None => t::trim(String::new().as_str()),
    };
    if text.as_str().is_empty() {
        return InboundAction::Ignore;
    }
    match pair_code {
        Some(code) => if is_pair_command(text.as_str(), code) {
            return InboundAction::Pair { chat_id };
        },
        None => {},
    }
    if !known {
        return InboundAction::Deny { chat_id };
    }
    route_text(chat_id, text.as_str())
}

/// A chat that is not the paired one gets nothing but a denial, unless it
/// sends the pairing code.
pub proof fn law_unpaired_chats_are_denied(u: TelegramUpdate, paired: Option<i64>, code: Option<Seq<char>>)
    requires
        message_of(u) matches Some(m) && paired != Some(m.chat.id),
    ensures
        ({
            let a = inbound_action(u, paired, code);
            let m = message_of(u)->0;
            a == InboundAction::<Seq<char>>::Ignore || a == (InboundAction::<Seq<char>>::Deny {
                chat_id: m.chat.id,
            }) || (a == (InboundAction::<Seq<char>>::Pair { chat_id: m.chat.id }) && code is Some && pairs(
                text_of(m),
                code->0,
            ))
        }),
{
}

// ---------------------------------------------------------------------------
// Spellings of a command
// ---------------------------------------------------------------------------

/// A character of a command word as it is read.
pub open spec fn folded(c: char) -> char {
    if c == '_' {
        '-'
    } else {
        t::lower_char(c)
    }
}

/// Two spellings of one command word: they differ only in `_` and `-` and in the
/// case of ASCII letters, and hold no white space.
pub open spec fn same_word(a: Seq<char>, b: Seq<char>) -> bool {
    &&& a.len() == b.len() > 0
    &&& a[0] == '/'
    &&& forall|i: int| 0 <= i < a.len() ==> folded(#[trigger] a[i]) == folded(b[i])
    &&& forall|i: int| 0 <= i < a.len() ==> !t::space(#[trigger] a[i])
}

/// The command that a text asks for.
pub open spec fn command_of(text: Seq<char>) -> Seq<char> {
    command_word(head_and_rest(without_bot_name(text)).0)
}

/// Two texts that start with spellings of one command word, `n` characters long,
/// and go on alike.
spec fn alike(a: Seq<char>, b: Seq<char>, n: int) -> bool {
    &&& 0 < n <= a.len()
    &&& a.len() == b.len()
    &&& a[0] == '/'
    &&& forall|i: int| 0 <= i < n ==> folded(#[trigger] a[i]) == folded(b[i]) && !t::space(a[i])
    &&& forall|i: int| n <= i < a.len() ==> (#[trigger] a[i]) == b[i]
    &&& n < a.len() ==> t::space(a[n])
}

proof fn lemma_folded(a: char, b: char)
    requires
        folded(a) == folded(b),
    ensures
        t::space(a) == t::space(b),
        a == '/' <==> b == '/',
        a == '@' <==> b == '@',
        a == ' ' <==> b == ' ',
{
}

proof fn lemma_alike(a: Seq<char>, b: Seq<char>, n: int, c: char)
    requires
        alike(a, b, n),
        c == '@' || c == ' ',
    ensures
        t::find(a, seq![c]) == t::find(b, seq![c]),
        t::find(a, seq![c]) matches Some(k) ==> 0 < k < a.len() && a[k] == c && b[k] == c,
        b[0] == '/',
        t::first_by(a, t::spaces()) == t::first_by(b, t::spaces()),
        t::first_by(a, t::spaces()) == if n < a.len() {
            Some(n)
        } else {
            None
        },
{
    assert forall|i: int| 0 <= i < a.len() implies (#[trigger] a[i] == c <==> b[i] == c) && t::space(a[i])
        == t::space(b[i]) by {
        if i < n {
            lemma_folded(a[i], b[i]);
        }
    }
    lemma_folded(a[0], b[0]);
    t::lemma_find_char(a, c);
    t::lemma_find_char(b, c);
    match (t::find(a, seq![c]), t::find(b, seq![c])) {
        (Some(i), Some(j)) => {
            assert(a[j] == c <==> b[j] == c);
            assert(a[i] == c <==> b[i] == c);
        },
        (Some(i), None) => {
            assert(a[i] == c <==> b[i] == c);
        },
        (None, Some(j)) => {
            assert(a[j] == c <==> b[j] == c);
        },
        (None, None) => {},
    }
    lemma_first_space(a, n);
    assert forall|i: int| 0 <= i < n implies !t::space(#[trigger] b[i]) by {
        assert(t::space(a[i]) == t::space(b[i]));
    }
    lemma_first_space(b, n);
}

proof fn lemma_first_space(s: Seq<char>, n: int)
    requires
        0 <= n <= s.len(),
        forall|i: int| 0 <= i < n ==> !t::space(#[trigger] s[i]),
        n < s.len() ==> t::space(s[n]),
    ensures
        t::first_by(s, t::spaces()) == if n < s.len() {
            Some(n)
        } else {
            None
        },
{
    t::lemma_first_by_bound(s, t::spaces());
    match t::first_by(s, t::spaces()) {
        Some(k) => {
            if k > n {
                assert(!(t::spaces())(s[n]));
            }
        },
        None => {
            if n < s.len() {
                assert(!(t::spaces())(s[n]));
            }
        },
    }
}

/// Taking the bot's name away leaves two such texts alike.
proof fn lemma_bot_name_alike(a: Seq<char>, b: Seq<char>, n: int) -> (m: int)
    requires
        alike(a, b, n),
    ensures
        alike(without_bot_name(a), without_bot_name(b), m),
{
    reveal_strlit(" ");
    reveal_strlit("@");
    reveal_strlit("/");
    assert(" "@ =~= seq![' ']);
    assert("@"@ =~= seq!['@']);
    lemma_alike(a, b, n, ' ');
    lemma_alike(a, b, n, '@');
    match t::find(a, " "@) {
        None => match t::find(a, "@"@) {
            None => n,
            Some(k) => if n < k {
                n
            } else {
                k
            },
        },
        Some(j) => {
            let (ca, cb) = (a.take(j), b.take(j));
            assert(n <= j) by {
                if j < n {
                    assert(!t::space(a[j]));
                }
            }
            assert(alike(ca, cb, n));
            lemma_alike(ca, cb, n, '@');
            match t::find(ca, "@"@) {
                None => n,
                Some(k) => {
                    assert(ca.take(k).subrange(0, 1) =~= "/"@);
                    assert(cb.take(k).subrange(0, 1) =~= "/"@);
                    let (ra, rb) = (without_bot_name(a), without_bot_name(b));
                    assert(ra == ca.take(k) + " "@ + a.skip(j + 1));
                    assert(rb == cb.take(k) + " "@ + b.skip(j + 1));
                    let m = if n < k {
                        n
                    } else {
                        k
                    };
                    assert forall|i: int| 0 <= i < m implies folded(#[trigger] ra[i]) == folded(rb[i]) && !t::space(
                        ra[i],
                    ) by {
                        assert(ra[i] == a[i] && rb[i] == b[i]);
                    }
                    assert forall|i: int| m <= i < ra.len() implies (#[trigger] ra[i]) == rb[i] by {
                        if i < k {
                            assert(ra[i] == a[i] && rb[i] == b[i]);
                        } else if i > k {
                            let x = i - k + j;
                            assert(ra[i] == a[x] && rb[i] == b[x]);
                        }
                    }
                    if m < k {
                        assert(ra[m] == a[m]);
                    } else {
                        assert(ra[m] == ' ');
                    }
                    m
                },
            }
        },
    }
}

proof fn lemma_subst(s: Seq<char>)
    ensures
        t::subst(t::lower(s), '_', seq!['-']) == s.map_values(|c: char| folded(c)),
    decreases s.len(),
{
    let low = t::lower(s);
    let all = s.map_values(|c: char| folded(c));
    if s.len() == 0 {
        assert(t::subst(low, '_', seq!['-']) =~= all);
    } else {
        lemma_subst(s.skip(1));
        assert(low.skip(1) =~= t::lower(s.skip(1)));
        assert(low[0] == '_' <==> s[0] == '_');
        assert(t::subst(low, '_', seq!['-']) =~= all);
    }
}

/// A slash command is read character by character.
proof fn lemma_command_word(head: Seq<char>)
    requires
        head.len() > 0,
        head[0] == '/',
    ensures
        command_word(head) == head.map_values(|c: char| folded(c)),
        t::starts(command_word(head), "/"@),
{
    reveal_strlit("_");
    reveal_strlit("-");
    reveal_strlit("/");
    assert("_"@ =~= seq!['_']);
    assert("-"@ =~= seq!['-']);
    let low = t::lower(head);
    assert(low.subrange(0, 1) =~= "/"@);
    t::lemma_replaced_char(low, '_', "-"@);
    lemma_subst(head);
    assert(command_word(head).subrange(0, 1) =~= "/"@);
}

proof fn lemma_text_action(chat_id: i64, a: Seq<char>, b: Seq<char>, n: int)
    requires
        alike(a, b, n),
        command_of(a) != "/tool"@,
        command_of(a) != "/spawn"@,
    ensures
        command_of(a) == command_of(b),
        text_action(chat_id, a) == text_action(chat_id, b),
{
    let m = lemma_bot_name_alike(a, b, n);
    let (ca, cb) = (without_bot_name(a), without_bot_name(b));
    lemma_alike(ca, cb, m, ' ');
    let (ha, hb) = (ca.take(m), cb.take(m));
    if m == ca.len() {
        assert(ha =~= ca);
        assert(hb =~= cb);
    } else {
        assert(ca.skip(m + 1) =~= cb.skip(m + 1));
    }
    assert(head_and_rest(ca).0 == ha && head_and_rest(cb).0 == hb);
    assert(head_and_rest(ca).1 == head_and_rest(cb).1);
    lemma_command_word(ha);
    lemma_command_word(hb);
    assert forall|i: int| 0 <= i < m implies folded(#[trigger] ha[i]) == folded(hb[i]) by {
        assert(ha[i] == ca[i] && hb[i] == cb[i]);
    }
    assert(ha.map_values(|c: char| folded(c)) =~= hb.map_values(|c: char| folded(c)));
}

/// In a command word an underscore is as good as a hyphen, and the case of ASCII
/// letters makes no difference: two messages of the paired chat that differ in
/// nothing else ask for the same. The words of `/tool` and `/spawn` are left out,
/// which are read as they are written.
pub proof fn law_spellings_of_a_command_are_one(
    u1: TelegramUpdate,
    u2: TelegramUpdate,
    id: i64,
    a: Seq<char>,
    b: Seq<char>,
    rest: Seq<char>,
)
    requires
        message_of(u1) matches Some(m) && only_text(m) && m.chat.id == id && text_of(m) == a + rest,
        message_of(u2) matches Some(m) && only_text(m) && m.chat.id == id && text_of(m) == b + rest,
        same_word(a, b),
        rest.len() > 0 ==> t::space(rest[0]),
        command_of(a + rest) != "/tool"@,
        command_of(a + rest) != "/spawn"@,
    ensures
        inbound_action(u1, Some(id), None) == inbound_action(u2, Some(id), None),
{
    let (ta, tb) = (a + rest, b + rest);
    let n = a.len() as int;
    assert forall|i: int| 0 <= i < n implies folded(#[trigger] ta[i]) == folded(tb[i]) && !t::space(ta[i]) by {
        assert(ta[i] == a[i] && tb[i] == b[i]);
    }
    assert forall|i: int| n <= i < ta.len() implies (#[trigger] ta[i]) == tb[i] by {
        assert(ta[i] == rest[i - n] && tb[i] == rest[i - n]);
    }
    lemma_text_action(id, ta, tb, n);
}

/// A message that holds a text and nothing else.
pub open spec fn only_text(m: TelegramMessage) -> bool {
    &&& m.document is None
    &&& m.photo is Some ==> m.photo->0@.len() == 0
    &&& m.voice is None
    &&& m.audio is None
}

// ---------------------------------------------------------------------------
// What a message asks for
// ---------------------------------------------------------------------------

/// A command word as the catalog writes it: a slash, and then no white space, no
/// name of a bot, no underscore and no upper case.
pub open spec fn plain_word(word: Seq<char>) -> bool {
    &&& word.len() > 0
    &&& word[0] == '/'
    &&& forall|i: int|
        0 <= i < word.len() ==> !t::space(#[trigger] word[i]) && word[i] != '@' && word[i] != '_' && !t::ascii_upper(
            word[i],
        )
}

/// What is said behind a command word.
pub open spec fn said_behind(rest: Seq<char>) -> Seq<char> {
    if rest.len() == 0 {
        Seq::empty()
    } else {
        t::trimmed(rest.skip(1))
    }
}

proof fn lemma_plain_command(word: Seq<char>, rest: Seq<char>)
    requires
        plain_word(word),
        rest.len() > 0 ==> rest[0] == ' ',
    ensures
        without_bot_name(word + rest) == word + rest,
        head_and_rest(word + rest) == (word, said_behind(rest)),
        command_word(word) == word,
        t::starts(word, "/"@),
{
    reveal_strlit(" ");
    reveal_strlit("@");
    reveal_strlit("/");
    assert(" "@ =~= seq![' ']);
    assert("@"@ =~= seq!['@']);
    let text = word + rest;
    let n = word.len() as int;
    t::lemma_find_char(text, ' ');
    t::lemma_find_char(text, '@');
    t::lemma_find_char(word, '@');
    match t::find(word, "@"@) {
        Some(k) => {
            assert(word[k] == '@');
        },
        None => {},
    }
    if rest.len() == 0 {
        assert(text =~= word);
        match t::find(text, " "@) {
            Some(k) => {
                assert(t::space(word[k]));
            },
            None => {},
        }
    } else {
        assert(text[n] == ' ');
        match t::find(text, " "@) {
            Some(k) => {
                if k < n {
                    assert(word[k] == text[k]);
                    assert(t::space(word[k]));
                }
                assert(k == n);
                assert(text.take(k) =~= word);
            },
            None => {},
        }
    }
    assert forall|i: int| 0 <= i < n implies !t::space(#[trigger] text[i]) by {
        assert(text[i] == word[i]);
    }
    lemma_first_space(text, n);
    if rest.len() == 0 {
        assert(text =~= word);
    } else {
        assert(text.take(n) =~= word);
        assert(text.skip(n + 1) =~= rest.skip(1));
    }
    lemma_command_word(word);
    assert forall|i: int| 0 <= i < word.len() implies folded(#[trigger] word[i]) == word[i] by {}
    assert(word.map_values(|c: char| folded(c)) =~= word);
    assert(word.subrange(0, 1) =~= "/"@);
}

/// The words that the command handler answers.
pub open spec fn answered_by_the_handler(word: Seq<char>) -> bool {
    word == "/commands"@ || word == "/tools"@ || word == "/models"@ || word == "/model"@ || word == "/reasoning"@
        || word == "/reset"@ || word == "/stop"@ || word == "/compact"@ || word == "/session"@ || word
        == "/subagents"@ || word == "/graph-query"@ || word == "/graph-insert"@ || word == "/tts"@ || word
        == "/tts-provider"@ || word == "/loop"@
}

/// Each command asks for what it names; a word that no command has is reported
/// as unknown, with the word.
pub proof fn law_a_command_asks_for_what_it_names(chat_id: i64, word: Seq<char>, rest: Seq<char>)
    requires
        plain_word(word),
        rest.len() > 0 ==> rest[0] == ' ',
    ensures
        ({
            let asked = text_action(chat_id, word + rest);
            let args = said_behind(rest);
            &&& word == "/start"@ || word == "/help"@ ==> asked == (InboundAction::<Seq<char>>::Help { chat_id })
            &&& word == "/status"@ ==> asked == (InboundAction::<Seq<char>>::Status { chat_id })
            &&& word == "/new"@ ==> asked == (InboundAction::<Seq<char>>::New { chat_id })
            &&& word == "/good"@ ==> asked == (InboundAction::<Seq<char>>::Feedback { chat_id, up: true })
            &&& word == "/bad"@ ==> asked == (InboundAction::<Seq<char>>::Feedback { chat_id, up: false })
            &&& word == "/onboard"@ ==> asked == (InboundAction::<Seq<char>>::Onboard { chat_id })
            &&& word == "/tool"@ ==> asked is Tool || asked == (InboundAction::<Seq<char>>::Help { chat_id })
            &&& word == "/spawn"@ ==> asked is Spawn || asked == (InboundAction::<Seq<char>>::Help { chat_id })
            &&& word == "/emerge"@ && args.len() > 0 ==> (asked matches InboundAction::Spawn {
                chat_id: c,
                mode,
                prompt,
                ..
            } && c == chat_id && mode == SpawnMode::Ephemeral && prompt == args)
            &&& word == "/skill"@ && args.len() > 0 ==> (asked matches InboundAction::Prompt { chat_id: c, text } && c
                == chat_id && t::starts(text, "Use the `"@))
            &&& (word == "/emerge"@ || word == "/skill"@) && args.len() == 0 || answered_by_the_handler(word) ==> asked
                == (InboundAction::Command { chat_id, name: word.skip(1), args })
            &&& asked matches InboundAction::Command { chat_id: c, name, args: a } ==> name != word.skip(1) ==> c
                == chat_id && name == "unknown"@ && a == word
            &&& asked is Prompt ==> word == "/skill"@
        }),
{
    lemma_plain_command(word, rest);
    lemma_command_words();
    assert(t::trim_start_by(word, slashes()) == word.skip(1) || word.len() > 1 && word[1] == '/' || word.len() == 1)
        by {
        reveal_with_fuel(t::trim_start_by, 3);
    }
    if word == "/skill"@ && said_behind(rest).len() > 0 {
        lemma_skill_prompt(said_behind(rest));
    }
    if handled(word) {
        assert(word.len() > 1 && word[1] != '/');
    }
}

proof fn lemma_skill_prompt(args: Seq<char>)
    ensures
        t::starts(skill_prompt(args), "Use the `"@),
{
    reveal_strlit("Use the `");
    reveal_strlit("` skill. ");
    let (skill, rest) = head_and_rest(args);
    let front = "Use the `"@;
    let mid = "` skill. "@;
    let s = front + skill + mid + rest;
    assert(!(t::spaces())(s[0])) by {
        assert(s[0] == 'U');
    }
    assert(t::trimmed(s) == t::trim_end_by(s, t::spaces())) by {
        reveal_with_fuel(t::trim_start_by, 2);
    }
    let keep = (front.len() + skill.len() + 8) as int;
    assert(s[keep - 1] == '.');
    lemma_trim_end_keeps(s, keep);
    let r = t::trimmed(s);
    assert(r.subrange(0, front.len() as int) =~= front) by {
        assert forall|i: int| 0 <= i < front.len() implies r[i] == front[i] by {
            assert(r[i] == s[i]);
        }
    }
}

/// Trimming the end leaves everything up to a character that is no white space.
proof fn lemma_trim_end_keeps(s: Seq<char>, n: int)
    requires
        0 < n <= s.len(),
        !t::space(s[n - 1]),
    ensures
        ({
            let r = t::trim_end_by(s, t::spaces());
            n <= r.len() <= s.len() && forall|i: int| 0 <= i < n ==> r[i] == s[i]
        }),
    decreases s.len(),
{
    if s.len() > n && t::space(s.last()) {
        lemma_trim_end_keeps(s.drop_last(), n);
    }
}

/// The command words differ from each other.
proof fn lemma_command_words()
    ensures
        forall|w: Seq<char>| #[trigger] handled(w) ==> w.len() > 1 && w[1] != '/',
        forall|w: Seq<char>| w == "/onboard"@ || w == "/start"@ || w == "/help"@ || w == "/status"@ || w == "/new"@
            || w == "/good"@ || w == "/bad"@ || w == "/tool"@ || w == "/spawn"@ ==> !#[trigger] handled(w),
        forall|w: Seq<char>| #[trigger] answered_by_the_handler(w) ==> handled(w) && w[1] != 'e' && (w[1] != 's' || w[2]
            != 'k'),
        "/start"@[1] == 's' && "/start"@[2] == 't' && "/start"@[3] == 'a' && "/start"@[4] == 'r',
        "/help"@[1] == 'h',
        "/status"@[1] == 's' && "/status"@[2] == 't' && "/status"@[3] == 'a' && "/status"@[4] == 't',
        "/new"@[1] == 'n',
        "/good"@[1] == 'g' && "/good"@[2] == 'o',
        "/bad"@[1] == 'b',
        "/tool"@[1] == 't' && "/tool"@[2] == 'o',
        "/spawn"@[1] == 's' && "/spawn"@[2] == 'p',
        "/emerge"@[1] == 'e',
        "/skill"@[1] == 's' && "/skill"@[2] == 'k',
        "/onboard"@[1] == 'o',
{
    reveal_strlit("/start");
    reveal_strlit("/help");
    reveal_strlit("/status");
    reveal_strlit("/new");
    reveal_strlit("/good");
    reveal_strlit("/bad");
    reveal_strlit("/tool");
    reveal_strlit("/spawn");
    reveal_strlit("/emerge");
    reveal_strlit("/skill");
    reveal_strlit("/onboard");
    reveal_strlit("/commands");
    reveal_strlit("/tools");
    reveal_strlit("/models");
    reveal_strlit("/model");
    reveal_strlit("/reasoning");
    reveal_strlit("/reset");
    reveal_strlit("/stop");
    reveal_strlit("/compact");
    reveal_strlit("/session");
    reveal_strlit("/subagents");
    reveal_strlit("/graph-query");
    reveal_strlit("/graph-insert");
    reveal_strlit("/tts");
    reveal_strlit("/tts-provider");
    reveal_strlit("/loop");
    assert("/start"@[1] == 's' && "/start"@[2] == 't' && "/start"@[3] == 'a' && "/start"@[4] == 'r');
    assert("/help"@[1] == 'h');
    assert("/status"@[1] == 's' && "/status"@[2] == 't' && "/status"@[3] == 'a' && "/status"@[4] == 't');
    assert("/new"@[1] == 'n');
    assert("/good"@[1] == 'g' && "/good"@[2] == 'o');
    assert("/bad"@[1] == 'b');
    assert("/tool"@[1] == 't' && "/tool"@.len() == 5 && "/tool"@[2] == 'o');
    assert("/spawn"@[1] == 's' && "/spawn"@[2] == 'p');
    assert("/emerge"@[1] == 'e');
    assert("/skill"@[1] == 's' && "/skill"@[2] == 'k');
    assert("/onboard"@[1] == 'o');
    assert("/commands"@[1] == 'c');
    assert("/tools"@[1] == 't' && "/tools"@.len() == 6);
    assert("/models"@[1] == 'm');
    assert("/model"@[1] == 'm');
    assert("/reasoning"@[1] == 'r');
    assert("/reset"@[1] == 'r');
    assert("/stop"@[1] == 's' && "/stop"@[2] == 't' && "/stop"@[3] == 'o');
    assert("/compact"@[1] == 'c');
    assert("/session"@[1] == 's' && "/session"@[2] == 'e');
    assert("/subagents"@[1] == 's' && "/subagents"@[2] == 'u');
    assert("/graph-query"@[1] == 'g' && "/graph-query"@[2] == 'r');
    assert("/graph-insert"@[1] == 'g' && "/graph-insert"@[2] == 'r');
    assert("/tts"@[1] == 't' && "/tts"@[2] == 't');
    assert("/tts-provider"@[1] == 't' && "/tts-provider"@[2] == 't');
    assert("/loop"@[1] == 'l');
}

/// A text that is no command is handed to the agent as it is.
pub proof fn law_a_plain_text_is_a_prompt(chat_id: i64, text: Seq<char>)
    requires
        text.len() > 0,
        text[0] != '/',
    ensures
        text_action(chat_id, text) == (InboundAction::Prompt { chat_id, text }),
{
    reveal_strlit(" ");
    reveal_strlit("@");
    reveal_strlit("/");
    assert(" "@ =~= seq![' ']);
    assert("@"@ =~= seq!['@']);
    let command = without_bot_name(text);
    t::lemma_find_char(text, ' ');
    t::lemma_find_char(text, '@');
    match t::cut(text, " "@) {
        Some((word, rest)) => {
            t::lemma_find_char(word, '@');
            match t::cut(word, "@"@) {
                Some((base, _)) => {
                    if t::starts(base, "/"@) {
                        assert(base.subrange(0, 1)[0] == base[0]);
                        assert(base[0] == text[0]);
                    }
                },
                None => {},
            }
        },
        None => {},
    }
    assert(command.len() > 0 ==> command[0] == text[0]);
    let head = head_and_rest(command).0;
    t::lemma_first_by_bound(command, t::spaces());
    assert(head.len() > 0 ==> head[0] == text[0]);
    let cmd = command_word(head);
    assert(!t::starts(t::lower(head), "/"@)) by {
        if t::starts(t::lower(head), "/"@) {
            assert(t::lower(head).subrange(0, 1)[0] == t::lower(head)[0]);
        }
    }
    assert(cmd == t::lower(head));
    lemma_slash_words(cmd);
}

/// Every command word begins with a slash.
proof fn lemma_slash_words(w: Seq<char>)
    requires
        w.len() > 0 ==> w[0] != '/',
    ensures
        !handled(w),
        w != "/start"@,
        w != "/help"@,
        w != "/status"@,
        w != "/new"@,
        w != "/good"@,
        w != "/bad"@,
        w != "/tool"@,
        w != "/spawn"@,
        w != "/emerge"@,
        w != "/skill"@,
        w != "/onboard"@,
{
    reveal_strlit("/start");
    reveal_strlit("/help");
    reveal_strlit("/status");
    reveal_strlit("/new");
    reveal_strlit("/good");
    reveal_strlit("/bad");
    reveal_strlit("/tool");
    reveal_strlit("/spawn");
    reveal_strlit("/emerge");
    reveal_strlit("/skill");
    reveal_strlit("/onboard");
    reveal_strlit("/commands");
    reveal_strlit("/tools");
    reveal_strlit("/models");
    reveal_strlit("/model");
    reveal_strlit("/reasoning");
    reveal_strlit("/reset");
    reveal_strlit("/stop");
    reveal_strlit("/compact");
    reveal_strlit("/session");
    reveal_strlit("/subagents");
    reveal_strlit("/graph-query");
    reveal_strlit("/graph-insert");
    reveal_strlit("/tts");
    reveal_strlit("/tts-provider");
    reveal_strlit("/loop");
    assert("/start"@[0] == '/' && "/help"@[0] == '/' && "/status"@[0] == '/' && "/new"@[0] == '/');
    assert("/good"@[0] == '/' && "/bad"@[0] == '/' && "/tool"@[0] == '/' && "/spawn"@[0] == '/');
    assert("/emerge"@[0] == '/' && "/skill"@[0] == '/' && "/onboard"@[0] == '/' && "/commands"@[0] == '/');
    assert("/tools"@[0] == '/' && "/models"@[0] == '/' && "/model"@[0] == '/' && "/reasoning"@[0] == '/');
    assert("/reset"@[0] == '/' && "/stop"@[0] == '/' && "/compact"@[0] == '/' && "/session"@[0] == '/');
    assert("/subagents"@[0] == '/' && "/graph-query"@[0] == '/' && "/graph-insert"@[0] == '/');
    assert("/tts"@[0] == '/' && "/tts-provider"@[0] == '/' && "/loop"@[0] == '/');
}

/// A tool is run under the name that was given and with the input that was
/// given, or an empty object where there was none.
pub proof fn law_a_tool_is_run_as_it_was_asked_for(command: Seq<char>)
    ensures
        tool_call(command) matches Some((name, input)) ==> {
            &&& t::starts(command, "/tool"@)
            &&& name.len() > 0
            &&& forall|i: int|
                0 <= i < name.len() ==> t::ascii_lower(#[trigger] name[i]) || t::digit(name[i]) || name[i] == '-'
            &&& name == t::trimmed(head_and_rest(t::trimmed(command.skip(5))).0)
            &&& input == "{}"@ || input == head_and_rest(t::trimmed(command.skip(5))).1
            &&& head_and_rest(t::trimmed(command.skip(5))).1.len() > 0 ==> input == head_and_rest(
                t::trimmed(command.skip(5)),
            ).1
        },
{
    reveal_strlit("/tool");
}

/// A sub-task is asked for with a name and a prompt behind two hyphens; it is
/// kept only where that is said.
pub proof fn law_a_subtask_is_kept_only_on_demand(command: Seq<char>, head: Seq<char>, after: Seq<char>)
    requires
        t::starts(command, "/spawn"@),
        t::cut(t::trimmed(command.skip(6)), "--"@) == Some((head, after)),
        t::words_of(head).len() > 0,
        t::trimmed(after).len() > 0,
    ensures
        ({
            let words = t::words_of(head);
            let asked = spawn_call(command);
            &&& words[0] != "ephemeral"@ && words[0] != "persistent"@ ==> asked == Some(
                (SpawnMode::Ephemeral, subagents::slug_of(words[0]), t::trimmed(after)),
            )
            &&& words[0] == "ephemeral"@ && words.len() > 1 ==> asked == Some(
                (SpawnMode::Ephemeral, subagents::slug_of(words[1]), t::trimmed(after)),
            )
            &&& words[0] == "persistent"@ && words.len() > 1 ==> asked == Some(
                (SpawnMode::Persistent, subagents::slug_of(words[1]), t::trimmed(after)),
            )
        }),
{
    reveal_strlit("/spawn");
    reveal_strlit("ephemeral");
    reveal_strlit("persistent");
    assert("ephemeral"@.len() == 9 && "persistent"@.len() == 10);
}

/// The message of an update as it came, in a chat or as a post.
pub open spec fn carries(u: TelegramUpdate, m: TelegramMessage) -> bool {
    u.message == Some(m) || (u.message is None && u.channel_post == Some(m))
}

/// The text of a message of the paired chat is read as a command or a prompt.
pub proof fn law_a_text_of_the_paired_chat_is_heard(
    u: TelegramUpdate,
    m: TelegramMessage,
    code: Option<Seq<char>>,
    text: Seq<char>,
)
    requires
        carries(u, m),
        only_text(m),
        m.text is Some,
        text == t::trimmed(m.text->0@),
        text.len() > 0,
        code matches Some(c) ==> !pairs(text, c),
    ensures
        inbound_action(u, Some(m.chat.id), code) == text_action(m.chat.id, text),
{
}

/// An upload of the paired chat is taken: the document, the photo in its largest
/// size, or the recording, each with its caption or its name. A document comes
/// before a photo, and a photo before a recording.
pub proof fn law_an_upload_of_the_paired_chat_is_taken(
    u: TelegramUpdate,
    m: TelegramMessage,
    code: Option<Seq<char>>,
)
    requires
        carries(u, m),
    ensures
        ({
            let asked = inbound_action(u, Some(m.chat.id), code);
            let caption = match m.caption {
                Some(s) => Some(s@),
                None => None,
            };
            let shown = m.photo is Some && m.photo->0@.len() > 0;
            &&& m.document matches Some(d) ==> asked == (InboundAction::Document {
                chat_id: m.chat.id,
                document: d@,
                caption,
            })
            &&& m.document is None && shown ==> asked == (InboundAction::Photo {
                chat_id: m.chat.id,
                file_id: m.photo->0@[m.photo->0@.len() - 1].file_id@,
                caption,
            })
            &&& m.document is None && !shown ==> {
                &&& m.voice matches Some(v) ==> asked == (InboundAction::Voice {
                    chat_id: m.chat.id,
                    file_id: v.file_id@,
                    filename: "voice.ogg"@,
                })
                &&& m.voice is None && m.audio is Some ==> asked == (InboundAction::Voice {
                    chat_id: m.chat.id,
                    file_id: m.audio->0.file_id@,
                    filename: match m.audio->0.file_name {
                        Some(n) => n@,
                        None => "audio.ogg"@,
                    },
                })
            }
        }),
{
}

/// The pairing code pairs whatever chat sends it, behind `pair` or `/pair`; any
/// other code does not.
pub proof fn law_the_code_pairs_a_chat(u: TelegramUpdate, m: TelegramMessage, paired: Option<i64>, code: Seq<char>)
    requires
        carries(u, m),
        only_text(m),
        m.text is Some,
        t::trimmed(m.text->0@).len() > 0,
    ensures
        pairs(t::trimmed(m.text->0@), code) ==> inbound_action(u, paired, Some(code)) == (InboundAction::<
            Seq<char>,
        >::Pair { chat_id: m.chat.id }),
        !pairs(t::trimmed(m.text->0@), code) ==> !(inbound_action(u, paired, Some(code)) is Pair),
        !(inbound_action(u, paired, None) is Pair),
{
    lemma_text_never_pairs(m.chat.id, t::trimmed(m.text->0@));
}

proof fn lemma_text_never_pairs(chat_id: i64, text: Seq<char>)
    ensures
        !(text_action(chat_id, text) is Pair),
        !(text_action(chat_id, text) is Deny),
        !(text_action(chat_id, text) is Ignore),
{
}

/// What is taken for the code is what stands behind the word.
pub proof fn law_the_code_stands_behind_the_word(code: Seq<char>)
    requires
        code.len() > 0,
        forall|i: int| 0 <= i < code.len() ==> !t::space(#[trigger] code[i]) && code[i] != '@',
    ensures
        pairs("/pair"@ + seq![' '] + code, code),
        forall|other: Seq<char>| #[trigger] pairs("/pair"@ + seq![' '] + code, other) ==> other == code,
{
    reveal_strlit("/pair");
    reveal_strlit("@");
    reveal_strlit(" ");
    assert("@"@ =~= seq!['@']);
    assert(" "@ =~= seq![' ']);
    let word = "/pair"@;
    let s = word + seq![' '] + code;
    assert(word[0] == '/' && word[1] == 'p' && word[2] == 'a' && word[3] == 'i' && word[4] == 'r');
    assert(!t::space(word[0]) && !t::space(word[1]) && !t::space(word[2]) && !t::space(word[3]) && !t::space(word[4]));
    assert(plain_word(word));
    lemma_trimmed_is(s);
    assert(s =~= word + (seq![' '] + code));
    lemma_plain_command(word, seq![' '] + code);
    assert(s.subrange(0, 5) =~= word);
    let behind = s.skip(5);
    assert(behind =~= seq![' '] + code);
    assert(t::trimmed(behind) == code) by {
        assert(behind.skip(1) =~= code);
        assert(t::space(behind[0]));
        reveal_with_fuel(t::trim_start_by, 2);
        lemma_trimmed_is(code);
        assert(t::trim_start_by(behind, t::spaces()) == t::trim_start_by(code, t::spaces()));
    }
}

/// A text that begins and ends without white space stays when it is trimmed.
proof fn lemma_trimmed_is(s: Seq<char>)
    requires
        s.len() > 0,
        !t::space(s[0]),
        !t::space(s.last()),
    ensures
        t::trimmed(s) == s,
        t::trim_start_by(s, t::spaces()) == s,
        t::trim_end_by(s, t::spaces()) == s,
{
    reveal_with_fuel(t::trim_start_by, 2);
    reveal_with_fuel(t::trim_end_by, 2);
}

/// The first word of a text, and what stands behind it.
pub proof fn lemma_head_and_rest(word: Seq<char>, rest: Seq<char>)
    requires
        forall|i: int| 0 <= i < word.len() ==> !t::space(#[trigger] word[i]),
    ensures
        head_and_rest(word + seq![' '] + rest) == (word, t::trimmed(rest)),
        head_and_rest(word) == (word, Seq::<char>::empty()),
{
    let text = word + seq![' '] + rest;
    let n = word.len() as int;
    assert(text[n] == ' ');
    assert forall|i: int| 0 <= i < n implies !t::space(#[trigger] text[i]) by {
        assert(text[i] == word[i]);
    }
    lemma_first_space(text, n);
    lemma_first_space(word, n);
    assert(text.take(n) =~= word);
    assert(text.skip(n + 1) =~= rest);
}

} // verus!
