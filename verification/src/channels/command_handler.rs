//! The answers to slash commands.

use crate::channels::command_catalog;
use crate::channels::command_catalog::commands_text;
use crate::channels::settings;
use crate::channels::settings::{or_text, reasoning_level_names, ChannelSettings, SettingsView};
use crate::channels::telegram_state;
use crate::json;
use crate::json::{parse_json, Json, Tree};
use crate::text as t;
use vstd::prelude::*;
use vstd::string::*;

verus! {

/// How many characters of a transcript are kept.
pub const TRANSCRIPT_CONTEXT_CHARS: usize = 8000;

/// A text on one line of an answer.
pub fn truncate_inline(value: &str, limit: usize) -> (r: String)
    ensures
        r@ == t::shortened(value@, limit as nat),
{
    t::shorten(value, limit)
}

/// What a command comes to: an answer, an answer once the new settings are
/// saved, or something to be looked up or done first.
#[derive(Debug, PartialEq, Eq)]
pub enum CommandStep<S, C> {
    Reply { text: S },
    Save { settings: C, text: S },
    Tools,
    Subagents,
    Models,
    Reset,
    Stop,
    Compact,
    GraphQuery { terms: S },
    GraphInsert { note: S },
    Skills,
    Loop { args: S },
}

pub type CommandStepView = CommandStep<Seq<char>, SettingsView>;

impl View for CommandStep<String, ChannelSettings> {
    type V = CommandStepView;

    open spec fn view(&self) -> CommandStepView {
        match self {
            CommandStep::Reply { text } => CommandStep::Reply { text: text@ },
            CommandStep::Save { settings, text } => CommandStep::Save { settings: settings@, text: text@ },
            CommandStep::Tools => CommandStep::Tools,
            CommandStep::Subagents => CommandStep::Subagents,
            CommandStep::Models => CommandStep::Models,
            CommandStep::Reset => CommandStep::Reset,
            CommandStep::Stop => CommandStep::Stop,
            CommandStep::Compact => CommandStep::Compact,
            CommandStep::GraphQuery { terms } => CommandStep::GraphQuery { terms: terms@ },
            CommandStep::GraphInsert { note } => CommandStep::GraphInsert { note: note@ },
            CommandStep::Skills => CommandStep::Skills,
            CommandStep::Loop { args } => CommandStep::Loop { args: args@ },
        }
    }
}

pub open spec fn model_step(s: SettingsView, args: Seq<char>) -> CommandStepView {
    let id = t::trimmed(args);
    if id.len() == 0 {
        CommandStep::Reply { text: "Model: "@ + settings::or_words(s.model, "(harness default)"@) }
    } else {
        CommandStep::Save {
            settings: SettingsView { model: Some(id), ..s },
            text: "Model set to `"@ + id + "` (applies to new turns)."@,
        }
    }
}

/// `/reasoning`, with its argument already in lower case.
pub open spec fn reasoning_step(s: SettingsView, level: Seq<char>) -> CommandStepView {
    if level.len() == 0 {
        CommandStep::Reply {
            text: "Reasoning effort: "@ + settings::or_words(s.reasoning, "low (default)"@)
                + " (codex/gpt-5). Set with /reasoning <"@ + t::joined(settings::reasoning_levels(), "|"@)
                + ">"@,
        }
    } else if settings::reasoning_levels().contains(level) {
        CommandStep::Save {
            settings: SettingsView { reasoning: Some(level), ..s },
            text: "Reasoning effort set to `"@ + level + "` (applies to new turns; codex/gpt-5)."@,
        }
    } else {
        CommandStep::Reply {
            text: "Unknown level `"@ + level + "`. Choose one of: "@ + t::joined(
                settings::reasoning_levels(),
                ", "@,
            ),
        }
    }
}

pub open spec fn first_word(args: Seq<char>) -> Seq<char> {
    let words = t::words_of(args);
    if words.len() > 0 {
        words[0]
    } else {
        Seq::empty()
    }
}

pub open spec fn session_step(s: SettingsView, session_id: Seq<char>, args: Seq<char>) -> CommandStepView {
    let sub = first_word(args);
    if sub == "idle"@ {
        CommandStep::Save { settings: SettingsView { idle: true, ..s }, text: "Session set to idle."@ }
    } else if sub == "active"@ || sub == "wake"@ {
        CommandStep::Save { settings: SettingsView { idle: false, ..s }, text: "Session active."@ }
    } else {
        CommandStep::Reply {
            text: "Session "@ + session_id + "\n  idle: "@ + (if s.idle {
                "on"@
            } else {
                "off"@
            }) + "\n  model: "@ + settings::or_words(s.model, "(default)"@)
                + "\nSet with: /session idle | /session active"@,
        }
    }
}

pub open spec fn tts_step(s: SettingsView) -> CommandStepView {
    CommandStep::Save {
        settings: SettingsView { tts_enabled: !s.tts_enabled, ..s },
        text: "Text-to-speech "@ + (if s.tts_enabled {
            "disabled"@
        } else {
            "ENABLED"@
        }) + " (provider: "@ + settings::or_words(s.tts_provider, "none set"@)
            + "). Set a provider with /tts-provider <name>."@,
    }
}

pub open spec fn tts_provider_step(s: SettingsView, args: Seq<char>) -> CommandStepView {
    let name = t::trimmed(args);
    if name.len() == 0 {
        CommandStep::Reply { text: "TTS provider: "@ + settings::or_words(s.tts_provider, "(none)"@) }
    } else {
        CommandStep::Save {
            settings: SettingsView { tts_provider: Some(name), ..s },
            text: "TTS provider set to `"@ + name + "`."@,
        }
    }
}

/// What a command comes to; `level` is the argument of `/reasoning` in lower
/// case.
pub open spec fn command_step(
    s: SettingsView,
    session_id: Seq<char>,
    name: Seq<char>,
    args: Seq<char>,
    level: Seq<char>,
) -> CommandStepView {
    if name == "commands"@ {
        CommandStep::Reply {
            text: t::joined(command_catalog::catalog_names(), "  "@) + "\n/good /bad — rate the last reply"@,
        }
    } else if name == "tools"@ {
        CommandStep::Tools
    } else if name == "subagents"@ {
        CommandStep::Subagents
    } else if name == "models"@ {
        CommandStep::Models
    } else if name == "model"@ {
        model_step(s, args)
    } else if name == "reasoning"@ {
        reasoning_step(s, level)
    } else if name == "reset"@ {
        CommandStep::Reset
    } else if name == "stop"@ {
        CommandStep::Stop
    } else if name == "compact"@ {
        CommandStep::Compact
    } else if name == "session"@ {
        session_step(s, session_id, args)
    } else if name == "tts"@ {
        tts_step(s)
    } else if name == "tts-provider"@ {
        tts_provider_step(s, args)
    } else if name == "graph-query"@ {
        if t::trimmed(args).len() == 0 {
            CommandStep::Reply { text: "Usage: /graph-query <terms>"@ }
        } else {
            CommandStep::GraphQuery { terms: args }
        }
    } else if name == "graph-insert"@ {
        if t::trimmed(args).len() == 0 {
            CommandStep::Reply {
                text: "Usage: /graph-insert <text> — adds a note to your private memory graph. (Or attach a document to ingest it.)"@,
            }
        } else {
            CommandStep::GraphInsert { note: args }
        }
    } else if name == "emerge"@ {
        CommandStep::Reply { text: "Usage: /emerge <task> — runs a sub-agent on the task."@ }
    } else if name == "skill"@ {
        CommandStep::Skills
    } else if name == "loop"@ {
        CommandStep::Loop { args }
    } else {
        CommandStep::Reply { text: "Unknown command `/"@ + name + "`. Try /help."@ }
    }
}

fn set_model(s: &ChannelSettings, args: &str) -> (r: CommandStep<String, ChannelSettings>)
    ensures
        r@ == model_step(s@, args@),
{
    let id = t::trim(args);
    if id.as_str().is_empty() {
        CommandStep::Reply { text: "Model: ".to_owned().concat(or_text(&s.model, "(harness default)").as_str()) }
    } else {
        let text = "Model set to `".to_owned().concat(id.as_str()).concat("` (applies to new turns).");
        let mut next = s.copy();
        next.model = Some(id);
        CommandStep::Save { settings: next, text }
    }
}

/// Sets the reasoning effort to a level, given in lower case.
pub fn set_reasoning(s: &ChannelSettings, level: &str) -> (r: CommandStep<String, ChannelSettings>)
    ensures
        r@ == reasoning_step(s@, level@),
{
    let levels = reasoning_level_names();
    if level.is_empty() {
        CommandStep::Reply {
            text: "Reasoning effort: ".to_owned().concat(or_text(&s.reasoning, "low (default)").as_str()).concat(
                " (codex/gpt-5). Set with /reasoning <",
            ).concat(t::join(&levels, "|").as_str()).concat(">"),
        }
    } else if t::list_has(&levels, level) {
        let mut next = s.copy();
        next.reasoning = Some(level.to_owned());
        CommandStep::Save {
            settings: next,
            text: "Reasoning effort set to `".to_owned().concat(level).concat(
                "` (applies to new turns; codex/gpt-5).",
            ),
        }
    } else {
        CommandStep::Reply {
            text: "Unknown level `".to_owned().concat(level).concat("`. Choose one of: ").concat(
                t::join(&levels, ", ").as_str(),
            ),
        }
    }
}

fn set_session(s: &ChannelSettings, session_id: &str, args: &str) -> (r: CommandStep<String, ChannelSettings>)
    ensures
        r@ == session_step(s@, session_id@, args@),
{
    let words = t::words(args);
    assert(t::texts(words@).len() == words@.len());
    let sub = if words.len() > 0 {
        assert(t::texts(words@)[0] == words@[0]@);
        words[0].clone()
    } else {
        String::new()
    };
    let mut next = s.copy();
    if t::same(sub.as_str(), "idle") {
        next.idle = true;
        CommandStep::Save { settings: next, text: "Session set to idle.".to_owned() }
    } else if t::same(sub.as_str(), "active") || t::same(sub.as_str(), "wake") {
        next.idle = false;
        CommandStep::Save { settings: next, text: "Session active.".to_owned() }
    } else {
        CommandStep::Reply {
            text: "Session ".to_owned().concat(session_id).concat("\n  idle: ").concat(
                if s.idle {
                    "on"
                } else {
                    "off"
                },
            ).concat("\n  model: ").concat(or_text(&s.model, "(default)").as_str()).concat(
                "\nSet with: /session idle | /session active",
            ),
        }
    }
}

fn toggle_tts(s: &ChannelSettings) -> (r: CommandStep<String, ChannelSettings>)
    ensures
        r@ == tts_step(s@),
{
    let mut next = s.copy();
    next.tts_enabled = !s.tts_enabled;
    CommandStep::Save {
        settings: next,
        text: "Text-to-speech ".to_owned().concat(
            if s.tts_enabled {
                "disabled"
            } else {
                "ENABLED"
            },
        ).concat(" (provider: ").concat(or_text(&s.tts_provider, "none set").as_str()).concat(
            "). Set a provider with /tts-provider <name>.",
        ),
    }
}

fn set_tts_provider(s: &ChannelSettings, args: &str) -> (r: CommandStep<String, ChannelSettings>)
    ensures
        r@ == tts_provider_step(s@, args@),
{
    let name = t::trim(args);
    if name.as_str().is_empty() {
        CommandStep::Reply { text: "TTS provider: ".to_owned().concat(or_text(&s.tts_provider, "(none)").as_str()) }
    } else {
        let text = "TTS provider set to `".to_owned().concat(name.as_str()).concat("`.");
        let mut next = s.copy();
        next.tts_provider = Some(name);
        CommandStep::Save { settings: next, text }
    }
}

/// Answers a command; `level` is the argument of `/reasoning` in lower case.
pub fn answer_command(s: &ChannelSettings, session_id: &str, name: &str, args: &str, level: &str) -> (r: CommandStep<
    String,
    ChannelSettings,
>)
    ensures
        r@ == command_step(s@, session_id@, name@, args@, level@),
{
    if t::same(name, "commands") {
        CommandStep::Reply { text: commands_text() }
    } else if t::same(name, "tools") {
        CommandStep::Tools
    } else if t::same(name, "subagents") {
        CommandStep::Subagents
    } else if t::same(name, "models") {
        CommandStep::Models
    } else if t::same(name, "model") {
        set_model(s, args)
    } else if t::same(name, "reasoning") {
        set_reasoning(s, level)
    } else if t::same(name, "reset") {
        CommandStep::Reset
    } else if t::same(name, "stop") {
        CommandStep::Stop
    } else if t::same(name, "compact") {
        CommandStep::Compact
    } else if t::same(name, "session") {
        set_session(s, session_id, args)
    } else if t::same(name, "tts") {
        toggle_tts(s)
    } else if t::same(name, "tts-provider") {
        set_tts_provider(s, args)
    } else if t::same(name, "graph-query") {
        if t::trim(args).as_str().is_empty() {
            CommandStep::Reply { text: "Usage: /graph-query <terms>".to_owned() }
        } else {
            CommandStep::GraphQuery { terms: args.to_owned() }
        }
    } else if t::same(name, "graph-insert") {
        if t::trim(args).as_str().is_empty() {
            CommandStep::Reply {
                text: "Usage: /graph-insert <text> — adds a note to your private memory graph. (Or attach a document to ingest it.)".to_owned(),
            }
        } else {
            CommandStep::GraphInsert { note: args.to_owned() }
        }
    } else if t::same(name, "emerge") {
        CommandStep::Reply { text: "Usage: /emerge <task> — runs a sub-agent on the task.".to_owned() }
    } else if t::same(name, "skill") {
        CommandStep::Skills
    } else if t::same(name, "loop") {
        CommandStep::Loop { args: args.to_owned() }
    } else {
        CommandStep::Reply { text: "Unknown command `/".to_owned().concat(name).concat("`. Try /help.") }
    }
}

/// Answers a command.
pub fn handle_channel_command(s: &ChannelSettings, session_id: &str, name: &str, args: &str) -> (r: CommandStep<
    String,
    ChannelSettings,
>)
    ensures
        r@ == command_step(s@, session_id@, name@, args@, t::lowercased(t::trimmed(args@))),
{
    let level = t::lowercase(t::trim(args).as_str());
    answer_command(s, session_id, name, args, level.as_str())
}

// ---------------------------------------------------------------------------
// Answers that need something looked up
// ---------------------------------------------------------------------------

/// `/reset` was carried out.
pub fn reset_text() -> (r: String)
    ensures
        r@ == "Session reset — durable memory and wiki are preserved."@,
{
    "Session reset — durable memory and wiki are preserved.".to_owned()
}

pub open spec fn plural(n: nat) -> Seq<char> {
    if n == 1 {
        ""@
    } else {
        "s"@
    }
}

/// What `/stop` did: how many queued messages were dropped, and how many turns
/// in progress were told to end.
pub open spec fn stop_words(queued: nat, in_progress: nat) -> Seq<char> {
    if queued == 0 && in_progress == 0 {
        "Nothing to stop — nothing is queued or in progress."@
    } else if in_progress == 0 {
        "Stopped "@ + t::decimal(queued) + " queued message"@ + plural(queued) + "."@
    } else if queued == 0 {
        "Stopping the reply in progress…"@
    } else {
        "Stopping the reply in progress and dropped "@ + t::decimal(queued) + " queued message"@ + plural(queued)
            + "."@
    }
}

pub fn stop_text(queued: usize, in_progress: usize) -> (r: String)
    ensures
        r@ == stop_words(queued as nat, in_progress as nat),
{
    let ending = if queued == 1 {
        ""
    } else {
        "s"
    };
    if queued == 0 && in_progress == 0 {
        "Nothing to stop — nothing is queued or in progress.".to_owned()
    } else if in_progress == 0 {
        "Stopped ".to_owned().concat(t::usize_text(queued).as_str()).concat(" queued message").concat(
            ending,
        ).concat(".")
    } else if queued == 0 {
        "Stopping the reply in progress…".to_owned()
    } else {
        "Stopping the reply in progress and dropped ".to_owned().concat(t::usize_text(queued).as_str()).concat(
            " queued message",
        ).concat(ending).concat(".")
    }
}

/// The end of a transcript: its last `keep` characters, from the next line on.
pub open spec fn recent_lines(contents: Seq<char>, keep: nat) -> Seq<char> {
    let tail = contents.skip(contents.len() - keep);
    match t::next_char(tail, '\n', 0) {
        Some(i) => tail.skip(i + 1),
        None => tail,
    }
}

/// The transcript that replaces one that is too long.
pub open spec fn compacted(contents: Seq<char>, keep: nat) -> Option<Seq<char>> {
    if contents.len() <= keep {
        None
    } else {
        Some("[older transcript compacted]\n"@ + recent_lines(contents, keep))
    }
}

/// Cuts a transcript down to its recent end, at a line boundary. `None` where
/// it is short enough.
pub fn compact_transcript(contents: &str, keep: usize) -> (r: Option<String>)
    ensures
        t::opt_view(r) == compacted(contents@, keep as nat),
{
    let v = t::chars_of(contents);
    if v.len() <= keep {
        return None;
    }
    let from: usize = v.len() - keep;
    let tail = t::string_of(&v, from, v.len());
    assert(tail@ =~= contents@.skip(contents@.len() - keep));
    let w = t::chars_of(tail.as_str());
    let start: usize = match t::next_newline(&w, 0) {
        Some(i) => i + 1,
        None => 0,
    };
    let kept = t::string_of(&w, start, w.len());
    assert(kept@ =~= recent_lines(contents@, keep as nat));
    Some("[older transcript compacted]\n".to_owned().concat(kept.as_str()))
}

/// How many bytes the shorter transcript saves.
pub fn bytes_freed(before: &str, after: &str) -> (r: usize)
    ensures
        r == if vstd::utf8::encode_utf8(before@).len() as usize > vstd::utf8::encode_utf8(after@).len() as usize {
            vstd::utf8::encode_utf8(before@).len() as usize - vstd::utf8::encode_utf8(after@).len() as usize
        } else {
            0
        },
{
    let a: usize = before.len();
    let b: usize = after.len();
    if a > b {
        a - b
    } else {
        0
    }
}

pub open spec fn compact_words(freed: nat) -> Seq<char> {
    if freed == 0 {
        "Nothing to compact — the transcript is already within the live context window."@
    } else {
        "Compacted the stored transcript (freed ~"@ + t::decimal((freed + 1023) / 1024)
            + " KB). Recent context is preserved; durable facts live in memory + the wiki."@
    }
}

/// What `/compact` did: how many bytes it freed, or why it could not.
pub fn compact_text(outcome: Result<usize, &str>) -> (r: String)
    ensures
        r@ == match outcome {
            Ok(freed) => compact_words(freed as nat),
            Err(e) => "Couldn't compact the transcript: "@ + e@,
        },
{
    match outcome {
        Ok(freed) => if freed == 0 {
            "Nothing to compact — the transcript is already within the live context window.".to_owned()
        } else {
            let kb: u128 = (freed as u128 + 1023) / 1024;
            "Compacted the stored transcript (freed ~".to_owned().concat(t::u64_text(kb as u64).as_str()).concat(
                " KB). Recent context is preserved; durable facts live in memory + the wiki.",
            )
        },
        Err(e) => "Couldn't compact the transcript: ".to_owned().concat(e),
    }
}

/// What the heartbeat file of a channel says of it.
pub open spec fn presence_words(beat: Option<Tree>) -> Seq<char> {
    match beat {
        None => "not started"@,
        Some(x) => {
            let status = match x.text_at("status"@) {
                Some(s) => s,
                None => "unknown"@,
            };
            let at = match x.text_at("at"@) {
                Some(s) => s,
                None => "?"@,
            };
            status + " (last beat "@ + at + ")"@
        },
    }
}

/// The presence of a channel shows the heartbeat that was left last: its status
/// and its time.
pub proof fn law_the_presence_shows_the_heartbeat(
    agent_id: Seq<char>,
    status: Seq<char>,
    error: Option<Seq<char>>,
    at: Seq<char>,
)
    ensures
        presence_words(Some(telegram_state::heartbeat_tree(agent_id, status, error, at))) == status + " (last beat "@ + at
            + ")"@,
{
    reveal_strlit("agent_id");
    reveal_strlit("status");
    reveal_strlit("error");
    reveal_strlit("at");
    assert("agent_id"@.len() == 8 && "status"@.len() == 6 && "error"@.len() == 5 && "at"@.len() == 2);
    let tree = telegram_state::heartbeat_tree(agent_id, status, error, at);
    reveal_with_fuel(json::entry_from, 5);
    assert(tree.get("status"@) == Some(Tree::Text(status)));
    assert(tree.get("at"@) == Some(Tree::Text(at)));
}

pub fn presence_of(beat: Option<&Json>) -> (r: String)
    ensures
        r@ == presence_words(json::opt_tree(beat)),
{
    match beat {
        None => "not started".to_owned(),
        Some(x) => {
            let status = match x.text_at("status") {
                Some(s) => s,
                None => "unknown".to_owned(),
            };
            let at = match x.text_at("at") {
                Some(s) => s,
                None => "?".to_owned(),
            };
            status.concat(" (last beat ").concat(at.as_str()).concat(")")
        },
    }
}

/// The presence line for a heartbeat file, where one was read.
pub fn channel_presence(raw: Option<&str>) -> (r: String)
    ensures
        r@ == presence_words(
            match raw {
                Some(s) => json::parsed_json(s@),
                None => None,
            },
        ),
{
    match raw {
        None => presence_of(None),
        Some(s) => match parse_json(s) {
            Some(j) => presence_of(Some(&j)),
            None => presence_of(None),
        },
    }
}

/// What `/status` says.
pub struct StatusFacts<'a> {
    pub agent_id: &'a str,
    pub channel: &'a str,
    pub session_id: &'a str,
    pub presence: &'a str,
    pub harness: &'a str,
    pub os: &'a str,
    pub time: &'a str,
}

pub fn status_text(s: &ChannelSettings, f: &StatusFacts) -> (r: String)
    ensures
        r@ == "Status\n  agent: "@ + f.agent_id@ + "\n  channel: "@ + f.channel@ + " (session "@ + f.session_id@
            + ")\n  presence: "@ + f.presence@ + "\n  harness: "@ + f.harness@ + "\n  model: "@
            + settings::or_words(s@.model, "(harness default)"@) + "\n  reasoning: "@ + settings::or_words(
            s@.reasoning,
            "low (default)"@,
        ) + "\n  OS: "@ + f.os@ + "\n  time: "@ + f.time@ + "\n  idle: "@ + (if s@.idle {
            "on"@
        } else {
            "off"@
        }),
{
    "Status\n  agent: ".to_owned().concat(f.agent_id).concat("\n  channel: ").concat(f.channel).concat(
        " (session ",
    ).concat(f.session_id).concat(")\n  presence: ").concat(f.presence).concat("\n  harness: ").concat(
        f.harness,
    ).concat("\n  model: ").concat(or_text(&s.model, "(harness default)").as_str()).concat(
        "\n  reasoning: ",
    ).concat(or_text(&s.reasoning, "low (default)").as_str()).concat("\n  OS: ").concat(f.os).concat(
        "\n  time: ",
    ).concat(f.time).concat("\n  idle: ").concat(
        if s.idle {
            "on"
        } else {
            "off"
        },
    )
}

/// The skills that `/skill` can run.
pub open spec fn skills_words(names: Seq<Seq<char>>) -> Seq<char> {
    if names.len() == 0 {
        "Usage: /skill <name> [args]"@
    } else {
        "Usage: /skill <name> [args]\nSkills:\n"@ + t::joined(t::in_order(names), ", "@)
    }
}

pub fn skills_text(names: &Vec<String>) -> (r: String)
    ensures
        r@ == skills_words(t::texts(names@)),
{
    assert(t::texts(names@).len() == names@.len());
    if names.len() == 0 {
        "Usage: /skill <name> [args]".to_owned()
    } else {
        let sorted = t::sort_texts(names);
        "Usage: /skill <name> [args]\nSkills:\n".to_owned().concat(t::join(&sorted, ", ").as_str())
    }
}

/// The mode that a sub-task's record names; ephemeral where it names none.
pub open spec fn mode_in(record: Option<Tree>) -> Seq<char> {
    match record {
        Some(x) => match x.text_at("mode"@) {
            Some(m) => m,
            None => "ephemeral"@,
        },
        None => "ephemeral"@,
    }
}

pub fn record_mode(record: Option<&Json>) -> (r: String)
    ensures
        r@ == mode_in(json::opt_tree(record)),
{
    match record {
        Some(x) => match x.text_at("mode") {
            Some(m) => m,
            None => "ephemeral".to_owned(),
        },
        None => "ephemeral".to_owned(),
    }
}

/// One line for a sub-task: its id and the mode in its record, where the
/// record could be read.
pub fn subagent_line(id: &str, raw: Option<&str>) -> (r: String)
    ensures
        r@ == "  "@ + id@ + " ("@ + mode_in(
            match raw {
                Some(s) => json::parsed_json(s@),
                None => None,
            },
        ) + ")"@,
{
    let mode = match raw {
        Some(s) => match parse_json(s) {
            Some(j) => record_mode(Some(&j)),
            None => record_mode(None),
        },
        None => record_mode(None),
    };
    "  ".to_owned().concat(id).concat(" (").concat(mode.as_str()).concat(")")
}

pub open spec fn subagents_words(lines: Seq<Seq<char>>) -> Seq<char> {
    if lines.len() == 0 {
        "No sub-tasks dispatched yet. Run one with /emerge <task>."@
    } else {
        "Sub-tasks dispatched via /emerge (each runs as a turn and replies here):\n"@ + t::joined(
            t::in_order(lines),
            "\n"@,
        )
    }
}

pub fn subagents_text(lines: &Vec<String>) -> (r: String)
    ensures
        r@ == subagents_words(t::texts(lines@)),
{
    assert(t::texts(lines@).len() == lines@.len());
    if lines.len() == 0 {
        "No sub-tasks dispatched yet. Run one with /emerge <task>.".to_owned()
    } else {
        let sorted = t::sort_texts(lines);
        "Sub-tasks dispatched via /emerge (each runs as a turn and replies here):\n".to_owned().concat(
            t::join(&sorted, "\n").as_str(),
        )
    }
}

/// Whether a graph query can be made.
#[derive(Clone, Copy, Debug, PartialEq, Eq, Structural)]
pub enum GraphAccess {
    Disabled,
    NoToken,
    Open,
}

/// Why a graph query is not made, where it is not.
pub fn graph_query_refusal(access: GraphAccess) -> (r: Option<String>)
    ensures
        t::opt_view(r) == match access {
            GraphAccess::Disabled => Some("Knowledge graph is not enabled for this agent."@),
            GraphAccess::NoToken => Some("Knowledge graph service is not available (no graph token)."@),
            GraphAccess::Open => None,
        },
{
    match access {
        GraphAccess::Disabled => Some("Knowledge graph is not enabled for this agent.".to_owned()),
        GraphAccess::NoToken => Some("Knowledge graph service is not available (no graph token).".to_owned()),
        GraphAccess::Open => None,
    }
}

/// The answer to a graph query.
pub fn graph_query_text(rendered: &str) -> (r: String)
    ensures
        r@ == "GraphRAG (private + shared):\n"@ + t::shortened(rendered@, 3500),
{
    "GraphRAG (private + shared):\n".to_owned().concat(t::shorten(rendered, 3500).as_str())
}

/// What came of adding a note to the graph.
#[derive(Debug, PartialEq, Eq)]
pub enum GraphInsert {
    Unavailable,
    NotStaged { error: String },
    Failed { error: String },
    Added { graph: String, chunks: usize },
}

pub fn graph_insert_text(outcome: &GraphInsert) -> (r: String)
    ensures
        r@ == match outcome {
            GraphInsert::Unavailable => "Knowledge graph service is not available."@,
            GraphInsert::NotStaged { error } => "Could not stage note: "@ + error@,
            GraphInsert::Failed { error } => "Graph insert failed: "@ + error@,
            GraphInsert::Added { graph, chunks } => "Added to your memory graph `"@ + graph@ + "` ("@
                + t::decimal(*chunks as nat) + " chunk(s))."@,
        },
{
    match outcome {
        GraphInsert::Unavailable => "Knowledge graph service is not available.".to_owned(),
        GraphInsert::NotStaged { error } => "Could not stage note: ".to_owned().concat(error.as_str()),
        GraphInsert::Failed { error } => "Graph insert failed: ".to_owned().concat(error.as_str()),
        GraphInsert::Added { graph, chunks } => "Added to your memory graph `".to_owned().concat(
            graph.as_str(),
        ).concat("` (").concat(t::usize_text(*chunks).as_str()).concat(" chunk(s))."),
    }
}

// ---------------------------------------------------------------------------
// `/tools`
// ---------------------------------------------------------------------------

/// What an agent's specification says of its tools.
#[derive(Debug, PartialEq, Eq)]
pub struct ToolSpec {
    pub mcp_servers: Vec<String>,
    pub egress_allowlist: Vec<String>,
    pub egress_allow_all: bool,
    pub headless_chrome: bool,
    pub knowledge_graph: bool,
    pub image_gen: bool,
    pub self_forge: bool,
}

/// Whether some allowed host holds the text.
pub open spec fn allows(hosts: Seq<Seq<char>>, needle: Seq<char>) -> bool {
    exists|i: int| 0 <= i < hosts.len() && t::has(#[trigger] hosts[i], needle)
}

fn host_allows(hosts: &Vec<String>, needle: &str) -> (r: bool)
    ensures
        r == allows(t::texts(hosts@), needle@),
{
    let mut i: usize = 0;
    while i < hosts.len()
        invariant
            i <= hosts.len(),
            forall|k: int| 0 <= k < i ==> !t::has(#[trigger] t::texts(hosts@)[k], needle@),
        decreases hosts.len() - i,
    {
        assert(t::texts(hosts@)[i as int] == hosts@[i as int]@);
        if t::contains(hosts[i].as_str(), needle) {
            return true;
        }
        i += 1;
    }
    false
}

/// What an agent can do beyond its harness.
pub open spec fn capabilities(spec: ToolSpec) -> Seq<Seq<char>> {
    let hosts = t::texts(spec.egress_allowlist@);
    let a = t::added(Seq::empty(), spec.egress_allow_all, "open web (allow-all egress)"@);
    let b = t::added(a, allows(hosts, "brave"@) || allows(hosts, "tavily"@), "web search"@);
    let c = t::added(b, spec.headless_chrome, "browse (headless Chrome)"@);
    let d = t::added(c, spec.knowledge_graph, "knowledge graph (GraphRAG)"@);
    let e = t::added(d, spec.image_gen, "image generation"@);
    t::added(e, spec.self_forge, "self-forge (build WASM tools)"@)
}

pub fn capability_names(spec: &ToolSpec) -> (r: Vec<String>)
    ensures
        t::texts(r@) == capabilities(*spec),
{
    let mut v: Vec<String> = Vec::new();
    assert(t::texts(v@) =~= Seq::empty());
    let search = host_allows(&spec.egress_allowlist, "brave") || host_allows(&spec.egress_allowlist, "tavily");
    t::add_if(&mut v, spec.egress_allow_all, "open web (allow-all egress)");
    t::add_if(&mut v, search, "web search");
    t::add_if(&mut v, spec.headless_chrome, "browse (headless Chrome)");
    t::add_if(&mut v, spec.knowledge_graph, "knowledge graph (GraphRAG)");
    t::add_if(&mut v, spec.image_gen, "image generation");
    t::add_if(&mut v, spec.self_forge, "self-forge (build WASM tools)");
    v
}

/// The first line of a description.
pub open spec fn first_line(s: Seq<char>) -> Seq<char> {
    let lines = t::lines_of(s);
    if lines.len() > 0 {
        t::trimmed(lines[0])
    } else {
        t::trimmed(Seq::empty())
    }
}

fn first_line_text(s: &str) -> (r: String)
    ensures
        r@ == first_line(s@),
{
    let lines = t::lines(s);
    assert(t::texts(lines@).len() == lines@.len());
    if lines.len() > 0 {
        assert(t::texts(lines@)[0] == lines@[0]@);
        t::trim(lines[0].as_str())
    } else {
        t::trim(String::new().as_str())
    }
}

pub open spec fn tool_lines(v: Seq<(Seq<char>, Seq<char>)>, n: int) -> Seq<char>
    decreases n,
{
    if n <= 0 || n > v.len() {
        Seq::empty()
    } else {
        tool_lines(v, n - 1) + "  "@ + v[n - 1].0 + " — "@ + t::shortened(first_line(v[n - 1].1), 80) + "\n"@
    }
}

pub open spec fn runtime_tools(v: Seq<(Seq<char>, Seq<char>)>) -> Seq<char> {
    t::trimmed_end("Runtime (WASM) tools:\n"@ + tool_lines(v, v.len() as int))
}

fn runtime_tools_text(v: &Vec<(String, String)>) -> (r: String)
    ensures
        r@ == runtime_tools(settings::button_views(v@)),
{
    let ghost all = settings::button_views(v@);
    let mut lines = String::new();
    let mut i: usize = 0;
    while i < v.len()
        invariant
            i <= v.len(),
            all == settings::button_views(v@),
            lines@ == tool_lines(all, i as int),
        decreases v.len() - i,
    {
        assert(all[i as int] == (v@[i as int].0@, v@[i as int].1@));
        lines.append("  ");
        lines.append(v[i].0.as_str());
        lines.append(" — ");
        lines.append(t::shorten(first_line_text(v[i].1.as_str()).as_str(), 80).as_str());
        lines.append("\n");
        i += 1;
    }
    let text = "Runtime (WASM) tools:\n".to_owned().concat(lines.as_str());
    t::trim_end(text.as_str())
}

/// The sections of the answer to `/tools`: what the specification gives, where
/// it could be read, and the registered tools, as names and descriptions, or
/// why they could not be listed.
pub open spec fn tool_sections(
    spec: Option<ToolSpec>,
    tools: Result<Seq<(Seq<char>, Seq<char>)>, Seq<char>>,
) -> Seq<Seq<char>> {
    let a = match spec {
        None => Seq::empty(),
        Some(s) => {
            let servers = t::texts(s.mcp_servers@);
            let caps = capabilities(s);
            t::added(
                t::added(Seq::empty(), servers.len() > 0, "MCP servers: "@ + t::joined(servers, ", "@)),
                caps.len() > 0,
                "Capabilities: "@ + t::joined(caps, ", "@),
            )
        },
    };
    match tools {
        Ok(v) => t::added(a, v.len() > 0, runtime_tools(v)),
        Err(e) => a.push("Could not list runtime tools: "@ + e),
    }
}

pub open spec fn tools_words(sections: Seq<Seq<char>>) -> Seq<char> {
    if sections.len() == 0 {
        "No tools or capabilities configured for this agent yet."@
    } else {
        t::joined(sections, "\n"@)
    }
}

pub open spec fn tools_view(r: Result<Vec<(String, String)>, String>) -> Result<
    Seq<(Seq<char>, Seq<char>)>,
    Seq<char>,
> {
    match r {
        Ok(v) => Ok(settings::button_views(v@)),
        Err(e) => Err(e@),
    }
}

pub fn tools_text(spec: &Option<ToolSpec>, tools: &Result<Vec<(String, String)>, String>) -> (r: String)
    ensures
        r@ == tools_words(tool_sections(*spec, tools_view(*tools))),
{
    let mut sections: Vec<String> = Vec::new();
    assert(t::texts(sections@) =~= Seq::empty());
    match spec {
        Some(s) => {
            assert(t::texts(s.mcp_servers@).len() == s.mcp_servers@.len());
            let servers = "MCP servers: ".to_owned().concat(t::join(&s.mcp_servers, ", ").as_str());
            t::add_if(&mut sections, s.mcp_servers.len() > 0, servers.as_str());
            let caps = capability_names(s);
            assert(t::texts(caps@).len() == caps@.len());
            let line = "Capabilities: ".to_owned().concat(t::join(&caps, ", ").as_str());
            t::add_if(&mut sections, caps.len() > 0, line.as_str());
        },
        None => {},
    }
    match tools {
        Ok(v) => {
            let text = runtime_tools_text(v);
            t::add_if(&mut sections, v.len() > 0, text.as_str());
        },
        Err(e) => {
            let text = "Could not list runtime tools: ".to_owned().concat(e.as_str());
            t::add_if(&mut sections, true, text.as_str());
        },
    }
    assert(t::texts(sections@).len() == sections@.len());
    if sections.len() == 0 {
        "No tools or capabilities configured for this agent yet.".to_owned()
    } else {
        t::join(&sections, "\n")
    }
}

/// A setting is stored as it was given, and the answer names it; without a value
/// the current one is told and nothing is stored.
pub proof fn law_a_setting_is_stored_as_it_was_given(
    s: SettingsView,
    session_id: Seq<char>,
    args: Seq<char>,
    level: Seq<char>,
)
    ensures
        ({
            let set = |name: Seq<char>| command_step(s, session_id, name, args, level);
            let given = t::trimmed(args);
            &&& given.len() > 0 ==> set("model"@) == (CommandStepView::Save {
                settings: SettingsView { model: Some(given), ..s },
                text: "Model set to `"@ + given + "` (applies to new turns)."@,
            })
            &&& given.len() == 0 ==> set("model"@) is Reply
            &&& level == "low"@ || level == "medium"@ || level == "high"@ ==> (set("reasoning"@) matches
                CommandStep::Save { settings, .. } && settings == (SettingsView { reasoning: Some(level), ..s }))
            &&& level != "low"@ && level != "medium"@ && level != "high"@ ==> set("reasoning"@) is Reply
            &&& given.len() > 0 ==> set("tts-provider"@) == (CommandStepView::Save {
                settings: SettingsView { tts_provider: Some(given), ..s },
                text: "TTS provider set to `"@ + given + "`."@,
            })
            &&& given.len() == 0 ==> set("tts-provider"@) is Reply
            &&& set("tts"@) matches CommandStep::Save { settings, .. } && settings == (SettingsView {
                tts_enabled: !s.tts_enabled,
                ..s
            })
            &&& first_word(args) == "idle"@ ==> (set("session"@) matches CommandStep::Save { settings, .. } && settings
                == (SettingsView { idle: true, ..s }))
            &&& first_word(args) == "active"@ || first_word(args) == "wake"@ ==> (set("session"@) matches
                CommandStep::Save { settings, .. } && settings == (SettingsView { idle: false, ..s }))
            &&& first_word(args) != "idle"@ && first_word(args) != "active"@ && first_word(args) != "wake"@ ==> set(
                "session"@,
            ) is Reply
        }),
{
    reveal_strlit("commands");
    reveal_strlit("tools");
    reveal_strlit("subagents");
    reveal_strlit("models");
    reveal_strlit("model");
    reveal_strlit("reasoning");
    reveal_strlit("reset");
    reveal_strlit("stop");
    reveal_strlit("compact");
    reveal_strlit("session");
    reveal_strlit("tts");
    reveal_strlit("tts-provider");
    reveal_strlit("graph-query");
    reveal_strlit("graph-insert");
    reveal_strlit("emerge");
    reveal_strlit("skill");
    reveal_strlit("loop");
    reveal_strlit("idle");
    reveal_strlit("active");
    reveal_strlit("wake");
    reveal_strlit("low");
    reveal_strlit("medium");
    reveal_strlit("high");
    assert("commands"@.len() == 8 && "commands"@[0] == 'c' && "commands"@[1] == 'o' && "commands"@[2] == 'm' && "commands"@[3] == 'm' && "commands"@[4] == 'a' && "commands"@[5] == 'n');
    assert("tools"@.len() == 5 && "tools"@[0] == 't' && "tools"@[1] == 'o' && "tools"@[2] == 'o' && "tools"@[3] == 'l' && "tools"@[4] == 's');
    assert("subagents"@.len() == 9 && "subagents"@[0] == 's' && "subagents"@[1] == 'u' && "subagents"@[2] == 'b' && "subagents"@[3] == 'a' && "subagents"@[4] == 'g' && "subagents"@[5] == 'e');
    assert("models"@.len() == 6 && "models"@[0] == 'm' && "models"@[1] == 'o' && "models"@[2] == 'd' && "models"@[3] == 'e' && "models"@[4] == 'l' && "models"@[5] == 's');
    assert("model"@.len() == 5 && "model"@[0] == 'm' && "model"@[1] == 'o' && "model"@[2] == 'd' && "model"@[3] == 'e' && "model"@[4] == 'l');
    assert("reasoning"@.len() == 9 && "reasoning"@[0] == 'r' && "reasoning"@[1] == 'e' && "reasoning"@[2] == 'a' && "reasoning"@[3] == 's' && "reasoning"@[4] == 'o' && "reasoning"@[5] == 'n');
    assert("reset"@.len() == 5 && "reset"@[0] == 'r' && "reset"@[1] == 'e' && "reset"@[2] == 's' && "reset"@[3] == 'e' && "reset"@[4] == 't');
    assert("stop"@.len() == 4 && "stop"@[0] == 's' && "stop"@[1] == 't' && "stop"@[2] == 'o' && "stop"@[3] == 'p');
    assert("compact"@.len() == 7 && "compact"@[0] == 'c' && "compact"@[1] == 'o' && "compact"@[2] == 'm' && "compact"@[3] == 'p' && "compact"@[4] == 'a' && "compact"@[5] == 'c');
    assert("session"@.len() == 7 && "session"@[0] == 's' && "session"@[1] == 'e' && "session"@[2] == 's' && "session"@[3] == 's' && "session"@[4] == 'i' && "session"@[5] == 'o');
    assert("tts"@.len() == 3 && "tts"@[0] == 't' && "tts"@[1] == 't' && "tts"@[2] == 's');
    assert("tts-provider"@.len() == 12 && "tts-provider"@[0] == 't' && "tts-provider"@[1] == 't' && "tts-provider"@[2] == 's' && "tts-provider"@[3] == '-' && "tts-provider"@[4] == 'p' && "tts-provider"@[5] == 'r');
    assert("graph-query"@.len() == 11 && "graph-query"@[0] == 'g' && "graph-query"@[1] == 'r' && "graph-query"@[2] == 'a' && "graph-query"@[3] == 'p' && "graph-query"@[4] == 'h' && "graph-query"@[5] == '-');
    assert("graph-insert"@.len() == 12 && "graph-insert"@[0] == 'g' && "graph-insert"@[1] == 'r' && "graph-insert"@[2] == 'a' && "graph-insert"@[3] == 'p' && "graph-insert"@[4] == 'h' && "graph-insert"@[5] == '-');
    assert("emerge"@.len() == 6 && "emerge"@[0] == 'e' && "emerge"@[1] == 'm' && "emerge"@[2] == 'e' && "emerge"@[3] == 'r' && "emerge"@[4] == 'g' && "emerge"@[5] == 'e');
    assert("skill"@.len() == 5 && "skill"@[0] == 's' && "skill"@[1] == 'k' && "skill"@[2] == 'i' && "skill"@[3] == 'l' && "skill"@[4] == 'l');
    assert("loop"@.len() == 4 && "loop"@[0] == 'l' && "loop"@[1] == 'o' && "loop"@[2] == 'o' && "loop"@[3] == 'p');
    assert("idle"@.len() == 4 && "idle"@[0] == 'i' && "idle"@[1] == 'd' && "idle"@[2] == 'l' && "idle"@[3] == 'e');
    assert("active"@.len() == 6 && "active"@[0] == 'a' && "active"@[1] == 'c' && "active"@[2] == 't' && "active"@[3] == 'i' && "active"@[4] == 'v' && "active"@[5] == 'e');
    assert("wake"@.len() == 4 && "wake"@[0] == 'w' && "wake"@[1] == 'a' && "wake"@[2] == 'k' && "wake"@[3] == 'e');
    assert("low"@.len() == 3 && "low"@[0] == 'l' && "low"@[1] == 'o' && "low"@[2] == 'w');
    assert("medium"@.len() == 6 && "medium"@[0] == 'm' && "medium"@[1] == 'e' && "medium"@[2] == 'd' && "medium"@[3] == 'i' && "medium"@[4] == 'u' && "medium"@[5] == 'm');
    assert("high"@.len() == 4 && "high"@[0] == 'h' && "high"@[1] == 'i' && "high"@[2] == 'g' && "high"@[3] == 'h');
    let levels = settings::reasoning_levels();
    assert(levels[0] == "low"@ && levels[1] == "medium"@ && levels[2] == "high"@);
    if levels.contains(level) {
        let k = choose|k: int| 0 <= k < levels.len() && levels[k] == level;
        assert(k == 0 || k == 1 || k == 2);
    }
}

/// A command is looked up or done as its name says, with its words as they were
/// given.
pub proof fn law_a_command_is_done_as_its_name_says(
    s: SettingsView,
    session_id: Seq<char>,
    args: Seq<char>,
    level: Seq<char>,
)
    ensures
        ({
            let step = |name: Seq<char>| command_step(s, session_id, name, args, level);
            &&& step("tools"@) is Tools
            &&& step("subagents"@) is Subagents
            &&& step("models"@) is Models
            &&& step("reset"@) is Reset
            &&& step("stop"@) is Stop
            &&& step("compact"@) is Compact
            &&& step("skill"@) is Skills
            &&& step("loop"@) == (CommandStepView::Loop { args })
            &&& t::trimmed(args).len() > 0 ==> step("graph-query"@) == (CommandStepView::GraphQuery { terms: args })
            &&& t::trimmed(args).len() > 0 ==> step("graph-insert"@) == (CommandStepView::GraphInsert { note: args })
            &&& t::trimmed(args).len() == 0 ==> step("graph-query"@) is Reply && step("graph-insert"@) is Reply
        }),
{
    reveal_strlit("commands");
    reveal_strlit("tools");
    reveal_strlit("subagents");
    reveal_strlit("models");
    reveal_strlit("model");
    reveal_strlit("reasoning");
    reveal_strlit("reset");
    reveal_strlit("stop");
    reveal_strlit("compact");
    reveal_strlit("session");
    reveal_strlit("tts");
    reveal_strlit("tts-provider");
    reveal_strlit("graph-query");
    reveal_strlit("graph-insert");
    reveal_strlit("emerge");
    reveal_strlit("skill");
    reveal_strlit("loop");
    reveal_strlit("idle");
    reveal_strlit("active");
    reveal_strlit("wake");
    reveal_strlit("low");
    reveal_strlit("medium");
    reveal_strlit("high");
    assert("commands"@.len() == 8 && "commands"@[0] == 'c' && "commands"@[1] == 'o' && "commands"@[2] == 'm' && "commands"@[3] == 'm' && "commands"@[4] == 'a' && "commands"@[5] == 'n');
    assert("tools"@.len() == 5 && "tools"@[0] == 't' && "tools"@[1] == 'o' && "tools"@[2] == 'o' && "tools"@[3] == 'l' && "tools"@[4] == 's');
    assert("subagents"@.len() == 9 && "subagents"@[0] == 's' && "subagents"@[1] == 'u' && "subagents"@[2] == 'b' && "subagents"@[3] == 'a' && "subagents"@[4] == 'g' && "subagents"@[5] == 'e');
    assert("models"@.len() == 6 && "models"@[0] == 'm' && "models"@[1] == 'o' && "models"@[2] == 'd' && "models"@[3] == 'e' && "models"@[4] == 'l' && "models"@[5] == 's');
    assert("model"@.len() == 5 && "model"@[0] == 'm' && "model"@[1] == 'o' && "model"@[2] == 'd' && "model"@[3] == 'e' && "model"@[4] == 'l');
    assert("reasoning"@.len() == 9 && "reasoning"@[0] == 'r' && "reasoning"@[1] == 'e' && "reasoning"@[2] == 'a' && "reasoning"@[3] == 's' && "reasoning"@[4] == 'o' && "reasoning"@[5] == 'n');
    assert("reset"@.len() == 5 && "reset"@[0] == 'r' && "reset"@[1] == 'e' && "reset"@[2] == 's' && "reset"@[3] == 'e' && "reset"@[4] == 't');
    assert("stop"@.len() == 4 && "stop"@[0] == 's' && "stop"@[1] == 't' && "stop"@[2] == 'o' && "stop"@[3] == 'p');
    assert("compact"@.len() == 7 && "compact"@[0] == 'c' && "compact"@[1] == 'o' && "compact"@[2] == 'm' && "compact"@[3] == 'p' && "compact"@[4] == 'a' && "compact"@[5] == 'c');
    assert("session"@.len() == 7 && "session"@[0] == 's' && "session"@[1] == 'e' && "session"@[2] == 's' && "session"@[3] == 's' && "session"@[4] == 'i' && "session"@[5] == 'o');
    assert("tts"@.len() == 3 && "tts"@[0] == 't' && "tts"@[1] == 't' && "tts"@[2] == 's');
    assert("tts-provider"@.len() == 12 && "tts-provider"@[0] == 't' && "tts-provider"@[1] == 't' && "tts-provider"@[2] == 's' && "tts-provider"@[3] == '-' && "tts-provider"@[4] == 'p' && "tts-provider"@[5] == 'r');
    assert("graph-query"@.len() == 11 && "graph-query"@[0] == 'g' && "graph-query"@[1] == 'r' && "graph-query"@[2] == 'a' && "graph-query"@[3] == 'p' && "graph-query"@[4] == 'h' && "graph-query"@[5] == '-');
    assert("graph-insert"@.len() == 12 && "graph-insert"@[0] == 'g' && "graph-insert"@[1] == 'r' && "graph-insert"@[2] == 'a' && "graph-insert"@[3] == 'p' && "graph-insert"@[4] == 'h' && "graph-insert"@[5] == '-');
    assert("emerge"@.len() == 6 && "emerge"@[0] == 'e' && "emerge"@[1] == 'm' && "emerge"@[2] == 'e' && "emerge"@[3] == 'r' && "emerge"@[4] == 'g' && "emerge"@[5] == 'e');
    assert("skill"@.len() == 5 && "skill"@[0] == 's' && "skill"@[1] == 'k' && "skill"@[2] == 'i' && "skill"@[3] == 'l' && "skill"@[4] == 'l');
    assert("loop"@.len() == 4 && "loop"@[0] == 'l' && "loop"@[1] == 'o' && "loop"@[2] == 'o' && "loop"@[3] == 'p');
    assert("idle"@.len() == 4 && "idle"@[0] == 'i' && "idle"@[1] == 'd' && "idle"@[2] == 'l' && "idle"@[3] == 'e');
    assert("active"@.len() == 6 && "active"@[0] == 'a' && "active"@[1] == 'c' && "active"@[2] == 't' && "active"@[3] == 'i' && "active"@[4] == 'v' && "active"@[5] == 'e');
    assert("wake"@.len() == 4 && "wake"@[0] == 'w' && "wake"@[1] == 'a' && "wake"@[2] == 'k' && "wake"@[3] == 'e');
    assert("low"@.len() == 3 && "low"@[0] == 'l' && "low"@[1] == 'o' && "low"@[2] == 'w');
    assert("medium"@.len() == 6 && "medium"@[0] == 'm' && "medium"@[1] == 'e' && "medium"@[2] == 'd' && "medium"@[3] == 'i' && "medium"@[4] == 'u' && "medium"@[5] == 'm');
    assert("high"@.len() == 4 && "high"@[0] == 'h' && "high"@[1] == 'i' && "high"@[2] == 'g' && "high"@[3] == 'h');
}

/// A transcript that is too long keeps its end, from a line on; one that is short
/// enough stays.
pub proof fn law_a_transcript_keeps_its_end(contents: Seq<char>, keep: nat)
    ensures
        contents.len() <= keep <==> compacted(contents, keep) is None,
        compacted(contents, keep) matches Some(kept) ==> {
            &&& t::starts(kept, "[older transcript compacted]\n"@)
            &&& exists|a: int|
                contents.len() - keep <= a <= contents.len() && #[trigger] contents.skip(a) == kept.skip(
                    "[older transcript compacted]\n"@.len() as int,
                ) && (a == contents.len() - keep || contents[a - 1] == '\n')
        },
{
    if contents.len() > keep {
        let head = "[older transcript compacted]\n"@;
        let from = contents.len() - keep;
        let tail = contents.skip(from);
        let kept = head + recent_lines(contents, keep);
        assert(kept.subrange(0, head.len() as int) =~= head);
        assert(kept.skip(head.len() as int) =~= recent_lines(contents, keep));
        lemma_next_char(tail, '\n', 0);
        match t::next_char(tail, '\n', 0) {
            Some(i) => {
                assert(tail.skip(i + 1) =~= contents.skip(from + i + 1));
                assert(contents[from + i] == '\n');
                assert(contents.skip(from + i + 1) == kept.skip(head.len() as int));
            },
            None => {
                assert(contents.skip(from) == kept.skip(head.len() as int));
            },
        }
    }
}

proof fn lemma_next_char(s: Seq<char>, c: char, i: int)
    requires
        0 <= i,
    ensures
        t::next_char(s, c, i) matches Some(k) ==> i <= k < s.len() && s[k] == c,
    decreases s.len() - i,
{
    if i < s.len() && s[i] != c {
        lemma_next_char(s, c, i + 1);
    }
}

/// What a stop did is told: how many messages were dropped, and that a reply in
/// progress ends.
pub proof fn law_a_stop_tells_what_it_did(queued: nat, in_progress: nat)
    ensures
        queued == 0 && in_progress == 0 <==> stop_words(queued, in_progress)
            == "Nothing to stop — nothing is queued or in progress."@,
        queued == 1 && in_progress == 0 ==> stop_words(queued, in_progress) == "Stopped "@ + t::decimal(queued)
            + " queued message"@ + ""@ + "."@,
        queued > 1 && in_progress == 0 ==> stop_words(queued, in_progress) == "Stopped "@ + t::decimal(queued)
            + " queued message"@ + "s"@ + "."@,
        queued == 0 && in_progress > 0 ==> stop_words(queued, in_progress) == "Stopping the reply in progress…"@,
        queued > 0 && in_progress > 0 ==> t::starts(
            stop_words(queued, in_progress),
            "Stopping the reply in progress and dropped "@ + t::decimal(queued) + " queued message"@,
        ),
{
    reveal_strlit("Nothing to stop — nothing is queued or in progress.");
    reveal_strlit("Stopped ");
    reveal_strlit("Stopping the reply in progress…");
    reveal_strlit("Stopping the reply in progress and dropped ");
    let none = "Nothing to stop — nothing is queued or in progress."@;
    assert(none[0] == 'N');
    let said = stop_words(queued, in_progress);
    if queued > 0 && in_progress == 0 {
        assert(said[0] == "Stopped "@[0]);
    } else if queued == 0 && in_progress > 0 {
        assert(said[0] == 'S');
    } else if queued > 0 {
        assert(said[0] == "Stopping the reply in progress and dropped "@[0]);
        let front = "Stopping the reply in progress and dropped "@ + t::decimal(queued) + " queued message"@;
        assert(said.subrange(0, front.len() as int) =~= front);
    }
}

/// What an agent can do is listed where its description gives it, and only there.
pub proof fn law_a_capability_is_listed_where_it_is_given(spec: ToolSpec)
    ensures
        ({
            let caps = capabilities(spec);
            &&& spec.egress_allow_all ==> caps.contains("open web (allow-all egress)"@)
            &&& spec.headless_chrome ==> caps.contains("browse (headless Chrome)"@)
            &&& spec.knowledge_graph ==> caps.contains("knowledge graph (GraphRAG)"@)
            &&& spec.image_gen ==> caps.contains("image generation"@)
            &&& spec.self_forge ==> caps.contains("self-forge (build WASM tools)"@)
            &&& allows(t::texts(spec.egress_allowlist@), "brave"@) || allows(
                t::texts(spec.egress_allowlist@),
                "tavily"@,
            ) ==> caps.contains("web search"@)
            &&& !spec.egress_allow_all && !spec.headless_chrome && !spec.knowledge_graph && !spec.image_gen
                && !spec.self_forge && !allows(t::texts(spec.egress_allowlist@), "brave"@) && !allows(
                t::texts(spec.egress_allowlist@),
                "tavily"@,
            ) ==> caps.len() == 0
        }),
{
    let hosts = t::texts(spec.egress_allowlist@);
    let a = t::added(Seq::empty(), spec.egress_allow_all, "open web (allow-all egress)"@);
    let b = t::added(a, allows(hosts, "brave"@) || allows(hosts, "tavily"@), "web search"@);
    let c = t::added(b, spec.headless_chrome, "browse (headless Chrome)"@);
    let d = t::added(c, spec.knowledge_graph, "knowledge graph (GraphRAG)"@);
    let e = t::added(d, spec.image_gen, "image generation"@);
    let f = t::added(e, spec.self_forge, "self-forge (build WASM tools)"@);
    lemma_added(Seq::empty(), spec.egress_allow_all, "open web (allow-all egress)"@);
    lemma_added(a, allows(hosts, "brave"@) || allows(hosts, "tavily"@), "web search"@);
    lemma_added(b, spec.headless_chrome, "browse (headless Chrome)"@);
    lemma_added(c, spec.knowledge_graph, "knowledge graph (GraphRAG)"@);
    lemma_added(d, spec.image_gen, "image generation"@);
    lemma_added(e, spec.self_forge, "self-forge (build WASM tools)"@);
}

proof fn lemma_added(v: Seq<Seq<char>>, b: bool, s: Seq<char>)
    ensures
        b ==> t::added(v, b, s).contains(s),
        forall|x: Seq<char>| v.contains(x) ==> #[trigger] t::added(v, b, s).contains(x),
        t::added(v, b, s).len() == v.len() + if b {
            1int
        } else {
            0
        },
{
    let r = t::added(v, b, s);
    if b {
        assert(r[v.len() as int] == s);
    }
    assert forall|x: Seq<char>| v.contains(x) implies #[trigger] r.contains(x) by {
        let k = choose|k: int| 0 <= k < v.len() && v[k] == x;
        assert(r[k] == x);
    }
}

/// The parts of the answer about tools: the servers, the capabilities and the
/// tools that are registered, each where there are any.
pub proof fn law_the_tools_of_an_agent_are_listed(
    spec: ToolSpec,
    tools: Seq<(Seq<char>, Seq<char>)>,
    error: Seq<char>,
)
    ensures
        ({
            let all = tool_sections(Some(spec), Ok(tools));
            let servers = t::texts(spec.mcp_servers@);
            &&& servers.len() > 0 ==> all.contains("MCP servers: "@ + t::joined(servers, ", "@))
            &&& capabilities(spec).len() > 0 ==> all.contains("Capabilities: "@ + t::joined(capabilities(spec), ", "@))
            &&& tools.len() > 0 ==> all.contains(runtime_tools(tools))
            &&& tool_sections(Some(spec), Err(error)).contains("Could not list runtime tools: "@ + error)
        }),
{
    let servers = t::texts(spec.mcp_servers@);
    let caps = capabilities(spec);
    let x = "MCP servers: "@ + t::joined(servers, ", "@);
    let y = "Capabilities: "@ + t::joined(caps, ", "@);
    let a = t::added(Seq::empty(), servers.len() > 0, x);
    let b = t::added(a, caps.len() > 0, y);
    lemma_added(Seq::empty(), servers.len() > 0, x);
    lemma_added(a, caps.len() > 0, y);
    lemma_added(b, tools.len() > 0, runtime_tools(tools));
    let failed = b.push("Could not list runtime tools: "@ + error);
    assert(failed[b.len() as int] == "Could not list runtime tools: "@ + error);
}

} // verus!
