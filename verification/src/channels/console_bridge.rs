//! Slash commands from the console and the web, and the console's transcript.

use crate::channels::command_catalog;
use crate::channels::command_catalog::help_text;
use crate::channels::command_handler;
use crate::channels::command_handler::CommandStep;
use crate::channels::onboarding::onboarding_prompt;
use crate::channels::routing;
use crate::channels::routing::{skill_prompt_text, split_head};
use crate::channels::settings;
use crate::channels::settings::{command_selector_buttons, ChannelSettings, SettingsView};
use crate::channels::subagents;
use crate::channels::subagents::{frame_subtask, slugify_channel_id};
use crate::text as t;
use vstd::prelude::*;
use vstd::string::*;

verus! {

/// What the console does about a command. An option of a selection has a label
/// and the data that is applied when it is picked.
#[derive(Debug, PartialEq, Eq)]
pub enum ConsoleCommand<S, O> {
    Reply { text: S },
    Prompt { text: S },
    Clear,
    NewSession,
    Quit,
    Select { title: S, options: O },
}

pub type ConsoleOptions = Vec<(String, String)>;

pub type ConsoleCommandView = ConsoleCommand<Seq<char>, Seq<(Seq<char>, Seq<char>)>>;

impl View for ConsoleCommand<String, ConsoleOptions> {
    type V = ConsoleCommandView;

    open spec fn view(&self) -> ConsoleCommandView {
        match self {
            ConsoleCommand::Reply { text } => ConsoleCommand::Reply { text: text@ },
            ConsoleCommand::Prompt { text } => ConsoleCommand::Prompt { text: text@ },
            ConsoleCommand::Clear => ConsoleCommand::Clear,
            ConsoleCommand::NewSession => ConsoleCommand::NewSession,
            ConsoleCommand::Quit => ConsoleCommand::Quit,
            ConsoleCommand::Select { title, options } => ConsoleCommand::Select {
                title: title@,
                options: settings::button_views(options@),
            },
        }
    }
}

/// What a slash command comes to: something the console does at once, or
/// something to be done or looked up first.
#[derive(Debug, PartialEq, Eq)]
pub enum ConsoleStep<S, C> {
    Done { command: C },
    /// Forget the conversation, then start a new session.
    Reset,
    Status,
    /// The last reply is rated up or down.
    Feedback { up: bool },
    /// Note the sub-task, then send its prompt.
    Subtask { name: S, task: S, prompt: S },
    /// Mark the interview as begun, then send its prompt.
    Onboard { prompt: S },
    /// Ask the command handler.
    Channel { name: S, args: S },
}

pub type ConsoleStepView = ConsoleStep<Seq<char>, ConsoleCommandView>;

impl View for ConsoleStep<String, ConsoleCommand<String, ConsoleOptions>> {
    type V = ConsoleStepView;

    open spec fn view(&self) -> ConsoleStepView {
        match self {
            ConsoleStep::Done { command } => ConsoleStep::Done { command: command@ },
            ConsoleStep::Reset => ConsoleStep::Reset,
            ConsoleStep::Status => ConsoleStep::Status,
            ConsoleStep::Feedback { up } => ConsoleStep::Feedback { up: *up },
            ConsoleStep::Subtask { name, task, prompt } => ConsoleStep::Subtask {
                name: name@,
                task: task@,
                prompt: prompt@,
            },
            ConsoleStep::Onboard { prompt } => ConsoleStep::Onboard { prompt: prompt@ },
            ConsoleStep::Channel { name, args } => ConsoleStep::Channel { name: name@, args: args@ },
        }
    }
}

/// The name of a command: without slashes in front, in lower case, an
/// underscore for a hyphen.
pub open spec fn command_name(head: Seq<char>) -> Seq<char> {
    t::lower(t::replaced(t::trim_start_by(head, (t::Trim::One { c: '/' }).pred()), "_"@, "-"@))
}

fn command_name_text(head: &str) -> (r: String)
    ensures
        r@ == command_name(head@),
{
    proof {
        reveal_strlit("_");
    }
    let bare = t::trim_start_matches(head, &t::Trim::One { c: '/' });
    let name = t::replace(bare.as_str(), "_", "-");
    t::to_lower(name.as_str())
}

/// The name and the arguments of a command.
pub fn split_command(raw: &str) -> (r: (String, String))
    ensures
        ({
            let (head, args) = routing::head_and_rest(t::trimmed(raw@));
            r.0@ == command_name(head) && r.1@ == args
        }),
{
    let trimmed = t::trim(raw);
    let (head, args) = split_head(trimmed.as_str());
    (command_name_text(head.as_str()), args)
}

/// The commands that open a selection when they come without a value.
pub open spec fn picks(name: Seq<char>) -> bool {
    name == "model"@ || name == "models"@ || name == "reasoning"@ || name == "tts-provider"@ || name == "session"@
}

pub open spec fn named_step(
    s: SettingsView,
    models: Seq<Seq<char>>,
    name: Seq<char>,
    args: Seq<char>,
) -> ConsoleStepView {
    if name == "help"@ || name == "start"@ {
        ConsoleStep::Done {
            command: ConsoleCommand::Reply {
                text: command_catalog::help_words()
                    + "\n\nKeys: Enter send · Alt+Enter newline · PgUp/PgDn scroll · / menu · Esc interrupts a reply · Ctrl+C quits."@,
            },
        }
    } else if name == "clear"@ {
        ConsoleStep::Done { command: ConsoleCommand::Clear }
    } else if name == "quit"@ || name == "exit"@ {
        ConsoleStep::Done { command: ConsoleCommand::Quit }
    } else if name == "new"@ || name == "reset"@ {
        ConsoleStep::Reset
    } else if name == "status"@ {
        ConsoleStep::Status
    } else if name == "good"@ {
        ConsoleStep::Feedback { up: true }
    } else if name == "bad"@ {
        ConsoleStep::Feedback { up: false }
    } else if name == "skill"@ && args.len() > 0 {
        ConsoleStep::Done { command: ConsoleCommand::Prompt { text: routing::skill_prompt(args) } }
    } else if name == "emerge"@ && args.len() > 0 {
        ConsoleStep::Subtask {
            name: subagents::slug_of(args),
            task: args,
            prompt: subagents::framed(subagents::slug_of(args), args),
        }
    } else if name == "onboard"@ {
        ConsoleStep::Onboard { prompt: crate::channels::onboarding::first_contact() }
    } else if picks(name) && args.len() == 0 {
        match settings::choices_of(s, models, name) {
            Some(c) => ConsoleStep::Done {
                command: ConsoleCommand::Select { title: c.prompt, options: c.buttons },
            },
            None => ConsoleStep::Channel { name, args },
        }
    } else {
        ConsoleStep::Channel { name, args }
    }
}

/// What a line from the console asks for.
pub open spec fn console_step(s: SettingsView, models: Seq<Seq<char>>, raw: Seq<char>) -> ConsoleStepView {
    let (head, args) = routing::head_and_rest(t::trimmed(raw));
    named_step(s, models, command_name(head), args)
}

fn selection_step(s: &ChannelSettings, models: &Vec<String>, name: String, args: String) -> (r: ConsoleStep<
    String,
    ConsoleCommand<String, ConsoleOptions>,
>)
    ensures
        r@ == match settings::choices_of(s@, t::texts(models@), name@) {
            Some(c) => ConsoleStep::Done {
                command: ConsoleCommand::Select { title: c.prompt, options: c.buttons },
            },
            None => ConsoleStep::Channel { name: name@, args: args@ },
        },
{
    match command_selector_buttons(s, models, name.as_str()) {
        Some(c) => ConsoleStep::Done {
            command: ConsoleCommand::Select { title: c.prompt, options: c.buttons },
        },
        None => ConsoleStep::Channel { name, args },
    }
}

/// Reads a slash command; `models` are the models on offer.
pub fn dispatch_slash_command(s: &ChannelSettings, models: &Vec<String>, raw: &str) -> (r: ConsoleStep<
    String,
    ConsoleCommand<String, ConsoleOptions>,
>)
    ensures
        r@ == console_step(s@, t::texts(models@), raw@),
{
    let (name, args) = split_command(raw);
    let n = name.as_str();
    let bare = args.as_str().is_empty();
    if t::same(n, "help") || t::same(n, "start") {
        ConsoleStep::Done {
            command: ConsoleCommand::Reply {
                text: help_text().concat(
                    "\n\nKeys: Enter send · Alt+Enter newline · PgUp/PgDn scroll · / menu · Esc interrupts a reply · Ctrl+C quits.",
                ),
            },
        }
    } else if t::same(n, "clear") {
        ConsoleStep::Done { command: ConsoleCommand::Clear }
    } else if t::same(n, "quit") || t::same(n, "exit") {
        ConsoleStep::Done { command: ConsoleCommand::Quit }
    } else if t::same(n, "new") || t::same(n, "reset") {
        ConsoleStep::Reset
    } else if t::same(n, "status") {
        ConsoleStep::Status
    } else if t::same(n, "good") {
        ConsoleStep::Feedback { up: true }
    } else if t::same(n, "bad") {
        ConsoleStep::Feedback { up: false }
    } else if t::same(n, "skill") && !bare {
        ConsoleStep::Done { command: ConsoleCommand::Prompt { text: skill_prompt_text(args.as_str()) } }
    } else if t::same(n, "emerge") && !bare {
        let sub = slugify_channel_id(args.as_str());
        let prompt = frame_subtask(sub.as_str(), args.as_str());
        ConsoleStep::Subtask { name: sub, task: args, prompt }
    } else if t::same(n, "onboard") {
        ConsoleStep::Onboard { prompt: onboarding_prompt() }
    } else if (t::same(n, "model") || t::same(n, "models") || t::same(n, "reasoning") || t::same(
        n,
        "tts-provider",
    ) || t::same(n, "session")) && bare {
        selection_step(s, models, name, args)
    } else {
        ConsoleStep::Channel { name, args }
    }
}

/// The names that some surface answers.
pub open spec fn known(name: Seq<char>) -> bool {
    ||| name == "help"@ || name == "start"@ || name == "clear"@ || name == "quit"@ || name == "exit"@
    ||| name == "new"@ || name == "reset"@ || name == "status"@ || name == "good"@ || name == "bad"@
    ||| name == "onboard"@ || name == "commands"@ || name == "tools"@ || name == "subagents"@
    ||| name == "models"@ || name == "model"@ || name == "reasoning"@ || name == "stop"@
    ||| name == "compact"@ || name == "session"@ || name == "tts"@ || name == "tts-provider"@
    ||| name == "graph-query"@ || name == "graph-insert"@ || name == "emerge"@ || name == "skill"@
    ||| name == "loop"@
}

/// A command that nothing knows goes to the command handler, which says so.
pub proof fn law_an_unknown_command_is_reported(
    s: SettingsView,
    models: Seq<Seq<char>>,
    session_id: Seq<char>,
    name: Seq<char>,
    args: Seq<char>,
    level: Seq<char>,
)
    requires
        !known(name),
    ensures
        named_step(s, models, name, args) == (ConsoleStepView::Channel { name, args }),
        command_handler::command_step(s, session_id, name, args, level) == (
        command_handler::CommandStepView::Reply { text: "Unknown command `/"@ + name + "`. Try /help."@ }),
{
}

proof fn lemma_no_underscore(s: Seq<char>)
    requires
        forall|i: int| 0 <= i < s.len() ==> s[i] != '_',
    ensures
        t::replaced(s, "_"@, "-"@) == s,
{
    reveal_strlit("_");
    assert(t::find(s, "_"@) is None) by {
        if t::find(s, "_"@) is Some {
            t::lemma_find_has(s, "_"@);
            let i = choose|i: int| t::occurs_at(s, "_"@, i);
            assert(s.subrange(i, i + 1)[0] == s[i]);
        }
    }
    assert(t::pieces(s, "_"@) =~= seq![s]);
    assert(t::joined(seq![s], "-"@) == s) by {
        reveal_with_fuel(t::joined, 2);
    }
}

proof fn lemma_command_name(name: Seq<char>)
    requires
        name.len() > 1,
        name[0] == '/',
        forall|i: int| 1 <= i < name.len() ==> name[i] != '/' && name[i] != '_' && !t::ascii_upper(name[i]),
    ensures
        command_name(name) == name.skip(1),
{
    let p = (t::Trim::One { c: '/' }).pred();
    let rest = name.skip(1);
    assert(rest[0] == name[1]);
    assert(t::trim_start_by(name, p) == rest) by {
        reveal_with_fuel(t::trim_start_by, 3);
        assert(name.skip(1) == rest);
    }
    lemma_no_underscore(rest);
    assert(t::lower(rest) =~= rest);
}

/// Whether a name of the catalog, as it is typed, is a known command.
pub open spec fn is_known_as_typed(name: Seq<char>) -> bool {
    known(command_name(name))
}

proof fn lemma_session_commands_are_known()
    ensures
        forall|i: int|
            0 <= i < command_catalog::session_commands().len() ==> is_known_as_typed(
                (#[trigger] command_catalog::session_commands()[i]).0,
            ),
{
    reveal_strlit("/new");
    reveal_strlit("new");
    reveal_strlit("/reset");
    reveal_strlit("reset");
    reveal_strlit("/stop");
    reveal_strlit("stop");
    reveal_strlit("/compact");
    reveal_strlit("compact");
    reveal_strlit("/session");
    reveal_strlit("session");
    reveal_strlit("/onboard");
    reveal_strlit("onboard");
    lemma_command_name("/new"@);
    assert("/new"@.skip(1) =~= "new"@);
    lemma_command_name("/reset"@);
    assert("/reset"@.skip(1) =~= "reset"@);
    lemma_command_name("/stop"@);
    assert("/stop"@.skip(1) =~= "stop"@);
    lemma_command_name("/compact"@);
    assert("/compact"@.skip(1) =~= "compact"@);
    lemma_command_name("/session"@);
    assert("/session"@.skip(1) =~= "session"@);
    lemma_command_name("/onboard"@);
    assert("/onboard"@.skip(1) =~= "onboard"@);
}

proof fn lemma_option_commands_are_known()
    ensures
        forall|i: int|
            0 <= i < command_catalog::option_commands().len() ==> is_known_as_typed(
                (#[trigger] command_catalog::option_commands()[i]).0,
            ),
{
    reveal_strlit("/model");
    reveal_strlit("model");
    reveal_strlit("/models");
    reveal_strlit("models");
    reveal_strlit("/reasoning");
    reveal_strlit("reasoning");
    lemma_command_name("/model"@);
    assert("/model"@.skip(1) =~= "model"@);
    lemma_command_name("/models"@);
    assert("/models"@.skip(1) =~= "models"@);
    lemma_command_name("/reasoning"@);
    assert("/reasoning"@.skip(1) =~= "reasoning"@);
}

proof fn lemma_status_commands_are_known()
    ensures
        forall|i: int|
            0 <= i < command_catalog::status_commands().len() ==> is_known_as_typed(
                (#[trigger] command_catalog::status_commands()[i]).0,
            ),
{
    reveal_strlit("/help");
    reveal_strlit("help");
    reveal_strlit("/commands");
    reveal_strlit("commands");
    reveal_strlit("/tools");
    reveal_strlit("tools");
    reveal_strlit("/status");
    reveal_strlit("status");
    lemma_command_name("/help"@);
    assert("/help"@.skip(1) =~= "help"@);
    lemma_command_name("/commands"@);
    assert("/commands"@.skip(1) =~= "commands"@);
    lemma_command_name("/tools"@);
    assert("/tools"@.skip(1) =~= "tools"@);
    lemma_command_name("/status"@);
    assert("/status"@.skip(1) =~= "status"@);
}

proof fn lemma_management_commands_are_known()
    ensures
        forall|i: int|
            0 <= i < command_catalog::management_commands().len() ==> is_known_as_typed(
                (#[trigger] command_catalog::management_commands()[i]).0,
            ),
{
    reveal_strlit("/loop");
    reveal_strlit("loop");
    reveal_strlit("/subagents");
    reveal_strlit("subagents");
    reveal_strlit("/skill");
    reveal_strlit("skill");
    reveal_strlit("/emerge");
    reveal_strlit("emerge");
    lemma_command_name("/loop"@);
    assert("/loop"@.skip(1) =~= "loop"@);
    lemma_command_name("/subagents"@);
    assert("/subagents"@.skip(1) =~= "subagents"@);
    lemma_command_name("/skill"@);
    assert("/skill"@.skip(1) =~= "skill"@);
    lemma_command_name("/emerge"@);
    assert("/emerge"@.skip(1) =~= "emerge"@);
}

proof fn lemma_graph_commands_are_known()
    ensures
        forall|i: int|
            0 <= i < command_catalog::graph_commands().len() ==> is_known_as_typed(
                (#[trigger] command_catalog::graph_commands()[i]).0,
            ),
{
    reveal_strlit("/graph-query");
    reveal_strlit("graph-query");
    reveal_strlit("/graph-insert");
    reveal_strlit("graph-insert");
    lemma_command_name("/graph-query"@);
    assert("/graph-query"@.skip(1) =~= "graph-query"@);
    lemma_command_name("/graph-insert"@);
    assert("/graph-insert"@.skip(1) =~= "graph-insert"@);
}

proof fn lemma_voice_commands_are_known()
    ensures
        forall|i: int|
            0 <= i < command_catalog::voice_commands().len() ==> is_known_as_typed(
                (#[trigger] command_catalog::voice_commands()[i]).0,
            ),
{
    reveal_strlit("/tts");
    reveal_strlit("tts");
    reveal_strlit("/tts-provider");
    reveal_strlit("tts-provider");
    lemma_command_name("/tts"@);
    assert("/tts"@.skip(1) =~= "tts"@);
    lemma_command_name("/tts-provider"@);
    assert("/tts-provider"@.skip(1) =~= "tts-provider"@);
}

/// Every command that the catalog advertises is known to the dispatcher.
pub proof fn law_every_catalog_command_is_known(g: int, i: int)
    requires
        0 <= g < command_catalog::catalog().len(),
        0 <= i < command_catalog::catalog()[g].commands.len(),
    ensures
        known(command_name(command_catalog::catalog()[g].commands[i].0)),
{
    lemma_session_commands_are_known();
    lemma_option_commands_are_known();
    lemma_status_commands_are_known();
    lemma_management_commands_are_known();
    lemma_graph_commands_are_known();
    lemma_voice_commands_are_known();
    assert(is_known_as_typed(command_catalog::catalog()[g].commands[i].0));
}

/// A known command is never answered as an unknown one.
pub proof fn law_a_known_command_is_not_reported_as_unknown(
    s: SettingsView,
    models: Seq<Seq<char>>,
    session_id: Seq<char>,
    name: Seq<char>,
    args: Seq<char>,
    level: Seq<char>,
)
    requires
        known(name),
        named_step(s, models, name, args) is Channel,
    ensures
        !(command_handler::command_step(s, session_id, name, args, level) matches CommandStep::Reply { text }
            && t::starts(text, "Unknown command"@)),
{
    reveal_strlit("Unknown command");
    reveal_strlit("Unknown level `");
    reveal_strlit("Model: ");
    reveal_strlit("Reasoning effort: ");
    reveal_strlit("Session ");
    reveal_strlit("TTS provider: ");
    reveal_strlit("Usage: /graph-query <terms>");
    reveal_strlit(
        "Usage: /graph-insert <text> — adds a note to your private memory graph. (Or attach a document to ingest it.)",
    );
    reveal_strlit("Usage: /emerge <task> — runs a sub-agent on the task.");
    let bad = "Unknown command"@;
    match command_handler::command_step(s, session_id, name, args, level) {
        CommandStep::Reply { text } => {
            if t::starts(text, bad) {
                assert(bad[0] == 'U' && bad[1] == 'n' && bad[8] == 'c');
                assert(text[0] == 'U' && text[1] == 'n' && text[8] == 'c') by {
                    assert(text.take(bad.len() as int)[0] == text[0]);
                    assert(text.take(bad.len() as int)[1] == text[1]);
                    assert(text.take(bad.len() as int)[8] == text[8]);
                }
                if name == "commands"@ {
                    command_catalog::lemma_commands_start_with_a_slash();
                }
                assert(false);
            }
        },
        _ => {},
    }
}

// ---------------------------------------------------------------------------
// Answers
// ---------------------------------------------------------------------------

/// What came of rating the last reply.
#[derive(Debug, PartialEq, Eq)]
pub enum FeedbackOutcome {
    Recorded,
    NoTurn,
    Failed { error: String },
}

/// The console's answer to `/good` and `/bad`.
pub fn feedback_text(up: bool, outcome: &FeedbackOutcome) -> (r: String)
    ensures
        r@ == match outcome {
            FeedbackOutcome::Recorded => if up {
                "Logged a 👍 on the last reply."@
            } else {
                "Logged a 👎 on the last reply."@
            },
            FeedbackOutcome::NoTurn => "No recent agent turn to rate yet."@,
            FeedbackOutcome::Failed { error } => "Could not record feedback: "@ + error@,
        },
{
    match outcome {
        FeedbackOutcome::Recorded => if up {
            "Logged a 👍 on the last reply.".to_owned()
        } else {
            "Logged a 👎 on the last reply.".to_owned()
        },
        FeedbackOutcome::NoTurn => "No recent agent turn to rate yet.".to_owned(),
        FeedbackOutcome::Failed { error } => "Could not record feedback: ".to_owned().concat(error.as_str()),
    }
}

/// The answer to a command whose work failed.
pub fn command_failed_text(error: &str) -> (r: String)
    ensures
        r@ == "Command failed: "@ + error@,
{
    "Command failed: ".to_owned().concat(error)
}

/// What the console does once the work of a step is done. `found` is what was
/// looked up for it: the status, the answer about a rating, or what the command
/// handler said.
pub open spec fn settled(step: ConsoleStepView, found: Result<String, String>) -> ConsoleCommandView {
    match step {
        ConsoleStep::Done { command } => command,
        ConsoleStep::Reset => ConsoleCommand::NewSession,
        ConsoleStep::Subtask { prompt, .. } => ConsoleCommand::Prompt { text: prompt },
        ConsoleStep::Onboard { prompt } => ConsoleCommand::Prompt { text: prompt },
        ConsoleStep::Status => ConsoleCommand::Reply { text: said(found) },
        ConsoleStep::Feedback { .. } => ConsoleCommand::Reply { text: said(found) },
        ConsoleStep::Channel { .. } => ConsoleCommand::Reply { text: said(found) },
    }
}

/// What was looked up, or that it could not be.
pub open spec fn said(found: Result<String, String>) -> Seq<char> {
    match found {
        Ok(text) => text@,
        Err(error) => "Command failed: "@ + error@,
    }
}

fn reply_with(found: Result<String, String>) -> (r: ConsoleCommand<String, ConsoleOptions>)
    ensures
        r@ == (ConsoleCommand::<Seq<char>, Seq<(Seq<char>, Seq<char>)>>::Reply {
            text: said(found),
        }),
{
    match found {
        Ok(text) => ConsoleCommand::Reply { text },
        Err(error) => ConsoleCommand::Reply { text: command_failed_text(error.as_str()) },
    }
}

/// Ends a slash command whose outside work is done.
pub fn run_console_command(
    step: ConsoleStep<String, ConsoleCommand<String, ConsoleOptions>>,
    found: Result<String, String>,
) -> (r: ConsoleCommand<String, ConsoleOptions>)
    ensures
        r@ == settled(step@, found),
{
    match step {
        ConsoleStep::Done { command } => command,
        ConsoleStep::Reset => ConsoleCommand::NewSession,
        ConsoleStep::Subtask { name: _, task: _, prompt } => ConsoleCommand::Prompt { text: prompt },
        ConsoleStep::Onboard { prompt } => ConsoleCommand::Prompt { text: prompt },
        ConsoleStep::Status => reply_with(found),
        ConsoleStep::Feedback { up: _ } => reply_with(found),
        ConsoleStep::Channel { name: _, args: _ } => reply_with(found),
    }
}

/// What the web console does about a command.
#[derive(Debug, PartialEq, Eq)]
pub enum WebAnswer<S> {
    Reply { text: S },
    /// Send the text to the agent.
    Enqueue { prompt: S },
    /// Forget the conversation, then reply.
    ResetAndReply { text: S },
}

impl View for WebAnswer<String> {
    type V = WebAnswer<Seq<char>>;

    open spec fn view(&self) -> WebAnswer<Seq<char>> {
        match self {
            WebAnswer::Reply { text } => WebAnswer::Reply { text: text@ },
            WebAnswer::Enqueue { prompt } => WebAnswer::Enqueue { prompt: prompt@ },
            WebAnswer::ResetAndReply { text } => WebAnswer::ResetAndReply { text: text@ },
        }
    }
}

pub open spec fn web_answer(c: ConsoleCommandView) -> WebAnswer<Seq<char>> {
    match c {
        ConsoleCommand::Reply { text } => WebAnswer::Reply { text },
        ConsoleCommand::Prompt { text } => WebAnswer::Enqueue { prompt: text },
        ConsoleCommand::Clear | ConsoleCommand::NewSession => WebAnswer::ResetAndReply {
            text: "Conversation reset — starting fresh."@,
        },
        ConsoleCommand::Quit => WebAnswer::Reply { text: "Close the browser tab to end the session."@ },
        ConsoleCommand::Select { title, options } => WebAnswer::Reply {
            text: title + "\nOptions: "@ + t::joined(
                options.map_values(|o: (Seq<char>, Seq<char>)| o.0),
                ", "@,
            ) + "\n(Re-send the command with a value, e.g. `/model <name>`.)"@,
        },
    }
}

pub fn apply_web_console_command(c: ConsoleCommand<String, ConsoleOptions>) -> (r: WebAnswer<String>)
    ensures
        r@ == web_answer(c@),
{
    match c {
        ConsoleCommand::Reply { text } => WebAnswer::Reply { text },
        ConsoleCommand::Prompt { text } => WebAnswer::Enqueue { prompt: text },
        ConsoleCommand::Clear => WebAnswer::ResetAndReply {
            text: "Conversation reset — starting fresh.".to_owned(),
        },
        ConsoleCommand::NewSession => WebAnswer::ResetAndReply {
            text: "Conversation reset — starting fresh.".to_owned(),
        },
        ConsoleCommand::Quit => WebAnswer::Reply {
            text: "Close the browser tab to end the session.".to_owned(),
        },
        ConsoleCommand::Select { title, options } => {
            let mut labels: Vec<String> = Vec::new();
            let mut i: usize = 0;
            while i < options.len()
                invariant
                    i <= options.len(),
                    labels.len() == i,
                    forall|k: int| 0 <= k < i ==> (#[trigger] labels@[k])@ == options@[k].0@,
                decreases options.len() - i,
            {
                labels.push(options[i].0.clone());
                i += 1;
            }
            assert(t::texts(labels@) =~= settings::button_views(options@).map_values(
                |o: (Seq<char>, Seq<char>)| o.0,
            ));
            WebAnswer::Reply {
                text: title.concat("\nOptions: ").concat(t::join(&labels, ", ").as_str()).concat(
                    "\n(Re-send the command with a value, e.g. `/model <name>`.)",
                ),
            }
        },
    }
}

// ---------------------------------------------------------------------------
// The transcript
// ---------------------------------------------------------------------------

/// How far a transcript has been read: the turns that are complete, and the
/// one that is open, if any.
pub struct Reading {
    pub turns: Seq<(Seq<char>, Seq<char>)>,
    pub role: Option<Seq<char>>,
    pub body: Seq<Seq<char>>,
}

/// The turns with the open one closed; a turn without text is left out.
pub open spec fn closed(r: Reading) -> Seq<(Seq<char>, Seq<char>)> {
    let text = t::trimmed(t::joined(r.body, "\n"@));
    match r.role {
        Some(role) => if text.len() > 0 {
            r.turns.push((role, text))
        } else {
            r.turns
        },
        None => r.turns,
    }
}

/// The last word of a heading names who speaks.
pub open spec fn speaker(heading: Seq<char>) -> Option<Seq<char>> {
    let words = t::words_of(heading);
    if words.len() > 0 {
        Some(words.last())
    } else {
        None
    }
}

pub open spec fn read_line(r: Reading, line: Seq<char>) -> Reading {
    match t::after_prefix(line, "## "@) {
        Some(heading) => Reading { turns: closed(r), role: speaker(heading), body: Seq::empty() },
        None => if r.role is Some {
            Reading { body: r.body.push(line), ..r }
        } else {
            r
        },
    }
}

pub open spec fn read_lines(lines: Seq<Seq<char>>) -> Reading
    decreases lines.len(),
{
    if lines.len() == 0 {
        Reading { turns: Seq::empty(), role: None, body: Seq::empty() }
    } else {
        read_line(read_lines(lines.drop_last()), lines.last())
    }
}

/// The turns of a transcript, each with its speaker.
pub open spec fn transcript_turns(raw: Seq<char>) -> Seq<(Seq<char>, Seq<char>)> {
    closed(read_lines(t::lines_of(raw)))
}

fn close_turn(turns: &mut Vec<(String, String)>, role: &Option<String>, body: &Vec<String>)
    ensures
        settings::button_views(final(turns)@) == closed(
            Reading {
                turns: settings::button_views(old(turns)@),
                role: t::opt_view(*role),
                body: t::texts(body@),
            },
        ),
{
    let ghost before = settings::button_views(turns@);
    match role {
        Some(r) => {
            let text = t::trim(t::join(body, "\n").as_str());
            if !text.as_str().is_empty() {
                turns.push((r.clone(), text));
                assert(settings::button_views(turns@) =~= before.push((r@, text@)));
            }
        },
        None => {},
    }
}

/// Reads a transcript into its turns: who spoke, and what was said.
pub fn read_console_transcript(raw: &str) -> (r: Vec<(String, String)>)
    ensures
        settings::button_views(r@) == transcript_turns(raw@),
{
    let lines = t::lines(raw);
    let ghost all = t::texts(lines@);
    let mut turns: Vec<(String, String)> = Vec::new();
    let mut role: Option<String> = None;
    let mut body: Vec<String> = Vec::new();
    let mut i: usize = 0;
    proof {
        assert(all.take(0) =~= Seq::<Seq<char>>::empty());
        assert(settings::button_views(turns@) =~= Seq::<(Seq<char>, Seq<char>)>::empty());
        assert(t::texts(body@) =~= Seq::<Seq<char>>::empty());
    }
    while i < lines.len()
        invariant
            i <= lines.len(),
            all == t::texts(lines@),
            all == t::lines_of(raw@),
            read_lines(all.take(i as int)) == (Reading {
                turns: settings::button_views(turns@),
                role: t::opt_view(role),
                body: t::texts(body@),
            }),
        decreases lines.len() - i,
    {
        let ghost so_far = t::texts(body@);
        proof {
            assert(all.take(i as int + 1).drop_last() =~= all.take(i as int));
            assert(all.take(i as int + 1).last() == lines@[i as int]@);
        }
        match t::strip_prefix(lines[i].as_str(), "## ") {
            Some(heading) => {
                close_turn(&mut turns, &role, &body);
                body = Vec::new();
                assert(t::texts(body@) =~= Seq::<Seq<char>>::empty());
                let words = t::words(heading.as_str());
                assert(t::texts(words@).len() == words@.len());
                let n: usize = words.len();
                role = if n > 0 {
                    assert(t::texts(words@).last() == words@[n - 1]@);
                    Some(words[n - 1].clone())
                } else {
                    None
                };
            },
            None => {
                if role.is_some() {
                    body.push(lines[i].clone());
                    assert(t::texts(body@) =~= so_far.push(lines@[i as int]@));
                }
            },
        }
        i += 1;
    }
    assert(all.take(all.len() as int) =~= all);
    close_turn(&mut turns, &role, &body);
    turns
}

/// A console command does what its name says; what the console does not do
/// itself goes to the command handler, under its name and with its value.
pub proof fn law_a_console_command_does_what_it_names(
    s: SettingsView,
    models: Seq<Seq<char>>,
    name: Seq<char>,
    args: Seq<char>,
)
    ensures
        ({
            let step = named_step(s, models, name, args);
            &&& name == "help"@ || name == "start"@ ==> (step matches ConsoleStep::Done { command }
                && command is Reply)
            &&& name == "clear"@ ==> step == (ConsoleStepView::Done { command: ConsoleCommand::Clear })
            &&& name == "quit"@ || name == "exit"@ ==> step == (ConsoleStepView::Done {
                command: ConsoleCommand::Quit,
            })
            &&& name == "new"@ || name == "reset"@ ==> step is Reset
            &&& name == "status"@ ==> step is Status
            &&& name == "good"@ ==> step == (ConsoleStepView::Feedback { up: true })
            &&& name == "bad"@ ==> step == (ConsoleStepView::Feedback { up: false })
            &&& name == "onboard"@ ==> step is Onboard
            &&& name == "skill"@ && args.len() > 0 ==> step == (ConsoleStepView::Done {
                command: ConsoleCommand::Prompt { text: routing::skill_prompt(args) },
            })
            &&& name == "emerge"@ && args.len() > 0 ==> (step matches ConsoleStep::Subtask { task, .. } && task == args)
            &&& step matches ConsoleStep::Channel { name: n, args: a } ==> n == name && a == args
            &&& args.len() > 0 && (name == "model"@ || name == "models"@ || name == "reasoning"@ || name
                == "tts-provider"@ || name == "session"@) ==> step is Channel
        }),
{
    reveal_strlit("help");
    reveal_strlit("start");
    reveal_strlit("clear");
    reveal_strlit("quit");
    reveal_strlit("exit");
    reveal_strlit("new");
    reveal_strlit("reset");
    reveal_strlit("status");
    reveal_strlit("good");
    reveal_strlit("bad");
    reveal_strlit("skill");
    reveal_strlit("emerge");
    reveal_strlit("onboard");
    reveal_strlit("model");
    reveal_strlit("models");
    reveal_strlit("reasoning");
    reveal_strlit("tts-provider");
    reveal_strlit("session");
    assert("help"@.len() == 4 && "help"@[0] == 'h' && "help"@[1] == 'e' && "help"@[2] == 'l' && "help"@[3] == 'p');
    assert("start"@.len() == 5 && "start"@[0] == 's' && "start"@[1] == 't' && "start"@[2] == 'a' && "start"@[3] == 'r' && "start"@[4] == 't');
    assert("clear"@.len() == 5 && "clear"@[0] == 'c' && "clear"@[1] == 'l' && "clear"@[2] == 'e' && "clear"@[3] == 'a' && "clear"@[4] == 'r');
    assert("quit"@.len() == 4 && "quit"@[0] == 'q' && "quit"@[1] == 'u' && "quit"@[2] == 'i' && "quit"@[3] == 't');
    assert("exit"@.len() == 4 && "exit"@[0] == 'e' && "exit"@[1] == 'x' && "exit"@[2] == 'i' && "exit"@[3] == 't');
    assert("new"@.len() == 3 && "new"@[0] == 'n' && "new"@[1] == 'e' && "new"@[2] == 'w');
    assert("reset"@.len() == 5 && "reset"@[0] == 'r' && "reset"@[1] == 'e' && "reset"@[2] == 's' && "reset"@[3] == 'e' && "reset"@[4] == 't');
    assert("status"@.len() == 6 && "status"@[0] == 's' && "status"@[1] == 't' && "status"@[2] == 'a' && "status"@[3] == 't' && "status"@[4] == 'u' && "status"@[5] == 's');
    assert("good"@.len() == 4 && "good"@[0] == 'g' && "good"@[1] == 'o' && "good"@[2] == 'o' && "good"@[3] == 'd');
    assert("bad"@.len() == 3 && "bad"@[0] == 'b' && "bad"@[1] == 'a' && "bad"@[2] == 'd');
    assert("skill"@.len() == 5 && "skill"@[0] == 's' && "skill"@[1] == 'k' && "skill"@[2] == 'i' && "skill"@[3] == 'l' && "skill"@[4] == 'l');
    assert("emerge"@.len() == 6 && "emerge"@[0] == 'e' && "emerge"@[1] == 'm' && "emerge"@[2] == 'e' && "emerge"@[3] == 'r' && "emerge"@[4] == 'g' && "emerge"@[5] == 'e');
    assert("onboard"@.len() == 7 && "onboard"@[0] == 'o' && "onboard"@[1] == 'n' && "onboard"@[2] == 'b' && "onboard"@[3] == 'o' && "onboard"@[4] == 'a' && "onboard"@[5] == 'r');
    assert("model"@.len() == 5 && "model"@[0] == 'm' && "model"@[1] == 'o' && "model"@[2] == 'd' && "model"@[3] == 'e' && "model"@[4] == 'l');
    assert("models"@.len() == 6 && "models"@[0] == 'm' && "models"@[1] == 'o' && "models"@[2] == 'd' && "models"@[3] == 'e' && "models"@[4] == 'l' && "models"@[5] == 's');
    assert("reasoning"@.len() == 9 && "reasoning"@[0] == 'r' && "reasoning"@[1] == 'e' && "reasoning"@[2] == 'a' && "reasoning"@[3] == 's' && "reasoning"@[4] == 'o' && "reasoning"@[5] == 'n');
    assert("tts-provider"@.len() == 12 && "tts-provider"@[0] == 't' && "tts-provider"@[1] == 't' && "tts-provider"@[2] == 's' && "tts-provider"@[3] == '-' && "tts-provider"@[4] == 'p' && "tts-provider"@[5] == 'r');
    assert("session"@.len() == 7 && "session"@[0] == 's' && "session"@[1] == 'e' && "session"@[2] == 's' && "session"@[3] == 's' && "session"@[4] == 'i' && "session"@[5] == 'o');
}

/// A command that was carried out is answered: with what was looked up, or that
/// it failed; a new session is started, and a prompt is sent as it is.
pub proof fn law_a_console_command_is_answered(step: ConsoleStepView, text: String, error: String)
    ensures
        step is Status || step is Feedback || step is Channel ==> settled(step, Ok(text)) == (
        ConsoleCommandView::Reply { text: text@ }) && settled(step, Err(error)) == (ConsoleCommandView::Reply {
            text: "Command failed: "@ + error@,
        }),
        step is Reset ==> settled(step, Ok(text)) is NewSession,
        step matches ConsoleStep::Subtask { prompt, .. } ==> settled(step, Ok(text)) == (ConsoleCommandView::Prompt {
            text: prompt,
        }),
        step matches ConsoleStep::Onboard { prompt } ==> settled(step, Ok(text)) == (ConsoleCommandView::Prompt {
            text: prompt,
        }),
        step matches ConsoleStep::Done { command } ==> settled(step, Ok(text)) == command,
{
}

/// On the web a prompt reaches the agent, a new session forgets the
/// conversation, and a choice is shown with its options.
pub proof fn law_the_web_carries_a_command_out(c: ConsoleCommandView)
    ensures
        c matches ConsoleCommand::Reply { text } ==> web_answer(c) == (WebAnswer::Reply { text }),
        c matches ConsoleCommand::Prompt { text } ==> web_answer(c) == (WebAnswer::Enqueue { prompt: text }),
        c is NewSession || c is Clear ==> web_answer(c) is ResetAndReply,
        c is Quit ==> web_answer(c) is Reply,
        c matches ConsoleCommand::Select { title, .. } ==> (web_answer(c) matches WebAnswer::Reply { text }
            && t::starts(text, title)),
{
    if c is Select {
        let title = c->title;
        let text = web_answer(c)->Reply_text;
        assert(text.subrange(0, title.len() as int) =~= title);
    }
}

/// What was said in a turn is what stands under its heading, and the last word
/// of the heading is who said it.
pub proof fn law_a_turn_stands_under_its_heading(
    front: Seq<Seq<char>>,
    heading: Seq<char>,
    body: Seq<Seq<char>>,
    role: Seq<char>,
)
    requires
        t::starts(heading, "## "@),
        speaker(heading.skip("## "@.len() as int)) == Some(role),
        forall|i: int| 0 <= i < body.len() ==> !t::starts(#[trigger] body[i], "## "@),
    ensures
        read_lines(front.push(heading) + body) == (Reading {
            turns: closed(read_lines(front)),
            role: Some(role),
            body,
        }),
        t::trimmed(t::joined(body, "\n"@)).len() > 0 ==> closed(read_lines(front.push(heading) + body)) == closed(
            read_lines(front),
        ).push((role, t::trimmed(t::joined(body, "\n"@)))),
    decreases body.len(),
{
    let all = front.push(heading) + body;
    if body.len() == 0 {
        assert(all =~= front.push(heading));
        assert(all.drop_last() =~= front);
        assert(all.last() == heading);
        assert(read_lines(all) == read_line(read_lines(front), heading));
        assert(body =~= Seq::empty());
    } else {
        let less = body.drop_last();
        assert forall|i: int| 0 <= i < less.len() implies !t::starts(#[trigger] less[i], "## "@) by {
            assert(less[i] == body[i]);
        }
        law_a_turn_stands_under_its_heading(front, heading, less, role);
        assert(all.drop_last() =~= front.push(heading) + less);
        assert(all.last() == body.last());
        assert(!t::starts(body[body.len() - 1], "## "@));
        assert(less.push(body.last()) =~= body);
        assert(read_lines(all) == read_line(read_lines(all.drop_last()), all.last()));
    }
}

} // verus!
