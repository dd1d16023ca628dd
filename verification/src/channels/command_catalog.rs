//! The slash commands that every chat offers.

use crate::text as t;
use vstd::prelude::*;
use vstd::string::*;

verus! {

/// A named group of commands, each with its description.
#[derive(Debug, PartialEq, Eq)]
pub struct CommandGroup {
    pub name: &'static str,
    pub commands: Vec<(&'static str, &'static str)>,
}

pub struct GroupView {
    pub name: Seq<char>,
    pub commands: Seq<(Seq<char>, Seq<char>)>,
}

pub open spec fn entry_views(v: Seq<(&'static str, &'static str)>) -> Seq<(Seq<char>, Seq<char>)> {
    v.map_values(|e: (&'static str, &'static str)| (e.0@, e.1@))
}

impl View for CommandGroup {
    type V = GroupView;

    open spec fn view(&self) -> GroupView {
        GroupView { name: self.name@, commands: entry_views(self.commands@) }
    }
}

pub open spec fn session_commands() -> Seq<(Seq<char>, Seq<char>)> {
    seq![
        ("/new"@, "start a new session"@),
        ("/reset"@, "reset the current session"@),
        ("/stop"@, "stop the current run"@),
        ("/compact"@, "compact the session context"@),
        ("/session"@, "session settings (e.g. /session idle)"@),
        ("/onboard"@, "(re)run the first-run interview"@),
    ]
}

pub open spec fn option_commands() -> Seq<(Seq<char>, Seq<char>)> {
    seq![
        ("/model"@, "show or set the model (/model <id>)"@),
        ("/models"@, "list available models"@),
        ("/reasoning"@, "codex reasoning effort (low|medium|high)"@),
    ]
}

pub open spec fn status_commands() -> Seq<(Seq<char>, Seq<char>)> {
    seq![
        ("/help"@, "show available commands"@),
        ("/commands"@, "list all slash commands"@),
        ("/tools"@, "list available runtime tools"@),
        ("/status"@, "model, channel, harness, time, OS"@),
    ]
}

pub open spec fn management_commands() -> Seq<(Seq<char>, Seq<char>)> {
    seq![
        ("/loop"@, "run a multi-agent loop on a goal (/loop <goal>); posts progress here"@),
        ("/subagents"@, "inspect subagent runs for this session"@),
        ("/skill"@, "run a skill by name (/skill <name> [args])"@),
        ("/emerge"@, "run a sub-agent on a task (/emerge <task>)"@),
    ]
}

pub open spec fn graph_commands() -> Seq<(Seq<char>, Seq<char>)> {
    seq![
        ("/graph-query"@, "GraphRAG query (/graph-query <terms>)"@),
        ("/graph-insert"@, "add content to MaturanaGraph"@),
    ]
}

pub open spec fn voice_commands() -> Seq<(Seq<char>, Seq<char>)> {
    seq![
        ("/tts"@, "enable/disable text-to-speech"@),
        ("/tts-provider"@, "set TTS provider (e.g. elevenlabs)"@),
    ]
}

/// The groups, in the order in which they are shown.
pub open spec fn catalog() -> Seq<GroupView> {
    seq![
        GroupView { name: "Session"@, commands: session_commands() },
        GroupView { name: "Options"@, commands: option_commands() },
        GroupView { name: "Status"@, commands: status_commands() },
        GroupView { name: "Management"@, commands: management_commands() },
        GroupView { name: "MaturanaGraph"@, commands: graph_commands() },
        GroupView { name: "Voice"@, commands: voice_commands() },
    ]
}

pub open spec fn group_views(v: Seq<CommandGroup>) -> Seq<GroupView> {
    v.map_values(|g: CommandGroup| g@)
}

fn session_group() -> (r: CommandGroup)
    ensures
        r@ == catalog()[0],
{
    let commands = vec![
        ("/new", "start a new session"),
        ("/reset", "reset the current session"),
        ("/stop", "stop the current run"),
        ("/compact", "compact the session context"),
        ("/session", "session settings (e.g. /session idle)"),
        ("/onboard", "(re)run the first-run interview"),
    ];
    assert(entry_views(commands@) =~= session_commands());
    CommandGroup { name: "Session", commands }
}

fn option_group() -> (r: CommandGroup)
    ensures
        r@ == catalog()[1],
{
    let commands = vec![
        ("/model", "show or set the model (/model <id>)"),
        ("/models", "list available models"),
        ("/reasoning", "codex reasoning effort (low|medium|high)"),
    ];
    assert(entry_views(commands@) =~= option_commands());
    CommandGroup { name: "Options", commands }
}

fn status_group() -> (r: CommandGroup)
    ensures
        r@ == catalog()[2],
{
    let commands = vec![
        ("/help", "show available commands"),
        ("/commands", "list all slash commands"),
        ("/tools", "list available runtime tools"),
        ("/status", "model, channel, harness, time, OS"),
    ];
    assert(entry_views(commands@) =~= status_commands());
    CommandGroup { name: "Status", commands }
}

fn management_group() -> (r: CommandGroup)
    ensures
        r@ == catalog()[3],
{
    let commands = vec![
        ("/loop", "run a multi-agent loop on a goal (/loop <goal>); posts progress here"),
        ("/subagents", "inspect subagent runs for this session"),
        ("/skill", "run a skill by name (/skill <name> [args])"),
        ("/emerge", "run a sub-agent on a task (/emerge <task>)"),
    ];
    assert(entry_views(commands@) =~= management_commands());
    CommandGroup { name: "Management", commands }
}

fn graph_group() -> (r: CommandGroup)
    ensures
        r@ == catalog()[4],
{
    let commands = vec![
        ("/graph-query", "GraphRAG query (/graph-query <terms>)"),
        ("/graph-insert", "add content to MaturanaGraph"),
    ];
    assert(entry_views(commands@) =~= graph_commands());
    CommandGroup { name: "MaturanaGraph", commands }
}

fn voice_group() -> (r: CommandGroup)
    ensures
        r@ == catalog()[5],
{
    let commands = vec![
        ("/tts", "enable/disable text-to-speech"),
        ("/tts-provider", "set TTS provider (e.g. elevenlabs)"),
    ];
    assert(entry_views(commands@) =~= voice_commands());
    CommandGroup { name: "Voice", commands }
}

/// The one source for `/help`, `/commands` and the menus.
pub fn command_groups() -> (r: Vec<CommandGroup>)
    ensures
        group_views(r@) == catalog(),
{
    let mut r: Vec<CommandGroup> = Vec::new();
    r.push(session_group());
    r.push(option_group());
    r.push(status_group());
    r.push(management_group());
    r.push(graph_group());
    r.push(voice_group());
    assert(group_views(r@) =~= catalog());
    r
}

// ---------------------------------------------------------------------------
// Texts made from the catalog
// ---------------------------------------------------------------------------

pub open spec fn help_lines(v: Seq<(Seq<char>, Seq<char>)>, n: int) -> Seq<char>
    decreases n,
{
    if n <= 0 || n > v.len() {
        Seq::empty()
    } else {
        help_lines(v, n - 1) + "  "@ + v[n - 1].0 + " — "@ + v[n - 1].1 + "\n"@
    }
}

pub open spec fn help_groups(g: Seq<GroupView>, n: int) -> Seq<char>
    decreases n,
{
    if n <= 0 || n > g.len() {
        Seq::empty()
    } else {
        help_groups(g, n - 1) + "\n"@ + g[n - 1].name + "\n"@ + help_lines(
            g[n - 1].commands,
            g[n - 1].commands.len() as int,
        )
    }
}

pub open spec fn help_words() -> Seq<char> {
    "Maturana commands:\n"@ + help_groups(catalog(), catalog().len() as int)
        + "\nAny other message is sent to the agent."@
}

fn group_lines(g: &CommandGroup) -> (r: String)
    ensures
        r@ == help_lines(g@.commands, g@.commands.len() as int),
{
    let mut out = String::new();
    let mut i: usize = 0;
    while i < g.commands.len()
        invariant
            i <= g.commands.len(),
            out@ == help_lines(g@.commands, i as int),
        decreases g.commands.len() - i,
    {
        assert(g@.commands[i as int] == (g.commands@[i as int].0@, g.commands@[i as int].1@));
        out.append("  ");
        out.append(g.commands[i].0);
        out.append(" — ");
        out.append(g.commands[i].1);
        out.append("\n");
        i += 1;
    }
    out
}

pub fn help_text() -> (r: String)
    ensures
        r@ == help_words(),
{
    let groups = command_groups();
    let ghost all = catalog();
    let mut body = String::new();
    let mut i: usize = 0;
    assert(all.len() == groups@.len());
    while i < groups.len()
        invariant
            i <= groups.len(),
            all == group_views(groups@),
            body@ == help_groups(all, i as int),
        decreases groups.len() - i,
    {
        assert(all[i as int] == groups@[i as int]@);
        body.append("\n");
        body.append(groups[i].name);
        body.append("\n");
        body.append(group_lines(&groups[i]).as_str());
        i += 1;
    }
    "Maturana commands:\n".to_owned().concat(body.as_str()).concat("\nAny other message is sent to the agent.")
}

/// The names of the first `n` commands of a group.
pub open spec fn names_in(v: Seq<(Seq<char>, Seq<char>)>) -> Seq<Seq<char>> {
    v.map_values(|e: (Seq<char>, Seq<char>)| e.0)
}

/// The names of the commands of the first `n` groups.
pub open spec fn names_of(g: Seq<GroupView>, n: int) -> Seq<Seq<char>>
    decreases n,
{
    if n <= 0 || n > g.len() {
        Seq::empty()
    } else {
        names_of(g, n - 1) + names_in(g[n - 1].commands)
    }
}

pub open spec fn catalog_names() -> Seq<Seq<char>> {
    names_of(catalog(), catalog().len() as int)
}

fn push_names(out: &mut Vec<String>, g: &CommandGroup)
    ensures
        t::texts(final(out)@) == t::texts(old(out)@) + names_in(g@.commands),
{
    let ghost before = t::texts(out@);
    let mut i: usize = 0;
    assert(before =~= before + names_in(g@.commands).take(0));
    while i < g.commands.len()
        invariant
            i <= g.commands.len(),
            t::texts(out@) == before + names_in(g@.commands).take(i as int),
        decreases g.commands.len() - i,
    {
        let ghost now = t::texts(out@);
        out.push(g.commands[i].0.to_owned());
        proof {
            let names = names_in(g@.commands);
            assert(names[i as int] == g.commands@[i as int].0@);
            assert(t::texts(out@) =~= now.push(names[i as int]));
            assert(names.take(i as int + 1) =~= names.take(i as int).push(names[i as int]));
        }
        i += 1;
    }
    assert(names_in(g@.commands).take(g@.commands.len() as int) =~= names_in(g@.commands));
}

pub fn command_names() -> (r: Vec<String>)
    ensures
        t::texts(r@) == catalog_names(),
{
    let groups = command_groups();
    let ghost all = catalog();
    let mut names: Vec<String> = Vec::new();
    let mut i: usize = 0;
    assert(all.len() == groups@.len());
    assert(t::texts(names@) =~= Seq::empty());
    while i < groups.len()
        invariant
            i <= groups.len(),
            all == group_views(groups@),
            t::texts(names@) == names_of(all, i as int),
        decreases groups.len() - i,
    {
        assert(all[i as int] == groups@[i as int]@);
        push_names(&mut names, &groups[i]);
        i += 1;
    }
    names
}

pub fn commands_text() -> (r: String)
    ensures
        r@ == t::joined(catalog_names(), "  "@) + "\n/good /bad — rate the last reply"@,
{
    let names = command_names();
    t::join(&names, "  ").concat("\n/good /bad — rate the last reply")
}

/// Appends the entries whose names are not in the list yet.
pub open spec fn with_new(out: Seq<(Seq<char>, Seq<char>)>, v: Seq<(Seq<char>, Seq<char>)>, n: int) -> Seq<
    (Seq<char>, Seq<char>),
>
    decreases n,
{
    if n <= 0 || n > v.len() {
        out
    } else {
        let before = with_new(out, v, n - 1);
        if names_in(before).contains(v[n - 1].0) {
            before
        } else {
            before.push(v[n - 1])
        }
    }
}

pub open spec fn with_groups(out: Seq<(Seq<char>, Seq<char>)>, g: Seq<GroupView>, n: int) -> Seq<
    (Seq<char>, Seq<char>),
>
    decreases n,
{
    if n <= 0 || n > g.len() {
        out
    } else {
        with_new(with_groups(out, g, n - 1), g[n - 1].commands, g[n - 1].commands.len() as int)
    }
}

/// What the console offers: its own commands, then the catalog without
/// repeats, then the ratings.
pub open spec fn console_catalog() -> Seq<(Seq<char>, Seq<char>)> {
    with_groups(
        seq![
            ("/help"@, "show commands and keybindings"@),
            ("/clear"@, "clear the transcript view"@),
            ("/quit"@, "exit the chat"@),
        ],
        catalog(),
        catalog().len() as int,
    ).push(("/good"@, "rate the last reply"@)).push(("/bad"@, "rate the last reply"@))
}

fn has_name(out: &Vec<(&'static str, &'static str)>, name: &str) -> (r: bool)
    ensures
        r == names_in(entry_views(out@)).contains(name@),
{
    let mut i: usize = 0;
    while i < out.len()
        invariant
            i <= out.len(),
            forall|k: int| 0 <= k < i ==> #[trigger] names_in(entry_views(out@))[k] != name@,
        decreases out.len() - i,
    {
        if t::same(out[i].0, name) {
            assert(names_in(entry_views(out@))[i as int] == name@);
            return true;
        }
        i += 1;
    }
    false
}

fn push_new(out: &mut Vec<(&'static str, &'static str)>, g: &CommandGroup)
    ensures
        entry_views(final(out)@) == with_new(entry_views(old(out)@), g@.commands, g@.commands.len() as int),
{
    let ghost before = entry_views(out@);
    let mut i: usize = 0;
    while i < g.commands.len()
        invariant
            i <= g.commands.len(),
            entry_views(out@) == with_new(before, g@.commands, i as int),
        decreases g.commands.len() - i,
    {
        let ghost now = entry_views(out@);
        assert(g@.commands[i as int] == (g.commands@[i as int].0@, g.commands@[i as int].1@));
        if !has_name(out, g.commands[i].0) {
            out.push(g.commands[i]);
            assert(entry_views(out@) =~= now.push(g@.commands[i as int]));
        }
        i += 1;
    }
}

pub fn console_command_catalog() -> (r: Vec<(&'static str, &'static str)>)
    ensures
        entry_views(r@) == console_catalog(),
{
    let groups = command_groups();
    let ghost all = catalog();
    let mut out: Vec<(&'static str, &'static str)> = vec![
        ("/help", "show commands and keybindings"),
        ("/clear", "clear the transcript view"),
        ("/quit", "exit the chat"),
    ];
    let ghost first = entry_views(out@);
    assert(first =~= seq![
        ("/help"@, "show commands and keybindings"@),
        ("/clear"@, "clear the transcript view"@),
        ("/quit"@, "exit the chat"@),
    ]);
    let mut i: usize = 0;
    assert(all.len() == groups@.len());
    while i < groups.len()
        invariant
            i <= groups.len(),
            all == group_views(groups@),
            entry_views(out@) == with_groups(first, all, i as int),
        decreases groups.len() - i,
    {
        assert(all[i as int] == groups@[i as int]@);
        push_new(&mut out, &groups[i]);
        i += 1;
    }
    let ghost listed = entry_views(out@);
    out.push(("/good", "rate the last reply"));
    assert(entry_views(out@) =~= listed.push(("/good"@, "rate the last reply"@)));
    let ghost rated = entry_views(out@);
    out.push(("/bad", "rate the last reply"));
    assert(entry_views(out@) =~= rated.push(("/bad"@, "rate the last reply"@)));
    out
}

/// The list of commands starts with a slash.
pub proof fn lemma_commands_start_with_a_slash()
    ensures
        t::joined(catalog_names(), "  "@).len() > 0,
        t::joined(catalog_names(), "  "@)[0] == '/',
{
    reveal_with_fuel(names_of, 7);
    reveal_strlit("/new");
    let names = catalog_names();
    assert(catalog()[0].commands == session_commands());
    assert(names[0] == "/new"@);
    t::lemma_joined_start(names, "  "@);
    assert(t::joined(names, "  "@).take(names[0].len() as int)[0] == t::joined(names, "  "@)[0]);
}

/// Every command of the catalog is shown by its name and what it does.
pub proof fn law_every_command_is_shown_in_the_help(g: int, c: int)
    requires
        0 <= g < catalog().len(),
        0 <= c < catalog()[g].commands.len(),
    ensures
        t::has(help_words(), "  "@ + catalog()[g].commands[c].0 + " — "@ + catalog()[g].commands[c].1 + "\n"@),
        catalog_names().contains(catalog()[g].commands[c].0),
{
    let all = catalog();
    let x = "  "@ + all[g].commands[c].0 + " — "@ + all[g].commands[c].1 + "\n"@;
    lemma_help_groups(all, all.len() as int, g, c);
    t::lemma_has_inside("Maturana commands:\n"@, help_groups(all, all.len() as int), "\nAny other message is sent to the agent."@, x);
    lemma_names_of(all, all.len() as int, g, c);
}

proof fn lemma_help_lines(v: Seq<(Seq<char>, Seq<char>)>, n: int, c: int)
    requires
        0 <= c < n <= v.len(),
    ensures
        t::has(help_lines(v, n), "  "@ + v[c].0 + " — "@ + v[c].1 + "\n"@),
    decreases n,
{
    let before = help_lines(v, n - 1);
    let last = "  "@ + v[n - 1].0 + " — "@ + v[n - 1].1 + "\n"@;
    let e = Seq::<char>::empty();
    assert(help_lines(v, n) =~= before + last);
    if c == n - 1 {
        t::lemma_has_part(before, last, e);
        assert(before + last + e =~= before + last);
    } else {
        lemma_help_lines(v, n - 1, c);
        t::lemma_has_inside(e, before, last, "  "@ + v[c].0 + " — "@ + v[c].1 + "\n"@);
        assert(e + before + last =~= before + last);
    }
}

proof fn lemma_help_groups(all: Seq<GroupView>, n: int, g: int, c: int)
    requires
        0 <= g < n <= all.len(),
        0 <= c < all[g].commands.len(),
    ensures
        t::has(help_groups(all, n), "  "@ + all[g].commands[c].0 + " — "@ + all[g].commands[c].1 + "\n"@),
    decreases n,
{
    let x = "  "@ + all[g].commands[c].0 + " — "@ + all[g].commands[c].1 + "\n"@;
    let before = help_groups(all, n - 1);
    let title = "\n"@ + all[n - 1].name + "\n"@;
    let lines = help_lines(all[n - 1].commands, all[n - 1].commands.len() as int);
    let e = Seq::<char>::empty();
    assert(help_groups(all, n) =~= before + title + lines);
    if g == n - 1 {
        lemma_help_lines(all[g].commands, all[g].commands.len() as int, c);
        t::lemma_has_inside(before + title, lines, e, x);
        assert(before + title + lines + e =~= before + title + lines);
    } else {
        lemma_help_groups(all, n - 1, g, c);
        t::lemma_has_inside(e, before, title + lines, x);
        assert(e + before + (title + lines) =~= before + title + lines);
    }
}

proof fn lemma_names_of(all: Seq<GroupView>, n: int, g: int, c: int)
    requires
        0 <= g < n <= all.len(),
        0 <= c < all[g].commands.len(),
    ensures
        names_of(all, n).contains(all[g].commands[c].0),
    decreases n,
{
    let before = names_of(all, n - 1);
    let more = names_in(all[n - 1].commands);
    let whole = names_of(all, n);
    if g == n - 1 {
        assert(whole[before.len() as int + c] == more[c]);
    } else {
        lemma_names_of(all, n - 1, g, c);
        let k = choose|k: int| 0 <= k < before.len() && before[k] == all[g].commands[c].0;
        assert(whole[k] == before[k]);
    }
}

} // verus!
