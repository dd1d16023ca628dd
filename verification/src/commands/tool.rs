//! The registry of sandboxed tools that agents build.

use crate::text as t;
use vstd::prelude::*;
use vstd::string::*;

verus! {

#[derive(Debug, PartialEq, Eq)]
pub struct ToolCommand {
    pub command: ToolSubcommand<String>,
}

#[derive(Debug, PartialEq, Eq)]
pub enum ToolSubcommand<S> {
    /// Register a compiled module.
    Register { name: S, wasm: S, manifest: Option<S>, version: S, description: S },
    List { json: bool },
    /// Show the manifest of a tool.
    Inspect { name: S },
    /// Run a tool with a JSON input.
    Run { name: S, input: S, input_file: Option<S>, agent_id: Option<S> },
}

impl View for ToolSubcommand<String> {
    type V = ToolSubcommand<Seq<char>>;

    open spec fn view(&self) -> ToolSubcommand<Seq<char>> {
        match self {
            ToolSubcommand::Register { name, wasm, manifest, version, description } => ToolSubcommand::Register {
                name: name@,
                wasm: wasm@,
                manifest: t::opt_view(*manifest),
                version: version@,
                description: description@,
            },
            ToolSubcommand::List { json } => ToolSubcommand::List { json: *json },
            ToolSubcommand::Inspect { name } => ToolSubcommand::Inspect { name: name@ },
            ToolSubcommand::Run { name, input, input_file, agent_id } => ToolSubcommand::Run {
                name: name@,
                input: input@,
                input_file: t::opt_view(*input_file),
                agent_id: t::opt_view(*agent_id),
            },
        }
    }
}

/// A tool of the registry.
#[derive(Debug, PartialEq, Eq)]
pub struct ToolLine<S> {
    pub name: S,
    pub version: S,
    pub pure: bool,
    pub description: S,
}

impl View for ToolLine<String> {
    type V = ToolLine<Seq<char>>;

    open spec fn view(&self) -> ToolLine<Seq<char>> {
        ToolLine {
            name: self.name@,
            version: self.version@,
            pure: self.pure,
            description: self.description@,
        }
    }
}

pub open spec fn tools(v: Seq<ToolLine<String>>) -> Seq<ToolLine<Seq<char>>> {
    v.map_values(|x: ToolLine<String>| x@)
}

/// What a tool that was registered may do; each list as it is shown.
#[derive(Debug, PartialEq, Eq)]
pub struct StoredTool<S> {
    pub name: S,
    pub version: S,
    pub dir: S,
    pub pure: bool,
    pub fs_read: S,
    pub fs_write: S,
    pub env: S,
    pub net: S,
}

impl View for StoredTool<String> {
    type V = StoredTool<Seq<char>>;

    open spec fn view(&self) -> StoredTool<Seq<char>> {
        StoredTool {
            name: self.name@,
            version: self.version@,
            dir: self.dir@,
            pure: self.pure,
            fs_read: self.fs_read@,
            fs_write: self.fs_write@,
            env: self.env@,
            net: self.net@,
        }
    }
}

/// What a tool that ran has left.
#[derive(Debug, PartialEq, Eq)]
pub struct ToolRun<S> {
    pub tool: S,
    pub ok: bool,
    pub duration_ms: u64,
    pub stdout: S,
    pub stderr: S,
}

impl View for ToolRun<String> {
    type V = ToolRun<Seq<char>>;

    open spec fn view(&self) -> ToolRun<Seq<char>> {
        ToolRun {
            tool: self.tool@,
            ok: self.ok,
            duration_ms: self.duration_ms,
            stdout: self.stdout@,
            stderr: self.stderr@,
        }
    }
}

/// Where a command stands: what it waits for.
#[derive(Debug, PartialEq, Eq)]
pub enum ToolStage<S> {
    ReadingWasm { name: S, wasm: S, manifest: Option<S>, version: S, description: S },
    ReadingManifest { name: S, path: S },
    ParsingManifest { name: S, path: S },
    Registering { name: S },
    Listing { json: bool },
    Loading,
    ReadingInput { name: S, path: S, agent_id: Option<S> },
    Running { name: S, input: S, agent_id: Option<S> },
    /// The run is kept as a trajectory of the agent, whether or not that works; then
    /// it is audited.
    Recording { agent_id: S, message: S, say: S, failure: Option<S> },
    /// An entry of the audit log is written, whether or not that works; then this
    /// is printed, and the command ends, with the error if there is one.
    Auditing { say: S, failure: Option<S> },
    Ended,
}

impl View for ToolStage<String> {
    type V = ToolStage<Seq<char>>;

    open spec fn view(&self) -> ToolStage<Seq<char>> {
        match self {
            ToolStage::ReadingWasm { name, wasm, manifest, version, description } => ToolStage::ReadingWasm {
                name: name@,
                wasm: wasm@,
                manifest: t::opt_view(*manifest),
                version: version@,
                description: description@,
            },
            ToolStage::ReadingManifest { name, path } => ToolStage::ReadingManifest {
                name: name@,
                path: path@,
            },
            ToolStage::ParsingManifest { name, path } => ToolStage::ParsingManifest {
                name: name@,
                path: path@,
            },
            ToolStage::Registering { name } => ToolStage::Registering { name: name@ },
            ToolStage::Listing { json } => ToolStage::Listing { json: *json },
            ToolStage::Loading => ToolStage::Loading,
            ToolStage::ReadingInput { name, path, agent_id } => ToolStage::ReadingInput {
                name: name@,
                path: path@,
                agent_id: t::opt_view(*agent_id),
            },
            ToolStage::Running { name, input, agent_id } => ToolStage::Running {
                name: name@,
                input: input@,
                agent_id: t::opt_view(*agent_id),
            },
            ToolStage::Recording { agent_id, message, say, failure } => ToolStage::Recording {
                agent_id: agent_id@,
                message: message@,
                say: say@,
                failure: t::opt_view(*failure),
            },
            ToolStage::Auditing { say, failure } => ToolStage::Auditing {
                say: say@,
                failure: t::opt_view(*failure),
            },
            ToolStage::Ended => ToolStage::Ended,
        }
    }
}

#[derive(Debug, PartialEq, Eq)]
pub enum ToolEvent<S, T> {
    /// The action was carried out.
    Done,
    Failed { error: S },
    Text { text: S },
    Registered { tool: StoredTool<S> },
    Tools { list: T, root: S },
    Ran { run: ToolRun<S> },
}

impl View for ToolEvent<String, Vec<ToolLine<String>>> {
    type V = ToolEvent<Seq<char>, Seq<ToolLine<Seq<char>>>>;

    open spec fn view(&self) -> ToolEvent<Seq<char>, Seq<ToolLine<Seq<char>>>> {
        match self {
            ToolEvent::Done => ToolEvent::Done,
            ToolEvent::Failed { error } => ToolEvent::Failed { error: error@ },
            ToolEvent::Text { text } => ToolEvent::Text { text: text@ },
            ToolEvent::Registered { tool } => ToolEvent::Registered { tool: tool@ },
            ToolEvent::Tools { list, root } => ToolEvent::Tools { list: tools(list@), root: root@ },
            ToolEvent::Ran { run } => ToolEvent::Ran { run: run@ },
        }
    }
}

#[derive(Debug, PartialEq, Eq)]
pub enum ToolAction<S> {
    /// Read the module, and keep it.
    ReadWasm { path: S },
    ReadFile { path: S },
    /// Read the manifest from the text of its file.
    ParseManifest { raw: S },
    /// Register the module under the manifest that was read, with this name.
    RegisterParsed { name: S },
    /// Register the module under a manifest that allows nothing.
    RegisterDefault { name: S, version: S, description: S, wasm: S },
    ListTools,
    /// Print the list in JSON.
    PrintTools,
    LoadTool { name: S },
    /// Print the manifest in JSON.
    PrintManifest,
    RunTool { name: S, input: S },
    /// Keep a trajectory for self-improvement.
    Record { agent_id: S, session_id: S, kind: S, input: S, output: S, tool_calls: S },
    Audit { agent_id: S, action: S, message: S },
    Finish,
    Fail { message: S, cause: Option<S> },
    /// The event is not one that was waited for.
    Ignore,
}

impl View for ToolAction<String> {
    type V = ToolAction<Seq<char>>;

    open spec fn view(&self) -> ToolAction<Seq<char>> {
        match self {
            ToolAction::ReadWasm { path } => ToolAction::ReadWasm { path: path@ },
            ToolAction::ReadFile { path } => ToolAction::ReadFile { path: path@ },
            ToolAction::ParseManifest { raw } => ToolAction::ParseManifest { raw: raw@ },
            ToolAction::RegisterParsed { name } => ToolAction::RegisterParsed { name: name@ },
            ToolAction::RegisterDefault { name, version, description, wasm } => ToolAction::RegisterDefault {
                name: name@,
                version: version@,
                description: description@,
                wasm: wasm@,
            },
            ToolAction::ListTools => ToolAction::ListTools,
            ToolAction::PrintTools => ToolAction::PrintTools,
            ToolAction::LoadTool { name } => ToolAction::LoadTool { name: name@ },
            ToolAction::PrintManifest => ToolAction::PrintManifest,
            ToolAction::RunTool { name, input } => ToolAction::RunTool {
                name: name@,
                input: input@,
            },
            ToolAction::Record { agent_id, session_id, kind, input, output, tool_calls } => ToolAction::Record {
                agent_id: agent_id@,
                session_id: session_id@,
                kind: kind@,
                input: input@,
                output: output@,
                tool_calls: tool_calls@,
            },
            ToolAction::Audit { agent_id, action, message } => ToolAction::Audit {
                agent_id: agent_id@,
                action: action@,
                message: message@,
            },
            ToolAction::Finish => ToolAction::Finish,
            ToolAction::Fail { message, cause } => ToolAction::Fail {
                message: message@,
                cause: t::opt_view(*cause),
            },
            ToolAction::Ignore => ToolAction::Ignore,
        }
    }
}

/// What a command does next: print the text as it is, then act.
#[derive(Debug, PartialEq, Eq)]
pub struct ToolStep<S> {
    pub say: S,
    pub action: ToolAction<S>,
}

impl View for ToolStep<String> {
    type V = ToolStep<Seq<char>>;

    open spec fn view(&self) -> ToolStep<Seq<char>> {
        ToolStep {
            say: self.say@,
            action: self.action@,
        }
    }
}

pub type StageView = ToolStage<Seq<char>>;

pub type StepView = ToolStep<Seq<char>>;

pub open spec fn acts(action: ToolAction<Seq<char>>) -> StepView {
    ToolStep { say: Seq::empty(), action }
}

fn act(action: ToolAction<String>) -> (r: ToolStep<String>)
    ensures
        r@ == acts(action@),
{
    ToolStep { say: t::empty_text(), action }
}

/// How a command starts.
pub open spec fn started(command: ToolSubcommand<Seq<char>>) -> (StageView, StepView) {
    match command {
        ToolSubcommand::Register { name, wasm, manifest, version, description } => (
            ToolStage::ReadingWasm { name, wasm, manifest, version, description },
            acts(ToolAction::ReadWasm { path: wasm }),
        ),
        ToolSubcommand::List { json } => (ToolStage::Listing { json }, acts(ToolAction::ListTools)),
        ToolSubcommand::Inspect { name } => (ToolStage::Loading, acts(ToolAction::LoadTool { name })),
        ToolSubcommand::Run { name, input, input_file, agent_id } => match input_file {
            Some(path) => (
                ToolStage::ReadingInput { name, path, agent_id },
                acts(ToolAction::ReadFile { path }),
            ),
            None => (
                ToolStage::Running { name, input, agent_id },
                acts(ToolAction::RunTool { name, input }),
            ),
        },
    }
}

/// Starts a command.
pub fn run_tool_command(command: ToolCommand) -> (r: (ToolStage<String>, ToolStep<String>))
    ensures
        (r.0@, r.1@) == started(command.command@),
{
    match command.command {
        ToolSubcommand::Register { name, wasm, manifest, version, description } => {
            let path = wasm.clone();
            (
                ToolStage::ReadingWasm { name, wasm, manifest, version, description },
                act(ToolAction::ReadWasm { path }),
            )
        },
        ToolSubcommand::List { json } => (ToolStage::Listing { json }, act(ToolAction::ListTools)),
        ToolSubcommand::Inspect { name } => (ToolStage::Loading, act(ToolAction::LoadTool { name })),
        ToolSubcommand::Run { name, input, input_file, agent_id } => match input_file {
            Some(path) => {
                let file = path.clone();
                (ToolStage::ReadingInput { name, path, agent_id }, act(ToolAction::ReadFile { path: file }))
            },
            None => {
                let action = ToolAction::RunTool { name: name.clone(), input: input.clone() };
                (ToolStage::Running { name, input, agent_id }, act(action))
            },
        },
    }
}

/// What is said where a failed action needs its context.
pub open spec fn context(stage: StageView) -> Option<Seq<char>> {
    match stage {
        ToolStage::ReadingWasm { wasm, .. } => Some("failed to read wasm "@ + wasm),
        ToolStage::ReadingManifest { path, .. } => Some("failed to read "@ + path),
        ToolStage::ParsingManifest { path, .. } => Some("failed to parse manifest "@ + path),
        ToolStage::ReadingInput { path, .. } => Some("failed to read "@ + path),
        _ => None,
    }
}

fn explain(stage: &ToolStage<String>) -> (r: Option<String>)
    ensures
        t::opt_view(r) == context(stage@),
{
    match stage {
        ToolStage::ReadingWasm { wasm, .. } => Some("failed to read wasm ".to_owned().concat(wasm.as_str())),
        ToolStage::ReadingManifest { path, .. } => Some("failed to read ".to_owned().concat(path.as_str())),
        ToolStage::ParsingManifest { path, .. } => Some(
            "failed to parse manifest ".to_owned().concat(path.as_str()),
        ),
        ToolStage::ReadingInput { path, .. } => Some("failed to read ".to_owned().concat(path.as_str())),
        _ => None,
    }
}

/// What is printed of a tool that was registered.
pub open spec fn stored_text(tool: StoredTool<Seq<char>>) -> Seq<char> {
    let head = "registered tool "@ + tool.name + " v"@ + tool.version + " ("@ + tool.dir + ")\n"@;
    if tool.pure {
        head
    } else {
        head + ("capabilities: fs_read="@ + tool.fs_read + " fs_write="@ + tool.fs_write + " env="@ + tool.env
            + " net="@ + tool.net + "\n"@)
    }
}

pub fn print_stored(tool: &StoredTool<String>) -> (r: String)
    ensures
        r@ == stored_text(tool@),
{
    let head = "registered tool ".to_owned().concat(tool.name.as_str()).concat(" v").concat(
        tool.version.as_str(),
    ).concat(" (").concat(tool.dir.as_str()).concat(")\n");
    if tool.pure {
        head
    } else {
        let tail = "capabilities: fs_read=".to_owned().concat(tool.fs_read.as_str()).concat(" fs_write=").concat(
            tool.fs_write.as_str(),
        ).concat(" env=").concat(tool.env.as_str()).concat(" net=").concat(tool.net.as_str()).concat("\n");
        head.concat(tail.as_str())
    }
}

/// The lines of the registry.
pub open spec fn list_text(list: Seq<ToolLine<Seq<char>>>) -> Seq<char>
    decreases list.len(),
{
    if list.len() == 0 {
        Seq::empty()
    } else {
        let tool = list.last();
        list_text(list.drop_last()) + (tool.name + " v"@ + tool.version + " pure="@ + t::truth_word(tool.pure)
            + " :: "@ + tool.description + "\n"@)
    }
}

pub open spec fn listed_text(list: Seq<ToolLine<Seq<char>>>, root: Seq<char>) -> Seq<char> {
    if list.len() == 0 {
        "no tools registered under "@ + root + "\n"@
    } else {
        list_text(list)
    }
}

pub fn print_tools(list: &Vec<ToolLine<String>>, root: &str) -> (r: String)
    ensures
        r@ == listed_text(tools(list@), root@),
{
    if list.len() == 0 {
        return "no tools registered under ".to_owned().concat(root).concat("\n");
    }
    let ghost all = tools(list@);
    let mut out = t::empty_text();
    let mut i: usize = 0;
    assert(all.take(0) =~= Seq::<ToolLine<Seq<char>>>::empty());
    while i < list.len()
        invariant
            i <= list@.len(),
            all == tools(list@),
            out@ == list_text(all.take(i as int)),
        decreases list@.len() - i,
    {
        let tool = &list[i];
        let line = tool.name.clone().concat(" v").concat(tool.version.as_str()).concat(" pure=").concat(
            t::truth_text(tool.pure),
        ).concat(" :: ").concat(tool.description.as_str()).concat("\n");
        out.append(line.as_str());
        assert(all.take(i + 1).drop_last() =~= all.take(i as int));
        assert(all.take(i + 1).last() == list@[i as int]@);
        i += 1;
    }
    assert(all.take(all.len() as int) =~= all);
    out
}

/// What a tool printed, ended by a line end where it printed anything.
pub open spec fn whole_lines(stdout: Seq<char>) -> Seq<char> {
    if stdout.len() > 0 && !t::ends(stdout, "\n"@) {
        stdout + "\n"@
    } else {
        stdout
    }
}

pub open spec fn run_failure(run: ToolRun<Seq<char>>) -> Option<Seq<char>> {
    if run.ok {
        None
    } else {
        Some("tool "@ + run.tool + " failed: "@ + t::trimmed(run.stderr))
    }
}

/// How a command ends once everything is said.
pub open spec fn ends(say: Seq<char>, failure: Option<Seq<char>>) -> (StageView, StepView) {
    (
        ToolStage::Ended,
        ToolStep {
            say,
            action: match failure {
                Some(message) => ToolAction::Fail { message, cause: None },
                None => ToolAction::Finish,
            },
        },
    )
}

fn end(say: String, failure: Option<String>) -> (r: (ToolStage<String>, ToolStep<String>))
    ensures
        (r.0@, r.1@) == ends(say@, t::opt_view(failure)),
{
    let action = match failure {
        Some(message) => ToolAction::Fail { message, cause: None },
        None => ToolAction::Finish,
    };
    (ToolStage::Ended, ToolStep { say, action })
}

/// What the audit log says of a run.
pub open spec fn ran_text(run: ToolRun<Seq<char>>) -> Seq<char> {
    "ran tool "@ + run.tool + " ok="@ + t::truth_word(run.ok) + " duration_ms="@ + t::decimal(
        run.duration_ms as nat,
    )
}

/// A run is audited.
pub open spec fn audits(agent_id: Seq<char>, message: Seq<char>, say: Seq<char>, failure: Option<Seq<char>>) -> (
    StageView,
    StepView,
) {
    (
        ToolStage::Auditing { say, failure },
        acts(ToolAction::Audit { agent_id, action: "tool.run"@, message }),
    )
}

fn audit(agent_id: String, message: String, say: String, failure: Option<String>) -> (r: (
    ToolStage<String>,
    ToolStep<String>,
))
    ensures
        (r.0@, r.1@) == audits(agent_id@, message@, say@, t::opt_view(failure)),
{
    (
        ToolStage::Auditing { say, failure },
        act(ToolAction::Audit { agent_id, action: "tool.run".to_owned(), message }),
    )
}

impl ToolStage<Seq<char>> {
    /// How a command goes on when an event comes.
    pub open spec fn next(self, event: ToolEvent<Seq<char>, Seq<ToolLine<Seq<char>>>>) -> (StageView, StepView) {
        match (self, event) {
            (ToolStage::Ended, _) => (self, acts(ToolAction::Ignore)),
            (ToolStage::Auditing { say, failure }, ToolEvent::Done) => ends(say, failure),
            (ToolStage::Auditing { say, failure }, ToolEvent::Failed { .. }) => ends(say, failure),
            (ToolStage::Recording { agent_id, message, say, failure }, ToolEvent::Done) => audits(
                agent_id,
                message,
                say,
                failure,
            ),
            (ToolStage::Recording { agent_id, message, say, failure }, ToolEvent::Failed { .. }) => audits(
                agent_id,
                message,
                say,
                failure,
            ),
            (_, ToolEvent::Failed { error }) => (
                ToolStage::Ended,
                acts(
                    match context(self) {
                        Some(message) => ToolAction::Fail { message, cause: Some(error) },
                        None => ToolAction::Fail { message: error, cause: None },
                    },
                ),
            ),
            (ToolStage::ReadingWasm { name, wasm, manifest, version, description }, ToolEvent::Done) => {
                match manifest {
                    Some(path) => (
                        ToolStage::ReadingManifest { name, path },
                        acts(ToolAction::ReadFile { path }),
                    ),
                    None => (
                        ToolStage::Registering { name },
                        acts(
                            ToolAction::RegisterDefault { name, version, description, wasm: "module.wasm"@ },
                        ),
                    ),
                }
            },
            (ToolStage::ReadingManifest { name, path }, ToolEvent::Text { text }) => (
                ToolStage::ParsingManifest { name, path },
                acts(ToolAction::ParseManifest { raw: text }),
            ),
            (ToolStage::ParsingManifest { name, path }, ToolEvent::Done) => (
                ToolStage::Registering { name },
                acts(ToolAction::RegisterParsed { name }),
            ),
            (ToolStage::Registering { name }, ToolEvent::Registered { tool }) => (
                ToolStage::Auditing { say: stored_text(tool), failure: None },
                acts(
                    ToolAction::Audit {
                        agent_id: name,
                        action: "tool.register"@,
                        message: "registered wasm tool "@ + tool.name + " v"@ + tool.version,
                    },
                ),
            ),
            (ToolStage::Listing { json }, ToolEvent::Tools { list, root }) => if json {
                (ToolStage::Loading, acts(ToolAction::PrintTools))
            } else {
                ends(listed_text(list, root), None)
            },
            (ToolStage::Loading, ToolEvent::Text { text }) => ends(text + "\n"@, None),
            (ToolStage::Loading, ToolEvent::Done) => (self, acts(ToolAction::PrintManifest)),
            (ToolStage::ReadingInput { name, path, agent_id }, ToolEvent::Text { text }) => (
                ToolStage::Running { name, input: text, agent_id },
                acts(ToolAction::RunTool { name, input: text }),
            ),
            (ToolStage::Running { name, input, agent_id }, ToolEvent::Ran { run }) => match agent_id {
                Some(agent_id) => (
                    ToolStage::Recording {
                        agent_id,
                        message: ran_text(run),
                        say: whole_lines(run.stdout),
                        failure: run_failure(run),
                    },
                    acts(
                        ToolAction::Record {
                            agent_id,
                            session_id: "telegram-main"@,
                            kind: "tool"@,
                            input: "/tool "@ + name + " "@ + input,
                            output: run.stdout,
                            tool_calls: "[]"@,
                        },
                    ),
                ),
                None => ends(whole_lines(run.stdout), run_failure(run)),
            },
            _ => (self, acts(ToolAction::Ignore)),
        }
    }
}

fn finish_lines(stdout: String) -> (r: String)
    ensures
        r@ == whole_lines(stdout@),
{
    if stdout.as_str().unicode_len() > 0 && !t::ends_with(stdout.as_str(), "\n") {
        stdout.concat("\n")
    } else {
        stdout
    }
}

impl ToolStage<String> {
    /// Goes on when an event comes.
    pub fn advance(self, event: ToolEvent<String, Vec<ToolLine<String>>>) -> (r: (
        ToolStage<String>,
        ToolStep<String>,
    ))
        ensures
            (r.0@, r.1@) == self@.next(event@),
    {
        match (self, event) {
            (ToolStage::Ended, _) => (ToolStage::Ended, act(ToolAction::Ignore)),
            (ToolStage::Auditing { say, failure }, ToolEvent::Done) => end(say, failure),
            (ToolStage::Auditing { say, failure }, ToolEvent::Failed { .. }) => end(say, failure),
            (ToolStage::Recording { agent_id, message, say, failure }, ToolEvent::Done) => audit(
                agent_id,
                message,
                say,
                failure,
            ),
            (ToolStage::Recording { agent_id, message, say, failure }, ToolEvent::Failed { .. }) => audit(
                agent_id,
                message,
                say,
                failure,
            ),
            (stage, ToolEvent::Failed { error }) => {
                let action = match explain(&stage) {
                    Some(message) => ToolAction::Fail { message, cause: Some(error) },
                    None => ToolAction::Fail { message: error, cause: None },
                };
                (ToolStage::Ended, act(action))
            },
            (ToolStage::ReadingWasm { name, wasm: _, manifest, version, description }, ToolEvent::Done) => {
                match manifest {
                    Some(path) => {
                        let file = path.clone();
                        (ToolStage::ReadingManifest { name, path }, act(ToolAction::ReadFile { path: file }))
                    },
                    None => {
                        let action = ToolAction::RegisterDefault {
                            name: name.clone(),
                            version,
                            description,
                            wasm: "module.wasm".to_owned(),
                        };
                        (ToolStage::Registering { name }, act(action))
                    },
                }
            },
            (ToolStage::ReadingManifest { name, path }, ToolEvent::Text { text }) => (
                ToolStage::ParsingManifest { name, path },
                act(ToolAction::ParseManifest { raw: text }),
            ),
            (ToolStage::ParsingManifest { name, path: _ }, ToolEvent::Done) => {
                let action = ToolAction::RegisterParsed { name: name.clone() };
                (ToolStage::Registering { name }, act(action))
            },
            (ToolStage::Registering { name }, ToolEvent::Registered { tool }) => {
                let message = "registered wasm tool ".to_owned().concat(tool.name.as_str()).concat(" v").concat(
                    tool.version.as_str(),
                );
                let say = print_stored(&tool);
                (
                    ToolStage::Auditing { say, failure: None },
                    act(ToolAction::Audit { agent_id: name, action: "tool.register".to_owned(), message }),
                )
            },
            (ToolStage::Listing { json }, ToolEvent::Tools { list, root }) => {
                if json {
                    (ToolStage::Loading, act(ToolAction::PrintTools))
                } else {
                    end(print_tools(&list, root.as_str()), None)
                }
            },
            (ToolStage::Loading, ToolEvent::Text { text }) => end(text.concat("\n"), None),
            (ToolStage::Loading, ToolEvent::Done) => (ToolStage::Loading, act(ToolAction::PrintManifest)),
            (ToolStage::ReadingInput { name, path: _, agent_id }, ToolEvent::Text { text }) => {
                let action = ToolAction::RunTool { name: name.clone(), input: text.clone() };
                (ToolStage::Running { name, input: text, agent_id }, act(action))
            },
            (ToolStage::Running { name, input, agent_id }, ToolEvent::Ran { run }) => {
                let failure: Option<String> = if run.ok {
                    None
                } else {
                    Some(
                        "tool ".to_owned().concat(run.tool.as_str()).concat(" failed: ").concat(
                            t::trim(run.stderr.as_str()).as_str(),
                        ),
                    )
                };
                let message = "ran tool ".to_owned().concat(run.tool.as_str()).concat(" ok=").concat(
                    t::truth_text(run.ok),
                ).concat(" duration_ms=").concat(t::u64_text(run.duration_ms).as_str());
                let output = run.stdout.clone();
                let say = finish_lines(run.stdout);
                match agent_id {
                    Some(agent_id) => {
                        let action = ToolAction::Record {
                            agent_id: agent_id.clone(),
                            session_id: "telegram-main".to_owned(),
                            kind: "tool".to_owned(),
                            input: "/tool ".to_owned().concat(name.as_str()).concat(" ").concat(input.as_str()),
                            output,
                            tool_calls: "[]".to_owned(),
                        };
                        (ToolStage::Recording { agent_id, message, say, failure }, act(action))
                    },
                    None => end(say, failure),
                }
            },
            (stage, _) => (stage, act(ToolAction::Ignore)),
        }
    }
}

/// A run that failed ends the command with an error, whether it was for an agent
/// or not, and whether or not it could be kept and audited; one that went well
/// never does.
pub proof fn law_a_failed_run_is_an_error(
    name: Seq<char>,
    input: Seq<char>,
    agent_id: Option<Seq<char>>,
    run: ToolRun<Seq<char>>,
    kept: bool,
    audited: bool,
    error: Seq<char>,
)
    ensures
        ({
            let stage: StageView = ToolStage::Running { name, input, agent_id };
            let (recording, step) = stage.next(ToolEvent::Ran { run });
            let auditing = recording.next(if kept {
                ToolEvent::Done
            } else {
                ToolEvent::Failed { error }
            }).0;
            let last = if agent_id is Some {
                auditing.next(if audited {
                    ToolEvent::Done
                } else {
                    ToolEvent::Failed { error }
                }).1
            } else {
                step
            };
            (last.action is Fail <==> !run.ok) && (last.action is Finish <==> run.ok) && last.say == whole_lines(
                run.stdout,
            )
        }),
{
}

/// A run for an agent is kept as a trajectory of the agent, and then audited; one
/// for no agent is neither.
pub proof fn law_a_run_for_an_agent_is_kept(
    name: Seq<char>,
    input: Seq<char>,
    agent_id: Option<Seq<char>>,
    run: ToolRun<Seq<char>>,
)
    ensures
        ({
            let stage: StageView = ToolStage::Running { name, input, agent_id };
            let (recording, step) = stage.next(ToolEvent::Ran { run });
            &&& step.action is Record <==> agent_id is Some
            &&& agent_id matches Some(id) ==> step.action->Record_agent_id == id && step.action->Record_output
                == run.stdout && recording.next(ToolEvent::Done).1.action is Audit
        }),
{
}

/// A tool is run with the input that was given, or with what its file holds.
pub proof fn law_a_tool_is_run_with_its_input(
    name: Seq<char>,
    input: Seq<char>,
    path: Seq<char>,
    text: Seq<char>,
    agent_id: Option<Seq<char>>,
)
    ensures
        ({
            let given = started(ToolSubcommand::Run { name, input, input_file: None, agent_id });
            let (reading, first) = started(ToolSubcommand::Run { name, input, input_file: Some(path), agent_id });
            let (running, second) = reading.next(ToolEvent::Text { text });
            &&& given.1.action == (ToolAction::<Seq<char>>::RunTool { name, input })
            &&& given.0 == (StageView::Running { name, input, agent_id })
            &&& first.action == (ToolAction::<Seq<char>>::ReadFile { path })
            &&& second.action == (ToolAction::<Seq<char>>::RunTool { name, input: text })
            &&& running == (StageView::Running { name, input: text, agent_id })
        }),
{
}

/// A tool is registered by its manifest where one is given, else with the version
/// and the description of the command; what was stored is told.
pub proof fn law_a_tool_is_registered_as_described(
    name: Seq<char>,
    wasm: Seq<char>,
    path: Seq<char>,
    raw: Seq<char>,
    version: Seq<char>,
    description: Seq<char>,
    tool: StoredTool<Seq<char>>,
)
    ensures
        ({
            let (plain, first) = started(
                ToolSubcommand::Register { name, wasm, manifest: None, version, description },
            );
            let (with, _) = started(ToolSubcommand::Register { name, wasm, manifest: Some(path), version, description });
            let (reading, second) = with.next(ToolEvent::Done);
            let (parsing, third) = reading.next(ToolEvent::Text { text: raw });
            let (registering, fourth) = parsing.next(ToolEvent::Done);
            let (auditing, fifth) = registering.next(ToolEvent::Registered { tool });
            let bare = plain.next(ToolEvent::Done);
            &&& first.action == (ToolAction::<Seq<char>>::ReadWasm { path: wasm })
            &&& bare.1.action matches ToolAction::RegisterDefault { name: n, version: v, description: d, .. } && n == name
                && v == version && d == description
            &&& bare.0 == registering
            &&& second.action == (ToolAction::<Seq<char>>::ReadFile { path })
            &&& third.action == (ToolAction::<Seq<char>>::ParseManifest { raw })
            &&& fourth.action == (ToolAction::<Seq<char>>::RegisterParsed { name })
            &&& fifth.action matches ToolAction::Audit { agent_id, .. } && agent_id == name
            &&& auditing.next(ToolEvent::Done).1.say == stored_text(tool) && auditing.next(ToolEvent::Done).1.action is Finish
            &&& t::starts(stored_text(tool), "registered tool "@ + tool.name + " v"@ + tool.version)
            &&& !tool.pure ==> t::has(stored_text(tool), "net="@ + tool.net)
        }),
{
    let all = stored_text(tool);
    let a = "registered tool "@ + tool.name + " v"@ + tool.version;
    assert(all.subrange(0, a.len() as int) =~= a);
    if !tool.pure {
        let head = "registered tool "@ + tool.name + " v"@ + tool.version + " ("@ + tool.dir + ")\n"@;
        let caps = "capabilities: fs_read="@ + tool.fs_read + " fs_write="@ + tool.fs_write + " env="@ + tool.env;
        reveal_strlit(" net=");
        reveal_strlit("net=");
        assert(" net="@.skip(1) =~= "net="@);
        let x = "net="@ + tool.net;
        let front = head + caps + " net="@.take(1);
        t::lemma_has_part(front, x, "\n"@);
        assert(front + x + "\n"@ =~= all);
    }
}

/// The tools are listed one by one, or it is said that there are none; as a
/// document where that was asked for.
pub proof fn law_the_tools_are_listed(list: Seq<ToolLine<Seq<char>>>, root: Seq<char>, i: int)
    requires
        0 <= i < list.len(),
    ensures
        started(ToolSubcommand::List { json: false }).0.next(ToolEvent::Tools { list, root }).1.say == listed_text(list, root),
        started(ToolSubcommand::List { json: true }).0.next(ToolEvent::Tools { list, root }).1.action is PrintTools,
        t::has(listed_text(list, root), list[i].name + " v"@ + list[i].version),
        listed_text(Seq::empty(), root) == "no tools registered under "@ + root + "\n"@,
{
    lemma_list_text(list, i);
}

proof fn lemma_list_text(list: Seq<ToolLine<Seq<char>>>, i: int)
    requires
        0 <= i < list.len(),
    ensures
        t::has(list_text(list), list[i].name + " v"@ + list[i].version),
    decreases list.len(),
{
    let e = Seq::<char>::empty();
    let front = list_text(list.drop_last());
    let tool = list.last();
    let z = " pure="@ + t::truth_word(tool.pure) + " :: "@ + tool.description + "\n"@;
    let x = tool.name + " v"@ + tool.version;
    assert(list_text(list) =~= front + x + z);
    if i == list.len() - 1 {
        t::lemma_has_part(front, x, z);
    } else {
        lemma_list_text(list.drop_last(), i);
        assert(list.drop_last()[i] == list[i]);
        t::lemma_has_inside(e, front, x + z, list[i].name + " v"@ + list[i].version);
        assert(e + front + (x + z) =~= front + x + z);
    }
}

/// A run for an agent is kept with the command as it was given and the output as
/// it came; what is said ends its line.
pub proof fn law_a_run_is_kept_as_it_was(
    name: Seq<char>,
    input: Seq<char>,
    agent: Seq<char>,
    run: ToolRun<Seq<char>>,
)
    ensures
        ({
            let stage: StageView = ToolStage::Running { name, input, agent_id: Some(agent) };
            let (recording, step) = stage.next(ToolEvent::Ran { run });
            &&& step.action matches ToolAction::Record { agent_id, input: said, output, .. } && agent_id == agent && said
                == "/tool "@ + name + " "@ + input && output == run.stdout
            &&& recording.next(ToolEvent::Done).1.action matches ToolAction::Audit { agent_id, message, .. } && agent_id
                == agent && t::has(message, run.tool)
        }),
        run.stdout.len() > 0 ==> t::ends(whole_lines(run.stdout), "\n"@),
        t::starts(whole_lines(run.stdout), run.stdout),
        !run.ok ==> (run_failure(run) matches Some(m) && t::has(m, t::trimmed(run.stderr))),
{
    let words = ran_text(run);
    t::lemma_has_part(
        "ran tool "@,
        run.tool,
        " ok="@ + t::truth_word(run.ok) + " duration_ms="@ + t::decimal(run.duration_ms as nat),
    );
    assert("ran tool "@ + run.tool + (" ok="@ + t::truth_word(run.ok) + " duration_ms="@ + t::decimal(
        run.duration_ms as nat,
    )) =~= words);
    let all = whole_lines(run.stdout);
    assert(all.subrange(0, run.stdout.len() as int) =~= run.stdout);
    if run.stdout.len() > 0 && !t::ends(run.stdout, "\n"@) {
        assert(all.subrange(all.len() - "\n"@.len(), all.len() as int) =~= "\n"@);
    }
    let e = Seq::<char>::empty();
    let a = "tool "@ + run.tool + " failed: "@;
    t::lemma_has_part(a, t::trimmed(run.stderr), e);
    assert(a + t::trimmed(run.stderr) + e =~= a + t::trimmed(run.stderr));
}

} // verus!
