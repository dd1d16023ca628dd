//! The commands of the program.

use vstd::prelude::*;

pub mod agent;
pub mod audit;
pub mod claude_refresh;
pub mod doctor;
pub mod hostd;
pub mod improve;
pub mod notify;
pub mod pipelock;
pub mod plugin;
pub mod repair;
pub mod search;
pub mod skill;
pub mod snapshot;
pub mod spec;
pub mod status;
pub mod tool;
pub mod up;
pub mod vm;
pub mod web;

verus! {

/// The commands, as plugins know them.
#[derive(Clone, Copy, Debug, PartialEq, Eq, Structural)]
pub enum CommandKind {
    Spec,
    Agent,
    Snapshot,
    Vm,
    Audit,
    Hostd,
    Pipelock,
    Notify,
    Personal,
    Wiki,
    Heartbeat,
    Schedule,
    Proactive,
    Orchestrator,
    Board,
    A2a,
    Deploy,
    Develop,
    Skill,
    Plugin,
    Channel,
    Session,
    Graph,
    Up,
    List,
    Status,
    Tui,
    Web,
    Search,
    Service,
    ClaudeRefresh,
    Tool,
    Improve,
    Doctor,
    Repair,
}

impl CommandKind {
    pub open spec fn name(self, coder: Seq<char>) -> Seq<char> {
        match self {
            CommandKind::Spec => "spec"@,
            CommandKind::Agent => "agent"@,
            CommandKind::Snapshot => "snapshot"@,
            CommandKind::Vm => "vm"@,
            CommandKind::Audit => "audit"@,
            CommandKind::Hostd => "hostd"@,
            CommandKind::Pipelock => "pipelock"@,
            CommandKind::Notify => "notify"@,
            CommandKind::Personal => "personal"@,
            CommandKind::Wiki => "wiki"@,
            CommandKind::Heartbeat => "heartbeat"@,
            CommandKind::Schedule => "schedule"@,
            CommandKind::Proactive => "proactive"@,
            CommandKind::Orchestrator => "orchestrator"@,
            CommandKind::Board => "board"@,
            CommandKind::A2a => "a2a"@,
            CommandKind::Deploy => "deploy"@,
            CommandKind::Develop => "develop"@,
            CommandKind::Skill => "skill"@,
            CommandKind::Plugin => "plugin"@,
            CommandKind::Channel => "channel"@,
            CommandKind::Session => "session"@,
            CommandKind::Graph => "graph"@,
            CommandKind::Up => "up"@,
            CommandKind::List => "list"@,
            CommandKind::Status => "status"@,
            CommandKind::Tui => "tui"@,
            CommandKind::Web => "web"@,
            CommandKind::Search => "search"@,
            CommandKind::Service => "service"@,
            CommandKind::ClaudeRefresh => coder + "-refresh"@,
            CommandKind::Tool => "tool"@,
            CommandKind::Improve => "improve"@,
            CommandKind::Doctor => "doctor"@,
            CommandKind::Repair => "setup"@,
        }
    }

    /// The name by which a plugin may switch the command off. `coder` is the
    /// command of the coding tool whose tokens the host keeps fresh.
    pub fn plugin_command_name(&self, coder: &str) -> (r: String)
        ensures
            r@ == self.name(coder@),
    {
        match self {
            CommandKind::Spec => "spec".to_owned(),
            CommandKind::Agent => "agent".to_owned(),
            CommandKind::Snapshot => "snapshot".to_owned(),
            CommandKind::Vm => "vm".to_owned(),
            CommandKind::Audit => "audit".to_owned(),
            CommandKind::Hostd => "hostd".to_owned(),
            CommandKind::Pipelock => "pipelock".to_owned(),
            CommandKind::Notify => "notify".to_owned(),
            CommandKind::Personal => "personal".to_owned(),
            CommandKind::Wiki => "wiki".to_owned(),
            CommandKind::Heartbeat => "heartbeat".to_owned(),
            CommandKind::Schedule => "schedule".to_owned(),
            CommandKind::Proactive => "proactive".to_owned(),
            CommandKind::Orchestrator => "orchestrator".to_owned(),
            CommandKind::Board => "board".to_owned(),
            CommandKind::A2a => "a2a".to_owned(),
            CommandKind::Deploy => "deploy".to_owned(),
            CommandKind::Develop => "develop".to_owned(),
            CommandKind::Skill => "skill".to_owned(),
            CommandKind::Plugin => "plugin".to_owned(),
            CommandKind::Channel => "channel".to_owned(),
            CommandKind::Session => "session".to_owned(),
            CommandKind::Graph => "graph".to_owned(),
            CommandKind::Up => "up".to_owned(),
            CommandKind::List => "list".to_owned(),
            CommandKind::Status => "status".to_owned(),
            CommandKind::Tui => "tui".to_owned(),
            CommandKind::Web => "web".to_owned(),
            CommandKind::Search => "search".to_owned(),
            CommandKind::Service => "service".to_owned(),
            CommandKind::ClaudeRefresh => coder.to_owned().concat("-refresh"),
            CommandKind::Tool => "tool".to_owned(),
            CommandKind::Improve => "improve".to_owned(),
            CommandKind::Doctor => "doctor".to_owned(),
            CommandKind::Repair => "setup".to_owned(),
        }
    }
}

} // verus!
