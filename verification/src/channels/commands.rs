//! The channel commands.

use crate::channels::serve::ServeOptions;
use crate::text as t;
use vstd::prelude::*;
use vstd::string::*;

verus! {

#[derive(Debug, PartialEq, Eq)]
pub struct ChannelCommand {
    pub command: ChannelSubcommand,
}

#[derive(Debug, PartialEq, Eq)]
pub enum ChannelSubcommand {
    Pair { command: ChannelPairSubcommand },
    Serve { command: ChannelServeSubcommand },
    /// Show how an agent's channel is paired and served.
    Status { platform: String, agent_id: String },
}

#[derive(Debug, PartialEq, Eq)]
pub enum ChannelPairSubcommand {
    Telegram { command: TelegramPairSubcommand },
}

#[derive(Debug, PartialEq, Eq)]
pub enum TelegramPairSubcommand {
    Start { agent_id: String, token_source: String },
    Complete { agent_id: String, token_source: String, timeout_seconds: u64 },
    Status { agent_id: String },
}

#[derive(Debug, PartialEq, Eq)]
pub enum ChannelServeSubcommand {
    Telegram(TelegramServe),
    Slack(SlackServe),
    Discord(DiscordServe),
    Agentmail(AgentMailServe),
}

#[derive(Debug, PartialEq, Eq)]
pub struct SlackServe {
    pub agent_id: String,
    pub session_id: String,
    pub bot_token_source: String,
    pub app_token_source: String,
    pub once: bool,
    pub run_once_provider: Option<String>,
}

#[derive(Debug, PartialEq, Eq)]
pub struct DiscordServe {
    pub agent_id: String,
    pub session_id: String,
    pub bot_token_source: String,
    pub once: bool,
    pub run_once_provider: Option<String>,
}

#[derive(Debug, PartialEq, Eq)]
pub struct AgentMailServe {
    pub agent_id: String,
    pub session_id: String,
    pub api_key_source: String,
    /// The inbox; none stands for the default one of the account.
    pub inbox: Option<String>,
    pub once: bool,
    pub run_once_provider: Option<String>,
    pub poll_seconds: u64,
}

#[derive(Debug, Clone, PartialEq, Eq)]
pub struct TelegramServe {
    pub agent_id: String,
    pub session_id: String,
    pub token_source: String,
    pub once: bool,
    pub run_once_provider: Option<String>,
    pub poll_seconds: u64,
    pub timeout_seconds: u64,
}

impl TelegramServe {
    /// How the loop of the channel runs.
    pub fn options(&self) -> (r: ServeOptions)
        ensures
            r == (ServeOptions {
                once: self.once,
                poll_seconds: self.poll_seconds,
                timeout_seconds: self.timeout_seconds,
            }),
    {
        ServeOptions { once: self.once, poll_seconds: self.poll_seconds, timeout_seconds: self.timeout_seconds }
    }
}

/// What a channel command asks for.
#[derive(Debug, PartialEq, Eq)]
pub enum ChannelTask {
    StartPairing { agent_id: String, token_source: String },
    CompletePairing { agent_id: String, token_source: String, timeout_seconds: u64 },
    PairingStatus { agent_id: String },
    ServeTelegram { config: TelegramServe },
    ServeSlack { config: SlackServe },
    ServeDiscord { config: DiscordServe },
    ServeAgentmail { config: AgentMailServe },
    /// Whatever platform is named, it is the Telegram channel that is shown.
    Status { agent_id: String },
}

/// Finds what a channel command asks for.
pub fn handle_channel(command: ChannelCommand) -> (r: ChannelTask)
    ensures
        match command.command {
            ChannelSubcommand::Pair { command: ChannelPairSubcommand::Telegram { command: pair } } => match pair {
                TelegramPairSubcommand::Start { agent_id, token_source } => r == (ChannelTask::StartPairing {
                    agent_id,
                    token_source,
                }),
                TelegramPairSubcommand::Complete { agent_id, token_source, timeout_seconds } => r == (
                ChannelTask::CompletePairing { agent_id, token_source, timeout_seconds }),
                TelegramPairSubcommand::Status { agent_id } => r == (ChannelTask::PairingStatus { agent_id }),
            },
            ChannelSubcommand::Serve { command: serve } => match serve {
                ChannelServeSubcommand::Telegram(config) => r == (ChannelTask::ServeTelegram { config }),
                ChannelServeSubcommand::Slack(config) => r == (ChannelTask::ServeSlack { config }),
                ChannelServeSubcommand::Discord(config) => r == (ChannelTask::ServeDiscord { config }),
                ChannelServeSubcommand::Agentmail(config) => r == (ChannelTask::ServeAgentmail { config }),
            },
            ChannelSubcommand::Status { platform: _, agent_id } => r == (ChannelTask::Status { agent_id }),
        },
{
    match command.command {
        ChannelSubcommand::Pair { command } => match command {
            ChannelPairSubcommand::Telegram { command } => match command {
                TelegramPairSubcommand::Start { agent_id, token_source } => ChannelTask::StartPairing {
                    agent_id,
                    token_source,
                },
                TelegramPairSubcommand::Complete { agent_id, token_source, timeout_seconds } => {
                    ChannelTask::CompletePairing { agent_id, token_source, timeout_seconds }
                },
                TelegramPairSubcommand::Status { agent_id } => ChannelTask::PairingStatus { agent_id },
            },
        },
        ChannelSubcommand::Serve { command } => match command {
            ChannelServeSubcommand::Telegram(config) => ChannelTask::ServeTelegram { config },
            ChannelServeSubcommand::Slack(config) => ChannelTask::ServeSlack { config },
            ChannelServeSubcommand::Discord(config) => ChannelTask::ServeDiscord { config },
            ChannelServeSubcommand::Agentmail(config) => ChannelTask::ServeAgentmail { config },
        },
        ChannelSubcommand::Status { platform: _, agent_id } => ChannelTask::Status { agent_id },
    }
}

/// What the log of a channel says of replies that an earlier run left behind.
pub fn flushed_text(flushed: usize) -> (r: Option<String>)
    ensures
        t::opt_view(r) == if flushed > 0 {
            Some("telegram: flushed "@ + t::decimal(flushed as nat) + " reply(ies) orphaned by restart"@)
        } else {
            None
        },
{
    if flushed > 0 {
        Some(
            "telegram: flushed ".to_owned().concat(t::usize_text(flushed).as_str()).concat(
                " reply(ies) orphaned by restart",
            ),
        )
    } else {
        None
    }
}

} // verus!
