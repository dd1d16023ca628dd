//! One-off messages to a chat.

use crate::json;
use crate::json::{Json, Tree};
use crate::text as t;
use vstd::prelude::*;
use vstd::string::*;

verus! {

#[derive(Debug, PartialEq, Eq)]
pub enum NotifySubcommand<S> {
    Telegram { token_source: S, chat_id_source: Option<S>, message: S, dry_run: bool },
    Discord { webhook_source: S, message: S, dry_run: bool },
}

impl View for NotifySubcommand<String> {
    type V = NotifySubcommand<Seq<char>>;

    open spec fn view(&self) -> NotifySubcommand<Seq<char>> {
        match self {
            NotifySubcommand::Telegram { token_source, chat_id_source, message, dry_run } => NotifySubcommand::Telegram {
                token_source: token_source@,
                chat_id_source: t::opt_view(*chat_id_source),
                message: message@,
                dry_run: *dry_run,
            },
            NotifySubcommand::Discord { webhook_source, message, dry_run } => NotifySubcommand::Discord {
                webhook_source: webhook_source@,
                message: message@,
                dry_run: *dry_run,
            },
        }
    }
}

/// What a notification begins with.
#[derive(Debug, PartialEq, Eq)]
pub enum NotifyStart<S> {
    /// Print this, and send nothing.
    DryRun { say: S },
    /// Send to a Telegram chat; its source is to be found, where none is given.
    Telegram { token_source: S, chat_id_source: Option<S>, message: S },
    Discord { webhook_source: S, message: S },
}

impl View for NotifyStart<String> {
    type V = NotifyStart<Seq<char>>;

    open spec fn view(&self) -> NotifyStart<Seq<char>> {
        match self {
            NotifyStart::DryRun { say } => NotifyStart::DryRun { say: say@ },
            NotifyStart::Telegram { token_source, chat_id_source, message } => NotifyStart::Telegram {
                token_source: token_source@,
                chat_id_source: t::opt_view(*chat_id_source),
                message: message@,
            },
            NotifyStart::Discord { webhook_source, message } => NotifyStart::Discord {
                webhook_source: webhook_source@,
                message: message@,
            },
        }
    }
}

impl NotifySubcommand<Seq<char>> {
    pub open spec fn start(self) -> NotifyStart<Seq<char>> {
        match self {
            NotifySubcommand::Telegram { token_source, chat_id_source, message, dry_run } => if dry_run {
                NotifyStart::DryRun { say: "telegram notification dry-run: "@ + message }
            } else {
                NotifyStart::Telegram { token_source, chat_id_source, message }
            },
            NotifySubcommand::Discord { webhook_source, message, dry_run } => if dry_run {
                NotifyStart::DryRun { say: "discord notification dry-run: "@ + message }
            } else {
                NotifyStart::Discord { webhook_source, message }
            },
        }
    }
}

pub fn handle_notify(command: NotifySubcommand<String>) -> (r: NotifyStart<String>)
    ensures
        r@ == command@.start(),
{
    match command {
        NotifySubcommand::Telegram { token_source, chat_id_source, message, dry_run } => if dry_run {
            NotifyStart::DryRun { say: "telegram notification dry-run: ".to_owned().concat(message.as_str()) }
        } else {
            NotifyStart::Telegram { token_source, chat_id_source, message }
        },
        NotifySubcommand::Discord { webhook_source, message, dry_run } => if dry_run {
            NotifyStart::DryRun { say: "discord notification dry-run: ".to_owned().concat(message.as_str()) }
        } else {
            NotifyStart::Discord { webhook_source, message }
        },
    }
}

/// A dry run sends nothing.
pub proof fn law_a_dry_run_sends_nothing(command: NotifySubcommand<Seq<char>>)
    requires
        match command {
            NotifySubcommand::Telegram { dry_run, .. } => dry_run,
            NotifySubcommand::Discord { dry_run, .. } => dry_run,
        },
    ensures
        command.start() is DryRun,
{
}

/// Where the id of the chat is kept: where the command says, else where the
/// pairing left it.
pub fn chat_source(given: Option<String>, paired: Option<String>) -> (r: Result<String, &'static str>)
    ensures
        match r {
            Ok(source) => if given is Some {
                source@ == given->0@
            } else {
                paired is Some && source@ == paired->0@
            },
            Err(message) => given is None && paired is None && message@
                == "Telegram chat is not paired; run `maturana channel pair telegram start`, send `/pair CODE` to the bot, then run `maturana channel pair telegram complete`"@,
        },
{
    match given {
        Some(source) => Ok(source),
        None => match paired {
            Some(source) => Ok(source),
            None => Err(
                "Telegram chat is not paired; run `maturana channel pair telegram start`, send `/pair CODE` to the bot, then run `maturana channel pair telegram complete`",
            ),
        },
    }
}

/// Where a message to a Telegram chat is posted, and its body.
pub fn send_telegram(token: &str, chat_id: &str, message: &str) -> (r: (String, Json))
    ensures
        r.0@ == "https://api.telegram.org/bot"@ + token@ + "/sendMessage"@,
        r.1@ == Tree::Record(seq![("chat_id"@, Tree::Text(chat_id@)), ("text"@, Tree::Text(message@))]),
{
    let mut f: Vec<(String, Json)> = Vec::new();
    json::field(&mut f, "chat_id", Json::Text(chat_id.to_owned()));
    json::field(&mut f, "text", Json::Text(message.to_owned()));
    assert(json::entries(f@) =~= seq![("chat_id"@, Tree::Text(chat_id@)), ("text"@, Tree::Text(message@))]);
    ("https://api.telegram.org/bot".to_owned().concat(token).concat("/sendMessage"), json::record(f))
}

/// The body of a message to a Discord webhook.
pub fn send_discord(message: &str) -> (r: Json)
    ensures
        r@ == Tree::Record(seq![("content"@, Tree::Text(message@))]),
{
    let mut f: Vec<(String, Json)> = Vec::new();
    json::field(&mut f, "content", Json::Text(message.to_owned()));
    assert(json::entries(f@) =~= seq![("content"@, Tree::Text(message@))]);
    json::record(f)
}

/// What is said of a message once it was sent, or the error where it was not.
pub fn notified(discord: bool, error: Option<&str>) -> (r: Result<&'static str, String>)
    ensures
        match error {
            None => r matches Ok(say) && say@ == if discord {
                "discord notification sent"@
            } else {
                "telegram notification sent"@
            },
            Some(e) => r matches Err(message) && message@ == if discord {
                "Discord notification failed: "@ + e@
            } else {
                "Telegram notification failed: "@ + e@
            },
        },
{
    match error {
        None => if discord {
            Ok("discord notification sent")
        } else {
            Ok("telegram notification sent")
        },
        Some(e) => if discord {
            Err("Discord notification failed: ".to_owned().concat(e))
        } else {
            Err("Telegram notification failed: ".to_owned().concat(e))
        },
    }
}

/// A notification goes out over the channel that is named, with the message as it
/// is.
pub proof fn law_a_notification_goes_over_its_channel(
    source: Seq<char>,
    chat: Option<Seq<char>>,
    message: Seq<char>,
    dry_run: bool,
)
    ensures
        ({
            let telegram = NotifySubcommand::Telegram { token_source: source, chat_id_source: chat, message, dry_run };
            let discord = NotifySubcommand::Discord { webhook_source: source, message, dry_run };
            let first: NotifyStart<Seq<char>> = telegram.start();
            let second: NotifyStart<Seq<char>> = discord.start();
            &&& !dry_run ==> (first matches NotifyStart::Telegram { token_source, chat_id_source, message: m }
                && token_source == source && chat_id_source == chat && m == message)
            &&& !dry_run ==> (second matches NotifyStart::Discord { webhook_source, message: m } && webhook_source
                == source && m == message)
            &&& dry_run ==> (first matches NotifyStart::DryRun { say } && say == "telegram notification dry-run: "@
                + message)
            &&& dry_run ==> (second matches NotifyStart::DryRun { say } && say == "discord notification dry-run: "@
                + message)
        }),
{
}

} // verus!
