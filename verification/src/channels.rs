//! The chat channels: what an incoming message asks for, what is answered,
//! and how replies are delivered.

pub mod agentmail;
pub mod attachments;
pub mod buttons;
pub mod command_catalog;
pub mod command_handler;
pub mod commands;
pub mod console_bridge;
pub mod conversation;
pub mod delivery;
pub mod discord;
pub mod loops;
pub mod media;
pub mod models;
pub mod onboarding;
pub mod prompt_run;
pub mod routing;
pub mod serve;
pub mod settings;
pub mod slack;
pub mod stream;
pub mod subagents;
pub mod telegram;
pub mod telegram_api;
pub mod telegram_inbound;
pub mod telegram_live;
pub mod telegram_state;
pub mod tool_run;
pub mod upload;
pub mod voice;
