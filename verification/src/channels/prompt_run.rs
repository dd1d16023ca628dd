//! One prompt of a Telegram chat, from its arrival to its answer.

use crate::json;
use crate::json::{Json, Tree};
use vstd::prelude::*;
use vstd::string::*;

verus! {

/// Where the prompt stands: what is waited for.
#[derive(Clone, Copy, Debug, PartialEq, Eq, Structural)]
pub enum PromptStage {
    Auditing,
    Enqueueing,
    Typing,
    Running,
    Streaming,
    Delivering,
    Ended,
}

#[derive(Clone, Copy, Debug, PartialEq, Eq, Structural)]
pub enum PromptEvent {
    Done,
    Failed,
}

#[derive(Clone, Copy, Debug, PartialEq, Eq, Structural)]
pub enum PromptAction {
    /// Audit that a prompt came.
    Audit,
    /// Say that the prompt was accepted, and hand it to the agent.
    AcceptAndEnqueue,
    /// Show that the agent is typing.
    ShowTyping,
    /// Let the agent take one turn here.
    RunOnce,
    /// Show the turn while it runs.
    Stream,
    /// Deliver what is waiting.
    Deliver,
    /// Note that the turn could not be shown, and deliver what is waiting.
    NoteAndDeliver,
    Finish,
    /// End with the error that came last.
    Fail,
    /// The event is not one that was waited for.
    Ignore,
}

pub open spec fn prompt_next(run_here: bool, stage: PromptStage, event: PromptEvent) -> (PromptStage, PromptAction) {
    match (stage, event) {
        (PromptStage::Ended, _) => (stage, PromptAction::Ignore),
        (PromptStage::Streaming, PromptEvent::Failed) => (PromptStage::Delivering, PromptAction::NoteAndDeliver),
        (_, PromptEvent::Failed) => (PromptStage::Ended, PromptAction::Fail),
        (PromptStage::Auditing, PromptEvent::Done) => (PromptStage::Enqueueing, PromptAction::AcceptAndEnqueue),
        (PromptStage::Enqueueing, PromptEvent::Done) => (PromptStage::Typing, PromptAction::ShowTyping),
        (PromptStage::Typing, PromptEvent::Done) => if run_here {
            (PromptStage::Running, PromptAction::RunOnce)
        } else {
            (PromptStage::Streaming, PromptAction::Stream)
        },
        (PromptStage::Running, PromptEvent::Done) => (PromptStage::Streaming, PromptAction::Stream),
        (PromptStage::Streaming, PromptEvent::Done) => (PromptStage::Delivering, PromptAction::Deliver),
        (PromptStage::Delivering, PromptEvent::Done) => (PromptStage::Ended, PromptAction::Finish),
    }
}

/// Goes on when an event comes; a prompt starts in `Auditing`, with its audit.
pub fn run_channel_prompt(run_here: bool, stage: PromptStage, event: PromptEvent) -> (r: (PromptStage, PromptAction))
    ensures
        r == prompt_next(run_here, stage, event),
{
    match (stage, event) {
        (PromptStage::Ended, _) => (stage, PromptAction::Ignore),
        (PromptStage::Streaming, PromptEvent::Failed) => (PromptStage::Delivering, PromptAction::NoteAndDeliver),
        (_, PromptEvent::Failed) => (PromptStage::Ended, PromptAction::Fail),
        (PromptStage::Auditing, PromptEvent::Done) => (PromptStage::Enqueueing, PromptAction::AcceptAndEnqueue),
        (PromptStage::Enqueueing, PromptEvent::Done) => (PromptStage::Typing, PromptAction::ShowTyping),
        (PromptStage::Typing, PromptEvent::Done) => if run_here {
            (PromptStage::Running, PromptAction::RunOnce)
        } else {
            (PromptStage::Streaming, PromptAction::Stream)
        },
        (PromptStage::Running, PromptEvent::Done) => (PromptStage::Streaming, PromptAction::Stream),
        (PromptStage::Streaming, PromptEvent::Done) => (PromptStage::Delivering, PromptAction::Deliver),
        (PromptStage::Delivering, PromptEvent::Done) => (PromptStage::Ended, PromptAction::Finish),
    }
}

/// A turn that cannot be shown while it runs is delivered all the same.
pub proof fn law_a_turn_is_delivered_though_it_could_not_be_shown(run_here: bool, event: PromptEvent)
    ensures
        prompt_next(run_here, PromptStage::Streaming, event).0 == PromptStage::Delivering,
        prompt_next(run_here, PromptStage::Streaming, event).1 is Deliver || prompt_next(
            run_here,
            PromptStage::Streaming,
            event,
        ).1 is NoteAndDeliver,
{
}

/// What goes with a prompt: the message that it answers.
pub fn prompt_extras(reply_to: Option<i64>) -> (r: Json)
    ensures
        r@ == Tree::Record(
            seq![
                (
                    "telegram_reply_to"@,
                    match reply_to {
                        Some(id) => Tree::Int(id as int),
                        None => Tree::Null,
                    },
                ),
            ],
        ),
{
    let value = match reply_to {
        Some(id) => Json::Int(id as i128),
        None => Json::Null,
    };
    let ghost v = value@;
    let mut f: Vec<(String, Json)> = Vec::new();
    json::field(&mut f, "telegram_reply_to", value);
    assert(json::entries(f@) =~= seq![("telegram_reply_to"@, v)]);
    json::record(f)
}

/// What is said of a turn that could not be shown.
pub fn stream_error_text(error: &str) -> (r: String)
    ensures
        r@ == "telegram streamer error (delivering anyway): "@ + error@,
{
    "telegram streamer error (delivering anyway): ".to_owned().concat(error)
}

/// A prompt is noted, handed to the agent and shown before its answer is
/// delivered; where the agent is to take its turn here, it does so first.
pub proof fn law_a_prompt_goes_its_way(run_here: bool)
    ensures
        prompt_next(run_here, PromptStage::Auditing, PromptEvent::Done) == (
            PromptStage::Enqueueing,
            PromptAction::AcceptAndEnqueue,
        ),
        prompt_next(run_here, PromptStage::Enqueueing, PromptEvent::Done) == (
            PromptStage::Typing,
            PromptAction::ShowTyping,
        ),
        prompt_next(true, PromptStage::Typing, PromptEvent::Done) == (PromptStage::Running, PromptAction::RunOnce),
        prompt_next(false, PromptStage::Typing, PromptEvent::Done) == (PromptStage::Streaming, PromptAction::Stream),
        prompt_next(run_here, PromptStage::Running, PromptEvent::Done) == (
            PromptStage::Streaming,
            PromptAction::Stream,
        ),
        prompt_next(run_here, PromptStage::Streaming, PromptEvent::Done) == (
            PromptStage::Delivering,
            PromptAction::Deliver,
        ),
        prompt_next(run_here, PromptStage::Delivering, PromptEvent::Done) == (
            PromptStage::Ended,
            PromptAction::Finish,
        ),
{
}

/// A prompt that fails anywhere but in the showing ends with the error.
pub proof fn law_a_failed_prompt_ends_with_its_error(run_here: bool, stage: PromptStage)
    requires
        stage != PromptStage::Streaming,
        stage != PromptStage::Ended,
    ensures
        prompt_next(run_here, stage, PromptEvent::Failed) == (PromptStage::Ended, PromptAction::Fail),
{
}

} // verus!
