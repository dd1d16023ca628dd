//! What is done about a Telegram update.

use crate::channels::command_catalog;
use crate::channels::command_catalog::help_text;
use crate::channels::routing;
use crate::channels::routing::{classify_telegram_update, telegram_message, InboundAction};
use crate::channels::settings;
use crate::channels::settings::{
    command_selector_buttons, toast_text, ChannelSettings, Choices, ChoicesView, SettingsView,
};
use crate::channels::subagents;
use crate::channels::subagents::{frame_subtask, SpawnMode};
use crate::channels::telegram::{Document, TelegramCallbackQuery, TelegramUpdate};
use crate::channels::telegram_state;
use crate::channels::telegram_state::{telegram_chat_id_key, telegram_pair_code_key};
use crate::text as t;
use vstd::prelude::*;
use vstd::string::*;

verus! {

/// One thing to do about an update. They are done in order; where one fails the
/// rest is not done, but for those that say otherwise.
#[derive(Debug, PartialEq, Eq)]
pub enum Effect<S, C> {
    Audit { action: S, message: S },
    /// Send a text to the chat, as an answer to the update's message.
    Send { chat_id: i64, text: S },
    Typing { chat_id: i64 },
    /// Keep a secret.
    Keep { key: S, value: S },
    /// Forget a secret.
    Forget { key: S },
    EnqueueOnboarding { chat_id: i64 },
    /// Note that the interview was begun; a failure is passed over.
    MarkOnboarded,
    SendStatus { chat_id: i64 },
    SendChoices { chat_id: i64, choices: C },
    /// Let the command handler answer.
    Command { chat_id: i64, name: S, args: S },
    ResetContext { chat_id: i64 },
    /// Note a sub-task; a failure is passed over.
    CreateSubagent { name: S, mode: SpawnMode, prompt: S },
    /// Hand the text to the agent.
    Prompt { chat_id: i64, text: S },
    /// Rate the last reply, and answer with what came of it.
    Reward { chat_id: i64, up: bool },
    RunTool { chat_id: i64, name: S, input: S },
    TakeDocument { chat_id: i64, document: Document<S>, caption: Option<S> },
    TakePhoto { chat_id: i64, file_id: S, caption: Option<S> },
    TakeVoice { chat_id: i64, file_id: S, filename: S },
}

pub type EffectView = Effect<Seq<char>, ChoicesView>;

impl View for Effect<String, Choices> {
    type V = EffectView;

    open spec fn view(&self) -> EffectView {
        match self {
            Effect::Audit { action, message } => Effect::Audit { action: action@, message: message@ },
            Effect::Send { chat_id, text } => Effect::Send { chat_id: *chat_id, text: text@ },
            Effect::Typing { chat_id } => Effect::Typing { chat_id: *chat_id },
            Effect::Keep { key, value } => Effect::Keep { key: key@, value: value@ },
            Effect::Forget { key } => Effect::Forget { key: key@ },
            Effect::EnqueueOnboarding { chat_id } => Effect::EnqueueOnboarding { chat_id: *chat_id },
            Effect::MarkOnboarded => Effect::MarkOnboarded,
            Effect::SendStatus { chat_id } => Effect::SendStatus { chat_id: *chat_id },
            Effect::SendChoices { chat_id, choices } => Effect::SendChoices {
                chat_id: *chat_id,
                choices: choices@,
            },
            Effect::Command { chat_id, name, args } => Effect::Command {
                chat_id: *chat_id,
                name: name@,
                args: args@,
            },
            Effect::ResetContext { chat_id } => Effect::ResetContext { chat_id: *chat_id },
            Effect::CreateSubagent { name, mode, prompt } => Effect::CreateSubagent {
                name: name@,
                mode: *mode,
                prompt: prompt@,
            },
            Effect::Prompt { chat_id, text } => Effect::Prompt { chat_id: *chat_id, text: text@ },
            Effect::Reward { chat_id, up } => Effect::Reward { chat_id: *chat_id, up: *up },
            Effect::RunTool { chat_id, name, input } => Effect::RunTool {
                chat_id: *chat_id,
                name: name@,
                input: input@,
            },
            Effect::TakeDocument { chat_id, document, caption } => Effect::TakeDocument {
                chat_id: *chat_id,
                document: document@,
                caption: t::opt_view(*caption),
            },
            Effect::TakePhoto { chat_id, file_id, caption } => Effect::TakePhoto {
                chat_id: *chat_id,
                file_id: file_id@,
                caption: t::opt_view(*caption),
            },
            Effect::TakeVoice { chat_id, file_id, filename } => Effect::TakeVoice {
                chat_id: *chat_id,
                file_id: file_id@,
                filename: filename@,
            },
        }
    }
}

pub open spec fn effect_views(v: Seq<Effect<String, Choices>>) -> Seq<EffectView> {
    v.map_values(|e: Effect<String, Choices>| e@)
}

fn one(a: Effect<String, Choices>) -> (r: Vec<Effect<String, Choices>>)
    ensures
        effect_views(r@) == seq![a@],
{
    let mut r: Vec<Effect<String, Choices>> = Vec::new();
    r.push(a);
    assert(effect_views(r@) =~= seq![a@]);
    r
}

fn two(a: Effect<String, Choices>, b: Effect<String, Choices>) -> (r: Vec<Effect<String, Choices>>)
    ensures
        effect_views(r@) == seq![a@, b@],
{
    let mut r: Vec<Effect<String, Choices>> = Vec::new();
    r.push(a);
    r.push(b);
    assert(effect_views(r@) =~= seq![a@, b@]);
    r
}

fn three(a: Effect<String, Choices>, b: Effect<String, Choices>, c: Effect<String, Choices>) -> (r: Vec<
    Effect<String, Choices>,
>)
    ensures
        effect_views(r@) == seq![a@, b@, c@],
{
    let mut r: Vec<Effect<String, Choices>> = Vec::new();
    r.push(a);
    r.push(b);
    r.push(c);
    assert(effect_views(r@) =~= seq![a@, b@, c@]);
    r
}

fn four(
    a: Effect<String, Choices>,
    b: Effect<String, Choices>,
    c: Effect<String, Choices>,
    d: Effect<String, Choices>,
) -> (r: Vec<Effect<String, Choices>>)
    ensures
        effect_views(r@) == seq![a@, b@, c@, d@],
{
    let mut r: Vec<Effect<String, Choices>> = Vec::new();
    r.push(a);
    r.push(b);
    r.push(c);
    r.push(d);
    assert(effect_views(r@) =~= seq![a@, b@, c@, d@]);
    r
}

fn join_effects(a: Vec<Effect<String, Choices>>, b: Vec<Effect<String, Choices>>) -> (r: Vec<
    Effect<String, Choices>,
>)
    ensures
        effect_views(r@) == effect_views(a@) + effect_views(b@),
{
    let ghost x = effect_views(a@);
    let ghost y = effect_views(b@);
    let mut r = a;
    let mut rest = b;
    r.append(&mut rest);
    assert(effect_views(r@) =~= x + y);
    r
}

pub open spec fn audit(action: Seq<char>, message: Seq<char>) -> EffectView {
    Effect::Audit { action, message }
}

fn audit_effect(action: &str, message: &str) -> (r: Effect<String, Choices>)
    ensures
        r@ == audit(action@, message@),
{
    Effect::Audit { action: action.to_owned(), message: message.to_owned() }
}

pub open spec fn say(chat_id: i64, text: Seq<char>) -> EffectView {
    Effect::Send { chat_id, text }
}

fn send_effect(chat_id: i64, text: &str) -> (r: Effect<String, Choices>)
    ensures
        r@ == say(chat_id, text@),
{
    Effect::Send { chat_id, text: text.to_owned() }
}

/// What the agent is, as far as an update needs to know it.
#[derive(Debug, PartialEq, Eq)]
pub struct AgentState {
    pub agent_id: String,
    /// Whether the owner has been through the interview.
    pub onboarded: bool,
    pub settings: ChannelSettings,
    /// The models on offer.
    pub models: Vec<String>,
}

pub struct AgentStateView {
    pub agent_id: Seq<char>,
    pub onboarded: bool,
    pub settings: SettingsView,
    pub models: Seq<Seq<char>>,
}

impl View for AgentState {
    type V = AgentStateView;

    open spec fn view(&self) -> AgentStateView {
        AgentStateView {
            agent_id: self.agent_id@,
            onboarded: self.onboarded,
            settings: self.settings@,
            models: t::texts(self.models@),
        }
    }
}

pub open spec fn pair_effects(a: AgentStateView, chat_id: i64) -> Seq<EffectView> {
    seq![
        EffectView::Keep {
            key: telegram_state::key_for(a.agent_id, "chat-id"@),
            value: t::signed_decimal(chat_id as int),
        },
        EffectView::Forget { key: telegram_state::key_for(a.agent_id, "pair-code"@) },
        audit("channel.telegram.paired"@, "paired telegram chat"@),
    ] + if a.onboarded {
        seq![say(chat_id, "Paired. Welcome back — message me any time."@)]
    } else {
        seq![
            EffectView::EnqueueOnboarding { chat_id },
            EffectView::MarkOnboarded,
            say(chat_id, "Paired! One moment — let me introduce myself."@),
            EffectView::Typing { chat_id },
        ]
    }
}

/// A command without a value is answered with its choices, where it has any.
pub open spec fn command_effects(a: AgentStateView, chat_id: i64, name: Seq<char>, args: Seq<char>) -> Seq<
    EffectView,
> {
    let choices = if t::trimmed(args).len() == 0 {
        settings::choices_of(a.settings, a.models, name)
    } else {
        None
    };
    seq![
        audit("channel.telegram.command"@, "/"@ + name),
        match choices {
            Some(choices) => EffectView::SendChoices { chat_id, choices },
            None => EffectView::Command { chat_id, name, args },
        },
    ]
}

pub open spec fn action_effects(a: AgentStateView, action: InboundAction<Seq<char>>) -> Seq<EffectView> {
    match action {
        InboundAction::Ignore => Seq::empty(),
        InboundAction::Deny { chat_id } => seq![
            audit("channel.telegram.denied"@, "ignored unpaired chat"@),
            say(chat_id, "This Maturana agent is not paired with this chat."@),
        ],
        InboundAction::Pair { chat_id } => pair_effects(a, chat_id),
        InboundAction::Onboard { chat_id } => seq![
            EffectView::EnqueueOnboarding { chat_id },
            EffectView::MarkOnboarded,
            say(chat_id, "Starting onboarding — one moment while I introduce myself."@),
            EffectView::Typing { chat_id },
        ],
        InboundAction::Help { chat_id } => seq![say(chat_id, command_catalog::help_words())],
        InboundAction::Status { chat_id } => seq![
            audit("channel.telegram.status"@, "status requested"@),
            EffectView::SendStatus { chat_id },
        ],
        InboundAction::Command { chat_id, name, args } => command_effects(a, chat_id, name, args),
        InboundAction::New { chat_id } => seq![
            EffectView::ResetContext { chat_id },
            audit("channel.telegram.new_session"@, "reset telegram context window"@),
            say(chat_id, "New session started."@),
        ],
        InboundAction::Spawn { chat_id, mode, name, prompt } => seq![
            EffectView::CreateSubagent { name, mode, prompt },
            EffectView::Prompt { chat_id, text: subagents::framed(name, prompt) },
        ],
        InboundAction::Feedback { chat_id, up } => seq![EffectView::Reward { chat_id, up }],
        InboundAction::Tool { chat_id, name, input } => seq![EffectView::RunTool { chat_id, name, input }],
        InboundAction::Document { chat_id, document, caption } => seq![
            EffectView::TakeDocument { chat_id, document, caption },
        ],
        InboundAction::Photo { chat_id, file_id, caption } => seq![
            EffectView::TakePhoto { chat_id, file_id, caption },
        ],
        InboundAction::Voice { chat_id, file_id, filename } => seq![
            EffectView::TakeVoice { chat_id, file_id, filename },
        ],
        InboundAction::Prompt { chat_id, text } => seq![EffectView::Prompt { chat_id, text }],
    }
}

fn plan_pair(a: &AgentState, chat_id: i64) -> (r: Vec<Effect<String, Choices>>)
    ensures
        effect_views(r@) == pair_effects(a@, chat_id),
{
    let head = three(
        Effect::Keep {
            key: telegram_chat_id_key(a.agent_id.as_str()),
            value: t::i64_text(chat_id),
        },
        Effect::Forget { key: telegram_pair_code_key(a.agent_id.as_str()) },
        audit_effect("channel.telegram.paired", "paired telegram chat"),
    );
    let tail = if a.onboarded {
        one(send_effect(chat_id, "Paired. Welcome back — message me any time."))
    } else {
        four(
            Effect::EnqueueOnboarding { chat_id },
            Effect::MarkOnboarded,
            send_effect(chat_id, "Paired! One moment — let me introduce myself."),
            Effect::Typing { chat_id },
        )
    };
    join_effects(head, tail)
}

fn plan_command(a: &AgentState, chat_id: i64, name: String, args: String) -> (r: Vec<Effect<String, Choices>>)
    ensures
        effect_views(r@) == command_effects(a@, chat_id, name@, args@),
{
    let note = "/".to_owned().concat(name.as_str());
    let first = audit_effect("channel.telegram.command", note.as_str());
    let choices = if t::trim(args.as_str()).as_str().is_empty() {
        command_selector_buttons(&a.settings, &a.models, name.as_str())
    } else {
        None
    };
    match choices {
        Some(choices) => two(first, Effect::SendChoices { chat_id, choices }),
        None => two(first, Effect::Command { chat_id, name, args }),
    }
}

/// What is to be done about an action.
pub fn plan_action(a: &AgentState, action: InboundAction<String>) -> (r: Vec<Effect<String, Choices>>)
    ensures
        effect_views(r@) == action_effects(a@, action@),
{
    match action {
        InboundAction::Ignore => {
            let r: Vec<Effect<String, Choices>> = Vec::new();
            assert(effect_views(r@) =~= Seq::<EffectView>::empty());
            r
        },
        InboundAction::Deny { chat_id } => two(
            audit_effect("channel.telegram.denied", "ignored unpaired chat"),
            send_effect(chat_id, "This Maturana agent is not paired with this chat."),
        ),
        InboundAction::Pair { chat_id } => plan_pair(a, chat_id),
        InboundAction::Onboard { chat_id } => four(
            Effect::EnqueueOnboarding { chat_id },
            Effect::MarkOnboarded,
            send_effect(chat_id, "Starting onboarding — one moment while I introduce myself."),
            Effect::Typing { chat_id },
        ),
        InboundAction::Help { chat_id } => one(Effect::Send { chat_id, text: help_text() }),
        InboundAction::Status { chat_id } => two(
            audit_effect("channel.telegram.status", "status requested"),
            Effect::SendStatus { chat_id },
        ),
        InboundAction::Command { chat_id, name, args } => plan_command(a, chat_id, name, args),
        InboundAction::New { chat_id } => three(
            Effect::ResetContext { chat_id },
            audit_effect("channel.telegram.new_session", "reset telegram context window"),
            send_effect(chat_id, "New session started."),
        ),
        InboundAction::Spawn { chat_id, mode, name, prompt } => {
            let text = frame_subtask(name.as_str(), prompt.as_str());
            two(Effect::CreateSubagent { name, mode, prompt }, Effect::Prompt { chat_id, text })
        },
        InboundAction::Feedback { chat_id, up } => one(Effect::Reward { chat_id, up }),
        InboundAction::Tool { chat_id, name, input } => one(Effect::RunTool { chat_id, name, input }),
        InboundAction::Document { chat_id, document, caption } => one(
            Effect::TakeDocument { chat_id, document, caption },
        ),
        InboundAction::Photo { chat_id, file_id, caption } => one(
            Effect::TakePhoto { chat_id, file_id, caption },
        ),
        InboundAction::Voice { chat_id, file_id, filename } => one(
            Effect::TakeVoice { chat_id, file_id, filename },
        ),
        InboundAction::Prompt { chat_id, text } => one(Effect::Prompt { chat_id, text }),
    }
}

/// What a tap on a button comes to.
#[derive(Debug, PartialEq, Eq)]
pub enum CallbackStep<S> {
    /// Acknowledge the tap; its message is gone.
    Acknowledge { callback_id: S },
    /// Answer the tap with a short note.
    Refuse { callback_id: S, note: S },
    /// Apply the selection, answer with a short note, put the new text in place
    /// of the keyboard's message, and note the tap.
    Select { callback_id: S, note: S, chat_id: i64, message_id: i64, data: S },
}

impl View for CallbackStep<String> {
    type V = CallbackStep<Seq<char>>;

    open spec fn view(&self) -> CallbackStep<Seq<char>> {
        match self {
            CallbackStep::Acknowledge { callback_id } => CallbackStep::Acknowledge { callback_id: callback_id@ },
            CallbackStep::Refuse { callback_id, note } => CallbackStep::Refuse {
                callback_id: callback_id@,
                note: note@,
            },
            CallbackStep::Select { callback_id, note, chat_id, message_id, data } => CallbackStep::Select {
                callback_id: callback_id@,
                note: note@,
                chat_id: *chat_id,
                message_id: *message_id,
                data: data@,
            },
        }
    }
}

pub open spec fn callback_step(c: TelegramCallbackQuery, paired: Option<i64>) -> CallbackStep<Seq<char>> {
    match c.message {
        None => CallbackStep::Acknowledge { callback_id: c.id@ },
        Some(m) => if paired != Some(m.chat.id) {
            CallbackStep::Refuse { callback_id: c.id@, note: "Not paired with this chat."@ }
        } else {
            let data = match t::opt_view(c.data) {
                Some(d) => d,
                None => Seq::empty(),
            };
            CallbackStep::Select {
                callback_id: c.id@,
                note: settings::toast_of(data),
                chat_id: m.chat.id,
                message_id: m.message_id,
                data,
            }
        },
    }
}

/// Decides about a tap on a button.
pub fn handle_telegram_callback(c: &TelegramCallbackQuery, paired: Option<i64>) -> (r: CallbackStep<String>)
    ensures
        r@ == callback_step(*c, paired),
{
    match &c.message {
        None => CallbackStep::Acknowledge { callback_id: c.id.clone() },
        Some(m) => {
            let own = match paired {
                Some(id) => id == m.chat.id,
                None => false,
            };
            if !own {
                return CallbackStep::Refuse {
                    callback_id: c.id.clone(),
                    note: "Not paired with this chat.".to_owned(),
                };
            }
            let data = match &c.data {
                Some(d) => d.clone(),
                None => String::new(),
            };
            CallbackStep::Select {
                callback_id: c.id.clone(),
                note: toast_text(data.as_str()),
                chat_id: m.chat.id,
                message_id: m.message_id,
                data,
            }
        },
    }
}

/// What an update comes to.
#[derive(Debug, PartialEq, Eq)]
pub enum UpdatePlan<C, E> {
    Callback { step: C },
    /// Do these things; texts answer the message with this id.
    Effects { effects: E, reply_to: Option<i64> },
}

pub type UpdatePlanView = UpdatePlan<CallbackStep<Seq<char>>, Seq<EffectView>>;

impl View for UpdatePlan<CallbackStep<String>, Vec<Effect<String, Choices>>> {
    type V = UpdatePlanView;

    open spec fn view(&self) -> UpdatePlanView {
        match self {
            UpdatePlan::Callback { step } => UpdatePlan::Callback { step: step@ },
            UpdatePlan::Effects { effects, reply_to } => UpdatePlan::Effects {
                effects: effect_views(effects@),
                reply_to: *reply_to,
            },
        }
    }
}

pub open spec fn update_plan(
    a: AgentStateView,
    u: TelegramUpdate,
    paired: Option<i64>,
    code: Option<Seq<char>>,
) -> UpdatePlanView {
    match u.callback_query {
        Some(c) => UpdatePlan::Callback { step: callback_step(c, paired) },
        None => UpdatePlan::Effects {
            effects: action_effects(a, routing::inbound_action(u, paired, code)),
            reply_to: match routing::message_of(u) {
                Some(m) => Some(m.message_id),
                None => None,
            },
        },
    }
}

/// Decides about an update: `paired` is the chat that the agent is paired with,
/// and `code` the code that pairs a new one.
pub fn handle_telegram_update(
    a: &AgentState,
    update: &TelegramUpdate,
    paired: Option<i64>,
    code: Option<&str>,
) -> (r: UpdatePlan<CallbackStep<String>, Vec<Effect<String, Choices>>>)
    ensures
        r@ == update_plan(a@, *update, paired, t::opt_str(code)),
{
    match &update.callback_query {
        Some(c) => UpdatePlan::Callback { step: handle_telegram_callback(c, paired) },
        None => {
            let reply_to = match telegram_message(update) {
                Some(m) => Some(m.message_id),
                None => None,
            };
            let action = classify_telegram_update(update, paired, code);
            UpdatePlan::Effects { effects: plan_action(a, action), reply_to }
        },
    }
}

/// The answer to a rating: `rewarded` says whether there was a turn to rate.
pub fn reward_text(up: bool, rewarded: bool) -> (r: &'static str)
    ensures
        r@ == if !rewarded {
            "No recent agent turn to rate yet."@
        } else if up {
            "Thanks — logged 👍 for the last reply."@
        } else {
            "Noted — logged 👎 for the last reply."@
        },
{
    if !rewarded {
        "No recent agent turn to rate yet."
    } else if up {
        "Thanks — logged 👍 for the last reply."
    } else {
        "Noted — logged 👎 for the last reply."
    }
}

/// Whether an effect may tell a chat something beyond the refusal, or change
/// anything.
pub open spec fn only_refuses(e: EffectView) -> bool {
    e is Audit || (e matches Effect::Send { text, .. } && text
        == "This Maturana agent is not paired with this chat."@)
}

/// A chat that is not the paired one, and does not send the pairing code, is
/// refused: nothing is done for it but to note it and to say so. Taps on buttons
/// from there change nothing.
pub proof fn law_an_unpaired_chat_changes_nothing(
    a: AgentStateView,
    u: TelegramUpdate,
    paired: Option<i64>,
    code: Option<Seq<char>>,
)
    requires
        u.callback_query is None ==> (routing::inbound_action(u, paired, code) is Deny || routing::inbound_action(
            u,
            paired,
            code,
        ) is Ignore),
        u.callback_query matches Some(c) ==> (c.message matches Some(m) ==> paired != Some(m.chat.id)),
    ensures
        match update_plan(a, u, paired, code) {
            UpdatePlan::Callback { step } => !(step is Select),
            UpdatePlan::Effects { effects, .. } => forall|i: int|
                0 <= i < effects.len() ==> only_refuses(#[trigger] effects[i]),
        },
{
}

/// Before the effect at `i`, one of the effects is this one.
pub open spec fn comes_before(effects: Seq<EffectView>, e: EffectView, i: int) -> bool {
    exists|k: int| 0 <= k < i && k < effects.len() && #[trigger] effects[k] == e
}

/// What a message asks for is done for the chat that asked, and what is said to
/// be done is done first: a new session starts with an empty context, a
/// sub-task is noted before it is handed over, and the rest is passed on with
/// the name, the text or the file that came.
pub proof fn law_what_is_asked_for_is_done(a: AgentStateView, action: InboundAction<Seq<char>>)
    ensures
        ({
            let effects = action_effects(a, action);
            match action {
                InboundAction::Ignore => effects.len() == 0,
                InboundAction::Deny { chat_id } => effects.len() == 2 && effects[0] is Audit && effects[1] == (
                Effect::<Seq<char>, ChoicesView>::Send {
                    chat_id,
                    text: "This Maturana agent is not paired with this chat."@,
                }),
                InboundAction::New { chat_id } => {
                    &&& effects.contains(Effect::ResetContext { chat_id })
                    &&& forall|i: int|
                        0 <= i < effects.len() && #[trigger] effects[i] == (Effect::<Seq<char>, ChoicesView>::Send {
                            chat_id,
                            text: "New session started."@,
                        }) ==> comes_before(effects, Effect::ResetContext { chat_id }, i)
                    &&& effects.contains(Effect::Send { chat_id, text: "New session started."@ })
                },
                InboundAction::Onboard { chat_id } => {
                    &&& effects.contains(Effect::EnqueueOnboarding { chat_id })
                    &&& effects.contains(Effect::MarkOnboarded)
                },
                InboundAction::Help { chat_id } => effects.len() == 1 && (effects[0] matches Effect::Send {
                    chat_id: c,
                    ..
                } && c == chat_id),
                InboundAction::Status { chat_id } => effects.contains(Effect::SendStatus { chat_id }),
                InboundAction::Spawn { chat_id, mode, name, prompt } => effects.len() == 2 && effects[0] == (Effect::<
                    Seq<char>,
                    ChoicesView,
                >::CreateSubagent { name, mode, prompt }) && effects[1] == (Effect::<Seq<char>, ChoicesView>::Prompt {
                    chat_id,
                    text: subagents::framed(name, prompt),
                }),
                InboundAction::Feedback { chat_id, up } => effects =~= seq![
                    Effect::<Seq<char>, ChoicesView>::Reward { chat_id, up },
                ],
                InboundAction::Tool { chat_id, name, input } => effects =~= seq![
                    Effect::<Seq<char>, ChoicesView>::RunTool { chat_id, name, input },
                ],
                InboundAction::Document { chat_id, document, caption } => effects =~= seq![
                    Effect::<Seq<char>, ChoicesView>::TakeDocument { chat_id, document, caption },
                ],
                InboundAction::Photo { chat_id, file_id, caption } => effects =~= seq![
                    Effect::<Seq<char>, ChoicesView>::TakePhoto { chat_id, file_id, caption },
                ],
                InboundAction::Voice { chat_id, file_id, filename } => effects =~= seq![
                    Effect::<Seq<char>, ChoicesView>::TakeVoice { chat_id, file_id, filename },
                ],
                InboundAction::Prompt { chat_id, text } => effects =~= seq![
                    Effect::<Seq<char>, ChoicesView>::Prompt { chat_id, text },
                ],
                InboundAction::Pair { .. } => effects.len() > 0,
                InboundAction::Command { .. } => effects.len() > 0,
            }
        }),
{
    let effects = action_effects(a, action);
    match action {
        InboundAction::New { chat_id } => {
            assert(effects[0] == (Effect::<Seq<char>, ChoicesView>::ResetContext { chat_id }));
            assert(effects[2] is Send);
        },
        InboundAction::Onboard { chat_id } => {
            assert(effects[0] == (Effect::<Seq<char>, ChoicesView>::EnqueueOnboarding { chat_id }));
            assert(effects[1] == (Effect::<Seq<char>, ChoicesView>::MarkOnboarded));
        },
        InboundAction::Status { chat_id } => {
            assert(effects[1] == (Effect::<Seq<char>, ChoicesView>::SendStatus { chat_id }));
        },
        _ => {},
    }
}

/// The chat that an effect is for, where it is for one.
pub open spec fn chat_of(e: EffectView) -> Option<i64> {
    match e {
        Effect::Send { chat_id, .. } => Some(chat_id),
        Effect::Typing { chat_id } => Some(chat_id),
        Effect::EnqueueOnboarding { chat_id } => Some(chat_id),
        Effect::SendStatus { chat_id } => Some(chat_id),
        Effect::SendChoices { chat_id, .. } => Some(chat_id),
        Effect::Command { chat_id, .. } => Some(chat_id),
        Effect::ResetContext { chat_id } => Some(chat_id),
        Effect::Prompt { chat_id, .. } => Some(chat_id),
        Effect::Reward { chat_id, .. } => Some(chat_id),
        Effect::RunTool { chat_id, .. } => Some(chat_id),
        Effect::TakeDocument { chat_id, .. } => Some(chat_id),
        Effect::TakePhoto { chat_id, .. } => Some(chat_id),
        Effect::TakeVoice { chat_id, .. } => Some(chat_id),
        _ => None,
    }
}

/// What an update leads to is for the chat that it came from, and answers its
/// message.
#[verifier::rlimit(40)]
pub proof fn law_an_update_is_answered_where_it_came_from(
    a: AgentStateView,
    u: TelegramUpdate,
    m: crate::channels::telegram::TelegramMessage,
    paired: Option<i64>,
    code: Option<Seq<char>>,
    i: int,
)
    requires
        u.callback_query is None,
        routing::carries(u, m),
    ensures
        update_plan(a, u, paired, code) matches UpdatePlan::Effects { effects, reply_to } && reply_to == Some(
            m.message_id,
        ) && (0 <= i < effects.len() ==> (chat_of(effects[i]) matches Some(chat) ==> chat == m.chat.id)),
{
}

/// A chat that pairs is kept as the agent's own, its code is used up, and the
/// owner is greeted: with the interview the first time, and as one who is known
/// after that.
pub proof fn law_a_chat_that_pairs_is_kept(a: AgentStateView, chat_id: i64)
    ensures
        ({
            let effects = action_effects(a, InboundAction::Pair { chat_id });
            let own = |what: Seq<char>|
                if a.agent_id == "default"@ {
                    "telegram/"@ + what
                } else {
                    "telegram/"@ + a.agent_id + "/"@ + what
                };
            &&& effects.contains(
                Effect::Keep { key: own("chat-id"@), value: t::signed_decimal(chat_id as int) },
            )
            &&& effects.contains(Effect::Forget { key: own("pair-code"@) })
            &&& a.onboarded <==> !effects.contains(Effect::EnqueueOnboarding { chat_id })
            &&& !a.onboarded ==> effects.contains(Effect::MarkOnboarded)
            &&& exists|i: int| 0 <= i < effects.len() && (#[trigger] effects[i]) is Send
        }),
{
    let effects = action_effects(a, InboundAction::Pair { chat_id });
    assert(effects[0] is Keep);
    assert(effects[1] is Forget);
    assert(effects[2] is Audit);
    if a.onboarded {
        assert(effects[3] is Send);
        assert(effects.len() == 4);
    } else {
        assert(effects[3] == (Effect::<Seq<char>, ChoicesView>::EnqueueOnboarding { chat_id }));
        assert(effects[4] == (Effect::<Seq<char>, ChoicesView>::MarkOnboarded));
        assert(effects[5] is Send);
    }
}

/// A command goes to the handler under its name and with its value. Without a
/// value it is answered with its choices, where it has any.
pub proof fn law_a_command_is_answered_or_offers_its_choices(
    a: AgentStateView,
    chat_id: i64,
    name: Seq<char>,
    args: Seq<char>,
)
    ensures
        ({
            let effects = action_effects(a, InboundAction::Command { chat_id, name, args });
            let offered = settings::choices_of(a.settings, a.models, name);
            &&& effects.len() == 2
            &&& effects[0] == (Effect::<Seq<char>, ChoicesView>::Audit {
                action: "channel.telegram.command"@,
                message: "/"@ + name,
            })
            &&& t::trimmed(args).len() > 0 || offered is None ==> effects[1] == (Effect::<
                Seq<char>,
                ChoicesView,
            >::Command { chat_id, name, args })
            &&& t::trimmed(args).len() == 0 && offered is Some ==> effects[1] == (Effect::<
                Seq<char>,
                ChoicesView,
            >::SendChoices { chat_id, choices: offered->0 })
        }),
{
}

/// A new session, from the message to the end: the paired chat writes `/new`,
/// its context is emptied, and only then it is told so.
pub proof fn law_new_empties_the_context_first(
    a: AgentStateView,
    u: TelegramUpdate,
    m: crate::channels::telegram::TelegramMessage,
    rest: Seq<char>,
)
    requires
        u.callback_query is None,
        routing::carries(u, m),
        routing::only_text(m),
        m.text is Some,
        t::trimmed(m.text->0@) == "/new"@ + rest,
        rest.len() > 0 ==> rest[0] == ' ',
    ensures
        update_plan(a, u, Some(m.chat.id), None) matches UpdatePlan::Effects { effects, .. } && {
            &&& effects.contains(Effect::ResetContext { chat_id: m.chat.id })
            &&& exists|i: int|
                0 <= i < effects.len() && #[trigger] effects[i] == (Effect::<Seq<char>, ChoicesView>::Send {
                    chat_id: m.chat.id,
                    text: "New session started."@,
                }) && comes_before(effects, Effect::ResetContext { chat_id: m.chat.id }, i)
        },
{
    let word = "/new"@;
    reveal_strlit("/new");
    assert(word[0] == '/' && word[1] == 'n' && word[2] == 'e' && word[3] == 'w');
    assert(!t::space('/') && !t::space('n') && !t::space('e') && !t::space('w'));
    assert(routing::plain_word(word));
    let chat_id = m.chat.id;
    routing::law_a_command_asks_for_what_it_names(chat_id, word, rest);
    routing::law_a_text_of_the_paired_chat_is_heard(u, m, None, word + rest);
    law_what_is_asked_for_is_done(a, InboundAction::New { chat_id });
    let effects = action_effects(a, InboundAction::New { chat_id });
    let told = Effect::<Seq<char>, ChoicesView>::Send { chat_id, text: "New session started."@ };
    assert(effects.contains(told));
    let i = choose|i: int| 0 <= i < effects.len() && effects[i] == told;
    assert(effects[i] == told);
    assert(comes_before(effects, Effect::ResetContext { chat_id }, i));
    assert(routing::inbound_action(u, Some(chat_id), None) == (InboundAction::<Seq<char>>::New { chat_id }));
    assert(update_plan(a, u, Some(chat_id), None)->effects == effects);
}

/// A prompt of the paired chat reaches the agent as it was written, and nothing
/// else is done about it.
pub proof fn law_a_prompt_reaches_the_agent(
    a: AgentStateView,
    u: TelegramUpdate,
    m: crate::channels::telegram::TelegramMessage,
)
    requires
        u.callback_query is None,
        routing::carries(u, m),
        routing::only_text(m),
        m.text is Some,
        t::trimmed(m.text->0@).len() > 0,
        t::trimmed(m.text->0@)[0] != '/',
    ensures
        update_plan(a, u, Some(m.chat.id), None) == (UpdatePlan::<CallbackStep<Seq<char>>, Seq<EffectView>>::Effects {
            effects: seq![Effect::Prompt { chat_id: m.chat.id, text: t::trimmed(m.text->0@) }],
            reply_to: Some(m.message_id),
        }),
{
    let text = t::trimmed(m.text->0@);
    routing::law_a_plain_text_is_a_prompt(m.chat.id, text);
    routing::law_a_text_of_the_paired_chat_is_heard(u, m, None, text);
}

/// A tap is applied where it comes from the paired chat, to the message that the
/// button hangs on and with what the button says; any other tap is refused.
pub proof fn law_a_tap_of_the_paired_chat_is_applied(c: TelegramCallbackQuery, paired: Option<i64>)
    ensures
        ({
            let step = callback_step(c, paired);
            &&& c.message is None ==> step == (CallbackStep::Acknowledge { callback_id: c.id@ })
            &&& c.message matches Some(m) ==> {
                &&& paired == Some(m.chat.id) ==> (step matches CallbackStep::Select {
                    callback_id,
                    chat_id,
                    message_id,
                    data,
                    ..
                } && callback_id == c.id@ && chat_id == m.chat.id && message_id == m.message_id && data == match c.data {
                    Some(d) => d@,
                    None => Seq::<char>::empty(),
                })
                &&& paired != Some(m.chat.id) ==> step == (CallbackStep::Refuse {
                    callback_id: c.id@,
                    note: "Not paired with this chat."@,
                })
            }
        }),
{
}

} // verus!
