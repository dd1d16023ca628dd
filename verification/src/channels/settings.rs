//! What a chat can set for its agent.

use crate::text as t;
use vstd::prelude::*;
use vstd::string::*;

verus! {

#[derive(Debug, PartialEq, Eq)]
pub struct ChannelSettings {
    pub model: Option<String>,
    /// The reasoning effort; the worker's default is low.
    pub reasoning: Option<String>,
    pub tts_enabled: bool,
    pub tts_provider: Option<String>,
    pub idle: bool,
}

/// What the settings hold.
pub struct SettingsView {
    pub model: Option<Seq<char>>,
    pub reasoning: Option<Seq<char>>,
    pub tts_enabled: bool,
    pub tts_provider: Option<Seq<char>>,
    pub idle: bool,
}

impl View for ChannelSettings {
    type V = SettingsView;

    open spec fn view(&self) -> SettingsView {
        SettingsView {
            model: t::opt_view(self.model),
            reasoning: t::opt_view(self.reasoning),
            tts_enabled: self.tts_enabled,
            tts_provider: t::opt_view(self.tts_provider),
            idle: self.idle,
        }
    }
}

impl Default for ChannelSettings {
    fn default() -> (r: ChannelSettings)
        ensures
            r@ == (SettingsView {
                model: None,
                reasoning: None,
                tts_enabled: false,
                tts_provider: None,
                idle: false,
            }),
    {
        ChannelSettings { model: None, reasoning: None, tts_enabled: false, tts_provider: None, idle: false }
    }
}

impl ChannelSettings {
    pub fn copy(&self) -> (r: ChannelSettings)
        ensures
            r@ == self@,
    {
        ChannelSettings {
            model: self.model.clone(),
            reasoning: self.reasoning.clone(),
            tts_enabled: self.tts_enabled,
            tts_provider: self.tts_provider.clone(),
            idle: self.idle,
        }
    }
}

/// The reasoning levels on offer.
pub open spec fn reasoning_levels() -> Seq<Seq<char>> {
    seq!["low"@, "medium"@, "high"@]
}

pub fn reasoning_level_names() -> (r: Vec<String>)
    ensures
        t::texts(r@) == reasoning_levels(),
{
    let mut r: Vec<String> = Vec::new();
    r.push("low".to_owned());
    r.push("medium".to_owned());
    r.push("high".to_owned());
    assert(t::texts(r@) =~= reasoning_levels());
    r
}

/// The text-to-speech providers on offer.
pub open spec fn tts_providers() -> Seq<Seq<char>> {
    seq!["elevenlabs"@, "openai"@, "deepgram"@]
}

pub fn tts_provider_names() -> (r: Vec<String>)
    ensures
        t::texts(r@) == tts_providers(),
{
    let mut r: Vec<String> = Vec::new();
    r.push("elevenlabs".to_owned());
    r.push("openai".to_owned());
    r.push("deepgram".to_owned());
    assert(t::texts(r@) =~= tts_providers());
    r
}

/// The value, or else the words for its absence.
pub open spec fn or_words(o: Option<Seq<char>>, words: Seq<char>) -> Seq<char> {
    match o {
        Some(s) => s,
        None => words,
    }
}

pub fn or_text(o: &Option<String>, words: &str) -> (r: String)
    ensures
        r@ == or_words(t::opt_view(*o), words@),
{
    match o {
        Some(s) => s.clone(),
        None => words.to_owned(),
    }
}

/// Where a chat's settings are kept, under the agent's directory.
pub fn settings_file() -> (r: &'static str)
    ensures
        r@ == "channel-settings.json"@,
{
    "channel-settings.json"
}

// ---------------------------------------------------------------------------
// Selections
// ---------------------------------------------------------------------------

/// A selection `action:value` in its two parts.
pub open spec fn selection(data: Seq<char>) -> (Seq<char>, Seq<char>) {
    match t::cut(data, ":"@) {
        Some((a, v)) => (a, v),
        None => (data, Seq::empty()),
    }
}

pub fn split_selection(data: &str) -> (r: (String, String))
    ensures
        (r.0@, r.1@) == selection(data@),
{
    match t::split_once(data, ":") {
        Some((a, v)) => (a, v),
        None => (data.to_owned(), String::new()),
    }
}

/// The settings after a selection, and what is said once they are saved.
/// `None` for a selection that nothing offers, a reasoning level that is not on
/// offer among them.
pub open spec fn selected(s: SettingsView, data: Seq<char>) -> Option<(SettingsView, Seq<char>)> {
    let (action, value) = selection(data);
    if action == "model"@ {
        Some(
            (
                SettingsView { model: Some(value), ..s },
                "Model set to `"@ + value + "` (applies to new turns)."@,
            ),
        )
    } else if action == "reasoning"@ {
        if reasoning_levels().contains(value) {
            Some(
                (
                    SettingsView { reasoning: Some(value), ..s },
                    "Reasoning effort set to `"@ + value + "` (applies to new turns)."@,
                ),
            )
        } else {
            None
        }
    } else if action == "ttsprov"@ {
        Some((SettingsView { tts_provider: Some(value), ..s }, "TTS provider set to `"@ + value + "`."@))
    } else if action == "tts"@ {
        Some(
            (
                SettingsView { tts_enabled: value == "on"@, ..s },
                "Text-to-speech "@ + (if value == "on"@ {
                    "ENABLED"@
                } else {
                    "disabled"@
                }) + "."@,
            ),
        )
    } else if action == "session"@ {
        Some(
            (
                SettingsView { idle: value == "idle"@, ..s },
                "Session "@ + (if value == "idle"@ {
                    "idle"@
                } else {
                    "active"@
                }) + "."@,
            ),
        )
    } else {
        None
    }
}

pub open spec fn selected_view(o: Option<(ChannelSettings, String)>) -> Option<(SettingsView, Seq<char>)> {
    match o {
        Some((s, m)) => Some((s@, m@)),
        None => None,
    }
}

/// Applies one selection: it sets exactly one of the settings.
pub fn apply_channel_selection(settings: &ChannelSettings, data: &str) -> (r: Option<(ChannelSettings, String)>)
    ensures
        selected_view(r) == selected(settings@, data@),
{
    let (action, value) = split_selection(data);
    let mut s = settings.copy();
    if t::same(action.as_str(), "model") {
        let said = "Model set to `".to_owned().concat(value.as_str()).concat("` (applies to new turns).");
        s.model = Some(value);
        Some((s, said))
    } else if t::same(action.as_str(), "reasoning") {
        if !t::list_has(&reasoning_level_names(), value.as_str()) {
            return None;
        }
        let said = "Reasoning effort set to `".to_owned().concat(value.as_str()).concat(
            "` (applies to new turns).",
        );
        s.reasoning = Some(value);
        Some((s, said))
    } else if t::same(action.as_str(), "ttsprov") {
        let said = "TTS provider set to `".to_owned().concat(value.as_str()).concat("`.");
        s.tts_provider = Some(value);
        Some((s, said))
    } else if t::same(action.as_str(), "tts") {
        let on = t::same(value.as_str(), "on");
        s.tts_enabled = on;
        let said = "Text-to-speech ".to_owned().concat(
            if on {
                "ENABLED"
            } else {
                "disabled"
            },
        ).concat(".");
        Some((s, said))
    } else if t::same(action.as_str(), "session") {
        let idle = t::same(value.as_str(), "idle");
        s.idle = idle;
        let said = "Session ".to_owned().concat(
            if idle {
                "idle"
            } else {
                "active"
            },
        ).concat(".");
        Some((s, said))
    } else {
        None
    }
}

/// What is said of a level that is not on offer.
pub open spec fn unknown_level(value: Seq<char>) -> Seq<char> {
    "Unknown level `"@ + value + "`. Choose one of: "@ + t::joined(reasoning_levels(), ", "@)
}

pub fn unknown_level_text(value: &str) -> (r: String)
    ensures
        r@ == unknown_level(value@),
{
    "Unknown level `".to_owned().concat(value).concat("`. Choose one of: ").concat(
        t::join(&reasoning_level_names(), ", ").as_str(),
    )
}

/// What is said of a selection: `save_error` is why the settings could not be
/// saved, where they could not.
pub open spec fn selection_reply(s: SettingsView, data: Seq<char>, save_error: Option<Seq<char>>) -> Seq<char> {
    match selected(s, data) {
        None => if selection(data).0 == "reasoning"@ {
            unknown_level(selection(data).1)
        } else {
            "Unknown selection."@
        },
        Some((_, said)) => match save_error {
            Some(e) => "Could not save: "@ + e,
            None => said,
        },
    }
}

pub fn selection_reply_text(settings: &ChannelSettings, data: &str, save_error: Option<&str>) -> (r: String)
    ensures
        r@ == selection_reply(settings@, data@, t::opt_str(save_error)),
{
    match apply_channel_selection(settings, data) {
        None => {
            let (action, value) = split_selection(data);
            if t::same(action.as_str(), "reasoning") {
                unknown_level_text(value.as_str())
            } else {
                "Unknown selection.".to_owned()
            }
        },
        Some((_, said)) => match save_error {
            Some(e) => "Could not save: ".to_owned().concat(e),
            None => said,
        },
    }
}

/// A selection leaves every setting but the one it is about as it was.
pub proof fn law_a_selection_sets_one_setting(s: SettingsView, data: Seq<char>)
    ensures
        selected(s, data) matches Some((n, _)) ==> {
            ||| n == (SettingsView { model: n.model, ..s })
            ||| n == (SettingsView { reasoning: n.reasoning, ..s })
            ||| n == (SettingsView { tts_provider: n.tts_provider, ..s })
            ||| n == (SettingsView { tts_enabled: n.tts_enabled, ..s })
            ||| n == (SettingsView { idle: n.idle, ..s })
        },
{
}

/// A level outside those on offer is never stored.
pub proof fn law_only_offered_levels_are_stored(s: SettingsView, data: Seq<char>)
    ensures
        selected(s, data) matches Some((n, _)) ==> n.reasoning == s.reasoning || (n.reasoning matches Some(level)
            && reasoning_levels().contains(level)),
{
}

/// The short confirmation of a tapped button.
pub open spec fn toast_of(data: Seq<char>) -> Seq<char> {
    let (action, value) = selection(data);
    if action == "model"@ {
        "Model: "@ + value
    } else if action == "reasoning"@ {
        "Reasoning: "@ + value
    } else if action == "ttsprov"@ {
        "Provider: "@ + value
    } else if action == "tts"@ {
        "TTS "@ + (if value == "on"@ {
            "ENABLED"@
        } else {
            "disabled"@
        })
    } else if action == "session"@ {
        "Session "@ + value
    } else {
        Seq::empty()
    }
}

pub fn toast_text(data: &str) -> (r: String)
    ensures
        r@ == toast_of(data@),
{
    let (action, value) = split_selection(data);
    if t::same(action.as_str(), "model") {
        "Model: ".to_owned().concat(value.as_str())
    } else if t::same(action.as_str(), "reasoning") {
        "Reasoning: ".to_owned().concat(value.as_str())
    } else if t::same(action.as_str(), "ttsprov") {
        "Provider: ".to_owned().concat(value.as_str())
    } else if t::same(action.as_str(), "tts") {
        "TTS ".to_owned().concat(
            if t::same(value.as_str(), "on") {
                "ENABLED"
            } else {
                "disabled"
            },
        )
    } else if t::same(action.as_str(), "session") {
        "Session ".to_owned().concat(value.as_str())
    } else {
        String::new()
    }
}

// ---------------------------------------------------------------------------
// Choices
// ---------------------------------------------------------------------------

/// A question with buttons: each has a label and the selection it stands for.
#[derive(Debug, PartialEq, Eq)]
pub struct Choices {
    pub prompt: String,
    pub buttons: Vec<(String, String)>,
    pub columns: usize,
}

pub struct ChoicesView {
    pub prompt: Seq<char>,
    pub buttons: Seq<(Seq<char>, Seq<char>)>,
    pub columns: nat,
}

pub open spec fn button_views(v: Seq<(String, String)>) -> Seq<(Seq<char>, Seq<char>)> {
    v.map_values(|b: (String, String)| (b.0@, b.1@))
}

impl View for Choices {
    type V = ChoicesView;

    open spec fn view(&self) -> ChoicesView {
        ChoicesView {
            prompt: self.prompt@,
            buttons: button_views(self.buttons@),
            columns: self.columns as nat,
        }
    }
}

/// A button for each value, with the selection `action:value`.
pub open spec fn buttons_for(action: Seq<char>, values: Seq<Seq<char>>) -> Seq<(Seq<char>, Seq<char>)> {
    values.map_values(|v: Seq<char>| (v, action + ":"@ + v))
}

/// How many bytes a text takes in UTF-8.
pub open spec fn byte_len(s: Seq<char>) -> nat {
    vstd::utf8::encode_utf8(s).len()
}

/// The values whose selection fits into the 64 bytes that a button carries.
pub open spec fn fitting(action: Seq<char>, values: Seq<Seq<char>>) -> Seq<Seq<char>> {
    values.filter(|v: Seq<char>| byte_len(action + ":"@ + v) <= 64)
}

fn make_buttons(action: &str, values: &Vec<String>) -> (r: Vec<(String, String)>)
    ensures
        button_views(r@) == buttons_for(action@, t::texts(values@)),
{
    let mut r: Vec<(String, String)> = Vec::new();
    let mut i: usize = 0;
    while i < values.len()
        invariant
            i <= values.len(),
            r.len() == i,
            forall|k: int|
                0 <= k < i ==> (#[trigger] r@[k]).0@ == values@[k]@ && r@[k].1@ == action@ + ":"@ + values@[k]@,
        decreases values.len() - i,
    {
        let data = action.to_owned().concat(":").concat(values[i].as_str());
        r.push((values[i].clone(), data));
        i += 1;
    }
    assert(button_views(r@) =~= buttons_for(action@, t::texts(values@)));
    r
}

fn keep_fitting(action: &str, values: &Vec<String>) -> (r: Vec<String>)
    ensures
        t::texts(r@) == fitting(action@, t::texts(values@)),
{
    let ghost all = t::texts(values@);
    let ghost keep = |v: Seq<char>| byte_len(action@ + ":"@ + v) <= 64;
    let mut r: Vec<String> = Vec::new();
    let mut i: usize = 0;
    assert(all.take(0).filter(keep) =~= Seq::<Seq<char>>::empty()) by {
        reveal(Seq::filter);
    }
    assert(t::texts(r@) =~= Seq::<Seq<char>>::empty());
    while i < values.len()
        invariant
            i <= values.len(),
            all == t::texts(values@),
            keep == (|v: Seq<char>| byte_len(action@ + ":"@ + v) <= 64),
            t::texts(r@) == all.take(i as int).filter(keep),
        decreases values.len() - i,
    {
        let ghost before = r@;
        proof {
            assert(all.take(i as int + 1).drop_last() =~= all.take(i as int));
            assert(all.take(i as int + 1).last() == values@[i as int]@);
            reveal(Seq::filter);
        }
        let data = action.to_owned().concat(":").concat(values[i].as_str());
        if data.as_str().as_bytes().len() <= 64 {
            r.push(values[i].clone());
            assert(t::texts(r@) =~= t::texts(before).push(values@[i as int]@));
        }
        i += 1;
    }
    assert(all.take(all.len() as int) =~= all);
    r
}

fn pair_of_buttons(a: &str, da: &str, b: &str, db: &str) -> (r: Vec<(String, String)>)
    ensures
        button_views(r@) == seq![(a@, da@), (b@, db@)],
{
    let mut r: Vec<(String, String)> = Vec::new();
    r.push((a.to_owned(), da.to_owned()));
    r.push((b.to_owned(), db.to_owned()));
    assert(button_views(r@) =~= seq![(a@, da@), (b@, db@)]);
    r
}

/// The buttons for a command that takes one of a few values. `models` are the
/// models on offer; without one that fits, there is no choice of model.
pub open spec fn choices_of(s: SettingsView, models: Seq<Seq<char>>, name: Seq<char>) -> Option<ChoicesView> {
    if name == "models"@ || name == "model"@ {
        let shown = fitting("model"@, models);
        if shown.len() == 0 {
            None
        } else {
            Some(
                ChoicesView {
                    prompt: "Current model: "@ + or_words(s.model, "(harness default)"@)
                        + "\nTap a recent model, or send /model <id> for any model:"@,
                    buttons: buttons_for("model"@, shown),
                    columns: 2,
                },
            )
        }
    } else if name == "reasoning"@ {
        Some(
            ChoicesView {
                prompt: "Reasoning effort: "@ + or_words(s.reasoning, "low (default)"@)
                    + " (codex/gpt-5)\nTap a level:"@,
                buttons: buttons_for("reasoning"@, reasoning_levels()),
                columns: 2,
            },
        )
    } else if name == "tts-provider"@ {
        Some(
            ChoicesView {
                prompt: "TTS provider: "@ + or_words(s.tts_provider, "(none)"@) + "\nPick one:"@,
                buttons: buttons_for("ttsprov"@, tts_providers()),
                columns: 1,
            },
        )
    } else if name == "tts"@ {
        Some(
            ChoicesView {
                prompt: "Text-to-speech is "@ + (if s.tts_enabled {
                    "ON"@
                } else {
                    "off"@
                }) + "."@,
                buttons: seq![("Enable"@, "tts:on"@), ("Disable"@, "tts:off"@)],
                columns: 2,
            },
        )
    } else if name == "session"@ {
        Some(
            ChoicesView {
                prompt: "Session is "@ + (if s.idle {
                    "idle"@
                } else {
                    "active"@
                }) + "."@,
                buttons: seq![("Active"@, "session:active"@), ("Idle"@, "session:idle"@)],
                columns: 2,
            },
        )
    } else {
        None
    }
}

pub open spec fn choices_view(o: Option<Choices>) -> Option<ChoicesView> {
    match o {
        Some(c) => Some(c@),
        None => None,
    }
}

pub fn command_selector_buttons(settings: &ChannelSettings, models: &Vec<String>, name: &str) -> (r: Option<
    Choices,
>)
    ensures
        choices_view(r) == choices_of(settings@, t::texts(models@), name@),
{
    if t::same(name, "models") || t::same(name, "model") {
        let shown = keep_fitting("model", models);
        assert(t::texts(shown@).len() == shown@.len());
        if shown.len() == 0 {
            return None;
        }
        Some(
            Choices {
                prompt: "Current model: ".to_owned().concat(
                    or_text(&settings.model, "(harness default)").as_str(),
                ).concat("\nTap a recent model, or send /model <id> for any model:"),
                buttons: make_buttons("model", &shown),
                columns: 2,
            },
        )
    } else if t::same(name, "reasoning") {
        Some(
            Choices {
                prompt: "Reasoning effort: ".to_owned().concat(
                    or_text(&settings.reasoning, "low (default)").as_str(),
                ).concat(" (codex/gpt-5)\nTap a level:"),
                buttons: make_buttons("reasoning", &reasoning_level_names()),
                columns: 2,
            },
        )
    } else if t::same(name, "tts-provider") {
        Some(
            Choices {
                prompt: "TTS provider: ".to_owned().concat(
                    or_text(&settings.tts_provider, "(none)").as_str(),
                ).concat("\nPick one:"),
                buttons: make_buttons("ttsprov", &tts_provider_names()),
                columns: 1,
            },
        )
    } else if t::same(name, "tts") {
        Some(
            Choices {
                prompt: "Text-to-speech is ".to_owned().concat(
                    if settings.tts_enabled {
                        "ON"
                    } else {
                        "off"
                    },
                ).concat("."),
                buttons: pair_of_buttons("Enable", "tts:on", "Disable", "tts:off"),
                columns: 2,
            },
        )
    } else if t::same(name, "session") {
        Some(
            Choices {
                prompt: "Session is ".to_owned().concat(
                    if settings.idle {
                        "idle"
                    } else {
                        "active"
                    },
                ).concat("."),
                buttons: pair_of_buttons("Active", "session:active", "Idle", "session:idle"),
                columns: 2,
            },
        )
    } else {
        None
    }
}

/// A selection whose action has no colon is read as it was written.
proof fn lemma_selection(action: Seq<char>, value: Seq<char>)
    requires
        !action.contains(':'),
    ensures
        selection(action + ":"@ + value) == (action, value),
{
    reveal_strlit(":");
    let data = action + ":"@ + value;
    let n = action.len() as int;
    assert(data.subrange(n, n + 1) =~= ":"@);
    t::lemma_find_from(data, ":"@, 0);
    assert(t::occurs_at(data, ":"@, n));
    let k = t::find(data, ":"@)->0;
    if k < n {
        assert(data.subrange(k, k + 1)[0] == ':');
        assert(data[k] == action[k]);
        assert(action.contains(action[k]));
    }
    assert(data.take(n) =~= action);
    assert(data.skip(n + 1) =~= value);
}

/// The actions of the buttons, and the values that the session and speech
/// buttons set, are the words that a selection is read by.
proof fn lemma_actions()
    ensures
        !"model"@.contains(':'),
        !"reasoning"@.contains(':'),
        !"ttsprov"@.contains(':'),
        !"tts"@.contains(':'),
        !"session"@.contains(':'),
        "tts:on"@ == "tts"@ + ":"@ + "on"@,
        "tts:off"@ == "tts"@ + ":"@ + "off"@,
        "session:active"@ == "session"@ + ":"@ + "active"@,
        "session:idle"@ == "session"@ + ":"@ + "idle"@,
        "model"@ != "reasoning"@,
        "reasoning"@ != "ttsprov"@,
        "model"@ != "ttsprov"@,
        "tts"@ != "model"@,
        "tts"@ != "reasoning"@,
        "tts"@ != "ttsprov"@,
        "session"@ != "model"@,
        "session"@ != "reasoning"@,
        "session"@ != "ttsprov"@,
        "session"@ != "tts"@,
        "off"@ != "on"@,
        "active"@ != "idle"@,
{
    reveal_strlit("model");
    reveal_strlit("reasoning");
    reveal_strlit("ttsprov");
    reveal_strlit("tts");
    reveal_strlit("session");
    reveal_strlit("tts:on");
    reveal_strlit("tts:off");
    reveal_strlit("session:active");
    reveal_strlit("session:idle");
    reveal_strlit("on");
    reveal_strlit("off");
    reveal_strlit("active");
    reveal_strlit("idle");
    reveal_strlit(":");
    assert("tts:on"@ =~= "tts"@ + ":"@ + "on"@);
    assert("tts:off"@ =~= "tts"@ + ":"@ + "off"@);
    assert("session:active"@ =~= "session"@ + ":"@ + "active"@);
    assert("session:idle"@ =~= "session"@ + ":"@ + "idle"@);
    assert("ttsprov"@[0] != "session"@[0]);
    assert("model"@.len() == 5 && "reasoning"@.len() == 9 && "ttsprov"@.len() == 7 && "tts"@.len() == 3);
    assert("off"@.len() == 3 && "on"@.len() == 2 && "active"@.len() == 6 && "idle"@.len() == 4);
}

/// Every button that is offered does what it says: tapping it sets the setting
/// of its command to the value on it.
pub proof fn law_every_button_sets_what_it_offers(
    s: SettingsView,
    models: Seq<Seq<char>>,
    name: Seq<char>,
    i: int,
)
    requires
        choices_of(s, models, name) is Some,
        0 <= i < choices_of(s, models, name)->0.buttons.len(),
    ensures
        ({
            let (label, data) = choices_of(s, models, name)->0.buttons[i];
            &&& selected(s, data) matches Some((after, _))
            &&& after == if name == "models"@ || name == "model"@ {
                SettingsView { model: Some(label), ..s }
            } else if name == "reasoning"@ {
                SettingsView { reasoning: Some(label), ..s }
            } else if name == "tts-provider"@ {
                SettingsView { tts_provider: Some(label), ..s }
            } else if name == "tts"@ {
                SettingsView { tts_enabled: i == 0, ..s }
            } else {
                SettingsView { idle: i == 1, ..s }
            }
        }),
{
    lemma_actions();
    let (label, data) = choices_of(s, models, name)->0.buttons[i];
    if name == "models"@ || name == "model"@ {
        lemma_selection("model"@, label);
    } else if name == "reasoning"@ {
        lemma_selection("reasoning"@, label);
        assert(reasoning_levels()[i] == label);
    } else if name == "tts-provider"@ {
        lemma_selection("ttsprov"@, label);
    } else if name == "tts"@ {
        lemma_selection("tts"@, "on"@);
        lemma_selection("tts"@, "off"@);
    } else {
        lemma_selection("session"@, "active"@);
        lemma_selection("session"@, "idle"@);
    }
}

/// What is chosen is what is set, and what is said names it: a model, a level of
/// effort that is on offer, a provider, whether replies are read aloud, whether
/// the session rests.
pub proof fn law_a_selection_sets_what_it_names(s: SettingsView, value: Seq<char>)
    ensures
        selected(s, "model"@ + ":"@ + value) == Some(
            (SettingsView { model: Some(value), ..s }, "Model set to `"@ + value + "` (applies to new turns)."@),
        ),
        value == "low"@ || value == "medium"@ || value == "high"@ ==> selected(s, "reasoning"@ + ":"@ + value) == Some(
            (
                SettingsView { reasoning: Some(value), ..s },
                "Reasoning effort set to `"@ + value + "` (applies to new turns)."@,
            ),
        ),
        value != "low"@ && value != "medium"@ && value != "high"@ ==> selected(s, "reasoning"@ + ":"@ + value) is None,
        selected(s, "ttsprov"@ + ":"@ + value) == Some(
            (SettingsView { tts_provider: Some(value), ..s }, "TTS provider set to `"@ + value + "`."@),
        ),
        selected(s, "tts"@ + ":"@ + value) matches Some((after, _)) && after == (SettingsView {
            tts_enabled: value == "on"@,
            ..s
        }),
        selected(s, "session"@ + ":"@ + value) matches Some((after, _)) && after == (SettingsView {
            idle: value == "idle"@,
            ..s
        }),
{
    lemma_actions();
    lemma_selection("model"@, value);
    lemma_selection("reasoning"@, value);
    lemma_selection("ttsprov"@, value);
    lemma_selection("tts"@, value);
    lemma_selection("session"@, value);
    let levels = reasoning_levels();
    assert(levels[0] == "low"@ && levels[1] == "medium"@ && levels[2] == "high"@);
    if levels.contains(value) {
        let k = choose|k: int| 0 <= k < levels.len() && levels[k] == value;
        assert(k == 0 || k == 1 || k == 2);
    }
}

/// What is said of a selection is that it could not be saved, where it could not;
/// a selection that nothing offers is not said to be done.
pub proof fn law_an_unsaved_selection_is_not_confirmed(s: SettingsView, data: Seq<char>, error: Seq<char>)
    ensures
        selected(s, data) matches Some((_, said)) ==> selection_reply(s, data, None) == said && selection_reply(
            s,
            data,
            Some(error),
        ) == "Could not save: "@ + error,
        selected(s, data) is None && selection(data).0 != "reasoning"@ ==> selection_reply(s, data, None)
            == "Unknown selection."@,
        selected(s, data) is None && selection(data).0 == "reasoning"@ ==> selection_reply(s, data, None)
            == "Unknown level `"@ + selection(data).1 + "`. Choose one of: "@ + t::joined(
            seq!["low"@, "medium"@, "high"@],
            ", "@,
        ),
{
}

/// A tap is confirmed with what was chosen.
pub proof fn law_a_tap_is_confirmed_with_its_value(value: Seq<char>)
    ensures
        toast_of("model"@ + ":"@ + value) == "Model: "@ + value,
        toast_of("reasoning"@ + ":"@ + value) == "Reasoning: "@ + value,
        toast_of("ttsprov"@ + ":"@ + value) == "Provider: "@ + value,
        toast_of("session"@ + ":"@ + value) == "Session "@ + value,
        value == "on"@ ==> toast_of("tts"@ + ":"@ + value) == "TTS "@ + "ENABLED"@,
        value != "on"@ ==> toast_of("tts"@ + ":"@ + value) == "TTS "@ + "disabled"@,
{
    lemma_actions();
    lemma_selection("model"@, value);
    lemma_selection("reasoning"@, value);
    lemma_selection("ttsprov"@, value);
    lemma_selection("tts"@, value);
    lemma_selection("session"@, value);
}

/// Every model that fits on a button is offered, in order, and the current one
/// is named; where none fits there is no choice.
pub proof fn law_every_model_that_fits_is_offered(s: SettingsView, models: Seq<Seq<char>>, model: Seq<char>)
    requires
        models.contains(model),
        byte_len("model"@ + ":"@ + model) <= 64,
    ensures
        choices_of(s, models, "model"@) matches Some(c) && c.buttons.contains((model, "model"@ + ":"@ + model))
            && t::starts(c.prompt, "Current model: "@ + or_words(s.model, "(harness default)"@)),
        choices_of(s, models, "models"@) == choices_of(s, models, "model"@),
{
    let keep = |v: Seq<char>| byte_len("model"@ + ":"@ + v) <= 64;
    let k = choose|k: int| 0 <= k < models.len() && models[k] == model;
    assert(keep(models[k]));
    models.lemma_filter_contains(keep, k);
    let shown = fitting("model"@, models);
    let j = choose|j: int| 0 <= j < shown.len() && shown[j] == model;
    let c = choices_of(s, models, "model"@)->0;
    assert(c.buttons[j] == (model, "model"@ + ":"@ + model));
    let front = "Current model: "@ + or_words(s.model, "(harness default)"@);
    assert(c.prompt.subrange(0, front.len() as int) =~= front);
}

/// A level that is not on offer is named, and so are those that are.
pub proof fn law_an_unknown_level_is_named(value: Seq<char>)
    ensures
        t::has(unknown_level(value), value),
        t::ends(unknown_level(value), t::joined(reasoning_levels(), ", "@)),
{
    let a = "Unknown level `"@;
    let m = "`. Choose one of: "@;
    let z = t::joined(reasoning_levels(), ", "@);
    let all = unknown_level(value);
    t::lemma_has_part(a, value, m + z);
    assert(a + value + (m + z) =~= all);
    assert(all.subrange(all.len() - z.len(), all.len() as int) =~= z);
}

} // verus!
