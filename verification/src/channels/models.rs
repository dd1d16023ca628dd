//! The models that a harness can be set to.

use crate::channels::settings;
use crate::channels::settings::{or_text, ChannelSettings, SettingsView};
use crate::json;
use crate::json::{parse_json, Json, Tree};
use crate::text as t;
use vstd::prelude::*;
use vstd::string::*;

verus! {

/// One entry of the OpenRouter catalog.
#[derive(Debug, PartialEq, Eq)]
pub struct OpenRouterModel {
    pub id: String,
    /// When the model was added, in seconds since the epoch.
    pub created: i64,
    /// Whether the model emits text, as a chat model does.
    pub text_output: bool,
    /// Whether the model accepts tools.
    pub supports_tools: bool,
}

pub struct ModelView {
    pub id: Seq<char>,
    pub created: int,
    pub text_output: bool,
    pub supports_tools: bool,
}

impl View for OpenRouterModel {
    type V = ModelView;

    open spec fn view(&self) -> ModelView {
        ModelView {
            id: self.id@,
            created: self.created as int,
            text_output: self.text_output,
            supports_tools: self.supports_tools,
        }
    }
}

pub open spec fn model_views(v: Seq<OpenRouterModel>) -> Seq<ModelView> {
    v.map_values(|m: OpenRouterModel| m@)
}

/// Parts of the names of models that are not for chatting.
pub open spec fn denied_parts() -> Seq<Seq<char>> {
    seq!["embed"@, "moderation"@, "content-safety"@, "guard"@, "image"@, "rerank"@]
}

/// Whether a model can be chatted with: it emits text, takes tools, and its
/// name speaks of nothing else.
pub open spec fn chats(m: ModelView) -> bool {
    &&& m.text_output
    &&& m.supports_tools
    &&& forall|i: int| 0 <= i < denied_parts().len() ==> !t::has(t::lower(m.id), #[trigger] denied_parts()[i])
}

pub fn is_chat_model(m: &OpenRouterModel) -> (r: bool)
    ensures
        r == chats(m@),
{
    let id = t::to_lower(m.id.as_str());
    let name = id.as_str();
    let denied = t::contains(name, "embed") || t::contains(name, "moderation") || t::contains(
        name,
        "content-safety",
    ) || t::contains(name, "guard") || t::contains(name, "image") || t::contains(name, "rerank");
    proof {
        let d = denied_parts();
        assert(d[0] == "embed"@ && d[1] == "moderation"@ && d[2] == "content-safety"@);
        assert(d[3] == "guard"@ && d[4] == "image"@ && d[5] == "rerank"@);
    }
    m.text_output && m.supports_tools && !denied
}

/// Whether `a` is offered no later than `b`: the newer one first, and by name
/// where they are of one age.
pub open spec fn offered_first(a: ModelView, b: ModelView) -> bool {
    a.created > b.created || (a.created == b.created && t::no_later(a.id, b.id))
}

fn comes_first(a: &OpenRouterModel, b: &OpenRouterModel) -> (r: bool)
    ensures
        r == offered_first(a@, b@),
{
    a.created > b.created || (a.created == b.created && t::comes_no_later(a.id.as_str(), b.id.as_str()))
}

/// The list with `m` put behind everything that is offered first.
pub open spec fn put_model(list: Seq<ModelView>, m: ModelView) -> Seq<ModelView>
    decreases list.len(),
{
    if list.len() == 0 {
        seq![m]
    } else if offered_first(list.last(), m) {
        list.push(m)
    } else {
        put_model(list.drop_last(), m).push(list.last())
    }
}

/// The models in the order in which they are offered.
pub open spec fn ranked(list: Seq<ModelView>) -> Seq<ModelView>
    decreases list.len(),
{
    if list.len() == 0 {
        Seq::empty()
    } else {
        put_model(ranked(list.drop_last()), list.last())
    }
}

/// The models of a catalog that can be chatted with, in the order in which they
/// are offered.
pub open spec fn on_offer(list: Seq<ModelView>) -> Seq<ModelView> {
    ranked(list.filter(|m: ModelView| chats(m)))
}

/// The names of the `n` newest models that can be chatted with.
pub open spec fn recent(list: Seq<ModelView>, n: nat) -> Seq<Seq<char>> {
    let all = on_offer(list).map_values(|m: ModelView| m.id);
    if all.len() <= n {
        all
    } else {
        all.take(n as int)
    }
}

impl OpenRouterModel {
    pub fn copy(&self) -> (r: OpenRouterModel)
        ensures
            r@ == self@,
    {
        OpenRouterModel {
            id: self.id.clone(),
            created: self.created,
            text_output: self.text_output,
            supports_tools: self.supports_tools,
        }
    }
}

fn rank_model(list: &mut Vec<OpenRouterModel>, m: OpenRouterModel)
    ensures
        model_views(final(list)@) == put_model(model_views(old(list)@), m@),
    decreases old(list)@.len(),
{
    let ghost all = model_views(list@);
    let n: usize = list.len();
    if n == 0 {
        list.push(m);
        assert(model_views(list@) =~= seq![m@]);
        return;
    }
    assert(all.last() == list@[n - 1]@);
    if comes_first(&list[n - 1], &m) {
        list.push(m);
        assert(model_views(list@) =~= all.push(m@));
    } else {
        let last = list.pop();
        assert(model_views(list@) =~= all.drop_last());
        rank_model(list, m);
        let ghost inner = model_views(list@);
        match last {
            Some(x) => {
                list.push(x);
                assert(model_views(list@) =~= inner.push(all.last()));
            },
            None => {},
        }
    }
}

/// The names of the `n` newest models of the catalog that can be chatted with,
/// newest first.
pub fn recent_openrouter_models(models: &Vec<OpenRouterModel>, n: usize) -> (r: Vec<String>)
    ensures
        t::texts(r@) == recent(model_views(models@), n as nat),
{
    let ghost all = model_views(models@);
    let ghost keep = |m: ModelView| chats(m);
    let mut sorted: Vec<OpenRouterModel> = Vec::new();
    let mut i: usize = 0;
    assert(all.take(0).filter(keep) =~= Seq::<ModelView>::empty()) by {
        reveal(Seq::filter);
    }
    assert(model_views(sorted@) =~= Seq::<ModelView>::empty());
    while i < models.len()
        invariant
            i <= models.len(),
            all == model_views(models@),
            keep == (|m: ModelView| chats(m)),
            model_views(sorted@) == ranked(all.take(i as int).filter(keep)),
        decreases models.len() - i,
    {
        proof {
            let before = all.take(i as int);
            assert(all.take(i as int + 1).drop_last() =~= before);
            assert(all.take(i as int + 1).last() == models@[i as int]@);
            reveal(Seq::filter);
            if chats(models@[i as int]@) {
                let kept = before.filter(keep);
                assert(kept.push(models@[i as int]@).drop_last() =~= kept);
            }
        }
        if is_chat_model(&models[i]) {
            rank_model(&mut sorted, models[i].copy());
        }
        i += 1;
    }
    assert(all.take(all.len() as int) =~= all);
    let ghost ids = model_views(sorted@).map_values(|m: ModelView| m.id);
    let mut r: Vec<String> = Vec::new();
    let mut k: usize = 0;
    while k < sorted.len() && k < n
        invariant
            k <= sorted.len(),
            k <= n,
            ids == model_views(sorted@).map_values(|m: ModelView| m.id),
            t::texts(r@) == ids.take(k as int),
        decreases sorted.len() - k,
    {
        let ghost before = r@;
        r.push(sorted[k].id.clone());
        assert(t::texts(r@) =~= t::texts(before).push(ids[k as int]));
        assert(ids.take(k as int + 1) =~= ids.take(k as int).push(ids[k as int]));
        k += 1;
    }
    assert(ids.take(ids.len() as int) =~= ids);
    r
}

proof fn lemma_put_model(list: Seq<ModelView>, m: ModelView)
    ensures
        put_model(list, m).to_multiset() == list.to_multiset().insert(m),
        put_model(list, m).len() == list.len() + 1,
    decreases list.len(),
{
    broadcast use vstd::seq_lib::group_to_multiset_ensures;

    if list.len() == 0 {
        assert(put_model(list, m) =~= list.push(m));
    } else if !offered_first(list.last(), m) {
        lemma_put_model(list.drop_last(), m);
        assert(list =~= list.drop_last().push(list.last()));
        assert(put_model(list, m).to_multiset() =~= list.to_multiset().insert(m));
    }
}

proof fn lemma_ranked(list: Seq<ModelView>)
    ensures
        ranked(list).to_multiset() == list.to_multiset(),
        ranked(list).len() == list.len(),
    decreases list.len(),
{
    broadcast use vstd::seq_lib::group_to_multiset_ensures;

    if list.len() > 0 {
        lemma_ranked(list.drop_last());
        lemma_put_model(ranked(list.drop_last()), list.last());
        assert(list =~= list.drop_last().push(list.last()));
    } else {
        assert(ranked(list) =~= list);
    }
}

/// Newer models stand before older ones, and of equally new ones those whose ids
/// come first.
pub open spec fn newest_first(list: Seq<ModelView>) -> bool {
    forall|i: int, j: int| 0 <= i < j < list.len() ==> offered_first(#[trigger] list[i], #[trigger] list[j])
}

proof fn lemma_offered_first(a: ModelView, b: ModelView, c: ModelView)
    ensures
        offered_first(a, b) || offered_first(b, a),
        offered_first(a, b) && offered_first(b, c) ==> offered_first(a, c),
{
    t::lemma_no_later_total(a.id, b.id);
    if t::no_later(a.id, b.id) && t::no_later(b.id, c.id) {
        t::lemma_no_later_transitive(a.id, b.id, c.id);
    }
}

proof fn lemma_put_keeps_order(list: Seq<ModelView>, m: ModelView)
    requires
        newest_first(list),
    ensures
        newest_first(put_model(list, m)),
        forall|x: ModelView|
            (forall|k: int| 0 <= k < list.len() ==> offered_first(#[trigger] list[k], x)) && offered_first(m, x)
                ==> forall|k: int|
                0 <= k < put_model(list, m).len() ==> offered_first(#[trigger] put_model(list, m)[k], x),
    decreases list.len(),
{
    lemma_put_model(list, m);
    let r = put_model(list, m);
    if list.len() == 0 {
    } else if offered_first(list.last(), m) {
        assert forall|i: int, j: int| 0 <= i < j < r.len() implies offered_first(#[trigger] r[i], #[trigger] r[j]) by {
            if j < list.len() {
                assert(offered_first(list[i], list[j]));
            } else if i < list.len() - 1 {
                assert(offered_first(list[i], list[list.len() - 1]));
                lemma_offered_first(list[i], list.last(), m);
            }
        }
    } else {
        let rest = list.drop_last();
        let last = list.last();
        assert forall|i: int, j: int| 0 <= i < j < rest.len() implies offered_first(
            #[trigger] rest[i],
            #[trigger] rest[j],
        ) by {
            assert(offered_first(list[i], list[j]));
        }
        lemma_put_keeps_order(rest, m);
        lemma_put_model(rest, m);
        let inner = put_model(rest, m);
        assert(r == inner.push(last));
        lemma_offered_first(last, m, m);
        assert forall|k: int| 0 <= k < rest.len() implies offered_first(#[trigger] rest[k], last) by {
            assert(offered_first(list[k], list[list.len() - 1]));
        }
        assert forall|i: int, j: int| 0 <= i < j < r.len() implies offered_first(#[trigger] r[i], #[trigger] r[j]) by {
            if j < inner.len() {
                assert(offered_first(inner[i], inner[j]));
            } else {
                assert(offered_first(inner[i], last));
            }
        }
        assert forall|x: ModelView|
            (forall|k: int| 0 <= k < list.len() ==> offered_first(#[trigger] list[k], x)) && offered_first(
                m,
                x,
            ) implies forall|k: int| 0 <= k < r.len() ==> offered_first(#[trigger] r[k], x) by {
            assert forall|k: int| 0 <= k < rest.len() implies offered_first(#[trigger] rest[k], x) by {
                assert(offered_first(list[k], x));
            }
            assert(offered_first(list[list.len() - 1], x));
            assert forall|k: int| 0 <= k < r.len() implies offered_first(#[trigger] r[k], x) by {
                if k < inner.len() {
                    assert(offered_first(inner[k], x));
                }
            }
        }
    }
}

proof fn lemma_ranked_order(list: Seq<ModelView>)
    ensures
        newest_first(ranked(list)),
    decreases list.len(),
{
    if list.len() > 0 {
        lemma_ranked_order(list.drop_last());
        lemma_put_keeps_order(ranked(list.drop_last()), list.last());
    }
}

/// Ranking keeps every chat model of the catalog and nothing else, and offers
/// the newer ones first; among equally new ones, the order of their ids decides.
pub proof fn law_the_newest_chat_models_come_first(list: Seq<ModelView>)
    ensures
        newest_first(on_offer(list)),
        on_offer(list).to_multiset() == list.filter(|m: ModelView| chats(m)).to_multiset(),
        forall|k: int| 0 <= k < on_offer(list).len() ==> chats(#[trigger] on_offer(list)[k]),
{
    broadcast use vstd::seq_lib::group_to_multiset_ensures;

    let p = |m: ModelView| chats(m);
    let kept = list.filter(p);
    lemma_ranked(kept);
    lemma_ranked_order(kept);
    let r = ranked(kept);
    assert forall|k: int| 0 <= k < r.len() implies chats(#[trigger] r[k]) by {
        assert(r.contains(r[k]));
        assert(r.to_multiset().count(r[k]) > 0);
        assert(kept.contains(r[k]));
        let i = choose|i: int| 0 <= i < kept.len() && kept[i] == r[k];
        list.lemma_filter_pred(p, i);
    }
}

// ---------------------------------------------------------------------------
// The catalog
// ---------------------------------------------------------------------------

/// Whether the text is among the items.
pub open spec fn lists(items: Seq<Tree>, word: Seq<char>) -> bool {
    exists|i: int| 0 <= i < items.len() && (#[trigger] items[i]).text() == Some(word)
}

fn list_names(items: &Vec<Json>, word: &str) -> (r: bool)
    ensures
        r == lists(json::trees(items@), word@),
{
    let mut i: usize = 0;
    while i < items.len()
        invariant
            i <= items.len(),
            forall|k: int| 0 <= k < i ==> (#[trigger] json::trees(items@)[k]).text() != Some(word@),
        decreases items.len() - i,
    {
        assert(json::trees(items@)[i as int] == items@[i as int]@);
        match items[i].text() {
            Some(s) => if t::same(s.as_str(), word) {
                return true;
            },
            None => {},
        }
        i += 1;
    }
    false
}

/// A catalog entry, where it has a name. What the entry does not say is taken
/// in the model's favour.
pub open spec fn model_in(entry: Tree) -> Option<ModelView> {
    match entry.text_at("id"@) {
        None => None,
        Some(id) => {
            let outputs = match entry.get("architecture"@) {
                Some(a) => a.items_at("output_modalities"@),
                None => None,
            };
            Some(
                ModelView {
                    id,
                    created: match entry.int64_at("created"@) {
                        Some(n) => n,
                        None => 0,
                    },
                    text_output: match outputs {
                        Some(items) => lists(items, "text"@),
                        None => true,
                    },
                    supports_tools: match entry.items_at("supported_parameters"@) {
                        Some(items) => lists(items, "tools"@),
                        None => true,
                    },
                },
            )
        },
    }
}

pub open spec fn model_view(o: Option<OpenRouterModel>) -> Option<ModelView> {
    match o {
        Some(m) => Some(m@),
        None => None,
    }
}

pub fn read_model(entry: &Json) -> (r: Option<OpenRouterModel>)
    ensures
        model_view(r) == model_in(entry@),
{
    match entry.text_at("id") {
        None => None,
        Some(id) => {
            let created: i64 = match entry.int64_at("created") {
                Some(n) => n,
                None => 0,
            };
            let outputs = match entry.get("architecture") {
                Some(a) => a.items_at("output_modalities"),
                None => None,
            };
            let text_output = match outputs {
                Some(items) => list_names(items, "text"),
                None => true,
            };
            let supports_tools = match entry.items_at("supported_parameters") {
                Some(items) => list_names(items, "tools"),
                None => true,
            };
            Some(OpenRouterModel { id, created, text_output, supports_tools })
        },
    }
}

pub open spec fn models_in(entries: Seq<Tree>) -> Seq<ModelView>
    decreases entries.len(),
{
    if entries.len() == 0 {
        Seq::empty()
    } else {
        match model_in(entries.last()) {
            Some(m) => models_in(entries.drop_last()).push(m),
            None => models_in(entries.drop_last()),
        }
    }
}

/// The models that a catalog document lists under `data`.
pub open spec fn catalog_models(doc: Tree) -> Seq<ModelView> {
    match doc.items_at("data"@) {
        Some(entries) => models_in(entries),
        None => Seq::empty(),
    }
}

pub fn read_catalog(doc: &Json) -> (r: Vec<OpenRouterModel>)
    ensures
        model_views(r@) == catalog_models(doc@),
{
    let mut r: Vec<OpenRouterModel> = Vec::new();
    assert(model_views(r@) =~= Seq::<ModelView>::empty());
    match doc.items_at("data") {
        None => {},
        Some(entries) => {
            let ghost all = json::trees(entries@);
            let mut i: usize = 0;
            assert(all.take(0) =~= Seq::<Tree>::empty());
            while i < entries.len()
                invariant
                    i <= entries.len(),
                    all == json::trees(entries@),
                    model_views(r@) == models_in(all.take(i as int)),
                decreases entries.len() - i,
            {
                let ghost before = r@;
                assert(all.take(i as int + 1).drop_last() =~= all.take(i as int));
                assert(all.take(i as int + 1).last() == entries@[i as int]@);
                match read_model(&entries[i]) {
                    Some(m) => {
                        r.push(m);
                        assert(model_views(r@) =~= model_views(before).push(m@));
                    },
                    None => {},
                }
                i += 1;
            }
            assert(all.take(all.len() as int) =~= all);
        },
    }
    r
}

pub open spec fn catalog_view(o: Option<Vec<OpenRouterModel>>) -> Option<Seq<ModelView>> {
    match o {
        Some(v) => Some(model_views(v@)),
        None => None,
    }
}

/// Reads the catalog from what OpenRouter sent; `None` where that is not JSON.
pub fn parse_openrouter_catalog(raw: &str) -> (r: Option<Vec<OpenRouterModel>>)
    ensures
        catalog_view(r) == match json::parsed_json(raw@) {
            Some(doc) => Some(catalog_models(doc)),
            None => None,
        },
{
    match parse_json(raw) {
        Some(doc) => Some(read_catalog(&doc)),
        None => None,
    }
}

// ---------------------------------------------------------------------------
// Codex and its companion
// ---------------------------------------------------------------------------

/// How a codex login authenticates.
#[derive(Clone, Copy, Debug, PartialEq, Eq, Structural)]
pub enum CodexAuthMode {
    ChatGpt,
    ApiKey,
    Unknown,
}

/// The mode that an authentication document speaks of: by name, else by which
/// credential it holds.
pub open spec fn auth_mode(doc: Option<Tree>) -> CodexAuthMode {
    match doc {
        None => CodexAuthMode::Unknown,
        Some(d) => {
            let named = match d.text_at("auth_mode"@) {
                Some(m) => t::lower(m),
                None => Seq::empty(),
            };
            let tokens = d.get("tokens"@) is Some && !(d.get("tokens"@)->0 is Null);
            let key = d.text_at("OPENAI_API_KEY"@) is Some && d.text_at("OPENAI_API_KEY"@)->0.len() > 0;
            if named == "chatgpt"@ {
                CodexAuthMode::ChatGpt
            } else if named == "apikey"@ {
                CodexAuthMode::ApiKey
            } else if tokens {
                CodexAuthMode::ChatGpt
            } else if key {
                CodexAuthMode::ApiKey
            } else {
                CodexAuthMode::Unknown
            }
        },
    }
}

/// The mode that a parsed authentication document speaks of.
pub fn auth_mode_of(doc: Option<&Json>) -> (r: CodexAuthMode)
    ensures
        r == auth_mode(json::opt_tree(doc)),
{
    let d = match doc {
        None => {
            return CodexAuthMode::Unknown;
        },
        Some(d) => d,
    };
    proof {
        reveal_strlit("chatgpt");
        reveal_strlit("apikey");
    }
    let named = match d.text_at("auth_mode") {
        Some(m) => t::to_lower(m.as_str()),
        None => String::new(),
    };
    if t::same(named.as_str(), "chatgpt") {
        return CodexAuthMode::ChatGpt;
    }
    if t::same(named.as_str(), "apikey") {
        return CodexAuthMode::ApiKey;
    }
    let tokens = match d.get("tokens") {
        Some(Json::Null) => false,
        Some(_) => true,
        None => false,
    };
    let key = match d.text_at("OPENAI_API_KEY") {
        Some(k) => !k.as_str().is_empty(),
        None => false,
    };
    if tokens {
        CodexAuthMode::ChatGpt
    } else if key {
        CodexAuthMode::ApiKey
    } else {
        CodexAuthMode::Unknown
    }
}

pub open spec fn auth_mode_in(raw: Option<Seq<char>>) -> CodexAuthMode {
    auth_mode(
        match raw {
            Some(s) => json::parsed_json(s),
            None => None,
        },
    )
}

/// The mode of the login whose `auth.json` was read, where it could be.
pub fn codex_auth_mode(raw: Option<&str>) -> (r: CodexAuthMode)
    ensures
        r == auth_mode_in(t::opt_str(raw)),
{
    match raw {
        None => auth_mode_of(None),
        Some(s) => match parse_json(s) {
            Some(doc) => auth_mode_of(Some(&doc)),
            None => auth_mode_of(None),
        },
    }
}

pub open spec fn quotes() -> spec_fn(char) -> bool {
    (t::Trim::Two { a: '"', b: '\'' }).pred()
}

/// The value of the `model` key on one line of a configuration.
pub open spec fn model_on_line(line: Seq<char>) -> Option<Seq<char>> {
    match t::cut(line, "="@) {
        Some((key, val)) => {
            let v = t::trim_by(t::trimmed(val), quotes());
            if t::trimmed(key) == "model"@ && v.len() > 0 {
                Some(v)
            } else {
                None
            }
        },
        None => None,
    }
}

/// The model that the lines from `i` on set before the first table.
pub open spec fn model_from(lines: Seq<Seq<char>>, i: int) -> Option<Seq<char>>
    decreases lines.len() - i,
{
    if i < 0 || i >= lines.len() {
        None
    } else {
        let line = t::trimmed(lines[i]);
        if t::starts(line, "["@) {
            None
        } else if model_on_line(line) is Some {
            model_on_line(line)
        } else {
            model_from(lines, i + 1)
        }
    }
}

fn line_model(line: &str) -> (r: Option<String>)
    ensures
        t::opt_view(r) == model_on_line(line@),
{
    match t::split_once(line, "=") {
        Some((key, val)) => {
            let inner = t::trim(val.as_str());
            let v = t::trim_matches(inner.as_str(), &t::Trim::Two { a: '"', b: '\'' });
            if t::same(t::trim(key.as_str()).as_str(), "model") && !v.as_str().is_empty() {
                Some(v)
            } else {
                None
            }
        },
        None => None,
    }
}

/// The default model that a codex configuration sets, ahead of its tables.
pub fn codex_default_model(raw: &str) -> (r: Option<String>)
    ensures
        t::opt_view(r) == model_from(t::lines_of(raw@), 0),
{
    let lines = t::lines(raw);
    let ghost all = t::texts(lines@);
    let mut i: usize = 0;
    while i < lines.len()
        invariant
            i <= lines.len(),
            all == t::texts(lines@),
            all == t::lines_of(raw@),
            model_from(all, 0) == model_from(all, i as int),
        decreases lines.len() - i,
    {
        assert(all[i as int] == lines@[i as int]@);
        let line = t::trim(lines[i].as_str());
        if t::starts_with(line.as_str(), "[") {
            return None;
        }
        let found = line_model(line.as_str());
        if found.is_some() {
            return found;
        }
        i += 1;
    }
    None
}

pub open spec fn codex_base(mode: CodexAuthMode) -> Seq<Seq<char>> {
    match mode {
        CodexAuthMode::ApiKey => seq!["gpt-5.5"@, "gpt-5.5-codex"@, "gpt-5"@, "gpt-5-codex"@, "gpt-5-mini"@],
        _ => seq!["gpt-5.5"@],
    }
}

/// The models for a login, with the configured default in front where it is
/// not among them.
pub open spec fn codex_list(mode: CodexAuthMode, default: Option<Seq<char>>) -> Seq<Seq<char>> {
    match default {
        Some(d) => if codex_base(mode).contains(d) {
            codex_base(mode)
        } else {
            seq![d] + codex_base(mode)
        },
        None => codex_base(mode),
    }
}

fn codex_base_names(mode: CodexAuthMode) -> (r: Vec<String>)
    ensures
        t::texts(r@) == codex_base(mode),
{
    let mut r: Vec<String> = Vec::new();
    r.push("gpt-5.5".to_owned());
    match mode {
        CodexAuthMode::ApiKey => {
            r.push("gpt-5.5-codex".to_owned());
            r.push("gpt-5".to_owned());
            r.push("gpt-5-codex".to_owned());
            r.push("gpt-5-mini".to_owned());
        },
        _ => {},
    }
    assert(t::texts(r@) =~= codex_base(mode));
    r
}

pub fn codex_model_list(mode: CodexAuthMode, default: Option<String>) -> (r: Vec<String>)
    ensures
        t::texts(r@) == codex_list(mode, t::opt_view(default)),
{
    let mut r = codex_base_names(mode);
    match default {
        Some(d) => {
            if !t::list_has(&r, d.as_str()) {
                let ghost before = r@;
                r.insert(0, d);
                assert(t::texts(r@) =~= seq![d@] + t::texts(before));
            }
        },
        None => {},
    }
    r
}

pub open spec fn default_in(config: Option<Seq<char>>) -> Option<Seq<char>> {
    match config {
        Some(raw) => model_from(t::lines_of(raw), 0),
        None => None,
    }
}

/// The models on offer for a codex login, from its `auth.json` and its
/// `config.toml`, as far as they could be read.
pub fn codex_models_for_auth(auth: Option<&str>, config: Option<&str>) -> (r: Vec<String>)
    ensures
        t::texts(r@) == codex_list(auth_mode_in(t::opt_str(auth)), default_in(t::opt_str(config))),
{
    let default = match config {
        Some(raw) => codex_default_model(raw),
        None => None,
    };
    codex_model_list(codex_auth_mode(auth), default)
}

pub open spec fn claude_models() -> Seq<Seq<char>> {
    seq!["opus"@, "sonnet"@, "haiku"@]
}

pub fn claude_model_names() -> (r: Vec<String>)
    ensures
        t::texts(r@) == claude_models(),
{
    let mut r: Vec<String> = Vec::new();
    r.push("opus".to_owned());
    r.push("sonnet".to_owned());
    r.push("haiku".to_owned());
    assert(t::texts(r@) =~= claude_models());
    r
}

/// What runs an agent's turns.
#[derive(Clone, Copy, Debug, PartialEq, Eq, Structural)]
pub enum Harness {
    Codex,
    ClaudeCode,
    Opencode,
    /// The agent's specification could not be read.
    Unreadable,
}

/// The name of a harness. `coder` is the command of the coding tool that stands
/// beside codex and opencode.
pub fn harness_label(harness: Harness, coder: &str) -> (r: String)
    ensures
        r@ == match harness {
            Harness::Codex => "codex"@,
            Harness::ClaudeCode => coder@ + "-code"@,
            Harness::Opencode => "opencode"@,
            Harness::Unreadable => "unknown"@,
        },
{
    match harness {
        Harness::Codex => "codex".to_owned(),
        Harness::ClaudeCode => coder.to_owned().concat("-code"),
        Harness::Opencode => "opencode".to_owned(),
        Harness::Unreadable => "unknown".to_owned(),
    }
}

/// What is on offer: the OpenRouter catalog, or why it is not at hand, and
/// what was read of the codex login.
#[derive(Debug, PartialEq, Eq)]
pub struct ModelSources {
    pub catalog: Result<Vec<OpenRouterModel>, String>,
    pub codex_mode: CodexAuthMode,
    pub codex_default: Option<String>,
    /// The command of the coding tool that stands beside codex and opencode.
    pub coder: String,
}

pub open spec fn button_models(harness: Harness, sources: ModelSources) -> Seq<Seq<char>> {
    match harness {
        Harness::Opencode => match sources.catalog {
            Ok(models) => recent(model_views(models@), 20),
            Err(_) => Seq::empty(),
        },
        Harness::ClaudeCode => claude_models(),
        _ => codex_list(sources.codex_mode, t::opt_view(sources.codex_default)),
    }
}

/// The models that are offered as buttons.
pub fn model_button_choices(harness: Harness, sources: &ModelSources) -> (r: Vec<String>)
    ensures
        t::texts(r@) == button_models(harness, *sources),
{
    match harness {
        Harness::Opencode => match &sources.catalog {
            Ok(models) => recent_openrouter_models(models, 20),
            Err(_) => {
                let none: Vec<String> = Vec::new();
                assert(t::texts(none@) =~= Seq::<Seq<char>>::empty());
                none
            },
        },
        Harness::ClaudeCode => claude_model_names(),
        _ => codex_model_list(sources.codex_mode, sources.codex_default.clone()),
    }
}

pub open spec fn codex_note(mode: CodexAuthMode) -> Seq<char> {
    match mode {
        CodexAuthMode::ChatGpt => "ChatGPT login: only gpt-5.5 is accepted — vary effort with /reasoning"@,
        CodexAuthMode::ApiKey => "API-key login: any catalog id also works via /model <id>"@,
        CodexAuthMode::Unknown => "could not read codex auth; showing the ChatGPT-safe default"@,
    }
}

pub open spec fn models_body(harness: Harness, sources: ModelSources) -> Seq<char> {
    match harness {
        Harness::Opencode => match sources.catalog {
            Ok(models) => if models@.len() == 0 {
                "OpenRouter returned no models."@
            } else {
                let shown = recent(model_views(models@), 30);
                "OpenRouter — "@ + t::decimal(shown.len()) + " most recent chat models (newest first):\n"@
                    + t::joined(shown, "\n"@)
            },
            Err(error) => "Could not fetch OpenRouter catalog: "@ + error@,
        },
        Harness::Codex => "Codex models: "@ + t::joined(
            codex_list(sources.codex_mode, t::opt_view(sources.codex_default)),
            ", "@,
        ) + "\n("@ + codex_note(sources.codex_mode) + ")"@,
        _ => sources.coder@ + "-code models: "@ + t::joined(claude_models(), ", "@),
    }
}

fn models_body_text(harness: Harness, sources: &ModelSources) -> (r: String)
    ensures
        r@ == models_body(harness, *sources),
{
    match harness {
        Harness::Opencode => match &sources.catalog {
            Ok(models) => if models.len() == 0 {
                "OpenRouter returned no models.".to_owned()
            } else {
                let shown = recent_openrouter_models(models, 30);
                assert(t::texts(shown@).len() == shown@.len());
                "OpenRouter — ".to_owned().concat(t::usize_text(shown.len()).as_str()).concat(
                    " most recent chat models (newest first):\n",
                ).concat(t::join(&shown, "\n").as_str())
            },
            Err(error) => "Could not fetch OpenRouter catalog: ".to_owned().concat(error.as_str()),
        },
        Harness::Codex => {
            let models = codex_model_list(sources.codex_mode, sources.codex_default.clone());
            let note = match sources.codex_mode {
                CodexAuthMode::ChatGpt => "ChatGPT login: only gpt-5.5 is accepted — vary effort with /reasoning",
                CodexAuthMode::ApiKey => "API-key login: any catalog id also works via /model <id>",
                CodexAuthMode::Unknown => "could not read codex auth; showing the ChatGPT-safe default",
            };
            "Codex models: ".to_owned().concat(t::join(&models, ", ").as_str()).concat("\n(").concat(
                note,
            ).concat(")")
        },
        _ => sources.coder.as_str().to_owned().concat("-code models: ").concat(t::join(&claude_model_names(), ", ").as_str()),
    }
}

pub open spec fn models_words(s: SettingsView, harness: Harness, sources: ModelSources) -> Seq<char> {
    "Current: "@ + settings::or_words(s.model, "(harness default)"@) + "\nSet with /model <id>\n\n"@ + models_body(
        harness,
        sources,
    )
}

/// The answer to `/models`.
pub fn models_text(s: &ChannelSettings, harness: Harness, sources: &ModelSources) -> (r: String)
    ensures
        r@ == models_words(s@, harness, *sources),
{
    "Current: ".to_owned().concat(or_text(&s.model, "(harness default)").as_str()).concat(
        "\nSet with /model <id>\n\n",
    ).concat(models_body_text(harness, sources).as_str())
}

/// A model that emits text, takes tools and is named for nothing else can be
/// chatted with; one that lacks any of these cannot.
pub proof fn law_a_chat_model_emits_text_and_takes_tools(m: ModelView)
    ensures
        !m.text_output ==> !chats(m),
        !m.supports_tools ==> !chats(m),
        t::has(t::lower(m.id), "embed"@) ==> !chats(m),
        t::has(t::lower(m.id), "moderation"@) ==> !chats(m),
        t::has(t::lower(m.id), "content-safety"@) ==> !chats(m),
        t::has(t::lower(m.id), "guard"@) ==> !chats(m),
        t::has(t::lower(m.id), "image"@) ==> !chats(m),
        t::has(t::lower(m.id), "rerank"@) ==> !chats(m),
        m.text_output && m.supports_tools && !t::has(t::lower(m.id), "embed"@) && !t::has(
            t::lower(m.id),
            "moderation"@,
        ) && !t::has(t::lower(m.id), "content-safety"@) && !t::has(t::lower(m.id), "guard"@) && !t::has(
            t::lower(m.id),
            "image"@,
        ) && !t::has(t::lower(m.id), "rerank"@) ==> chats(m),
{
    let d = denied_parts();
    assert(d[0] == "embed"@ && d[1] == "moderation"@ && d[2] == "content-safety"@);
    assert(d[3] == "guard"@ && d[4] == "image"@ && d[5] == "rerank"@);
}

/// A model is read from its entry: its id, its age, and what it can do, which is
/// taken for granted where the entry says nothing.
pub proof fn law_a_model_is_read_from_its_entry(entry: Tree, id: Seq<char>)
    requires
        entry.text_at("id"@) == Some(id),
    ensures
        model_in(entry) matches Some(m) && m.id == id,
        entry.int64_at("created"@) matches Some(n) ==> (model_in(entry) matches Some(m) && m.created == n),
        entry.items_at("supported_parameters"@) is None ==> (model_in(entry) matches Some(m) && m.supports_tools),
        entry.items_at("supported_parameters"@) matches Some(v) ==> ((exists|i: int|
            0 <= i < v.len() && (#[trigger] v[i]).text() == Some("tools"@)) <==> (model_in(entry) matches Some(m)
            && m.supports_tools)),
        entry.get("architecture"@) is None ==> (model_in(entry) matches Some(m) && m.text_output),
        entry.get("architecture"@) matches Some(a) ==> (a.items_at("output_modalities"@) matches Some(v) ==> ((exists|
            i: int,
        | 0 <= i < v.len() && (#[trigger] v[i]).text() == Some("text"@)) <==> (model_in(entry) matches Some(m)
            && m.text_output))),
{
}

/// Every entry with an id is taken, in the order of the catalog.
pub proof fn law_every_entry_with_an_id_is_taken(entries: Seq<Tree>, entry: Tree)
    ensures
        entry.text_at("id"@) is Some ==> models_in(entries.push(entry)) == models_in(entries).push(model_in(entry)->0),
        entry.text_at("id"@) is None ==> models_in(entries.push(entry)) == models_in(entries),
        models_in(Seq::empty()).len() == 0,
{
    assert(entries.push(entry).drop_last() =~= entries);
    assert(entries.push(entry).last() == entry);
}

} // verus!
