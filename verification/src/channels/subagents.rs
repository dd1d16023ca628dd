//! Focused sub-tasks that an agent hands itself.

use crate::json;
use crate::json::{Json, Tree};
use crate::text as t;
use vstd::prelude::*;
use vstd::string::*;

verus! {

#[derive(Clone, Copy, Debug, PartialEq, Eq, Structural)]
pub enum SpawnMode {
    Ephemeral,
    Persistent,
}

impl SpawnMode {
    pub open spec fn name(self) -> Seq<char> {
        match self {
            SpawnMode::Ephemeral => "ephemeral"@,
            SpawnMode::Persistent => "persistent"@,
        }
    }

    pub fn as_str(&self) -> (r: &'static str)
        ensures
            r@ == self.name(),
    {
        match self {
            SpawnMode::Ephemeral => "ephemeral",
            SpawnMode::Persistent => "persistent",
        }
    }
}

pub open spec fn framed(name: Seq<char>, task: Seq<char>) -> Seq<char> {
    "You've been handed a focused sub-task labelled `"@ + name
        + "`. Work on it now and report back with the result when you're done.\n\nTask: "@ + task
}

/// The instruction that a sub-task becomes for the agent's next turn.
pub fn frame_subtask(name: &str, task: &str) -> (r: String)
    ensures
        r@ == framed(name@, task@),
{
    "You've been handed a focused sub-task labelled `".to_owned().concat(name).concat(
        "`. Work on it now and report back with the result when you're done.\n\nTask: ",
    ).concat(task)
}

/// A character of a slug: an ASCII letter or digit in lower case, or else a
/// hyphen.
pub open spec fn slug_char(c: char) -> char {
    if t::ascii_alnum(c) {
        t::lower_char(c)
    } else {
        '-'
    }
}

/// The runs of letters and digits of a text, in lower case.
pub open spec fn slug_parts(s: Seq<char>) -> Seq<Seq<char>> {
    t::pieces(s.map_values(|c: char| slug_char(c)), "-"@).filter(|p: Seq<char>| p.len() > 0)
}

/// The runs of letters and digits joined by hyphens, or `subagent` where there
/// are none.
pub open spec fn slug_of(s: Seq<char>) -> Seq<char> {
    let slug = t::joined(slug_parts(s), "-"@);
    if slug.len() == 0 {
        "subagent"@
    } else {
        slug
    }
}

fn slug_text(s: &str) -> (r: String)
    ensures
        r@ == s@.map_values(|c: char| slug_char(c)),
{
    let v = t::chars_of(s);
    let mut r = String::new();
    let mut i: usize = 0;
    let ghost all = s@.map_values(|c: char| slug_char(c));
    while i < v.len()
        invariant
            i <= v.len(),
            v@ == s@,
            all == s@.map_values(|c: char| slug_char(c)),
            r@ == all.take(i as int),
        decreases v.len() - i,
    {
        assert(all.take(i as int + 1) =~= all.take(i as int).push(slug_char(s@[i as int])));
        if t::is_ascii_alnum(v[i]) {
            r.push(t::to_lower_char(v[i]));
        } else {
            r.push('-');
        }
        i += 1;
    }
    assert(all.take(all.len() as int) =~= all);
    r
}

/// An id made from any text.
pub fn slugify_channel_id(value: &str) -> (r: String)
    ensures
        r@ == slug_of(value@),
{
    proof {
        reveal_strlit("-");
    }
    let mapped = slug_text(value);
    let parts = t::split(mapped.as_str(), "-");
    let kept = t::keep_nonempty(&parts);
    let slug = t::join(&kept, "-");
    if slug.as_str().is_empty() {
        "subagent".to_owned()
    } else {
        slug
    }
}

pub open spec fn subagent_tree(
    id: Seq<char>,
    parent: Seq<char>,
    mode: SpawnMode,
    prompt: Seq<char>,
    created_at: Seq<char>,
) -> Tree {
    Tree::Record(
        seq![
            ("id"@, Tree::Text(id)),
            ("parent_agent_id"@, Tree::Text(parent)),
            ("mode"@, Tree::Text(mode.name())),
            ("prompt"@, Tree::Text(prompt)),
            ("created_at"@, Tree::Text(created_at)),
        ],
    )
}

/// The id of a new sub-agent, and the document that is kept of it.
pub fn create_subagent(parent: &str, name: &str, mode: SpawnMode, prompt: &str, created_at: &str) -> (r: (String, Json))
    ensures
        r.0@ == slug_of(name@),
        r.1@ == subagent_tree(slug_of(name@), parent@, mode, prompt@, created_at@),
{
    let id = slugify_channel_id(name);
    let mut f: Vec<(String, Json)> = Vec::new();
    json::field(&mut f, "id", Json::Text(id.clone()));
    json::field(&mut f, "parent_agent_id", Json::Text(parent.to_owned()));
    json::field(&mut f, "mode", Json::Text(mode.as_str().to_owned()));
    json::field(&mut f, "prompt", Json::Text(prompt.to_owned()));
    json::field(&mut f, "created_at", Json::Text(created_at.to_owned()));
    assert(json::entries(f@) =~= subagent_tree(id@, parent@, mode, prompt@, created_at@)->Record_0);
    (id, json::record(f))
}

/// A character that may stand in an id besides hyphens.
pub open spec fn id_char(c: char) -> bool {
    t::ascii_lower(c) || t::digit(c)
}

/// An id: lower-case ASCII letters and digits, in runs with one hyphen between
/// them.
pub open spec fn channel_id(s: Seq<char>) -> bool {
    &&& s.len() > 0
    &&& forall|i: int| 0 <= i < s.len() ==> id_char(#[trigger] s[i]) || s[i] == '-'
    &&& s[0] != '-'
    &&& s.last() != '-'
    &&& forall|i: int| 0 <= i < s.len() - 1 && (#[trigger] s[i]) == '-' ==> s[i + 1] != '-'
}

/// Runs of which an id can be made.
pub open spec fn id_parts(parts: Seq<Seq<char>>) -> bool {
    &&& forall|k: int| 0 <= k < parts.len() ==> (#[trigger] parts[k]).len() > 0
    &&& forall|k: int, j: int| 0 <= k < parts.len() && 0 <= j < parts[k].len() ==> id_char(#[trigger] parts[k][j])
}

proof fn lemma_slug_char(c: char)
    ensures
        id_char(slug_char(c)) || slug_char(c) == '-',
        id_char(c) || c == '-' ==> slug_char(c) == c,
        slug_char(t::upper_char(c)) == slug_char(c),
        slug_char(t::lower_char(c)) == slug_char(c),
        !t::ascii_alnum(c) ==> slug_char(c) == '-',
{
}

proof fn lemma_slug_parts(s: Seq<char>)
    ensures
        id_parts(slug_parts(s)),
        (forall|i: int| 0 <= i < s.len() ==> !t::ascii_alnum(#[trigger] s[i])) ==> slug_parts(s).len() == 0,
{
    reveal_strlit("-");
    assert("-"@ =~= seq!['-']);
    let mapped = s.map_values(|c: char| slug_char(c));
    let all = t::pieces(mapped, "-"@);
    let p = |p: Seq<char>| p.len() > 0;
    t::lemma_pieces_chars(mapped, '-');
    let parts = slug_parts(s);
    assert forall|k: int| 0 <= k < parts.len() implies (#[trigger] parts[k]).len() > 0 && exists|x: int|
        0 <= x < all.len() && all[x] == parts[k] by {
        all.lemma_filter_pred(p, k);
        assert(parts.contains(parts[k]));
        all.lemma_filter_contains_rev(p, parts[k]);
    }
    assert forall|k: int, j: int| 0 <= k < parts.len() && 0 <= j < parts[k].len() implies id_char(
        #[trigger] parts[k][j],
    ) by {
        assert(parts[k].len() > 0);
        let x = choose|x: int| 0 <= x < all.len() && all[x] == parts[k];
        assert(all[x][j] != '-');
        assert(mapped.contains(all[x][j]));
        let y = choose|y: int| 0 <= y < mapped.len() && mapped[y] == parts[k][j];
        lemma_slug_char(s[y]);
    }
    if (forall|i: int| 0 <= i < s.len() ==> !t::ascii_alnum(#[trigger] s[i])) && parts.len() > 0 {
        assert(parts[0].len() > 0);
        let x = choose|x: int| 0 <= x < all.len() && all[x] == parts[0];
        assert(all[x][0] != '-');
        assert(mapped.contains(all[x][0]));
        let y = choose|y: int| 0 <= y < mapped.len() && mapped[y] == all[x][0];
        lemma_slug_char(s[y]);
    }
}

proof fn lemma_joined_id(parts: Seq<Seq<char>>)
    requires
        parts.len() > 0,
        id_parts(parts),
    ensures
        channel_id(t::joined(parts, "-"@)),
    decreases parts.len(),
{
    reveal_strlit("-");
    let whole = t::joined(parts, "-"@);
    let n = parts.len() - 1;
    let last = parts[n];
    assert forall|j: int| 0 <= j < last.len() implies id_char(#[trigger] last[j]) by {
        assert(id_char(parts[n][j]));
    }
    if n > 0 {
        let front = parts.drop_last();
        assert forall|k: int| 0 <= k < front.len() implies (#[trigger] front[k]).len() > 0 by {
            assert(parts[k].len() > 0);
        }
        assert forall|k: int, j: int| 0 <= k < front.len() && 0 <= j < front[k].len() implies id_char(
            #[trigger] front[k][j],
        ) by {
            assert(id_char(parts[k][j]));
        }
        lemma_joined_id(front);
        let a = t::joined(front, "-"@);
        assert(whole == a + "-"@ + last);
        assert forall|i: int| 0 <= i < whole.len() implies id_char(#[trigger] whole[i]) || whole[i] == '-' by {
            if i < a.len() {
                assert(whole[i] == a[i]);
            } else if i > a.len() {
                assert(whole[i] == last[i - a.len() - 1]);
            }
        }
        assert forall|i: int| 0 <= i < whole.len() - 1 && (#[trigger] whole[i]) == '-' implies whole[i + 1] != '-' by {
            if i + 1 < a.len() {
                assert(whole[i] == a[i]);
                assert(whole[i + 1] == a[i + 1]);
            } else if i + 1 == a.len() {
                assert(whole[i] == a.last());
            } else if i == a.len() {
                assert(whole[i + 1] == last[0]);
            } else {
                assert(whole[i] == last[i - a.len() - 1]);
            }
        }
        assert(whole[0] == a[0]);
        assert(whole.last() == last[last.len() - 1]);
    } else {
        assert(whole == last);
        assert(last.last() == last[last.len() - 1]);
    }
}

/// An id that is made of runs is made of the same runs again.
proof fn lemma_slug_of_joined(parts: Seq<Seq<char>>)
    requires
        parts.len() > 0,
        id_parts(parts),
    ensures
        slug_of(t::joined(parts, "-"@)) == t::joined(parts, "-"@),
{
    reveal_strlit("-");
    assert("-"@ =~= seq!['-']);
    let whole = t::joined(parts, "-"@);
    lemma_joined_id(parts);
    let mapped = whole.map_values(|c: char| slug_char(c));
    assert forall|i: int| 0 <= i < whole.len() implies (#[trigger] mapped[i]) == whole[i] by {
        lemma_slug_char(whole[i]);
    }
    assert(mapped =~= whole);
    assert forall|k: int, j: int| 0 <= k < parts.len() && 0 <= j < parts[k].len() implies (
    #[trigger] parts[k][j]) != '-' by {
        assert(id_char(parts[k][j]));
    }
    t::lemma_pieces_of_joined(parts, '-');
    t::lemma_filter_keeps_all(parts, |p: Seq<char>| p.len() > 0);
}

/// The runs that a text's id is made of.
proof fn lemma_runs(s: Seq<char>) -> (parts: Seq<Seq<char>>)
    ensures
        parts.len() > 0,
        id_parts(parts),
        slug_of(s) == t::joined(parts, "-"@),
        parts == slug_parts(s) || (slug_parts(s).len() == 0 && slug_of(s) == "subagent"@),
{
    lemma_slug_parts(s);
    if slug_parts(s).len() == 0 {
        reveal_strlit("subagent");
        let parts = seq!["subagent"@];
        assert(slug_of(s) == parts[0]);
        parts
    } else {
        lemma_joined_id(slug_parts(s));
        slug_parts(s)
    }
}

/// Whatever the text, what is made of it is an id: not empty, of lower-case ASCII
/// letters, digits and hyphens, with no hyphen at either end and no two together.
pub proof fn law_slugs_are_ids(s: Seq<char>)
    ensures
        channel_id(slug_of(s)),
{
    let parts = lemma_runs(s);
    lemma_joined_id(parts);
}

/// An id is its own id.
pub proof fn law_an_id_keeps_its_slug(s: Seq<char>)
    ensures
        slug_of(slug_of(s)) == slug_of(s),
{
    let parts = lemma_runs(s);
    lemma_slug_of_joined(parts);
}

/// The case of ASCII letters makes no difference to an id.
pub proof fn law_letter_case_makes_no_other_id(s: Seq<char>)
    ensures
        slug_of(t::upper(s)) == slug_of(s),
        slug_of(t::lower(s)) == slug_of(s),
{
    let up = t::upper(s);
    let low = t::lower(s);
    let mapped = s.map_values(|c: char| slug_char(c));
    assert forall|i: int| 0 <= i < s.len() implies slug_char(#[trigger] up[i]) == mapped[i] && slug_char(low[i])
        == mapped[i] by {
        lemma_slug_char(s[i]);
    }
    assert(up.map_values(|c: char| slug_char(c)) =~= mapped);
    assert forall|i: int| 0 <= i < s.len() implies slug_char(#[trigger] low[i]) == mapped[i] by {
        lemma_slug_char(s[i]);
    }
    assert(low.map_values(|c: char| slug_char(c)) =~= mapped);
}

/// A text without ASCII letters and digits gets the common id.
pub proof fn law_a_text_without_letters_is_a_subagent(s: Seq<char>)
    requires
        forall|i: int| 0 <= i < s.len() ==> !t::ascii_alnum(#[trigger] s[i]),
    ensures
        slug_of(s) == "subagent"@,
{
    lemma_slug_parts(s);
}

/// What is kept of a sub-agent names it, its parent, its mode, its prompt and the
/// time it was made.
pub proof fn law_what_is_kept_of_a_subagent(
    id: Seq<char>,
    parent: Seq<char>,
    mode: SpawnMode,
    prompt: Seq<char>,
    created_at: Seq<char>,
)
    ensures
        ({
            let kept = subagent_tree(id, parent, mode, prompt, created_at);
            &&& kept.text_at("id"@) == Some(id)
            &&& kept.text_at("parent_agent_id"@) == Some(parent)
            &&& kept.text_at("mode"@) == Some(
                if mode == SpawnMode::Persistent {
                    "persistent"@
                } else {
                    "ephemeral"@
                },
            )
            &&& kept.text_at("prompt"@) == Some(prompt)
            &&& kept.text_at("created_at"@) == Some(created_at)
        }),
{
    reveal_strlit("id");
    reveal_strlit("parent_agent_id");
    reveal_strlit("mode");
    reveal_strlit("prompt");
    reveal_strlit("created_at");
    assert("id"@.len() == 2 && "id"@[0] == 'i' && "id"@[1] == 'd');
    assert("parent_agent_id"@.len() == 15 && "parent_agent_id"@[0] == 'p' && "parent_agent_id"@[1] == 'a' && "parent_agent_id"@[2] == 'r' && "parent_agent_id"@[3] == 'e' && "parent_agent_id"@[4] == 'n' && "parent_agent_id"@[5] == 't');
    assert("mode"@.len() == 4 && "mode"@[0] == 'm' && "mode"@[1] == 'o' && "mode"@[2] == 'd' && "mode"@[3] == 'e');
    assert("prompt"@.len() == 6 && "prompt"@[0] == 'p' && "prompt"@[1] == 'r' && "prompt"@[2] == 'o' && "prompt"@[3] == 'm' && "prompt"@[4] == 'p' && "prompt"@[5] == 't');
    assert("created_at"@.len() == 10 && "created_at"@[0] == 'c' && "created_at"@[1] == 'r' && "created_at"@[2] == 'e' && "created_at"@[3] == 'a' && "created_at"@[4] == 't' && "created_at"@[5] == 'e');
    reveal_with_fuel(json::entry_from, 6);
}

/// The instruction of a sub-task names it and ends with the task.
pub proof fn law_a_subtask_is_framed(name: Seq<char>, task: Seq<char>)
    ensures
        t::has(framed(name, task), name),
        t::ends(framed(name, task), "Task: "@ + task),
{
    let a = "You've been handed a focused sub-task labelled `"@;
    let b = "`. Work on it now and report back with the result when you're done.\n\nTask: "@;
    reveal_strlit("`. Work on it now and report back with the result when you're done.\n\nTask: ");
    reveal_strlit("Task: ");
    let all = framed(name, task);
    t::lemma_has_part(a, name, b + task);
    assert(a + name + (b + task) =~= all);
    let z = "Task: "@ + task;
    assert(b.len() == 75);
    assert(b.skip(69) =~= "Task: "@);
    assert(all =~= a + name + b.take(69) + z);
    assert(all.subrange(all.len() - z.len(), all.len() as int) =~= z);
}

/// Letters and digits are kept, in lower case; what stands between two runs of
/// them becomes one hyphen.
pub proof fn law_runs_are_joined_by_hyphens(parts: Seq<Seq<char>>)
    requires
        parts.len() > 0,
        id_parts(parts),
    ensures
        slug_of(t::joined(parts, "-"@)) == t::joined(parts, "-"@),
        forall|c: char| t::ascii_upper(c) ==> #[trigger] slug_char(c) == t::lower_char(c),
        forall|c: char| t::ascii_lower(c) || t::digit(c) ==> #[trigger] slug_char(c) == c,
        forall|c: char| !t::ascii_alnum(c) ==> #[trigger] slug_char(c) == '-',
{
    lemma_slug_of_joined(parts);
}

} // verus!
