//! Skill packs: their shape, and how they are installed for Codex.

use crate::text as t;
use vstd::prelude::*;
use vstd::string::*;

verus! {

#[derive(Debug, PartialEq, Eq)]
pub struct SkillCommand {
    pub command: SkillSubcommand,
}

#[derive(Debug, PartialEq, Eq)]
pub enum SkillSubcommand {
    Validate { root: String, json: bool },
    /// Install the skills where Codex finds them.
    CodexPrompts { root: String, dest: Option<String> },
}

// ---------------------------------------------------------------------------
// Rendering
// ---------------------------------------------------------------------------

/// The text with backslashes and quotes escaped.
pub open spec fn escaped(value: Seq<char>) -> Seq<char> {
    t::replaced(t::replaced(value, seq!['\\'], "\\\\"@), seq!['"'], "\\\""@)
}

/// A double-quoted YAML scalar.
pub open spec fn quoted(value: Seq<char>) -> Seq<char> {
    "\""@ + escaped(value) + "\""@
}

pub fn yaml_quote_scalar(value: &str) -> (r: String)
    ensures
        r@ == quoted(value@),
{
    proof {
        reveal_strlit("\\");
        reveal_strlit("\"");
        assert("\\"@ =~= seq!['\\']);
        assert("\""@ =~= seq!['"']);
    }
    let backslashes = t::replace(value, "\\", "\\\\");
    let escaped = t::replace(backslashes.as_str(), "\"", "\\\"");
    "\"".to_owned().concat(escaped.as_str()).concat("\"")
}

/// Reads the rest of a double-quoted scalar: up to the quote that no backslash
/// escapes, which must be the last character.
pub open spec fn scalar_rest(s: Seq<char>) -> Option<Seq<char>>
    decreases s.len(),
{
    if s.len() == 0 {
        None
    } else if s[0] == '"' {
        if s.len() == 1 {
            Some(Seq::empty())
        } else {
            None
        }
    } else if s[0] == '\\' {
        if s.len() == 1 {
            None
        } else {
            match scalar_rest(s.skip(2)) {
                Some(rest) => Some(seq![s[1]] + rest),
                None => None,
            }
        }
    } else {
        match scalar_rest(s.skip(1)) {
            Some(rest) => Some(seq![s[0]] + rest),
            None => None,
        }
    }
}

/// What a double-quoted scalar holds.
pub open spec fn scalar_value(s: Seq<char>) -> Option<Seq<char>> {
    if s.len() > 0 && s[0] == '"' {
        scalar_rest(s.skip(1))
    } else {
        None
    }
}

spec fn escape_char(c: char) -> Seq<char> {
    if c == '\\' {
        seq!['\\', '\\']
    } else if c == '"' {
        seq!['\\', '"']
    } else {
        seq![c]
    }
}

spec fn escape_all(s: Seq<char>) -> Seq<char>
    decreases s.len(),
{
    if s.len() == 0 {
        Seq::empty()
    } else {
        escape_char(s[0]) + escape_all(s.skip(1))
    }
}

proof fn lemma_subst_concat(a: Seq<char>, b: Seq<char>, c: char, to: Seq<char>)
    ensures
        t::subst(a + b, c, to) == t::subst(a, c, to) + t::subst(b, c, to),
    decreases a.len(),
{
    if a.len() == 0 {
        assert(a + b =~= b);
        assert(t::subst(a, c, to) + t::subst(b, c, to) =~= t::subst(b, c, to));
    } else {
        assert((a + b).skip(1) =~= a.skip(1) + b);
        lemma_subst_concat(a.skip(1), b, c, to);
        let first = if a[0] == c {
            to
        } else {
            seq![a[0]]
        };
        assert(first + (t::subst(a.skip(1), c, to) + t::subst(b, c, to)) =~= (first + t::subst(a.skip(1), c, to))
            + t::subst(b, c, to));
    }
}

proof fn lemma_subst_single(x: char, c: char, to: Seq<char>)
    ensures
        t::subst(seq![x], c, to) == if x == c {
            to
        } else {
            seq![x]
        },
{
    assert(seq![x].skip(1) =~= Seq::<char>::empty());
    assert(t::subst(Seq::<char>::empty(), c, to) =~= Seq::<char>::empty());
    if x == c {
        assert(to + Seq::<char>::empty() =~= to);
    } else {
        assert(seq![x] + Seq::<char>::empty() =~= seq![x]);
    }
}

proof fn lemma_escaped(s: Seq<char>)
    ensures
        t::subst(t::subst(s, '\\', seq!['\\', '\\']), '"', seq!['\\', '"']) == escape_all(s),
    decreases s.len(),
{
    let two = seq!['\\', '\\'];
    let quote = seq!['\\', '"'];
    if s.len() > 0 {
        let first = if s[0] == '\\' {
            two
        } else {
            seq![s[0]]
        };
        let rest = t::subst(s.skip(1), '\\', two);
        lemma_subst_concat(first, rest, '"', quote);
        lemma_escaped(s.skip(1));
        if s[0] == '\\' {
            assert(two =~= seq!['\\'] + seq!['\\']);
            lemma_subst_concat(seq!['\\'], seq!['\\'], '"', quote);
            lemma_subst_single('\\', '"', quote);
            assert(t::subst(first, '"', quote) =~= two);
        } else {
            lemma_subst_single(s[0], '"', quote);
        }
    }
}

proof fn lemma_scalar_rest(s: Seq<char>)
    ensures
        scalar_rest(escape_all(s) + seq!['"']) == Some(s),
    decreases s.len(),
{
    let whole = escape_all(s) + seq!['"'];
    if s.len() == 0 {
        assert(whole =~= seq!['"']);
        assert(s =~= Seq::<char>::empty());
    } else {
        let tail = escape_all(s.skip(1)) + seq!['"'];
        lemma_scalar_rest(s.skip(1));
        assert(whole =~= escape_char(s[0]) + tail);
        assert(seq![s[0]] + s.skip(1) =~= s);
        if s[0] == '\\' || s[0] == '"' {
            assert(whole.skip(2) =~= tail);
        } else {
            assert(whole.skip(1) =~= tail);
        }
    }
}

/// Whatever a value holds, a reader of the quoted scalar gets it back: no
/// character of the value ends the scalar early.
pub proof fn law_a_quoted_scalar_reads_back(value: Seq<char>)
    ensures
        scalar_value(quoted(value)) == Some(value),
{
    reveal_strlit("\"");
    reveal_strlit("\\\\");
    reveal_strlit("\\\"");
    assert("\\\\"@ =~= seq!['\\', '\\']);
    assert("\\\""@ =~= seq!['\\', '"']);
    assert("\""@ =~= seq!['"']);
    t::lemma_replaced_char(value, '\\', "\\\\"@);
    t::lemma_replaced_char(t::replaced(value, seq!['\\'], "\\\\"@), '"', "\\\""@);
    lemma_escaped(value);
    lemma_scalar_rest(value);
    assert(quoted(value).skip(1) =~= escape_all(value) + seq!['"']);
}

/// The text without the prefix, however often it stands in front.
pub open spec fn without_prefixes(s: Seq<char>, prefix: Seq<char>) -> Seq<char>
    decreases s.len(),
{
    if prefix.len() > 0 && t::starts(s, prefix) {
        without_prefixes(s.skip(prefix.len() as int), prefix)
    } else {
        s
    }
}

fn strip_prefixes(s: &str, prefix: &str) -> (r: String)
    requires
        prefix@.len() > 0,
    ensures
        r@ == without_prefixes(s@, prefix@),
    decreases s@.len(),
{
    match t::strip_prefix(s, prefix) {
        Some(rest) => strip_prefixes(rest.as_str(), prefix),
        None => s.to_owned(),
    }
}

/// A line of prose: not blank, and no title.
pub open spec fn prose(line: Seq<char>) -> bool {
    t::trimmed(line).len() > 0 && !t::starts(t::trimmed(line), "#"@)
}

/// The first line of prose, trimmed.
pub open spec fn first_prose(lines: Seq<Seq<char>>) -> Option<Seq<char>>
    decreases lines.len(),
{
    if lines.len() == 0 {
        None
    } else if prose(lines[0]) {
        Some(t::trimmed(lines[0]))
    } else {
        first_prose(lines.skip(1))
    }
}

/// The first line that says when to use the skill, trimmed.
pub open spec fn first_use(lines: Seq<Seq<char>>) -> Option<Seq<char>>
    decreases lines.len(),
{
    if lines.len() == 0 {
        None
    } else if t::starts(t::trimmed(lines[0]), "Use this skill when"@) {
        Some(t::trimmed(lines[0]))
    } else {
        first_use(lines.skip(1))
    }
}

/// The line that describes a skill: the one that says when to use it, or else
/// the first line of prose.
pub open spec fn describing_line(lines: Seq<Seq<char>>) -> Seq<char> {
    match first_use(lines) {
        Some(l) => l,
        None => match first_prose(lines) {
            Some(l) => l,
            None => "A Maturana skill."@,
        },
    }
}

/// The description of a skill: its describing line, in one row, and not longer
/// than 300 characters.
pub open spec fn skill_description(body: Seq<char>) -> Seq<char> {
    let line = describing_line(t::lines_of(body));
    let rest = t::trimmed(without_prefixes(line, "Use this skill "@));
    let capped = t::head(t::joined(t::words_of(rest), " "@), 300);
    t::replaced(t::replaced(capped, "\n"@, " "@), "\r"@, " "@)
}

fn find_prose(lines: &Vec<String>) -> (r: Option<String>)
    ensures
        t::opt_view(r) == first_prose(t::texts(lines@)),
{
    let ghost all = t::texts(lines@);
    let mut i: usize = 0;
    assert(all.skip(0) =~= all);
    while i < lines.len()
        invariant
            i <= lines@.len(),
            all == t::texts(lines@),
            first_prose(all) == first_prose(all.skip(i as int)),
        decreases lines@.len() - i,
    {
        let line = t::trim(lines[i].as_str());
        assert(all.skip(i as int)[0] == lines@[i as int]@);
        assert(all.skip(i as int).skip(1) =~= all.skip(i + 1));
        if line.as_str().unicode_len() > 0 && !t::starts_with(line.as_str(), "#") {
            return Some(line);
        }
        i += 1;
    }
    None
}

fn find_use(lines: &Vec<String>) -> (r: Option<String>)
    ensures
        t::opt_view(r) == first_use(t::texts(lines@)),
{
    let ghost all = t::texts(lines@);
    let mut i: usize = 0;
    assert(all.skip(0) =~= all);
    while i < lines.len()
        invariant
            i <= lines@.len(),
            all == t::texts(lines@),
            first_use(all) == first_use(all.skip(i as int)),
        decreases lines@.len() - i,
    {
        let line = t::trim(lines[i].as_str());
        assert(all.skip(i as int)[0] == lines@[i as int]@);
        assert(all.skip(i as int).skip(1) =~= all.skip(i + 1));
        if t::starts_with(line.as_str(), "Use this skill when") {
            return Some(line);
        }
        i += 1;
    }
    None
}

pub fn derive_skill_description(body: &str) -> (r: String)
    ensures
        r@ == skill_description(body@),
{
    proof {
        reveal_strlit("Use this skill ");
        reveal_strlit("\n");
        reveal_strlit("\r");
    }
    let lines = t::lines(body);
    let line = match find_use(&lines) {
        Some(l) => l,
        None => match find_prose(&lines) {
            Some(l) => l,
            None => "A Maturana skill.".to_owned(),
        },
    };
    let stripped = strip_prefixes(line.as_str(), "Use this skill ");
    let rest = t::trim(stripped.as_str());
    let words = t::words(rest.as_str());
    let row = t::join(&words, " ");
    let capped = t::take_chars(row.as_str(), 300);
    let flat = t::replace(capped.as_str(), "\n", " ");
    t::replace(flat.as_str(), "\r", " ")
}

/// A skill as Codex reads it: with the name and description in front, unless
/// the skill already brings them.
pub open spec fn codex_skill(name: Seq<char>, body: Seq<char>, description: Option<Seq<char>>) -> Seq<char> {
    if t::starts(t::trimmed_start(body), "---"@) {
        body
    } else {
        let text = if description is Some && t::trimmed(description->0).len() > 0 {
            description->0
        } else {
            skill_description(body)
        };
        "---\nname: "@ + quoted(name) + "\ndescription: "@ + quoted(text) + "\n---\n\n"@ + body
    }
}

pub fn render_codex_skill(name: &str, body: &str, description: Option<&str>) -> (r: String)
    ensures
        r@ == codex_skill(name@, body@, t::opt_str(description)),
{
    if t::starts_with(t::trim_start(body).as_str(), "---") {
        return body.to_owned();
    }
    let given: Option<String> = match description {
        Some(d) => if t::trim(d).unicode_len() > 0 {
            Some(d.to_owned())
        } else {
            None
        },
        None => None,
    };
    let text = match given {
        Some(d) => d,
        None => derive_skill_description(body),
    };
    "---\nname: ".to_owned().concat(yaml_quote_scalar(name).as_str()).concat("\ndescription: ").concat(
        yaml_quote_scalar(text.as_str()).as_str(),
    ).concat("\n---\n\n").concat(body)
}

proof fn lemma_front(name: Seq<char>, body: Seq<char>, description: Option<Seq<char>>)
    ensures
        t::starts(t::trimmed_start(codex_skill(name, body, description)), "---"@),
{
    reveal_strlit("---\nname: ");
    reveal_strlit("---");
    let made = codex_skill(name, body, description);
    if !t::starts(t::trimmed_start(body), "---"@) {
        assert(made[0] == '-');
        assert(t::trimmed_start(made) == made);
        assert(made.subrange(0, 3) =~= "---"@);
    }
}

/// A skill that was made ready for Codex is made ready once: doing it again, under
/// whatever name and description, changes nothing.
pub proof fn law_a_ready_skill_is_kept(
    name: Seq<char>,
    body: Seq<char>,
    description: Option<Seq<char>>,
    other: Seq<char>,
    others: Option<Seq<char>>,
)
    ensures
        codex_skill(other, codex_skill(name, body, description), others) == codex_skill(name, body, description),
{
    lemma_front(name, body, description);
}

/// A skill keeps its body: it is what the skill ends with.
pub proof fn law_a_ready_skill_ends_with_its_body(name: Seq<char>, body: Seq<char>, description: Option<Seq<char>>)
    ensures
        t::ends(codex_skill(name, body, description), body),
{
    let made = codex_skill(name, body, description);
    let n = made.len() - body.len();
    assert(made.subrange(n, made.len() as int) =~= body);
}

/// A skill that a plugin brings.
#[derive(Debug, PartialEq, Eq)]
pub struct PluginSkillAsset<S> {
    pub plugin: S,
    pub name: S,
    pub path: S,
    pub description: Option<S>,
}

impl View for PluginSkillAsset<String> {
    type V = PluginSkillAsset<Seq<char>>;

    open spec fn view(&self) -> PluginSkillAsset<Seq<char>> {
        PluginSkillAsset {
            plugin: self.plugin@,
            name: self.name@,
            path: self.path@,
            description: t::opt_view(self.description),
        }
    }
}

pub open spec fn assets(v: Seq<PluginSkillAsset<String>>) -> Seq<PluginSkillAsset<Seq<char>>> {
    v.map_values(|x: PluginSkillAsset<String>| x@)
}

/// Whether the skill at `i` has a name that is taken, by a core skill or by an
/// earlier one.
pub open spec fn name_taken(names: Seq<Seq<char>>, skills: Seq<PluginSkillAsset<Seq<char>>>, i: int) -> bool {
    names.contains(skills[i].name) || exists|j: int| 0 <= j < i && (#[trigger] skills[j]).name == skills[i].name
}

/// The place of the first skill from `i` on whose name is taken, or the end.
pub open spec fn first_taken(names: Seq<Seq<char>>, skills: Seq<PluginSkillAsset<Seq<char>>>, i: int) -> int
    decreases skills.len() - i,
{
    if i >= skills.len() || name_taken(names, skills, i) {
        i
    } else {
        first_taken(names, skills, i + 1)
    }
}

/// What an installation does.
#[derive(Debug, PartialEq, Eq)]
pub struct SyncPlan {
    /// The core skills to install, in order.
    pub names: Vec<String>,
    /// How many plugin skills to install behind them, from the first on.
    pub plugin_skills: usize,
    /// How many skills that makes in all; or why the next plugin skill is not
    /// installed, nor any behind it.
    pub outcome: Result<usize, String>,
}

/// Plans an installation: the core skills in the order of their names, then the
/// plugin skills up to one whose name is taken.
pub fn sync_codex_prompts(names: &Vec<String>, plugin_skills: &Vec<PluginSkillAsset<String>>) -> (r: SyncPlan)
    requires
        names@.len() + plugin_skills@.len() <= usize::MAX,
    ensures
        t::texts(r.names@) == t::in_order(t::texts(names@)),
        r.plugin_skills == first_taken(t::texts(names@), assets(plugin_skills@), 0),
        match r.outcome {
            Ok(count) => r.plugin_skills == plugin_skills@.len() && count == names@.len() + plugin_skills@.len(),
            Err(message) => r.plugin_skills < plugin_skills@.len() && message@ == "plugin skill '"@
                + plugin_skills@[r.plugin_skills as int].name@ + "' from plugin '"@
                + plugin_skills@[r.plugin_skills as int].plugin@
                + "' conflicts with an installed Codex skill"@,
        },
{
    let ghost ns = t::texts(names@);
    let ghost all = assets(plugin_skills@);
    let sorted = t::sort_texts(names);
    let mut i: usize = 0;
    while i < plugin_skills.len()
        invariant
            i <= plugin_skills@.len(),
            ns == t::texts(names@),
            all == assets(plugin_skills@),
            t::texts(sorted@) == t::in_order(ns),
            first_taken(ns, all, 0) == first_taken(ns, all, i as int),
        decreases plugin_skills@.len() - i,
    {
        let name = plugin_skills[i].name.as_str();
        assert(all[i as int].name == name@);
        let mut taken = t::list_has(names, name);
        let mut j: usize = 0;
        while j < i
            invariant
                j <= i < plugin_skills@.len(),
                all == assets(plugin_skills@),
                name@ == all[i as int].name,
                taken <==> (ns.contains(name@) || exists|k: int| 0 <= k < j && (#[trigger] all[k]).name == name@),
            decreases i - j,
        {
            if t::same(plugin_skills[j].name.as_str(), name) {
                assert(all[j as int].name == name@);
                taken = true;
            }
            j += 1;
        }
        if taken {
            assert(name_taken(ns, all, i as int));
            let message = "plugin skill '".to_owned().concat(name).concat("' from plugin '").concat(
                plugin_skills[i].plugin.as_str(),
            ).concat("' conflicts with an installed Codex skill");
            return SyncPlan { names: sorted, plugin_skills: i, outcome: Err(message) };
        }
        assert(!name_taken(ns, all, i as int));
        i += 1;
    }
    SyncPlan { names: sorted, plugin_skills: i, outcome: Ok(names.len() + plugin_skills.len()) }
}

proof fn lemma_first_taken(names: Seq<Seq<char>>, skills: Seq<PluginSkillAsset<Seq<char>>>, i: int, k: int)
    requires
        0 <= i <= k < first_taken(names, skills, i),
    ensures
        k < skills.len(),
        !name_taken(names, skills, k),
    decreases skills.len() - i,
{
    if i < k {
        lemma_first_taken(names, skills, i + 1, k);
    }
}

/// No installed skill shadows another: a plugin skill that is installed has
/// neither the name of a core skill nor that of an earlier plugin skill.
pub proof fn law_no_installed_skill_is_shadowed(
    names: Seq<Seq<char>>,
    skills: Seq<PluginSkillAsset<Seq<char>>>,
    k: int,
)
    requires
        0 <= k < first_taken(names, skills, 0),
    ensures
        k < skills.len(),
        !names.contains(skills[k].name),
        forall|j: int| 0 <= j < k ==> (#[trigger] skills[j]).name != skills[k].name,
{
    lemma_first_taken(names, skills, 0, k);
}

pub fn codex_prompts_text(count: usize) -> (r: String)
    ensures
        r@ == "installed "@ + t::decimal(count as nat) + " Codex skill(s); use /skills or $<name> in Codex"@,
{
    "installed ".to_owned().concat(t::usize_text(count).as_str()).concat(
        " Codex skill(s); use /skills or $<name> in Codex",
    )
}

// ---------------------------------------------------------------------------
// Validation
// ---------------------------------------------------------------------------

/// The skills that every pack holds.
pub open spec fn initial_skills() -> Seq<Seq<char>> {
    seq![
        "maturana-agent-create"@,
        "maturana-agent-validate"@,
        "maturana-agent-launch"@,
        "maturana-agent-inspect"@,
        "maturana-agent-update"@,
        "maturana-skill-create"@,
        "maturana-tool-create"@,
        "maturana-skill-deploy"@,
        "maturana-security-review"@,
        "maturana-snapshot"@,
    ]
}

pub open spec fn name_views(v: Seq<&'static str>) -> Seq<Seq<char>> {
    v.map_values(|s: &'static str| s@)
}

pub fn required_initial_skills() -> (r: Vec<&'static str>)
    ensures
        name_views(r@) == initial_skills(),
{
    let r: Vec<&'static str> = vec![
        "maturana-agent-create",
        "maturana-agent-validate",
        "maturana-agent-launch",
        "maturana-agent-inspect",
        "maturana-agent-update",
        "maturana-skill-create",
        "maturana-tool-create",
        "maturana-skill-deploy",
        "maturana-security-review",
        "maturana-snapshot",
    ];
    assert(name_views(r@) =~= initial_skills());
    r
}

/// What stands behind the first `start`, up to the `end` that follows it, if any.
pub open spec fn section(raw: Seq<char>, start: Seq<char>, end: Option<Seq<char>>) -> Seq<char> {
    match t::cut(raw, start) {
        None => Seq::empty(),
        Some((_, after)) => match end {
            None => after,
            Some(e) => match t::cut(after, e) {
                Some((inner, _)) => inner,
                None => after,
            },
        },
    }
}

pub fn section_text(raw: &str, start: &str, end: Option<&str>) -> (r: String)
    ensures
        r@ == section(raw@, start@, t::opt_str(end)),
{
    match t::split_once(raw, start) {
        None => t::empty_text(),
        Some((_, after)) => match end {
            None => after,
            Some(e) => match t::split_once(after.as_str(), e) {
                Some((inner, _)) => inner,
                None => after,
            },
        },
    }
}

/// A line that begins with the prefix, after blanks.
pub open spec fn begins(prefix: Seq<char>) -> spec_fn(Seq<char>) -> bool {
    |line: Seq<char>| t::starts(t::trimmed_start(line), prefix)
}

pub open spec fn prefixed_lines(raw: Seq<char>, start: Seq<char>, end: Option<Seq<char>>, prefix: Seq<char>) -> nat {
    t::lines_of(section(raw, start, end)).filter(begins(prefix)).len()
}

/// How many lines of a section begin with a prefix.
pub fn section_prefixed_line_count(raw: &str, start: &str, end: Option<&str>, prefix: &str) -> (r: usize)
    ensures
        r == prefixed_lines(raw@, start@, t::opt_str(end), prefix@),
{
    let text = section_text(raw, start, end);
    let lines = t::lines(text.as_str());
    let ghost all = t::texts(lines@);
    let ghost p = begins(prefix@);
    let mut n: usize = 0;
    let mut i: usize = 0;
    proof {
        reveal(Seq::filter);
        assert(all.take(0) =~= Seq::<Seq<char>>::empty());
    }
    while i < lines.len()
        invariant
            i <= lines@.len(),
            n <= i,
            all == t::texts(lines@),
            p == begins(prefix@),
            n == all.take(i as int).filter(p).len(),
        decreases lines@.len() - i,
    {
        proof {
            reveal(Seq::filter);
            assert(all.take(i + 1).drop_last() =~= all.take(i as int));
            assert(all.take(i + 1).last() == lines@[i as int]@);
        }
        if t::starts_with(t::trim_start(lines[i].as_str()).as_str(), prefix) {
            n += 1;
        }
        i += 1;
    }
    assert(all.take(all.len() as int) =~= all);
    n
}

pub fn section_bullet_count(raw: &str, start: &str, end: Option<&str>) -> (r: usize)
    ensures
        r == prefixed_lines(raw@, start@, t::opt_str(end), "- "@),
{
    section_prefixed_line_count(raw, start, end, "- ")
}

/// Whether a skill file is wrong in one of the points it is looked at for.
pub open spec fn wrong(point: int, raw: Seq<char>) -> bool {
    if point == 0 {
        !t::starts(t::trimmed_start(raw), "# "@)
    } else if point == 1 {
        !t::has(raw, "Use this skill when"@)
    } else if point == 2 {
        !t::has(raw, "Read `AGENTS.md`"@)
    } else if point == 3 {
        !t::has(raw, "## Grounding"@)
    } else if point == 4 {
        !t::has(raw, "## Preflight"@)
    } else if point == 5 {
        !t::has(raw, "## Decision Path"@)
    } else if point == 6 {
        !t::has(raw, "## Actions"@)
    } else if point == 7 {
        !t::has(raw, "## Evidence"@)
    } else if point == 8 {
        !t::has(raw, "## Recovery"@)
    } else if point == 9 {
        !t::has(raw, "## Boundaries"@)
    } else if point == 10 {
        t::has(raw, "## Procedure"@)
    } else if point == 11 {
        t::has(raw, "just run"@) || t::has(raw, "simply run"@)
    } else if point == 12 {
        prefixed_lines(raw, "## Evidence"@, Some("## Recovery"@), "- "@) < 4
    } else if point == 13 {
        prefixed_lines(raw, "## Recovery"@, Some("## Boundaries"@), "- "@) < 4
    } else if point == 14 {
        prefixed_lines(raw, "## Boundaries"@, None, "- Do not"@) < 3
    } else {
        false
    }
}

/// What is said of a file that is wrong in the point.
pub open spec fn complaint(point: int) -> Seq<char> {
    if point == 0 {
        " must start with a level-1 title"@
    } else if point == 1 {
        " must describe when to use the skill"@
    } else if point == 2 {
        " grounding must read AGENTS.md"@
    } else if point == 3 {
        " missing ## Grounding"@
    } else if point == 4 {
        " missing ## Preflight"@
    } else if point == 5 {
        " missing ## Decision Path"@
    } else if point == 6 {
        " missing ## Actions"@
    } else if point == 7 {
        " missing ## Evidence"@
    } else if point == 8 {
        " missing ## Recovery"@
    } else if point == 9 {
        " missing ## Boundaries"@
    } else if point == 10 {
        " still uses catch-all Procedure section"@
    } else if point == 11 {
        " uses thin-wrapper language; add grounding/evidence/recovery instead"@
    } else if point == 12 {
        " evidence section must list at least four concrete proof points"@
    } else if point == 13 {
        " recovery section must list at least four failure-handling paths"@
    } else {
        " boundaries section must include at least three explicit 'Do not' limits"@
    }
}

/// The points that a skill file is looked at for.
pub const POINTS: usize = 15;

/// Each point: whether the file is wrong there, and what is said if it is.
pub open spec fn checks(path: Seq<char>, raw: Seq<char>) -> Seq<(bool, Seq<char>)> {
    Seq::new(POINTS as nat, |i: int| (wrong(i, raw), path + complaint(i)))
}

/// The list with what is said of all that is wrong.
pub open spec fn noted(before: Seq<Seq<char>>, list: Seq<(bool, Seq<char>)>) -> Seq<Seq<char>>
    decreases list.len(),
{
    if list.len() == 0 {
        before
    } else {
        t::added(noted(before, list.drop_last()), list.last().0, list.last().1)
    }
}

/// What is wrong with a skill file, added to the list.
pub open spec fn shape_failures(before: Seq<Seq<char>>, path: Seq<char>, raw: Seq<char>) -> Seq<Seq<char>> {
    noted(before, checks(path, raw))
}

proof fn lemma_noted_len(before: Seq<Seq<char>>, list: Seq<(bool, Seq<char>)>)
    ensures
        noted(before, list).len() == before.len() + noted(Seq::empty(), list).len(),
    decreases list.len(),
{
    if list.len() > 0 {
        lemma_noted_len(before, list.drop_last());
    }
}

fn note(failures: &mut Vec<String>, wrong: bool, path: &str, what: &str)
    ensures
        t::texts(final(failures)@) == t::added(t::texts(old(failures)@), wrong, path@ + what@),
{
    if wrong {
        t::add_line(failures, path.to_owned().concat(what));
    }
}

fn is_wrong(point: usize, raw: &str) -> (r: bool)
    ensures
        r == wrong(point as int, raw@),
{
    match point {
        0 => !t::starts_with(t::trim_start(raw).as_str(), "# "),
        1 => !t::contains(raw, "Use this skill when"),
        2 => !t::contains(raw, "Read `AGENTS.md`"),
        3 => !t::contains(raw, "## Grounding"),
        4 => !t::contains(raw, "## Preflight"),
        5 => !t::contains(raw, "## Decision Path"),
        6 => !t::contains(raw, "## Actions"),
        7 => !t::contains(raw, "## Evidence"),
        8 => !t::contains(raw, "## Recovery"),
        9 => !t::contains(raw, "## Boundaries"),
        10 => t::contains(raw, "## Procedure"),
        11 => t::contains(raw, "just run") || t::contains(raw, "simply run"),
        12 => section_bullet_count(raw, "## Evidence", Some("## Recovery")) < 4,
        13 => section_bullet_count(raw, "## Recovery", Some("## Boundaries")) < 4,
        14 => section_prefixed_line_count(raw, "## Boundaries", None, "- Do not") < 3,
        _ => false,
    }
}

fn complaint_text(point: usize) -> (r: &'static str)
    ensures
        r@ == complaint(point as int),
{
    match point {
        0 => " must start with a level-1 title",
        1 => " must describe when to use the skill",
        2 => " grounding must read AGENTS.md",
        3 => " missing ## Grounding",
        4 => " missing ## Preflight",
        5 => " missing ## Decision Path",
        6 => " missing ## Actions",
        7 => " missing ## Evidence",
        8 => " missing ## Recovery",
        9 => " missing ## Boundaries",
        10 => " still uses catch-all Procedure section",
        11 => " uses thin-wrapper language; add grounding/evidence/recovery instead",
        12 => " evidence section must list at least four concrete proof points",
        13 => " recovery section must list at least four failure-handling paths",
        _ => " boundaries section must include at least three explicit 'Do not' limits",
    }
}

/// Adds what is wrong with a skill file.
pub fn validate_skill(failures: &mut Vec<String>, path: &str, raw: &str)
    ensures
        t::texts(final(failures)@) == shape_failures(t::texts(old(failures)@), path@, raw@),
{
    let ghost before = t::texts(failures@);
    let ghost all = checks(path@, raw@);
    assert(all.take(0) =~= Seq::<(bool, Seq<char>)>::empty());
    let mut i: usize = 0;
    while i < POINTS
        invariant
            i <= POINTS,
            all == checks(path@, raw@),
            t::texts(failures@) == noted(before, all.take(i as int)),
        decreases POINTS - i,
    {
        let bad = is_wrong(i, raw);
        note(failures, bad, path, complaint_text(i));
        assert(all.take(i + 1).drop_last() =~= all.take(i as int));
        assert(all.take(i + 1).last() == all[i as int]);
        i += 1;
    }
    assert(all.take(all.len() as int) =~= all);
}

/// The skill file of a directory, and what it holds where it is there.
#[derive(Debug, PartialEq, Eq)]
pub struct SkillFile<S> {
    pub path: S,
    pub raw: Option<S>,
}

impl View for SkillFile<String> {
    type V = SkillFile<Seq<char>>;

    open spec fn view(&self) -> SkillFile<Seq<char>> {
        SkillFile {
            path: self.path@,
            raw: t::opt_view(self.raw),
        }
    }
}

pub open spec fn files(v: Seq<SkillFile<String>>) -> Seq<SkillFile<Seq<char>>> {
    v.map_values(|x: SkillFile<String>| x@)
}

/// Where a pack has the file of a skill.
pub open spec fn skill_path(root: Seq<char>, name: Seq<char>) -> Seq<char> {
    (if root.len() == 0 || root.last() == '/' {
        root
    } else {
        root.push('/')
    }) + name + "/SKILL.md"@
}

pub fn skill_file_path(root: &str, name: &str) -> (r: String)
    ensures
        r@ == skill_path(root@, name@),
{
    let v = t::chars_of(root);
    let n: usize = v.len();
    let mut base = root.to_owned();
    if n > 0 && v[n - 1] != '/' {
        base.push('/');
    }
    base.concat(name).concat("/SKILL.md")
}

/// What is said of those of the first `n` names whose skill is not installed.
pub open spec fn missing_skills(root: Seq<char>, names: Seq<Seq<char>>, installed: Seq<Seq<char>>, n: int) -> Seq<
    Seq<char>,
>
    decreases n,
{
    if n <= 0 || n > names.len() {
        Seq::empty()
    } else {
        t::added(
            missing_skills(root, names, installed, n - 1),
            !installed.contains(names[n - 1]),
            "missing AGENTS.md initial skill: "@ + skill_path(root, names[n - 1]),
        )
    }
}

/// What is said of the skills that every pack holds and this one does not.
pub open spec fn missing_initial(root: Seq<char>, installed: Seq<Seq<char>>) -> Seq<Seq<char>> {
    missing_skills(root, initial_skills(), installed, initial_skills().len() as int)
}

/// What is wrong with the directories of a pack.
pub open spec fn pack_failures(before: Seq<Seq<char>>, found: Seq<SkillFile<Seq<char>>>) -> Seq<Seq<char>>
    decreases found.len(),
{
    if found.len() == 0 {
        before
    } else {
        let f = pack_failures(before, found.drop_last());
        match found.last().raw {
            None => f.push("missing "@ + found.last().path),
            Some(raw) => shape_failures(f, found.last().path, raw),
        }
    }
}

/// How many of the files are there.
pub open spec fn present(found: Seq<SkillFile<Seq<char>>>) -> nat
    decreases found.len(),
{
    if found.len() == 0 {
        0
    } else {
        present(found.drop_last()) + if found.last().raw is Some {
            1nat
        } else {
            0nat
        }
    }
}

#[derive(Debug, PartialEq, Eq)]
pub struct SkillValidationReport {
    pub root: String,
    pub checked: usize,
    pub failures: Vec<String>,
}

/// Validates a pack: the skills that every pack holds, and the files of its
/// directories. `installed` names the skills whose files are there.
pub fn validate_skill_pack(
    root: &str,
    root_exists: bool,
    installed: &Vec<String>,
    found: &Vec<SkillFile<String>>,
) -> (r: Result<SkillValidationReport, String>)
    ensures
        match r {
            Err(message) => !root_exists && message@ == "skill root does not exist: "@ + root@,
            Ok(report) => {
                &&& root_exists
                &&& report.root@ == root@
                &&& report.checked == present(files(found@))
                &&& t::texts(report.failures@) == pack_failures(
                    missing_initial(root@, t::texts(installed@)),
                    files(found@),
                )
            },
        },
{
    if !root_exists {
        return Err("skill root does not exist: ".to_owned().concat(root));
    }
    let mut failures = t::no_lines();
    let ghost all = files(found@);
    let names = required_initial_skills();
    let ghost wanted = name_views(names@);
    let mut i: usize = 0;
    while i < names.len()
        invariant
            i <= names@.len(),
            wanted == name_views(names@),
            t::texts(failures@) == missing_skills(root@, wanted, t::texts(installed@), i as int),
        decreases names@.len() - i,
    {
        assert(wanted[i as int] == names@[i as int]@);
        note(
            &mut failures,
            !t::list_has(installed, names[i]),
            "missing AGENTS.md initial skill: ",
            skill_file_path(root, names[i]).as_str(),
        );
        i += 1;
    }
    let ghost base = missing_initial(root@, t::texts(installed@));
    let mut checked: usize = 0;
    let mut k: usize = 0;
    assert(all.take(0) =~= Seq::<SkillFile<Seq<char>>>::empty());
    while k < found.len()
        invariant
            k <= found@.len(),
            checked <= k,
            all == files(found@),
            checked == present(all.take(k as int)),
            t::texts(failures@) == pack_failures(base, all.take(k as int)),
        decreases found@.len() - k,
    {
        assert(all.take(k + 1).drop_last() =~= all.take(k as int));
        assert(all.take(k + 1).last() == found@[k as int]@);
        match &found[k].raw {
            None => {
                t::add_line(&mut failures, "missing ".to_owned().concat(found[k].path.as_str()));
            },
            Some(raw) => {
                checked += 1;
                validate_skill(&mut failures, found[k].path.as_str(), raw.as_str());
            },
        }
        k += 1;
    }
    assert(all.take(all.len() as int) =~= all);
    Ok(SkillValidationReport { root: root.to_owned(), checked, failures })
}

proof fn lemma_pack_keeps(before: Seq<Seq<char>>, found: Seq<SkillFile<Seq<char>>>)
    ensures
        pack_failures(before, found).len() >= before.len(),
        pack_failures(before, found).len() == before.len() ==> forall|i: int|
            0 <= i < found.len() ==> (#[trigger] found[i]).raw is Some && shape_failures(
                Seq::empty(),
                found[i].path,
                found[i].raw->0,
            ).len() == 0,
    decreases found.len(),
{
    if found.len() > 0 {
        lemma_pack_keeps(before, found.drop_last());
        let f = pack_failures(before, found.drop_last());
        if found.last().raw is Some {
            lemma_noted_len(f, checks(found.last().path, found.last().raw->0));
        }
        if pack_failures(before, found).len() == before.len() {
            assert forall|i: int| 0 <= i < found.len() implies (#[trigger] found[i]).raw is Some && shape_failures(
                Seq::empty(),
                found[i].path,
                found[i].raw->0,
            ).len() == 0 by {
                if i < found.len() - 1 {
                    assert(found.drop_last()[i] == found[i]);
                }
            }
        }
    }
}

proof fn lemma_missing(root: Seq<char>, names: Seq<Seq<char>>, installed: Seq<Seq<char>>, n: int)
    requires
        0 <= n <= names.len(),
        missing_skills(root, names, installed, n).len() == 0,
    ensures
        forall|k: int| 0 <= k < n ==> installed.contains(#[trigger] names[k]),
    decreases n,
{
    if n > 0 {
        lemma_missing(root, names, installed, n - 1);
    }
}

/// A pack without failures has no bad skill: every directory has its skill file,
/// and nothing is wrong with any of them.
pub proof fn law_a_valid_pack_has_no_bad_skill(
    root: Seq<char>,
    installed: Seq<Seq<char>>,
    found: Seq<SkillFile<Seq<char>>>,
    i: int,
)
    requires
        pack_failures(missing_initial(root, installed), found).len() == 0,
        0 <= i < found.len(),
    ensures
        found[i].raw is Some,
        shape_failures(Seq::empty(), found[i].path, found[i].raw->0).len() == 0,
{
    lemma_pack_keeps(missing_initial(root, installed), found);
}

/// A pack without failures holds the skills that every pack holds.
pub proof fn law_a_valid_pack_holds_the_initial_skills(
    root: Seq<char>,
    installed: Seq<Seq<char>>,
    found: Seq<SkillFile<Seq<char>>>,
    i: int,
)
    requires
        pack_failures(missing_initial(root, installed), found).len() == 0,
        0 <= i < initial_skills().len(),
    ensures
        installed.contains(initial_skills()[i]),
{
    lemma_pack_keeps(missing_initial(root, installed), found);
    lemma_missing(root, initial_skills(), installed, initial_skills().len() as int);
}

/// What a validation prints, and how it ends.
#[derive(Debug, PartialEq, Eq)]
pub struct SkillOutcome {
    /// A line for the standard output.
    pub line: Option<String>,
    /// The lines for the error output.
    pub errors: Vec<String>,
    /// The error that the command ends with.
    pub failure: Option<String>,
}

/// Reports on a validation; a report in JSON prints no lines.
pub fn report_validation(report: &SkillValidationReport, json: bool) -> (r: SkillOutcome)
    ensures
        t::opt_view(r.line) == if json || report.failures@.len() > 0 {
            None
        } else {
            Some(
                "valid skill pack: "@ + t::decimal(report.checked as nat) + " skills checked under "@
                    + report.root@,
            )
        },
        t::texts(r.errors@) == if json {
            Seq::<Seq<char>>::empty()
        } else {
            t::texts(report.failures@)
        },
        t::opt_view(r.failure) == if report.failures@.len() == 0 {
            None
        } else {
            Some("skill validation failed: "@ + t::decimal(report.failures@.len()) + " issue(s)"@)
        },
{
    let n: usize = report.failures.len();
    let line: Option<String> = if json || n > 0 {
        None
    } else {
        Some(
            "valid skill pack: ".to_owned().concat(t::usize_text(report.checked).as_str()).concat(
                " skills checked under ",
            ).concat(report.root.as_str()),
        )
    };
    let mut errors = t::no_lines();
    if !json {
        let ghost all = t::texts(report.failures@);
        let mut i: usize = 0;
        assert(all.take(0) =~= Seq::<Seq<char>>::empty());
        while i < report.failures.len()
            invariant
                i <= report.failures@.len(),
                all == t::texts(report.failures@),
                t::texts(errors@) == all.take(i as int),
            decreases report.failures@.len() - i,
        {
            t::add_line(&mut errors, report.failures[i].clone());
            assert(all.take(i + 1) =~= all.take(i as int).push(report.failures@[i as int]@));
            i += 1;
        }
        assert(all.take(all.len() as int) =~= all);
    }
    let failure: Option<String> = if n == 0 {
        None
    } else {
        Some("skill validation failed: ".to_owned().concat(t::usize_text(n).as_str()).concat(" issue(s)"))
    };
    SkillOutcome { line, errors, failure }
}

/// A skill is found wanting for each point that it lacks, and the complaint names
/// the file and the point; one that lacks nothing is not.
pub proof fn law_a_skill_is_told_what_it_lacks(path: Seq<char>, raw: Seq<char>, point: int)
    requires
        0 <= point < POINTS,
    ensures
        wrong(point, raw) ==> shape_failures(Seq::empty(), path, raw).contains(path + complaint(point)),
        (forall|i: int| 0 <= i < POINTS ==> !#[trigger] wrong(i, raw)) ==> shape_failures(Seq::empty(), path, raw).len()
            == 0,
        !t::has(raw, "## Grounding"@) ==> wrong(3, raw),
        !t::has(raw, "## Preflight"@) ==> wrong(4, raw),
        !t::has(raw, "## Decision Path"@) ==> wrong(5, raw),
        !t::has(raw, "## Actions"@) ==> wrong(6, raw),
        !t::has(raw, "## Evidence"@) ==> wrong(7, raw),
        !t::has(raw, "## Recovery"@) ==> wrong(8, raw),
        !t::has(raw, "## Boundaries"@) ==> wrong(9, raw),
        !t::has(raw, "Use this skill when"@) ==> wrong(1, raw),
        !t::has(raw, "Read `AGENTS.md`"@) ==> wrong(2, raw),
        t::has(raw, "## Procedure"@) ==> wrong(10, raw),
        t::has(raw, "just run"@) ==> wrong(11, raw),
        t::has(raw, "simply run"@) ==> wrong(11, raw),
{
    let list = checks(path, raw);
    lemma_noted(Seq::empty(), list, point);
    if forall|i: int| 0 <= i < POINTS ==> !#[trigger] wrong(i, raw) {
        lemma_noted_none(Seq::empty(), list);
    }
}

proof fn lemma_noted(before: Seq<Seq<char>>, list: Seq<(bool, Seq<char>)>, i: int)
    requires
        0 <= i < list.len(),
    ensures
        list[i].0 ==> noted(before, list).contains(list[i].1),
    decreases list.len(),
{
    let front = noted(before, list.drop_last());
    let all = noted(before, list);
    if list[i].0 {
        if i == list.len() - 1 {
            assert(all[front.len() as int] == list[i].1);
        } else {
            lemma_noted(before, list.drop_last(), i);
            assert(list.drop_last()[i] == list[i]);
            let k = choose|k: int| 0 <= k < front.len() && front[k] == list[i].1;
            assert(all[k] == list[i].1);
        }
    }
}

proof fn lemma_noted_none(before: Seq<Seq<char>>, list: Seq<(bool, Seq<char>)>)
    requires
        forall|i: int| 0 <= i < list.len() ==> !(#[trigger] list[i]).0,
    ensures
        noted(before, list) == before,
    decreases list.len(),
{
    if list.len() > 0 {
        assert forall|i: int| 0 <= i < list.drop_last().len() implies !(#[trigger] list.drop_last()[i]).0 by {
            assert(!list[i].0);
        }
        lemma_noted_none(before, list.drop_last());
        assert(!list[list.len() - 1].0);
    }
}

/// A section is what stands between its heading and the next one.
pub proof fn law_a_section_stands_between_its_headings(
    a: Seq<char>,
    start: Seq<char>,
    inner: Seq<char>,
    end: Seq<char>,
    b: Seq<char>,
)
    requires
        forall|j: int| 0 <= j < a.len() ==> !t::occurs_at(a + start + (inner + end + b), start, j),
        forall|j: int| 0 <= j < inner.len() ==> !t::occurs_at(inner + end + b, end, j),
    ensures
        section(a + start + (inner + end + b), start, Some(end)) == inner,
        section(a + start + (inner + end + b), start, None) == inner + end + b,
{
    t::law_a_text_is_cut_at_its_separator(a, start, inner + end + b);
    t::law_a_text_is_cut_at_its_separator(inner, end, b);
}

/// A skill is described by the line that says when it is used, else by its first
/// line of prose.
pub proof fn law_a_skill_is_described_by_its_use(lines: Seq<Seq<char>>, i: int)
    requires
        0 <= i < lines.len(),
    ensures
        t::starts(t::trimmed(lines[i]), "Use this skill when"@) && (forall|j: int|
            0 <= j < i ==> !t::starts(t::trimmed(#[trigger] lines[j]), "Use this skill when"@)) ==> describing_line(lines)
            == t::trimmed(lines[i]),
        (forall|j: int| 0 <= j < lines.len() ==> !t::starts(t::trimmed(#[trigger] lines[j]), "Use this skill when"@))
            && prose(lines[i]) && (forall|j: int| 0 <= j < i ==> !prose(#[trigger] lines[j])) ==> describing_line(lines)
            == t::trimmed(lines[i]),
{
    if t::starts(t::trimmed(lines[i]), "Use this skill when"@) && (forall|j: int|
        0 <= j < i ==> !t::starts(t::trimmed(#[trigger] lines[j]), "Use this skill when"@)) {
        lemma_first_use(lines, i);
    }
    if (forall|j: int| 0 <= j < lines.len() ==> !t::starts(t::trimmed(#[trigger] lines[j]), "Use this skill when"@))
        && prose(lines[i]) && (forall|j: int| 0 <= j < i ==> !prose(#[trigger] lines[j])) {
        lemma_no_use(lines);
        lemma_first_prose(lines, i);
    }
}

proof fn lemma_first_use(lines: Seq<Seq<char>>, i: int)
    requires
        0 <= i < lines.len(),
        t::starts(t::trimmed(lines[i]), "Use this skill when"@),
        forall|j: int| 0 <= j < i ==> !t::starts(t::trimmed(#[trigger] lines[j]), "Use this skill when"@),
    ensures
        first_use(lines) == Some(t::trimmed(lines[i])),
    decreases i,
{
    if i > 0 {
        assert(!t::starts(t::trimmed(lines[0]), "Use this skill when"@));
        let rest = lines.skip(1);
        assert(rest[i - 1] == lines[i]);
        assert forall|j: int| 0 <= j < i - 1 implies !t::starts(
            t::trimmed(#[trigger] rest[j]),
            "Use this skill when"@,
        ) by {
            assert(rest[j] == lines[j + 1]);
        }
        lemma_first_use(rest, i - 1);
    }
}

proof fn lemma_no_use(lines: Seq<Seq<char>>)
    requires
        forall|j: int| 0 <= j < lines.len() ==> !t::starts(t::trimmed(#[trigger] lines[j]), "Use this skill when"@),
    ensures
        first_use(lines) is None,
    decreases lines.len(),
{
    if lines.len() > 0 {
        assert(!t::starts(t::trimmed(lines[0]), "Use this skill when"@));
        let rest = lines.skip(1);
        assert forall|j: int| 0 <= j < rest.len() implies !t::starts(
            t::trimmed(#[trigger] rest[j]),
            "Use this skill when"@,
        ) by {
            assert(rest[j] == lines[j + 1]);
        }
        lemma_no_use(rest);
    }
}

proof fn lemma_first_prose(lines: Seq<Seq<char>>, i: int)
    requires
        0 <= i < lines.len(),
        prose(lines[i]),
        forall|j: int| 0 <= j < i ==> !prose(#[trigger] lines[j]),
    ensures
        first_prose(lines) == Some(t::trimmed(lines[i])),
    decreases i,
{
    if i > 0 {
        assert(!prose(lines[0]));
        let rest = lines.skip(1);
        assert(rest[i - 1] == lines[i]);
        assert forall|j: int| 0 <= j < i - 1 implies !prose(#[trigger] rest[j]) by {
            assert(rest[j] == lines[j + 1]);
        }
        lemma_first_prose(rest, i - 1);
    }
}

/// A skill without a head gets one with its name and its description; one that
/// has a head is kept as it is.
pub proof fn law_a_skill_gets_a_head(name: Seq<char>, body: Seq<char>, description: Seq<char>)
    ensures
        t::starts(t::trimmed_start(body), "---"@) ==> codex_skill(name, body, Some(description)) == body,
        !t::starts(t::trimmed_start(body), "---"@) && t::trimmed(description).len() > 0 ==> codex_skill(
            name,
            body,
            Some(description),
        ) == "---\nname: "@ + quoted(name) + "\ndescription: "@ + quoted(description) + "\n---\n\n"@ + body,
        !t::starts(t::trimmed_start(body), "---"@) ==> codex_skill(name, body, None) == "---\nname: "@ + quoted(name)
            + "\ndescription: "@ + quoted(skill_description(body)) + "\n---\n\n"@ + body,
{
}

/// The skills that are present are counted.
pub proof fn law_the_skills_that_are_there_are_counted(found: Seq<SkillFile<Seq<char>>>)
    ensures
        present(found) == found.filter(|f: SkillFile<Seq<char>>| f.raw is Some).len(),
    decreases found.len(),
{
    reveal(Seq::filter);
    if found.len() > 0 {
        law_the_skills_that_are_there_are_counted(found.drop_last());
    }
}

} // verus!
