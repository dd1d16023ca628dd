//! The live message that shows what an agent is doing.

use crate::channels::conversation::truncate_chars;
use crate::channels::delivery;
use crate::channels::delivery::truncate_for_telegram;
use crate::text as t;
use vstd::prelude::*;
use vstd::string::*;

verus! {

// ---------------------------------------------------------------------------
// Texts
// ---------------------------------------------------------------------------

pub open spec fn escaped(s: Seq<char>) -> Seq<char> {
    t::replaced(t::replaced(t::replaced(s, "&"@, "&amp;"@), "<"@, "&lt;"@), ">"@, "&gt;"@)
}

/// A text in which nothing is markup.
pub fn html_escape(text: &str) -> (r: String)
    ensures
        r@ == escaped(text@),
{
    proof {
        reveal_strlit("&");
        reveal_strlit("<");
        reveal_strlit(">");
    }
    let a = t::replace(text, "&", "&amp;");
    let b = t::replace(a.as_str(), "<", "&lt;");
    t::replace(b.as_str(), ">", "&gt;")
}

/// A text with one space for each run of white space.
pub fn collapse_ws(text: &str) -> (r: String)
    ensures
        r@ == t::joined(t::words_of(text@), " "@),
{
    t::join(&t::words(text), " ")
}

/// The words of a key, apart from the underscores, hyphens and spaces between
/// them.
pub open spec fn key_words(key: Seq<char>) -> Seq<Seq<char>> {
    t::nonempty(t::pieces(t::replaced(t::replaced(key, "_"@, " "@), "-"@, " "@), " "@))
}

/// A word behind its first character in upper case.
pub open spec fn capitalized(word: Seq<char>) -> Seq<char> {
    t::uppercased(word.take(1)) + word.skip(1)
}

pub open spec fn titled(words: Seq<Seq<char>>) -> Seq<Seq<char>> {
    words.map_values(|w: Seq<char>| capitalized(w))
}

fn capitalize(word: &str) -> (r: String)
    requires
        word@.len() > 0,
    ensures
        r@ == capitalized(word@),
{
    let v = t::chars_of(word);
    let first = t::string_of(&v, 0, 1);
    let rest = t::string_of(&v, 1, v.len());
    assert(first@ =~= word@.take(1));
    assert(rest@ =~= word@.skip(1));
    t::uppercase(first.as_str()).concat(rest.as_str())
}

/// A key as a title.
pub open spec fn title(key: Seq<char>) -> Seq<char> {
    t::joined(titled(key_words(key)), " "@)
}

pub fn titleize(key: &str) -> (r: String)
    ensures
        r@ == title(key@),
{
    proof {
        reveal_strlit("_");
        reveal_strlit("-");
        reveal_strlit(" ");
    }
    let a = t::replace(key, "_", " ");
    let b = t::replace(a.as_str(), "-", " ");
    let parts = t::split(b.as_str(), " ");
    let words = t::keep_nonempty(&parts);
    let ghost all = key_words(key@);
    let ghost any = t::pieces(t::replaced(t::replaced(key@, "_"@, " "@), "-"@, " "@), " "@);
    let ghost full = |p: Seq<char>| p.len() > 0;
    assert(all == t::texts(words@));
    let mut titles: Vec<String> = Vec::new();
    let mut i: usize = 0;
    while i < words.len()
        invariant
            i <= words.len(),
            all == t::texts(words@),
            all == any.filter(full),
            full == (|p: Seq<char>| p.len() > 0),
            titles.len() == i,
            forall|k: int| 0 <= k < i ==> (#[trigger] titles@[k])@ == capitalized(all[k]),
        decreases words.len() - i,
    {
        proof {
            any.lemma_filter_pred(full, i as int);
            assert(all[i as int] == words@[i as int]@);
        }
        titles.push(capitalize(words[i].as_str()));
        i += 1;
    }
    assert(t::texts(titles@) =~= titled(all));
    t::join(&titles, " ")
}

/// The sign and the title under which a known tool is shown.
pub open spec fn known_tool(k: Seq<char>) -> Option<(Seq<char>, Seq<char>)> {
    if k == "bash"@ || k == "exec"@ || k == "shell"@ || k == "command"@ || k == "command_execution"@ {
        Some(("🛠️"@, "Bash"@))
    } else if k == "process"@ {
        Some(("🧰"@, "Process"@))
    } else if k == "read"@ {
        Some(("📖"@, "Read"@))
    } else if k == "write"@ {
        Some(("✍️"@, "Write"@))
    } else if k == "edit"@ || k == "file_change"@ || k == "apply_patch"@ || k == "patch"@ {
        Some(("📝"@, "Edit"@))
    } else if k == "attach"@ {
        Some(("📎"@, "Attach"@))
    } else if k == "browser"@ || k == "browse"@ {
        Some(("🌐"@, "Browser"@))
    } else if k == "web_search"@ || k == "search"@ || k == "websearch"@ {
        Some(("🔎"@, "Web Search"@))
    } else if k == "web_fetch"@ || k == "fetch"@ {
        Some(("📄"@, "Web Fetch"@))
    } else if k == "code_execution"@ {
        Some(("🧮"@, "Code Execution"@))
    } else if k == "update_plan"@ || k == "plan"@ || k == "todo_list"@ || k == "todo"@ {
        Some(("🗺️"@, "Update Plan"@))
    } else if k == "memory_search"@ {
        Some(("🗄️"@, "Memory Search"@))
    } else if k == "memory_get"@ {
        Some(("📓"@, "Memory Get"@))
    } else if k == "image"@ || k == "image_generate"@ {
        Some(("🎨"@, "Image"@))
    } else if k == "mcp_tool_call"@ || k == "tool_call"@ || k == "tool_call_update"@ {
        Some(("🧰"@, "Tool Call"@))
    } else if k == "message"@ {
        Some(("✉️"@, "Message"@))
    } else {
        None
    }
}

fn find_tool(k: &str) -> (r: Option<(&'static str, &'static str)>)
    ensures
        match r {
            Some((sign, title)) => known_tool(k@) == Some((sign@, title@)),
            None => known_tool(k@) is None,
        },
{
    if t::same(k, "bash") || t::same(k, "exec") || t::same(k, "shell") || t::same(k, "command") || t::same(
        k,
        "command_execution",
    ) {
        Some(("🛠️", "Bash"))
    } else if t::same(k, "process") {
        Some(("🧰", "Process"))
    } else if t::same(k, "read") {
        Some(("📖", "Read"))
    } else if t::same(k, "write") {
        Some(("✍️", "Write"))
    } else if t::same(k, "edit") || t::same(k, "file_change") || t::same(k, "apply_patch") || t::same(
        k,
        "patch",
    ) {
        Some(("📝", "Edit"))
    } else if t::same(k, "attach") {
        Some(("📎", "Attach"))
    } else if t::same(k, "browser") || t::same(k, "browse") {
        Some(("🌐", "Browser"))
    } else if t::same(k, "web_search") || t::same(k, "search") || t::same(k, "websearch") {
        Some(("🔎", "Web Search"))
    } else if t::same(k, "web_fetch") || t::same(k, "fetch") {
        Some(("📄", "Web Fetch"))
    } else if t::same(k, "code_execution") {
        Some(("🧮", "Code Execution"))
    } else if t::same(k, "update_plan") || t::same(k, "plan") || t::same(k, "todo_list") || t::same(k, "todo") {
        Some(("🗺️", "Update Plan"))
    } else if t::same(k, "memory_search") {
        Some(("🗄️", "Memory Search"))
    } else if t::same(k, "memory_get") {
        Some(("📓", "Memory Get"))
    } else if t::same(k, "image") || t::same(k, "image_generate") {
        Some(("🎨", "Image"))
    } else if t::same(k, "mcp_tool_call") || t::same(k, "tool_call") || t::same(k, "tool_call_update") {
        Some(("🧰", "Tool Call"))
    } else if t::same(k, "message") {
        Some(("✉️", "Message"))
    } else {
        None
    }
}

pub open spec fn displayed(key: Seq<char>) -> (Seq<char>, Seq<char>) {
    match known_tool(t::lower(t::trimmed(key))) {
        Some(d) => d,
        None => ("🧩"@, t::joined(titled(key_words(key)), " "@)),
    }
}

/// The sign and the title under which a tool is shown.
pub fn tool_display(key: &str) -> (r: (&'static str, String))
    ensures
        (r.0@, r.1@) == displayed(key@),
{
    let k = t::to_lower(t::trim(key).as_str());
    match find_tool(k.as_str()) {
        Some((sign, title)) => (sign, title.to_owned()),
        None => ("🧩", titleize(key)),
    }
}

/// The tool and the detail of a tool event.
pub open spec fn tool_event(text: Seq<char>) -> (Seq<char>, Seq<char>) {
    match t::cut(text, "\u{1f}"@) {
        Some((key, detail)) => (t::trimmed(key), detail),
        None => {
            let detail = match t::after_prefix(text, "running: "@) {
                Some(d) => d,
                None => match t::after_prefix(text, "done: "@) {
                    Some(d) => d,
                    None => match t::cut(text, "): "@) {
                        Some((_, d)) => d,
                        None => text,
                    },
                },
            };
            ("bash"@, detail)
        },
    }
}

pub fn parse_tool_event(text: &str) -> (r: (String, String))
    ensures
        (r.0@, r.1@) == tool_event(text@),
{
    match t::split_once(text, "\u{1f}") {
        Some((key, detail)) => (t::trim(key.as_str()), detail),
        None => {
            let detail = match t::strip_prefix(text, "running: ") {
                Some(d) => d,
                None => match t::strip_prefix(text, "done: ") {
                    Some(d) => d,
                    None => match t::split_once(text, "): ") {
                        Some((_, d)) => d,
                        None => text.to_owned(),
                    },
                },
            };
            ("bash".to_owned(), detail)
        },
    }
}

/// Something that happened in a turn.
#[derive(Debug, PartialEq, Eq)]
pub struct ProgressEvent {
    pub kind: String,
    pub text: String,
}

/// What is known of a turn: the tools that ran, the last text, and whether it
/// failed.
pub struct Progress {
    pub tools: Seq<(Seq<char>, Seq<char>)>,
    pub text: Seq<char>,
    pub failed: bool,
}

pub open spec fn progressed(p: Progress, e: ProgressEvent) -> Progress {
    if e.kind@ == "tool"@ {
        Progress { tools: p.tools.push(tool_event(e.text@)), ..p }
    } else if e.kind@ == "text"@ {
        Progress { text: e.text@, ..p }
    } else if e.kind@ == "status"@ && e.text@ == "error"@ {
        Progress { failed: true, ..p }
    } else {
        p
    }
}

pub open spec fn progress_of(events: Seq<ProgressEvent>) -> Progress
    decreases events.len(),
{
    if events.len() == 0 {
        Progress { tools: Seq::empty(), text: Seq::empty(), failed: false }
    } else {
        progressed(progress_of(events.drop_last()), events.last())
    }
}

/// The line for a tool; a shell command stands for itself.
pub open spec fn tool_line(key: Seq<char>, raw: Seq<char>) -> Seq<char> {
    let (sign, title) = displayed(key);
    let detail = t::joined(t::words_of(t::trimmed(raw)), " "@);
    if detail.len() == 0 {
        sign + " "@ + title
    } else if key == "bash"@ || key == "exec"@ {
        sign + " "@ + detail
    } else {
        sign + " "@ + title + ": "@ + detail
    }
}

fn tool_line_text(key: &str, raw: &str) -> (r: String)
    ensures
        r@ == tool_line(key@, raw@),
{
    let (sign, title) = tool_display(key);
    let detail = collapse_ws(t::trim(raw).as_str());
    if detail.as_str().is_empty() {
        sign.to_owned().concat(" ").concat(title.as_str())
    } else if t::same(key, "bash") || t::same(key, "exec") {
        sign.to_owned().concat(" ").concat(detail.as_str())
    } else {
        sign.to_owned().concat(" ").concat(title.as_str()).concat(": ").concat(detail.as_str())
    }
}

/// The lines for the tools from `a` up to `b`.
pub open spec fn tool_block(tools: Seq<(Seq<char>, Seq<char>)>, a: int, b: int) -> Seq<char>
    decreases b - a,
{
    if b <= a || b > tools.len() || a < 0 {
        Seq::empty()
    } else {
        tool_block(tools, a, b - 1) + t::truncated(tool_line(tools[b - 1].0, tools[b - 1].1), 160) + "\n"@
    }
}

/// Where the last eight of `n` begin.
pub open spec fn last_eight(n: nat) -> int {
    if n > 8 {
        n - 8
    } else {
        0
    }
}

pub open spec fn progress_html(p: Progress) -> Seq<char> {
    let block = t::trimmed_end(tool_block(p.tools, last_eight(p.tools.len()), p.tools.len() as int));
    if block.len() > 0 {
        delivery::fit_for_chat("<pre>"@ + escaped(block) + "</pre>"@)
    } else if t::trimmed(p.text).len() > 0 {
        escaped(t::truncated(t::trimmed(p.text), 3000))
    } else if p.failed {
        "<pre>error</pre>"@
    } else {
        Seq::empty()
    }
}

pub open spec fn pairs(v: Seq<(String, String)>) -> Seq<(Seq<char>, Seq<char>)> {
    v.map_values(|p: (String, String)| (p.0@, p.1@))
}

fn tool_block_text(tools: &Vec<(String, String)>) -> (r: String)
    ensures
        r@ == tool_block(pairs(tools@), last_eight(tools@.len()), tools@.len() as int),
{
    let n: usize = tools.len();
    let a: usize = if n > 8 {
        n - 8
    } else {
        0
    };
    let ghost all = pairs(tools@);
    let mut block = String::new();
    let mut i: usize = a;
    while i < n
        invariant
            a <= i <= n,
            n == tools@.len(),
            all == pairs(tools@),
            block@ == tool_block(all, a as int, i as int),
        decreases n - i,
    {
        assert(all[i as int] == (tools@[i as int].0@, tools@[i as int].1@));
        let line = tool_line_text(tools[i].0.as_str(), tools[i].1.as_str());
        block.append(truncate_chars(line.as_str(), 160).as_str());
        block.append("\n");
        i += 1;
    }
    block
}

/// The live text for what happened in a turn; empty while there is nothing to
/// show.
pub fn render_progress_html(events: &Vec<ProgressEvent>) -> (r: String)
    ensures
        r@ == progress_html(progress_of(events@)),
{
    let mut tools: Vec<(String, String)> = Vec::new();
    let mut text = String::new();
    let mut failed = false;
    let mut i: usize = 0;
    proof {
        assert(events@.take(0) =~= Seq::<ProgressEvent>::empty());
        assert(pairs(tools@) =~= Seq::<(Seq<char>, Seq<char>)>::empty());
        assert(text@ =~= Seq::<char>::empty());
    }
    while i < events.len()
        invariant
            i <= events.len(),
            progress_of(events@.take(i as int)) == (Progress { tools: pairs(tools@), text: text@, failed }),
        decreases events.len() - i,
    {
        let ghost before = pairs(tools@);
        assert(events@.take(i as int + 1).drop_last() =~= events@.take(i as int));
        let e = &events[i];
        if t::same(e.kind.as_str(), "tool") {
            let parsed = parse_tool_event(e.text.as_str());
            tools.push(parsed);
            assert(pairs(tools@) =~= before.push(tool_event(e.text@)));
        } else if t::same(e.kind.as_str(), "text") {
            text = e.text.clone();
        } else if t::same(e.kind.as_str(), "status") && t::same(e.text.as_str(), "error") {
            failed = true;
        }
        i += 1;
    }
    assert(events@.take(events@.len() as int) =~= events@);
    assert(pairs(tools@).len() == tools@.len());
    let block = t::trim_end(tool_block_text(&tools).as_str());
    let said = t::trim(text.as_str());
    if !block.as_str().is_empty() {
        let html = "<pre>".to_owned().concat(html_escape(block.as_str()).as_str()).concat("</pre>");
        truncate_for_telegram(html.as_str())
    } else if !said.as_str().is_empty() {
        html_escape(truncate_chars(said.as_str(), 3000).as_str())
    } else if failed {
        "<pre>error</pre>".to_owned()
    } else {
        let none = String::new();
        assert(none@ =~= Seq::<char>::empty());
        none
    }
}

/// Nothing in the escaped text opens or closes a tag.
pub proof fn law_escaped_text_has_no_markup(s: Seq<char>)
    ensures
        !escaped(s).contains('<'),
        !escaped(s).contains('>'),
{
    reveal_strlit("&");
    reveal_strlit("<");
    reveal_strlit(">");
    reveal_strlit("&amp;");
    reveal_strlit("&lt;");
    reveal_strlit("&gt;");
    let a = t::replaced(s, "&"@, "&amp;"@);
    let b = t::replaced(a, "<"@, "&lt;"@);
    lemma_replaced_is_gone(a, '<', "<"@, "&lt;"@);
    lemma_replaced_is_gone(b, '>', ">"@, "&gt;"@);
    lemma_replaced_keeps_out(b, '<', ">"@, "&gt;"@);
}

/// Every piece is free of what the text was split at.
proof fn lemma_pieces_are_free(s: Seq<char>, c: char, pat: Seq<char>)
    requires
        pat == seq![c],
    ensures
        forall|i: int| 0 <= i < t::pieces(s, pat).len() ==> !(#[trigger] t::pieces(s, pat)[i]).contains(c),
    decreases s.len(),
{
    t::lemma_find_has(s, pat);
    t::lemma_find_from(s, pat, 0);
    match t::find(s, pat) {
        Some(k) => {
            let rest = s.skip(k + 1);
            lemma_pieces_are_free(rest, c, pat);
            assert(!s.take(k).contains(c)) by {
                if s.take(k).contains(c) {
                    let j = choose|j: int| 0 <= j < k && s.take(k)[j] == c;
                    assert(s.subrange(j, j + 1) =~= pat);
                    assert(t::occurs_at(s, pat, j));
                    assert(false);
                }
            }
            let all = t::pieces(s, pat);
            assert(all == seq![s.take(k)] + t::pieces(rest, pat));
            assert forall|i: int| 0 <= i < all.len() implies !(#[trigger] all[i]).contains(c) by {
                if i > 0 {
                    assert(all[i] == t::pieces(rest, pat)[i - 1]);
                }
            }
        },
        None => {
            if s.contains(c) {
                let j = choose|j: int| 0 <= j < s.len() && s[j] == c;
                assert(s.subrange(j, j + 1) =~= pat);
                assert(t::occurs_at(s, pat, j));
                assert(false);
            }
        },
    }
}

proof fn lemma_joined_keeps_out(parts: Seq<Seq<char>>, sep: Seq<char>, c: char)
    requires
        !sep.contains(c),
        forall|i: int| 0 <= i < parts.len() ==> !(#[trigger] parts[i]).contains(c),
    ensures
        !t::joined(parts, sep).contains(c),
    decreases parts.len(),
{
    if parts.len() > 1 {
        let init = parts.drop_last();
        assert forall|i: int| 0 <= i < init.len() implies !(#[trigger] init[i]).contains(c) by {
            assert(init[i] == parts[i]);
        }
        lemma_joined_keeps_out(init, sep, c);
        let a = t::joined(init, sep);
        let r = a + sep + parts.last();
        if r.contains(c) {
            let j = choose|j: int| 0 <= j < r.len() && r[j] == c;
            if j < a.len() {
                assert(a[j] == c);
            } else if j < a.len() + sep.len() {
                assert(sep[j - a.len()] == c);
            } else {
                assert(parts.last()[j - a.len() - sep.len()] == c);
                assert(parts[parts.len() - 1].contains(c));
            }
            assert(false);
        }
    }
}

proof fn lemma_replaced_is_gone(s: Seq<char>, c: char, pat: Seq<char>, to: Seq<char>)
    requires
        pat =~= seq![c],
        !to.contains(c),
    ensures
        !t::replaced(s, pat, to).contains(c),
{
    lemma_pieces_are_free(s, c, pat);
    lemma_joined_keeps_out(t::pieces(s, pat), to, c);
}

proof fn lemma_pieces_keep_out(s: Seq<char>, c: char, pat: Seq<char>)
    requires
        !s.contains(c),
    ensures
        forall|i: int| 0 <= i < t::pieces(s, pat).len() ==> !(#[trigger] t::pieces(s, pat)[i]).contains(c),
    decreases s.len(),
{
    let all = t::pieces(s, pat);
    match t::find(s, pat) {
        Some(k) => if !(pat.len() == 0 || k < 0 || k + pat.len() > s.len()) {
            let rest = s.skip(k + pat.len());
            assert(!rest.contains(c)) by {
                if rest.contains(c) {
                    let j = choose|j: int| 0 <= j < rest.len() && rest[j] == c;
                    assert(s[j + k + pat.len()] == c);
                }
            }
            assert(!s.take(k).contains(c)) by {
                if s.take(k).contains(c) {
                    let j = choose|j: int| 0 <= j < k && s.take(k)[j] == c;
                    assert(s[j] == c);
                }
            }
            lemma_pieces_keep_out(rest, c, pat);
            assert forall|i: int| 0 <= i < all.len() implies !(#[trigger] all[i]).contains(c) by {
                if i > 0 {
                    assert(all[i] == t::pieces(rest, pat)[i - 1]);
                }
            }
        },
        None => {},
    }
}

proof fn lemma_replaced_keeps_out(s: Seq<char>, c: char, pat: Seq<char>, to: Seq<char>)
    requires
        !s.contains(c),
        !to.contains(c),
    ensures
        !t::replaced(s, pat, to).contains(c),
{
    lemma_pieces_keep_out(s, c, pat);
    lemma_joined_keeps_out(t::pieces(s, pat), to, c);
}

// ---------------------------------------------------------------------------
// Marker files
// ---------------------------------------------------------------------------

pub open spec fn safe_char(c: char) -> char {
    if t::ascii_alnum(c) || c == '-' || c == '_' {
        c
    } else {
        '_'
    }
}

/// An id as a file name.
pub open spec fn safe_name(id: Seq<char>) -> Seq<char> {
    id.map_values(|c: char| safe_char(c))
}

fn safe_name_text(id: &str) -> (r: String)
    ensures
        r@ == safe_name(id@),
{
    let v = t::chars_of(id);
    let mut r = String::new();
    let mut i: usize = 0;
    assert(r@ =~= safe_name(id@.take(0)));
    while i < v.len()
        invariant
            i <= v.len(),
            v@ == id@,
            r@ == safe_name(id@.take(i as int)),
        decreases v.len() - i,
    {
        let c = v[i];
        let ghost before = r@;
        if t::is_ascii_alnum(c) || c == '-' || c == '_' {
            r.push(c);
        } else {
            r.push('_');
        }
        assert(safe_name(id@.take(i as int + 1)) =~= safe_name(id@.take(i as int)).push(safe_char(c)));
        i += 1;
    }
    assert(id@.take(id@.len() as int) =~= id@);
    r
}

/// The file that holds the id of a turn's live message.
pub fn telegram_status_file(inbound_id: &str) -> (r: String)
    ensures
        r@ == safe_name(inbound_id@) + ".tgstatus"@,
{
    safe_name_text(inbound_id).concat(".tgstatus")
}

/// The file that says that a turn is being streamed.
pub fn telegram_active_file(inbound_id: &str) -> (r: String)
    ensures
        r@ == safe_name(inbound_id@) + ".tgactive"@,
{
    safe_name_text(inbound_id).concat(".tgactive")
}

/// The id of the live message, from what its file holds.
pub fn peek_telegram_status(raw: &str) -> (r: Option<i64>)
    ensures
        r is Some <==> t::parsed_signed(t::trimmed(raw@), i64::MAX as nat) is Some,
        r matches Some(n) ==> t::parsed_signed(t::trimmed(raw@), i64::MAX as nat) == Some(n as int),
{
    t::parse_i64(t::trim(raw).as_str())
}

// ---------------------------------------------------------------------------
// The end of a turn
// ---------------------------------------------------------------------------

/// Where putting a reply in place of the live message stands.
#[derive(Debug, PartialEq, Eq)]
pub enum FinalizeStage<S> {
    Start { live_id: Option<i64> },
    Editing { id: i64 },
    Deleting { edit_error: S },
    Sending,
    Ended,
}

#[derive(Debug, PartialEq, Eq)]
pub enum FinalizeEvent<S> {
    Begin,
    /// The edit, or the removal, was done.
    Done,
    /// The reply was sent as a message of its own, with this id.
    Sent { id: Option<i64> },
    Failed { error: S },
}

#[derive(Debug, PartialEq, Eq)]
pub enum FinalizeAction<S> {
    /// Put the reply in place of the live message.
    Edit { id: i64 },
    /// Take the live message down.
    Delete,
    /// Send the reply as a message of its own.
    Send,
    /// The reply stands in the message with this id.
    Finish { id: Option<i64> },
    Fail { error: S },
}

impl View for FinalizeStage<String> {
    type V = FinalizeStage<Seq<char>>;

    open spec fn view(&self) -> FinalizeStage<Seq<char>> {
        match self {
            FinalizeStage::Start { live_id } => FinalizeStage::Start { live_id: *live_id },
            FinalizeStage::Editing { id } => FinalizeStage::Editing { id: *id },
            FinalizeStage::Deleting { edit_error } => FinalizeStage::Deleting { edit_error: edit_error@ },
            FinalizeStage::Sending => FinalizeStage::Sending,
            FinalizeStage::Ended => FinalizeStage::Ended,
        }
    }
}

impl View for FinalizeEvent<String> {
    type V = FinalizeEvent<Seq<char>>;

    open spec fn view(&self) -> FinalizeEvent<Seq<char>> {
        match self {
            FinalizeEvent::Begin => FinalizeEvent::Begin,
            FinalizeEvent::Done => FinalizeEvent::Done,
            FinalizeEvent::Sent { id } => FinalizeEvent::Sent { id: *id },
            FinalizeEvent::Failed { error } => FinalizeEvent::Failed { error: error@ },
        }
    }
}

impl View for FinalizeAction<String> {
    type V = FinalizeAction<Seq<char>>;

    open spec fn view(&self) -> FinalizeAction<Seq<char>> {
        match self {
            FinalizeAction::Edit { id } => FinalizeAction::Edit { id: *id },
            FinalizeAction::Delete => FinalizeAction::Delete,
            FinalizeAction::Send => FinalizeAction::Send,
            FinalizeAction::Finish { id } => FinalizeAction::Finish { id: *id },
            FinalizeAction::Fail { error } => FinalizeAction::Fail { error: error@ },
        }
    }
}

pub open spec fn finalize_next(stage: FinalizeStage<Seq<char>>, event: FinalizeEvent<Seq<char>>) -> (
    FinalizeStage<Seq<char>>,
    FinalizeAction<Seq<char>>,
) {
    match (stage, event) {
        (FinalizeStage::Start { live_id }, _) => match live_id {
            Some(id) => (FinalizeStage::Editing { id }, FinalizeAction::Edit { id }),
            None => (FinalizeStage::Sending, FinalizeAction::Send),
        },
        (FinalizeStage::Editing { id }, FinalizeEvent::Done) => (
            FinalizeStage::Ended,
            FinalizeAction::Finish { id: Some(id) },
        ),
        (FinalizeStage::Editing { id }, FinalizeEvent::Failed { error }) => (
            FinalizeStage::Deleting { edit_error: error },
            FinalizeAction::Delete,
        ),
        (FinalizeStage::Deleting { .. }, FinalizeEvent::Done) => (FinalizeStage::Sending, FinalizeAction::Send),
        (FinalizeStage::Deleting { edit_error }, FinalizeEvent::Failed { error }) => (
            FinalizeStage::Ended,
            FinalizeAction::Fail {
                error: "edit failed ("@ + edit_error
                    + "); refusing to send a duplicate because the stale live message could not be removed ("@
                    + error + ")"@,
            },
        ),
        (FinalizeStage::Sending, FinalizeEvent::Sent { id }) => (
            FinalizeStage::Ended,
            FinalizeAction::Finish { id },
        ),
        (_, FinalizeEvent::Failed { error }) => (FinalizeStage::Ended, FinalizeAction::Fail { error }),
        _ => (FinalizeStage::Ended, FinalizeAction::Fail { error: Seq::empty() }),
    }
}

/// Takes the next step of putting a reply in place of the live message: the
/// message is edited; where that fails it is taken down, and only then is the
/// reply sent anew.
pub fn finalize_reply(stage: FinalizeStage<String>, event: FinalizeEvent<String>) -> (r: (
    FinalizeStage<String>,
    FinalizeAction<String>,
))
    ensures
        (r.0@, r.1@) == finalize_next(stage@, event@),
{
    match (stage, event) {
        (FinalizeStage::Start { live_id }, _) => match live_id {
            Some(id) => (FinalizeStage::Editing { id }, FinalizeAction::Edit { id }),
            None => (FinalizeStage::Sending, FinalizeAction::Send),
        },
        (FinalizeStage::Editing { id }, FinalizeEvent::Done) => (
            FinalizeStage::Ended,
            FinalizeAction::Finish { id: Some(id) },
        ),
        (FinalizeStage::Editing { .. }, FinalizeEvent::Failed { error }) => (
            FinalizeStage::Deleting { edit_error: error },
            FinalizeAction::Delete,
        ),
        (FinalizeStage::Deleting { .. }, FinalizeEvent::Done) => (FinalizeStage::Sending, FinalizeAction::Send),
        (FinalizeStage::Deleting { edit_error }, FinalizeEvent::Failed { error }) => (
            FinalizeStage::Ended,
            FinalizeAction::Fail {
                error: "edit failed (".to_owned().concat(edit_error.as_str()).concat(
                    "); refusing to send a duplicate because the stale live message could not be removed (",
                ).concat(error.as_str()).concat(")"),
            },
        ),
        (FinalizeStage::Sending, FinalizeEvent::Sent { id }) => (
            FinalizeStage::Ended,
            FinalizeAction::Finish { id },
        ),
        (_, FinalizeEvent::Failed { error }) => (FinalizeStage::Ended, FinalizeAction::Fail { error }),
        _ => {
            let none = String::new();
            assert(none@ =~= Seq::<char>::empty());
            (FinalizeStage::Ended, FinalizeAction::Fail { error: none })
        },
    }
}

/// With a live message, a second message is sent only after the first was taken
/// down: the reply never stands twice.
pub proof fn law_a_reply_never_stands_twice(stage: FinalizeStage<Seq<char>>, event: FinalizeEvent<Seq<char>>)
    requires
        finalize_next(stage, event).1 is Send,
    ensures
        stage == (FinalizeStage::<Seq<char>>::Start { live_id: None }) || (stage is Deleting && event is Done),
{
}

/// A reply takes the place of the live message where there is one, and is sent
/// as a message of its own where there is none; the message that it stands in is
/// the one that is reported.
pub proof fn law_a_reply_ends_in_one_message(live_id: Option<i64>, begin: FinalizeEvent<Seq<char>>, id: Option<i64>)
    ensures
        ({
            let (stage, action) = finalize_next(FinalizeStage::Start { live_id }, begin);
            &&& live_id matches Some(live) ==> action == (FinalizeAction::<Seq<char>>::Edit { id: live })
                && finalize_next(stage, FinalizeEvent::Done) == (
                FinalizeStage::<Seq<char>>::Ended,
                FinalizeAction::<Seq<char>>::Finish { id: Some(live) },
            )
            &&& live_id is None ==> action is Send && finalize_next(stage, FinalizeEvent::Sent { id }) == (
                FinalizeStage::<Seq<char>>::Ended,
                FinalizeAction::<Seq<char>>::Finish { id },
            )
        }),
{
}

/// Where the live message cannot be edited it is taken down, and the reply is
/// sent anew; where it cannot be taken down either, both reasons are given and
/// nothing is sent.
pub proof fn law_a_stale_live_message_is_taken_down(
    id: i64,
    edit_error: Seq<char>,
    error: Seq<char>,
    sent: Option<i64>,
)
    ensures
        ({
            let (down, first) = finalize_next(
                FinalizeStage::Editing { id },
                FinalizeEvent::Failed { error: edit_error },
            );
            let (again, second) = finalize_next(down, FinalizeEvent::Done);
            let (stuck, third) = finalize_next(down, FinalizeEvent::Failed { error });
            &&& first is Delete
            &&& second is Send
            &&& finalize_next(again, FinalizeEvent::Sent { id: sent }).1 == (FinalizeAction::<Seq<char>>::Finish {
                id: sent,
            })
            &&& finalize_next(again, FinalizeEvent::Failed { error }).1 == (FinalizeAction::Fail { error })
            &&& stuck is Ended
            &&& third == (FinalizeAction::Fail {
                error: "edit failed ("@ + edit_error
                    + "); refusing to send a duplicate because the stale live message could not be removed ("@ + error
                    + ")"@,
            })
        }),
{
}

/// A tool is shown under its own title.
#[verifier::rlimit(40)]
pub proof fn law_a_tool_is_shown_under_its_title()
    ensures
        known_tool("bash"@) matches Some((_, title)) && title == "Bash"@,
        known_tool("exec"@) matches Some((_, title)) && title == "Bash"@,
        known_tool("shell"@) matches Some((_, title)) && title == "Bash"@,
        known_tool("process"@) matches Some((_, title)) && title == "Process"@,
        known_tool("read"@) matches Some((_, title)) && title == "Read"@,
        known_tool("write"@) matches Some((_, title)) && title == "Write"@,
        known_tool("edit"@) matches Some((_, title)) && title == "Edit"@,
        known_tool("apply_patch"@) matches Some((_, title)) && title == "Edit"@,
        known_tool("attach"@) matches Some((_, title)) && title == "Attach"@,
        known_tool("browser"@) matches Some((_, title)) && title == "Browser"@,
        known_tool("web_search"@) matches Some((_, title)) && title == "Web Search"@,
        known_tool("web_fetch"@) matches Some((_, title)) && title == "Web Fetch"@,
        known_tool("code_execution"@) matches Some((_, title)) && title == "Code Execution"@,
        known_tool("update_plan"@) matches Some((_, title)) && title == "Update Plan"@,
        known_tool("memory_search"@) matches Some((_, title)) && title == "Memory Search"@,
        known_tool("memory_get"@) matches Some((_, title)) && title == "Memory Get"@,
        known_tool("image"@) matches Some((_, title)) && title == "Image"@,
        known_tool("mcp_tool_call"@) matches Some((_, title)) && title == "Tool Call"@,
        known_tool("message"@) matches Some((_, title)) && title == "Message"@,
{
    reveal_strlit("bash");
    reveal_strlit("exec");
    reveal_strlit("shell");
    reveal_strlit("command");
    reveal_strlit("command_execution");
    reveal_strlit("process");
    reveal_strlit("read");
    reveal_strlit("write");
    reveal_strlit("edit");
    reveal_strlit("file_change");
    reveal_strlit("apply_patch");
    reveal_strlit("patch");
    reveal_strlit("attach");
    reveal_strlit("browser");
    reveal_strlit("browse");
    reveal_strlit("web_search");
    reveal_strlit("search");
    reveal_strlit("websearch");
    reveal_strlit("web_fetch");
    reveal_strlit("fetch");
    reveal_strlit("code_execution");
    reveal_strlit("update_plan");
    reveal_strlit("plan");
    reveal_strlit("todo_list");
    reveal_strlit("todo");
    reveal_strlit("memory_search");
    reveal_strlit("memory_get");
    reveal_strlit("image");
    reveal_strlit("image_generate");
    reveal_strlit("mcp_tool_call");
    reveal_strlit("tool_call");
    reveal_strlit("tool_call_update");
    reveal_strlit("message");
    assert("bash"@.len() == 4 && "bash"@[0] == 'b' && "bash"@[1] == 'a' && "bash"@[2] == 's' && "bash"@[3] == 'h');
    assert("exec"@.len() == 4 && "exec"@[0] == 'e' && "exec"@[1] == 'x' && "exec"@[2] == 'e' && "exec"@[3] == 'c');
    assert("shell"@.len() == 5 && "shell"@[0] == 's' && "shell"@[1] == 'h' && "shell"@[2] == 'e' && "shell"@[3] == 'l' && "shell"@[4] == 'l');
    assert("command"@.len() == 7 && "command"@[0] == 'c' && "command"@[1] == 'o' && "command"@[2] == 'm' && "command"@[3] == 'm' && "command"@[4] == 'a' && "command"@[5] == 'n' && "command"@[6] == 'd');
    assert("command_execution"@.len() == 17 && "command_execution"@[0] == 'c' && "command_execution"@[1] == 'o' && "command_execution"@[2] == 'm' && "command_execution"@[3] == 'm' && "command_execution"@[4] == 'a' && "command_execution"@[5] == 'n' && "command_execution"@[6] == 'd' && "command_execution"@[7] == '_' && "command_execution"@[8] == 'e');
    assert("process"@.len() == 7 && "process"@[0] == 'p' && "process"@[1] == 'r' && "process"@[2] == 'o' && "process"@[3] == 'c' && "process"@[4] == 'e' && "process"@[5] == 's' && "process"@[6] == 's');
    assert("read"@.len() == 4 && "read"@[0] == 'r' && "read"@[1] == 'e' && "read"@[2] == 'a' && "read"@[3] == 'd');
    assert("write"@.len() == 5 && "write"@[0] == 'w' && "write"@[1] == 'r' && "write"@[2] == 'i' && "write"@[3] == 't' && "write"@[4] == 'e');
    assert("edit"@.len() == 4 && "edit"@[0] == 'e' && "edit"@[1] == 'd' && "edit"@[2] == 'i' && "edit"@[3] == 't');
    assert("file_change"@.len() == 11 && "file_change"@[0] == 'f' && "file_change"@[1] == 'i' && "file_change"@[2] == 'l' && "file_change"@[3] == 'e' && "file_change"@[4] == '_' && "file_change"@[5] == 'c' && "file_change"@[6] == 'h' && "file_change"@[7] == 'a' && "file_change"@[8] == 'n');
    assert("apply_patch"@.len() == 11 && "apply_patch"@[0] == 'a' && "apply_patch"@[1] == 'p' && "apply_patch"@[2] == 'p' && "apply_patch"@[3] == 'l' && "apply_patch"@[4] == 'y' && "apply_patch"@[5] == '_' && "apply_patch"@[6] == 'p' && "apply_patch"@[7] == 'a' && "apply_patch"@[8] == 't');
    assert("patch"@.len() == 5 && "patch"@[0] == 'p' && "patch"@[1] == 'a' && "patch"@[2] == 't' && "patch"@[3] == 'c' && "patch"@[4] == 'h');
    assert("attach"@.len() == 6 && "attach"@[0] == 'a' && "attach"@[1] == 't' && "attach"@[2] == 't' && "attach"@[3] == 'a' && "attach"@[4] == 'c' && "attach"@[5] == 'h');
    assert("browser"@.len() == 7 && "browser"@[0] == 'b' && "browser"@[1] == 'r' && "browser"@[2] == 'o' && "browser"@[3] == 'w' && "browser"@[4] == 's' && "browser"@[5] == 'e' && "browser"@[6] == 'r');
    assert("browse"@.len() == 6 && "browse"@[0] == 'b' && "browse"@[1] == 'r' && "browse"@[2] == 'o' && "browse"@[3] == 'w' && "browse"@[4] == 's' && "browse"@[5] == 'e');
    assert("web_search"@.len() == 10 && "web_search"@[0] == 'w' && "web_search"@[1] == 'e' && "web_search"@[2] == 'b' && "web_search"@[3] == '_' && "web_search"@[4] == 's' && "web_search"@[5] == 'e' && "web_search"@[6] == 'a' && "web_search"@[7] == 'r' && "web_search"@[8] == 'c');
    assert("search"@.len() == 6 && "search"@[0] == 's' && "search"@[1] == 'e' && "search"@[2] == 'a' && "search"@[3] == 'r' && "search"@[4] == 'c' && "search"@[5] == 'h');
    assert("websearch"@.len() == 9 && "websearch"@[0] == 'w' && "websearch"@[1] == 'e' && "websearch"@[2] == 'b' && "websearch"@[3] == 's' && "websearch"@[4] == 'e' && "websearch"@[5] == 'a' && "websearch"@[6] == 'r' && "websearch"@[7] == 'c' && "websearch"@[8] == 'h');
    assert("web_fetch"@.len() == 9 && "web_fetch"@[0] == 'w' && "web_fetch"@[1] == 'e' && "web_fetch"@[2] == 'b' && "web_fetch"@[3] == '_' && "web_fetch"@[4] == 'f' && "web_fetch"@[5] == 'e' && "web_fetch"@[6] == 't' && "web_fetch"@[7] == 'c' && "web_fetch"@[8] == 'h');
    assert("fetch"@.len() == 5 && "fetch"@[0] == 'f' && "fetch"@[1] == 'e' && "fetch"@[2] == 't' && "fetch"@[3] == 'c' && "fetch"@[4] == 'h');
    assert("code_execution"@.len() == 14 && "code_execution"@[0] == 'c' && "code_execution"@[1] == 'o' && "code_execution"@[2] == 'd' && "code_execution"@[3] == 'e' && "code_execution"@[4] == '_' && "code_execution"@[5] == 'e' && "code_execution"@[6] == 'x' && "code_execution"@[7] == 'e' && "code_execution"@[8] == 'c');
    assert("update_plan"@.len() == 11 && "update_plan"@[0] == 'u' && "update_plan"@[1] == 'p' && "update_plan"@[2] == 'd' && "update_plan"@[3] == 'a' && "update_plan"@[4] == 't' && "update_plan"@[5] == 'e' && "update_plan"@[6] == '_' && "update_plan"@[7] == 'p' && "update_plan"@[8] == 'l');
    assert("plan"@.len() == 4 && "plan"@[0] == 'p' && "plan"@[1] == 'l' && "plan"@[2] == 'a' && "plan"@[3] == 'n');
    assert("todo_list"@.len() == 9 && "todo_list"@[0] == 't' && "todo_list"@[1] == 'o' && "todo_list"@[2] == 'd' && "todo_list"@[3] == 'o' && "todo_list"@[4] == '_' && "todo_list"@[5] == 'l' && "todo_list"@[6] == 'i' && "todo_list"@[7] == 's' && "todo_list"@[8] == 't');
    assert("todo"@.len() == 4 && "todo"@[0] == 't' && "todo"@[1] == 'o' && "todo"@[2] == 'd' && "todo"@[3] == 'o');
    assert("memory_search"@.len() == 13 && "memory_search"@[0] == 'm' && "memory_search"@[1] == 'e' && "memory_search"@[2] == 'm' && "memory_search"@[3] == 'o' && "memory_search"@[4] == 'r' && "memory_search"@[5] == 'y' && "memory_search"@[6] == '_' && "memory_search"@[7] == 's' && "memory_search"@[8] == 'e');
    assert("memory_get"@.len() == 10 && "memory_get"@[0] == 'm' && "memory_get"@[1] == 'e' && "memory_get"@[2] == 'm' && "memory_get"@[3] == 'o' && "memory_get"@[4] == 'r' && "memory_get"@[5] == 'y' && "memory_get"@[6] == '_' && "memory_get"@[7] == 'g' && "memory_get"@[8] == 'e');
    assert("image"@.len() == 5 && "image"@[0] == 'i' && "image"@[1] == 'm' && "image"@[2] == 'a' && "image"@[3] == 'g' && "image"@[4] == 'e');
    assert("image_generate"@.len() == 14 && "image_generate"@[0] == 'i' && "image_generate"@[1] == 'm' && "image_generate"@[2] == 'a' && "image_generate"@[3] == 'g' && "image_generate"@[4] == 'e' && "image_generate"@[5] == '_' && "image_generate"@[6] == 'g' && "image_generate"@[7] == 'e' && "image_generate"@[8] == 'n');
    assert("mcp_tool_call"@.len() == 13 && "mcp_tool_call"@[0] == 'm' && "mcp_tool_call"@[1] == 'c' && "mcp_tool_call"@[2] == 'p' && "mcp_tool_call"@[3] == '_' && "mcp_tool_call"@[4] == 't' && "mcp_tool_call"@[5] == 'o' && "mcp_tool_call"@[6] == 'o' && "mcp_tool_call"@[7] == 'l' && "mcp_tool_call"@[8] == '_');
    assert("tool_call"@.len() == 9 && "tool_call"@[0] == 't' && "tool_call"@[1] == 'o' && "tool_call"@[2] == 'o' && "tool_call"@[3] == 'l' && "tool_call"@[4] == '_' && "tool_call"@[5] == 'c' && "tool_call"@[6] == 'a' && "tool_call"@[7] == 'l' && "tool_call"@[8] == 'l');
    assert("tool_call_update"@.len() == 16 && "tool_call_update"@[0] == 't' && "tool_call_update"@[1] == 'o' && "tool_call_update"@[2] == 'o' && "tool_call_update"@[3] == 'l' && "tool_call_update"@[4] == '_' && "tool_call_update"@[5] == 'c' && "tool_call_update"@[6] == 'a' && "tool_call_update"@[7] == 'l' && "tool_call_update"@[8] == 'l');
    assert("message"@.len() == 7 && "message"@[0] == 'm' && "message"@[1] == 'e' && "message"@[2] == 's' && "message"@[3] == 's' && "message"@[4] == 'a' && "message"@[5] == 'g' && "message"@[6] == 'e');
}

/// The line of a tool ends with what it was asked for, in one line; a shell
/// command stands for itself, any other under the title of its tool.
pub proof fn law_a_tool_line_tells_what_was_asked(key: Seq<char>, raw: Seq<char>)
    ensures
        ({
            let line = tool_line(key, raw);
            let detail = t::joined(t::words_of(t::trimmed(raw)), " "@);
            let (sign, title) = displayed(key);
            &&& t::starts(line, sign)
            &&& detail.len() > 0 ==> t::ends(line, detail)
            &&& detail.len() > 0 && (key == "bash"@ || key == "exec"@) ==> line == sign + " "@ + detail
            &&& detail.len() > 0 && key != "bash"@ && key != "exec"@ ==> t::has(line, title)
            &&& detail.len() == 0 ==> t::ends(line, title)
        }),
{
    let line = tool_line(key, raw);
    let detail = t::joined(t::words_of(t::trimmed(raw)), " "@);
    let (sign, title) = displayed(key);
    assert(line.subrange(0, sign.len() as int) =~= sign);
    if detail.len() == 0 {
        assert(line.subrange(line.len() - title.len(), line.len() as int) =~= title);
    } else {
        assert(line.subrange(line.len() - detail.len(), line.len() as int) =~= detail);
        if key != "bash"@ && key != "exec"@ {
            t::lemma_has_part(sign + " "@, title, ": "@ + detail);
            assert(sign + " "@ + title + (": "@ + detail) =~= line);
        }
    }
}

/// An event of a tool names the tool in front of the separator, and what it was
/// asked for behind it; without a separator it is a shell command.
pub proof fn law_a_tool_event_names_its_tool(key: Seq<char>, detail: Seq<char>)
    requires
        forall|i: int| 0 <= i < key.len() ==> #[trigger] key[i] != '\u{1f}',
        forall|i: int| 0 <= i < detail.len() ==> #[trigger] detail[i] != '\u{1f}',
    ensures
        tool_event(key + seq!['\u{1f}'] + detail) == (t::trimmed(key), detail),
        tool_event(detail).0 == "bash"@,
        tool_event("running: "@ + detail).1 == detail,
{
    reveal_strlit("\u{1f}");
    reveal_strlit("running: ");
    assert("\u{1f}"@ =~= seq!['\u{1f}']);
    t::lemma_cut_char(key, '\u{1f}', detail);
    t::lemma_find_char(detail, '\u{1f}');
    let run = "running: "@ + detail;
    assert forall|j: int| 0 <= j < run.len() implies #[trigger] run[j] != '\u{1f}' by {
        if j >= 9 {
            assert(run[j] == detail[j - 9]);
        }
    }
    t::lemma_find_char(run, '\u{1f}');
    assert(run.subrange(0, 9) =~= "running: "@);
    assert(run.skip(9) =~= detail);
}

/// What happened is gathered in its order: each tool is added, the last text
/// counts, and a failure is kept; a turn begins with none of it.
pub proof fn law_progress_is_gathered(events: Seq<ProgressEvent>, e: ProgressEvent)
    ensures
        ({
            let before = progress_of(events);
            let after = progress_of(events.push(e));
            &&& e.kind@ == "tool"@ ==> after.tools == before.tools.push(tool_event(e.text@)) && after.text == before.text
                && after.failed == before.failed
            &&& e.kind@ == "text"@ ==> after.text == e.text@ && after.tools == before.tools && after.failed
                == before.failed
            &&& e.kind@ == "status"@ ==> after.tools == before.tools && after.text == before.text && (after.failed
                <==> before.failed || e.text@ == "error"@)
            &&& e.kind@ != "tool"@ && e.kind@ != "text"@ && e.kind@ != "status"@ ==> after == before
        }),
        progress_of(Seq::empty()).tools.len() == 0,
        progress_of(Seq::empty()).text.len() == 0,
        !progress_of(Seq::empty()).failed,
{
    reveal_strlit("tool");
    reveal_strlit("text");
    reveal_strlit("status");
    assert("tool"@.len() == 4 && "tool"@[0] == 't' && "tool"@[1] == 'o' && "tool"@[2] == 'o' && "tool"@[3] == 'l');
    assert("text"@.len() == 4 && "text"@[0] == 't' && "text"@[1] == 'e' && "text"@[2] == 'x' && "text"@[3] == 't');
    assert("status"@.len() == 6 && "status"@[0] == 's' && "status"@[1] == 't' && "status"@[2] == 'a' && "status"@[3] == 't' && "status"@[4] == 'u' && "status"@[5] == 's');
    assert(events.push(e).drop_last() =~= events);
    assert(events.push(e).last() == e);
}

/// While only text has come, the text is shown; where nothing has come but a
/// failure, the failure is; and where nothing has come, nothing.
pub proof fn law_the_live_text_shows_what_there_is(text: Seq<char>, failed: bool)
    ensures
        ({
            let none = Seq::<(Seq<char>, Seq<char>)>::empty();
            let spoken = progress_html(Progress { tools: none, text, failed });
            &&& 0 < t::trimmed(text).len() <= 3000 ==> spoken == escaped(t::trimmed(text))
            &&& t::trimmed(text).len() == 0 && failed ==> spoken == "<pre>error</pre>"@
            &&& t::trimmed(text).len() == 0 && !failed ==> spoken.len() == 0
        }),
{
    let none = Seq::<(Seq<char>, Seq<char>)>::empty();
    assert(tool_block(none, 0, 0) =~= Seq::<char>::empty());
    assert(t::trimmed_end(Seq::<char>::empty()) =~= Seq::<char>::empty());
}

/// The last eight tools are shown, each in its line.
pub proof fn law_the_last_tools_are_shown(tools: Seq<(Seq<char>, Seq<char>)>, i: int)
    requires
        0 <= i < tools.len(),
        i + 8 >= tools.len(),
        tool_line(tools[i].0, tools[i].1).len() <= 160,
    ensures
        t::has(
            tool_block(tools, last_eight(tools.len()), tools.len() as int),
            tool_line(tools[i].0, tools[i].1) + "\n"@,
        ),
        tools.len() > 8 ==> last_eight(tools.len()) == tools.len() - 8,
        tools.len() <= 8 ==> last_eight(tools.len()) == 0,
{
    lemma_tool_block(tools, last_eight(tools.len()), tools.len() as int, i);
}

proof fn lemma_tool_block(tools: Seq<(Seq<char>, Seq<char>)>, a: int, b: int, i: int)
    requires
        0 <= a <= i < b <= tools.len(),
        tool_line(tools[i].0, tools[i].1).len() <= 160,
    ensures
        t::has(tool_block(tools, a, b), tool_line(tools[i].0, tools[i].1) + "\n"@),
    decreases b - a,
{
    let x = tool_line(tools[i].0, tools[i].1) + "\n"@;
    let front = tool_block(tools, a, b - 1);
    let last = t::truncated(tool_line(tools[b - 1].0, tools[b - 1].1), 160) + "\n"@;
    let e = Seq::<char>::empty();
    assert(tool_block(tools, a, b) =~= front + last);
    if i == b - 1 {
        t::lemma_has_part(front, x, e);
        assert(front + x + e =~= front + last);
    } else {
        lemma_tool_block(tools, a, b - 1, i);
        t::lemma_has_inside(e, front, last, x);
        assert(e + front + last =~= front + last);
    }
}

/// A reply that could neither be edited nor sent anew is told with both errors.
pub proof fn law_a_stuck_reply_tells_both_errors(edit_error: Seq<char>, error: Seq<char>)
    ensures
        ({
            let stage: FinalizeStage<Seq<char>> = FinalizeStage::Deleting { edit_error };
            finalize_next(stage, FinalizeEvent::Failed { error }).1 matches FinalizeAction::Fail { error: told } && t::has(
                told,
                edit_error,
            ) && t::has(told, error)
        }),
{
    let a = "edit failed ("@;
    let b = "); refusing to send a duplicate because the stale live message could not be removed ("@;
    let z = ")"@;
    let all = a + edit_error + b + error + z;
    t::lemma_has_part(a, edit_error, b + error + z);
    assert(a + edit_error + (b + error + z) =~= all);
    t::lemma_has_part(a + edit_error + b, error, z);
}

} // verus!
