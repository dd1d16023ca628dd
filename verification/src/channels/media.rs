//! Documents and photos that come through a chat.

use crate::text as t;
use vstd::prelude::*;
use vstd::string::*;

verus! {

/// The largest file that is fetched from Telegram, in bytes.
pub const MAX_TELEGRAM_DOCUMENT_BYTES: u64 = 19_922_944;

pub open spec fn plain_char(c: char) -> char {
    if t::ascii_alnum(c) || c == '-' || c == '_' || c == '.' || c == ' ' {
        c
    } else {
        '-'
    }
}

pub open spec fn dots_and_spaces() -> spec_fn(char) -> bool {
    |c: char| c == '.' || t::space(c)
}

/// A file name without anything that could lead out of a directory; `document`
/// where nothing is left.
pub open spec fn clean_name(name: Option<Seq<char>>) -> Seq<char> {
    let raw = match name {
        Some(n) => n,
        None => "document"@,
    };
    let cleaned = t::trim_by(raw.map_values(|c: char| plain_char(c)), dots_and_spaces());
    if cleaned.len() == 0 {
        "document"@
    } else {
        cleaned
    }
}

fn is_dot_or_space(c: char) -> (r: bool)
    ensures
        r == (dots_and_spaces())(c),
{
    c == '.' || t::is_space(c)
}

proof fn lemma_trim_start(s: Seq<char>, p: spec_fn(char) -> bool, a: int)
    requires
        0 <= a <= s.len(),
        forall|k: int| 0 <= k < a ==> p(#[trigger] s[k]),
        a < s.len() ==> !p(s[a]),
    ensures
        t::trim_start_by(s, p) == s.skip(a),
    decreases a,
{
    if a == 0 {
        assert(s.skip(0) =~= s);
    } else {
        let rest = s.skip(1);
        assert forall|k: int| 0 <= k < a - 1 implies p(#[trigger] rest[k]) by {
            assert(rest[k] == s[k + 1]);
        }
        lemma_trim_start(rest, p, a - 1);
        assert(rest.skip(a - 1) =~= s.skip(a));
        assert(p(s[0]));
    }
}

proof fn lemma_trim_end(s: Seq<char>, p: spec_fn(char) -> bool, b: int)
    requires
        0 <= b <= s.len(),
        forall|k: int| b <= k < s.len() ==> p(#[trigger] s[k]),
        b > 0 ==> !p(s[b - 1]),
    ensures
        t::trim_end_by(s, p) == s.take(b),
    decreases s.len() - b,
{
    if b == s.len() {
        assert(s.take(b) =~= s);
        if b > 0 {
            assert(s.last() == s[b - 1]);
        }
    } else {
        let rest = s.drop_last();
        assert forall|k: int| b <= k < rest.len() implies p(#[trigger] rest[k]) by {
            assert(rest[k] == s[k]);
        }
        lemma_trim_end(rest, p, b);
        assert(rest.take(b) =~= s.take(b));
        assert(p(s[s.len() - 1]));
        assert(s.last() == s[s.len() - 1]);
    }
}

/// A name under which an uploaded file can be kept.
pub fn sanitize_document_name(name: Option<&str>) -> (r: String)
    ensures
        r@ == clean_name(t::opt_str(name)),
{
    let raw = match name {
        Some(n) => n,
        None => "document",
    };
    let v = t::chars_of(raw);
    let ghost all = raw@.map_values(|c: char| plain_char(c));
    let mut w: Vec<char> = Vec::new();
    let mut i: usize = 0;
    while i < v.len()
        invariant
            i <= v.len(),
            v@ == raw@,
            all == raw@.map_values(|c: char| plain_char(c)),
            w.len() == i,
            forall|k: int| 0 <= k < i ==> (#[trigger] w@[k]) == all[k],
        decreases v.len() - i,
    {
        let c = v[i];
        if t::is_ascii_alnum(c) || c == '-' || c == '_' || c == '.' || c == ' ' {
            w.push(c);
        } else {
            w.push('-');
        }
        i += 1;
    }
    assert(w@ =~= all);
    let ghost p = dots_and_spaces();
    let mut a: usize = 0;
    while a < w.len() && is_dot_or_space(w[a])
        invariant
            a <= w.len(),
            p == dots_and_spaces(),
            forall|k: int| 0 <= k < a ==> p(#[trigger] w@[k]),
        decreases w.len() - a,
    {
        a += 1;
    }
    let mut b: usize = w.len();
    while b > a && is_dot_or_space(w[b - 1])
        invariant
            a <= b <= w.len(),
            p == dots_and_spaces(),
            forall|k: int| b <= k < w.len() ==> p(#[trigger] w@[k]),
        decreases b,
    {
        b -= 1;
    }
    proof {
        lemma_trim_start(all, p, a as int);
        let rest = all.skip(a as int);
        assert forall|k: int| b - a <= k < rest.len() implies p(#[trigger] rest[k]) by {
            assert(rest[k] == w@[k + a]);
        }
        if b > a {
            assert(rest[b - a - 1] == w@[b - 1]);
        }
        lemma_trim_end(rest, p, b - a);
        assert(rest.take(b - a) =~= all.subrange(a as int, b as int));
    }
    if a == b {
        "document".to_owned()
    } else {
        t::string_of(&w, a, b)
    }
}

proof fn lemma_trim_kept(s: Seq<char>, p: spec_fn(char) -> bool)
    ensures
        forall|k: int| 0 <= k < t::trim_by(s, p).len() ==> s.contains(#[trigger] t::trim_by(s, p)[k]),
        t::trim_by(s, p).len() > 0 ==> !p(t::trim_by(s, p)[0]) && !p(t::trim_by(s, p).last()),
{
    lemma_start_kept(s, p);
    let a = t::trim_start_by(s, p);
    lemma_end_kept(a, p);
    let r = t::trim_by(s, p);
    assert forall|k: int| 0 <= k < r.len() implies s.contains(#[trigger] r[k]) by {
        assert(r[k] == a[k]);
        assert(s.contains(a[k]));
    }
    if r.len() > 0 {
        assert(r[0] == a[0]);
    }
}

proof fn lemma_start_kept(s: Seq<char>, p: spec_fn(char) -> bool)
    ensures
        forall|k: int| 0 <= k < t::trim_start_by(s, p).len() ==> s.contains(#[trigger] t::trim_start_by(s, p)[k]),
        t::trim_start_by(s, p).len() > 0 ==> !p(t::trim_start_by(s, p)[0]),
    decreases s.len(),
{
    if s.len() > 0 && p(s[0]) {
        let rest = s.skip(1);
        lemma_start_kept(rest, p);
        let r = t::trim_start_by(s, p);
        assert forall|k: int| 0 <= k < r.len() implies s.contains(#[trigger] r[k]) by {
            assert(rest.contains(r[k]));
            let j = choose|j: int| 0 <= j < rest.len() && rest[j] == r[k];
            assert(s[j + 1] == r[k]);
        }
    }
}

proof fn lemma_end_kept(s: Seq<char>, p: spec_fn(char) -> bool)
    ensures
        t::trim_end_by(s, p).len() <= s.len(),
        t::trim_end_by(s, p) == s.take(t::trim_end_by(s, p).len() as int),
        t::trim_end_by(s, p).len() > 0 ==> !p(t::trim_end_by(s, p).last()),
    decreases s.len(),
{
    if s.len() > 0 && p(s.last()) {
        lemma_end_kept(s.drop_last(), p);
        let n = t::trim_end_by(s, p).len() as int;
        assert(s.drop_last().take(n) =~= s.take(n));
    } else {
        assert(s.take(s.len() as int) =~= s);
    }
}

/// A kept file stays in its directory: its name has no separator, and is neither
/// empty nor a step upwards.
pub proof fn law_a_clean_name_stays_in_its_directory(name: Option<Seq<char>>)
    ensures
        clean_name(name).len() > 0,
        !clean_name(name).contains('/'),
        !clean_name(name).contains('\\'),
        clean_name(name)[0] != '.',
{
    reveal_strlit("document");
    let raw = match name {
        Some(n) => n,
        None => "document"@,
    };
    let mapped = raw.map_values(|c: char| plain_char(c));
    let p = dots_and_spaces();
    lemma_trim_kept(mapped, p);
    let cleaned = t::trim_by(mapped, p);
    if cleaned.len() > 0 {
        assert(clean_name(name) == cleaned);
        assert forall|c: char| (c == '/' || c == '\\') implies !#[trigger] cleaned.contains(c) by {
            if cleaned.contains(c) {
                let k = choose|k: int| 0 <= k < cleaned.len() && cleaned[k] == c;
                assert(mapped.contains(cleaned[k]));
                let j = choose|j: int| 0 <= j < mapped.len() && mapped[j] == c;
                assert(mapped[j] == plain_char(raw[j]));
            }
        }
    } else {
        let d = "document"@;
        assert(clean_name(name) == d);
        assert(!d.contains('/') && !d.contains('\\'));
    }
}

/// A kept file's name is plain: ASCII letters and digits, hyphens, underscores,
/// dots and blanks, with neither a dot nor a blank at either end.
pub proof fn law_a_clean_name_is_plain(name: Option<Seq<char>>)
    ensures
        forall|k: int| 0 <= k < clean_name(name).len() ==> plain_char(#[trigger] clean_name(name)[k]) == clean_name(name)[k],
        !(dots_and_spaces())(clean_name(name)[0]),
        !(dots_and_spaces())(clean_name(name).last()),
{
    reveal_strlit("document");
    let raw = match name {
        Some(n) => n,
        None => "document"@,
    };
    let mapped = raw.map_values(|c: char| plain_char(c));
    lemma_trim_kept(mapped, dots_and_spaces());
    let cleaned = t::trim_by(mapped, dots_and_spaces());
    if cleaned.len() > 0 {
        assert forall|k: int| 0 <= k < cleaned.len() implies plain_char(#[trigger] cleaned[k]) == cleaned[k] by {
            assert(mapped.contains(cleaned[k]));
            let j = choose|j: int| 0 <= j < mapped.len() && mapped[j] == cleaned[k];
            assert(mapped[j] == plain_char(raw[j]));
        }
    }
}

/// A clean name stays as it is.
pub proof fn law_a_clean_name_is_kept(name: Option<Seq<char>>)
    ensures
        clean_name(Some(clean_name(name))) == clean_name(name),
{
    law_a_clean_name_stays_in_its_directory(name);
    law_a_clean_name_is_plain(name);
    let clean = clean_name(name);
    let mapped = clean.map_values(|c: char| plain_char(c));
    assert forall|k: int| 0 <= k < clean.len() implies (#[trigger] mapped[k]) == clean[k] by {
        assert(plain_char(clean[k]) == clean[k]);
    }
    assert(mapped =~= clean);
}

// ---------------------------------------------------------------------------
// Documents
// ---------------------------------------------------------------------------

/// The kinds of document that can be ingested.
pub open spec fn supported_exts() -> Seq<Seq<char>> {
    seq![
        "pdf"@,
        "pptx"@,
        "docx"@,
        "md"@,
        "markdown"@,
        "txt"@,
        "text"@,
        "html"@,
        "htm"@,
        "json"@,
    ]
}

pub fn supported_ext_names() -> (r: Vec<String>)
    ensures
        t::texts(r@) == supported_exts(),
{
    let mut r: Vec<String> = Vec::new();
    r.push("pdf".to_owned());
    r.push("pptx".to_owned());
    r.push("docx".to_owned());
    r.push("md".to_owned());
    r.push("markdown".to_owned());
    r.push("txt".to_owned());
    r.push("text".to_owned());
    r.push("html".to_owned());
    r.push("htm".to_owned());
    r.push("json".to_owned());
    assert(t::texts(r@) =~= supported_exts());
    r
}

/// What stands behind the last dot, in lower case; nothing where there is none.
pub open spec fn extension(name: Seq<char>) -> Option<Seq<char>>
    decreases name.len(),
{
    match t::cut(name, "."@) {
        Some((_, rest)) => if rest.len() >= name.len() {
            None
        } else {
            match extension(rest) {
                Some(e) => Some(e),
                None => Some(t::lower(rest)),
            }
        },
        None => None,
    }
}

pub fn extension_text(name: &str) -> (r: Option<String>)
    ensures
        t::opt_view(r) == extension(name@),
    decreases name@.len(),
{
    proof {
        reveal_strlit(".");
        t::lemma_find_has(name@, "."@);
    }
    match t::split_once(name, ".") {
        Some((_, rest)) => {
            assert(rest@.len() < name@.len());
            match extension_text(rest.as_str()) {
                Some(e) => Some(e),
                None => Some(t::to_lower(rest.as_str())),
            }
        },
        None => None,
    }
}

pub open spec fn ingestible(name: Seq<char>) -> bool {
    extension(name) is Some && supported_exts().contains(extension(name)->0)
}

/// Whether a document can be ingested, by its name.
pub fn is_ingestible(name: &str) -> (r: bool)
    ensures
        r == ingestible(name@),
{
    match extension_text(name) {
        Some(e) => t::list_has(&supported_ext_names(), e.as_str()),
        None => false,
    }
}

/// What is done about an uploaded document.
#[derive(Debug, PartialEq, Eq)]
pub enum DocumentStep<S> {
    Refuse { text: S },
    /// Fetch the document under this name and ingest it.
    Ingest { file_name: S },
}

impl View for DocumentStep<String> {
    type V = DocumentStep<Seq<char>>;

    open spec fn view(&self) -> DocumentStep<Seq<char>> {
        match self {
            DocumentStep::Refuse { text } => DocumentStep::Refuse { text: text@ },
            DocumentStep::Ingest { file_name } => DocumentStep::Ingest { file_name: file_name@ },
        }
    }
}

pub open spec fn document_step(name: Option<Seq<char>>, size: Option<i64>, graph: bool) -> DocumentStep<Seq<char>> {
    let file_name = clean_name(name);
    if !graph {
        DocumentStep::Refuse {
            text: "I received the document, but my knowledge graph is not enabled, so I cannot store it. Enable `knowledge_graph` in MATURANA.md and set up the graph service."@,
        }
    } else if size is Some && size->0 > MAX_TELEGRAM_DOCUMENT_BYTES {
        DocumentStep::Refuse {
            text: "That document is larger than 19 MB, which is more than I can pull from Telegram. Please send a smaller file."@,
        }
    } else if !ingestible(file_name) {
        DocumentStep::Refuse {
            text: "I can ingest these document types: "@ + t::joined(supported_exts(), ", "@) + ". `"@ + file_name
                + "` is not one of them."@,
        }
    } else {
        DocumentStep::Ingest { file_name }
    }
}

/// Decides about an uploaded document; `graph` says whether the agent's knowledge
/// graph is at hand.
pub fn handle_telegram_document(name: Option<&str>, size: Option<i64>, graph: bool) -> (r: DocumentStep<String>)
    ensures
        r@ == document_step(t::opt_str(name), size, graph),
{
    let file_name = sanitize_document_name(name);
    let too_large = match size {
        Some(n) => n > MAX_TELEGRAM_DOCUMENT_BYTES as i64,
        None => false,
    };
    if !graph {
        DocumentStep::Refuse {
            text: "I received the document, but my knowledge graph is not enabled, so I cannot store it. Enable `knowledge_graph` in MATURANA.md and set up the graph service.".to_owned(),
        }
    } else if too_large {
        DocumentStep::Refuse {
            text: "That document is larger than 19 MB, which is more than I can pull from Telegram. Please send a smaller file.".to_owned(),
        }
    } else if !is_ingestible(file_name.as_str()) {
        DocumentStep::Refuse {
            text: "I can ingest these document types: ".to_owned().concat(
                t::join(&supported_ext_names(), ", ").as_str(),
            ).concat(". `").concat(file_name.as_str()).concat("` is not one of them."),
        }
    } else {
        DocumentStep::Ingest { file_name }
    }
}

/// What is noted, recorded and said of an upload.
#[derive(Debug, PartialEq, Eq)]
pub struct UploadReport<S> {
    pub action: S,
    pub audit: S,
    /// What is recorded as the user's turn, where the upload was taken in.
    pub note: Option<S>,
    pub reply: S,
}

impl View for UploadReport<String> {
    type V = UploadReport<Seq<char>>;

    open spec fn view(&self) -> UploadReport<Seq<char>> {
        UploadReport {
            action: self.action@,
            audit: self.audit@,
            note: t::opt_view(self.note),
            reply: self.reply@,
        }
    }
}

/// A note with the caption behind it, where there is one.
pub open spec fn captioned(note: Seq<char>, caption: Option<Seq<char>>) -> Seq<char> {
    match caption {
        Some(c) => if t::trimmed(c).len() > 0 {
            note + " "@ + t::trimmed(c)
        } else {
            note
        },
        None => note,
    }
}

fn add_caption(note: String, caption: Option<&str>) -> (r: String)
    ensures
        r@ == captioned(note@, t::opt_str(caption)),
{
    match caption {
        Some(c) => {
            let text = t::trim(c);
            if !text.as_str().is_empty() {
                note.concat(" ").concat(text.as_str())
            } else {
                note
            }
        },
        None => note,
    }
}

pub open spec fn document_report(
    file_name: Seq<char>,
    graph_name: Seq<char>,
    caption: Option<Seq<char>>,
    chunks: nat,
) -> UploadReport<Seq<char>> {
    UploadReport {
        action: "channel.telegram.document"@,
        audit: "ingested "@ + file_name + " into graph '"@ + graph_name + "' ("@ + t::decimal(chunks)
            + " chunks)"@,
        note: Some(captioned("[uploaded document: "@ + file_name + "]"@, caption)),
        reply: "Added `"@ + file_name + "` to my knowledge graph `"@ + graph_name + "` ("@ + t::decimal(chunks)
            + " chunks). Ask me about it any time."@,
    }
}

pub open spec fn document_error_report(file_name: Seq<char>, error: Seq<char>) -> UploadReport<Seq<char>> {
    UploadReport {
        action: "channel.telegram.document_error"@,
        audit: "failed to ingest "@ + file_name + ": "@ + error,
        note: None,
        reply: "I could not ingest `"@ + file_name + "`: "@ + error,
    }
}

/// What is said of a document that was to be ingested.
pub fn report_document(
    file_name: &str,
    graph_name: &str,
    caption: Option<&str>,
    result: Result<usize, &str>,
) -> (r: UploadReport<String>)
    ensures
        r@ == match result {
            Ok(chunks) => document_report(file_name@, graph_name@, t::opt_str(caption), chunks as nat),
            Err(error) => document_error_report(file_name@, error@),
        },
{
    match result {
        Ok(chunks) => {
            let n = t::usize_text(chunks);
            UploadReport {
                action: "channel.telegram.document".to_owned(),
                audit: "ingested ".to_owned().concat(file_name).concat(" into graph '").concat(
                    graph_name,
                ).concat("' (").concat(n.as_str()).concat(" chunks)"),
                note: Some(
                    add_caption(
                        "[uploaded document: ".to_owned().concat(file_name).concat("]"),
                        caption,
                    ),
                ),
                reply: "Added `".to_owned().concat(file_name).concat("` to my knowledge graph `").concat(
                    graph_name,
                ).concat("` (").concat(n.as_str()).concat(" chunks). Ask me about it any time."),
            }
        },
        Err(error) => UploadReport {
            action: "channel.telegram.document_error".to_owned(),
            audit: "failed to ingest ".to_owned().concat(file_name).concat(": ").concat(error),
            note: None,
            reply: "I could not ingest `".to_owned().concat(file_name).concat("`: ").concat(error),
        },
    }
}

// ---------------------------------------------------------------------------
// Photos
// ---------------------------------------------------------------------------

/// The prompt for an image that lies in the agent's workspace.
pub open spec fn vision_prompt(caption: Option<Seq<char>>, guest_path: Seq<char>) -> Seq<char> {
    if caption is Some && t::trimmed(caption->0).len() > 0 {
        t::trimmed(caption->0) + "\n\n[The user attached an image, saved in your workspace at "@ + guest_path
            + ". Open and view it to answer.]"@
    } else {
        "[The user sent an image, saved in your workspace at "@ + guest_path
            + ". Open and view it, then describe it or act on it.]"@
    }
}

pub fn vision_prompt_text(caption: Option<&str>, guest_path: &str) -> (r: String)
    ensures
        r@ == vision_prompt(t::opt_str(caption), guest_path@),
{
    let words = match caption {
        Some(c) => t::trim(c),
        None => String::new(),
    };
    if !words.as_str().is_empty() {
        words.concat("\n\n[The user attached an image, saved in your workspace at ").concat(
            guest_path,
        ).concat(". Open and view it to answer.]")
    } else {
        "[The user sent an image, saved in your workspace at ".to_owned().concat(guest_path).concat(
            ". Open and view it, then describe it or act on it.]",
        )
    }
}

/// Where the handling of a photo stands.
#[derive(Debug, PartialEq, Eq)]
pub enum PhotoStage<S> {
    Fetching,
    Delivering,
    /// The agent's machine is out of reach: is the graph at hand?
    Choosing,
    Reading { graph_name: S },
    Storing { graph_name: S, chars: usize },
    Ended,
}

#[derive(Debug, PartialEq, Eq)]
pub enum PhotoEvent<S> {
    Fetched,
    /// The image lies in the agent's workspace.
    Delivered { guest_path: S },
    /// The name of the agent's graph, where it is at hand.
    Graph { name: Option<S> },
    /// What was read in the image.
    Text { text: S },
    Stored { chunks: usize },
    Failed { error: S },
}

#[derive(Debug, PartialEq, Eq)]
pub enum PhotoAction<S> {
    /// Put the image into the agent's workspace.
    Deliver,
    /// Say this, and end.
    Reply { text: S },
    /// Note this, and hand the prompt to the agent.
    Look { action: S, audit: S, prompt: S },
    /// Note this, and look for the graph.
    FallBack { action: S, audit: S },
    /// Read the text in the image.
    Recognize,
    /// Keep this text and ingest it.
    Store { document: S },
    /// Note, record and say this, and end.
    Report { report: UploadReport<S> },
    /// Nothing is left to do.
    Nothing,
}

impl View for PhotoStage<String> {
    type V = PhotoStage<Seq<char>>;

    open spec fn view(&self) -> PhotoStage<Seq<char>> {
        match self {
            PhotoStage::Fetching => PhotoStage::Fetching,
            PhotoStage::Delivering => PhotoStage::Delivering,
            PhotoStage::Choosing => PhotoStage::Choosing,
            PhotoStage::Reading { graph_name } => PhotoStage::Reading { graph_name: graph_name@ },
            PhotoStage::Storing { graph_name, chars } => PhotoStage::Storing {
                graph_name: graph_name@,
                chars: *chars,
            },
            PhotoStage::Ended => PhotoStage::Ended,
        }
    }
}

impl View for PhotoEvent<String> {
    type V = PhotoEvent<Seq<char>>;

    open spec fn view(&self) -> PhotoEvent<Seq<char>> {
        match self {
            PhotoEvent::Fetched => PhotoEvent::Fetched,
            PhotoEvent::Delivered { guest_path } => PhotoEvent::Delivered { guest_path: guest_path@ },
            PhotoEvent::Graph { name } => PhotoEvent::Graph { name: t::opt_view(*name) },
            PhotoEvent::Text { text } => PhotoEvent::Text { text: text@ },
            PhotoEvent::Stored { chunks } => PhotoEvent::Stored { chunks: *chunks },
            PhotoEvent::Failed { error } => PhotoEvent::Failed { error: error@ },
        }
    }
}

impl View for PhotoAction<String> {
    type V = PhotoAction<Seq<char>>;

    open spec fn view(&self) -> PhotoAction<Seq<char>> {
        match self {
            PhotoAction::Deliver => PhotoAction::Deliver,
            PhotoAction::Reply { text } => PhotoAction::Reply { text: text@ },
            PhotoAction::Look { action, audit, prompt } => PhotoAction::Look {
                action: action@,
                audit: audit@,
                prompt: prompt@,
            },
            PhotoAction::FallBack { action, audit } => PhotoAction::FallBack { action: action@, audit: audit@ },
            PhotoAction::Recognize => PhotoAction::Recognize,
            PhotoAction::Store { document } => PhotoAction::Store { document: document@ },
            PhotoAction::Report { report } => PhotoAction::Report { report: report@ },
            PhotoAction::Nothing => PhotoAction::Nothing,
        }
    }
}

/// The document that is kept of an image: the caption as its heading, and what
/// was read.
pub open spec fn ocr_document(caption: Option<Seq<char>>, text: Seq<char>) -> Seq<char> {
    if caption is Some && t::trimmed(caption->0).len() > 0 {
        "# "@ + t::trimmed(caption->0) + "\n\n"@ + t::trimmed(text)
    } else {
        t::trimmed(text)
    }
}

fn ocr_document_text(caption: Option<&str>, text: &str) -> (r: String)
    ensures
        r@ == ocr_document(t::opt_str(caption), text@),
{
    let words = match caption {
        Some(c) => t::trim(c),
        None => String::new(),
    };
    let body = t::trim(text);
    if !words.as_str().is_empty() {
        "# ".to_owned().concat(words.as_str()).concat("\n\n").concat(body.as_str())
    } else {
        body
    }
}

pub open spec fn photo_report(graph_name: Seq<char>, chars: nat, caption: Option<Seq<char>>, chunks: nat) -> UploadReport<
    Seq<char>,
> {
    UploadReport {
        action: "channel.telegram.photo"@,
        audit: "OCR'd image ("@ + t::decimal(chars) + " chars) into graph '"@ + graph_name + "' ("@
            + t::decimal(chunks) + " chunks)"@,
        note: Some(captioned("[uploaded image, OCR'd]"@, caption)),
        reply: "Read the text from your image ("@ + t::decimal(chars)
            + " characters) and added it to my knowledge graph `"@ + graph_name + "` ("@ + t::decimal(chunks)
            + " chunks). Ask me about it any time."@,
    }
}

pub open spec fn photo_failure(audit: Seq<char>, reply: Seq<char>) -> UploadReport<Seq<char>> {
    UploadReport { action: "channel.telegram.photo_error"@, audit, note: None, reply }
}

pub open spec fn photo_next(
    caption: Option<Seq<char>>,
    stage: PhotoStage<Seq<char>>,
    event: PhotoEvent<Seq<char>>,
) -> (PhotoStage<Seq<char>>, PhotoAction<Seq<char>>) {
    match (stage, event) {
        (PhotoStage::Fetching, PhotoEvent::Fetched) => (PhotoStage::Delivering, PhotoAction::Deliver),
        (PhotoStage::Fetching, PhotoEvent::Failed { error }) => (
            PhotoStage::Ended,
            PhotoAction::Reply { text: "I couldn't download that image: "@ + error },
        ),
        (PhotoStage::Delivering, PhotoEvent::Delivered { guest_path }) => (
            PhotoStage::Ended,
            PhotoAction::Look {
                action: "channel.telegram.image"@,
                audit: "delivered image to guest ("@ + guest_path + "); running vision turn"@,
                prompt: vision_prompt(caption, guest_path),
            },
        ),
        (PhotoStage::Delivering, PhotoEvent::Failed { error }) => (
            PhotoStage::Choosing,
            PhotoAction::FallBack {
                action: "channel.telegram.image_fallback"@,
                audit: "guest image delivery failed ("@ + error + "); falling back to OCR"@,
            },
        ),
        (PhotoStage::Choosing, PhotoEvent::Graph { name }) => match name {
            Some(graph_name) => (PhotoStage::Reading { graph_name }, PhotoAction::Recognize),
            None => (
                PhotoStage::Ended,
                PhotoAction::Reply {
                    text: "I received your image but couldn't reach my VM to view it, and my knowledge graph is off, so I can't store it either. Try again, or enable `knowledge_graph`."@,
                },
            ),
        },
        (PhotoStage::Reading { graph_name }, PhotoEvent::Text { text }) => if t::trimmed(text).len() == 0 {
            (
                PhotoStage::Ended,
                PhotoAction::Reply {
                    text: "I read that image but couldn't find any text in it (OCR returned nothing)."@,
                },
            )
        } else {
            (
                PhotoStage::Storing { graph_name, chars: t::trimmed(text).len() as usize },
                PhotoAction::Store { document: ocr_document(caption, text) },
            )
        },
        (PhotoStage::Reading { .. }, PhotoEvent::Failed { error }) => (
            PhotoStage::Ended,
            PhotoAction::Report {
                report: photo_failure("OCR failed: "@ + error, "I couldn't OCR that image: "@ + error),
            },
        ),
        (PhotoStage::Storing { graph_name, chars }, PhotoEvent::Stored { chunks }) => (
            PhotoStage::Ended,
            PhotoAction::Report { report: photo_report(graph_name, chars as nat, caption, chunks as nat) },
        ),
        (PhotoStage::Storing { .. }, PhotoEvent::Failed { error }) => (
            PhotoStage::Ended,
            PhotoAction::Report {
                report: photo_failure(
                    "failed to ingest OCR text: "@ + error,
                    "I read the image but couldn't store the text: "@ + error,
                ),
            },
        ),
        _ => (PhotoStage::Ended, PhotoAction::Nothing),
    }
}

fn failure_report(audit: String, reply: String) -> (r: UploadReport<String>)
    ensures
        r@ == photo_failure(audit@, reply@),
{
    UploadReport { action: "channel.telegram.photo_error".to_owned(), audit, note: None, reply }
}

fn stored_report(graph_name: &str, chars: usize, caption: Option<&str>, chunks: usize) -> (r: UploadReport<String>)
    ensures
        r@ == photo_report(graph_name@, chars as nat, t::opt_str(caption), chunks as nat),
{
    let c = t::usize_text(chars);
    let n = t::usize_text(chunks);
    UploadReport {
        action: "channel.telegram.photo".to_owned(),
        audit: "OCR'd image (".to_owned().concat(c.as_str()).concat(" chars) into graph '").concat(
            graph_name,
        ).concat("' (").concat(n.as_str()).concat(" chunks)"),
        note: Some(add_caption("[uploaded image, OCR'd]".to_owned(), caption)),
        reply: "Read the text from your image (".to_owned().concat(c.as_str()).concat(
            " characters) and added it to my knowledge graph `",
        ).concat(graph_name).concat("` (").concat(n.as_str()).concat(
            " chunks). Ask me about it any time.",
        ),
    }
}

/// Takes the next step with a photo: the agent looks at it itself where it can be
/// reached; else what can be read in it goes into the agent's graph.
pub fn handle_telegram_photo(caption: Option<&str>, stage: PhotoStage<String>, event: PhotoEvent<String>) -> (r: (
    PhotoStage<String>,
    PhotoAction<String>,
))
    ensures
        (r.0@, r.1@) == photo_next(t::opt_str(caption), stage@, event@),
{
    match (stage, event) {
        (PhotoStage::Fetching, PhotoEvent::Fetched) => (PhotoStage::Delivering, PhotoAction::Deliver),
        (PhotoStage::Fetching, PhotoEvent::Failed { error }) => (
            PhotoStage::Ended,
            PhotoAction::Reply { text: "I couldn't download that image: ".to_owned().concat(error.as_str()) },
        ),
        (PhotoStage::Delivering, PhotoEvent::Delivered { guest_path }) => (
            PhotoStage::Ended,
            PhotoAction::Look {
                action: "channel.telegram.image".to_owned(),
                audit: "delivered image to guest (".to_owned().concat(guest_path.as_str()).concat(
                    "); running vision turn",
                ),
                prompt: vision_prompt_text(caption, guest_path.as_str()),
            },
        ),
        (PhotoStage::Delivering, PhotoEvent::Failed { error }) => (
            PhotoStage::Choosing,
            PhotoAction::FallBack {
                action: "channel.telegram.image_fallback".to_owned(),
                audit: "guest image delivery failed (".to_owned().concat(error.as_str()).concat(
                    "); falling back to OCR",
                ),
            },
        ),
        (PhotoStage::Choosing, PhotoEvent::Graph { name }) => match name {
            Some(graph_name) => (PhotoStage::Reading { graph_name }, PhotoAction::Recognize),
            None => (
                PhotoStage::Ended,
                PhotoAction::Reply {
                    text: "I received your image but couldn't reach my VM to view it, and my knowledge graph is off, so I can't store it either. Try again, or enable `knowledge_graph`.".to_owned(),
                },
            ),
        },
        (PhotoStage::Reading { graph_name }, PhotoEvent::Text { text }) => {
            let words = t::trim(text.as_str());
            if words.as_str().is_empty() {
                (
                    PhotoStage::Ended,
                    PhotoAction::Reply {
                        text: "I read that image but couldn't find any text in it (OCR returned nothing).".to_owned(),
                    },
                )
            } else {
                let chars: usize = words.as_str().unicode_len();
                (
                    PhotoStage::Storing { graph_name, chars },
                    PhotoAction::Store { document: ocr_document_text(caption, text.as_str()) },
                )
            }
        },
        (PhotoStage::Reading { .. }, PhotoEvent::Failed { error }) => (
            PhotoStage::Ended,
            PhotoAction::Report {
                report: failure_report(
                    "OCR failed: ".to_owned().concat(error.as_str()),
                    "I couldn't OCR that image: ".to_owned().concat(error.as_str()),
                ),
            },
        ),
        (PhotoStage::Storing { graph_name, chars }, PhotoEvent::Stored { chunks }) => (
            PhotoStage::Ended,
            PhotoAction::Report { report: stored_report(graph_name.as_str(), chars, caption, chunks) },
        ),
        (PhotoStage::Storing { .. }, PhotoEvent::Failed { error }) => (
            PhotoStage::Ended,
            PhotoAction::Report {
                report: failure_report(
                    "failed to ingest OCR text: ".to_owned().concat(error.as_str()),
                    "I read the image but couldn't store the text: ".to_owned().concat(error.as_str()),
                ),
            },
        ),
        _ => (PhotoStage::Ended, PhotoAction::Nothing),
    }
}

/// What is wrong with the text recognition, where it failed.
pub fn ocr_failure(started: bool, detail: &str) -> (r: String)
    ensures
        r@ == if started {
            "tesseract failed: "@ + t::trimmed(detail@)
        } else {
            "OCR needs the `tesseract` binary on the host (install it with `sudo apt install -y tesseract-ocr`): "@
                + detail@
        },
{
    if started {
        "tesseract failed: ".to_owned().concat(t::trim(detail).as_str())
    } else {
        "OCR needs the `tesseract` binary on the host (install it with `sudo apt install -y tesseract-ocr`): ".to_owned().concat(
            detail,
        )
    }
}

/// The path of a file on Telegram's side, from the answer to the request for it.
pub open spec fn telegram_file(ok: bool, path: Option<Seq<char>>) -> Result<Seq<char>, Seq<char>> {
    if !ok {
        Err("Telegram getFile returned ok=false"@)
    } else {
        match path {
            Some(p) => Ok(p),
            None => Err("Telegram getFile returned no file_path"@),
        }
    }
}

pub open spec fn text_result(r: Result<String, String>) -> Result<Seq<char>, Seq<char>> {
    match r {
        Ok(s) => Ok(s@),
        Err(e) => Err(e@),
    }
}

pub fn telegram_file_path(ok: bool, path: Option<String>) -> (r: Result<String, String>)
    ensures
        text_result(r) == telegram_file(ok, t::opt_view(path)),
{
    if !ok {
        Err("Telegram getFile returned ok=false".to_owned())
    } else {
        match path {
            Some(p) => Ok(p),
            None => Err("Telegram getFile returned no file_path".to_owned()),
        }
    }
}

/// Takes a fetched file, of which no more than one byte above the limit was read;
/// refuses it where it is too large.
pub fn download_telegram_file_bytes(bytes: Vec<u8>, max_bytes: u64, label: &str) -> (r: Result<Vec<u8>, String>)
    ensures
        r is Ok <==> bytes@.len() <= max_bytes,
        r matches Ok(b) ==> b@ == bytes@,
        r matches Err(e) ==> e@ == label@ + " exceeds "@ + t::decimal(max_bytes as nat) + " bytes"@,
{
    if bytes.len() as u64 > max_bytes {
        Err(label.to_owned().concat(" exceeds ").concat(t::u64_text(max_bytes).as_str()).concat(" bytes"))
    } else {
        Ok(bytes)
    }
}

/// A document goes into the graph where there is one, the document is not too
/// large and its kind can be read; else the owner is told why not.
pub proof fn law_a_document_is_ingested_or_refused(name: Option<Seq<char>>, size: Option<i64>, graph: bool)
    ensures
        ({
            let step = document_step(name, size, graph);
            let large = size is Some && size->0 > 19_922_944;
            let readable = ingestible(clean_name(name));
            &&& graph && !large && readable <==> step is Ingest
            &&& step matches DocumentStep::Ingest { file_name } ==> file_name == clean_name(name)
            &&& !graph ==> step == (DocumentStep::<Seq<char>>::Refuse {
                text: "I received the document, but my knowledge graph is not enabled, so I cannot store it. Enable `knowledge_graph` in MATURANA.md and set up the graph service."@,
            })
            &&& graph && large ==> step == (DocumentStep::<Seq<char>>::Refuse {
                text: "That document is larger than 19 MB, which is more than I can pull from Telegram. Please send a smaller file."@,
            })
        }),
{
}

/// A name tells by what stands behind its last dot, in any case of letters,
/// whether a document can be read.
pub proof fn law_the_extension_tells_the_kind(base: Seq<char>, ext: Seq<char>)
    requires
        !ext.contains('.'),
    ensures
        extension(base + seq!['.'] + ext) == Some(t::lower(ext)),
        ingestible(base + seq!['.'] + ext) <==> supported_exts().contains(t::lower(ext)),
    decreases base.len(),
{
    reveal_strlit(".");
    assert("."@ =~= seq!['.']);
    let name = base + seq!['.'] + ext;
    let n = base.len() as int;
    assert(name[n] == '.');
    t::lemma_find_char(name, '.');
    let k = t::find(name, "."@)->0;
    let rest = name.skip(k + 1);
    if k == n {
        assert(rest =~= ext);
        t::lemma_find_char(ext, '.');
        match t::find(ext, "."@) {
            Some(j) => {
                assert(ext[j] == '.');
                assert(ext.contains(ext[j]));
            },
            None => {},
        }
        assert(extension(ext) is None);
    } else {
        assert(k < n);
        assert(rest =~= base.skip(k + 1) + seq!['.'] + ext);
        law_the_extension_tells_the_kind(base.skip(k + 1), ext);
    }
}

/// What was taken in is recorded as the owner's turn and told; what was not is
/// told with the reason, and recorded as nothing.
pub proof fn law_an_upload_is_told_as_it_went(
    file_name: Seq<char>,
    graph_name: Seq<char>,
    caption: Option<Seq<char>>,
    chunks: nat,
    error: Seq<char>,
)
    ensures
        document_report(file_name, graph_name, caption, chunks).note matches Some(note) && t::starts(
            note,
            "[uploaded document: "@ + file_name + "]"@,
        ) && (caption matches Some(c) ==> t::trimmed(c).len() > 0 ==> note == "[uploaded document: "@ + file_name
            + "]"@ + " "@ + t::trimmed(c)),
        document_report(file_name, graph_name, caption, chunks).reply == "Added `"@ + file_name
            + "` to my knowledge graph `"@ + graph_name + "` ("@ + t::decimal(chunks)
            + " chunks). Ask me about it any time."@,
        document_error_report(file_name, error).note is None,
        document_error_report(file_name, error).reply == "I could not ingest `"@ + file_name + "`: "@ + error,
{
    let front = "[uploaded document: "@ + file_name + "]"@;
    let note = document_report(file_name, graph_name, caption, chunks).note->0;
    assert(note.subrange(0, front.len() as int) =~= front);
}

/// A photo is shown to the agent where its machine can be reached, with the
/// owner's words; else its text is read and goes into the graph, and where that
/// cannot be done either the owner is told.
pub proof fn law_a_photo_is_looked_at_or_read(
    caption: Option<Seq<char>>,
    guest_path: Seq<char>,
    graph_name: Seq<char>,
    text: Seq<char>,
    chunks: usize,
    error: Seq<char>,
)
    ensures
        ({
            let (delivering, first) = photo_next(caption, PhotoStage::Fetching, PhotoEvent::Fetched);
            let look = photo_next(caption, delivering, PhotoEvent::Delivered { guest_path }).1;
            let (choosing, fall) = photo_next(caption, delivering, PhotoEvent::Failed { error });
            let (reading, read) = photo_next(caption, choosing, PhotoEvent::Graph { name: Some(graph_name) });
            let (storing, store) = photo_next(caption, reading, PhotoEvent::Text { text });
            &&& photo_next(caption, PhotoStage::Fetching, PhotoEvent::Failed { error }).1 == (PhotoAction::Reply {
                text: "I couldn't download that image: "@ + error,
            })
            &&& first is Deliver
            &&& look matches PhotoAction::Look { prompt, .. } && t::has(prompt, guest_path) && (caption matches Some(c)
                ==> t::starts(prompt, t::trimmed(c)))
            &&& fall is FallBack
            &&& photo_next(caption, choosing, PhotoEvent::Graph { name: None }).1 is Reply
            &&& read is Recognize
            &&& t::trimmed(text).len() == 0 ==> store is Reply
            &&& t::trimmed(text).len() > 0 ==> (store matches PhotoAction::Store { document } && t::ends(
                document,
                t::trimmed(text),
            )) && (photo_next(caption, storing, PhotoEvent::Stored { chunks }).1 matches PhotoAction::Report { report }
                && report.note is Some && report.action == "channel.telegram.photo"@)
            &&& photo_next(caption, reading, PhotoEvent::Failed { error }).1 matches PhotoAction::Report { report }
                && report.note is None && report.reply == "I couldn't OCR that image: "@ + error
        }),
{
    let plain = "[The user sent an image, saved in your workspace at "@;
    let behind = "\n\n[The user attached an image, saved in your workspace at "@;
    let prompt = vision_prompt(caption, guest_path);
    let at: int = if caption is Some && t::trimmed(caption->0).len() > 0 {
        (t::trimmed(caption->0).len() + behind.len()) as int
    } else {
        plain.len() as int
    };
    assert(prompt.subrange(at, at + guest_path.len()) =~= guest_path);
    assert(t::occurs_at(prompt, guest_path, at));
    if caption is Some {
        let c = t::trimmed(caption->0);
        assert(prompt.subrange(0, c.len() as int) =~= c);
    }
    let body = t::trimmed(text);
    let document = ocr_document(caption, text);
    assert(document.subrange(document.len() - body.len(), document.len() as int) =~= body);
}

/// A file is fetched from the path that Telegram names, and from nowhere where it
/// names none.
pub proof fn law_a_file_is_fetched_where_it_lies(path: Option<Seq<char>>)
    ensures
        path matches Some(p) ==> telegram_file(true, path) == Ok::<Seq<char>, Seq<char>>(p),
        path is None ==> telegram_file(true, path) is Err,
        telegram_file(false, path) is Err,
{
}

/// The prompt for an image begins with the caption, where there is one, and names
/// the place of the image in any case.
pub proof fn law_an_image_is_asked_about_with_its_caption(caption: Option<Seq<char>>, guest_path: Seq<char>)
    ensures
        t::has(vision_prompt(caption, guest_path), guest_path),
        caption matches Some(c) ==> t::trimmed(c).len() > 0 ==> t::starts(
            vision_prompt(caption, guest_path),
            t::trimmed(c),
        ),
        caption is None ==> t::starts(vision_prompt(caption, guest_path), "[The user sent an image"@),
{
    let all = vision_prompt(caption, guest_path);
    if caption is Some && t::trimmed(caption->0).len() > 0 {
        let c = t::trimmed(caption->0);
        let a = c + "\n\n[The user attached an image, saved in your workspace at "@;
        t::lemma_has_part(a, guest_path, ". Open and view it to answer.]"@);
        assert(all.subrange(0, c.len() as int) =~= c);
    } else {
        let a = "[The user sent an image, saved in your workspace at "@;
        t::lemma_has_part(a, guest_path, ". Open and view it, then describe it or act on it.]"@);
        reveal_strlit("[The user sent an image, saved in your workspace at ");
        reveal_strlit("[The user sent an image");
        assert(all.subrange(0, 23) =~= "[The user sent an image"@);
    }
}

} // verus!
