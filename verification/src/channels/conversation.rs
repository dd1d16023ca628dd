//! The texts that make up a turn.

use crate::channels::onboarding;
use crate::channels::onboarding::onboarding_prompt;
use crate::channels::settings::ChannelSettings;
use crate::json;
use crate::json::{field, record, Json, Tree};
use crate::text as t;
use vstd::prelude::*;
use vstd::string::*;

verus! {

/// A text of at most `limit` characters, with a mark where it was cut.
pub fn truncate_chars(value: &str, limit: usize) -> (r: String)
    ensures
        r@ == t::truncated(value@, limit as nat),
{
    t::truncate(value, limit)
}

/// How many characters of a file go into a prompt.
pub const PROMPT_FILE_CHARS: usize = 4000;

/// A section of a prompt, where there is anything to say in it.
pub open spec fn section(title: Seq<char>, file: Option<Seq<char>>) -> Seq<char> {
    let body = match file {
        Some(s) => t::trimmed(t::head(s, 4000)),
        None => t::trimmed(Seq::empty()),
    };
    if body.len() == 0 {
        Seq::empty()
    } else {
        title + body + "\n\n"@
    }
}

fn section_text(title: &str, file: Option<&str>) -> (r: String)
    ensures
        r@ == section(title@, t::opt_str(file)),
{
    let head = match file {
        Some(s) => t::take_chars(s, PROMPT_FILE_CHARS),
        None => String::new(),
    };
    let body = t::trim(head.as_str());
    if body.as_str().is_empty() {
        String::new()
    } else {
        title.to_owned().concat(body.as_str()).concat("\n\n")
    }
}

pub open spec fn dispatch_prompt(
    identity: Option<Seq<char>>,
    memory: Option<Seq<char>>,
    task: Seq<char>,
) -> Seq<char> {
    section("=== WHO YOU ARE ===\n"@, identity) + section(
        "=== YOUR MEMORY (operator, contacts, context) ===\n"@,
        memory,
    ) + "=== TASK ===\n"@ + task
}

/// The prompt of a dispatched task: who the agent is and what it remembers, as
/// far as those files could be read, and the task.
pub fn build_dispatch_prompt(identity: Option<&str>, memory: Option<&str>, task: &str) -> (r: String)
    ensures
        r@ == dispatch_prompt(t::opt_str(identity), t::opt_str(memory), task@),
{
    section_text("=== WHO YOU ARE ===\n", identity).concat(
        section_text("=== YOUR MEMORY (operator, contacts, context) ===\n", memory).as_str(),
    ).concat("=== TASK ===\n").concat(task)
}

/// A dispatched prompt never starts with a dash, so no harness takes it for an
/// option.
pub proof fn law_a_dispatch_prompt_starts_with_a_title(
    identity: Option<Seq<char>>,
    memory: Option<Seq<char>>,
    task: Seq<char>,
)
    ensures
        dispatch_prompt(identity, memory, task).len() > 0,
        dispatch_prompt(identity, memory, task)[0] == '=',
{
    reveal_strlit("=== WHO YOU ARE ===\n");
    reveal_strlit("=== YOUR MEMORY (operator, contacts, context) ===\n");
    reveal_strlit("=== TASK ===\n");
}

pub open spec fn text_or_null(o: Option<Seq<char>>) -> Tree {
    match o {
        Some(s) => Tree::Text(s),
        None => Tree::Null,
    }
}

fn json_or_null(o: Option<&str>) -> (r: Json)
    ensures
        r@ == text_or_null(t::opt_str(o)),
{
    match o {
        Some(s) => Json::Text(s.to_owned()),
        None => Json::Null,
    }
}

/// The content of a queued turn: what was said, the whole prompt, and what the
/// turn asks of the harness.
pub open spec fn turn_tree(
    text: Seq<char>,
    prompt: Seq<char>,
    model: Option<Seq<char>>,
    reasoning: Option<Seq<char>>,
) -> Tree {
    Tree::Record(
        seq![
            ("text"@, Tree::Text(text)),
            ("prompt"@, Tree::Text(prompt)),
            ("model"@, text_or_null(model)),
            ("reasoning"@, text_or_null(reasoning)),
        ],
    )
}

fn turn_content(text: String, prompt: String, model: Option<&str>, reasoning: Option<&str>) -> (r: Json)
    ensures
        r@ == turn_tree(text@, prompt@, t::opt_str(model), t::opt_str(reasoning)),
{
    let ghost said = text@;
    let ghost whole = prompt@;
    let mut f: Vec<(String, Json)> = Vec::new();
    field(&mut f, "text", Json::Text(text));
    field(&mut f, "prompt", Json::Text(prompt));
    field(&mut f, "model", json_or_null(model));
    field(&mut f, "reasoning", json_or_null(reasoning));
    assert(json::entries(f@) =~= turn_tree(said, whole, t::opt_str(model), t::opt_str(reasoning))->Record_0);
    record(f)
}

/// The content of a dispatched turn. It asks for the model of its role, if the
/// role has one, and for no effort of its own.
pub fn enqueue_dispatch_turn(
    identity: Option<&str>,
    memory: Option<&str>,
    task: &str,
    model: Option<&str>,
) -> (r: Json)
    ensures
        r@ == turn_tree(
            task@,
            dispatch_prompt(t::opt_str(identity), t::opt_str(memory), task@),
            t::opt_str(model),
            None,
        ),
{
    turn_content(task.to_owned(), build_dispatch_prompt(identity, memory, task), model, None)
}

fn opt_ref(o: &Option<String>) -> (r: Option<&str>)
    ensures
        t::opt_str(r) == t::opt_view(*o),
{
    match o {
        Some(s) => Some(s.as_str()),
        None => None,
    }
}

/// The content of the turn that greets a new owner; `prompt` is the greeting's
/// directive within its context.
pub fn enqueue_onboarding(prompt: &str, settings: &ChannelSettings) -> (r: Json)
    ensures
        r@ == turn_tree(onboarding::first_contact(), prompt@, settings@.model, settings@.reasoning),
{
    turn_content(
        onboarding_prompt(),
        prompt.to_owned(),
        opt_ref(&settings.model),
        opt_ref(&settings.reasoning),
    )
}

/// An undelivered message of a session.
#[derive(Debug, PartialEq, Eq)]
pub struct Undelivered {
    pub id: String,
    pub in_reply_to: Option<String>,
}

/// Whether a message answers the one with the id.
pub open spec fn answers(m: Undelivered, id: Seq<char>) -> bool {
    t::opt_view(m.in_reply_to) == Some(id)
}

/// The place of the first message that answers a dispatched one.
pub fn find_answer(messages: &Vec<Undelivered>, message_id: &str) -> (r: Option<usize>)
    ensures
        r is None <==> forall|k: int| 0 <= k < messages@.len() ==> !answers(#[trigger] messages@[k], message_id@),
        r matches Some(i) ==> i < messages@.len() && answers(messages@[i as int], message_id@) && forall|k: int|
            0 <= k < i ==> !answers(#[trigger] messages@[k], message_id@),
{
    let mut i: usize = 0;
    while i < messages.len()
        invariant
            i <= messages.len(),
            forall|k: int| 0 <= k < i ==> !answers(#[trigger] messages@[k], message_id@),
        decreases messages.len() - i,
    {
        match &messages[i].in_reply_to {
            Some(id) => if t::same(id.as_str(), message_id) {
                return Some(i);
            },
            None => {},
        }
        i += 1;
    }
    None
}

/// What is taken as the answer of a dispatched task: the text of the message,
/// or a note that it could not be read.
pub fn collected_text(text: Result<&str, &str>) -> (r: String)
    ensures
        r@ == match text {
            Ok(s) => s@,
            Err(error) => "[unparseable worker reply: "@ + error@ + "]"@,
        },
{
    match text {
        Ok(s) => s.to_owned(),
        Err(error) => "[unparseable worker reply: ".to_owned().concat(error).concat("]"),
    }
}

/// Where the collection of an answer stands.
#[derive(Debug, PartialEq, Eq)]
pub enum CollectStage<S> {
    /// The waiting messages are listed.
    Listing,
    /// The answer at a place is claimed.
    Claiming { at: usize },
    /// The claimed answer is read.
    Reading { at: usize },
    /// The answer is marked as delivered.
    Marking { text: S },
    Ended,
}

#[derive(Debug, PartialEq, Eq)]
pub enum CollectEvent<S> {
    /// The messages were listed; the answer, where there is one, is at a place.
    Listed { at: Option<usize> },
    Claimed { won: bool },
    /// The text of the answer, or why it has none.
    Read { text: Result<S, S> },
    Done,
    Failed,
}

#[derive(Debug, PartialEq, Eq)]
pub enum CollectAction<S> {
    List,
    Claim { at: usize },
    Read { at: usize },
    Mark,
    /// Nothing has come that this caller may take.
    Nothing,
    Collected { text: S },
    /// End with the error that came last.
    Fail,
    /// The event is not one that was waited for.
    Ignore,
}

pub open spec fn result_view(r: Result<String, String>) -> Result<Seq<char>, Seq<char>> {
    match r {
        Ok(s) => Ok(s@),
        Err(s) => Err(s@),
    }
}

impl View for CollectStage<String> {
    type V = CollectStage<Seq<char>>;

    open spec fn view(&self) -> CollectStage<Seq<char>> {
        match self {
            CollectStage::Listing => CollectStage::Listing,
            CollectStage::Claiming { at } => CollectStage::Claiming { at: *at },
            CollectStage::Reading { at } => CollectStage::Reading { at: *at },
            CollectStage::Marking { text } => CollectStage::Marking { text: text@ },
            CollectStage::Ended => CollectStage::Ended,
        }
    }
}

impl View for CollectEvent<String> {
    type V = CollectEvent<Seq<char>>;

    open spec fn view(&self) -> CollectEvent<Seq<char>> {
        match self {
            CollectEvent::Listed { at } => CollectEvent::Listed { at: *at },
            CollectEvent::Claimed { won } => CollectEvent::Claimed { won: *won },
            CollectEvent::Read { text } => CollectEvent::Read { text: result_view(*text) },
            CollectEvent::Done => CollectEvent::Done,
            CollectEvent::Failed => CollectEvent::Failed,
        }
    }
}

impl View for CollectAction<String> {
    type V = CollectAction<Seq<char>>;

    open spec fn view(&self) -> CollectAction<Seq<char>> {
        match self {
            CollectAction::List => CollectAction::List,
            CollectAction::Claim { at } => CollectAction::Claim { at: *at },
            CollectAction::Read { at } => CollectAction::Read { at: *at },
            CollectAction::Mark => CollectAction::Mark,
            CollectAction::Nothing => CollectAction::Nothing,
            CollectAction::Collected { text } => CollectAction::Collected { text: text@ },
            CollectAction::Fail => CollectAction::Fail,
            CollectAction::Ignore => CollectAction::Ignore,
        }
    }
}

/// The answer of a task, as it is taken up.
pub open spec fn answer_text(text: Result<Seq<char>, Seq<char>>) -> Seq<char> {
    match text {
        Ok(s) => s,
        Err(error) => "[unparseable worker reply: "@ + error + "]"@,
    }
}

impl CollectStage<Seq<char>> {
    pub open spec fn next(self, event: CollectEvent<Seq<char>>) -> (CollectStage<Seq<char>>, CollectAction<Seq<char>>) {
        match (self, event) {
            (CollectStage::Ended, _) => (self, CollectAction::Ignore),
            (_, CollectEvent::Failed) => (CollectStage::Ended, CollectAction::Fail),
            (CollectStage::Listing, CollectEvent::Listed { at: Some(at) }) => (
                CollectStage::Claiming { at },
                CollectAction::Claim { at },
            ),
            (CollectStage::Listing, CollectEvent::Listed { at: None }) => (
                CollectStage::Ended,
                CollectAction::Nothing,
            ),
            (CollectStage::Claiming { at }, CollectEvent::Claimed { won }) => if won {
                (CollectStage::Reading { at }, CollectAction::Read { at })
            } else {
                (CollectStage::Ended, CollectAction::Nothing)
            },
            (CollectStage::Reading { .. }, CollectEvent::Read { text }) => (
                CollectStage::Marking { text: answer_text(text) },
                CollectAction::Mark,
            ),
            (CollectStage::Marking { text }, CollectEvent::Done) => (
                CollectStage::Ended,
                CollectAction::Collected { text },
            ),
            _ => (self, CollectAction::Ignore),
        }
    }
}

/// Starts to collect the answer to a dispatched turn.
pub fn try_collect_dispatch() -> (r: (CollectStage<String>, CollectAction<String>))
    ensures
        (r.0@, r.1@) == (CollectStage::<Seq<char>>::Listing, CollectAction::<Seq<char>>::List),
{
    (CollectStage::Listing, CollectAction::List)
}

impl CollectStage<String> {
    /// Goes on when an event comes.
    pub fn advance(self, event: CollectEvent<String>) -> (r: (CollectStage<String>, CollectAction<String>))
        ensures
            (r.0@, r.1@) == self@.next(event@),
    {
        match (self, event) {
            (CollectStage::Ended, _) => (CollectStage::Ended, CollectAction::Ignore),
            (_, CollectEvent::Failed) => (CollectStage::Ended, CollectAction::Fail),
            (CollectStage::Listing, CollectEvent::Listed { at: Some(at) }) => (
                CollectStage::Claiming { at },
                CollectAction::Claim { at },
            ),
            (CollectStage::Listing, CollectEvent::Listed { at: None }) => (
                CollectStage::Ended,
                CollectAction::Nothing,
            ),
            (CollectStage::Claiming { at }, CollectEvent::Claimed { won }) => if won {
                (CollectStage::Reading { at }, CollectAction::Read { at })
            } else {
                (CollectStage::Ended, CollectAction::Nothing)
            },
            (CollectStage::Reading { .. }, CollectEvent::Read { text }) => {
                let text = match &text {
                    Ok(s) => collected_text(Ok(s.as_str())),
                    Err(error) => collected_text(Err(error.as_str())),
                };
                (CollectStage::Marking { text }, CollectAction::Mark)
            },
            (CollectStage::Marking { text }, CollectEvent::Done) => (
                CollectStage::Ended,
                CollectAction::Collected { text },
            ),
            (stage, _) => (stage, CollectAction::Ignore),
        }
    }
}

/// An answer is taken only by the caller that won its claim.
pub proof fn law_an_answer_is_claimed_before_it_is_taken(stage: CollectStage<Seq<char>>, event: CollectEvent<Seq<char>>)
    ensures
        stage.next(event).1 is Read ==> event == (CollectEvent::<Seq<char>>::Claimed { won: true }),
        stage.next(event).1 is Mark ==> stage is Reading,
        stage.next(event).1 is Collected ==> stage is Marking,
{
}

/// A reply as the outbox keeps it: the message it answers, its text, whether a
/// caller holds its claim, and whether it was delivered.
pub struct OutboxRow {
    pub in_reply_to: Option<Seq<char>>,
    pub text: Result<Seq<char>, Seq<char>>,
    pub claimed: bool,
    pub delivered: bool,
}

/// Whether a row is an answer that still waits.
pub open spec fn waits(row: OutboxRow, id: Seq<char>) -> bool {
    !row.delivered && row.in_reply_to == Some(id)
}

/// The place of the first answer that waits, from `i` on.
pub open spec fn first_waiting(rows: Seq<OutboxRow>, id: Seq<char>, i: int) -> Option<int>
    decreases rows.len() - i,
{
    if i < 0 || i >= rows.len() {
        None
    } else if waits(rows[i], id) {
        Some(i)
    } else {
        first_waiting(rows, id, i + 1)
    }
}

/// One collection on an outbox that answers in the order in which it is asked: a
/// claim is won where nobody holds it, and what is marked waits no longer. What
/// the outbox holds afterwards, and how the collection ended.
pub open spec fn collect(rows: Seq<OutboxRow>, id: Seq<char>) -> (Seq<OutboxRow>, CollectAction<Seq<char>>) {
    let start = CollectStage::<Seq<char>>::Listing;
    match first_waiting(rows, id, 0) {
        None => (rows, start.next(CollectEvent::Listed { at: None }).1),
        Some(i) => {
            let (claiming, _) = start.next(CollectEvent::Listed { at: Some(i as usize) });
            let (reading, asked) = claiming.next(CollectEvent::Claimed { won: !rows[i].claimed });
            let row = OutboxRow { claimed: true, ..rows[i] };
            if asked is Read {
                let (marking, _) = reading.next(CollectEvent::Read { text: rows[i].text });
                (
                    rows.update(i, (OutboxRow { delivered: true, ..row })),
                    marking.next(CollectEvent::Done).1,
                )
            } else {
                (rows.update(i, row), asked)
            }
        },
    }
}

/// What the outbox holds after `n` collections.
pub open spec fn collected_times(rows: Seq<OutboxRow>, id: Seq<char>, n: nat) -> Seq<OutboxRow>
    decreases n,
{
    if n == 0 {
        rows
    } else {
        collect(collected_times(rows, id, (n - 1) as nat), id).0
    }
}

proof fn lemma_first_waiting(rows: Seq<OutboxRow>, id: Seq<char>, i: int, at: int)
    requires
        0 <= i <= at <= rows.len(),
        forall|k: int| i <= k < at ==> !waits(#[trigger] rows[k], id),
        at < rows.len() ==> waits(rows[at], id),
    ensures
        first_waiting(rows, id, i) == if at < rows.len() {
            Some(at)
        } else {
            None
        },
    decreases at - i,
{
    if i < at {
        assert(!waits(rows[i], id));
        lemma_first_waiting(rows, id, i + 1, at);
    }
}

/// Before the answer has come there is nothing to collect.
pub proof fn law_nothing_is_collected_early(rows: Seq<OutboxRow>, id: Seq<char>)
    requires
        forall|k: int| 0 <= k < rows.len() ==> !waits(#[trigger] rows[k], id),
    ensures
        collect(rows, id) == (rows, CollectAction::<Seq<char>>::Nothing),
{
    lemma_first_waiting(rows, id, 0, rows.len() as int);
}

/// The only answer to a dispatched turn, claimed by nobody, is collected by the
/// next call, and by no later one.
pub proof fn law_an_answer_is_collected_once(rows: Seq<OutboxRow>, id: Seq<char>, at: int, text: Seq<char>, later: nat)
    requires
        rows.len() <= usize::MAX,
        0 <= at < rows.len(),
        waits(rows[at], id),
        forall|k: int| 0 <= k < rows.len() && k != at ==> !waits(#[trigger] rows[k], id),
        !rows[at].claimed,
        rows[at].text == Ok::<Seq<char>, Seq<char>>(text),
        later > 0,
    ensures
        collect(rows, id).1 == (CollectAction::<Seq<char>>::Collected { text }),
        collect(collected_times(rows, id, later), id).1 == CollectAction::<Seq<char>>::Nothing,
    decreases later,
{
    lemma_first_waiting(rows, id, 0, at);
    let after = collect(rows, id).0;
    assert(after == rows.update(
        at,
        OutboxRow { in_reply_to: rows[at].in_reply_to, text: rows[at].text, claimed: true, delivered: true },
    ));
    assert forall|k: int| 0 <= k < after.len() implies !waits(#[trigger] after[k], id) by {
        if k != at {
            assert(after[k] == rows[k]);
        }
    }
    law_nothing_is_collected_early(after, id);
    lemma_collected_times(rows, id, later);
}

proof fn lemma_collected_times(rows: Seq<OutboxRow>, id: Seq<char>, n: nat)
    requires
        n > 0,
        collect(collect(rows, id).0, id).0 == collect(rows, id).0,
    ensures
        collected_times(rows, id, n) == collect(rows, id).0,
    decreases n,
{
    reveal_with_fuel(collected_times, 2);
    if n > 1 {
        lemma_collected_times(rows, id, (n - 1) as nat);
    }
}

/// A dispatched prompt ends with the task, and tells before it who the agent is
/// and what it remembers.
pub proof fn law_a_dispatch_prompt_holds_the_task(
    identity: Option<Seq<char>>,
    memory: Option<Seq<char>>,
    task: Seq<char>,
)
    ensures
        t::ends(dispatch_prompt(identity, memory, task), "=== TASK ===\n"@ + task),
        identity matches Some(s) ==> s.len() <= 4000 && t::trimmed(s).len() > 0 ==> t::has(
            dispatch_prompt(identity, memory, task),
            t::trimmed(s),
        ),
        memory matches Some(s) ==> s.len() <= 4000 && t::trimmed(s).len() > 0 ==> t::has(
            dispatch_prompt(identity, memory, task),
            t::trimmed(s),
        ),
        identity is None && memory is None ==> dispatch_prompt(identity, memory, task) == "=== TASK ===\n"@ + task,
{
    let none = Seq::<char>::empty();
    let ti = "=== WHO YOU ARE ===\n"@;
    let tm = "=== YOUR MEMORY (operator, contacts, context) ===\n"@;
    let a = section(ti, identity);
    let b = section(tm, memory);
    let z = "=== TASK ===\n"@ + task;
    let all = dispatch_prompt(identity, memory, task);
    assert(t::trimmed(none) =~= none);
    assert(all =~= a + b + z);
    assert(all.subrange(all.len() - z.len(), all.len() as int) =~= z);
    if identity is Some && (identity->0).len() <= 4000 && t::trimmed(identity->0).len() > 0 {
        let s = t::trimmed(identity->0);
        t::lemma_has_part(ti, s, "\n\n"@ + b + z);
        assert(ti + s + ("\n\n"@ + b + z) =~= all);
    }
    if memory is Some && (memory->0).len() <= 4000 && t::trimmed(memory->0).len() > 0 {
        let s = t::trimmed(memory->0);
        t::lemma_has_part(a + tm, s, "\n\n"@ + z);
        assert(a + tm + s + ("\n\n"@ + z) =~= all);
    }
    if identity is None && memory is None {
        assert(all =~= z);
    }
}

/// A queued turn carries what was said, the whole prompt, and the model and the
/// effort where they are asked for.
pub proof fn law_a_turn_carries_what_was_said(
    text: Seq<char>,
    prompt: Seq<char>,
    model: Option<Seq<char>>,
    reasoning: Option<Seq<char>>,
)
    ensures
        ({
            let turn = turn_tree(text, prompt, model, reasoning);
            &&& turn.text_at("text"@) == Some(text)
            &&& turn.text_at("prompt"@) == Some(prompt)
            &&& turn.text_at("model"@) == model
            &&& turn.text_at("reasoning"@) == reasoning
        }),
{
    reveal_strlit("text");
    reveal_strlit("prompt");
    reveal_strlit("model");
    reveal_strlit("reasoning");
    assert("text"@.len() == 4 && "text"@[0] == 't' && "text"@[1] == 'e' && "text"@[2] == 'x' && "text"@[3] == 't');
    assert("prompt"@.len() == 6 && "prompt"@[0] == 'p' && "prompt"@[1] == 'r' && "prompt"@[2] == 'o' && "prompt"@[3] == 'm' && "prompt"@[4] == 'p' && "prompt"@[5] == 't');
    assert("model"@.len() == 5 && "model"@[0] == 'm' && "model"@[1] == 'o' && "model"@[2] == 'd' && "model"@[3] == 'e' && "model"@[4] == 'l');
    assert("reasoning"@.len() == 9 && "reasoning"@[0] == 'r' && "reasoning"@[1] == 'e' && "reasoning"@[2] == 'a' && "reasoning"@[3] == 's' && "reasoning"@[4] == 'o' && "reasoning"@[5] == 'n');
    reveal_with_fuel(json::entry_from, 5);
}

/// An answer that was listed is claimed, one that was won is read, one that was
/// read is marked, and one that was marked is handed over with its text; whoever
/// loses the claim gets nothing.
pub proof fn law_an_answer_is_collected_step_by_step(at: usize, text: Seq<char>, error: Seq<char>)
    ensures
        ({
            let claiming = CollectStage::<Seq<char>>::Claiming { at };
            let reading = CollectStage::<Seq<char>>::Reading { at };
            let marking = CollectStage::<Seq<char>>::Marking { text };
            let listed = CollectStage::<Seq<char>>::Listing.next(CollectEvent::Listed { at: Some(at) });
            let won = claiming.next(CollectEvent::Claimed { won: true });
            let lost = claiming.next(CollectEvent::Claimed { won: false });
            let read = reading.next(CollectEvent::Read { text: Ok(text) });
            let unread = reading.next(CollectEvent::Read { text: Err(error) });
            let marked = marking.next(CollectEvent::Done);
            &&& listed.0 == claiming && (listed.1 matches CollectAction::Claim { at: k } && k == at)
            &&& won.0 == reading && (won.1 matches CollectAction::Read { at: k } && k == at)
            &&& lost.0 is Ended && lost.1 is Nothing
            &&& read.0 == marking && read.1 is Mark
            &&& (unread.0 matches CollectStage::Marking { text: told } && t::has(told, error)) && unread.1 is Mark
            &&& marked.0 is Ended && (marked.1 matches CollectAction::Collected { text: x } && x == text)
        }),
{
    t::lemma_has_part("[unparseable worker reply: "@, error, "]"@);
}

} // verus!
