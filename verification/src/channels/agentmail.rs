//! The mail channel.

use crate::json;
use crate::json::{field, record, Json, Tree};
use crate::text as t;
use vstd::prelude::*;
use vstd::string::*;

verus! {

/// A mail for the agent.
#[derive(Debug, PartialEq, Eq)]
pub struct AgentMailMessage<S> {
    pub message_id: S,
    pub thread_id: S,
    pub timestamp: S,
    pub text: S,
}

impl View for AgentMailMessage<String> {
    type V = AgentMailMessage<Seq<char>>;

    open spec fn view(&self) -> AgentMailMessage<Seq<char>> {
        AgentMailMessage {
            message_id: self.message_id@,
            thread_id: self.thread_id@,
            timestamp: self.timestamp@,
            text: self.text@,
        }
    }
}

pub open spec fn mail_views(v: Seq<AgentMailMessage<String>>) -> Seq<AgentMailMessage<Seq<char>>> {
    v.map_values(|m: AgentMailMessage<String>| m@)
}

/// The text under the first of two keys that is there; empty where it is no text.
pub open spec fn text_under(m: Tree, key: Seq<char>, other: Seq<char>) -> Seq<char> {
    let found = if m.get(key) is Some {
        m.text_at(key)
    } else {
        m.text_at(other)
    };
    match found {
        Some(s) => s,
        None => Seq::empty(),
    }
}

fn empty() -> (r: String)
    ensures
        r@ == Seq::<char>::empty(),
{
    let r = String::new();
    assert(r@ =~= Seq::<char>::empty());
    r
}

fn read_text_under(m: &Json, key: &str, other: &str) -> (r: String)
    ensures
        r@ == text_under(m@, key@, other@),
{
    let found = if m.get(key).is_some() {
        m.text_at(key)
    } else {
        m.text_at(other)
    };
    match found {
        Some(s) => s,
        None => empty(),
    }
}

pub open spec fn or_empty(o: Option<Seq<char>>) -> Seq<char> {
    match o {
        Some(s) => s,
        None => Seq::empty(),
    }
}

/// A mail, unless the agent sent it itself.
pub open spec fn mail_in(m: Tree) -> Option<AgentMailMessage<Seq<char>>> {
    if m.text_at("type"@) == Some("sent"@) {
        None
    } else {
        Some(
            AgentMailMessage {
                message_id: or_empty(m.text_at("message_id"@)),
                thread_id: match m.text_at("thread_id"@) {
                    Some(s) => s,
                    None => or_empty(m.text_at("message_id"@)),
                },
                timestamp: text_under(m, "timestamp"@, "created_at"@),
                text: text_under(m, "text"@, "preview"@),
            },
        )
    }
}

fn read_mail(m: &Json) -> (r: Option<AgentMailMessage<String>>)
    ensures
        match r {
            Some(x) => mail_in(m@) == Some(x@),
            None => mail_in(m@) is None,
        },
{
    let sent = match m.text_at("type") {
        Some(kind) => t::same(kind.as_str(), "sent"),
        None => false,
    };
    if sent {
        return None;
    }
    let message_id = match m.text_at("message_id") {
        Some(s) => s,
        None => empty(),
    };
    let thread_id = match m.text_at("thread_id") {
        Some(s) => s,
        None => message_id.clone(),
    };
    let timestamp = read_text_under(m, "timestamp", "created_at");
    let text = read_text_under(m, "text", "preview");
    Some(AgentMailMessage { message_id, thread_id, timestamp, text })
}

pub open spec fn mails_in(items: Seq<Tree>) -> Seq<AgentMailMessage<Seq<char>>>
    decreases items.len(),
{
    if items.len() == 0 {
        Seq::empty()
    } else {
        match mail_in(items.last()) {
            Some(m) => mails_in(items.drop_last()).push(m),
            None => mails_in(items.drop_last()),
        }
    }
}

/// The mails of an answer.
pub open spec fn mails(answer: Tree) -> Seq<AgentMailMessage<Seq<char>>> {
    match answer.items_at("messages"@) {
        Some(items) => mails_in(items),
        None => Seq::empty(),
    }
}

/// Reads the mails that an answer lists.
pub fn agentmail_messages(answer: &Json) -> (r: Vec<AgentMailMessage<String>>)
    ensures
        mail_views(r@) == mails(answer@),
{
    let mut r: Vec<AgentMailMessage<String>> = Vec::new();
    assert(mail_views(r@) =~= Seq::<AgentMailMessage<Seq<char>>>::empty());
    match answer.items_at("messages") {
        None => {},
        Some(items) => {
            let ghost all = json::trees(items@);
            let mut i: usize = 0;
            assert(all.take(0) =~= Seq::<Tree>::empty());
            while i < items.len()
                invariant
                    i <= items.len(),
                    all == json::trees(items@),
                    mail_views(r@) == mails_in(all.take(i as int)),
                decreases items.len() - i,
            {
                let ghost before = r@;
                assert(all.take(i as int + 1).drop_last() =~= all.take(i as int));
                assert(all.take(i as int + 1).last() == items@[i as int]@);
                match read_mail(&items[i]) {
                    Some(m) => {
                        r.push(m);
                        assert(mail_views(r@) =~= mail_views(before).push(m@));
                    },
                    None => {},
                }
                i += 1;
            }
            assert(all.take(all.len() as int) =~= all);
        },
    }
    r
}

/// The later one of a time that may be missing and a time.
pub open spec fn later_of(a: Option<Seq<char>>, b: Seq<char>) -> Seq<char> {
    match a {
        Some(a) => if t::no_later(b, a) {
            a
        } else {
            b
        },
        None => b,
    }
}

/// The highest time seen after the first `n` mails of a batch.
pub open spec fn newest(before: Option<Seq<char>>, batch: Seq<AgentMailMessage<Seq<char>>>, n: int) -> Option<Seq<char>>
    decreases n,
{
    if n <= 0 || n > batch.len() {
        before
    } else {
        Some(later_of(newest(before, batch, n - 1), batch[n - 1].timestamp))
    }
}

/// The highest time seen after a batch: that of its newest mail, or what was
/// there before where that is later.
pub fn last_seen(before: Option<String>, batch: &Vec<AgentMailMessage<String>>) -> (r: Option<String>)
    ensures
        t::opt_view(r) == newest(t::opt_view(before), mail_views(batch@), batch@.len() as int),
{
    let ghost first = t::opt_view(before);
    let mut seen = before;
    let mut i: usize = 0;
    while i < batch.len()
        invariant
            i <= batch.len(),
            t::opt_view(seen) == newest(first, mail_views(batch@), i as int),
        decreases batch.len() - i,
    {
        assert(mail_views(batch@)[i as int] == batch@[i as int]@);
        seen = match seen {
            Some(a) => if t::comes_no_later(batch[i].timestamp.as_str(), a.as_str()) {
                Some(a)
            } else {
                Some(batch[i].timestamp.clone())
            },
            None => Some(batch[i].timestamp.clone()),
        };
        i += 1;
    }
    seen
}

proof fn lemma_newest(before: Option<Seq<char>>, batch: Seq<AgentMailMessage<Seq<char>>>, n: int)
    requires
        0 <= n <= batch.len(),
    ensures
        n == 0 ==> newest(before, batch, n) == before,
        n > 0 ==> newest(before, batch, n) is Some,
        newest(before, batch, n) is Some ==> before == newest(before, batch, n) || exists|k: int|
            0 <= k < n && (#[trigger] batch[k]).timestamp == newest(before, batch, n)->0,
        before is Some ==> newest(before, batch, n) is Some && t::no_later(before->0, newest(before, batch, n)->0),
        forall|k: int|
            0 <= k < n ==> t::no_later((#[trigger] batch[k]).timestamp, newest(before, batch, n)->0),
    decreases n,
{
    if n == 0 {
        if before is Some {
            t::lemma_no_later_total(before->0, before->0);
        }
    } else {
        lemma_newest(before, batch, n - 1);
        let last = batch[n - 1].timestamp;
        let r = newest(before, batch, n)->0;
        t::lemma_no_later_total(last, last);
        match newest(before, batch, n - 1) {
            Some(a) => {
                t::lemma_no_later_total(last, a);
                t::lemma_no_later_total(a, a);
                if before is Some {
                    t::lemma_no_later_transitive(before->0, a, r);
                }
                assert forall|k: int| 0 <= k < n implies t::no_later((#[trigger] batch[k]).timestamp, r) by {
                    if k < n - 1 {
                        t::lemma_no_later_transitive(batch[k].timestamp, a, r);
                    }
                }
            },
            None => {
                assert(n - 1 == 0);
            },
        }
    }
}

/// The time that is kept is the highest one: no mail of the batch is later, nor is
/// the time that was there before, and it is one of these.
pub proof fn law_the_highest_time_is_kept(before: Option<Seq<char>>, batch: Seq<AgentMailMessage<Seq<char>>>)
    ensures
        ({
            let after = newest(before, batch, batch.len() as int);
            &&& batch.len() == 0 ==> after == before
            &&& before is Some ==> after is Some && t::no_later(before->0, after->0)
            &&& forall|k: int|
                0 <= k < batch.len() ==> after is Some && t::no_later((#[trigger] batch[k]).timestamp, after->0)
            &&& after is Some ==> before == after || exists|k: int|
                0 <= k < batch.len() && (#[trigger] batch[k]).timestamp == after->0
        }),
{
    lemma_newest(before, batch, batch.len() as int);
}

/// The path of a request for mails, since a time where there is one.
pub fn agentmail_query(inbox: &str, since: Option<&str>) -> (r: String)
    ensures
        r@ == "/inboxes/"@ + inbox@ + "/messages?limit=20"@ + (match since {
            Some(s) => "&after="@ + s@,
            None => Seq::empty(),
        }),
{
    let tail = match since {
        Some(s) => "&after=".to_owned().concat(s),
        None => empty(),
    };
    "/inboxes/".to_owned().concat(inbox).concat("/messages?limit=20").concat(tail.as_str())
}

/// The first inbox of an account, where it has one.
pub open spec fn default_inbox(answer: Tree) -> Option<Seq<char>> {
    match answer.items_at("inboxes"@) {
        Some(items) => if items.len() == 0 {
            None
        } else if items[0].get("inbox_id"@) is Some {
            items[0].text_at("inbox_id"@)
        } else {
            items[0].text_at("id"@)
        },
        None => None,
    }
}

pub fn agentmail_default_inbox(answer: &Json) -> (r: Option<String>)
    ensures
        t::opt_view(r) == default_inbox(answer@),
{
    match answer.items_at("inboxes") {
        Some(items) => {
            assert(json::trees(items@).len() == items@.len());
            if items.len() == 0 {
                return None;
            }
            assert(json::trees(items@)[0] == items@[0]@);
            if items[0].get("inbox_id").is_some() {
                items[0].text_at("inbox_id")
            } else {
                items[0].text_at("id")
            }
        },
        None => None,
    }
}

pub open spec fn mail_body(thread_id: Seq<char>, reply_to: Option<Seq<char>>, text: Seq<char>) -> Tree {
    Tree::Record(
        seq![
            ("text"@, Tree::Text(text)),
            ("thread_id"@, Tree::Text(thread_id)),
            (
                "in_reply_to"@,
                match reply_to {
                    Some(id) => Tree::Text(id),
                    None => Tree::Null,
                },
            ),
        ],
    )
}

/// The document of a mail.
pub fn agentmail_send(thread_id: &str, reply_to: Option<&str>, text: &str) -> (r: Json)
    ensures
        r@ == mail_body(thread_id@, t::opt_str(reply_to), text@),
{
    let reply = match reply_to {
        Some(id) => Json::Text(id.to_owned()),
        None => Json::Null,
    };
    let mut f: Vec<(String, Json)> = Vec::new();
    field(&mut f, "text", Json::Text(text.to_owned()));
    field(&mut f, "thread_id", Json::Text(thread_id.to_owned()));
    field(&mut f, "in_reply_to", reply);
    assert(json::entries(f@) =~= mail_body(thread_id@, t::opt_str(reply_to), text@)->Record_0);
    record(f)
}

/// Where the loop that serves an inbox stands: what it waits for. `total` are
/// the mails of the batch, `at` the one that is dealt with.
#[derive(Clone, Copy, Debug, PartialEq, Eq, Structural)]
pub enum MailStage {
    Polling,
    Enqueueing { at: usize, total: usize },
    Saving { total: usize },
    Running { total: usize },
    Delivering { at: usize, total: usize },
    Ended,
}

#[derive(Clone, Copy, Debug, PartialEq, Eq, Structural)]
pub enum MailEvent {
    /// The mails that came, by number.
    Mails { count: usize },
    Done,
    Failed,
}

#[derive(Clone, Copy, Debug, PartialEq, Eq, Structural)]
pub enum MailAction {
    Poll,
    /// Note a failed request; rest, and poll again.
    ReportAndRest { seconds: u64 },
    /// Note a failed request, and end.
    ReportAndFinish,
    /// Hand the mail at this place to the agent, and take its time as seen.
    Enqueue { at: usize },
    SaveState,
    /// Let the agent take one turn here.
    RunOnce,
    /// Deliver what is waiting in the thread of the mail at this place.
    Deliver { at: usize },
    /// Rest, and poll again.
    Rest { seconds: u64 },
    Finish,
    /// End with the error that came last.
    Fail,
    /// The event is not one that was waited for.
    Ignore,
}

/// How the loop runs.
#[derive(Clone, Copy, Debug, PartialEq, Eq, Structural)]
pub struct MailOptions {
    /// Stop after one round.
    pub once: bool,
    /// The agent's turn runs here, not in a worker.
    pub run_here: bool,
    pub poll_seconds: u64,
}

impl MailOptions {
    pub open spec fn rest(self) -> u64 {
        if self.poll_seconds < 2 {
            2
        } else {
            self.poll_seconds
        }
    }

    /// The end of a round.
    pub open spec fn round_ends(self) -> (MailStage, MailAction) {
        if self.once {
            (MailStage::Ended, MailAction::Finish)
        } else {
            (MailStage::Polling, MailAction::Rest { seconds: self.rest() })
        }
    }

    /// The mails from `at` on are handed to the agent.
    pub open spec fn enqueues(self, at: int, total: usize) -> (MailStage, MailAction) {
        if at < total {
            (MailStage::Enqueueing { at: at as usize, total }, MailAction::Enqueue { at: at as usize })
        } else {
            (MailStage::Saving { total }, MailAction::SaveState)
        }
    }

    /// The threads of the mails from `at` on are delivered.
    pub open spec fn delivers(self, at: int, total: usize) -> (MailStage, MailAction) {
        if at < total {
            (MailStage::Delivering { at: at as usize, total }, MailAction::Deliver { at: at as usize })
        } else {
            self.round_ends()
        }
    }

    /// How the loop goes on when an event comes.
    pub open spec fn next(self, stage: MailStage, event: MailEvent) -> (MailStage, MailAction) {
        match (stage, event) {
            (MailStage::Ended, _) => (stage, MailAction::Ignore),
            (MailStage::Polling, MailEvent::Failed) => if self.once {
                (MailStage::Ended, MailAction::ReportAndFinish)
            } else {
                (MailStage::Polling, MailAction::ReportAndRest { seconds: self.rest() })
            },
            (_, MailEvent::Failed) => (MailStage::Ended, MailAction::Fail),
            (MailStage::Polling, MailEvent::Mails { count }) => self.enqueues(0, count),
            (MailStage::Polling, MailEvent::Done) => (MailStage::Polling, MailAction::Poll),
            (MailStage::Enqueueing { at, total }, MailEvent::Done) => self.enqueues(at + 1, total),
            (MailStage::Saving { total }, MailEvent::Done) => if self.run_here {
                (MailStage::Running { total }, MailAction::RunOnce)
            } else {
                self.delivers(0, total)
            },
            (MailStage::Running { total }, MailEvent::Done) => self.delivers(0, total),
            (MailStage::Delivering { at, total }, MailEvent::Done) => self.delivers(at + 1, total),
            _ => (stage, MailAction::Ignore),
        }
    }

    fn end_round(&self) -> (r: (MailStage, MailAction))
        ensures
            r == self.round_ends(),
    {
        if self.once {
            (MailStage::Ended, MailAction::Finish)
        } else {
            (MailStage::Polling, MailAction::Rest { seconds: poll_rest(self.poll_seconds) })
        }
    }

    fn deliver(&self, at: usize, total: usize) -> (r: (MailStage, MailAction))
        ensures
            r == self.delivers(at as int, total),
    {
        if at < total {
            (MailStage::Delivering { at, total }, MailAction::Deliver { at })
        } else {
            self.end_round()
        }
    }

    /// Goes on when an event comes; the loop starts in `Polling`, with a poll.
    pub fn serve_agentmail(&self, stage: MailStage, event: MailEvent) -> (r: (MailStage, MailAction))
        ensures
            r == self.next(stage, event),
    {
        match (stage, event) {
            (MailStage::Ended, _) => (stage, MailAction::Ignore),
            (MailStage::Polling, MailEvent::Failed) => {
                if self.once {
                    (MailStage::Ended, MailAction::ReportAndFinish)
                } else {
                    (
                        MailStage::Polling,
                        MailAction::ReportAndRest { seconds: poll_rest(self.poll_seconds) },
                    )
                }
            },
            (_, MailEvent::Failed) => (MailStage::Ended, MailAction::Fail),
            (MailStage::Polling, MailEvent::Mails { count }) => {
                if count > 0 {
                    (MailStage::Enqueueing { at: 0, total: count }, MailAction::Enqueue { at: 0 })
                } else {
                    (MailStage::Saving { total: count }, MailAction::SaveState)
                }
            },
            (MailStage::Polling, MailEvent::Done) => (MailStage::Polling, MailAction::Poll),
            (MailStage::Enqueueing { at, total }, MailEvent::Done) => {
                if at < total && total - at > 1 {
                    (MailStage::Enqueueing { at: at + 1, total }, MailAction::Enqueue { at: at + 1 })
                } else {
                    (MailStage::Saving { total }, MailAction::SaveState)
                }
            },
            (MailStage::Saving { total }, MailEvent::Done) => {
                if self.run_here {
                    (MailStage::Running { total }, MailAction::RunOnce)
                } else {
                    self.deliver(0, total)
                }
            },
            (MailStage::Running { total }, MailEvent::Done) => self.deliver(0, total),
            (MailStage::Delivering { at, total }, MailEvent::Done) => {
                if at < total && total - at > 1 {
                    self.deliver(at + 1, total)
                } else {
                    self.end_round()
                }
            },
            _ => (stage, MailAction::Ignore),
        }
    }
}

/// A request that fails does not end the loop, unless it runs only once.
pub proof fn law_the_mail_loop_survives_failed_polls(options: MailOptions)
    requires
        !options.once,
    ensures
        options.next(MailStage::Polling, MailEvent::Failed).0 == MailStage::Polling,
        options.next(MailStage::Polling, MailEvent::Failed).1 == (MailAction::ReportAndRest {
            seconds: options.rest(),
        }),
        options.rest() >= 2,
{
}

/// What was seen is kept before anything is answered: a delivery comes only
/// after the state was saved.
pub proof fn law_mail_is_kept_before_it_is_answered(options: MailOptions, stage: MailStage, event: MailEvent)
    ensures
        options.next(stage, event).1 is Deliver ==> event is Done && (stage is Saving || stage is Running
            || stage is Delivering),
        options.next(stage, event).0 is Running ==> stage is Saving || stage is Running,
{
}

/// How long the loop rests between two requests.
pub fn poll_rest(poll_seconds: u64) -> (r: u64)
    ensures
        r == if poll_seconds < 2 {
            2
        } else {
            poll_seconds
        },
{
    if poll_seconds < 2 {
        2
    } else {
        poll_seconds
    }
}

/// A mail that came in is taken with its id, its thread, its time and its text; a
/// mail that the agent sent itself is passed over.
pub proof fn law_a_mail_is_taken_as_it_came(m: Tree, id: Seq<char>)
    requires
        m.text_at("message_id"@) == Some(id),
    ensures
        m.text_at("type"@) == Some("sent"@) ==> mail_in(m) is None,
        m.text_at("type"@) != Some("sent"@) ==> (mail_in(m) matches Some(x) && {
            &&& x.message_id == id
            &&& m.text_at("thread_id"@) matches Some(s) ==> x.thread_id == s
            &&& m.text_at("thread_id"@) is None ==> x.thread_id == id
            &&& m.text_at("text"@) matches Some(s) ==> x.text == s
            &&& m.get("text"@) is None ==> (m.text_at("preview"@) matches Some(s) ==> x.text == s)
            &&& m.text_at("timestamp"@) matches Some(s) ==> x.timestamp == s
            &&& m.get("timestamp"@) is None ==> (m.text_at("created_at"@) matches Some(s) ==> x.timestamp == s)
        }),
{
}

/// Every mail that came in is taken, and nothing else, in the order of the list.
pub proof fn law_every_mail_is_taken(items: Seq<Tree>)
    ensures
        mails_in(items) == items.filter(|m: Tree| m.text_at("type"@) != Some("sent"@)).map_values(
            |m: Tree| mail_in(m)->0,
        ),
    decreases items.len(),
{
    let p = |m: Tree| m.text_at("type"@) != Some("sent"@);
    let f = |m: Tree| mail_in(m)->0;
    reveal(Seq::filter);
    if items.len() > 0 {
        law_every_mail_is_taken(items.drop_last());
        let before = items.drop_last().filter(p);
        if p(items.last()) {
            assert(before.push(items.last()).map_values(f) =~= before.map_values(f).push(f(items.last())));
        }
    } else {
        assert(items.filter(p).map_values(f) =~= mails_in(items));
    }
}

/// What was seen never moves back, and after a batch nothing of it is newer.
pub proof fn law_the_newest_mail_is_remembered(
    before: Option<Seq<char>>,
    batch: Seq<AgentMailMessage<Seq<char>>>,
    n: int,
)
    requires
        0 <= n <= batch.len(),
    ensures
        n == 0 ==> newest(before, batch, n) == before,
        before matches Some(a) ==> (newest(before, batch, n) matches Some(x) && t::no_later(a, x)),
        forall|i: int| 0 <= i < n ==> (newest(before, batch, n) matches Some(x) && t::no_later(
            (#[trigger] batch[i]).timestamp,
            x,
        )),
        newest(before, batch, n) matches Some(x) ==> before == Some(x) || exists|i: int|
            0 <= i < n && (#[trigger] batch[i]).timestamp == x,
    decreases n,
{
    if n == 0 {
        if before is Some {
            t::lemma_no_later_total(before->0, before->0);
        }
    } else {
        law_the_newest_mail_is_remembered(before, batch, n - 1);
        let a = newest(before, batch, n - 1);
        let b = batch[n - 1].timestamp;
        let x = later_of(a, b);
        t::lemma_no_later_total(b, b);
        if a is Some {
            t::lemma_no_later_total(a->0, b);
            t::lemma_no_later_total(a->0, a->0);
            if before is Some {
                t::lemma_no_later_transitive(before->0, a->0, x);
            }
            assert forall|i: int| 0 <= i < n implies t::no_later((#[trigger] batch[i]).timestamp, x) by {
                if i < n - 1 {
                    t::lemma_no_later_transitive(batch[i].timestamp, a->0, x);
                }
            }
        }
        assert(batch[n - 1].timestamp == b);
    }
}

/// A mail is answered in its thread, as a reply to it.
pub proof fn law_a_mail_is_answered_in_its_thread(thread_id: Seq<char>, reply_to: Option<Seq<char>>, text: Seq<char>)
    ensures
        mail_body(thread_id, reply_to, text).text_at("text"@) == Some(text),
        mail_body(thread_id, reply_to, text).text_at("thread_id"@) == Some(thread_id),
        mail_body(thread_id, reply_to, text).text_at("in_reply_to"@) == reply_to,
{
    reveal_strlit("text");
    reveal_strlit("thread_id");
    reveal_strlit("in_reply_to");
    assert("text"@.len() == 4 && "text"@[0] == 't' && "text"@[1] == 'e' && "text"@[2] == 'x' && "text"@[3] == 't');
    assert("thread_id"@.len() == 9 && "thread_id"@[0] == 't' && "thread_id"@[1] == 'h' && "thread_id"@[2] == 'r' && "thread_id"@[3] == 'e' && "thread_id"@[4] == 'a' && "thread_id"@[5] == 'd');
    assert("in_reply_to"@.len() == 11 && "in_reply_to"@[0] == 'i' && "in_reply_to"@[1] == 'n' && "in_reply_to"@[2] == '_' && "in_reply_to"@[3] == 'r' && "in_reply_to"@[4] == 'e' && "in_reply_to"@[5] == 'p');
    reveal_with_fuel(json::entry_from, 4);
}

/// The default inbox is the first one of the list.
pub proof fn law_the_first_inbox_is_the_default(answer: Tree, items: Seq<Tree>, id: Seq<char>)
    requires
        answer.items_at("inboxes"@) == Some(items),
        items.len() > 0,
    ensures
        items[0].text_at("inbox_id"@) == Some(id) ==> default_inbox(answer) == Some(id),
        items[0].get("inbox_id"@) is None && items[0].text_at("id"@) == Some(id) ==> default_inbox(answer) == Some(id),
{
}

/// In a round every mail goes to the agent in turn, what was seen is saved, the
/// agent takes its turn where it does so here, and every thread is delivered.
pub proof fn law_a_round_of_mail_goes_through_every_mail(o: MailOptions, at: usize, total: usize)
    requires
        at < total,
    ensures
        o.next(MailStage::Polling, MailEvent::Mails { count: total }) == (
            MailStage::Enqueueing { at: 0, total },
            MailAction::Enqueue { at: 0 },
        ),
        at + 1 < total ==> o.next(MailStage::Enqueueing { at, total }, MailEvent::Done) == (
            MailStage::Enqueueing { at: (at + 1) as usize, total },
            MailAction::Enqueue { at: (at + 1) as usize },
        ),
        at + 1 == total ==> o.next(MailStage::Enqueueing { at, total }, MailEvent::Done) == (
            MailStage::Saving { total },
            MailAction::SaveState,
        ),
        o.run_here ==> o.next(MailStage::Saving { total }, MailEvent::Done) == (
            MailStage::Running { total },
            MailAction::RunOnce,
        ),
        !o.run_here ==> o.next(MailStage::Saving { total }, MailEvent::Done) == (
            MailStage::Delivering { at: 0, total },
            MailAction::Deliver { at: 0 },
        ),
        o.next(MailStage::Running { total }, MailEvent::Done) == (
            MailStage::Delivering { at: 0, total },
            MailAction::Deliver { at: 0 },
        ),
        at + 1 < total ==> o.next(MailStage::Delivering { at, total }, MailEvent::Done) == (
            MailStage::Delivering { at: (at + 1) as usize, total },
            MailAction::Deliver { at: (at + 1) as usize },
        ),
        at + 1 == total && o.once ==> o.next(MailStage::Delivering { at, total }, MailEvent::Done) == (
            MailStage::Ended,
            MailAction::Finish,
        ),
        at + 1 == total && !o.once ==> o.next(MailStage::Delivering { at, total }, MailEvent::Done) == (
            MailStage::Polling,
            MailAction::Rest {
                seconds: if o.poll_seconds >= 2 {
                    o.poll_seconds
                } else {
                    2
                },
            },
        ),
{
}

} // verus!
