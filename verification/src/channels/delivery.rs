//! Delivery of the agent's replies.

use crate::channels::onboarding;
use crate::channels::onboarding::finalize_onboarding_reply;
use crate::text as t;
use vstd::prelude::*;
use vstd::string::*;

verus! {

/// How many characters a reply may have.
pub const MAX_RESPONSE_CHARS: usize = 3500;

/// How old, in seconds, a reply must be before the background delivery takes it
/// from a turn that may still be streaming.
pub const STREAM_BACKSTOP_SECS: u64 = 360;

pub open spec fn fit_for_chat(value: Seq<char>) -> Seq<char> {
    t::truncated(t::trimmed(value), 3500)
}

/// A reply that fits into one message.
pub fn truncate_for_telegram(value: &str) -> (r: String)
    ensures
        r@ == fit_for_chat(value@),
{
    t::truncate(t::trim(value).as_str(), MAX_RESPONSE_CHARS)
}

/// Where the delivery of a row stands.
#[derive(Debug, PartialEq, Eq)]
pub enum DeliveryStage<S> {
    /// The next row is awaited.
    Idle,
    Claiming,
    Reading,
    Sending { text: S },
}

/// What a channel finds out about a row.
#[derive(Debug, PartialEq, Eq)]
pub enum DeliveryEvent<S, L> {
    /// A row to look at: its channel and platform, its age in nanoseconds (none
    /// where it lies in the future), and whether a streamer may still be at work
    /// on its turn.
    Row { channel: S, platform_id: S, age_nanos: Option<u128>, streaming: bool },
    /// Whether the row could be claimed.
    Claimed { won: bool },
    /// The text of the row, where it could be read, and its files.
    Content { text: Option<S>, files: L },
    /// Whether the reply could be sent.
    Sent { ok: bool },
}

/// What the channel does next.
#[derive(Debug, PartialEq, Eq)]
pub enum DeliveryAction<S, L> {
    /// Go on to the next row.
    Skip,
    /// Try to claim the row.
    Claim,
    /// Read the claimed row.
    Read,
    /// Mark the row as delivered without sending anything.
    Drop,
    /// Take down the placeholder, and mark the row as delivered.
    Silence { ends_interview: bool },
    /// Send the reply, with its files if there are any; the interview ends
    /// where the reply says so.
    Send { text: S, files: L, ends_interview: bool },
    /// Mark the row as delivered, record the turn, and note the delivery.
    Record { text: S },
    /// Give the claim back, so that the row is tried again.
    Release,
}

impl View for DeliveryStage<String> {
    type V = DeliveryStage<Seq<char>>;

    open spec fn view(&self) -> DeliveryStage<Seq<char>> {
        match self {
            DeliveryStage::Idle => DeliveryStage::Idle,
            DeliveryStage::Claiming => DeliveryStage::Claiming,
            DeliveryStage::Reading => DeliveryStage::Reading,
            DeliveryStage::Sending { text } => DeliveryStage::Sending { text: text@ },
        }
    }
}

pub type DeliveryEventView = DeliveryEvent<Seq<char>, Seq<Seq<char>>>;

impl View for DeliveryEvent<String, Vec<String>> {
    type V = DeliveryEventView;

    open spec fn view(&self) -> DeliveryEventView {
        match self {
            DeliveryEvent::Row { channel, platform_id, age_nanos, streaming } => DeliveryEvent::Row {
                channel: channel@,
                platform_id: platform_id@,
                age_nanos: *age_nanos,
                streaming: *streaming,
            },
            DeliveryEvent::Claimed { won } => DeliveryEvent::Claimed { won: *won },
            DeliveryEvent::Content { text, files } => DeliveryEvent::Content {
                text: t::opt_view(*text),
                files: t::texts(files@),
            },
            DeliveryEvent::Sent { ok } => DeliveryEvent::Sent { ok: *ok },
        }
    }
}

pub type DeliveryActionView = DeliveryAction<Seq<char>, Seq<Seq<char>>>;

impl View for DeliveryAction<String, Vec<String>> {
    type V = DeliveryActionView;

    open spec fn view(&self) -> DeliveryActionView {
        match self {
            DeliveryAction::Skip => DeliveryAction::Skip,
            DeliveryAction::Claim => DeliveryAction::Claim,
            DeliveryAction::Read => DeliveryAction::Read,
            DeliveryAction::Drop => DeliveryAction::Drop,
            DeliveryAction::Silence { ends_interview } => DeliveryAction::Silence {
                ends_interview: *ends_interview,
            },
            DeliveryAction::Send { text, files, ends_interview } => DeliveryAction::Send {
                text: text@,
                files: t::texts(files@),
                ends_interview: *ends_interview,
            },
            DeliveryAction::Record { text } => DeliveryAction::Record { text: text@ },
            DeliveryAction::Release => DeliveryAction::Release,
        }
    }
}

/// One pass over the undelivered rows on behalf of one chat.
#[derive(Debug, PartialEq, Eq)]
pub struct Delivery<S> {
    pub channel: S,
    pub platform_id: S,
    /// A row younger than this, in nanoseconds, is left to its streamer.
    pub min_age_nanos: Option<u128>,
    /// The reply that says there is nothing to say.
    pub sentinel: S,
    pub stage: DeliveryStage<S>,
    /// How many replies were delivered.
    pub delivered: u64,
}

impl View for Delivery<String> {
    type V = Delivery<Seq<char>>;

    open spec fn view(&self) -> Delivery<Seq<char>> {
        Delivery {
            channel: self.channel@,
            platform_id: self.platform_id@,
            min_age_nanos: self.min_age_nanos,
            sentinel: self.sentinel@,
            stage: self.stage@,
            delivered: self.delivered,
        }
    }
}

/// Whether a row is left to the streamer of its turn.
pub open spec fn deferred(min_age_nanos: Option<u128>, age_nanos: Option<u128>, streaming: bool) -> bool {
    match (min_age_nanos, age_nanos) {
        (Some(min), Some(age)) => age < min && streaming,
        _ => false,
    }
}

pub fn is_deferred(min_age_nanos: Option<u128>, age_nanos: Option<u128>, streaming: bool) -> (r: bool)
    ensures
        r == deferred(min_age_nanos, age_nanos, streaming),
{
    match (min_age_nanos, age_nanos) {
        (Some(min), Some(age)) => age < min && streaming,
        _ => false,
    }
}

/// The reply that a text becomes.
pub open spec fn response_of(text: Seq<char>) -> Seq<char> {
    fit_for_chat(onboarding::onboarded_reply(text))
}

impl Delivery<Seq<char>> {
    pub open spec fn at(self, stage: DeliveryStage<Seq<char>>) -> Delivery<Seq<char>> {
        Delivery { stage, ..self }
    }

    pub open spec fn next(self, event: DeliveryEventView) -> (Delivery<Seq<char>>, DeliveryActionView) {
        match (self.stage, event) {
            (DeliveryStage::Idle, DeliveryEvent::Row { channel, platform_id, age_nanos, streaming }) => {
                if channel != self.channel || platform_id != self.platform_id || deferred(
                    self.min_age_nanos,
                    age_nanos,
                    streaming,
                ) {
                    (self, DeliveryAction::Skip)
                } else {
                    (self.at(DeliveryStage::Claiming), DeliveryAction::Claim)
                }
            },
            (DeliveryStage::Claiming, DeliveryEvent::Claimed { won }) => if won {
                (self.at(DeliveryStage::Reading), DeliveryAction::Read)
            } else {
                (self.at(DeliveryStage::Idle), DeliveryAction::Skip)
            },
            (DeliveryStage::Reading, DeliveryEvent::Content { text, files }) => match text {
                None => (self.at(DeliveryStage::Idle), DeliveryAction::Drop),
                Some(raw) => {
                    let response = response_of(raw);
                    if t::trimmed(response) == self.sentinel {
                        (
                            self.at(DeliveryStage::Idle),
                            DeliveryAction::Silence { ends_interview: t::has(raw, "[[ONBOARDING_COMPLETE]]"@) },
                        )
                    } else {
                        (
                            self.at(DeliveryStage::Sending { text: response }),
                            DeliveryAction::Send {
                                text: response,
                                files,
                                ends_interview: t::has(raw, "[[ONBOARDING_COMPLETE]]"@),
                            },
                        )
                    }
                },
            },
            (DeliveryStage::Sending { text }, DeliveryEvent::Sent { ok }) => if ok {
                (
                    Delivery {
                        stage: DeliveryStage::Idle,
                        delivered: (self.delivered + 1) as u64,
                        ..self
                    },
                    DeliveryAction::Record { text },
                )
            } else {
                (self.at(DeliveryStage::Idle), DeliveryAction::Release)
            },
            _ => (self, DeliveryAction::Skip),
        }
    }
}

impl Delivery<String> {
    /// A pass for one chat of one channel.
    pub fn new(channel: String, platform_id: String, min_age_nanos: Option<u128>, sentinel: String) -> (r: Self)
        ensures
            r@ == (Delivery {
                channel: channel@,
                platform_id: platform_id@,
                min_age_nanos,
                sentinel: sentinel@,
                stage: DeliveryStage::Idle,
                delivered: 0,
            }),
    {
        Delivery { channel, platform_id, min_age_nanos, sentinel, stage: DeliveryStage::Idle, delivered: 0 }
    }

    /// Takes the next step of the pass.
    pub fn deliver_outbox(self, event: DeliveryEvent<String, Vec<String>>) -> (r: (
        Self,
        DeliveryAction<String, Vec<String>>,
    ))
        requires
            self.delivered < u64::MAX,
        ensures
            (r.0@, r.1@) == self@.next(event@),
    {
        let Delivery { channel, platform_id, min_age_nanos, sentinel, stage, delivered } = self;
        let (next, count, action) = match (stage, event) {
            (
                DeliveryStage::Idle,
                DeliveryEvent::Row { channel: c, platform_id: p, age_nanos, streaming },
            ) => {
                if !t::same(c.as_str(), channel.as_str()) || !t::same(p.as_str(), platform_id.as_str())
                    || is_deferred(min_age_nanos, age_nanos, streaming) {
                    (DeliveryStage::Idle, delivered, DeliveryAction::Skip)
                } else {
                    (DeliveryStage::Claiming, delivered, DeliveryAction::Claim)
                }
            },
            (DeliveryStage::Claiming, DeliveryEvent::Claimed { won }) => if won {
                (DeliveryStage::Reading, delivered, DeliveryAction::Read)
            } else {
                (DeliveryStage::Idle, delivered, DeliveryAction::Skip)
            },
            (DeliveryStage::Reading, DeliveryEvent::Content { text, files }) => match text {
                None => (DeliveryStage::Idle, delivered, DeliveryAction::Drop),
                Some(raw) => {
                    let (plain, ends_interview) = finalize_onboarding_reply(raw.as_str());
                    let response = truncate_for_telegram(plain.as_str());
                    if t::same(t::trim(response.as_str()).as_str(), sentinel.as_str()) {
                        (DeliveryStage::Idle, delivered, DeliveryAction::Silence { ends_interview })
                    } else {
                        let text = response.clone();
                        (
                            DeliveryStage::Sending { text: response },
                            delivered,
                            DeliveryAction::Send { text, files, ends_interview },
                        )
                    }
                },
            },
            (DeliveryStage::Sending { text }, DeliveryEvent::Sent { ok }) => if ok {
                (DeliveryStage::Idle, delivered + 1, DeliveryAction::Record { text })
            } else {
                (DeliveryStage::Idle, delivered, DeliveryAction::Release)
            },
            (stage, _) => (stage, delivered, DeliveryAction::Skip),
        };
        (
            Delivery { channel, platform_id, min_age_nanos, sentinel, stage: next, delivered: count },
            action,
        )
    }
}

/// Something is sent only for a row that was claimed and read, never for the
/// sentinel, and never longer than a message may be.
pub proof fn law_only_claimed_replies_are_sent(d: Delivery<Seq<char>>, event: DeliveryEventView)
    requires
        d.next(event).1 is Send,
    ensures
        d.stage is Reading,
        event matches DeliveryEvent::Content { text, files } && text is Some && d.next(event).1
            == (DeliveryActionView::Send {
            text: response_of(text->0),
            files,
            ends_interview: t::has(text->0, "[[ONBOARDING_COMPLETE]]"@),
        }) && t::trimmed(response_of(text->0)) != d.sentinel,
{
}

/// A row is read only where its claim was won, and claimed only where it is
/// addressed to this chat.
pub proof fn law_only_own_rows_are_claimed(d: Delivery<Seq<char>>, event: DeliveryEventView)
    ensures
        d.next(event).1 is Read ==> d.stage is Claiming && event == (DeliveryEventView::Claimed { won: true }),
        d.next(event).1 is Claim ==> (event matches DeliveryEvent::Row { channel, platform_id, .. } && channel
            == d.channel && platform_id == d.platform_id),
{
}

/// A delivery counts exactly where a reply was sent; a reply that could not be
/// sent gives its claim back.
pub proof fn law_a_failed_reply_is_released(d: Delivery<Seq<char>>, event: DeliveryEventView)
    requires
        d.delivered < u64::MAX,
    ensures
        d.next(event).0.delivered == d.delivered + if d.next(event).1 is Record {
            1int
        } else {
            0
        },
        d.next(event).1 is Record <==> d.stage is Sending && event == (DeliveryEventView::Sent { ok: true }),
        d.stage is Sending && event == (DeliveryEventView::Sent { ok: false }) ==> d.next(event).1 is Release,
{
}

/// A reply whose turn no streamer works on is never left to a later pass, however
/// young it is.
pub proof fn law_an_unstreamed_reply_does_not_wait(d: Delivery<Seq<char>>, age_nanos: Option<u128>)
    requires
        d.stage is Idle,
    ensures
        d.next(
            DeliveryEventView::Row {
                channel: d.channel,
                platform_id: d.platform_id,
                age_nanos,
                streaming: false,
            },
        ).1 is Claim,
{
}

/// A reply as it is sent: without the white space around it, and cut where it is
/// longer than a message may be.
pub open spec fn fits(text: Seq<char>, sent: Seq<char>) -> bool {
    &&& t::trimmed(text).len() <= 3500 ==> sent == t::trimmed(text)
    &&& t::trimmed(text).len() > 3500 ==> sent == t::trimmed(text).take(3500) + "\n...[truncated]"@
}

/// A row that was claimed and could be read is sent, with its text and with all
/// of its files; nothing is kept back but the reply that says there is nothing
/// to say.
pub proof fn law_a_claimed_reply_is_sent_with_its_files(
    d: Delivery<Seq<char>>,
    raw: Seq<char>,
    files: Seq<Seq<char>>,
    sent: Seq<char>,
)
    requires
        d.stage is Reading,
        !t::has(raw, "[[ONBOARDING_COMPLETE]]"@),
        fits(raw, sent),
    ensures
        ({
            let (after, action) = d.next(DeliveryEvent::Content { text: Some(raw), files });
            &&& t::trimmed(sent) != d.sentinel ==> action == (DeliveryAction::Send {
                text: sent,
                files,
                ends_interview: false,
            }) && after.stage == (DeliveryStage::Sending { text: sent })
            &&& t::trimmed(sent) == d.sentinel ==> action == (DeliveryAction::<Seq<char>, Seq<Seq<char>>>::Silence {
                ends_interview: false,
            }) && after.stage is Idle
            &&& after.delivered == d.delivered
        }),
{
}

/// A reply that ends the interview says so, and is sent without its marker.
pub proof fn law_the_interview_ends_with_its_marker(
    d: Delivery<Seq<char>>,
    raw: Seq<char>,
    files: Seq<Seq<char>>,
    sent: Seq<char>,
)
    requires
        d.stage is Reading,
        t::has(raw, "[[ONBOARDING_COMPLETE]]"@),
        fits(t::trimmed(t::replaced(raw, "[[ONBOARDING_COMPLETE]]"@, ""@)), sent),
    ensures
        ({
            let action = d.next(DeliveryEvent::Content { text: Some(raw), files }).1;
            &&& t::trimmed(sent) != d.sentinel ==> action == (DeliveryAction::Send {
                text: sent,
                files,
                ends_interview: true,
            })
            &&& t::trimmed(sent) == d.sentinel ==> action == (DeliveryAction::<Seq<char>, Seq<Seq<char>>>::Silence {
                ends_interview: true,
            })
        }),
{
}

/// Nothing is silenced or dropped but what was claimed and read: what cannot be
/// read is dropped, and only that.
pub proof fn law_only_an_unreadable_row_is_dropped(d: Delivery<Seq<char>>, event: DeliveryEventView)
    ensures
        d.next(event).1 is Drop <==> d.stage is Reading && (event matches DeliveryEvent::Content { text, .. }
            && text is None),
        d.next(event).1 is Silence ==> d.stage is Reading && (event matches DeliveryEvent::Content { text, .. }
            && text is Some),
{
}

/// A row of this chat is claimed, unless it is young and its turn is still being
/// streamed; a row of another chat is passed over.
pub proof fn law_a_row_of_this_chat_is_claimed(
    d: Delivery<Seq<char>>,
    channel: Seq<char>,
    platform_id: Seq<char>,
    age_nanos: Option<u128>,
    streaming: bool,
)
    requires
        d.stage is Idle,
    ensures
        ({
            let (after, action) = d.next(DeliveryEvent::Row { channel, platform_id, age_nanos, streaming });
            let own = channel == d.channel && platform_id == d.platform_id;
            let young = streaming && d.min_age_nanos is Some && age_nanos is Some && age_nanos->0 < d.min_age_nanos->0;
            &&& own && !young ==> action is Claim && after.stage is Claiming
            &&& !own || young ==> action is Skip && after == d
        }),
{
}

/// A claim that was won is read, and one that was lost is left to the winner.
pub proof fn law_a_lost_claim_is_left_alone(d: Delivery<Seq<char>>)
    requires
        d.stage is Claiming,
    ensures
        d.next(DeliveryEvent::Claimed { won: true }).1 is Read,
        d.next(DeliveryEvent::Claimed { won: true }).0.stage is Reading,
        d.next(DeliveryEvent::Claimed { won: false }).1 is Skip,
        d.next(DeliveryEvent::Claimed { won: false }).0.stage is Idle,
{
}

/// What is recorded as said is what was sent, and behind every row the next one
/// is looked at.
pub proof fn law_what_was_sent_is_recorded(d: Delivery<Seq<char>>, ok: bool)
    requires
        d.stage is Sending,
    ensures
        d.next(DeliveryEvent::Sent { ok: true }).1 == (DeliveryAction::<Seq<char>, Seq<Seq<char>>>::Record {
            text: d.stage->Sending_text,
        }),
        d.next(DeliveryEvent::Sent { ok }).0.stage is Idle,
{
}

/// A pass stays with its chat.
pub proof fn law_a_pass_stays_with_its_chat(d: Delivery<Seq<char>>, event: DeliveryEventView)
    ensures
        d.next(event).0.channel == d.channel,
        d.next(event).0.platform_id == d.platform_id,
        d.next(event).0.min_age_nanos == d.min_age_nanos,
        d.next(event).0.sentinel == d.sentinel,
{
}

// ---------------------------------------------------------------------------
// Files
// ---------------------------------------------------------------------------

/// The name under which a file is listed: its file name, or the path where it
/// has none.
pub open spec fn listed_names(files: Seq<Seq<char>>, names: Seq<Option<String>>) -> Seq<Seq<char>> {
    Seq::new(
        files.len(),
        |i: int|
            match t::opt_view(names[i]) {
                Some(n) => n,
                None => files[i],
            },
    )
}

/// The reply of a channel that cannot upload: the text and the names of the
/// files. `names` holds the file name of each path, where it has one.
pub fn files_produced_text(text: &str, files: &Vec<String>, names: &Vec<Option<String>>) -> (r: String)
    requires
        files@.len() == names@.len(),
    ensures
        r@ == if t::trimmed(text@).len() == 0 {
            "📎 Files produced: "@ + t::joined(listed_names(t::texts(files@), names@), ", "@)
        } else {
            text@ + "\n📎 Files produced: "@ + t::joined(listed_names(t::texts(files@), names@), ", "@)
        },
{
    let mut shown: Vec<String> = Vec::new();
    let mut i: usize = 0;
    while i < files.len()
        invariant
            i <= files.len(),
            files@.len() == names@.len(),
            shown.len() == i,
            forall|k: int|
                0 <= k < i ==> (#[trigger] shown@[k])@ == listed_names(t::texts(files@), names@)[k],
        decreases files.len() - i,
    {
        match &names[i] {
            Some(n) => shown.push(n.clone()),
            None => shown.push(files[i].clone()),
        }
        i += 1;
    }
    assert(t::texts(shown@) =~= listed_names(t::texts(files@), names@));
    let list = t::join(&shown, ", ");
    if t::trim(text).as_str().is_empty() {
        "📎 Files produced: ".to_owned().concat(list.as_str())
    } else {
        text.to_owned().concat("\n📎 Files produced: ").concat(list.as_str())
    }
}

/// Whether the text goes with the upload of the file at this place: with the
/// first one, unless the text was already sent.
pub fn is_captioned(index: usize, text_already_sent: bool) -> (r: bool)
    ensures
        r == (index == 0 && !text_already_sent),
{
    index == 0 && !text_already_sent
}

/// The names that there are.
pub open spec fn present(names: Seq<Option<String>>) -> Seq<Seq<char>>
    decreases names.len(),
{
    if names.len() == 0 {
        Seq::empty()
    } else {
        match names.last() {
            Some(n) => present(names.drop_last()).push(n@),
            None => present(names.drop_last()),
        }
    }
}

/// What is sent instead when no file could be uploaded and the text was not
/// sent yet; nothing otherwise.
pub fn upload_fallback(text: &str, names: &Vec<Option<String>>, uploaded: usize, text_already_sent: bool) -> (r:
    Option<String>)
    ensures
        t::opt_view(r) == if uploaded == 0 && !text_already_sent {
            Some(text@ + "\n(couldn't attach: "@ + t::joined(present(names@), ", "@) + ")"@)
        } else {
            None
        },
{
    if uploaded != 0 || text_already_sent {
        return None;
    }
    let mut shown: Vec<String> = Vec::new();
    let mut i: usize = 0;
    assert(names@.take(0) =~= Seq::<Option<String>>::empty());
    assert(t::texts(shown@) =~= Seq::<Seq<char>>::empty());
    while i < names.len()
        invariant
            i <= names.len(),
            t::texts(shown@) == present(names@.take(i as int)),
        decreases names.len() - i,
    {
        let ghost before = t::texts(shown@);
        assert(names@.take(i as int + 1).drop_last() =~= names@.take(i as int));
        match &names[i] {
            Some(n) => {
                shown.push(n.clone());
                assert(t::texts(shown@) =~= before.push(n@));
            },
            None => {},
        }
        i += 1;
    }
    assert(names@.take(names@.len() as int) =~= names@);
    Some(
        text.to_owned().concat("\n(couldn't attach: ").concat(t::join(&shown, ", ").as_str()).concat(")"),
    )
}

/// The message that a reply answers, from the thread of its row.
pub fn reply_target(thread_id: Option<&str>) -> (r: Option<i64>)
    ensures
        r is Some <==> (thread_id is Some && t::parsed_signed(thread_id->0@, i64::MAX as nat) is Some),
        r matches Some(n) ==> t::parsed_signed(thread_id->0@, i64::MAX as nat) == Some(n as int),
{
    match thread_id {
        Some(s) => t::parse_i64(s),
        None => None,
    }
}

/// Every file is listed by its name, or by its path where it has none; of the
/// names, those that there are stand in their order.
pub proof fn law_every_file_is_listed_by_its_name(
    files: Seq<Seq<char>>,
    names: Seq<Option<String>>,
    i: int,
    more: Option<String>,
)
    requires
        files.len() == names.len(),
        0 <= i < files.len(),
    ensures
        listed_names(files, names).len() == files.len(),
        names[i] matches Some(n) ==> listed_names(files, names)[i] == n@,
        names[i] is None ==> listed_names(files, names)[i] == files[i],
        more matches Some(n) ==> present(names.push(more)) == present(names).push(n@),
        more is None ==> present(names.push(more)) == present(names),
        present(Seq::empty()).len() == 0,
{
    assert(names.push(more).drop_last() =~= names);
    assert(names.push(more).last() == more);
}

} // verus!
