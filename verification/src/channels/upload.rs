//! A reply that carries files: the text goes out once, and each file after it.

use crate::channels::delivery;
use crate::channels::delivery::{is_captioned, upload_fallback};
use crate::text as t;
use vstd::prelude::*;
use vstd::string::*;

verus! {

/// Where the sending of a reply with files stands.
#[derive(Debug, PartialEq, Eq)]
pub enum UploadStage {
    /// The text takes the place of the live message.
    Finalizing,
    /// The mark of the live message is taken away.
    Clearing,
    /// The file at a place is uploaded; so many were, and the last one became the
    /// message `last`.
    Uploading { at: usize, uploaded: usize, last: Option<i64> },
    /// The text is sent with the names of the files.
    FallingBack,
    Ended,
}

#[derive(Debug, PartialEq, Eq)]
pub enum UploadEvent<S> {
    Done,
    Sent { id: Option<i64> },
    Failed { error: S },
}

#[derive(Debug, PartialEq, Eq)]
pub enum UploadAction<S> {
    /// Put the text in place of the live message.
    Finalize { live_id: i64 },
    /// Take the mark of the live message away.
    Clear,
    /// Upload the file at a place, with the text where it goes with it.
    Upload { at: usize, captioned: bool },
    /// Send a text that names the files.
    Send { text: S },
    Finish { id: Option<i64> },
    Fail { error: S },
    /// The event is not one that was waited for.
    Ignore,
}

impl View for UploadEvent<String> {
    type V = UploadEvent<Seq<char>>;

    open spec fn view(&self) -> UploadEvent<Seq<char>> {
        match self {
            UploadEvent::Done => UploadEvent::Done,
            UploadEvent::Sent { id } => UploadEvent::Sent { id: *id },
            UploadEvent::Failed { error } => UploadEvent::Failed { error: error@ },
        }
    }
}

impl View for UploadAction<String> {
    type V = UploadAction<Seq<char>>;

    open spec fn view(&self) -> UploadAction<Seq<char>> {
        match self {
            UploadAction::Finalize { live_id } => UploadAction::Finalize { live_id: *live_id },
            UploadAction::Clear => UploadAction::Clear,
            UploadAction::Upload { at, captioned } => UploadAction::Upload { at: *at, captioned: *captioned },
            UploadAction::Send { text } => UploadAction::Send { text: text@ },
            UploadAction::Finish { id } => UploadAction::Finish { id: *id },
            UploadAction::Fail { error } => UploadAction::Fail { error: error@ },
            UploadAction::Ignore => UploadAction::Ignore,
        }
    }
}

/// A reply with files on its way: its text, the names of its files, where they
/// have one, and whether the turn has a live message that takes the text.
#[derive(Debug, PartialEq, Eq)]
pub struct Upload {
    pub text: String,
    pub names: Vec<Option<String>>,
    pub live: bool,
    pub stage: UploadStage,
}

pub type UploadStep = (UploadStage, UploadAction<Seq<char>>);

/// What stands in for files that could not be sent.
pub open spec fn fallback_text(text: Seq<char>, names: Seq<Option<String>>) -> Seq<char> {
    text + "\n(couldn't attach: "@ + t::joined(delivery::present(names), ", "@) + ")"@
}

impl Upload {
    /// Whether the stage is one that a reply with so many files comes to.
    pub open spec fn sound(self) -> bool {
        &&& self.names@.len() <= usize::MAX
        &&& self.stage matches UploadStage::Uploading { at, uploaded, .. } ==> at < self.names@.len() && uploaded <= at
    }

    /// Goes on to the file at a place, or ends behind the last one.
    pub open spec fn onward(self, at: int, uploaded: usize, last: Option<i64>) -> UploadStep {
        if at < self.names@.len() {
            (
                UploadStage::Uploading { at: at as usize, uploaded, last },
                UploadAction::Upload { at: at as usize, captioned: at == 0 && !self.live },
            )
        } else if uploaded == 0 && !self.live {
            (UploadStage::FallingBack, UploadAction::Send { text: fallback_text(self.text@, self.names@) })
        } else {
            (UploadStage::Ended, UploadAction::Finish { id: last })
        }
    }

    pub open spec fn next(self, event: UploadEvent<Seq<char>>) -> UploadStep {
        match (self.stage, event) {
            (UploadStage::Finalizing, UploadEvent::Sent { .. }) => (UploadStage::Clearing, UploadAction::Clear),
            (UploadStage::Clearing, UploadEvent::Done) => self.onward(0, 0, None),
            (UploadStage::Uploading { at, uploaded, .. }, UploadEvent::Sent { id }) => self.onward(
                at + 1,
                (uploaded + 1) as usize,
                id,
            ),
            (UploadStage::Uploading { at, uploaded, last }, UploadEvent::Failed { .. }) => self.onward(
                at + 1,
                uploaded,
                last,
            ),
            (UploadStage::FallingBack, UploadEvent::Sent { id }) => (UploadStage::Ended, UploadAction::Finish { id }),
            (UploadStage::Finalizing | UploadStage::FallingBack, UploadEvent::Failed { error }) => (
                UploadStage::Ended,
                UploadAction::Fail { error },
            ),
            _ => (self.stage, UploadAction::Ignore),
        }
    }

    /// Starts to send a reply with files; `live_id` is the live message of its turn.
    pub fn send_files(text: String, names: Vec<Option<String>>, live_id: Option<i64>) -> (r: (
        Upload,
        UploadAction<String>,
    ))
        ensures
            r.0.text@ == text@,
            r.0.names@ == names@,
            r.0.live == live_id is Some,
            r.0.sound(),
            (r.0.stage, r.1@) == match live_id {
                Some(live_id) => (UploadStage::Finalizing, (UploadAction::<Seq<char>>::Finalize { live_id })),
                None => (UploadStage::Clearing, UploadAction::<Seq<char>>::Clear),
            },
    {
        assert(names.len() <= usize::MAX);
        match live_id {
            Some(live_id) => (
                Upload { text, names, live: true, stage: UploadStage::Finalizing },
                UploadAction::Finalize { live_id },
            ),
            None => (Upload { text, names, live: false, stage: UploadStage::Clearing }, UploadAction::Clear),
        }
    }

    fn go_on(&self, at: usize, uploaded: usize, last: Option<i64>) -> (r: (UploadStage, UploadAction<String>))
        ensures
            (r.0, r.1@) == self.onward(at as int, uploaded, last),
    {
        if at < self.names.len() {
            (
                UploadStage::Uploading { at, uploaded, last },
                UploadAction::Upload { at, captioned: is_captioned(at, self.live) },
            )
        } else {
            match upload_fallback(self.text.as_str(), &self.names, uploaded, self.live) {
                Some(text) => (UploadStage::FallingBack, UploadAction::Send { text }),
                None => (UploadStage::Ended, UploadAction::Finish { id: last }),
            }
        }
    }

    /// Goes on when an event comes.
    pub fn advance(self, event: UploadEvent<String>) -> (r: (Upload, UploadAction<String>))
        requires
            self.sound(),
        ensures
            r.0.text@ == self.text@,
            r.0.names@ == self.names@,
            r.0.live == self.live,
            r.0.sound(),
            (r.0.stage, r.1@) == self.next(event@),
    {
        let (stage, action) = match (&self.stage, event) {
            (UploadStage::Finalizing, UploadEvent::Sent { .. }) => (UploadStage::Clearing, UploadAction::Clear),
            (UploadStage::Clearing, UploadEvent::Done) => self.go_on(0, 0, None),
            (UploadStage::Uploading { at, uploaded, .. }, UploadEvent::Sent { id }) => self.go_on(
                *at + 1,
                *uploaded + 1,
                id,
            ),
            (UploadStage::Uploading { at, uploaded, last }, UploadEvent::Failed { .. }) => self.go_on(
                *at + 1,
                *uploaded,
                *last,
            ),
            (UploadStage::FallingBack, UploadEvent::Sent { id }) => (UploadStage::Ended, UploadAction::Finish { id }),
            (UploadStage::Finalizing | UploadStage::FallingBack, UploadEvent::Failed { error }) => (
                UploadStage::Ended,
                UploadAction::Fail { error },
            ),
            _ => {
                let Upload { text, names, live, stage } = self;
                return (Upload { text, names, live, stage }, UploadAction::Ignore);
            },
        };
        (Upload { text: self.text, names: self.names, live: self.live, stage }, action)
    }
}

/// Where no file could be sent, the text still goes out: in place of the live
/// message, or else with the names of the files.
pub proof fn law_the_text_goes_out_though_no_file_does(u: Upload, error: Seq<char>)
    requires
        u.sound(),
        u.stage matches UploadStage::Uploading { at, uploaded, .. } && at + 1 == u.names@.len() && uploaded == 0,
    ensures
        u.next(UploadEvent::Failed { error }).1 == if u.live {
            (UploadAction::Finish { id: u.stage->last })
        } else {
            (UploadAction::Send { text: fallback_text(u.text@, u.names@) })
        },
{
}

/// The text is the caption of the first file alone, and of none where it took
/// the place of the live message.
pub proof fn law_only_the_first_file_carries_the_text(u: Upload, event: UploadEvent<Seq<char>>)
    requires
        u.sound(),
        u.next(event).1 is Upload,
    ensures
        u.next(event).1 matches UploadAction::Upload { at, captioned } && (captioned == (at == 0 && !u.live)),
{
}

/// A file that could not be sent does not hold up the ones behind it.
pub proof fn law_a_failed_upload_does_not_stop_the_next(u: Upload, error: Seq<char>)
    requires
        u.sound(),
        u.stage matches UploadStage::Uploading { at, .. } && at + 1 < u.names@.len(),
    ensures
        u.next(UploadEvent::Failed { error }).1 == (UploadAction::<Seq<char>>::Upload {
            at: (u.stage->at + 1) as usize,
            captioned: false,
        }),
{
}

/// A reply with files goes out in order: the text in place of the live message
/// where there is one, then the mark is cleared, then every file.
pub proof fn law_every_file_is_uploaded_in_order(u: Upload, id: Option<i64>)
    requires
        u.sound(),
    ensures
        u.stage is Finalizing ==> u.next(UploadEvent::Sent { id }) == (
            UploadStage::Clearing,
            UploadAction::<Seq<char>>::Clear,
        ),
        u.stage is Clearing && u.names@.len() > 0 ==> u.next(UploadEvent::Done).1 == (UploadAction::<
            Seq<char>,
        >::Upload { at: 0, captioned: !u.live }),
        u.stage matches UploadStage::Uploading { at, uploaded, .. } ==> {
            let (stage, action) = u.next(UploadEvent::Sent { id });
            &&& at + 1 < u.names@.len() ==> action == (UploadAction::<Seq<char>>::Upload {
                at: (at + 1) as usize,
                captioned: false,
            }) && stage == (UploadStage::Uploading {
                at: (at + 1) as usize,
                uploaded: (uploaded + 1) as usize,
                last: id,
            })
            &&& at + 1 == u.names@.len() ==> action == (UploadAction::<Seq<char>>::Finish { id }) && stage is Ended
        },
{
}

/// A text that cannot be put into the chat fails the sending, so that the reply
/// is tried again; what stands in for the files ends it.
pub proof fn law_a_text_that_cannot_be_sent_fails(u: Upload, error: Seq<char>, id: Option<i64>)
    ensures
        u.stage is Finalizing || u.stage is FallingBack ==> u.next(UploadEvent::Failed { error }) == (
            UploadStage::Ended,
            UploadAction::Fail { error },
        ),
        u.stage is FallingBack ==> u.next(UploadEvent::Sent { id }) == (
            UploadStage::Ended,
            UploadAction::<Seq<char>>::Finish { id },
        ),
{
}

/// What stands in for files that could not be sent is the text, with the names
/// of the files.
pub proof fn law_the_fallback_holds_the_text(text: Seq<char>, names: Seq<Option<String>>, i: int)
    ensures
        t::starts(fallback_text(text, names), text + "\n(couldn't attach: "@),
        0 <= i < names.len() && names[i] is Some ==> delivery::present(names).contains(names[i]->0@),
    decreases names.len(),
{
    let front = text + "\n(couldn't attach: "@;
    assert(fallback_text(text, names).subrange(0, front.len() as int) =~= front);
    if 0 <= i < names.len() && names[i] is Some {
        let all = delivery::present(names);
        let before = delivery::present(names.drop_last());
        if i == names.len() - 1 {
            assert(all[before.len() as int] == names[i]->0@);
        } else {
            law_the_fallback_holds_the_text(text, names.drop_last(), i);
            assert(names.drop_last()[i] == names[i]);
            let k = choose|k: int| 0 <= k < before.len() && before[k] == names[i]->0@;
            assert(all[k] == names[i]->0@);
        }
    }
}

} // verus!
