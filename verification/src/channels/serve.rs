//! The loop that serves a Telegram chat.

use vstd::prelude::*;

verus! {

/// How the loop runs.
#[derive(Clone, Copy, Debug, PartialEq, Eq, Structural)]
pub struct ServeOptions {
    /// Stop after one round.
    pub once: bool,
    pub poll_seconds: u64,
    pub timeout_seconds: u64,
}

impl ServeOptions {
    /// How long a request for updates waits on the server.
    pub open spec fn wait(self) -> u64 {
        if self.once {
            0
        } else if self.timeout_seconds < 1 {
            1
        } else if self.timeout_seconds > 50 {
            50
        } else {
            self.timeout_seconds
        }
    }

    pub fn wait_seconds(&self) -> (r: u64)
        ensures
            r == self.wait(),
    {
        if self.once {
            0
        } else if self.timeout_seconds < 1 {
            1
        } else if self.timeout_seconds > 50 {
            50
        } else {
            self.timeout_seconds
        }
    }

    /// How long the loop rests after a failed request.
    pub open spec fn rest(self) -> u64 {
        if self.poll_seconds < 1 {
            1
        } else {
            self.poll_seconds
        }
    }

    pub fn rest_seconds(&self) -> (r: u64)
        ensures
            r == self.rest(),
    {
        if self.poll_seconds < 1 {
            1
        } else {
            self.poll_seconds
        }
    }
}

/// Where the loop stands: what it waits for.
#[derive(Debug, PartialEq, Eq)]
pub enum ServeStage<L> {
    Starting,
    Initial,
    InitialSave,
    Background,
    Polling,
    PollReport,
    Handling { ids: L, at: usize },
    HandleReport { ids: L, at: usize },
    Saving,
    LastDelivery,
    Ended { failed: bool },
}

#[derive(Debug, PartialEq, Eq)]
pub enum ServeEvent<L> {
    /// The action was carried out.
    Ready,
    /// The updates that came, by id, in order.
    Updates { ids: L },
    /// The action failed.
    Failed,
}

#[derive(Clone, Copy, Debug, PartialEq, Eq, Structural)]
pub enum ServeAction {
    /// Ask for all waiting updates, without an offset and without waiting.
    FetchWaiting,
    /// Keep the offset.
    SaveState,
    /// Start the background delivery, and deliver what an earlier run left.
    StartDelivery,
    /// Ask for updates from the offset on.
    Poll { offset: Option<i64>, wait: u64 },
    /// Note a failed request; then rest, unless the loop is to end.
    ReportPoll { rest: Option<u64> },
    /// Handle the update at this place of the last batch.
    Handle { at: usize },
    /// Note an update that could not be handled.
    ReportUpdate,
    /// Deliver what is waiting.
    Deliver,
    /// End without an error.
    Finish,
    /// End with the error that came last.
    Fail,
}

impl View for ServeStage<Vec<i64>> {
    type V = ServeStage<Seq<i64>>;

    open spec fn view(&self) -> ServeStage<Seq<i64>> {
        match self {
            ServeStage::Starting => ServeStage::Starting,
            ServeStage::Initial => ServeStage::Initial,
            ServeStage::InitialSave => ServeStage::InitialSave,
            ServeStage::Background => ServeStage::Background,
            ServeStage::Polling => ServeStage::Polling,
            ServeStage::PollReport => ServeStage::PollReport,
            ServeStage::Handling { ids, at } => ServeStage::Handling { ids: ids@, at: *at },
            ServeStage::HandleReport { ids, at } => ServeStage::HandleReport { ids: ids@, at: *at },
            ServeStage::Saving => ServeStage::Saving,
            ServeStage::LastDelivery => ServeStage::LastDelivery,
            ServeStage::Ended { failed } => ServeStage::Ended { failed: *failed },
        }
    }
}

impl View for ServeEvent<Vec<i64>> {
    type V = ServeEvent<Seq<i64>>;

    open spec fn view(&self) -> ServeEvent<Seq<i64>> {
        match self {
            ServeEvent::Ready => ServeEvent::Ready,
            ServeEvent::Updates { ids } => ServeEvent::Updates { ids: ids@ },
            ServeEvent::Failed => ServeEvent::Failed,
        }
    }
}

/// The serving loop.
#[derive(Debug, PartialEq, Eq)]
pub struct Serve<L> {
    pub options: ServeOptions,
    /// The first update that has not been seen.
    pub offset: Option<i64>,
    pub stage: ServeStage<L>,
}

impl View for Serve<Vec<i64>> {
    type V = Serve<Seq<i64>>;

    open spec fn view(&self) -> Serve<Seq<i64>> {
        Serve { options: self.options, offset: self.offset, stage: self.stage@ }
    }
}

pub open spec fn largest(ids: Seq<i64>) -> i64
    decreases ids.len(),
{
    if ids.len() <= 1 {
        ids[0]
    } else {
        let rest = largest(ids.drop_last());
        if ids.last() >= rest {
            ids.last()
        } else {
            rest
        }
    }
}

/// Whether the ids fit into a list, and each has a successor.
pub open spec fn have_successors(ids: Seq<i64>) -> bool {
    ids.len() <= usize::MAX && forall|i: int| 0 <= i < ids.len() ==> (#[trigger] ids[i]) < i64::MAX
}

impl ServeEvent<Seq<i64>> {
    pub open spec fn fits(self) -> bool {
        self matches ServeEvent::Updates { ids } ==> have_successors(ids)
    }
}

pub type ServeStep = (Serve<Seq<i64>>, ServeAction);

impl Serve<Seq<i64>> {
    pub open spec fn to(self, stage: ServeStage<Seq<i64>>, action: ServeAction) -> ServeStep {
        (Serve { stage, ..self }, action)
    }

    pub open spec fn finished(self) -> ServeStep {
        self.to(ServeStage::Ended { failed: false }, ServeAction::Finish)
    }

    pub open spec fn failed(self) -> ServeStep {
        self.to(ServeStage::Ended { failed: true }, ServeAction::Fail)
    }

    pub open spec fn polling(self) -> ServeStep {
        self.to(
            ServeStage::Polling,
            ServeAction::Poll { offset: self.offset, wait: self.options.wait() },
        )
    }

    /// Enters the loop.
    pub open spec fn entered(self) -> ServeStep {
        if self.options.once {
            self.polling()
        } else {
            self.to(ServeStage::Background, ServeAction::StartDelivery)
        }
    }

    /// Takes the update at `at`, or saves the state behind the last one.
    pub open spec fn taking(self, ids: Seq<i64>, at: int) -> ServeStep {
        if at < ids.len() {
            (
                Serve {
                    offset: Some((ids[at] + 1) as i64),
                    stage: ServeStage::Handling { ids, at: at as usize },
                    ..self
                },
                ServeAction::Handle { at: at as usize },
            )
        } else {
            self.to(ServeStage::Saving, ServeAction::SaveState)
        }
    }

    pub open spec fn next(self, event: ServeEvent<Seq<i64>>) -> ServeStep {
        match (self.stage, event) {
            (ServeStage::Ended { failed }, _) => (
                self,
                if failed {
                    ServeAction::Fail
                } else {
                    ServeAction::Finish
                },
            ),
            (ServeStage::Starting, _) => if self.offset is None {
                self.to(ServeStage::Initial, ServeAction::FetchWaiting)
            } else {
                self.entered()
            },
            (ServeStage::Initial, ServeEvent::Updates { ids }) => if ids.len() > 0 {
                Serve { offset: Some((largest(ids) + 1) as i64), ..self }.to(
                    ServeStage::InitialSave,
                    ServeAction::SaveState,
                )
            } else if self.options.once {
                self.finished()
            } else {
                self.entered()
            },
            (ServeStage::InitialSave, ServeEvent::Ready) => if self.options.once {
                self.finished()
            } else {
                self.entered()
            },
            (ServeStage::Background, _) => self.polling(),
            (ServeStage::Polling, ServeEvent::Updates { ids }) => self.taking(ids, 0),
            (ServeStage::Polling, ServeEvent::Failed) => self.to(
                ServeStage::PollReport,
                ServeAction::ReportPoll {
                    rest: if self.options.once {
                        None
                    } else {
                        Some(self.options.rest())
                    },
                },
            ),
            (ServeStage::PollReport, ServeEvent::Ready) => if self.options.once {
                self.failed()
            } else {
                self.polling()
            },
            (ServeStage::Handling { ids, at }, ServeEvent::Ready) => self.taking(ids, at + 1),
            (ServeStage::Handling { ids, at }, ServeEvent::Failed) => self.to(
                ServeStage::HandleReport { ids, at },
                ServeAction::ReportUpdate,
            ),
            (ServeStage::HandleReport { ids, at }, ServeEvent::Ready) => if self.options.once {
                self.failed()
            } else {
                self.taking(ids, at + 1)
            },
            (ServeStage::Saving, ServeEvent::Ready) => if self.options.once {
                self.to(ServeStage::LastDelivery, ServeAction::Deliver)
            } else {
                self.polling()
            },
            (ServeStage::LastDelivery, ServeEvent::Ready) => self.finished(),
            _ => self.failed(),
        }
    }

    /// What holds of every loop that was started and advanced.
    pub open spec fn sound(self) -> bool {
        match self.stage {
            ServeStage::Handling { ids, at } => have_successors(ids) && at < ids.len() && self.offset == Some(
                (ids[at as int] + 1) as i64,
            ),
            ServeStage::HandleReport { ids, at } => have_successors(ids) && at < ids.len() && self.offset == Some(
                (ids[at as int] + 1) as i64,
            ),
            _ => true,
        }
    }
}

fn largest_id(ids: &Vec<i64>) -> (r: i64)
    requires
        ids@.len() > 0,
    ensures
        r == largest(ids@),
{
    let mut r: i64 = ids[0];
    let mut i: usize = 1;
    assert(ids@.take(1)[0] == ids@[0]);
    while i < ids.len()
        invariant
            1 <= i <= ids.len(),
            r == largest(ids@.take(i as int)),
        decreases ids.len() - i,
    {
        assert(ids@.take(i as int + 1).drop_last() =~= ids@.take(i as int));
        assert(ids@.take(i as int + 1).last() == ids@[i as int]);
        if ids[i] >= r {
            r = ids[i];
        }
        i += 1;
    }
    assert(ids@.take(ids@.len() as int) =~= ids@);
    r
}

/// The largest id is one of the ids, and none is larger.
pub proof fn law_largest_is_an_upper_bound(ids: Seq<i64>)
    requires
        ids.len() > 0,
    ensures
        ids.contains(largest(ids)),
        forall|i: int| 0 <= i < ids.len() ==> (#[trigger] ids[i]) <= largest(ids),
    decreases ids.len(),
{
    if ids.len() > 1 {
        law_largest_is_an_upper_bound(ids.drop_last());
        let rest = ids.drop_last();
        let k = choose|k: int| 0 <= k < rest.len() && rest[k] == largest(rest);
        assert(ids[k] == largest(rest));
        assert(ids[ids.len() - 1] == ids.last());
        assert forall|i: int| 0 <= i < ids.len() implies (#[trigger] ids[i]) <= largest(ids) by {
            if i < rest.len() {
                assert(rest[i] == ids[i]);
            }
        }
    } else {
        assert(ids[0] == largest(ids));
    }
}

impl Serve<Vec<i64>> {
    pub fn new(options: ServeOptions, offset: Option<i64>) -> (r: Self)
        ensures
            r@ == (Serve { options, offset, stage: ServeStage::<Seq<i64>>::Starting }),
            r@.sound(),
    {
        Serve { options, offset, stage: ServeStage::Starting }
    }

    fn go(self, stage: ServeStage<Vec<i64>>, action: ServeAction) -> (r: (Self, ServeAction))
        ensures
            (r.0@, r.1) == self@.to(stage@, action),
    {
        (Serve { options: self.options, offset: self.offset, stage }, action)
    }

    fn finish(self) -> (r: (Self, ServeAction))
        ensures
            (r.0@, r.1) == self@.finished(),
    {
        self.go(ServeStage::Ended { failed: false }, ServeAction::Finish)
    }

    fn fail(self) -> (r: (Self, ServeAction))
        ensures
            (r.0@, r.1) == self@.failed(),
    {
        self.go(ServeStage::Ended { failed: true }, ServeAction::Fail)
    }

    fn poll(self) -> (r: (Self, ServeAction))
        ensures
            (r.0@, r.1) == self@.polling(),
    {
        let action = ServeAction::Poll { offset: self.offset, wait: self.options.wait_seconds() };
        self.go(ServeStage::Polling, action)
    }

    fn enter(self) -> (r: (Self, ServeAction))
        ensures
            (r.0@, r.1) == self@.entered(),
    {
        if self.options.once {
            self.poll()
        } else {
            self.go(ServeStage::Background, ServeAction::StartDelivery)
        }
    }

    fn take(self, ids: Vec<i64>, at: usize) -> (r: (Self, ServeAction))
        requires
            have_successors(ids@),
        ensures
            (r.0@, r.1) == self@.taking(ids@, at as int),
    {
        if at < ids.len() {
            let offset: i64 = ids[at] + 1;
            (
                Serve { options: self.options, offset: Some(offset), stage: ServeStage::Handling { ids, at } },
                ServeAction::Handle { at },
            )
        } else {
            self.go(ServeStage::Saving, ServeAction::SaveState)
        }
    }

    /// Takes the next step of the loop.
    pub fn serve_telegram(self, event: ServeEvent<Vec<i64>>) -> (r: (Self, ServeAction))
        requires
            self@.sound(),
            event@.fits(),
        ensures
            (r.0@, r.1) == self@.next(event@),
            r.0@.sound(),
    {
        let once = self.options.once;
        let Serve { options, offset, stage } = self;
        let rest = Serve { options, offset, stage: ServeStage::Starting };
        match (stage, event) {
            (ServeStage::Ended { failed }, _) => rest.go(
                ServeStage::Ended { failed },
                if failed {
                    ServeAction::Fail
                } else {
                    ServeAction::Finish
                },
            ),
            (ServeStage::Starting, _) => if offset.is_none() {
                rest.go(ServeStage::Initial, ServeAction::FetchWaiting)
            } else {
                rest.enter()
            },
            (ServeStage::Initial, ServeEvent::Updates { ids }) => if ids.len() > 0 {
                proof {
                    law_largest_is_an_upper_bound(ids@);
                }
                let top: i64 = largest_id(&ids);
                let next = Serve { options, offset: Some(top + 1), stage: ServeStage::Starting };
                next.go(ServeStage::InitialSave, ServeAction::SaveState)
            } else if once {
                rest.finish()
            } else {
                rest.enter()
            },
            (ServeStage::InitialSave, ServeEvent::Ready) => if once {
                rest.finish()
            } else {
                rest.enter()
            },
            (ServeStage::Background, _) => rest.poll(),
            (ServeStage::Polling, ServeEvent::Updates { ids }) => rest.take(ids, 0),
            (ServeStage::Polling, ServeEvent::Failed) => {
                let pause = if once {
                    None
                } else {
                    Some(options.rest_seconds())
                };
                rest.go(ServeStage::PollReport, ServeAction::ReportPoll { rest: pause })
            },
            (ServeStage::PollReport, ServeEvent::Ready) => if once {
                rest.fail()
            } else {
                rest.poll()
            },
            (ServeStage::Handling { ids, at }, ServeEvent::Ready) => {
                assert(at < ids.len());
                rest.take(ids, at + 1)
            },
            (ServeStage::Handling { ids, at }, ServeEvent::Failed) => rest.go(
                ServeStage::HandleReport { ids, at },
                ServeAction::ReportUpdate,
            ),
            (ServeStage::HandleReport { ids, at }, ServeEvent::Ready) => if once {
                rest.fail()
            } else {
                assert(at < ids.len());
                rest.take(ids, at + 1)
            },
            (ServeStage::Saving, ServeEvent::Ready) => if once {
                rest.go(ServeStage::LastDelivery, ServeAction::Deliver)
            } else {
                rest.poll()
            },
            (ServeStage::LastDelivery, ServeEvent::Ready) => rest.finish(),
            _ => rest.fail(),
        }
    }
}

/// An update is never asked for again once it is being handled: the offset is
/// already behind it.
pub proof fn law_a_handled_update_is_behind_the_offset(s: Serve<Seq<i64>>, event: ServeEvent<Seq<i64>>)
    requires
        s.sound(),
        event.fits(),
        s.next(event).1 is Handle,
    ensures
        s.next(event).0.stage matches ServeStage::Handling { ids, at } && s.next(event).0.offset == Some(
            (ids[at as int] + 1) as i64,
        ) && ids[at as int] < s.next(event).0.offset->0,
{
}

/// A loop that is to run once asks for updates once at most: after the answer
/// it never asks again.
pub proof fn law_a_single_round_polls_once(s: Serve<Seq<i64>>, event: ServeEvent<Seq<i64>>)
    requires
        s.options.once,
        !(s.stage is Starting),
        !(s.stage is Background),
    ensures
        !(s.next(event).1 is Poll),
        !(s.next(event).0.stage is Starting),
        !(s.next(event).0.stage is Background),
        s.next(event).0.options.once,
{
}

/// A loop that is to go on survives failed requests and updates that could not
/// be handled.
pub proof fn law_serving_survives_failures(s: Serve<Seq<i64>>)
    requires
        !s.options.once,
        s.sound(),
        s.stage is Polling || s.stage is Handling,
    ensures
        !(s.next(ServeEvent::Failed).0.stage is Ended),
        !(s.next(ServeEvent::Failed).0.next(ServeEvent::Ready).0.stage is Ended),
        s.stage is Polling ==> s.next(ServeEvent::Failed).0.next(ServeEvent::Ready).1 == (ServeAction::Poll {
            offset: s.offset,
            wait: s.options.wait(),
        }),
{
}

/// An ended loop stays ended.
pub proof fn law_an_ended_loop_stays_ended(s: Serve<Seq<i64>>, event: ServeEvent<Seq<i64>>)
    requires
        s.stage is Ended,
    ensures
        s.next(event).0 == s,
{
}

/// How long a request for updates waits: not at all in a single round, and else
/// as long as was asked for, from one to fifty seconds.
pub proof fn law_a_request_waits_as_was_asked_for(o: ServeOptions)
    ensures
        o.once ==> o.wait() == 0,
        !o.once && 1 <= o.timeout_seconds <= 50 ==> o.wait() == o.timeout_seconds,
        !o.once && o.timeout_seconds == 0 ==> o.wait() == 1,
        !o.once && o.timeout_seconds > 50 ==> o.wait() == 50,
        o.poll_seconds > 0 ==> o.rest() == o.poll_seconds,
        o.poll_seconds == 0 ==> o.rest() == 1,
{
}

/// A channel that never ran passes over what waits for it and starts behind the
/// newest of it; one that ran goes on where it stopped.
pub proof fn law_a_channel_starts_where_it_stopped(s: Serve<Seq<i64>>, event: ServeEvent<Seq<i64>>, ids: Seq<i64>)
    requires
        s.stage is Starting,
    ensures
        s.offset is None ==> s.next(event).1 is FetchWaiting && s.next(event).0.stage is Initial,
        s.offset is Some && s.options.once ==> s.next(event).1 == (ServeAction::Poll { offset: s.offset, wait: 0 }),
        s.offset is Some && !s.options.once ==> s.next(event).1 is StartDelivery,
        s.offset is None && ids.len() > 0 && have_successors(ids) ==> {
            let (first, action) = s.next(event).0.next(ServeEvent::Updates { ids });
            &&& action is SaveState
            &&& first.offset matches Some(offset) && ids.contains((offset - 1) as i64) && forall|i: int|
                0 <= i < ids.len() ==> #[trigger] ids[i] < offset
            &&& !s.options.once ==> first.next(ServeEvent::Ready).1 is StartDelivery
            &&& s.options.once ==> first.next(ServeEvent::Ready).1 is Finish
        },
{
    if ids.len() > 0 && have_successors(ids) {
        law_largest_is_an_upper_bound(ids);
        let top = largest(ids);
        assert(ids.contains(top));
        let k = choose|k: int| 0 <= k < ids.len() && ids[k] == top;
        assert(ids[k] < i64::MAX);
        assert(((top + 1) as i64 - 1) as i64 == top);
        assert forall|i: int| 0 <= i < ids.len() implies #[trigger] ids[i] < top + 1 by {
            assert(ids[i] <= top);
        }
    }
}

/// Once deliveries run, updates are asked for from the offset on.
pub proof fn law_updates_are_asked_for_from_the_offset_on(s: Serve<Seq<i64>>, event: ServeEvent<Seq<i64>>)
    requires
        s.stage is Background,
    ensures
        s.next(event).1 matches ServeAction::Poll { offset, wait } && offset == s.offset && wait == s.options.wait(),
        s.next(event).0.stage is Polling,
{
}

/// Every update of a batch is handled, in order, and behind the last one the
/// offset is kept.
pub proof fn law_every_update_is_handled(s: Serve<Seq<i64>>, ids: Seq<i64>)
    ensures
        s.stage is Polling && ids.len() > 0 ==> s.next(ServeEvent::Updates { ids }).1 == (ServeAction::Handle { at: 0 })
            && s.next(ServeEvent::Updates { ids }).0.stage == (ServeStage::Handling { ids, at: 0 }),
        s.stage is Polling && ids.len() == 0 ==> s.next(ServeEvent::Updates { ids }).1 is SaveState,
        s.stage matches ServeStage::Handling { ids: all, at } ==> {
            let (after, action) = s.next(ServeEvent::Ready);
            &&& at + 1 < all.len() && all.len() <= usize::MAX ==> action == (ServeAction::Handle {
                at: (at + 1) as usize,
            }) && after.stage == (ServeStage::Handling { ids: all, at: (at + 1) as usize }) && after.offset == Some(
                (all[at + 1] + 1) as i64,
            )
            &&& at + 1 >= all.len() ==> action is SaveState && after.offset == s.offset
        },
{
}

/// Behind a batch the channel asks again; a single round delivers what waits and
/// ends.
pub proof fn law_a_round_is_followed_by_the_next(s: Serve<Seq<i64>>)
    ensures
        s.stage is Saving && !s.options.once ==> s.next(ServeEvent::Ready).1 == (ServeAction::Poll {
            offset: s.offset,
            wait: s.options.wait(),
        }),
        s.stage is Saving && s.options.once ==> s.next(ServeEvent::Ready).1 is Deliver,
        s.stage is LastDelivery ==> s.next(ServeEvent::Ready).1 is Finish,
        s.stage is Polling ==> s.next(ServeEvent::Failed).1 == (ServeAction::ReportPoll {
            rest: if s.options.once {
                None
            } else {
                Some(s.options.rest())
            },
        }),
        s.stage is Handling ==> s.next(ServeEvent::Failed).1 is ReportUpdate,
        s.stage is PollReport && s.options.once ==> s.next(ServeEvent::Ready).1 is Fail,
        s.stage is HandleReport && s.options.once ==> s.next(ServeEvent::Ready).1 is Fail,
        s.stage matches ServeStage::HandleReport { ids, at } ==> (!s.options.once && at + 1 < ids.len() && ids.len()
            <= usize::MAX ==> s.next(ServeEvent::Ready).1 == (ServeAction::Handle { at: (at + 1) as usize })),
{
}

/// A loop that ends says whether it failed, and stays as it was otherwise.
pub proof fn law_an_ended_loop_says_whether_it_failed(s: Serve<Seq<i64>>)
    ensures
        s.finished().1 is Finish && (s.finished().0.stage matches ServeStage::Ended { failed } && !failed),
        s.failed().1 is Fail && (s.failed().0.stage matches ServeStage::Ended { failed } && failed),
        s.finished().0.options == s.options && s.failed().0.options == s.options,
{
}

} // verus!
