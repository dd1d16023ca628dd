//! What a run goes through around the work itself: the agents are placed, the
//! wire is opened, and whatever the work comes to, the workers are taken down.

use crate::orchestrate::wire;
use crate::text as t;
use vstd::prelude::*;
use vstd::string::*;

verus! {

/// Where a run of a goal stands.
#[derive(Debug, PartialEq, Eq)]
pub enum LoopStage<S> {
    /// The roles are given to agents.
    Placing,
    /// The directory of the run is made.
    Making,
    /// The run is announced.
    Announcing,
    /// The token of the calls is read.
    ReadingToken,
    /// The server for the calls is started.
    Serving,
    Working,
    /// The workers are taken down; the work may have failed.
    TearingDown { error: Option<S> },
    /// The chat is told of the failure.
    Reporting { error: S },
    Ended,
}

#[derive(Debug, PartialEq, Eq)]
pub enum LoopEvent<S> {
    Done,
    Failed { error: S },
    /// What the file of the token holds, where it can be read.
    Token { raw: Option<S> },
}

#[derive(Debug, PartialEq, Eq)]
pub enum LoopAction<S> {
    Place,
    MakeDir,
    /// Print the run and its limits, and tell the chat.
    Announce,
    ReadToken,
    Serve { token: S },
    Work,
    TearDown,
    /// Tell the chat that the run stopped.
    Report { error: S },
    Finish,
    Fail { error: S },
    /// The event is not one that was waited for.
    Ignore,
}

impl View for LoopStage<String> {
    type V = LoopStage<Seq<char>>;

    open spec fn view(&self) -> LoopStage<Seq<char>> {
        match self {
            LoopStage::Placing => LoopStage::Placing,
            LoopStage::Making => LoopStage::Making,
            LoopStage::Announcing => LoopStage::Announcing,
            LoopStage::ReadingToken => LoopStage::ReadingToken,
            LoopStage::Serving => LoopStage::Serving,
            LoopStage::Working => LoopStage::Working,
            LoopStage::TearingDown { error } => LoopStage::TearingDown { error: t::opt_view(*error) },
            LoopStage::Reporting { error } => LoopStage::Reporting { error: error@ },
            LoopStage::Ended => LoopStage::Ended,
        }
    }
}

impl View for LoopEvent<String> {
    type V = LoopEvent<Seq<char>>;

    open spec fn view(&self) -> LoopEvent<Seq<char>> {
        match self {
            LoopEvent::Done => LoopEvent::Done,
            LoopEvent::Failed { error } => LoopEvent::Failed { error: error@ },
            LoopEvent::Token { raw } => LoopEvent::Token { raw: t::opt_view(*raw) },
        }
    }
}

impl View for LoopAction<String> {
    type V = LoopAction<Seq<char>>;

    open spec fn view(&self) -> LoopAction<Seq<char>> {
        match self {
            LoopAction::Place => LoopAction::Place,
            LoopAction::MakeDir => LoopAction::MakeDir,
            LoopAction::Announce => LoopAction::Announce,
            LoopAction::ReadToken => LoopAction::ReadToken,
            LoopAction::Serve { token } => LoopAction::Serve { token: token@ },
            LoopAction::Work => LoopAction::Work,
            LoopAction::TearDown => LoopAction::TearDown,
            LoopAction::Report { error } => LoopAction::Report { error: error@ },
            LoopAction::Finish => LoopAction::Finish,
            LoopAction::Fail { error } => LoopAction::Fail { error: error@ },
            LoopAction::Ignore => LoopAction::Ignore,
        }
    }
}

/// What comes of reading the token: nothing starts without one.
pub open spec fn token_of(raw: Option<Seq<char>>, home: Seq<char>) -> Result<Seq<char>, Seq<char>> {
    let token = match raw {
        Some(s) => t::trimmed(s),
        None => Seq::empty(),
    };
    if token.len() == 0 {
        Err("the A2A wire needs the sessiond token at "@ + home + "/sessiond/token"@)
    } else {
        Ok(token)
    }
}

fn read_token(raw: Option<String>, home: &str) -> (r: Result<String, String>)
    ensures
        match r {
            Ok(s) => token_of(t::opt_view(raw), home@) == Ok::<Seq<char>, Seq<char>>(s@),
            Err(s) => token_of(t::opt_view(raw), home@) == Err::<Seq<char>, Seq<char>>(s@),
        },
{
    match raw {
        Some(s) => wire::wire_token(Some(s.as_str()), home),
        None => wire::wire_token(None, home),
    }
}

impl LoopStage<Seq<char>> {
    /// How a run goes on; `home` is where its token is kept.
    pub open spec fn next(self, home: Seq<char>, event: LoopEvent<Seq<char>>) -> (LoopStage<Seq<char>>, LoopAction<
        Seq<char>,
    >) {
        match (self, event) {
            (LoopStage::Working, LoopEvent::Done) => (LoopStage::TearingDown { error: None }, LoopAction::TearDown),
            (LoopStage::Working, LoopEvent::Failed { error }) => (
                LoopStage::TearingDown { error: Some(error) },
                LoopAction::TearDown,
            ),
            (LoopStage::TearingDown { error: None }, LoopEvent::Done) => (LoopStage::Ended, LoopAction::Finish),
            (LoopStage::TearingDown { error: Some(error) }, LoopEvent::Done) => (
                LoopStage::Reporting { error },
                LoopAction::Report { error },
            ),
            (LoopStage::Reporting { error }, LoopEvent::Done) => (LoopStage::Ended, LoopAction::Fail { error }),
            (LoopStage::Placing, LoopEvent::Done) => (LoopStage::Making, LoopAction::MakeDir),
            (LoopStage::Making, LoopEvent::Done) => (LoopStage::Announcing, LoopAction::Announce),
            (LoopStage::Announcing, LoopEvent::Done) => (LoopStage::ReadingToken, LoopAction::ReadToken),
            (LoopStage::ReadingToken, LoopEvent::Token { raw }) => match token_of(raw, home) {
                Ok(token) => (LoopStage::Serving, LoopAction::Serve { token }),
                Err(error) => (LoopStage::Ended, LoopAction::Fail { error }),
            },
            (LoopStage::Serving, LoopEvent::Done) => (LoopStage::Working, LoopAction::Work),
            (
                LoopStage::Placing | LoopStage::Making | LoopStage::Serving,
                LoopEvent::Failed { error },
            ) => (LoopStage::Ended, LoopAction::Fail { error }),
            _ => (self, LoopAction::Ignore),
        }
    }
}

/// Starts a run of a goal.
pub fn run_loop() -> (r: (LoopStage<String>, LoopAction<String>))
    ensures
        (r.0@, r.1@) == (LoopStage::<Seq<char>>::Placing, LoopAction::<Seq<char>>::Place),
{
    (LoopStage::Placing, LoopAction::Place)
}

impl LoopStage<String> {
    /// Goes on when an event comes; `home` is where the token of the calls is kept.
    pub fn advance(self, home: &str, event: LoopEvent<String>) -> (r: (LoopStage<String>, LoopAction<String>))
        ensures
            (r.0@, r.1@) == self@.next(home@, event@),
    {
        match (self, event) {
            (LoopStage::Working, LoopEvent::Done) => (LoopStage::TearingDown { error: None }, LoopAction::TearDown),
            (LoopStage::Working, LoopEvent::Failed { error }) => (
                LoopStage::TearingDown { error: Some(error) },
                LoopAction::TearDown,
            ),
            (LoopStage::TearingDown { error: None }, LoopEvent::Done) => (LoopStage::Ended, LoopAction::Finish),
            (LoopStage::TearingDown { error: Some(error) }, LoopEvent::Done) => {
                let said = error.clone();
                (LoopStage::Reporting { error }, LoopAction::Report { error: said })
            },
            (LoopStage::Reporting { error }, LoopEvent::Done) => (LoopStage::Ended, LoopAction::Fail { error }),
            (LoopStage::Placing, LoopEvent::Done) => (LoopStage::Making, LoopAction::MakeDir),
            (LoopStage::Making, LoopEvent::Done) => (LoopStage::Announcing, LoopAction::Announce),
            (LoopStage::Announcing, LoopEvent::Done) => (LoopStage::ReadingToken, LoopAction::ReadToken),
            (LoopStage::ReadingToken, LoopEvent::Token { raw }) => match read_token(raw, home) {
                Ok(token) => (LoopStage::Serving, LoopAction::Serve { token }),
                Err(error) => (LoopStage::Ended, LoopAction::Fail { error }),
            },
            (LoopStage::Serving, LoopEvent::Done) => (LoopStage::Working, LoopAction::Work),
            (
                LoopStage::Placing | LoopStage::Making | LoopStage::Serving,
                LoopEvent::Failed { error },
            ) => (LoopStage::Ended, LoopAction::Fail { error }),
            (stage, _) => (stage, LoopAction::Ignore),
        }
    }
}

/// However the work of a run ends, the workers are taken down, and only then
/// does the run end: well where the work was done, else with the work's error.
pub proof fn law_workers_are_always_taken_down(home: Seq<char>, error: Seq<char>)
    ensures
        ({
            let (down, first) = LoopStage::Working.next(home, LoopEvent::Done);
            first == (LoopAction::<Seq<char>>::TearDown) && down.next(home, LoopEvent::Done) == (
                LoopStage::<Seq<char>>::Ended,
                LoopAction::<Seq<char>>::Finish,
            )
        }),
        ({
            let (down, first) = LoopStage::Working.next(home, LoopEvent::Failed { error });
            let (told, second) = down.next(home, LoopEvent::Done);
            first == (LoopAction::<Seq<char>>::TearDown) && second == (LoopAction::Report { error }) && told.next(
                home,
                LoopEvent::Done,
            ) == (LoopStage::<Seq<char>>::Ended, LoopAction::Fail { error })
        }),
{
}

/// A run comes to its work only with a token for its calls.
pub proof fn law_no_work_without_a_token(stage: LoopStage<Seq<char>>, home: Seq<char>, event: LoopEvent<Seq<char>>)
    requires
        stage.next(home, event).1 is Serve,
    ensures
        event matches LoopEvent::Token { raw: Some(raw) } && t::trimmed(raw).len() > 0 && stage.next(home, event).1
            == (LoopAction::Serve { token: t::trimmed(raw) }),
{
}

/// Where a run of a board stands.
#[derive(Debug, PartialEq, Eq)]
pub enum BoardLife<S> {
    /// The board is loaded and taken up.
    Loading,
    /// Cards that an interrupted run left are stored as to do again.
    Reclaiming,
    Placing,
    ReadingToken,
    Serving,
    Making,
    Working,
    TearingDown { error: Option<S> },
    /// The board is stored, as well as that can be done.
    Saving { error: Option<S> },
    /// The files that the cards made are counted.
    Counting { error: Option<S> },
    Copying { error: Option<S> },
    /// The board is shown, and the end of the run is logged.
    Closing { error: Option<S> },
    Ended,
}

#[derive(Debug, PartialEq, Eq)]
pub enum BoardLifeEvent<S> {
    Done,
    Failed { error: S },
    /// The board was taken up; so many of its cards had been left by a run.
    Loaded { reclaimed: usize },
    Token { raw: Option<S> },
    Counted { files: usize },
}

#[derive(Debug, PartialEq, Eq)]
pub enum BoardLifeAction<S> {
    Load,
    SaveReclaimed { reclaimed: usize },
    Place,
    ReadToken,
    Serve { token: S },
    MakeDir,
    /// Say and log that the run starts, and do the work.
    Work,
    TearDown,
    Save,
    CountFiles,
    CopyFiles,
    /// Log that the run ended, and show the board.
    Close,
    Finish,
    Fail { error: S },
    /// The event is not one that was waited for.
    Ignore,
}

impl View for BoardLife<String> {
    type V = BoardLife<Seq<char>>;

    open spec fn view(&self) -> BoardLife<Seq<char>> {
        match self {
            BoardLife::Loading => BoardLife::Loading,
            BoardLife::Reclaiming => BoardLife::Reclaiming,
            BoardLife::Placing => BoardLife::Placing,
            BoardLife::ReadingToken => BoardLife::ReadingToken,
            BoardLife::Serving => BoardLife::Serving,
            BoardLife::Making => BoardLife::Making,
            BoardLife::Working => BoardLife::Working,
            BoardLife::TearingDown { error } => BoardLife::TearingDown { error: t::opt_view(*error) },
            BoardLife::Saving { error } => BoardLife::Saving { error: t::opt_view(*error) },
            BoardLife::Counting { error } => BoardLife::Counting { error: t::opt_view(*error) },
            BoardLife::Copying { error } => BoardLife::Copying { error: t::opt_view(*error) },
            BoardLife::Closing { error } => BoardLife::Closing { error: t::opt_view(*error) },
            BoardLife::Ended => BoardLife::Ended,
        }
    }
}

impl View for BoardLifeEvent<String> {
    type V = BoardLifeEvent<Seq<char>>;

    open spec fn view(&self) -> BoardLifeEvent<Seq<char>> {
        match self {
            BoardLifeEvent::Done => BoardLifeEvent::Done,
            BoardLifeEvent::Failed { error } => BoardLifeEvent::Failed { error: error@ },
            BoardLifeEvent::Loaded { reclaimed } => BoardLifeEvent::Loaded { reclaimed: *reclaimed },
            BoardLifeEvent::Token { raw } => BoardLifeEvent::Token { raw: t::opt_view(*raw) },
            BoardLifeEvent::Counted { files } => BoardLifeEvent::Counted { files: *files },
        }
    }
}

impl View for BoardLifeAction<String> {
    type V = BoardLifeAction<Seq<char>>;

    open spec fn view(&self) -> BoardLifeAction<Seq<char>> {
        match self {
            BoardLifeAction::Load => BoardLifeAction::Load,
            BoardLifeAction::SaveReclaimed { reclaimed } => BoardLifeAction::SaveReclaimed { reclaimed: *reclaimed },
            BoardLifeAction::Place => BoardLifeAction::Place,
            BoardLifeAction::ReadToken => BoardLifeAction::ReadToken,
            BoardLifeAction::Serve { token } => BoardLifeAction::Serve { token: token@ },
            BoardLifeAction::MakeDir => BoardLifeAction::MakeDir,
            BoardLifeAction::Work => BoardLifeAction::Work,
            BoardLifeAction::TearDown => BoardLifeAction::TearDown,
            BoardLifeAction::Save => BoardLifeAction::Save,
            BoardLifeAction::CountFiles => BoardLifeAction::CountFiles,
            BoardLifeAction::CopyFiles => BoardLifeAction::CopyFiles,
            BoardLifeAction::Close => BoardLifeAction::Close,
            BoardLifeAction::Finish => BoardLifeAction::Finish,
            BoardLifeAction::Fail { error } => BoardLifeAction::Fail { error: error@ },
            BoardLifeAction::Ignore => BoardLifeAction::Ignore,
        }
    }
}

impl BoardLife<Seq<char>> {
    /// How a run goes on; `home` is where its token is kept.
    pub open spec fn next(self, home: Seq<char>, event: BoardLifeEvent<Seq<char>>) -> (
        BoardLife<Seq<char>>,
        BoardLifeAction<Seq<char>>,
    ) {
        match (self, event) {
            (BoardLife::Loading, BoardLifeEvent::Loaded { reclaimed }) => if reclaimed > 0 {
                (BoardLife::Reclaiming, BoardLifeAction::SaveReclaimed { reclaimed })
            } else {
                (BoardLife::Placing, BoardLifeAction::Place)
            },
            (BoardLife::Reclaiming, BoardLifeEvent::Done) => (BoardLife::Placing, BoardLifeAction::Place),
            (BoardLife::Placing, BoardLifeEvent::Done) => (BoardLife::ReadingToken, BoardLifeAction::ReadToken),
            (BoardLife::ReadingToken, BoardLifeEvent::Token { raw }) => match token_of(raw, home) {
                Ok(token) => (BoardLife::Serving, BoardLifeAction::Serve { token }),
                Err(error) => (BoardLife::Ended, BoardLifeAction::Fail { error }),
            },
            (BoardLife::Serving, BoardLifeEvent::Done) => (BoardLife::Making, BoardLifeAction::MakeDir),
            (BoardLife::Making, BoardLifeEvent::Done) => (BoardLife::Working, BoardLifeAction::Work),
            (BoardLife::Working, BoardLifeEvent::Done) => (
                BoardLife::TearingDown { error: None },
                BoardLifeAction::TearDown,
            ),
            (BoardLife::Working, BoardLifeEvent::Failed { error }) => (
                BoardLife::TearingDown { error: Some(error) },
                BoardLifeAction::TearDown,
            ),
            (BoardLife::TearingDown { error }, BoardLifeEvent::Done) => (
                BoardLife::Saving { error },
                BoardLifeAction::Save,
            ),
            (BoardLife::Saving { error }, BoardLifeEvent::Done | BoardLifeEvent::Failed { .. }) => (
                BoardLife::Counting { error },
                BoardLifeAction::CountFiles,
            ),
            (BoardLife::Counting { error }, BoardLifeEvent::Counted { files }) => if files > 0 {
                (BoardLife::Copying { error }, BoardLifeAction::CopyFiles)
            } else {
                (BoardLife::Closing { error }, BoardLifeAction::Close)
            },
            (BoardLife::Copying { error }, BoardLifeEvent::Done) => (
                BoardLife::Closing { error },
                BoardLifeAction::Close,
            ),
            (BoardLife::Closing { error: None }, BoardLifeEvent::Done) => (BoardLife::Ended, BoardLifeAction::Finish),
            (BoardLife::Closing { error: Some(error) }, BoardLifeEvent::Done) => (
                BoardLife::Ended,
                BoardLifeAction::Fail { error },
            ),
            (
                BoardLife::Loading | BoardLife::Reclaiming | BoardLife::Placing | BoardLife::Serving
                | BoardLife::Making | BoardLife::Copying { .. },
                BoardLifeEvent::Failed { error },
            ) => (BoardLife::Ended, BoardLifeAction::Fail { error }),
            _ => (self, BoardLifeAction::Ignore),
        }
    }
}

/// Starts a run of a board.
pub fn run_board() -> (r: (BoardLife<String>, BoardLifeAction<String>))
    ensures
        (r.0@, r.1@) == (BoardLife::<Seq<char>>::Loading, BoardLifeAction::<Seq<char>>::Load),
{
    (BoardLife::Loading, BoardLifeAction::Load)
}

impl BoardLife<String> {
    /// Goes on when an event comes; `home` is where the token of the calls is kept.
    pub fn advance(self, home: &str, event: BoardLifeEvent<String>) -> (r: (BoardLife<String>, BoardLifeAction<String>))
        ensures
            (r.0@, r.1@) == self@.next(home@, event@),
    {
        match (self, event) {
            (BoardLife::Loading, BoardLifeEvent::Loaded { reclaimed }) => if reclaimed > 0 {
                (BoardLife::Reclaiming, BoardLifeAction::SaveReclaimed { reclaimed })
            } else {
                (BoardLife::Placing, BoardLifeAction::Place)
            },
            (BoardLife::Reclaiming, BoardLifeEvent::Done) => (BoardLife::Placing, BoardLifeAction::Place),
            (BoardLife::Placing, BoardLifeEvent::Done) => (BoardLife::ReadingToken, BoardLifeAction::ReadToken),
            (BoardLife::ReadingToken, BoardLifeEvent::Token { raw }) => match read_token(raw, home) {
                Ok(token) => (BoardLife::Serving, BoardLifeAction::Serve { token }),
                Err(error) => (BoardLife::Ended, BoardLifeAction::Fail { error }),
            },
            (BoardLife::Serving, BoardLifeEvent::Done) => (BoardLife::Making, BoardLifeAction::MakeDir),
            (BoardLife::Making, BoardLifeEvent::Done) => (BoardLife::Working, BoardLifeAction::Work),
            (BoardLife::Working, BoardLifeEvent::Done) => (
                BoardLife::TearingDown { error: None },
                BoardLifeAction::TearDown,
            ),
            (BoardLife::Working, BoardLifeEvent::Failed { error }) => (
                BoardLife::TearingDown { error: Some(error) },
                BoardLifeAction::TearDown,
            ),
            (BoardLife::TearingDown { error }, BoardLifeEvent::Done) => (
                BoardLife::Saving { error },
                BoardLifeAction::Save,
            ),
            (BoardLife::Saving { error }, BoardLifeEvent::Done | BoardLifeEvent::Failed { .. }) => (
                BoardLife::Counting { error },
                BoardLifeAction::CountFiles,
            ),
            (BoardLife::Counting { error }, BoardLifeEvent::Counted { files }) => if files > 0 {
                (BoardLife::Copying { error }, BoardLifeAction::CopyFiles)
            } else {
                (BoardLife::Closing { error }, BoardLifeAction::Close)
            },
            (BoardLife::Copying { error }, BoardLifeEvent::Done) => (
                BoardLife::Closing { error },
                BoardLifeAction::Close,
            ),
            (BoardLife::Closing { error: None }, BoardLifeEvent::Done) => (BoardLife::Ended, BoardLifeAction::Finish),
            (BoardLife::Closing { error: Some(error) }, BoardLifeEvent::Done) => (
                BoardLife::Ended,
                BoardLifeAction::Fail { error },
            ),
            (
                BoardLife::Loading | BoardLife::Reclaiming | BoardLife::Placing | BoardLife::Serving
                | BoardLife::Making | BoardLife::Copying { .. },
                BoardLifeEvent::Failed { error },
            ) => (BoardLife::Ended, BoardLifeAction::Fail { error }),
            (stage, _) => (stage, BoardLifeAction::Ignore),
        }
    }
}

/// However the work on a board ends, the workers are taken down, and then the
/// board is stored; a failure to store it ends nothing.
pub proof fn law_a_board_is_stored_after_its_work(
    home: Seq<char>,
    outcome: BoardLifeEvent<Seq<char>>,
    stored: BoardLifeEvent<Seq<char>>,
)
    requires
        outcome is Done || outcome is Failed,
        stored is Done || stored is Failed,
    ensures
        ({
            let (down, first) = BoardLife::Working.next(home, outcome);
            let (saving, second) = down.next(home, BoardLifeEvent::Done);
            first == (BoardLifeAction::<Seq<char>>::TearDown) && second == (BoardLifeAction::<Seq<char>>::Save)
                && saving.next(home, stored).1 == (BoardLifeAction::<Seq<char>>::CountFiles)
        }),
{
}

/// The run of a board ends as its work did, unless its files could not be copied.
pub proof fn law_a_board_run_ends_as_its_work_did(home: Seq<char>, error: Option<Seq<char>>, copy_error: Seq<char>)
    ensures
        (BoardLife::Closing { error }).next(home, BoardLifeEvent::Done).1 == match error {
            Some(error) => (BoardLifeAction::Fail { error }),
            None => BoardLifeAction::Finish,
        },
        (BoardLife::Copying { error }).next(home, BoardLifeEvent::Done) == (
            (BoardLife::Closing { error }),
            BoardLifeAction::<Seq<char>>::Close,
        ),
        (BoardLife::Copying { error }).next(home, (BoardLifeEvent::Failed { error: copy_error })).1 == (
            BoardLifeAction::Fail { error: copy_error }
        ),
{
}

/// A run of a goal is prepared step by step, and each step that fails ends it
/// with its error before any work: workers, directory, announcement, token,
/// server, work.
pub proof fn law_a_run_is_prepared_before_it_works(home: Seq<char>, raw: Seq<char>, error: Seq<char>)
    requires
        t::trimmed(raw).len() > 0,
    ensures
        LoopStage::Placing.next(home, LoopEvent::Done) == (
            LoopStage::<Seq<char>>::Making,
            LoopAction::<Seq<char>>::MakeDir,
        ),
        LoopStage::Making.next(home, LoopEvent::Done) == (
            LoopStage::<Seq<char>>::Announcing,
            LoopAction::<Seq<char>>::Announce,
        ),
        LoopStage::Announcing.next(home, LoopEvent::Done) == (
            LoopStage::<Seq<char>>::ReadingToken,
            LoopAction::<Seq<char>>::ReadToken,
        ),
        LoopStage::ReadingToken.next(home, LoopEvent::Token { raw: Some(raw) }) == (
            LoopStage::<Seq<char>>::Serving,
            LoopAction::Serve { token: t::trimmed(raw) },
        ),
        LoopStage::Serving.next(home, LoopEvent::Done) == (
            LoopStage::<Seq<char>>::Working,
            LoopAction::<Seq<char>>::Work,
        ),
        LoopStage::Placing.next(home, LoopEvent::Failed { error }).1 == (LoopAction::Fail { error }),
        LoopStage::Making.next(home, LoopEvent::Failed { error }).1 == (LoopAction::Fail { error }),
        LoopStage::Serving.next(home, LoopEvent::Failed { error }).1 == (LoopAction::Fail { error }),
{
}

/// Without a token a run ends, and says where the token is looked for.
pub proof fn law_a_missing_token_is_named(home: Seq<char>, raw: Option<Seq<char>>)
    requires
        raw matches Some(s) ==> t::trimmed(s).len() == 0,
    ensures
        LoopStage::ReadingToken.next(home, LoopEvent::Token { raw }).1 == (LoopAction::Fail {
            error: "the A2A wire needs the sessiond token at "@ + home + "/sessiond/token"@,
        }),
        BoardLife::ReadingToken.next(home, BoardLifeEvent::Token { raw }).1 == (BoardLifeAction::Fail {
            error: "the A2A wire needs the sessiond token at "@ + home + "/sessiond/token"@,
        }),
{
}

/// A run of a board is prepared step by step as well; cards that an interrupted
/// run left at work are stored as to do first.
pub proof fn law_a_board_run_is_prepared_before_it_works(
    home: Seq<char>,
    raw: Seq<char>,
    reclaimed: usize,
    error: Seq<char>,
)
    requires
        t::trimmed(raw).len() > 0,
    ensures
        ({
            let loaded = BoardLife::Loading.next(home, BoardLifeEvent::Loaded { reclaimed });
            &&& reclaimed > 0 ==> loaded == (
                BoardLife::<Seq<char>>::Reclaiming,
                BoardLifeAction::<Seq<char>>::SaveReclaimed { reclaimed },
            )
            &&& reclaimed == 0 ==> loaded == (BoardLife::<Seq<char>>::Placing, BoardLifeAction::<Seq<char>>::Place)
        }),
        BoardLife::Reclaiming.next(home, BoardLifeEvent::Done) == (
            BoardLife::<Seq<char>>::Placing,
            BoardLifeAction::<Seq<char>>::Place,
        ),
        BoardLife::Placing.next(home, BoardLifeEvent::Done) == (
            BoardLife::<Seq<char>>::ReadingToken,
            BoardLifeAction::<Seq<char>>::ReadToken,
        ),
        BoardLife::ReadingToken.next(home, BoardLifeEvent::Token { raw: Some(raw) }) == (
            BoardLife::<Seq<char>>::Serving,
            BoardLifeAction::Serve { token: t::trimmed(raw) },
        ),
        BoardLife::Serving.next(home, BoardLifeEvent::Done) == (
            BoardLife::<Seq<char>>::Making,
            BoardLifeAction::<Seq<char>>::MakeDir,
        ),
        BoardLife::Making.next(home, BoardLifeEvent::Done) == (
            BoardLife::<Seq<char>>::Working,
            BoardLifeAction::<Seq<char>>::Work,
        ),
        BoardLife::Loading.next(home, BoardLifeEvent::Failed { error }).1 == (BoardLifeAction::Fail { error }),
        BoardLife::Reclaiming.next(home, BoardLifeEvent::Failed { error }).1 == (BoardLifeAction::Fail { error }),
        BoardLife::Placing.next(home, BoardLifeEvent::Failed { error }).1 == (BoardLifeAction::Fail { error }),
        BoardLife::Serving.next(home, BoardLifeEvent::Failed { error }).1 == (BoardLifeAction::Fail { error }),
        BoardLife::Making.next(home, BoardLifeEvent::Failed { error }).1 == (BoardLifeAction::Fail { error }),
{
}

/// The error of the work is carried through to the end of a board run, past the
/// storing, the counting and the copying; files are copied where there are any.
pub proof fn law_the_error_of_the_work_is_carried_to_the_end(home: Seq<char>, outcome: Option<Seq<char>>, files: usize)
    ensures
        ({
            let event = match outcome {
                Some(error) => BoardLifeEvent::Failed { error },
                None => BoardLifeEvent::Done,
            };
            let down = BoardLife::Working.next(home, event).0;
            let saving = down.next(home, BoardLifeEvent::Done).0;
            let counting = saving.next(home, BoardLifeEvent::Done).0;
            let (next, action) = counting.next(home, BoardLifeEvent::Counted { files });
            let closing = if files > 0 {
                next.next(home, BoardLifeEvent::Done).0
            } else {
                next
            };
            &&& files > 0 <==> action is CopyFiles
            &&& files == 0 <==> action is Close
            &&& closing.next(home, BoardLifeEvent::Done) == (
                BoardLife::<Seq<char>>::Ended,
                match outcome {
                    Some(error) => BoardLifeAction::Fail { error },
                    None => BoardLifeAction::Finish,
                },
            )
        }),
{
}

} // verus!
