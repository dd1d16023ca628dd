//! The files of a message: each is fetched, then shown to the agent, put into
//! its graph or kept, and in the end all of them are told of.

use crate::channels::discord;
use crate::channels::discord::{attachment_line, handle_discord_attachment, received_text, FileOutcome, FileStep};
use crate::channels::media;
use crate::channels::media::vision_prompt_text;
use crate::text as t;
use vstd::prelude::*;
use vstd::string::*;

verus! {

/// What the files wait for.
#[derive(Clone, Copy, Debug, PartialEq, Eq, Structural)]
pub enum AttachmentStage {
    Fetching,
    Showing,
    Ingesting,
    Ended,
}

/// The files of a message, by name. `at` is the one that is dealt with, and
/// `lines` tell of those before it.
#[derive(Debug, PartialEq, Eq)]
pub struct Attachments<S, L> {
    pub files: L,
    pub caption: S,
    /// Whether the agent has a graph at hand.
    pub graph: bool,
    pub at: usize,
    pub lines: L,
    pub stage: AttachmentStage,
}

impl View for Attachments<String, Vec<String>> {
    type V = Attachments<Seq<char>, Seq<Seq<char>>>;

    open spec fn view(&self) -> Attachments<Seq<char>, Seq<Seq<char>>> {
        Attachments {
            files: t::texts(self.files@),
            caption: self.caption@,
            graph: self.graph,
            at: self.at,
            lines: t::texts(self.lines@),
            stage: self.stage,
        }
    }
}

#[derive(Debug, PartialEq, Eq)]
pub enum AttachmentEvent<S> {
    /// The file was fetched.
    Fetched,
    /// The image stands in the guest.
    Shown { guest_path: S },
    Ingested { chunks: usize },
    Failed { error: S },
}

impl View for AttachmentEvent<String> {
    type V = AttachmentEvent<Seq<char>>;

    open spec fn view(&self) -> AttachmentEvent<Seq<char>> {
        match self {
            AttachmentEvent::Fetched => AttachmentEvent::Fetched,
            AttachmentEvent::Shown { guest_path } => AttachmentEvent::Shown {
                guest_path: guest_path@,
            },
            AttachmentEvent::Ingested { chunks } => AttachmentEvent::Ingested { chunks: *chunks },
            AttachmentEvent::Failed { error } => AttachmentEvent::Failed { error: error@ },
        }
    }
}

/// What is noted beside the next step. That it cannot be noted does not matter.
#[derive(Debug, PartialEq, Eq)]
pub enum AttachmentNote<S> {
    Nothing,
    /// Let the agent look at the image, and audit it.
    Look { prompt: S, image: S, action: S, message: S },
    Audit { action: S, message: S },
}

impl View for AttachmentNote<String> {
    type V = AttachmentNote<Seq<char>>;

    open spec fn view(&self) -> AttachmentNote<Seq<char>> {
        match self {
            AttachmentNote::Nothing => AttachmentNote::Nothing,
            AttachmentNote::Look { prompt, image, action, message } => AttachmentNote::Look {
                prompt: prompt@,
                image: image@,
                action: action@,
                message: message@,
            },
            AttachmentNote::Audit { action, message } => AttachmentNote::Audit {
                action: action@,
                message: message@,
            },
        }
    }
}

#[derive(Debug, PartialEq, Eq)]
pub enum AttachmentAction<S> {
    Fetch { at: usize },
    /// Bring the image into the guest.
    Show { at: usize },
    Ingest { at: usize },
    /// Post the text, and end.
    Post { text: S },
    Finish,
    /// The event is not one that was waited for.
    Ignore,
}

impl View for AttachmentAction<String> {
    type V = AttachmentAction<Seq<char>>;

    open spec fn view(&self) -> AttachmentAction<Seq<char>> {
        match self {
            AttachmentAction::Fetch { at } => AttachmentAction::Fetch { at: *at },
            AttachmentAction::Show { at } => AttachmentAction::Show { at: *at },
            AttachmentAction::Ingest { at } => AttachmentAction::Ingest { at: *at },
            AttachmentAction::Post { text } => AttachmentAction::Post { text: text@ },
            AttachmentAction::Finish => AttachmentAction::Finish,
            AttachmentAction::Ignore => AttachmentAction::Ignore,
        }
    }
}

pub type FilesView = Attachments<Seq<char>, Seq<Seq<char>>>;

pub type NoteView = AttachmentNote<Seq<char>>;

pub type ActionView = AttachmentAction<Seq<char>>;

/// A line that ends in an error or nothing.
pub open spec fn line(file_name: Seq<char>, words: Seq<char>) -> Seq<char> {
    "• `"@ + file_name + words
}

pub open spec fn ingested_line(file_name: Seq<char>, chunks: usize) -> Seq<char> {
    "• `"@ + file_name + "` → added to my knowledge graph ("@ + t::decimal(chunks as nat) + " chunks)"@
}

/// What the files of a message come to in the end.
pub open spec fn posted(lines: Seq<Seq<char>>, caption: Seq<char>) -> ActionView {
    match discord::received(lines, caption) {
        Some(text) => AttachmentAction::Post { text },
        None => AttachmentAction::Finish,
    }
}

impl Attachments<Seq<char>, Seq<Seq<char>>> {
    pub open spec fn sound(self) -> bool {
        &&& self.at <= self.files.len() <= usize::MAX
        &&& self.stage != AttachmentStage::Ended ==> self.at < self.files.len()
        &&& self.lines.len() == self.at
    }

    pub open spec fn name(self) -> Seq<char> {
        self.files[self.at as int]
    }

    pub open spec fn at_stage(self, stage: AttachmentStage) -> FilesView {
        Attachments { stage, ..self }
    }

    /// Goes on to the file at `at`, or tells of all of them.
    pub open spec fn going(self) -> (FilesView, ActionView) {
        if self.at < self.files.len() {
            (self.at_stage(AttachmentStage::Fetching), AttachmentAction::Fetch { at: self.at })
        } else {
            (self.at_stage(AttachmentStage::Ended), posted(self.lines, self.caption))
        }
    }

    /// The file is done with: `line` tells of it.
    pub open spec fn taken(self, line: Seq<char>) -> (FilesView, ActionView) {
        Attachments { at: (self.at + 1) as usize, lines: self.lines.push(line), ..self }.going()
    }

    /// What is done with the file that was fetched; `tried` where the agent
    /// could not be shown the image.
    pub open spec fn decided(self, tried: bool) -> (FilesView, ActionView) {
        match discord::file_step(self.name(), self.graph, tried) {
            FileStep::Show => (self.at_stage(AttachmentStage::Showing), AttachmentAction::Show { at: self.at }),
            FileStep::Ingest => (
                self.at_stage(AttachmentStage::Ingesting),
                AttachmentAction::Ingest { at: self.at },
            ),
            FileStep::Keep => self.taken(line(self.name(), "` — saved to my inbox"@)),
        }
    }

    /// How the files go on when an event comes.
    pub open spec fn next(self, event: AttachmentEvent<Seq<char>>) -> ((FilesView, ActionView), NoteView) {
        match (self.stage, event) {
            (AttachmentStage::Fetching, AttachmentEvent::Fetched) => (self.decided(false), AttachmentNote::Nothing),
            (AttachmentStage::Fetching, AttachmentEvent::Failed { error }) => (
                self.taken(line(self.name(), "` — download failed: "@) + error),
                AttachmentNote::Nothing,
            ),
            (AttachmentStage::Showing, AttachmentEvent::Shown { guest_path }) => (
                self.taken(line(self.name(), "` — 👁️ viewing it now"@)),
                AttachmentNote::Look {
                    prompt: media::vision_prompt(Some(self.caption), guest_path),
                    image: guest_path,
                    action: "channel.discord.image"@,
                    message: "delivered image to guest ("@ + guest_path + "); running vision turn"@,
                },
            ),
            (AttachmentStage::Showing, AttachmentEvent::Failed { error }) => (
                self.decided(true),
                AttachmentNote::Audit {
                    action: "channel.discord.image_fallback"@,
                    message: "guest image delivery failed ("@ + error + "); falling back"@,
                },
            ),
            (AttachmentStage::Ingesting, AttachmentEvent::Ingested { chunks }) => (
                self.taken(ingested_line(self.name(), chunks)),
                AttachmentNote::Audit {
                    action: "channel.discord.document"@,
                    message: "ingested "@ + self.name() + " ("@ + t::decimal(chunks as nat) + " chunks)"@,
                },
            ),
            (AttachmentStage::Ingesting, AttachmentEvent::Failed { error }) => (
                self.taken(line(self.name(), "` — could not ingest: "@) + error),
                AttachmentNote::Nothing,
            ),
            _ => ((self, AttachmentAction::Ignore), AttachmentNote::Nothing),
        }
    }
}

/// Starts with the files of a message.
pub fn handle_discord_attachments(files: Vec<String>, caption: String, graph: bool) -> (r: (
    Attachments<String, Vec<String>>,
    AttachmentAction<String>,
))
    ensures
        r.0@.sound(),
        (r.0@, r.1@) == (Attachments::<Seq<char>, Seq<Seq<char>>> {
            files: t::texts(files@),
            caption: caption@,
            graph,
            at: 0,
            lines: Seq::empty(),
            stage: AttachmentStage::Fetching,
        }).going(),
{
    let lines = t::no_lines();
    let all = Attachments { files, caption, graph, at: 0, lines, stage: AttachmentStage::Fetching };
    let count: usize = all.files.len();
    assert(all@.files.len() == count);
    all.go()
}

impl Attachments<String, Vec<String>> {
    fn go(self) -> (r: (Attachments<String, Vec<String>>, AttachmentAction<String>))
        requires
            self@.at <= self@.files.len() <= usize::MAX,
            self@.lines.len() == self@.at,
        ensures
            (r.0@, r.1@) == self@.going(),
            r.0@.sound(),
    {
        assert(self@.files.len() == self.files@.len());
        let at = self.at;
        if at < self.files.len() {
            (Attachments { stage: AttachmentStage::Fetching, ..self }, AttachmentAction::Fetch { at })
        } else {
            let action = match received_text(&self.lines, self.caption.as_str()) {
                Some(text) => AttachmentAction::Post { text },
                None => AttachmentAction::Finish,
            };
            (Attachments { stage: AttachmentStage::Ended, ..self }, action)
        }
    }

    fn take(self, outcome: FileOutcome) -> (r: (Attachments<String, Vec<String>>, AttachmentAction<String>))
        requires
            self@.sound(),
            self@.at < self@.files.len(),
        ensures
            (r.0@, r.1@) == self@.taken(discord::outcome_line(self@.name(), outcome)),
            r.0@.sound(),
    {
        assert(self@.files.len() == self.files@.len());
        let line = attachment_line(self.files[self.at].as_str(), &outcome);
        let Attachments { files, caption, graph, at, lines, stage } = self;
        let mut lines = lines;
        let ghost before = t::texts(lines@);
        let ghost told = line@;
        lines.push(line);
        assert(t::texts(lines@) =~= before.push(told));
        Attachments { files, caption, graph, at: at + 1, lines, stage }.go()
    }

    fn decide(self, tried: bool) -> (r: (Attachments<String, Vec<String>>, AttachmentAction<String>))
        requires
            self@.sound(),
            self@.at < self@.files.len(),
        ensures
            (r.0@, r.1@) == self@.decided(tried),
            r.0@.sound(),
    {
        assert(self@.files.len() == self.files@.len());
        let at = self.at;
        match handle_discord_attachment(self.files[at].as_str(), self.graph, tried) {
            FileStep::Show => (
                Attachments { stage: AttachmentStage::Showing, ..self },
                AttachmentAction::Show { at },
            ),
            FileStep::Ingest => (
                Attachments { stage: AttachmentStage::Ingesting, ..self },
                AttachmentAction::Ingest { at },
            ),
            FileStep::Keep => self.take(FileOutcome::Kept),
        }
    }

    /// Goes on when an event comes.
    pub fn advance(self, event: AttachmentEvent<String>) -> (r: (
        (Attachments<String, Vec<String>>, AttachmentAction<String>),
        AttachmentNote<String>,
    ))
        requires
            self@.sound(),
        ensures
            ((r.0.0@, r.0.1@), r.1@) == self@.next(event@),
            r.0.0@.sound(),
    {
        assert(self@.files.len() == self.files@.len());
        match (self.stage, event) {
            (AttachmentStage::Fetching, AttachmentEvent::Fetched) => (self.decide(false), AttachmentNote::Nothing),
            (AttachmentStage::Fetching, AttachmentEvent::Failed { error }) => (
                self.take(FileOutcome::NotFetched { error }),
                AttachmentNote::Nothing,
            ),
            (AttachmentStage::Showing, AttachmentEvent::Shown { guest_path }) => {
                let prompt = vision_prompt_text(Some(self.caption.as_str()), guest_path.as_str());
                let message = "delivered image to guest (".to_owned().concat(guest_path.as_str()).concat(
                    "); running vision turn",
                );
                (
                    self.take(FileOutcome::Shown),
                    AttachmentNote::Look {
                        prompt,
                        image: guest_path,
                        action: "channel.discord.image".to_owned(),
                        message,
                    },
                )
            },
            (AttachmentStage::Showing, AttachmentEvent::Failed { error }) => {
                let message = "guest image delivery failed (".to_owned().concat(error.as_str()).concat(
                    "); falling back",
                );
                (
                    self.decide(true),
                    AttachmentNote::Audit { action: "channel.discord.image_fallback".to_owned(), message },
                )
            },
            (AttachmentStage::Ingesting, AttachmentEvent::Ingested { chunks }) => {
                let message = "ingested ".to_owned().concat(self.files[self.at].as_str()).concat(" (").concat(
                    t::usize_text(chunks).as_str(),
                ).concat(" chunks)");
                (
                    self.take(FileOutcome::Ingested { chunks }),
                    AttachmentNote::Audit { action: "channel.discord.document".to_owned(), message },
                )
            },
            (AttachmentStage::Ingesting, AttachmentEvent::Failed { error }) => (
                self.take(FileOutcome::NotIngested { error }),
                AttachmentNote::Nothing,
            ),
            _ => ((self, AttachmentAction::Ignore), AttachmentNote::Nothing),
        }
    }
}

/// Each file is told of in a line of its own: one that is dealt with adds one
/// line and changes none, and when the files have ended there are as many lines
/// as files.
pub proof fn law_every_file_is_told_of(files: FilesView, event: AttachmentEvent<Seq<char>>)
    requires
        files.sound(),
    ensures
        ({
            let after = files.next(event).0.0;
            &&& after.sound()
            &&& after.at == files.at || after.at == files.at + 1
            &&& after.lines.take(files.lines.len() as int) == files.lines
            &&& after.stage == AttachmentStage::Ended && files.stage != AttachmentStage::Ended
                ==> after.lines.len() == files.files.len()
        }),
{
    let after = files.next(event).0.0;
    assert(after.lines.take(files.lines.len() as int) =~= files.lines);
}

/// A file that cannot be fetched, shown or ingested does not hold up the others.
pub proof fn law_a_failed_file_does_not_hold_up_the_others(files: FilesView, error: Seq<char>)
    requires
        files.sound(),
        files.stage != AttachmentStage::Ended,
    ensures
        !(files.next(AttachmentEvent::Failed { error }).0.1 is Ignore),
        files.stage == AttachmentStage::Fetching && files.at + 1 < files.files.len() ==> files.next(
            AttachmentEvent::Failed { error },
        ).0.1 == (AttachmentAction::<Seq<char>>::Fetch { at: (files.at + 1) as usize }),
{
}

/// A fetched image is shown to the agent first. What is no image, and an image
/// that could not be shown, goes into the graph where the agent has one and the
/// file can be read; any other file is kept.
pub proof fn law_a_fetched_file_is_used(files: FilesView, error: Seq<char>)
    requires
        files.sound(),
        files.at < files.files.len(),
    ensures
        ({
            let name = files.files[files.at as int];
            let fetched = files.at_stage(AttachmentStage::Fetching).next(AttachmentEvent::Fetched).0.1;
            let unseen = files.at_stage(AttachmentStage::Showing).next(AttachmentEvent::Failed { error });
            &&& discord::image_name(name) ==> fetched == (ActionView::Show { at: files.at })
            &&& !discord::image_name(name) && files.graph && media::ingestible(name) ==> fetched == (
            ActionView::Ingest { at: files.at })
            &&& !discord::image_name(name) && !(files.graph && media::ingestible(name)) ==> (fetched is Fetch
                || fetched is Post)
            &&& files.graph && media::ingestible(name) ==> unseen.0.1 == (ActionView::Ingest { at: files.at })
            &&& unseen.1 matches AttachmentNote::Audit { message, .. } && t::has(message, error)
        }),
{
    t::lemma_has_part("guest image delivery failed ("@, error, "); falling back"@);
    let kept = files.lines.push(line(files.name(), "` — saved to my inbox"@));
    assert(kept.len() > 0);
}

/// The agent looks at the image that stands in the guest, with the caption, and
/// the file is told of by its name.
pub proof fn law_an_image_in_the_guest_is_looked_at(files: FilesView, guest_path: Seq<char>)
    requires
        files.sound(),
        files.stage == AttachmentStage::Showing,
    ensures
        ({
            let (step, note) = files.next(AttachmentEvent::Shown { guest_path });
            &&& note matches AttachmentNote::Look { prompt, image, .. } && image == guest_path && prompt
                == media::vision_prompt(Some(files.caption), guest_path)
            &&& step.0.at == files.at + 1
            &&& t::has(step.0.lines.last(), files.files[files.at as int])
        }),
{
    let told = line(files.name(), "` — 👁️ viewing it now"@);
    t::lemma_has_part("• `"@, files.name(), "` — 👁️ viewing it now"@);
    let step = files.next(AttachmentEvent::Shown { guest_path }).0;
    assert(step.0.lines == files.lines.push(told));
}

/// Once every file was dealt with, all of them are told of in one post that
/// holds every line; a message without files ends without a word.
pub proof fn law_all_files_are_told_of_in_one_post(files: FilesView)
    requires
        files.at >= files.files.len(),
    ensures
        files.lines.len() > 0 ==> (files.going().1 matches AttachmentAction::Post { text } && t::has(
            text,
            t::joined(files.lines, "\n"@),
        )),
        files.lines.len() == 0 ==> files.going().1 is Finish,
        files.going().0.stage == AttachmentStage::Ended,
{
    let trailer = if t::trimmed(files.caption).len() == 0 {
        Seq::empty()
    } else {
        "\n\n_re: "@ + t::head(t::trimmed(files.caption), 180) + "_"@
    };
    t::lemma_has_part("📎 Received:\n"@, t::joined(files.lines, "\n"@), trailer);
}

/// A file that failed is told of with its name and its error.
pub proof fn law_a_failed_file_is_told_of(files: FilesView, error: Seq<char>)
    requires
        files.sound(),
        files.stage == AttachmentStage::Fetching || files.stage == AttachmentStage::Ingesting,
    ensures
        ({
            let after = files.next(AttachmentEvent::Failed { error }).0.0;
            &&& after.lines.len() == files.lines.len() + 1
            &&& t::has(after.lines.last(), files.files[files.at as int])
            &&& t::ends(after.lines.last(), error)
        }),
{
    let words = if files.stage == AttachmentStage::Fetching {
        "` — download failed: "@
    } else {
        "` — could not ingest: "@
    };
    let told = line(files.name(), words) + error;
    t::lemma_has_part("• `"@, files.name(), words + error);
    assert("• `"@ + files.name() + (words + error) =~= told);
    assert(told.subrange(told.len() - error.len(), told.len() as int) =~= error);
    let after = files.next(AttachmentEvent::Failed { error }).0.0;
    assert(after.lines == files.lines.push(told));
}

/// An ingested file is told of with its name and the number of its chunks.
pub proof fn law_an_ingested_file_is_told_of(files: FilesView, chunks: usize)
    requires
        files.sound(),
        files.stage == AttachmentStage::Ingesting,
    ensures
        ({
            let after = files.next(AttachmentEvent::Ingested { chunks }).0.0;
            &&& after.at == files.at + 1
            &&& t::has(after.lines.last(), files.files[files.at as int])
            &&& t::has(after.lines.last(), t::decimal(chunks as nat))
        }),
{
    let told = ingested_line(files.name(), chunks);
    let mid = "` → added to my knowledge graph ("@;
    let n = t::decimal(chunks as nat);
    t::lemma_has_part("• `"@, files.name(), mid + n + " chunks)"@);
    assert("• `"@ + files.name() + (mid + n + " chunks)"@) =~= told);
    t::lemma_has_part("• `"@ + files.name() + mid, n, " chunks)"@);
    let after = files.next(AttachmentEvent::Ingested { chunks }).0.0;
    assert(after.lines == files.lines.push(told));
}

} // verus!
