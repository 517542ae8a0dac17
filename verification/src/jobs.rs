//! The vocabulary of media jobs: what a job asks to be done, what it is told in
//! reply, and how it ends.
use crate::text::{owned, texts};
use vstd::prelude::*;
use vstd::string::*;

verus! {

/// Something a job needs done outside.
pub enum Action {
    /// Create the folder that the path stands in.
    CreateParent(String),
    /// Create the folder.
    CreateFolder(String),
    /// Tell whether the path is a file.
    TestFile(String),
    /// Tell whether something is at the path.
    TestExists(String),
    /// Probe the duration of the media file.
    ProbeDuration(String),
    /// Probe the duration of the media file and divide it by the wanted one.
    ProbeFactor(String),
    /// Tell whether the name is taken in the folder, and give the path that it
    /// has there.
    LookUp { folder: String, name: String },
    /// Write `body` to the file `path`.
    WriteFile { path: String, body: String },
    /// Run ffmpeg with the arguments.
    RunFfmpeg(Vec<String>),
    /// Run ffmpeg with the arguments; it need only start, and how it ends does
    /// not matter.
    StartFfmpeg(Vec<String>),
    /// Open the image.
    OpenImage(String),
    /// Remove the file; whether that succeeds does not matter.
    RemoveFile(String),
}

/// The content of an action.
pub enum ActionView {
    CreateParent(Seq<char>),
    CreateFolder(Seq<char>),
    TestFile(Seq<char>),
    TestExists(Seq<char>),
    ProbeDuration(Seq<char>),
    ProbeFactor(Seq<char>),
    LookUp { folder: Seq<char>, name: Seq<char> },
    WriteFile { path: Seq<char>, body: Seq<char> },
    RunFfmpeg(Seq<Seq<char>>),
    StartFfmpeg(Seq<Seq<char>>),
    OpenImage(Seq<char>),
    RemoveFile(Seq<char>),
}

impl View for Action {
    type V = ActionView;

    open spec fn view(&self) -> ActionView {
        match *self {
            Action::CreateParent(p) => ActionView::CreateParent(p@),
            Action::CreateFolder(p) => ActionView::CreateFolder(p@),
            Action::TestFile(p) => ActionView::TestFile(p@),
            Action::TestExists(p) => ActionView::TestExists(p@),
            Action::ProbeDuration(p) => ActionView::ProbeDuration(p@),
            Action::ProbeFactor(p) => ActionView::ProbeFactor(p@),
            Action::LookUp { folder, name } => ActionView::LookUp {
                folder: folder@,
                name: name@,
            },
            Action::WriteFile { path, body } => ActionView::WriteFile {
                path: path@,
                body: body@,
            },
            Action::RunFfmpeg(args) => ActionView::RunFfmpeg(texts(args@)),
            Action::StartFfmpeg(args) => ActionView::StartFfmpeg(texts(args@)),
            Action::OpenImage(p) => ActionView::OpenImage(p@),
            Action::RemoveFile(p) => ActionView::RemoveFile(p@),
        }
    }
}

/// The reply to an action: a failure with its message, or success with an
/// answer to a question and a text where the action asks for one.
pub enum Event {
    Failed(String),
    Done { yes: bool, text: String },
}

/// The content of a reply.
pub enum EventView {
    Failed(Seq<char>),
    Done { yes: bool, text: Seq<char> },
}

impl View for Event {
    type V = EventView;

    open spec fn view(&self) -> EventView {
        match *self {
            Event::Failed(m) => EventView::Failed(m@),
            Event::Done { yes, text } => EventView::Done { yes, text: text@ },
        }
    }
}

impl EventView {
    /// The action succeeded and its question was answered with yes.
    pub open spec fn is_yes(self) -> bool {
        self matches EventView::Done { yes, .. } && yes
    }
}

impl Event {
    /// Plain success.
    pub fn done() -> (e: Event)
        ensures
            e@ == (EventView::Done { yes: false, text: Seq::empty() }),
    {
        Event::Done { yes: false, text: String::new() }
    }

    /// The answer to a question.
    pub fn answer(yes: bool) -> (e: Event)
        ensures
            e@ == (EventView::Done { yes, text: Seq::empty() }),
    {
        Event::Done { yes, text: String::new() }
    }

    /// Success with a text.
    pub fn text(text: &str) -> (e: Event)
        ensures
            e@ == (EventView::Done { yes: false, text: text@ }),
    {
        Event::Done { yes: false, text: owned(text) }
    }

    /// Whether the action succeeded and its question was answered with yes.
    pub fn is_yes(&self) -> (r: bool)
        ensures
            r == self@.is_yes(),
    {
        match self {
            Event::Done { yes, .. } => *yes,
            Event::Failed(_) => false,
        }
    }
}

/// What comes next in a job: an action, or the end with the output path or an
/// error message.
pub enum Step {
    Act(Action),
    Finished(String),
    Failed(String),
}

/// The content of a step.
pub enum StepView {
    Act(ActionView),
    Finished(Seq<char>),
    Failed(Seq<char>),
}

impl View for Step {
    type V = StepView;

    open spec fn view(&self) -> StepView {
        match *self {
            Step::Act(a) => StepView::Act(a@),
            Step::Finished(p) => StepView::Finished(p@),
            Step::Failed(m) => StepView::Failed(m@),
        }
    }
}

/// How the outside replies: what it says to the last of the actions that a job
/// has asked for so far.
pub type World = spec_fn(Seq<ActionView>) -> EventView;

/// The end of a job: its last step, and all the actions that led there.
#[verifier::ext_equal]
pub struct Ending {
    pub step: StepView,
    pub actions: Seq<ActionView>,
}

} // verus!
