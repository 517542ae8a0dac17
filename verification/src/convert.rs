//! Converting a video to another container: the formats, the arguments and the
//! job.
use crate::jobs::{Action, ActionView, Ending, Event, EventView, Step, StepView, World};
use crate::naming::{
    candidate, clock, convert_output_for, prefixed_stem, search_for, stamped, NameSearch,
    NameSearchView, NameStep, NameStepView, LAST_NUMBER,
};
use crate::paths::{
    extension_of, file_name, last_dot_position, may_be_file_name, named_in, one_reading,
    sanitize_path, sanitized, slash_file_name, VIDEO_EXTENSIONS,
};
use crate::text::{
    decimal, join2, lower, opt_text, owned, push_text, push_texts, str_texts, texts,
};
use vstd::prelude::*;
use vstd::string::*;

verus! {

/// The formats that a video can be converted to.
#[derive(Debug, Clone, Copy, PartialEq, Eq, Structural)]
pub enum ConvertFormat {
    Mp4,
    Webm,
    Mov,
    Mkv,
    Avi,
}

/// All formats, in the order in which they are offered.
pub open spec fn formats() -> Seq<ConvertFormat> {
    seq![
        ConvertFormat::Mp4,
        ConvertFormat::Webm,
        ConvertFormat::Mov,
        ConvertFormat::Mkv,
        ConvertFormat::Avi,
    ]
}

impl ConvertFormat {
    /// The label of a format.
    pub open spec fn label_text(self) -> Seq<char> {
        match self {
            ConvertFormat::Mp4 => "MP4 (H.264)"@,
            ConvertFormat::Webm => "WebM (VP9)"@,
            ConvertFormat::Mov => "MOV (H.264)"@,
            ConvertFormat::Mkv => "MKV (H.264)"@,
            ConvertFormat::Avi => "AVI (H.264)"@,
        }
    }

    /// The file name extension of a format, with its dot.
    pub open spec fn ext_text(self) -> Seq<char> {
        match self {
            ConvertFormat::Mp4 => ".mp4"@,
            ConvertFormat::Webm => ".webm"@,
            ConvertFormat::Mov => ".mov"@,
            ConvertFormat::Mkv => ".mkv"@,
            ConvertFormat::Avi => ".avi"@,
        }
    }

    /// The label of the format.
    pub fn label(self) -> (r: &'static str)
        ensures
            r@ == self.label_text(),
    {
        match self {
            ConvertFormat::Mp4 => "MP4 (H.264)",
            ConvertFormat::Webm => "WebM (VP9)",
            ConvertFormat::Mov => "MOV (H.264)",
            ConvertFormat::Mkv => "MKV (H.264)",
            ConvertFormat::Avi => "AVI (H.264)",
        }
    }

    /// The file name extension of the format, with its dot.
    pub fn ext(self) -> (r: &'static str)
        ensures
            r@ == self.ext_text(),
    {
        match self {
            ConvertFormat::Mp4 => ".mp4",
            ConvertFormat::Webm => ".webm",
            ConvertFormat::Mov => ".mov",
            ConvertFormat::Mkv => ".mkv",
            ConvertFormat::Avi => ".avi",
        }
    }

    /// All formats, in the order in which they are offered.
    pub fn all() -> (r: &'static [ConvertFormat])
        ensures
            r@ == formats(),
    {
        let r: &'static [ConvertFormat] = &[
            ConvertFormat::Mp4,
            ConvertFormat::Webm,
            ConvertFormat::Mov,
            ConvertFormat::Mkv,
            ConvertFormat::Avi,
        ];
        assert(r@ =~= formats());
        r
    }
}

/// The codec arguments of a format: WebM has codecs of its own, all others
/// share theirs.
pub open spec fn codec_args(format: ConvertFormat) -> Seq<Seq<char>> {
    match format {
        ConvertFormat::Webm => seq![
            "-c:v"@,
            "libvpx-vp9"@,
            "-crf"@,
            "32"@,
            "-b:v"@,
            "0"@,
            "-pix_fmt"@,
            "yuv420p"@,
            "-c:a"@,
            "libopus"@,
            "-b:a"@,
            "128k"@,
        ],
        _ => seq![
            "-c:v"@,
            "libx264"@,
            "-crf"@,
            "23"@,
            "-preset"@,
            "fast"@,
            "-pix_fmt"@,
            "yuv420p"@,
            "-c:a"@,
            "aac"@,
            "-b:a"@,
            "192k"@,
            "-movflags"@,
            "+faststart"@,
        ],
    }
}

/// The arguments of a conversion.
pub open spec fn conversion_args(
    input: Seq<char>,
    output: Seq<char>,
    format: ConvertFormat,
) -> Seq<Seq<char>> {
    (seq!["-y"@, "-i"@, sanitized(input), "-map"@, "0:v:0"@, "-map"@, "0:a:0?"@] + codec_args(
        format,
    )).push(sanitized(output))
}

/// Builds the arguments of a conversion: the primary video stream and, where
/// there is one, the primary audio stream, re-encoded.
pub fn convert_args(input: &str, output: &str, format: ConvertFormat) -> (args: Vec<String>)
    ensures
        texts(args@) == conversion_args(input@, output@, format),
{
    let in_path = sanitize_path(input);
    let out_path = sanitize_path(output);
    let mut args: Vec<String> = Vec::new();
    push_texts(
        &mut args,
        vec!["-y", "-i", in_path.as_str(), "-map", "0:v:0", "-map", "0:a:0?"],
    );
    match format {
        ConvertFormat::Webm => push_texts(
            &mut args,
            vec![
                "-c:v",
                "libvpx-vp9",
                "-crf",
                "32",
                "-b:v",
                "0",
                "-pix_fmt",
                "yuv420p",
                "-c:a",
                "libopus",
                "-b:a",
                "128k",
            ],
        ),
        _ => push_texts(
            &mut args,
            vec![
                "-c:v",
                "libx264",
                "-crf",
                "23",
                "-preset",
                "fast",
                "-pix_fmt",
                "yuv420p",
                "-c:a",
                "aac",
                "-b:a",
                "192k",
                "-movflags",
                "+faststart",
            ],
        ),
    }
    push_text(&mut args, out_path.as_str());
    assert(texts(args@) =~= conversion_args(input@, output@, format));
    args
}

// ---------------------------------------------------------------------------
// The job
// ---------------------------------------------------------------------------

/// Where a Convert job stands.
pub enum ConvertStage {
    /// The input is being looked for.
    Input,
    /// The output folder is being created.
    Folder,
    /// The name that the search is at is being looked up.
    Choose,
    /// The name of last resort is being looked up.
    Last,
    /// The conversion to the chosen output runs.
    Run { output: String },
    /// The job has ended.
    Over,
}

/// The content of a stage.
pub enum ConvertStageView {
    Input,
    Folder,
    Choose,
    Last,
    Run { output: Seq<char> },
    Over,
}

impl View for ConvertStage {
    type V = ConvertStageView;

    open spec fn view(&self) -> ConvertStageView {
        match *self {
            ConvertStage::Input => ConvertStageView::Input,
            ConvertStage::Folder => ConvertStageView::Folder,
            ConvertStage::Choose => ConvertStageView::Choose,
            ConvertStage::Last => ConvertStageView::Last,
            ConvertStage::Run { output } => ConvertStageView::Run { output: output@ },
            ConvertStage::Over => ConvertStageView::Over,
        }
    }
}

/// A job that converts a video.
pub struct ConvertJob {
    input: String,
    folder: String,
    format: ConvertFormat,
    search: NameSearch,
    stage: ConvertStage,
}

/// The content of a Convert job: the input, the output folder, the format, the
/// search for a free name in the folder, and the stage.
pub struct ConvertJobView {
    pub input: Seq<char>,
    pub folder: Seq<char>,
    pub format: ConvertFormat,
    pub search: NameSearchView,
    pub stage: ConvertStageView,
}

impl View for ConvertJob {
    type V = ConvertJobView;

    closed spec fn view(&self) -> ConvertJobView {
        ConvertJobView {
            input: self.input@,
            folder: self.folder@,
            format: self.format,
            search: self.search@,
            stage: self.stage@,
        }
    }
}

impl ConvertJobView {
    /// The search is at one of its names.
    pub open spec fn wf(self) -> bool {
        self.search.wf()
    }

    /// The job at another stage.
    pub open spec fn at(self, stage: ConvertStageView) -> ConvertJobView {
        ConvertJobView { stage, ..self }
    }

    /// The job as it ends.
    pub open spec fn ending(self, step: StepView) -> (ConvertJobView, StepView) {
        (self.at(ConvertStageView::Over), step)
    }

    /// The action that looks up a name.
    pub open spec fn look_up(self, name: Seq<char>) -> ActionView {
        ActionView::LookUp { folder: self.folder, name }
    }

    /// The job as it turns to the conversion.
    pub open spec fn running(self, output: Seq<char>) -> (ConvertJobView, StepView) {
        (
            self.at(ConvertStageView::Run { output }),
            StepView::Act(ActionView::RunFfmpeg(conversion_args(self.input, output, self.format))),
        )
    }

    /// The job and its next step after a reply, at the time `secs`.
    pub open spec fn after(self, event: EventView, secs: Option<u64>) -> (
        ConvertJobView,
        StepView,
    ) {
        match self.stage {
            ConvertStageView::Input => if event.is_yes() {
                (
                    self.at(ConvertStageView::Folder),
                    StepView::Act(ActionView::CreateFolder(self.folder)),
                )
            } else {
                self.ending(StepView::Failed("input not found: "@ + self.input))
            },
            ConvertStageView::Folder => match event {
                EventView::Failed(m) => self.ending(StepView::Failed(m)),
                EventView::Done { .. } => (
                    self.at(ConvertStageView::Choose),
                    StepView::Act(self.look_up(self.search.name())),
                ),
            },
            ConvertStageView::Choose => match event {
                EventView::Failed(m) => self.ending(StepView::Failed(m)),
                EventView::Done { yes, text } => if !yes {
                    self.running(text)
                } else {
                    match self.search.step(true, secs) {
                        NameStepView::Check(name) => (
                            ConvertJobView { search: self.search.next(), ..self },
                            StepView::Act(self.look_up(name)),
                        ),
                        NameStepView::Take(name) => (
                            self.at(ConvertStageView::Last),
                            StepView::Act(self.look_up(name)),
                        ),
                    }
                },
            },
            ConvertStageView::Last => match event {
                EventView::Failed(m) => self.ending(StepView::Failed(m)),
                EventView::Done { text, .. } => self.running(text),
            },
            ConvertStageView::Run { output } => match event {
                EventView::Failed(m) => self.ending(StepView::Failed(m)),
                EventView::Done { .. } => self.ending(StepView::Finished(output)),
            },
            ConvertStageView::Over => self.ending(StepView::Failed("the job has ended"@)),
        }
    }
}

/// A Convert job that begins, where the input has the file name `name`.
pub open spec fn convert_start(
    input: Seq<char>,
    folder: Seq<char>,
    format: ConvertFormat,
    name: Option<Seq<char>>,
) -> ConvertJobView {
    ConvertJobView {
        input,
        folder,
        format,
        search: search_for(
            prefixed_stem("converted_"@, name, "converted"@),
            format.ext_text(),
        ),
        stage: ConvertStageView::Input,
    }
}

/// Begins to convert the video `input`, which has the file name `name`, to a
/// format, in the folder `folder`.
pub fn convert_named_video(
    input: &str,
    name: &Option<String>,
    folder: &str,
    format: ConvertFormat,
) -> (r: (ConvertJob, Action))
    ensures
        r.0@ == convert_start(input@, folder@, format, opt_text(*name)),
        r.0@.wf(),
        r.1@ == ActionView::TestFile(input@),
{
    let job = ConvertJob {
        input: owned(input),
        folder: owned(folder),
        format,
        search: convert_output_for(name, format.ext()),
        stage: ConvertStage::Input,
    };
    (job, Action::TestFile(owned(input)))
}

/// Begins to convert the video `input` to a format, in the folder `folder`.
pub fn convert_video(input: &str, folder: &str, format: ConvertFormat) -> (r: (ConvertJob, Action))
    ensures
        exists|name: Option<Seq<char>>| #[trigger]
            may_be_file_name(input@, name) && r.0@ == convert_start(input@, folder@, format, name),
        one_reading(input@) ==> r.0@ == convert_start(
            input@,
            folder@,
            format,
            slash_file_name(input@),
        ),
        r.0@.wf(),
        r.1@ == ActionView::TestFile(input@),
{
    let name = file_name(input);
    assert(may_be_file_name(input@, opt_text(name)));
    convert_named_video(input, &name, folder, format)
}

impl ConvertJob {
    /// Ends with an error.
    fn fail(&mut self, message: &str) -> (step: Step)
        ensures
            (final(self)@, step@) == old(self)@.ending(StepView::Failed(message@)),
    {
        self.stage = ConvertStage::Over;
        Step::Failed(owned(message))
    }

    /// Turns to the conversion.
    fn run(&mut self, output: &str) -> (step: Step)
        ensures
            (final(self)@, step@) == old(self)@.running(output@),
    {
        let args = convert_args(self.input.as_str(), output, self.format);
        self.stage = ConvertStage::Run { output: owned(output) };
        Step::Act(Action::RunFfmpeg(args))
    }

    /// Asks for a name to be looked up in the folder.
    fn look_up(&self, name: String) -> (step: Step)
        ensures
            step@ == StepView::Act(self@.look_up(name@)),
    {
        Step::Act(Action::LookUp { folder: owned(self.folder.as_str()), name })
    }

    /// Takes the reply to the last action, at the time `secs`, and says what
    /// comes next.
    pub fn advance_at(&mut self, event: &Event, secs: Option<u64>) -> (step: Step)
        requires
            old(self)@.wf(),
        ensures
            (final(self)@, step@) == old(self)@.after(event@, secs),
            final(self)@.wf(),
    {
        let mut stage = ConvertStage::Over;
        std::mem::swap(&mut stage, &mut self.stage);
        match stage {
            ConvertStage::Input => if event.is_yes() {
                self.stage = ConvertStage::Folder;
                Step::Act(Action::CreateFolder(owned(self.folder.as_str())))
            } else {
                let message = join2("input not found: ", self.input.as_str());
                self.fail(message.as_str())
            },
            ConvertStage::Folder => match event {
                Event::Failed(m) => self.fail(m.as_str()),
                Event::Done { .. } => {
                    self.stage = ConvertStage::Choose;
                    self.look_up(self.search.name())
                },
            },
            ConvertStage::Choose => match event {
                Event::Failed(m) => self.fail(m.as_str()),
                Event::Done { yes, text } => if !*yes {
                    self.run(text.as_str())
                } else {
                    match self.search.answer_at(true, secs) {
                        NameStep::Check(name) => {
                            self.stage = ConvertStage::Choose;
                            self.look_up(name)
                        },
                        NameStep::Take(name) => {
                            self.stage = ConvertStage::Last;
                            self.look_up(name)
                        },
                    }
                },
            },
            ConvertStage::Last => match event {
                Event::Failed(m) => self.fail(m.as_str()),
                Event::Done { text, .. } => self.run(text.as_str()),
            },
            ConvertStage::Run { output } => match event {
                Event::Failed(m) => self.fail(m.as_str()),
                Event::Done { .. } => Step::Finished(output),
            },
            ConvertStage::Over => self.fail("the job has ended"),
        }
    }

    /// Takes the reply to the last action and says what comes next.
    pub fn advance(&mut self, event: &Event) -> (step: Step)
        requires
            old(self)@.wf(),
        ensures
            exists|secs: Option<u64>|
                (final(self)@, step@) == #[trigger] old(self)@.after(event@, secs),
            final(self)@.wf(),
    {
        let secs = clock();
        self.advance_at(event, secs)
    }
}

// ---------------------------------------------------------------------------
// Laws
// ---------------------------------------------------------------------------

/// Every format is offered exactly once.
pub proof fn every_format_is_offered(format: ConvertFormat)
    ensures
        formats().contains(format),
        formats().no_duplicates(),
{
    assert(formats()[0] == ConvertFormat::Mp4);
    assert(formats()[1] == ConvertFormat::Webm);
    assert(formats()[2] == ConvertFormat::Mov);
    assert(formats()[3] == ConvertFormat::Mkv);
    assert(formats()[4] == ConvertFormat::Avi);
}

/// Different formats have different labels and different extensions.
pub proof fn formats_are_told_apart(a: ConvertFormat, b: ConvertFormat)
    requires
        a != b,
    ensures
        a.label_text() != b.label_text(),
        a.ext_text() != b.ext_text(),
{
    reveal_strlit("MP4 (H.264)");
    reveal_strlit("WebM (VP9)");
    reveal_strlit("MOV (H.264)");
    reveal_strlit("MKV (H.264)");
    reveal_strlit("AVI (H.264)");
    reveal_strlit(".mp4");
    reveal_strlit(".webm");
    reveal_strlit(".mov");
    reveal_strlit(".mkv");
    reveal_strlit(".avi");
    if a.label_text() == b.label_text() {
        assert(a.label_text()[0] == b.label_text()[0]);
        assert(a.label_text()[1] == b.label_text()[1]);
    }
    if a.ext_text() == b.ext_text() {
        assert(a.ext_text()[1] == b.ext_text()[1]);
        assert(a.ext_text()[2] == b.ext_text()[2]);
    }
}

/// Every name with the extension of a format is that of a video: what the jobs
/// write can be listed and worked on again.
pub proof fn outputs_are_videos(stem: Seq<char>, format: ConvertFormat, n: nat)
    requires
        stem.len() > 0,
    ensures
        named_in(candidate(stem, format.ext_text(), n), VIDEO_EXTENSIONS@),
{
    let front = if n <= 1 {
        stem
    } else {
        stem + "_"@ + decimal(n)
    };
    assert(candidate(stem, format.ext_text(), n) == front + format.ext_text());
    extension_is_listed(front, format);
}

proof fn extension_is_listed(front: Seq<char>, format: ConvertFormat)
    requires
        front.len() > 0,
    ensures
        named_in(front + format.ext_text(), VIDEO_EXTENSIONS@),
{
    reveal_strlit(".mp4");
    reveal_strlit(".webm");
    reveal_strlit(".mov");
    reveal_strlit(".mkv");
    reveal_strlit(".avi");
    reveal_strlit("mp4");
    reveal_strlit("webm");
    reveal_strlit("mov");
    reveal_strlit("mkv");
    reveal_strlit("avi");
    let ext = format.ext_text();
    let name = front + ext;
    let dot = front.len() as int;
    let i: int = match format {
        ConvertFormat::Mp4 => 0,
        ConvertFormat::Mkv => 1,
        ConvertFormat::Mov => 2,
        ConvertFormat::Avi => 3,
        ConvertFormat::Webm => 4,
    };
    let bare = VIDEO_EXTENSIONS@[i]@;
    assert(ext =~= seq!['.'] + bare);
    last_dot_position(name);
    assert(name[dot] == '.');
    assert forall|j: int| dot < j < name.len() implies name[j] != '.' by {
        assert(name[j] == bare[j - dot - 1]);
    }
    assert(name != seq!['.', '.']) by {
        assert(name.len() > 2);
    }
    assert(extension_of(name) == Some(name.skip(dot + 1)));
    assert(name.skip(dot + 1) =~= bare);
    assert(lower(bare) =~= bare);
    assert(str_texts(VIDEO_EXTENSIONS@)[i] == bare);
}

/// How far a job is from its end, at most.
pub open spec fn convert_steps_left(job: ConvertJobView) -> int {
    match job.stage {
        ConvertStageView::Input => LAST_NUMBER + 5,
        ConvertStageView::Folder => LAST_NUMBER + 4,
        ConvertStageView::Choose => LAST_NUMBER - job.search.number + 3,
        ConvertStageView::Last => 2,
        ConvertStageView::Run { .. } => 1,
        ConvertStageView::Over => 0,
    }
}

/// How a job ends that has asked for `actions`, the last of them just now, where
/// the outside replies as `world` says and the time is `secs`.
pub open spec fn convert_run(
    job: ConvertJobView,
    actions: Seq<ActionView>,
    world: World,
    secs: Option<u64>,
) -> Ending
    decreases convert_steps_left(job),
{
    let (next, step) = job.after(world(actions), secs);
    match step {
        StepView::Act(a) => if 0 <= convert_steps_left(next) < convert_steps_left(job) {
            convert_run(next, actions.push(a), world, secs)
        } else {
            Ending { step, actions }
        },
        _ => Ending { step, actions },
    }
}

/// The actions behind `made` up to the look-up of the `n`th name.
pub open spec fn looked_up(job: ConvertJobView, made: Seq<ActionView>, n: nat) -> Seq<ActionView> {
    made + Seq::new(
        n,
        |k: int|
            job.look_up(candidate(job.search.stem, job.search.ext, (k + 1) as nat)),
    )
}

/// How a conversion to `output` ends that begins behind `actions`.
pub open spec fn conversion_ending(
    job: ConvertJobView,
    output: Seq<char>,
    actions: Seq<ActionView>,
    world: World,
) -> Ending {
    let run = actions.push(
        ActionView::RunFfmpeg(conversion_args(job.input, output, job.format)),
    );
    match world(run) {
        EventView::Done { .. } => Ending { step: StepView::Finished(output), actions: run },
        EventView::Failed(m) => Ending { step: StepView::Failed(m), actions: run },
    }
}

/// How a job ends whose first names are all taken, and which now looks up the
/// `n`th: it is converted to that name where it is free. The last name of the
/// search is followed by the one with a time stamp, which is taken as it is.
pub open spec fn choice_ending(
    job: ConvertJobView,
    made: Seq<ActionView>,
    n: nat,
    world: World,
    secs: Option<u64>,
    end: Ending,
) -> bool {
    let asked = looked_up(job, made, n);
    let last = asked.push(job.look_up(stamped(job.search.stem, job.search.ext, secs)));
    match world(asked) {
        EventView::Failed(m) => end == (Ending { step: StepView::Failed(m), actions: asked }),
        EventView::Done { yes, text } => if !yes {
            end == conversion_ending(job, text, asked, world)
        } else if n == LAST_NUMBER {
            match world(last) {
                EventView::Failed(m) => end == (Ending {
                    step: StepView::Failed(m),
                    actions: last,
                }),
                EventView::Done { text, .. } => end == conversion_ending(job, text, last, world),
            }
        } else {
            true
        },
    }
}

/// A Convert job finds its input and creates the folder, and then writes to the
/// first of its names that is not taken: `converted_`, the stem of the input, a
/// number from the second name on, and the extension of the format. So no file
/// that is there is written over.
pub proof fn convert_takes_the_first_free_name(
    input: Seq<char>,
    folder: Seq<char>,
    format: ConvertFormat,
    name: Option<Seq<char>>,
    before: Seq<ActionView>,
    world: World,
    secs: Option<u64>,
    n: nat,
)
    requires
        1 <= n <= LAST_NUMBER,
        ({
            let job = convert_start(input, folder, format, name);
            let made = before.push(ActionView::TestFile(input)).push(
                ActionView::CreateFolder(folder),
            );
            forall|m: nat|
                1 <= m < n ==> world(#[trigger] looked_up(job, made, m)).is_yes()
        }),
    ensures
        ({
            let job = convert_start(input, folder, format, name);
            let found = before.push(ActionView::TestFile(input));
            let made = found.push(ActionView::CreateFolder(folder));
            let end = convert_run(job, found, world, secs);
            if !world(found).is_yes() {
                end == (Ending {
                    step: StepView::Failed("input not found: "@ + input),
                    actions: found,
                })
            } else if let EventView::Failed(m) = world(made) {
                end == (Ending { step: StepView::Failed(m), actions: made })
            } else {
                choice_ending(job, made, n, world, secs, end)
            }
        }),
{
    let job = convert_start(input, folder, format, name);
    let found = before.push(ActionView::TestFile(input));
    let made = found.push(ActionView::CreateFolder(folder));
    let making = job.at(ConvertStageView::Folder);
    let choosing = job.at(ConvertStageView::Choose);
    if world(found).is_yes() {
        assert(convert_run(job, found, world, secs) == convert_run(making, made, world, secs));
        if world(made) is Done {
            let first = job.look_up(job.search.name());
            assert(made.push(first) =~= looked_up(job, made, 1));
            assert(convert_run(making, made, world, secs) == convert_run(
                choosing,
                looked_up(job, made, 1),
                world,
                secs,
            ));
            choosing_goes_on(job, choosing, made, 1, n, world, secs);
        }
    }
}

/// A job that looks up its `k`th name goes on to the `n`th where all between are
/// taken.
proof fn choosing_goes_on(
    start: ConvertJobView,
    job: ConvertJobView,
    made: Seq<ActionView>,
    k: nat,
    n: nat,
    world: World,
    secs: Option<u64>,
)
    requires
        1 <= k <= n <= LAST_NUMBER,
        job.input == start.input,
        job.folder == start.folder,
        job.format == start.format,
        job.search == (NameSearchView { number: k, ..start.search }),
        job.stage == ConvertStageView::Choose,
        forall|m: nat| k <= m < n ==> world(#[trigger] looked_up(start, made, m)).is_yes(),
    ensures
        choice_ending(
            start,
            made,
            n,
            world,
            secs,
            convert_run(job, looked_up(start, made, k), world, secs),
        ),
    decreases n - k,
{
    let asked = looked_up(start, made, k);
    let (next, step) = job.after(world(asked), secs);
    if k < n {
        assert(world(asked).is_yes());
        let name = candidate(start.search.stem, start.search.ext, k + 1);
        assert(asked.push(start.look_up(name)) =~= looked_up(start, made, k + 1));
        choosing_goes_on(start, next, made, k + 1, n, world, secs);
    } else {
        reveal_with_fuel(convert_run, 3);
    }
}

/// The first name from the `k`th on that is not taken, or the last one.
proof fn first_not_taken(
    job: ConvertJobView,
    made: Seq<ActionView>,
    k: nat,
    world: World,
) -> (n: nat)
    requires
        1 <= k <= LAST_NUMBER,
        forall|m: nat| 1 <= m < k ==> world(#[trigger] looked_up(job, made, m)).is_yes(),
    ensures
        1 <= n <= LAST_NUMBER,
        forall|m: nat| 1 <= m < n ==> world(#[trigger] looked_up(job, made, m)).is_yes(),
        n == LAST_NUMBER || !world(looked_up(job, made, n)).is_yes(),
    decreases LAST_NUMBER - k,
{
    if k < LAST_NUMBER && world(looked_up(job, made, k)).is_yes() {
        first_not_taken(job, made, k + 1, world)
    } else {
        k
    }
}

/// Whether an output was free: it is the path of one of the names of the search
/// that was not taken while all before it were, or all names were taken and it
/// is the path of the one with a time stamp.
pub open spec fn was_free(
    job: ConvertJobView,
    made: Seq<ActionView>,
    world: World,
    secs: Option<u64>,
    output: Seq<char>,
) -> bool {
    ||| exists|n: nat|
        1 <= n <= LAST_NUMBER && world(#[trigger] looked_up(job, made, n)) == (EventView::Done {
            yes: false,
            text: output,
        }) && forall|m: nat| 1 <= m < n ==> world(#[trigger] looked_up(job, made, m)).is_yes()
    ||| {
        &&& forall|m: nat|
            1 <= m <= LAST_NUMBER ==> world(#[trigger] looked_up(job, made, m)).is_yes()
        &&& world(
            looked_up(job, made, LAST_NUMBER as nat).push(
                job.look_up(stamped(job.search.stem, job.search.ext, secs)),
            ),
        ) matches EventView::Done { text, .. } && text == output
    }
}

/// A Convert job that ends well ends with an output that was free, and the last
/// thing that it did was the conversion of the input to that output.
pub proof fn converted_output_was_free(
    input: Seq<char>,
    folder: Seq<char>,
    format: ConvertFormat,
    name: Option<Seq<char>>,
    before: Seq<ActionView>,
    world: World,
    secs: Option<u64>,
)
    ensures
        ({
            let job = convert_start(input, folder, format, name);
            let found = before.push(ActionView::TestFile(input));
            let made = found.push(ActionView::CreateFolder(folder));
            let end = convert_run(job, found, world, secs);
            &&& !(end.step is Act)
            &&& end.step matches StepView::Finished(output) ==> {
                &&& was_free(job, made, world, secs, output)
                &&& end.actions.last() == ActionView::RunFfmpeg(
                    conversion_args(input, output, format),
                )
                &&& world(end.actions) is Done
            }
        }),
{
    let job = convert_start(input, folder, format, name);
    let found = before.push(ActionView::TestFile(input));
    let made = found.push(ActionView::CreateFolder(folder));
    let n = first_not_taken(job, made, 1, world);
    convert_takes_the_first_free_name(input, folder, format, name, before, world, secs, n);
    let asked = looked_up(job, made, n);
    if world(asked).is_yes() {
        assert forall|m: nat| 1 <= m <= LAST_NUMBER implies world(
            #[trigger] looked_up(job, made, m),
        ).is_yes() by {
            if m == n {
                assert(looked_up(job, made, m) == asked);
            }
        }
    }
}

} // verus!
