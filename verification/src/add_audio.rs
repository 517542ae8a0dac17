//! Adding an audio track: the visuals are joined, looped until the track ends,
//! and muxed with it.
use crate::concat::{
    concat_run, concat_start, concatenate, steps_left, ConcatJob, ConcatJobView, ConcatOptions,
};
use crate::jobs::{Action, ActionView, Ending, Event, EventView, Step, StepView, World};
use crate::paths::{sanitize_path, sanitized};
use crate::text::{
    copy_texts, decimal, decimal_text, join2, join3, opt_text, owned, push_texts, texts,
};
use vstd::prelude::*;
use vstd::string::*;

verus! {

/// How a track is added.
#[derive(Debug, Clone, Copy, PartialEq, Eq)]
pub struct AddAudioOptions {
    pub reverse_order: bool,
    pub reverse_video: bool,
    pub reverse_audio: bool,
    /// Target fps for looped visual base.
    pub fps: u32,
}

impl Default for AddAudioOptions {
    fn default() -> (r: Self)
        ensures
            r == (AddAudioOptions {
                reverse_order: false,
                reverse_video: false,
                reverse_audio: false,
                fps: 30,
            }),
    {
        AddAudioOptions {
            reverse_order: false,
            reverse_video: false,
            reverse_audio: false,
            fps: 30,
        }
    }
}

/// The frame rate that is used: the wanted one, kept between 10 and 60.
pub open spec fn used_fps(fps: u32) -> u32 {
    if fps < 10 {
        10
    } else if fps > 60 {
        60
    } else {
        fps
    }
}

/// Keeps a frame rate between 10 and 60.
pub fn clamp_fps(fps: u32) -> (r: u32)
    ensures
        r == used_fps(fps),
        10 <= r <= 60,
{
    if fps < 10 {
        10
    } else if fps > 60 {
        60
    } else {
        fps
    }
}

/// The options of the join of the visuals: their order and video may be
/// reversed, their audio stays as it is, and they are always re-encoded.
pub open spec fn base_options(opts: AddAudioOptions) -> ConcatOptions {
    ConcatOptions {
        reverse_order: opts.reverse_order,
        reverse_video: opts.reverse_video,
        reverse_audio: false,
        prefer_stream_copy: false,
    }
}

/// The stream choice of the final mux.
pub open spec fn mux_streams(opts: AddAudioOptions) -> Seq<Seq<char>> {
    let vf = "fps="@ + decimal(used_fps(opts.fps) as nat);
    if opts.reverse_audio {
        seq![
            "-filter_complex"@,
            "[0:v]"@ + vf + "[v];[1:a]areverse[a]"@,
            "-map"@,
            "[v]"@,
            "-map"@,
            "[a]"@,
        ]
    } else {
        seq!["-map"@, "0:v:0"@, "-map"@, "1:a:0"@, "-vf"@, vf]
    }
}

/// The arguments of the final mux: the joined visuals in a loop, the track, and
/// an output that lasts as long as the track.
pub open spec fn mux_args(
    base: Seq<char>,
    audio: Seq<char>,
    output: Seq<char>,
    duration: Seq<char>,
    opts: AddAudioOptions,
) -> Seq<Seq<char>> {
    seq![
        "-y"@,
        "-stream_loop"@,
        "-1"@,
        "-i"@,
        sanitized(base),
        "-i"@,
        sanitized(audio),
    ] + mux_streams(opts) + seq![
        "-c:v"@,
        "libx264"@,
        "-crf"@,
        "23"@,
        "-preset"@,
        "fast"@,
        "-pix_fmt"@,
        "yuv420p"@,
        "-r"@,
        decimal(used_fps(opts.fps) as nat),
        "-c:a"@,
        "aac"@,
        "-b:a"@,
        "192k"@,
        "-t"@,
        duration,
        "-shortest"@,
        "-movflags"@,
        "+faststart"@,
        sanitized(output),
    ]
}

/// Builds the arguments of the final mux; `duration` is the length of the track
/// in seconds, as text.
pub fn add_audio_args(
    base: &str,
    audio: &str,
    output: &str,
    duration: &str,
    opts: &AddAudioOptions,
) -> (args: Vec<String>)
    ensures
        texts(args@) == mux_args(base@, audio@, output@, duration@, *opts),
{
    let base_path = sanitize_path(base);
    let audio_path = sanitize_path(audio);
    let out_path = sanitize_path(output);
    let fps = decimal_text(clamp_fps(opts.fps) as u64);
    let vf = join2("fps=", fps.as_str());
    let graph = join3("[0:v]", vf.as_str(), "[v];[1:a]areverse[a]");
    let mut args: Vec<String> = Vec::new();
    push_texts(
        &mut args,
        vec!["-y", "-stream_loop", "-1", "-i", base_path.as_str(), "-i", audio_path.as_str()],
    );
    let ghost head = texts(args@);
    if opts.reverse_audio {
        push_texts(
            &mut args,
            vec!["-filter_complex", graph.as_str(), "-map", "[v]", "-map", "[a]"],
        );
    } else {
        push_texts(&mut args, vec!["-map", "0:v:0", "-map", "1:a:0", "-vf", vf.as_str()]);
    }
    assert(texts(args@) =~= head + mux_streams(*opts));
    push_texts(
        &mut args,
        vec![
            "-c:v",
            "libx264",
            "-crf",
            "23",
            "-preset",
            "fast",
            "-pix_fmt",
            "yuv420p",
            "-r",
            fps.as_str(),
            "-c:a",
            "aac",
            "-b:a",
            "192k",
            "-t",
            duration,
            "-shortest",
            "-movflags",
            "+faststart",
            out_path.as_str(),
        ],
    );
    assert(texts(args@) =~= mux_args(base@, audio@, output@, duration@, *opts));
    args
}

// ---------------------------------------------------------------------------
// The job
// ---------------------------------------------------------------------------

/// Where an Add Audio job stands.
pub enum AudioStage {
    /// The track is being looked for.
    Track,
    /// The output folder is being created.
    Parent,
    /// The length of the track is being probed.
    Probe,
    /// The visuals are being joined.
    Join { job: ConcatJob, duration: String },
    /// The final mux runs.
    Mux,
    /// The joined visuals are being removed after a mux that failed or not.
    Unbase { failure: Option<String> },
    /// The output is being looked for.
    Check,
    /// The job has ended.
    Over,
}

/// The content of a stage.
pub enum AudioStageView {
    Track,
    Parent,
    Probe,
    Join { job: ConcatJobView, duration: Seq<char> },
    Mux,
    Unbase { failure: Option<Seq<char>> },
    Check,
    Over,
}

impl View for AudioStage {
    type V = AudioStageView;

    open spec fn view(&self) -> AudioStageView {
        match *self {
            AudioStage::Track => AudioStageView::Track,
            AudioStage::Parent => AudioStageView::Parent,
            AudioStage::Probe => AudioStageView::Probe,
            AudioStage::Join { job, duration } => AudioStageView::Join {
                job: job@,
                duration: duration@,
            },
            AudioStage::Mux => AudioStageView::Mux,
            AudioStage::Unbase { failure } => AudioStageView::Unbase {
                failure: opt_text(failure),
            },
            AudioStage::Check => AudioStageView::Check,
            AudioStage::Over => AudioStageView::Over,
        }
    }
}

/// A job that adds an audio track.
pub struct AddAudioJob {
    visuals: Vec<String>,
    audio: String,
    output: String,
    base: String,
    list: String,
    opts: AddAudioOptions,
    stage: AudioStage,
}

/// The content of an Add Audio job: the visuals, the track, the output, where
/// the joined visuals and a list file go, the options and the stage.
#[verifier::ext_equal]
pub struct AddAudioView {
    pub visuals: Seq<Seq<char>>,
    pub audio: Seq<char>,
    pub output: Seq<char>,
    pub base: Seq<char>,
    pub list: Seq<char>,
    pub opts: AddAudioOptions,
    pub stage: AudioStageView,
}

impl View for AddAudioJob {
    type V = AddAudioView;

    closed spec fn view(&self) -> AddAudioView {
        AddAudioView {
            visuals: texts(self.visuals@),
            audio: self.audio@,
            output: self.output@,
            base: self.base@,
            list: self.list@,
            opts: self.opts,
            stage: self.stage@,
        }
    }
}

impl AddAudioView {
    /// The job at another stage.
    pub open spec fn at(self, stage: AudioStageView) -> AddAudioView {
        AddAudioView { stage, ..self }
    }

    /// The job as it ends.
    pub open spec fn ending(self, step: StepView) -> (AddAudioView, StepView) {
        (self.at(AudioStageView::Over), step)
    }

    /// The join of the visuals as it begins.
    pub open spec fn join(self) -> ConcatJobView {
        concat_start(self.visuals, self.base, self.list, base_options(self.opts))
    }

    /// The job and its next step after a reply.
    pub open spec fn after(self, event: EventView) -> (AddAudioView, StepView) {
        match self.stage {
            AudioStageView::Track => if event.is_yes() {
                (
                    self.at(AudioStageView::Parent),
                    StepView::Act(ActionView::CreateParent(self.output)),
                )
            } else {
                self.ending(StepView::Failed("audio not found: "@ + self.audio))
            },
            AudioStageView::Parent => match event {
                EventView::Failed(m) => self.ending(StepView::Failed(m)),
                EventView::Done { .. } => (
                    self.at(AudioStageView::Probe),
                    StepView::Act(ActionView::ProbeDuration(self.audio)),
                ),
            },
            AudioStageView::Probe => match event {
                EventView::Failed(m) => self.ending(StepView::Failed(m)),
                EventView::Done { text, .. } => (
                    self.at(AudioStageView::Join { job: self.join(), duration: text }),
                    StepView::Act(ActionView::CreateParent(self.base)),
                ),
            },
            AudioStageView::Join { job, duration } => {
                let (next, step) = job.after(event);
                match step {
                    StepView::Act(a) => (
                        self.at(AudioStageView::Join { job: next, duration }),
                        StepView::Act(a),
                    ),
                    StepView::Failed(m) => self.ending(StepView::Failed(m)),
                    StepView::Finished(_) => (
                        self.at(AudioStageView::Mux),
                        StepView::Act(
                            ActionView::RunFfmpeg(
                                mux_args(self.base, self.audio, self.output, duration, self.opts),
                            ),
                        ),
                    ),
                }
            },
            AudioStageView::Mux => (
                self.at(
                    AudioStageView::Unbase {
                        failure: match event {
                            EventView::Failed(m) => Some(m),
                            EventView::Done { .. } => None,
                        },
                    },
                ),
                StepView::Act(ActionView::RemoveFile(self.base)),
            ),
            AudioStageView::Unbase { failure } => match failure {
                Some(m) => self.ending(StepView::Failed(m)),
                None => (
                    self.at(AudioStageView::Check),
                    StepView::Act(ActionView::TestFile(self.output)),
                ),
            },
            AudioStageView::Check => if event.is_yes() {
                self.ending(StepView::Finished(self.output))
            } else {
                self.ending(StepView::Failed("add_audio produced no output"@))
            },
            AudioStageView::Over => self.ending(StepView::Failed("the job has ended"@)),
        }
    }
}

/// An Add Audio job that begins.
pub open spec fn add_audio_start(
    visuals: Seq<Seq<char>>,
    audio: Seq<char>,
    output: Seq<char>,
    base: Seq<char>,
    list: Seq<char>,
    opts: AddAudioOptions,
) -> AddAudioView {
    AddAudioView { visuals, audio, output, base, list, opts, stage: AudioStageView::Track }
}

/// Begins to add the track `audio` to the visuals; `base` is where the joined
/// visuals go meanwhile, and `list` where a list file may be written. There
/// must be a visual.
pub fn add_audio(
    visuals: &Vec<String>,
    audio: &str,
    output: &str,
    base: &str,
    list: &str,
    opts: &AddAudioOptions,
) -> (r: Result<(AddAudioJob, Action), String>)
    ensures
        match r {
            Ok((job, action)) => {
                &&& visuals@.len() > 0
                &&& job@ == add_audio_start(
                    texts(visuals@),
                    audio@,
                    output@,
                    base@,
                    list@,
                    *opts,
                )
                &&& action@ == ActionView::TestFile(audio@)
            },
            Err(m) => visuals@.len() == 0 && m@ == "no visual clips for add_audio"@,
        },
{
    if visuals.len() == 0 {
        return Err(owned("no visual clips for add_audio"));
    }
    let job = AddAudioJob {
        visuals: copy_texts(visuals),
        audio: owned(audio),
        output: owned(output),
        base: owned(base),
        list: owned(list),
        opts: *opts,
        stage: AudioStage::Track,
    };
    Ok((job, Action::TestFile(owned(audio))))
}

impl AddAudioJob {
    /// Ends with an error.
    fn fail(&mut self, message: &str) -> (step: Step)
        ensures
            (final(self)@, step@) == old(self)@.ending(StepView::Failed(message@)),
    {
        self.stage = AudioStage::Over;
        Step::Failed(owned(message))
    }

    /// Ends with the output.
    fn finish(&mut self) -> (step: Step)
        ensures
            (final(self)@, step@) == old(self)@.ending(StepView::Finished(old(self)@.output)),
    {
        self.stage = AudioStage::Over;
        Step::Finished(owned(self.output.as_str()))
    }

    /// Takes the reply to the last action and says what comes next.
    pub fn advance(&mut self, event: &Event) -> (step: Step)
        requires
            old(self)@.visuals.len() > 0,
        ensures
            (final(self)@, step@) == old(self)@.after(event@),
    {
        let mut stage = AudioStage::Over;
        std::mem::swap(&mut stage, &mut self.stage);
        match stage {
            AudioStage::Track => if event.is_yes() {
                self.stage = AudioStage::Parent;
                Step::Act(Action::CreateParent(owned(self.output.as_str())))
            } else {
                let message = join2("audio not found: ", self.audio.as_str());
                self.fail(message.as_str())
            },
            AudioStage::Parent => match event {
                Event::Failed(m) => self.fail(m.as_str()),
                Event::Done { .. } => {
                    self.stage = AudioStage::Probe;
                    Step::Act(Action::ProbeDuration(owned(self.audio.as_str())))
                },
            },
            AudioStage::Probe => match event {
                Event::Failed(m) => self.fail(m.as_str()),
                Event::Done { text, .. } => {
                    let opts = ConcatOptions {
                        reverse_order: self.opts.reverse_order,
                        reverse_video: self.opts.reverse_video,
                        reverse_audio: false,
                        prefer_stream_copy: false,
                    };
                    match concatenate(
                        &self.visuals,
                        self.base.as_str(),
                        self.list.as_str(),
                        &opts,
                    ) {
                        Ok((job, action)) => {
                            self.stage = AudioStage::Join { job, duration: owned(text.as_str()) };
                            Step::Act(action)
                        },
                        Err(m) => self.fail(m.as_str()),
                    }
                },
            },
            AudioStage::Join { mut job, duration } => match job.advance(event) {
                Step::Act(action) => {
                    self.stage = AudioStage::Join { job, duration };
                    Step::Act(action)
                },
                Step::Failed(m) => self.fail(m.as_str()),
                Step::Finished(_) => {
                    self.stage = AudioStage::Mux;
                    Step::Act(
                        Action::RunFfmpeg(
                            add_audio_args(
                                self.base.as_str(),
                                self.audio.as_str(),
                                self.output.as_str(),
                                duration.as_str(),
                                &self.opts,
                            ),
                        ),
                    )
                },
            },
            AudioStage::Mux => {
                let failure = match event {
                    Event::Failed(m) => Some(owned(m.as_str())),
                    Event::Done { .. } => None,
                };
                self.stage = AudioStage::Unbase { failure };
                Step::Act(Action::RemoveFile(owned(self.base.as_str())))
            },
            AudioStage::Unbase { failure } => match failure {
                Some(m) => self.fail(m.as_str()),
                None => {
                    self.stage = AudioStage::Check;
                    Step::Act(Action::TestFile(owned(self.output.as_str())))
                },
            },
            AudioStage::Check => if event.is_yes() {
                self.finish()
            } else {
                self.fail("add_audio produced no output")
            },
            AudioStage::Over => self.fail("the job has ended"),
        }
    }
}

// ---------------------------------------------------------------------------
// Laws
// ---------------------------------------------------------------------------

/// The visuals are looped without end, and the output is as long as the track:
/// it is cut at the length of the track and where the shorter stream ends.
pub proof fn output_lasts_as_long_as_the_track(
    base: Seq<char>,
    audio: Seq<char>,
    output: Seq<char>,
    duration: Seq<char>,
    opts: AddAudioOptions,
)
    ensures
        ({
            let args = mux_args(base, audio, output, duration, opts);
            &&& args.subrange(1, 7) == seq![
                "-stream_loop"@,
                "-1"@,
                "-i"@,
                sanitized(base),
                "-i"@,
                sanitized(audio),
            ]
            &&& args.subrange(27, 30) == seq!["-t"@, duration, "-shortest"@]
            &&& args.last() == sanitized(output)
        }),
{
    let args = mux_args(base, audio, output, duration, opts);
    assert(args.subrange(1, 7) =~= seq![
        "-stream_loop"@,
        "-1"@,
        "-i"@,
        sanitized(base),
        "-i"@,
        sanitized(audio),
    ]);
    assert(args.subrange(27, 30) =~= seq!["-t"@, duration, "-shortest"@]);
}

/// How far a job is from its end.
pub open spec fn audio_steps_left(stage: AudioStageView) -> nat {
    match stage {
        AudioStageView::Track => 14,
        AudioStageView::Parent => 13,
        AudioStageView::Probe => 12,
        AudioStageView::Join { job, .. } => 4 + steps_left(job.stage),
        AudioStageView::Mux => 3,
        AudioStageView::Unbase { .. } => 2,
        AudioStageView::Check => 1,
        AudioStageView::Over => 0,
    }
}

/// How a job ends that has asked for `actions`, the last of them just now, where
/// the outside replies as `world` says.
pub open spec fn audio_run(job: AddAudioView, actions: Seq<ActionView>, world: World) -> Ending
    decreases audio_steps_left(job.stage),
{
    let (next, step) = job.after(world(actions));
    match step {
        StepView::Act(a) => if audio_steps_left(next.stage) < audio_steps_left(job.stage) {
            audio_run(next, actions.push(a), world)
        } else {
            Ending { step, actions }
        },
        _ => Ending { step, actions },
    }
}

/// How a job ends whose visuals have been joined behind `actions`: the mux
/// runs, the joined visuals are removed whatever came of it, and the output is
/// there or that is an error.
pub open spec fn mux_ending(
    job: AddAudioView,
    duration: Seq<char>,
    actions: Seq<ActionView>,
    world: World,
) -> Ending {
    let run = actions.push(
        ActionView::RunFfmpeg(mux_args(job.base, job.audio, job.output, duration, job.opts)),
    );
    let removed = run.push(ActionView::RemoveFile(job.base));
    let tested = removed.push(ActionView::TestFile(job.output));
    match world(run) {
        EventView::Failed(m) => Ending { step: StepView::Failed(m), actions: removed },
        EventView::Done { .. } => if world(tested).is_yes() {
            Ending { step: StepView::Finished(job.output), actions: tested }
        } else {
            Ending { step: StepView::Failed("add_audio produced no output"@), actions: tested }
        },
    }
}

/// How a job ends that begins behind `before`: the track must be there and have
/// a length, the join of the visuals must end well, and the rest is the mux.
pub open spec fn audio_ending(job: AddAudioView, before: Seq<ActionView>, world: World) -> Ending {
    let found = before.push(ActionView::TestFile(job.audio));
    let made = found.push(ActionView::CreateParent(job.output));
    let probed = made.push(ActionView::ProbeDuration(job.audio));
    if !world(found).is_yes() {
        Ending { step: StepView::Failed("audio not found: "@ + job.audio), actions: found }
    } else {
        match world(made) {
            EventView::Failed(m) => Ending { step: StepView::Failed(m), actions: made },
            EventView::Done { .. } => match world(probed) {
                EventView::Failed(m) => Ending { step: StepView::Failed(m), actions: probed },
                EventView::Done { text, .. } => {
                    let join = concat_run(
                        job.join(),
                        probed.push(ActionView::CreateParent(job.base)),
                        world,
                    );
                    match join.step {
                        StepView::Finished(_) => mux_ending(job, text, join.actions, world),
                        step => Ending { step, actions: join.actions },
                    }
                },
            },
        }
    }
}

/// Adding a track joins the visuals first and muxes the result with the track;
/// the length of the output is the length that was probed for the track.
pub proof fn add_audio_joins_then_muxes(
    visuals: Seq<Seq<char>>,
    audio: Seq<char>,
    output: Seq<char>,
    base: Seq<char>,
    list: Seq<char>,
    opts: AddAudioOptions,
    before: Seq<ActionView>,
    world: World,
)
    ensures
        ({
            let job = add_audio_start(visuals, audio, output, base, list, opts);
            audio_run(job, before.push(ActionView::TestFile(audio)), world) == audio_ending(
                job,
                before,
                world,
            )
        }),
{
    reveal_with_fuel(audio_run, 4);
    let job = add_audio_start(visuals, audio, output, base, list, opts);
    let found = before.push(ActionView::TestFile(job.audio));
    let made = found.push(ActionView::CreateParent(job.output));
    let probed = made.push(ActionView::ProbeDuration(job.audio));
    if let EventView::Done { text, .. } = world(probed) {
        joining(
            job.at(AudioStageView::Join { job: job.join(), duration: text }),
            job.join(),
            text,
            probed.push(ActionView::CreateParent(job.base)),
            world,
        );
    }
}

/// A job that joins its visuals ends as the join does, or as the mux that
/// follows it.
proof fn joining(
    job: AddAudioView,
    join: ConcatJobView,
    duration: Seq<char>,
    actions: Seq<ActionView>,
    world: World,
)
    requires
        job.stage == (AudioStageView::Join { job: join, duration }),
    ensures
        ({
            let end = concat_run(join, actions, world);
            audio_run(job, actions, world) == match end.step {
                StepView::Finished(_) => mux_ending(job, duration, end.actions, world),
                step => Ending { step, actions: end.actions },
            }
        }),
    decreases steps_left(join.stage),
{
    let (next, step) = join.after(world(actions));
    match step {
        StepView::Act(a) => {
            joining(
                job.at(AudioStageView::Join { job: next, duration }),
                next,
                duration,
                actions.push(a),
                world,
            );
        },
        StepView::Finished(_) => {
            reveal_with_fuel(audio_run, 5);
        },
        StepView::Failed(_) => {},
    }
}

} // verus!
