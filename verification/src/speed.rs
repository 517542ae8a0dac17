//! Changing the speed of a video: fitting it to a length without its sound, or
//! multiplying its speed with the sound kept.
use crate::jobs::{Action, ActionView, Ending, Event, EventView, Step, StepView, World};
use crate::paths::{sanitize_path, sanitized};
use crate::tempo::{makes_up, Binary, TempoPlan};
use crate::text::{join2, join3, owned, push_texts, texts};
use vstd::prelude::*;
use vstd::string::*;

verus! {

/// A change of tempo: the factor as text, and the chain of filters that makes
/// it up. One audio filter takes factors from one half to two only, so a larger
/// change is made of doublings or halvings and a rest.
#[derive(Debug)]
pub struct Tempo {
    pub factor: String,
    pub doublings: usize,
    pub halvings: usize,
    pub rest: String,
}

impl Tempo {
    /// The change of tempo by a factor that a plan makes up; the factor and the
    /// rest of the plan are given as text.
    pub fn of_plan(plan: TempoPlan, factor: &str, rest: &str) -> (t: Tempo)
        ensures
            t.doublings == plan.doublings,
            t.halvings == plan.halvings,
            t.factor@ == factor@,
            t.rest@ == rest@,
    {
        Tempo {
            factor: owned(factor),
            doublings: plan.doublings,
            halvings: plan.halvings,
            rest: owned(rest),
        }
    }
}

/// How the speed is changed.
#[derive(Debug)]
pub enum SpeedMode {
    /// Force output duration to a wanted number of seconds (silent).
    FitSeconds,
    /// Multiply playback speed. Keeps audio when possible.
    Factor(Tempo),
}

/// `n` copies of a text in a row.
pub open spec fn repeated(s: Seq<char>, n: nat) -> Seq<char>
    decreases n,
{
    if n == 0 {
        Seq::empty()
    } else {
        repeated(s, (n - 1) as nat) + s
    }
}

/// The chain of audio filters of a change of tempo.
pub open spec fn tempo_chain(t: Tempo) -> Seq<char> {
    repeated("atempo=2.0,"@, t.doublings as nat) + repeated("atempo=0.5,"@, t.halvings as nat)
        + "atempo="@ + t.rest@
}

/// Appends `n` copies of a text.
fn append_repeated(s: &mut String, piece: &str, n: usize)
    ensures
        final(s)@ == old(s)@ + repeated(piece@, n as nat),
{
    let ghost before = s@;
    assert(before + repeated(piece@, 0) == before);
    for i in 0..n
        invariant
            s@ == before + repeated(piece@, i as nat),
    {
        s.append(piece);
        assert(s@ == before + repeated(piece@, (i + 1) as nat));
    }
}

/// Builds the chain of audio filters of a change of tempo.
pub fn atempo_chain(t: &Tempo) -> (r: String)
    ensures
        r@ == tempo_chain(*t),
{
    let mut r = String::new();
    append_repeated(&mut r, "atempo=2.0,", t.doublings);
    append_repeated(&mut r, "atempo=0.5,", t.halvings);
    r.append("atempo=");
    r.append(t.rest.as_str());
    assert(r@ =~= tempo_chain(*t));
    r
}

/// The filter that changes the speed of the video.
pub open spec fn video_filter(factor: Seq<char>) -> Seq<char> {
    "setpts=PTS/"@ + factor + ",fps=30"@
}

/// The filter arguments without sound.
pub open spec fn silent_args(factor: Seq<char>) -> Seq<Seq<char>> {
    seq!["-filter:v"@, video_filter(factor), "-an"@]
}

/// The filter arguments with the sound changed alike.
pub open spec fn audible_args(t: Tempo) -> Seq<Seq<char>> {
    seq![
        "-filter_complex"@,
        "[0:v]"@ + video_filter(t.factor@) + "[v];[0:a]"@ + tempo_chain(t) + "[a]"@,
        "-map"@,
        "[v]"@,
        "-map"@,
        "[a]"@,
        "-c:a"@,
        "aac"@,
        "-b:a"@,
        "128k"@,
    ]
}

/// The arguments of a change of speed with the given filters.
pub open spec fn run_args(
    input: Seq<char>,
    output: Seq<char>,
    filters: Seq<Seq<char>>,
) -> Seq<Seq<char>> {
    seq!["-y"@, "-i"@, sanitized(input)] + filters + seq![
        "-c:v"@,
        "libx264"@,
        "-crf"@,
        "23"@,
        "-preset"@,
        "fast"@,
        "-pix_fmt"@,
        "yuv420p"@,
        "-r"@,
        "30"@,
        "-movflags"@,
        "+faststart"@,
        sanitized(output),
    ]
}

/// The filter arguments of a mode; `fit` is the factor that fits the video to
/// the wanted length.
pub open spec fn mode_filters(mode: SpeedMode, fit: Seq<char>) -> Seq<Seq<char>> {
    match mode {
        SpeedMode::FitSeconds => silent_args(fit),
        SpeedMode::Factor(t) => audible_args(t),
    }
}

/// The arguments of a change of speed; `fit` is the factor that fits the video
/// to the wanted length.
pub open spec fn change_args(
    input: Seq<char>,
    output: Seq<char>,
    mode: SpeedMode,
    fit: Seq<char>,
) -> Seq<Seq<char>> {
    run_args(input, output, mode_filters(mode, fit))
}

/// Appends the arguments that every change of speed ends with.
fn push_tail(args: &mut Vec<String>, output: &str)
    ensures
        texts(final(args)@) == texts(old(args)@) + seq![
            "-c:v"@,
            "libx264"@,
            "-crf"@,
            "23"@,
            "-preset"@,
            "fast"@,
            "-pix_fmt"@,
            "yuv420p"@,
            "-r"@,
            "30"@,
            "-movflags"@,
            "+faststart"@,
            sanitized(output@),
        ],
{
    let out_path = sanitize_path(output);
    let ghost before = texts(args@);
    push_texts(
        args,
        vec![
            "-c:v",
            "libx264",
            "-crf",
            "23",
            "-preset",
            "fast",
            "-pix_fmt",
            "yuv420p",
            "-r",
            "30",
            "-movflags",
            "+faststart",
            out_path.as_str(),
        ],
    );
    assert(texts(args@) =~= before + seq![
        "-c:v"@,
        "libx264"@,
        "-crf"@,
        "23"@,
        "-preset"@,
        "fast"@,
        "-pix_fmt"@,
        "yuv420p"@,
        "-r"@,
        "30"@,
        "-movflags"@,
        "+faststart"@,
        sanitized(output@),
    ]);
}

/// Builds the arguments of a change of speed by a factor, without sound.
pub fn silent_speed_args(input: &str, output: &str, factor: &str) -> (args: Vec<String>)
    ensures
        texts(args@) == run_args(input@, output@, silent_args(factor@)),
{
    let in_path = sanitize_path(input);
    let filter = join3("setpts=PTS/", factor, ",fps=30");
    let mut args: Vec<String> = Vec::new();
    push_texts(
        &mut args,
        vec!["-y", "-i", in_path.as_str(), "-filter:v", filter.as_str(), "-an"],
    );
    push_tail(&mut args, output);
    assert(texts(args@) =~= run_args(input@, output@, silent_args(factor@)));
    args
}

/// Builds the arguments of a change of tempo, with the sound changed alike.
pub fn audible_speed_args(input: &str, output: &str, t: &Tempo) -> (args: Vec<String>)
    ensures
        texts(args@) == run_args(input@, output@, audible_args(*t)),
{
    let in_path = sanitize_path(input);
    let filter = join3("setpts=PTS/", t.factor.as_str(), ",fps=30");
    let left = join3("[0:v]", filter.as_str(), "[v];[0:a]");
    let graph = join3(left.as_str(), atempo_chain(t).as_str(), "[a]");
    let mut args: Vec<String> = Vec::new();
    push_texts(
        &mut args,
        vec![
            "-y",
            "-i",
            in_path.as_str(),
            "-filter_complex",
            graph.as_str(),
            "-map",
            "[v]",
            "-map",
            "[a]",
            "-c:a",
            "aac",
            "-b:a",
            "128k",
        ],
    );
    push_tail(&mut args, output);
    assert(texts(args@) =~= run_args(input@, output@, audible_args(*t)));
    args
}

/// Builds the arguments of a change of speed; `fit` is the factor that fits the
/// video to the wanted length.
pub fn speed_args(input: &str, output: &str, mode: &SpeedMode, fit: &str) -> (args: Vec<String>)
    ensures
        texts(args@) == change_args(input@, output@, *mode, fit@),
{
    match mode {
        SpeedMode::FitSeconds => silent_speed_args(input, output, fit),
        SpeedMode::Factor(t) => audible_speed_args(input, output, t),
    }
}

// ---------------------------------------------------------------------------
// The job
// ---------------------------------------------------------------------------

/// Where a Speed job stands.
#[derive(Clone, Copy, PartialEq, Eq)]
pub enum SpeedStage {
    /// The input is being looked for.
    Input,
    /// The output folder is being created.
    Parent,
    /// The length of the input is being probed.
    Probe,
    /// The change of speed runs.
    Run,
    /// The change of speed runs without sound, since it failed with sound.
    Silent,
    /// The job has ended.
    Over,
}

/// A job that changes the speed of a video.
pub struct SpeedJob {
    input: String,
    output: String,
    mode: SpeedMode,
    stage: SpeedStage,
}

/// The content of a Speed job.
pub struct SpeedJobView {
    pub input: Seq<char>,
    pub output: Seq<char>,
    pub mode: SpeedMode,
    pub stage: SpeedStage,
}

impl View for SpeedJob {
    type V = SpeedJobView;

    closed spec fn view(&self) -> SpeedJobView {
        SpeedJobView {
            input: self.input@,
            output: self.output@,
            mode: self.mode,
            stage: self.stage,
        }
    }
}

/// What the probe of a Speed job asks for: in either mode the length must be
/// known, and a fit needs the factor that follows from it.
pub open spec fn speed_probe(input: Seq<char>, mode: SpeedMode) -> ActionView {
    match mode {
        SpeedMode::FitSeconds => ActionView::ProbeFactor(input),
        SpeedMode::Factor(_) => ActionView::ProbeDuration(input),
    }
}

impl SpeedJobView {
    /// The job at another stage.
    pub open spec fn at(self, stage: SpeedStage) -> SpeedJobView {
        SpeedJobView { stage, ..self }
    }

    /// The job as it ends.
    pub open spec fn ending(self, step: StepView) -> (SpeedJobView, StepView) {
        (self.at(SpeedStage::Over), step)
    }

    /// The job and its next step after a reply.
    pub open spec fn after(self, event: EventView) -> (SpeedJobView, StepView) {
        match self.stage {
            SpeedStage::Input => if event.is_yes() {
                (
                    self.at(SpeedStage::Parent),
                    StepView::Act(ActionView::CreateParent(self.output)),
                )
            } else {
                self.ending(StepView::Failed("input not found: "@ + self.input))
            },
            SpeedStage::Parent => match event {
                EventView::Failed(m) => self.ending(StepView::Failed(m)),
                EventView::Done { .. } => (
                    self.at(SpeedStage::Probe),
                    StepView::Act(speed_probe(self.input, self.mode)),
                ),
            },
            SpeedStage::Probe => match event {
                EventView::Failed(m) => self.ending(StepView::Failed(m)),
                EventView::Done { text, .. } => (
                    self.at(SpeedStage::Run),
                    StepView::Act(
                        ActionView::RunFfmpeg(
                            change_args(self.input, self.output, self.mode, text),
                        ),
                    ),
                ),
            },
            SpeedStage::Run => match event {
                EventView::Failed(m) => match self.mode {
                    SpeedMode::FitSeconds => self.ending(StepView::Failed(m)),
                    SpeedMode::Factor(t) => (
                        self.at(SpeedStage::Silent),
                        StepView::Act(
                            ActionView::RunFfmpeg(
                                run_args(self.input, self.output, silent_args(t.factor@)),
                            ),
                        ),
                    ),
                },
                EventView::Done { .. } => self.ending(StepView::Finished(self.output)),
            },
            SpeedStage::Silent => match event {
                EventView::Failed(m) => self.ending(StepView::Failed(m)),
                EventView::Done { .. } => self.ending(StepView::Finished(self.output)),
            },
            SpeedStage::Over => self.ending(StepView::Failed("the job has ended"@)),
        }
    }
}

/// Begins to change the speed of the video `input`, to the file `output`.
pub fn speed_up(input: &str, output: &str, mode: SpeedMode) -> (r: (SpeedJob, Action))
    ensures
        r.0@ == (SpeedJobView { input: input@, output: output@, mode, stage: SpeedStage::Input }),
        r.1@ == ActionView::TestFile(input@),
{
    let job = SpeedJob {
        input: owned(input),
        output: owned(output),
        mode,
        stage: SpeedStage::Input,
    };
    (job, Action::TestFile(owned(input)))
}

impl SpeedJob {
    /// Ends with an error.
    fn fail(&mut self, message: &str) -> (step: Step)
        ensures
            (final(self)@, step@) == old(self)@.ending(StepView::Failed(message@)),
    {
        self.stage = SpeedStage::Over;
        Step::Failed(owned(message))
    }

    /// Ends with the output.
    fn finish(&mut self) -> (step: Step)
        ensures
            (final(self)@, step@) == old(self)@.ending(StepView::Finished(old(self)@.output)),
    {
        self.stage = SpeedStage::Over;
        Step::Finished(owned(self.output.as_str()))
    }

    /// Takes the reply to the last action and says what comes next. The reply to
    /// the probe of a fit gives the factor as its text.
    pub fn advance(&mut self, event: &Event) -> (step: Step)
        ensures
            (final(self)@, step@) == old(self)@.after(event@),
    {
        match self.stage {
            SpeedStage::Input => if event.is_yes() {
                self.stage = SpeedStage::Parent;
                Step::Act(Action::CreateParent(owned(self.output.as_str())))
            } else {
                let message = join2("input not found: ", self.input.as_str());
                self.fail(message.as_str())
            },
            SpeedStage::Parent => match event {
                Event::Failed(m) => self.fail(m.as_str()),
                Event::Done { .. } => {
                    self.stage = SpeedStage::Probe;
                    let path = owned(self.input.as_str());
                    match &self.mode {
                        SpeedMode::FitSeconds => Step::Act(Action::ProbeFactor(path)),
                        SpeedMode::Factor(_) => Step::Act(Action::ProbeDuration(path)),
                    }
                },
            },
            SpeedStage::Probe => match event {
                Event::Failed(m) => self.fail(m.as_str()),
                Event::Done { text, .. } => {
                    self.stage = SpeedStage::Run;
                    Step::Act(
                        Action::RunFfmpeg(
                            speed_args(
                                self.input.as_str(),
                                self.output.as_str(),
                                &self.mode,
                                text.as_str(),
                            ),
                        ),
                    )
                },
            },
            SpeedStage::Run => match event {
                Event::Failed(m) => match &self.mode {
                    SpeedMode::FitSeconds => self.fail(m.as_str()),
                    SpeedMode::Factor(t) => {
                        self.stage = SpeedStage::Silent;
                        Step::Act(
                            Action::RunFfmpeg(
                                silent_speed_args(
                                    self.input.as_str(),
                                    self.output.as_str(),
                                    t.factor.as_str(),
                                ),
                            ),
                        )
                    },
                },
                Event::Done { .. } => self.finish(),
            },
            SpeedStage::Silent => match event {
                Event::Failed(m) => self.fail(m.as_str()),
                Event::Done { .. } => self.finish(),
            },
            SpeedStage::Over => self.fail("the job has ended"),
        }
    }
}

// ---------------------------------------------------------------------------
// Laws
// ---------------------------------------------------------------------------

/// How far a job is from its end.
pub open spec fn speed_steps_left(stage: SpeedStage) -> nat {
    match stage {
        SpeedStage::Input => 5,
        SpeedStage::Parent => 4,
        SpeedStage::Probe => 3,
        SpeedStage::Run => 2,
        SpeedStage::Silent => 1,
        SpeedStage::Over => 0,
    }
}

/// How a job ends that has asked for `actions`, the last of them just now, where
/// the outside replies as `world` says.
pub open spec fn speed_run(job: SpeedJobView, actions: Seq<ActionView>, world: World) -> Ending
    decreases speed_steps_left(job.stage),
{
    let (next, step) = job.after(world(actions));
    match step {
        StepView::Act(a) => if speed_steps_left(next.stage) < speed_steps_left(job.stage) {
            speed_run(next, actions.push(a), world)
        } else {
            Ending { step, actions }
        },
        _ => Ending { step, actions },
    }
}

/// How a change of speed ends whose run is about to begin behind `probed`, with
/// `fit` as the reply of the probe: a fit runs once; a factor is run with the
/// sound first, and where that fails without it.
pub open spec fn run_ending(
    job: SpeedJobView,
    fit: Seq<char>,
    probed: Seq<ActionView>,
    world: World,
) -> Ending {
    let run = probed.push(
        ActionView::RunFfmpeg(change_args(job.input, job.output, job.mode, fit)),
    );
    match (world(run), job.mode) {
        (EventView::Done { .. }, _) => Ending {
            step: StepView::Finished(job.output),
            actions: run,
        },
        (EventView::Failed(m), SpeedMode::FitSeconds) => Ending {
            step: StepView::Failed(m),
            actions: run,
        },
        (EventView::Failed(_), SpeedMode::Factor(t)) => {
            let again = run.push(
                ActionView::RunFfmpeg(run_args(job.input, job.output, silent_args(t.factor@))),
            );
            match world(again) {
                EventView::Done { .. } => Ending {
                    step: StepView::Finished(job.output),
                    actions: again,
                },
                EventView::Failed(m) => Ending { step: StepView::Failed(m), actions: again },
            }
        },
    }
}

/// A Speed job finds its input, creates the output folder, probes the input and
/// runs ffmpeg with the factor that the probe gave. Where a factor cannot be
/// applied with the sound, as for a video that has none, it is applied without.
pub proof fn speed_keeps_audio_when_possible(
    input: Seq<char>,
    output: Seq<char>,
    mode: SpeedMode,
    before: Seq<ActionView>,
    world: World,
)
    ensures
        ({
            let job = SpeedJobView { input, output, mode, stage: SpeedStage::Input };
            let found = before.push(ActionView::TestFile(input));
            let made = found.push(ActionView::CreateParent(output));
            let probed = made.push(speed_probe(input, mode));
            speed_run(job, found, world) == if !world(found).is_yes() {
                Ending {
                    step: StepView::Failed("input not found: "@ + input),
                    actions: found,
                }
            } else {
                match (world(made), world(probed)) {
                    (EventView::Failed(m), _) => Ending {
                        step: StepView::Failed(m),
                        actions: made,
                    },
                    (_, EventView::Failed(m)) => Ending {
                        step: StepView::Failed(m),
                        actions: probed,
                    },
                    (_, EventView::Done { text, .. }) => run_ending(job, text, probed, world),
                }
            }
        }),
{
    reveal_with_fuel(speed_run, 6);
}

/// A fit drops the sound, and so does the second run of a factor; the first run
/// of a factor keeps it: ffmpeg is told to write no audio, or to map an audio
/// stream.
pub proof fn only_a_factor_is_audible(
    input: Seq<char>,
    output: Seq<char>,
    mode: SpeedMode,
    fit: Seq<char>,
)
    ensures
        mode is FitSeconds ==> change_args(input, output, mode, fit)[5] == "-an"@,
        mode is Factor ==> change_args(input, output, mode, fit).subrange(7, 9) == seq![
            "-map"@,
            "[a]"@,
        ],
        run_args(input, output, silent_args(fit))[5] == "-an"@,
{
    assert(mode is Factor ==> change_args(input, output, mode, fit).subrange(7, 9) =~= seq![
        "-map"@,
        "[a]"@,
    ]);
}

/// The picture and the sound of a change of tempo change by one factor, where
/// the chain of its filters makes up the factor.
pub proof fn picture_and_sound_change_alike(t: Tempo, plan: TempoPlan, factor: Binary)
    requires
        makes_up(plan, factor),
        t.doublings == plan.doublings,
        t.halvings == plan.halvings,
    ensures
        factor == plan.rest.scaled(t.doublings - t.halvings),
        tempo_chain(t) == repeated("atempo=2.0,"@, plan.doublings as nat) + repeated(
            "atempo=0.5,"@,
            plan.halvings as nat,
        ) + "atempo="@ + t.rest@,
{
}

} // verus!
