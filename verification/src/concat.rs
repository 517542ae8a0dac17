//! Joining videos: the list file and arguments of the stream-copy attempt, the
//! filter graph of the robust path, and the job that tries one and then the
//! other.
use crate::jobs::{Action, ActionView, Ending, Event, EventView, Step, StepView, World};
use crate::paths::{sanitize_path, sanitized};
use crate::text::{
    copy_texts, decimal, decimal_text, join2, join3, owned, push_text, push_texts, texts,
    to_chars,
};
use vstd::prelude::*;
use vstd::string::*;

verus! {

/// How clips are joined.
#[derive(Debug, Clone, Copy, PartialEq, Eq)]
pub struct ConcatOptions {
    pub reverse_order: bool,
    /// Reverse each clip's video (re-encode).
    pub reverse_video: bool,
    /// Reverse each clip's audio (re-encode).
    pub reverse_audio: bool,
    /// Prefer stream-copy when no reverse filters (falls back to re-encode).
    pub prefer_stream_copy: bool,
}

impl Default for ConcatOptions {
    fn default() -> (r: Self)
        ensures
            r == (ConcatOptions {
                reverse_order: false,
                reverse_video: false,
                reverse_audio: false,
                prefer_stream_copy: true,
            }),
    {
        ConcatOptions {
            reverse_order: false,
            reverse_video: false,
            reverse_audio: false,
            prefer_stream_copy: true,
        }
    }
}

// ---------------------------------------------------------------------------
// The list file
// ---------------------------------------------------------------------------

/// The text as it stands between single quotes: each quote is written as
/// `'\''`.
pub open spec fn quoted(s: Seq<char>) -> Seq<char>
    decreases s.len(),
{
    if s.len() == 0 {
        Seq::empty()
    } else if s[0] == '\'' {
        seq!['\'', '\\', '\'', '\''] + quoted(s.drop_first())
    } else {
        seq![s[0]] + quoted(s.drop_first())
    }
}

/// Writes a text as it stands between single quotes.
pub fn quote(s: &str) -> (r: String)
    ensures
        r@ == quoted(s@),
{
    let v = to_chars(s);
    let mut r = String::new();
    assert(s@.skip(0) == s@);
    for i in 0..v.len()
        invariant
            v@ == s@,
            r@ + quoted(s@.skip(i as int)) == quoted(s@),
    {
        let ghost before = r@;
        let c = v[i];
        if c == '\'' {
            r.push('\'');
            r.push('\\');
            r.push('\'');
            r.push('\'');
            assert(r@ =~= before + seq!['\'', '\\', '\'', '\'']);
        } else {
            r.push(c);
            assert(r@ =~= before + seq![c]);
        }
        assert(s@.skip(i as int).drop_first() == s@.skip(i + 1));
        assert(r@ + quoted(s@.skip(i + 1)) =~= before + quoted(s@.skip(i as int)));
    }
    assert(r@ + quoted(s@.skip(v@.len() as int)) =~= r@);
    r
}

/// How the list file is read: between single quotes every character stands for
/// itself, outside of them a backslash takes the next one as it is.
pub open spec fn unquoted(s: Seq<char>, inside: bool) -> Seq<char>
    decreases s.len(),
{
    if s.len() == 0 {
        Seq::empty()
    } else if s[0] == '\'' {
        unquoted(s.drop_first(), !inside)
    } else if !inside && s[0] == '\\' && s.len() > 1 {
        seq![s[1]] + unquoted(s.skip(2), false)
    } else {
        seq![s[0]] + unquoted(s.drop_first(), inside)
    }
}

/// A quoted path is read back as the path, whatever characters it holds.
pub proof fn quoting_reads_back(s: Seq<char>)
    ensures
        unquoted(seq!['\''] + quoted(s) + seq!['\''], false) == s,
{
    quoted_inside(s);
    let all = seq!['\''] + quoted(s) + seq!['\''];
    assert(all.drop_first() =~= quoted(s) + seq!['\'']);
}

proof fn quoted_inside(s: Seq<char>)
    ensures
        unquoted(quoted(s) + seq!['\''], true) == s,
    decreases s.len(),
{
    let all = quoted(s) + seq!['\''];
    if s.len() == 0 {
        assert(all.drop_first() =~= Seq::<char>::empty());
        assert(unquoted(all.drop_first(), false) =~= s);
    } else {
        let rest = s.drop_first();
        let tail = quoted(rest) + seq!['\''];
        quoted_inside(rest);
        assert(s =~= seq![s[0]] + rest);
        if s[0] == '\'' {
            assert(all =~= seq!['\'', '\\', '\'', '\''] + tail);
            let a1 = all.drop_first();
            assert(a1 =~= seq!['\\', '\'', '\''] + tail);
            let a2 = a1.skip(2);
            assert(a2 =~= seq!['\''] + tail);
            assert(a2.drop_first() =~= tail);
            assert(unquoted(a2, false) == unquoted(tail, true));
            assert(unquoted(a1, false) =~= seq!['\''] + rest);
        } else {
            assert(all =~= seq![s[0]] + tail);
            assert(all.drop_first() =~= tail);
        }
    }
}

/// The line of the list file for one path.
pub open spec fn list_line(path: Seq<char>) -> Seq<char> {
    "file '"@ + quoted(sanitized(path)) + "'\n"@
}

/// The list file: a line for each path, in order.
pub open spec fn list_body(files: Seq<Seq<char>>) -> Seq<char>
    decreases files.len(),
{
    if files.len() == 0 {
        Seq::empty()
    } else {
        list_body(files.drop_last()) + list_line(files.last())
    }
}

/// Writes the list file for the concat demuxer.
pub fn concat_list(files: &Vec<String>) -> (body: String)
    ensures
        body@ == list_body(texts(files@)),
{
    let mut body = String::new();
    let ghost all = texts(files@);
    for i in 0..files.len()
        invariant
            all == texts(files@),
            body@ == list_body(all.take(i as int)),
    {
        let clean = sanitize_path(files[i].as_str());
        let line = join3("file '", quote(clean.as_str()).as_str(), "'\n");
        body.append(line.as_str());
        assert(all.take(i + 1).drop_last() == all.take(i as int));
        assert(all[i as int] == files@[i as int]@);
    }
    assert(all.take(files@.len() as int) == all);
    body
}

/// The arguments of the stream-copy attempt.
pub open spec fn copy_args(list: Seq<char>, output: Seq<char>) -> Seq<Seq<char>> {
    seq![
        "-y"@,
        "-f"@,
        "concat"@,
        "-safe"@,
        "0"@,
        "-i"@,
        sanitized(list),
        "-map"@,
        "0:v:0"@,
        "-map"@,
        "0:a:0?"@,
        "-c"@,
        "copy"@,
        "-movflags"@,
        "+faststart"@,
        sanitized(output),
    ]
}

/// Builds the arguments of the stream-copy attempt: the primary video stream
/// and, where there is one, the primary audio stream, copied as they are.
pub fn concat_copy_args(list: &str, output: &str) -> (args: Vec<String>)
    ensures
        texts(args@) == copy_args(list@, output@),
{
    let list_path = sanitize_path(list);
    let out_path = sanitize_path(output);
    let mut args: Vec<String> = Vec::new();
    push_texts(
        &mut args,
        vec![
            "-y",
            "-f",
            "concat",
            "-safe",
            "0",
            "-i",
            list_path.as_str(),
            "-map",
            "0:v:0",
            "-map",
            "0:a:0?",
            "-c",
            "copy",
            "-movflags",
            "+faststart",
            out_path.as_str(),
        ],
    );
    assert(texts(args@) =~= copy_args(list@, output@));
    args
}

// ---------------------------------------------------------------------------
// The filter graph
// ---------------------------------------------------------------------------

/// The label of the video of input `i`, as it enters the join.
pub open spec fn video_label(i: nat, reverse: bool) -> Seq<char> {
    if reverse {
        "[v"@ + decimal(i) + "]"@
    } else {
        "["@ + decimal(i) + ":v:0]"@
    }
}

/// The label of the audio of input `i`, as it enters the join.
pub open spec fn audio_label(i: nat, reverse: bool) -> Seq<char> {
    if reverse {
        "[a"@ + decimal(i) + "]"@
    } else {
        "["@ + decimal(i) + ":a:0]"@
    }
}

/// The filters that reverse input `i`, as the options ask.
pub open spec fn reversal(i: nat, opts: ConcatOptions) -> Seq<char> {
    (if opts.reverse_video {
        video_label(i, false) + "reverse"@ + video_label(i, true) + ";"@
    } else {
        Seq::empty()
    }) + (if opts.reverse_audio {
        audio_label(i, false) + "areverse"@ + audio_label(i, true) + ";"@
    } else {
        Seq::empty()
    })
}

/// The filters that reverse the first `n` inputs.
pub open spec fn reversals(n: nat, opts: ConcatOptions) -> Seq<char>
    decreases n,
{
    if n == 0 {
        Seq::empty()
    } else {
        reversals((n - 1) as nat, opts) + reversal((n - 1) as nat, opts)
    }
}

/// The labels of the first `n` inputs, video before audio, in order.
pub open spec fn labels(n: nat, opts: ConcatOptions) -> Seq<char>
    decreases n,
{
    if n == 0 {
        Seq::empty()
    } else {
        let i = (n - 1) as nat;
        labels(i, opts) + video_label(i, opts.reverse_video) + audio_label(i, opts.reverse_audio)
    }
}

/// The filter graph that joins `n` inputs: the reversals, then the join of all
/// labels into one video and one audio stream.
pub open spec fn filter_graph(n: nat, opts: ConcatOptions) -> Seq<char> {
    reversals(n, opts) + labels(n, opts) + "concat=n="@ + decimal(n) + ":v=1:a=1[v][a]"@
}

/// Writes a stream label: the number between two marks.
fn label(open: &str, i: usize, close: &str) -> (r: String)
    ensures
        r@ == open@ + decimal(i as nat) + close@,
{
    join3(open, decimal_text(i as u64).as_str(), close)
}

/// Builds the filter graph that joins `n` inputs.
pub fn concat_graph(n: usize, opts: &ConcatOptions) -> (r: String)
    ensures
        r@ == filter_graph(n as nat, *opts),
{
    let mut parts = String::new();
    let mut all = String::new();
    for i in 0..n
        invariant
            parts@ == reversals(i as nat, *opts),
            all@ == labels(i as nat, *opts),
    {
        let ghost parts_before = parts@;
        let mut v = label("[", i, ":v:0]");
        let mut a = label("[", i, ":a:0]");
        if opts.reverse_video {
            let reversed = label("[v", i, "]");
            let head = join3(v.as_str(), "reverse", reversed.as_str());
            parts.append(join2(head.as_str(), ";").as_str());
            v = reversed;
        }
        if opts.reverse_audio {
            let reversed = label("[a", i, "]");
            let head = join3(a.as_str(), "areverse", reversed.as_str());
            parts.append(join2(head.as_str(), ";").as_str());
            a = reversed;
        }
        assert(parts@ =~= parts_before + reversal(i as nat, *opts));
        all.append(v.as_str());
        all.append(a.as_str());
    }
    let tail = label("concat=n=", n, ":v=1:a=1[v][a]");
    parts.append(all.as_str());
    parts.append(tail.as_str());
    assert(parts@ =~= filter_graph(n as nat, *opts));
    parts
}

/// The input arguments: each path behind its flag.
pub open spec fn input_args(files: Seq<Seq<char>>) -> Seq<Seq<char>>
    decreases files.len(),
{
    if files.len() == 0 {
        Seq::empty()
    } else {
        input_args(files.drop_last()).push("-i"@).push(sanitized(files.last()))
    }
}

/// The arguments of the robust path.
pub open spec fn filter_args(
    files: Seq<Seq<char>>,
    output: Seq<char>,
    opts: ConcatOptions,
) -> Seq<Seq<char>> {
    seq!["-y"@] + input_args(files) + seq![
        "-filter_complex"@,
        filter_graph(files.len(), opts),
        "-map"@,
        "[v]"@,
        "-map"@,
        "[a]"@,
        "-c:v"@,
        "libx264"@,
        "-preset"@,
        "fast"@,
        "-crf"@,
        "23"@,
        "-pix_fmt"@,
        "yuv420p"@,
        "-c:a"@,
        "aac"@,
        "-b:a"@,
        "192k"@,
        "-movflags"@,
        "+faststart"@,
        sanitized(output),
    ]
}

/// Builds the arguments of the robust path: a filter graph over the primary
/// video and audio stream of every input.
pub fn concat_filter_complex(files: &Vec<String>, output: &str, opts: &ConcatOptions) -> (args: Vec<
    String,
>)
    ensures
        texts(args@) == filter_args(texts(files@), output@, *opts),
{
    let ghost all = texts(files@);
    let mut args: Vec<String> = Vec::new();
    push_text(&mut args, "-y");
    assert(texts(args@) =~= seq!["-y"@] + input_args(all.take(0)));
    for i in 0..files.len()
        invariant
            all == texts(files@),
            texts(args@) == seq!["-y"@] + input_args(all.take(i as int)),
    {
        push_text(&mut args, "-i");
        push_text(&mut args, sanitize_path(files[i].as_str()).as_str());
        assert(all.take(i + 1).drop_last() == all.take(i as int));
        assert(all[i as int] == files@[i as int]@);
        assert(texts(args@) =~= seq!["-y"@] + input_args(all.take(i + 1)));
    }
    assert(all.take(files@.len() as int) == all);
    let graph = concat_graph(files.len(), opts);
    let out_path = sanitize_path(output);
    push_texts(
        &mut args,
        vec![
            "-filter_complex",
            graph.as_str(),
            "-map",
            "[v]",
            "-map",
            "[a]",
            "-c:v",
            "libx264",
            "-preset",
            "fast",
            "-crf",
            "23",
            "-pix_fmt",
            "yuv420p",
            "-c:a",
            "aac",
            "-b:a",
            "192k",
            "-movflags",
            "+faststart",
            out_path.as_str(),
        ],
    );
    assert(texts(args@) =~= filter_args(all, output@, *opts));
    args
}

// ---------------------------------------------------------------------------
// The job
// ---------------------------------------------------------------------------

/// Where a Concat job stands.
#[derive(Clone, Copy, PartialEq, Eq)]
pub enum ConcatStage {
    /// The output folder is being created.
    Parent,
    /// The list file is being written.
    List,
    /// The stream-copy attempt runs.
    Copy,
    /// The list file is being removed after an attempt that succeeded or not.
    Unlist { copied: bool },
    /// The output of the attempt is being looked for.
    CheckCopy,
    /// The robust path runs.
    Filter,
    /// The output of the robust path is being looked for.
    CheckFilter,
    /// The job has ended.
    Over,
}

/// A job that joins videos.
pub struct ConcatJob {
    files: Vec<String>,
    output: String,
    list: String,
    opts: ConcatOptions,
    stage: ConcatStage,
}

/// The content of a Concat job: the inputs in the order of the join, the output
/// path, the path of the list file, the options, and the stage.
#[verifier::ext_equal]
pub struct ConcatJobView {
    pub files: Seq<Seq<char>>,
    pub output: Seq<char>,
    pub list: Seq<char>,
    pub opts: ConcatOptions,
    pub stage: ConcatStage,
}

impl View for ConcatJob {
    type V = ConcatJobView;

    closed spec fn view(&self) -> ConcatJobView {
        ConcatJobView {
            files: texts(self.files@),
            output: self.output@,
            list: self.list@,
            opts: self.opts,
            stage: self.stage,
        }
    }
}

/// Whether the streams may be copied: nothing is reversed and copying is
/// preferred.
pub open spec fn copies_first(opts: ConcatOptions) -> bool {
    !opts.reverse_video && !opts.reverse_audio && opts.prefer_stream_copy
}

impl ConcatJobView {
    /// The job at another stage.
    pub open spec fn at(self, stage: ConcatStage) -> ConcatJobView {
        ConcatJobView { stage, ..self }
    }

    /// The job as it turns to the robust path.
    pub open spec fn filtering(self) -> (ConcatJobView, StepView) {
        (
            self.at(ConcatStage::Filter),
            StepView::Act(
                ActionView::RunFfmpeg(filter_args(self.files, self.output, self.opts)),
            ),
        )
    }

    /// The job as it looks for its output.
    pub open spec fn checking(self, stage: ConcatStage) -> (ConcatJobView, StepView) {
        (self.at(stage), StepView::Act(ActionView::TestFile(self.output)))
    }

    /// The job as it ends.
    pub open spec fn ending(self, step: StepView) -> (ConcatJobView, StepView) {
        (self.at(ConcatStage::Over), step)
    }

    /// The job and its next step after a reply.
    pub open spec fn after(self, event: EventView) -> (ConcatJobView, StepView) {
        match self.stage {
            ConcatStage::Parent => match event {
                EventView::Failed(m) => self.ending(StepView::Failed(m)),
                EventView::Done { .. } => if copies_first(self.opts) {
                    (
                        self.at(ConcatStage::List),
                        StepView::Act(
                            ActionView::WriteFile { path: self.list, body: list_body(self.files) },
                        ),
                    )
                } else {
                    self.filtering()
                },
            },
            ConcatStage::List => match event {
                EventView::Failed(_) => self.filtering(),
                EventView::Done { .. } => (
                    self.at(ConcatStage::Copy),
                    StepView::Act(ActionView::RunFfmpeg(copy_args(self.list, self.output))),
                ),
            },
            ConcatStage::Copy => (
                self.at(ConcatStage::Unlist { copied: event is Done }),
                StepView::Act(ActionView::RemoveFile(self.list)),
            ),
            ConcatStage::Unlist { copied } => if copied {
                self.checking(ConcatStage::CheckCopy)
            } else {
                self.filtering()
            },
            ConcatStage::CheckCopy => if event.is_yes() {
                self.ending(StepView::Finished(self.output))
            } else {
                self.filtering()
            },
            ConcatStage::Filter => match event {
                EventView::Failed(m) => self.ending(StepView::Failed(m)),
                EventView::Done { .. } => self.checking(ConcatStage::CheckFilter),
            },
            ConcatStage::CheckFilter => if event.is_yes() {
                self.ending(StepView::Finished(self.output))
            } else {
                self.ending(StepView::Failed("concat produced no output"@))
            },
            ConcatStage::Over => self.ending(StepView::Failed("the job has ended"@)),
        }
    }
}

/// The inputs in the order of the join.
pub open spec fn join_order(inputs: Seq<Seq<char>>, opts: ConcatOptions) -> Seq<Seq<char>> {
    if opts.reverse_order {
        inputs.reverse()
    } else {
        inputs
    }
}

/// A Concat job that begins.
pub open spec fn concat_start(
    inputs: Seq<Seq<char>>,
    output: Seq<char>,
    list: Seq<char>,
    opts: ConcatOptions,
) -> ConcatJobView {
    ConcatJobView {
        files: join_order(inputs, opts),
        output,
        list,
        opts,
        stage: ConcatStage::Parent,
    }
}

/// Begins to join the videos `inputs` to `output`; `list` is where the list
/// file may be written. There must be an input.
pub fn concatenate(inputs: &Vec<String>, output: &str, list: &str, opts: &ConcatOptions) -> (r:
    Result<(ConcatJob, Action), String>)
    ensures
        match r {
            Ok((job, action)) => {
                &&& inputs@.len() > 0
                &&& job@ == concat_start(texts(inputs@), output@, list@, *opts)
                &&& action@ == ActionView::CreateParent(output@)
            },
            Err(m) => inputs@.len() == 0 && m@ == "no inputs for concat"@,
        },
{
    if inputs.len() == 0 {
        return Err(owned("no inputs for concat"));
    }
    let files = if opts.reverse_order {
        let mut turned: Vec<String> = Vec::new();
        let n: usize = inputs.len();
        for i in 0..n
            invariant
                n == inputs@.len(),
                texts(turned@) == texts(inputs@).reverse().take(i as int),
        {
            push_text(&mut turned, inputs[n - 1 - i].as_str());
        }
        assert(texts(turned@) =~= texts(inputs@).reverse());
        turned
    } else {
        copy_texts(inputs)
    };
    let job = ConcatJob {
        files,
        output: owned(output),
        list: owned(list),
        opts: *opts,
        stage: ConcatStage::Parent,
    };
    Ok((job, Action::CreateParent(owned(output))))
}

impl ConcatJob {
    /// Turns to the robust path.
    fn filter(&mut self) -> (step: Step)
        ensures
            (final(self)@, step@) == old(self)@.filtering(),
    {
        self.stage = ConcatStage::Filter;
        Step::Act(
            Action::RunFfmpeg(
                concat_filter_complex(&self.files, self.output.as_str(), &self.opts),
            ),
        )
    }

    /// Looks for the output.
    fn check(&mut self, stage: ConcatStage) -> (step: Step)
        ensures
            (final(self)@, step@) == old(self)@.checking(stage),
    {
        self.stage = stage;
        Step::Act(Action::TestFile(owned(self.output.as_str())))
    }

    /// Ends with the output.
    fn finish(&mut self) -> (step: Step)
        ensures
            (final(self)@, step@) == old(self)@.ending(StepView::Finished(old(self)@.output)),
    {
        self.stage = ConcatStage::Over;
        Step::Finished(owned(self.output.as_str()))
    }

    /// Ends with an error.
    fn fail(&mut self, message: &str) -> (step: Step)
        ensures
            (final(self)@, step@) == old(self)@.ending(StepView::Failed(message@)),
    {
        self.stage = ConcatStage::Over;
        Step::Failed(owned(message))
    }

    /// Takes the reply to the last action and says what comes next.
    pub fn advance(&mut self, event: &Event) -> (step: Step)
        ensures
            (final(self)@, step@) == old(self)@.after(event@),
    {
        match self.stage {
            ConcatStage::Parent => match event {
                Event::Failed(m) => self.fail(m.as_str()),
                Event::Done { .. } => {
                    let copy = !self.opts.reverse_video && !self.opts.reverse_audio
                        && self.opts.prefer_stream_copy;
                    if copy {
                        self.stage = ConcatStage::List;
                        Step::Act(
                            Action::WriteFile {
                                path: owned(self.list.as_str()),
                                body: concat_list(&self.files),
                            },
                        )
                    } else {
                        self.filter()
                    }
                },
            },
            ConcatStage::List => match event {
                Event::Failed(_) => self.filter(),
                Event::Done { .. } => {
                    self.stage = ConcatStage::Copy;
                    Step::Act(
                        Action::RunFfmpeg(
                            concat_copy_args(self.list.as_str(), self.output.as_str()),
                        ),
                    )
                },
            },
            ConcatStage::Copy => {
                let copied = match event {
                    Event::Failed(_) => false,
                    Event::Done { .. } => true,
                };
                self.stage = ConcatStage::Unlist { copied };
                Step::Act(Action::RemoveFile(owned(self.list.as_str())))
            },
            ConcatStage::Unlist { copied } => if copied {
                self.check(ConcatStage::CheckCopy)
            } else {
                self.filter()
            },
            ConcatStage::CheckCopy => if event.is_yes() {
                self.finish()
            } else {
                self.filter()
            },
            ConcatStage::Filter => match event {
                Event::Failed(m) => self.fail(m.as_str()),
                Event::Done { .. } => self.check(ConcatStage::CheckFilter),
            },
            ConcatStage::CheckFilter => if event.is_yes() {
                self.finish()
            } else {
                self.fail("concat produced no output")
            },
            ConcatStage::Over => self.fail("the job has ended"),
        }
    }
}

// ---------------------------------------------------------------------------
// Laws
// ---------------------------------------------------------------------------

/// How far a job is from its end.
pub open spec fn steps_left(stage: ConcatStage) -> nat {
    match stage {
        ConcatStage::Parent => 7,
        ConcatStage::List => 6,
        ConcatStage::Copy => 5,
        ConcatStage::Unlist { .. } => 4,
        ConcatStage::CheckCopy => 3,
        ConcatStage::Filter => 2,
        ConcatStage::CheckFilter => 1,
        ConcatStage::Over => 0,
    }
}

/// How a job ends that has asked for `actions`, the last of them just now, where
/// the outside replies as `world` says.
pub open spec fn concat_run(job: ConcatJobView, actions: Seq<ActionView>, world: World) -> Ending
    decreases steps_left(job.stage),
{
    let (next, step) = job.after(world(actions));
    match step {
        StepView::Act(a) => if steps_left(next.stage) < steps_left(job.stage) {
            concat_run(next, actions.push(a), world)
        } else {
            Ending { step, actions }
        },
        _ => Ending { step, actions },
    }
}

/// How the robust path ends that begins behind `actions`: with the error of
/// ffmpeg, or with the output where there is one.
pub open spec fn robust_ending(job: ConcatJobView, actions: Seq<ActionView>, world: World) -> Ending {
    let run = actions.push(
        ActionView::RunFfmpeg(filter_args(job.files, job.output, job.opts)),
    );
    let tested = run.push(ActionView::TestFile(job.output));
    match world(run) {
        EventView::Failed(m) => Ending { step: StepView::Failed(m), actions: run },
        EventView::Done { .. } => if world(tested).is_yes() {
            Ending { step: StepView::Finished(job.output), actions: tested }
        } else {
            Ending { step: StepView::Failed("concat produced no output"@), actions: tested }
        },
    }
}

/// How a join ends whose output folder has been created by the last of
/// `actions`: it copies streams where it may, and ends with the output where
/// that leaves one; in all other cases it ends as the robust path does.
pub open spec fn join_ending(job: ConcatJobView, actions: Seq<ActionView>, world: World) -> Ending {
    let listed = actions.push(
        ActionView::WriteFile { path: job.list, body: list_body(job.files) },
    );
    let copied = listed.push(ActionView::RunFfmpeg(copy_args(job.list, job.output)));
    let unlisted = copied.push(ActionView::RemoveFile(job.list));
    let tested = unlisted.push(ActionView::TestFile(job.output));
    if !copies_first(job.opts) {
        robust_ending(job, actions, world)
    } else if world(listed) is Failed {
        robust_ending(job, listed, world)
    } else if world(copied) is Failed {
        robust_ending(job, unlisted, world)
    } else if !world(tested).is_yes() {
        robust_ending(job, tested, world)
    } else {
        Ending { step: StepView::Finished(job.output), actions: tested }
    }
}

/// A join copies streams when it may and falls back on the robust path when
/// that fails or leaves no output, whatever was done before it.
pub proof fn concat_falls_back(
    inputs: Seq<Seq<char>>,
    output: Seq<char>,
    list: Seq<char>,
    opts: ConcatOptions,
    before: Seq<ActionView>,
    world: World,
)
    ensures
        ({
            let job = concat_start(inputs, output, list, opts);
            let begun = before.push(ActionView::CreateParent(output));
            concat_run(job, begun, world) == match world(begun) {
                EventView::Failed(m) => Ending { step: StepView::Failed(m), actions: begun },
                EventView::Done { .. } => join_ending(job, begun, world),
            }
        }),
{
    reveal_with_fuel(concat_run, 8);
}

/// A join ends with the output that was asked for, which has just been found to
/// be a file, or with an error.
pub proof fn concat_ends(
    inputs: Seq<Seq<char>>,
    output: Seq<char>,
    list: Seq<char>,
    opts: ConcatOptions,
    before: Seq<ActionView>,
    world: World,
)
    ensures
        ({
            let begun = before.push(ActionView::CreateParent(output));
            let end = concat_run(concat_start(inputs, output, list, opts), begun, world);
            match end.step {
                StepView::Act(_) => false,
                StepView::Finished(path) => path == output && end.actions.last()
                    == ActionView::TestFile(output) && world(end.actions).is_yes(),
                StepView::Failed(_) => true,
            }
        }),
{
    concat_falls_back(inputs, output, list, opts, before, world);
}

/// A join that has written its list file removes it again.
pub proof fn concat_removes_its_list(
    inputs: Seq<Seq<char>>,
    output: Seq<char>,
    list: Seq<char>,
    opts: ConcatOptions,
    before: Seq<ActionView>,
    world: World,
)
    requires
        copies_first(opts),
        world(before.push(ActionView::CreateParent(output))) is Done,
        world(
            before.push(ActionView::CreateParent(output)).push(
                ActionView::WriteFile { path: list, body: list_body(join_order(inputs, opts)) },
            ),
        ) is Done,
    ensures
        concat_run(
            concat_start(inputs, output, list, opts),
            before.push(ActionView::CreateParent(output)),
            world,
        ).actions.contains(ActionView::RemoveFile(list)),
{
    concat_falls_back(inputs, output, list, opts, before, world);
    let begun = before.push(ActionView::CreateParent(output));
    let end = concat_run(concat_start(inputs, output, list, opts), begun, world);
    assert(end.actions[begun.len() as int + 2] == ActionView::RemoveFile(list));
}

} // verus!
