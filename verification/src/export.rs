//! Exporting the edited video: each clip is cut out of the source without
//! re-encoding, and the segments are joined.
use crate::concat::{concat_list, list_body};
use crate::edl::{range_views, RangeText, RangeView};
use crate::jobs::{Action, ActionView, Ending, Event, EventView, Step, StepView, World};
use crate::panel::flagged;
use crate::paths::{sanitize_path, sanitized};
use crate::text::{join2, owned, push_text, push_texts, texts};
use vstd::prelude::*;
use vstd::string::*;

verus! {

// ---------------------------------------------------------------------------
// Arguments
// ---------------------------------------------------------------------------

/// A segment of the export: the times of the clip as text, and the file that it
/// is cut to.
#[derive(Debug)]
pub struct Segment {
    pub start: String,
    pub end: String,
    pub path: String,
}

/// The content of a segment.
#[verifier::ext_equal]
pub struct SegmentView {
    pub start: Seq<char>,
    pub end: Seq<char>,
    pub path: Seq<char>,
}

impl View for Segment {
    type V = SegmentView;

    open spec fn view(&self) -> SegmentView {
        SegmentView { start: self.start@, end: self.end@, path: self.path@ }
    }
}

/// The contents of a list of segments.
pub open spec fn segment_views(v: Seq<Segment>) -> Seq<SegmentView> {
    v.map_values(|s: Segment| s@)
}

/// The files of a list of segments.
pub open spec fn segment_paths(v: Seq<SegmentView>) -> Seq<Seq<char>> {
    v.map_values(|s: SegmentView| s.path)
}

/// The segments of clips with the given times and files, one for each clip, in
/// order.
pub open spec fn paired(ranges: Seq<RangeView>, paths: Seq<Seq<char>>) -> Seq<SegmentView> {
    Seq::new(
        ranges.len(),
        |i: int|
            SegmentView { start: ranges[i].start, end: ranges[i].end, path: paths[i] },
    )
}

/// Pairs the times of clips with the files that they are cut to.
pub fn segments_of(ranges: &Vec<RangeText>, paths: &Vec<String>) -> (r: Vec<Segment>)
    requires
        ranges@.len() == paths@.len(),
    ensures
        segment_views(r@) == paired(range_views(ranges@), texts(paths@)),
{
    let ghost all = paired(range_views(ranges@), texts(paths@));
    let mut r: Vec<Segment> = Vec::new();
    for i in 0..ranges.len()
        invariant
            ranges@.len() == paths@.len(),
            all == paired(range_views(ranges@), texts(paths@)),
            segment_views(r@) == all.take(i as int),
    {
        let ghost before = r@;
        let s = Segment {
            start: owned(ranges[i].start.as_str()),
            end: owned(ranges[i].end.as_str()),
            path: owned(paths[i].as_str()),
        };
        assert(range_views(ranges@)[i as int] == ranges@[i as int]@);
        assert(texts(paths@)[i as int] == paths@[i as int]@);
        assert(s@ =~= all[i as int]);
        r.push(s);
        assert(segment_views(r@) =~= segment_views(before).push(s@));
        assert(segment_views(r@) =~= all.take(i + 1));
    }
    assert(all.take(ranges@.len() as int) =~= all);
    r
}

/// The arguments that cut a segment out of the source.
pub open spec fn segment_args(source: Seq<char>, s: SegmentView) -> Seq<Seq<char>> {
    seq![
        "-y"@,
        "-i"@,
        sanitized(source),
        "-ss"@,
        s.start,
        "-to"@,
        s.end,
        "-c"@,
        "copy"@,
        sanitized(s.path),
    ]
}

/// Builds the arguments that cut a segment out of the source.
pub fn cut_args(source: &str, s: &Segment) -> (args: Vec<String>)
    ensures
        texts(args@) == segment_args(source@, s@),
        args@.len() == 10,
        args@[3]@ == "-ss"@ && args@[4]@ == s.start@,
        args@[5]@ == "-to"@ && args@[6]@ == s.end@,
{
    let in_path = sanitize_path(source);
    let out_path = sanitize_path(s.path.as_str());
    let mut args: Vec<String> = Vec::new();
    push_texts(
        &mut args,
        vec![
            "-y",
            "-i",
            in_path.as_str(),
            "-ss",
            s.start.as_str(),
            "-to",
            s.end.as_str(),
            "-c",
            "copy",
            out_path.as_str(),
        ],
    );
    assert(texts(args@) =~= segment_args(source@, s@));
    proof {
        let all = texts(args@);
        assert(all.len() == args@.len());
        assert(all[3] == args@[3]@ && all[4] == args@[4]@);
        assert(all[5] == args@[5]@ && all[6] == args@[6]@);
    }
    args
}

/// The arguments that join the segments of a list file.
pub open spec fn join_args(list: Seq<char>, output: Seq<char>) -> Seq<Seq<char>> {
    seq![
        "-y"@,
        "-f"@,
        "concat"@,
        "-safe"@,
        "0"@,
        "-i"@,
        sanitized(list),
        "-c"@,
        "copy"@,
        sanitized(output),
    ]
}

/// Builds the arguments that join the segments of a list file.
pub fn remux_args(list: &str, output: &str) -> (args: Vec<String>)
    ensures
        texts(args@) == join_args(list@, output@),
{
    let list_path = sanitize_path(list);
    let out_path = sanitize_path(output);
    let mut args: Vec<String> = Vec::new();
    push_texts(
        &mut args,
        vec![
            "-y",
            "-f",
            "concat",
            "-safe",
            "0",
            "-i",
            list_path.as_str(),
            "-c",
            "copy",
            out_path.as_str(),
        ],
    );
    assert(texts(args@) =~= join_args(list@, output@));
    args
}

// ---------------------------------------------------------------------------
// The job
// ---------------------------------------------------------------------------

/// Where an export stands.
#[derive(Clone, Copy, PartialEq, Eq)]
pub enum ExportStage {
    /// Segment `i` is being cut.
    Cut { i: usize },
    /// Segment `i` is being looked for.
    Look { i: usize },
    /// The list file is being written.
    List,
    /// The segments are being joined.
    Join,
    /// The segment file `k` of those that were found is being removed.
    Remove { k: usize },
    /// The list file is being removed.
    Unlist,
    /// The output is being looked for.
    Check,
    /// The export has ended.
    Over,
}

/// The export of an edited video.
pub struct ExportJob {
    source: String,
    segments: Vec<Segment>,
    output: String,
    list: String,
    made: Vec<String>,
    stage: ExportStage,
}

/// The content of an export: the source, the segments to be cut, the output,
/// the list file, the segment files that were found so far, and the stage.
#[verifier::ext_equal]
pub struct ExportView {
    pub source: Seq<char>,
    pub segments: Seq<SegmentView>,
    pub output: Seq<char>,
    pub list: Seq<char>,
    pub made: Seq<Seq<char>>,
    pub stage: ExportStage,
}

impl View for ExportJob {
    type V = ExportView;

    closed spec fn view(&self) -> ExportView {
        ExportView {
            source: self.source@,
            segments: segment_views(self.segments@),
            output: self.output@,
            list: self.list@,
            made: texts(self.made@),
            stage: self.stage,
        }
    }
}

impl ExportView {
    /// The stage speaks of a segment that there is.
    pub open spec fn wf(self) -> bool {
        match self.stage {
            ExportStage::Cut { i } => i < self.segments.len(),
            ExportStage::Look { i } => i < self.segments.len(),
            ExportStage::Remove { k } => k < self.made.len(),
            ExportStage::List => self.made.len() > 0,
            ExportStage::Join => self.made.len() > 0,
            _ => true,
        }
    }

    /// The export at another stage.
    pub open spec fn at(self, stage: ExportStage) -> ExportView {
        ExportView { stage, ..self }
    }

    /// The export as it ends.
    pub open spec fn ending(self, step: StepView) -> (ExportView, StepView) {
        (self.at(ExportStage::Over), step)
    }

    /// The export as it turns to segment `i`: the segment is cut, or behind the
    /// last one the list of those that were found is written.
    pub open spec fn cutting(self, i: int) -> (ExportView, StepView) {
        if i < self.segments.len() {
            (
                self.at(ExportStage::Cut { i: i as usize }),
                StepView::Act(
                    ActionView::StartFfmpeg(segment_args(self.source, self.segments[i])),
                ),
            )
        } else if self.made.len() == 0 {
            self.ending(StepView::Failed("No segments created for export (ffmpeg failed?)"@))
        } else {
            (
                self.at(ExportStage::List),
                StepView::Act(
                    ActionView::WriteFile { path: self.list, body: list_body(self.made) },
                ),
            )
        }
    }

    /// The export as it turns to the removal of segment file `k`.
    pub open spec fn removing(self, k: int) -> (ExportView, StepView) {
        if k < self.made.len() {
            (
                self.at(ExportStage::Remove { k: k as usize }),
                StepView::Act(ActionView::RemoveFile(self.made[k])),
            )
        } else {
            (self.at(ExportStage::Unlist), StepView::Act(ActionView::RemoveFile(self.list)))
        }
    }

    /// The export and its next step after a reply.
    pub open spec fn after(self, event: EventView) -> (ExportView, StepView) {
        match self.stage {
            ExportStage::Cut { i } => match event {
                EventView::Failed(_) => self.cutting(i + 1),
                EventView::Done { .. } => (
                    self.at(ExportStage::Look { i }),
                    StepView::Act(ActionView::TestExists(self.segments[i as int].path)),
                ),
            },
            ExportStage::Look { i } => if event.is_yes() {
                ExportView { made: self.made.push(self.segments[i as int].path), ..self }.cutting(
                    i + 1,
                )
            } else {
                self.cutting(i + 1)
            },
            ExportStage::List => (
                self.at(ExportStage::Join),
                StepView::Act(ActionView::StartFfmpeg(join_args(self.list, self.output))),
            ),
            ExportStage::Join => self.removing(0),
            ExportStage::Remove { k } => self.removing(k + 1),
            ExportStage::Unlist => (
                self.at(ExportStage::Check),
                StepView::Act(ActionView::TestExists(self.output)),
            ),
            ExportStage::Check => if event.is_yes() {
                self.ending(StepView::Finished(self.output))
            } else {
                self.ending(
                    StepView::Failed("Export finished but output missing: "@ + self.output),
                )
            },
            ExportStage::Over => self.ending(StepView::Failed("the job has ended"@)),
        }
    }
}

/// An export that begins.
pub open spec fn export_start(
    source: Seq<char>,
    segments: Seq<SegmentView>,
    output: Seq<char>,
    list: Seq<char>,
) -> ExportView {
    ExportView {
        source,
        segments,
        output,
        list,
        made: Seq::empty(),
        stage: ExportStage::Over,
    }
}

/// Begins to export the segments of a source to `output`, through the list file
/// `list`, and says what comes first.
pub fn export_edited_video_only(
    source: &str,
    segments: Vec<Segment>,
    output: &str,
    list: &str,
) -> (r: (ExportJob, Step))
    ensures
        (r.0@, r.1@) == export_start(source@, segment_views(segments@), output@, list@).cutting(0),
        r.0@.wf(),
{
    let mut job = ExportJob {
        source: owned(source),
        segments,
        output: owned(output),
        list: owned(list),
        made: Vec::new(),
        stage: ExportStage::Over,
    };
    assert(texts(job.made@) =~= Seq::empty());
    let step = job.cut(0);
    (job, step)
}

impl ExportJob {
    /// Turns to segment `i`.
    fn cut(&mut self, i: usize) -> (step: Step)
        ensures
            (final(self)@, step@) == old(self)@.cutting(i as int),
            final(self)@.wf(),
    {
        if i < self.segments.len() {
            self.stage = ExportStage::Cut { i };
            assert(segment_views(self.segments@)[i as int] == self.segments@[i as int]@);
            Step::Act(Action::StartFfmpeg(cut_args(self.source.as_str(), &self.segments[i])))
        } else if self.made.len() == 0 {
            self.stage = ExportStage::Over;
            Step::Failed(owned("No segments created for export (ffmpeg failed?)"))
        } else {
            self.stage = ExportStage::List;
            Step::Act(
                Action::WriteFile {
                    path: owned(self.list.as_str()),
                    body: concat_list(&self.made),
                },
            )
        }
    }

    /// Turns to the removal of segment file `k`.
    fn remove(&mut self, k: usize) -> (step: Step)
        ensures
            (final(self)@, step@) == old(self)@.removing(k as int),
            final(self)@.wf(),
    {
        if k < self.made.len() {
            self.stage = ExportStage::Remove { k };
            assert(texts(self.made@)[k as int] == self.made@[k as int]@);
            Step::Act(Action::RemoveFile(owned(self.made[k].as_str())))
        } else {
            self.stage = ExportStage::Unlist;
            Step::Act(Action::RemoveFile(owned(self.list.as_str())))
        }
    }

    /// Takes the reply to the last action and says what comes next.
    pub fn advance(&mut self, event: &Event) -> (step: Step)
        requires
            old(self)@.wf(),
        ensures
            (final(self)@, step@) == old(self)@.after(event@),
            final(self)@.wf(),
    {
        match self.stage {
            ExportStage::Cut { i } => {
                let n: usize = self.segments.len();
                assert(i < n);
                match event {
                    Event::Failed(_) => self.cut(i + 1),
                    Event::Done { .. } => {
                        self.stage = ExportStage::Look { i };
                        assert(segment_views(self.segments@)[i as int]
                            == self.segments@[i as int]@);
                        Step::Act(Action::TestExists(owned(self.segments[i].path.as_str())))
                    },
                }
            },
            ExportStage::Look { i } => {
                let n: usize = self.segments.len();
                assert(i < n);
                if event.is_yes() {
                    assert(segment_views(self.segments@)[i as int] == self.segments@[i as int]@);
                    push_text(&mut self.made, self.segments[i].path.as_str());
                }
                self.cut(i + 1)
            },
            ExportStage::List => {
                self.stage = ExportStage::Join;
                Step::Act(
                    Action::StartFfmpeg(remux_args(self.list.as_str(), self.output.as_str())),
                )
            },
            ExportStage::Join => self.remove(0),
            ExportStage::Remove { k } => {
                let n: usize = self.made.len();
                assert(k < n);
                self.remove(k + 1)
            },
            ExportStage::Unlist => {
                self.stage = ExportStage::Check;
                Step::Act(Action::TestExists(owned(self.output.as_str())))
            },
            ExportStage::Check => {
                self.stage = ExportStage::Over;
                if event.is_yes() {
                    Step::Finished(owned(self.output.as_str()))
                } else {
                    Step::Failed(
                        join2("Export finished but output missing: ", self.output.as_str()),
                    )
                }
            },
            ExportStage::Over => Step::Failed(owned("the job has ended")),
        }
    }
}

// ---------------------------------------------------------------------------
// Laws
// ---------------------------------------------------------------------------

/// How far an export is from its end, at most.
pub open spec fn export_steps_left(job: ExportView) -> int {
    let n = job.segments.len() as int;
    let m = job.made.len() as int;
    match job.stage {
        ExportStage::Cut { i } => 3 * n + 9 - 2 * i,
        ExportStage::Look { i } => 3 * n + 8 - 2 * i,
        ExportStage::List => m + 5,
        ExportStage::Join => m + 4,
        ExportStage::Remove { k } => m - k + 3,
        ExportStage::Unlist => 2,
        ExportStage::Check => 1,
        ExportStage::Over => 0,
    }
}

/// How an export ends that has asked for `actions`, the last of them just now,
/// where the outside replies as `world` says; and the export as it then is.
pub open spec fn export_run(job: ExportView, actions: Seq<ActionView>, world: World) -> (
    ExportView,
    Ending,
)
    decreases export_steps_left(job),
{
    let (next, step) = job.after(world(actions));
    match step {
        StepView::Act(a) => if 0 <= export_steps_left(next) < export_steps_left(job) {
            export_run(next, actions.push(a), world)
        } else {
            (next, Ending { step, actions })
        },
        _ => (next, Ending { step, actions }),
    }
}

/// What has been asked for when the first `n` segments have been dealt with,
/// behind `before`, and which of their files were found: a segment is cut, and
/// where that could start its file is looked for.
pub open spec fn cut_trace(
    source: Seq<char>,
    segments: Seq<SegmentView>,
    n: nat,
    before: Seq<ActionView>,
    world: World,
) -> (Seq<ActionView>, Seq<bool>)
    decreases n,
{
    if n == 0 {
        (before, Seq::empty())
    } else {
        let (actions, flags) = cut_trace(source, segments, (n - 1) as nat, before, world);
        let s = segments[n - 1];
        let run = actions.push(ActionView::StartFfmpeg(segment_args(source, s)));
        let tested = run.push(ActionView::TestExists(s.path));
        if world(run) is Failed {
            (run, flags.push(false))
        } else {
            (tested, flags.push(world(tested).is_yes()))
        }
    }
}

/// The actions that remove files, in order.
pub open spec fn removals(paths: Seq<Seq<char>>) -> Seq<ActionView> {
    paths.map_values(|p: Seq<char>| ActionView::RemoveFile(p))
}

/// How an export ends whose segments have been dealt with by `actions`, where
/// `made` are the files that were found.
pub open spec fn join_ending(
    start: ExportView,
    made: Seq<Seq<char>>,
    actions: Seq<ActionView>,
    world: World,
) -> Ending {
    let joined = actions.push(
        ActionView::WriteFile { path: start.list, body: list_body(made) },
    ).push(ActionView::StartFfmpeg(join_args(start.list, start.output)));
    let tested = (joined + removals(made)).push(ActionView::RemoveFile(start.list)).push(
        ActionView::TestExists(start.output),
    );
    if made.len() == 0 {
        Ending {
            step: StepView::Failed("No segments created for export (ffmpeg failed?)"@),
            actions,
        }
    } else if world(tested).is_yes() {
        Ending { step: StepView::Finished(start.output), actions: tested }
    } else {
        Ending {
            step: StepView::Failed("Export finished but output missing: "@ + start.output),
            actions: tested,
        }
    }
}

/// Two exports of the same segments.
spec fn alike(a: ExportView, b: ExportView) -> bool {
    a.source == b.source && a.segments == b.segments && a.output == b.output && a.list == b.list
}

/// How an export ends that is about to look for its output.
proof fn checking(
    start: ExportView,
    job: ExportView,
    actions: Seq<ActionView>,
    world: World,
)
    requires
        alike(job, start),
        job.stage == ExportStage::Unlist,
    ensures
        ({
            let tested = actions.push(ActionView::TestExists(start.output));
            export_run(job, actions, world).1 == if world(tested).is_yes() {
                Ending { step: StepView::Finished(start.output), actions: tested }
            } else {
                Ending {
                    step: StepView::Failed(
                        "Export finished but output missing: "@ + start.output,
                    ),
                    actions: tested,
                }
            }
        }),
{
    reveal_with_fuel(export_run, 2);
}

/// How an export ends that has removed the first `k` files, and the next one
/// just now.
proof fn removing_all(
    start: ExportView,
    job: ExportView,
    k: int,
    joined: Seq<ActionView>,
    world: World,
)
    requires
        alike(job, start),
        job.made.len() <= usize::MAX,
        0 <= k < job.made.len(),
        job.stage == (ExportStage::Remove { k: k as usize }),
    ensures
        ({
            let cleaned = (joined + removals(job.made)).push(ActionView::RemoveFile(start.list));
            let unlisting = job.at(ExportStage::Unlist);
            export_run(job, joined + removals(job.made).take(k + 1), world) == export_run(
                unlisting,
                cleaned,
                world,
            )
        }),
    decreases job.made.len() - k,
{
    let all = removals(job.made);
    let actions = joined + all.take(k + 1);
    let (next, step) = job.after(world(actions));
    if k + 1 < job.made.len() {
        assert(actions.push(all[k + 1]) =~= joined + all.take(k + 2));
        removing_all(start, next, k + 1, joined, world);
        assert(next.at(ExportStage::Unlist) =~= job.at(ExportStage::Unlist));
    } else {
        assert(all.take(k + 1) =~= all);
    }
}

/// How an export ends that has just asked for the list file to be written.
proof fn joining(
    start: ExportView,
    job: ExportView,
    actions: Seq<ActionView>,
    world: World,
)
    requires
        alike(job, start),
        0 < job.made.len() <= usize::MAX,
        job.stage == ExportStage::List,
    ensures
        export_run(
            job,
            actions.push(ActionView::WriteFile { path: job.list, body: list_body(job.made) }),
            world,
        ).1 == join_ending(start, job.made, actions, world),
{
    let written = actions.push(
        ActionView::WriteFile { path: job.list, body: list_body(job.made) },
    );
    let joined = written.push(ActionView::StartFfmpeg(join_args(job.list, job.output)));
    let at_join = job.at(ExportStage::Join);
    let at_first = job.at(ExportStage::Remove { k: 0 });
    let all = removals(job.made);
    assert(export_run(job, written, world) == export_run(at_join, joined, world));
    assert(joined.push(all[0]) =~= joined + all.take(1));
    assert(export_run(at_join, joined, world) == export_run(
        at_first,
        joined + all.take(1),
        world,
    ));
    removing_all(start, at_first, 0, joined, world);
    let cleaned = (joined + all).push(ActionView::RemoveFile(start.list));
    checking(start, at_first.at(ExportStage::Unlist), cleaned, world);
}

proof fn flags_agree(list: Seq<Seq<char>>, a: Seq<bool>, b: Seq<bool>)
    requires
        list.len() <= a.len(),
        list.len() <= b.len(),
        forall|i: int| 0 <= i < list.len() ==> a[i] == b[i],
    ensures
        flagged(list, a) == flagged(list, b),
    decreases list.len(),
{
    if list.len() > 0 {
        flags_agree(list.drop_last(), a, b);
    }
}

proof fn flagged_is_shorter(list: Seq<Seq<char>>, flags: Seq<bool>)
    ensures
        flagged(list, flags).len() <= list.len(),
    decreases list.len(),
{
    if list.len() > 0 {
        flagged_is_shorter(list.drop_last(), flags);
    }
}

/// The trace has a flag for each segment.
proof fn trace_flags(
    source: Seq<char>,
    segments: Seq<SegmentView>,
    n: nat,
    before: Seq<ActionView>,
    world: World,
)
    ensures
        cut_trace(source, segments, n, before, world).1.len() == n,
    decreases n,
{
    if n > 0 {
        trace_flags(source, segments, (n - 1) as nat, before, world);
    }
}

/// How an export ends that has just asked for segment `i` to be cut.
proof fn cutting_all(
    start: ExportView,
    job: ExportView,
    i: int,
    before: Seq<ActionView>,
    world: World,
)
    requires
        alike(job, start),
        0 <= i < start.segments.len() <= usize::MAX,
        job.stage == (ExportStage::Cut { i: i as usize }),
        ({
            let (_, flags) = cut_trace(start.source, start.segments, i as nat, before, world);
            job.made == flagged(segment_paths(start.segments).take(i), flags)
        }),
    ensures
        ({
            let n = start.segments.len();
            let (done, _) = cut_trace(start.source, start.segments, i as nat, before, world);
            let asked = done.push(
                ActionView::StartFfmpeg(segment_args(start.source, start.segments[i])),
            );
            let (actions, flags) = cut_trace(start.source, start.segments, n, before, world);
            export_run(job, asked, world).1 == join_ending(
                start,
                flagged(segment_paths(start.segments), flags),
                actions,
                world,
            )
        }),
    decreases start.segments.len() - i,
{
    let n = start.segments.len() as int;
    let paths = segment_paths(start.segments);
    let s = start.segments[i];
    let (done, flags) = cut_trace(start.source, start.segments, i as nat, before, world);
    let asked = done.push(ActionView::StartFfmpeg(segment_args(start.source, s)));
    let tested = asked.push(ActionView::TestExists(s.path));
    let (after, more) = cut_trace(start.source, start.segments, (i + 1) as nat, before, world);
    trace_flags(start.source, start.segments, i as nat, before, world);
    // What has been found behind segment `i`.
    let yes = world(asked) is Done && world(tested).is_yes();
    let made = if yes {
        job.made.push(s.path)
    } else {
        job.made
    };
    assert(more == flags.push(yes));
    assert(paths.take(i + 1).drop_last() =~= paths.take(i));
    flags_agree(paths.take(i), flags, more);
    assert(paths.take(i + 1).last() == s.path);
    assert(made == flagged(paths.take(i + 1), more));
    flagged_is_shorter(paths.take(i + 1), more);
    flagged_is_shorter(paths.take(i), flags);
    // The step behind segment `i`.
    let found = ExportView { made, ..job };
    let (next, step) = found.cutting(i + 1);
    let looking = job.at(ExportStage::Look { i: i as usize });
    if world(asked) is Done {
        assert(export_run(job, asked, world) == export_run(looking, tested, world));
        assert(looking.after(world(tested)) == found.cutting(i + 1)) by {
            assert(ExportView { made, ..looking }.at(next.stage) =~= next);
        }
    } else {
        assert(found =~= job);
    }
    if i + 1 < n {
        cutting_all(start, next, i + 1, before, world);
    } else {
        assert(paths.take(n) =~= paths);
        if made.len() > 0 {
            joining(start, next, after, world);
        }
    }
}

/// An export cuts every clip and joins the segments whose files it found, in the
/// order of the clips; the files that were found and the list file are then
/// removed. It fails where no segment was found, and ends well where the output
/// is there at the end.
pub proof fn export_joins_and_cleans_up(
    source: Seq<char>,
    segments: Seq<SegmentView>,
    output: Seq<char>,
    list: Seq<char>,
    before: Seq<ActionView>,
    world: World,
)
    requires
        0 < segments.len() <= usize::MAX,
    ensures
        ({
            let start = export_start(source, segments, output, list);
            let first = ActionView::StartFfmpeg(segment_args(source, segments[0]));
            let (actions, flags) = cut_trace(source, segments, segments.len(), before, world);
            &&& start.cutting(0).1 == StepView::Act(first)
            &&& flags.len() == segments.len()
            &&& export_run(start.cutting(0).0, before.push(first), world).1 == join_ending(
                start,
                flagged(segment_paths(segments), flags),
                actions,
                world,
            )
        }),
{
    let start = export_start(source, segments, output, list);
    let begun = start.cutting(0).0;
    let none = Seq::<bool>::empty();
    assert(flagged(segment_paths(segments).take(0), none) =~= begun.made);
    trace_flags(source, segments, segments.len(), before, world);
    cutting_all(start, begun, 0, before, world);
}

} // verus!
