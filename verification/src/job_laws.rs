//! Laws of the other jobs: what exports, changes of speed, conversions and frame
//! extractions ask for, step by step, read off the actions themselves.
use crate::command::{options, options_differ, values, values_from};
use crate::command_laws::{
    conversion_encodes_for_the_format, cut_takes_the_range_of_the_clip, export_joins_the_list,
    extraction_takes_one_frame_at_the_time, factor_runs_one_graph, fit_divides_by_the_probed_factor,
    silent_speed_divides_the_time_stamps,
};
use crate::convert::{convert_run, convert_start, converted_output_was_free, ConvertFormat};
use crate::edl::RangeView;
use crate::export::{
    cut_trace, export_joins_and_cleans_up, export_run, export_start, join_args, paired, removals,
    segment_args, segment_paths, SegmentView,
};
use crate::frames::{extraction_args, frame_run, FrameJobView, FrameStage};
use crate::graph_laws::{graph_of_a_tempo, tempo_filters};
use crate::jobs::{ActionView, EventView, StepView, World};
use crate::join_laws::{list_names_its_files, read_list, reply};
use crate::order_laws::{pick_goes_on, pick_of_nothing, picks};
use crate::panel::flagged;
use crate::paths::sanitized;
use crate::scan::joined;
use crate::speed::{
    change_args, run_args, silent_args, speed_keeps_audio_when_possible, speed_run, SpeedJobView,
    SpeedMode, SpeedStage, Tempo,
};
use crate::text::decimal;
use vstd::prelude::*;
use vstd::string::*;

verus! {

// ---------------------------------------------------------------------------
// Exports
// ---------------------------------------------------------------------------

/// A range that is cut out of a file: the file, where the range starts and ends,
/// and where it goes.
#[verifier::ext_equal]
pub struct Cut {
    pub source: Seq<char>,
    pub start: Seq<char>,
    pub end: Seq<char>,
    pub file: Seq<char>,
}

/// The ranges that an action cuts: one where it starts ffmpeg with a time to begin
/// at.
pub open spec fn cut_by(a: ActionView) -> Seq<Cut> {
    match a {
        ActionView::StartFfmpeg(args) => if values(args, "-ss"@).len() > 0 {
            seq![
                Cut {
                    source: values(args, "-i"@)[0],
                    start: values(args, "-ss"@)[0],
                    end: values(args, "-to"@)[0],
                    file: args.last(),
                },
            ]
        } else {
            Seq::empty()
        },
        _ => Seq::empty(),
    }
}

/// The ranges that the actions from position `from` on cut, in order.
pub open spec fn cuts_from(actions: Seq<ActionView>, from: int) -> Seq<Cut>
    decreases actions.len(),
{
    if actions.len() <= from || actions.len() == 0 {
        Seq::empty()
    } else {
        cuts_from(actions.drop_last(), from) + cut_by(actions.last())
    }
}

proof fn cut_command(source: Seq<char>, s: SegmentView)
    ensures
        cut_by(ActionView::StartFfmpeg(segment_args(source, s))) == seq![
            Cut {
                source: sanitized(source),
                start: s.start,
                end: s.end,
                file: sanitized(s.path),
            },
        ],
{
    cut_takes_the_range_of_the_clip(source, s);
}

proof fn join_command(list: Seq<char>, output: Seq<char>)
    ensures
        cut_by(ActionView::StartFfmpeg(join_args(list, output))) == Seq::<Cut>::empty(),
{
    options_differ();
    reveal_with_fuel(values_from, 8);
    assert(values(join_args(list, output), "-ss"@) =~= Seq::<Seq<char>>::empty());
}

/// One more action.
proof fn cuts_go_on(actions: Seq<ActionView>, a: ActionView, from: int)
    requires
        0 <= from <= actions.len(),
    ensures
        cuts_from(actions.push(a), from) == cuts_from(actions, from) + cut_by(a),
{
    assert(actions.push(a).drop_last() =~= actions);
}

/// The ranges that are cut by the time the first `n` segments have been dealt
/// with.
proof fn trace_cuts(
    source: Seq<char>,
    segments: Seq<SegmentView>,
    n: nat,
    before: Seq<ActionView>,
    world: World,
)
    requires
        n <= segments.len(),
    ensures
        ({
            let (actions, flags) = cut_trace(source, segments, n, before, world);
            &&& actions.len() >= before.len()
            &&& actions.take(before.len() as int) == before
            &&& flags.len() == n
            &&& cuts_from(actions, before.len() as int) == Seq::new(
                n,
                |i: int|
                    Cut {
                        source: sanitized(source),
                        start: segments[i].start,
                        end: segments[i].end,
                        file: sanitized(segments[i].path),
                    },
            )
        }),
    decreases n,
{
    let b = before.len() as int;
    let (after, _) = cut_trace(source, segments, n, before, world);
    let wanted = Seq::new(
        n,
        |i: int|
            Cut {
                source: sanitized(source),
                start: segments[i].start,
                end: segments[i].end,
                file: sanitized(segments[i].path),
            },
    );
    if n == 0 {
        assert(cuts_from(before, b) =~= wanted);
        assert(before.take(b) =~= before);
    } else {
        let m = (n - 1) as nat;
        trace_cuts(source, segments, m, before, world);
        let (actions, _) = cut_trace(source, segments, m, before, world);
        let s = segments[n - 1];
        let a = ActionView::StartFfmpeg(segment_args(source, s));
        let run = actions.push(a);
        cut_command(source, s);
        cuts_go_on(actions, a, b);
        cuts_go_on(run, ActionView::TestExists(s.path), b);
        assert(cuts_from(run, b) =~= wanted);
        assert(cuts_from(run, b) + Seq::<Cut>::empty() =~= cuts_from(run, b));
        assert(run.take(b) =~= actions.take(b));
        assert(after.take(b) =~= actions.take(b));
    }
}

proof fn removals_cut_nothing(actions: Seq<ActionView>, paths: Seq<Seq<char>>, from: int)
    requires
        0 <= from <= actions.len(),
    ensures
        cuts_from(actions + removals(paths), from) == cuts_from(actions, from),
    decreases paths.len(),
{
    if paths.len() == 0 {
        assert(actions + removals(paths) =~= actions);
    } else {
        let less = paths.drop_last();
        removals_cut_nothing(actions, less, from);
        let a = ActionView::RemoveFile(paths.last());
        assert(actions + removals(paths) =~= (actions + removals(less)).push(a));
        cuts_go_on(actions + removals(less), a, from);
        assert(cuts_from(actions, from) + Seq::<Cut>::empty() =~= cuts_from(actions, from));
    }
}

/// An export asks ffmpeg for exactly the ranges of the clips: for each clip, in
/// order, the source from the start of the clip to its end, to the file that is
/// meant for it; and for no other range.
pub proof fn export_cuts_every_range(
    source: Seq<char>,
    ranges: Seq<RangeView>,
    paths: Seq<Seq<char>>,
    output: Seq<char>,
    list: Seq<char>,
    before: Seq<ActionView>,
    world: World,
)
    requires
        ranges.len() == paths.len(),
        0 < ranges.len() <= usize::MAX,
    ensures
        ({
            let (job, step) = export_start(source, paired(ranges, paths), output, list).cutting(0);
            &&& step is Act
            &&& {
                let end = export_run(job, before.push(step->Act_0), world).1;
                let cuts = cuts_from(end.actions, before.len() as int);
                &&& cuts.len() == ranges.len()
                &&& forall|i: int|
                    0 <= i < ranges.len() ==> #[trigger] cuts[i] == (Cut {
                        source: sanitized(source),
                        start: ranges[i].start,
                        end: ranges[i].end,
                        file: sanitized(paths[i]),
                    })
            }
        }),
{
    let segments = paired(ranges, paths);
    let b = before.len() as int;
    export_joins_and_cleans_up(source, segments, output, list, before, world);
    trace_cuts(source, segments, segments.len(), before, world);
    let (actions, flags) = cut_trace(source, segments, segments.len(), before, world);
    let made = flagged(segment_paths(segments), flags);
    if made.len() > 0 {
        let write = ActionView::WriteFile { path: list, body: crate::concat::list_body(made) };
        let join = ActionView::StartFfmpeg(join_args(list, output));
        let written = actions.push(write);
        let joined = written.push(join);
        let cleaned = joined + removals(made);
        let unlisted = cleaned.push(ActionView::RemoveFile(list));
        join_command(list, output);
        cuts_go_on(actions, write, b);
        cuts_go_on(written, join, b);
        removals_cut_nothing(joined, made, b);
        cuts_go_on(cleaned, ActionView::RemoveFile(list), b);
        cuts_go_on(unlisted, ActionView::TestExists(output), b);
        let all = cuts_from(actions, b);
        assert(all + Seq::<Cut>::empty() =~= all);
    }
}

proof fn flagged_in_order(files: Seq<Seq<char>>, flags: Seq<bool>)
    requires
        files.len() <= flags.len(),
    ensures
        picks(flagged(files, flags), files, |i: int| flags[i]),
    decreases files.len(),
{
    let chosen = |i: int| flags[i];
    if files.len() == 0 {
        pick_of_nothing::<Seq<char>>(chosen);
        assert(files =~= Seq::<Seq<char>>::empty());
    } else {
        let front = files.drop_last();
        flagged_in_order(front, flags);
        pick_goes_on(flagged(front, flags), front, files.last(), chosen);
        assert(front.push(files.last()) =~= files);
    }
}

/// The entries of a list whose flag is set are those entries, each once and in
/// their order.
pub proof fn flagged_entries_keep_their_order(files: Seq<Seq<char>>, flags: Seq<bool>)
    requires
        files.len() == flags.len(),
    ensures
        picks(flagged(files, flags), files, |i: int| flags[i]),
{
    flagged_in_order(files, flags);
}

/// An export joins the segments whose files were found, in the order of the
/// clips: it writes a list file that names them, has ffmpeg copy them to the
/// output, removes them and the list file, and looks for the output. Where no
/// file was found it fails.
pub proof fn export_joins_what_it_found(
    source: Seq<char>,
    segments: Seq<SegmentView>,
    output: Seq<char>,
    list: Seq<char>,
    before: Seq<ActionView>,
    world: World,
)
    requires
        0 < segments.len() <= usize::MAX,
    ensures
        ({
            let (job, step) = export_start(source, segments, output, list).cutting(0);
            let end = export_run(job, before.push(step->Act_0), world).1;
            let (cut, found) = cut_trace(source, segments, segments.len(), before, world);
            let t = end.actions;
            let k = cut.len() as int;
            let files = Seq::new(segments.len(), |i: int| segments[i].path);
            let is_found = |i: int| found[i];
            &&& step is Act
            &&& found.len() == segments.len()
            &&& exists|made: Seq<Seq<char>>|
                {
                    &&& #[trigger] picks(made, files, is_found)
                    &&& made.len() == 0 ==> t == cut && end.step == StepView::Failed(
                        "No segments created for export (ffmpeg failed?)"@,
                    )
                    &&& made.len() > 0 ==> {
                        &&& t.len() == k + made.len() + 4
                        &&& t.take(k) == cut
                        &&& t[k] matches ActionView::WriteFile { path, body } && path == list
                            && read_list(body).len() == made.len() && forall|i: int|
                            0 <= i < made.len() ==> #[trigger] read_list(body)[i] == sanitized(
                                made[i],
                            )
                        &&& t[k + 1] matches ActionView::StartFfmpeg(args) && values(args, "-f"@)
                            == seq!["concat"@] && values(args, "-i"@) == seq![sanitized(list)]
                            && values(args, "-c"@) == seq!["copy"@] && args.last() == sanitized(
                            output,
                        )
                        &&& forall|i: int|
                            0 <= i < made.len() ==> t[k + 2 + i] == ActionView::RemoveFile(
                                #[trigger] made[i],
                            )
                        &&& t[t.len() - 2] == ActionView::RemoveFile(list)
                        &&& t.last() == ActionView::TestExists(output)
                        &&& end.step == if world(t).is_yes() {
                            StepView::Finished(output)
                        } else {
                            StepView::Failed("Export finished but output missing: "@ + output)
                        }
                    }
                }
        }),
{
    export_joins_and_cleans_up(source, segments, output, list, before, world);
    export_joins_the_list(list, output);
    let (job, step) = export_start(source, segments, output, list).cutting(0);
    let end = export_run(job, before.push(step->Act_0), world).1;
    let (cut, found) = cut_trace(source, segments, segments.len(), before, world);
    let paths = segment_paths(segments);
    let made = flagged(paths, found);
    let t = end.actions;
    let k = cut.len() as int;
    flagged_in_order(paths, found);
    assert(paths =~= Seq::new(segments.len(), |i: int| segments[i].path));
    list_names_its_files(made);
    if made.len() > 0 {
        assert(t.take(k) =~= cut);
        assert forall|i: int| 0 <= i < made.len() implies t[k + 2 + i] == ActionView::RemoveFile(
            #[trigger] made[i],
        ) by {
            assert(removals(made)[i] == ActionView::RemoveFile(made[i]));
        }
    }
    let files = Seq::new(segments.len(), |i: int| segments[i].path);
    let is_found = |i: int| found[i];
    assert(picks(made, files, is_found));
}

/// Two clips that differ in where they start or end are cut by different
/// commands.
pub proof fn different_ranges_are_cut_differently(
    source: Seq<char>,
    a: SegmentView,
    b: SegmentView,
)
    requires
        a.start != b.start || a.end != b.end || sanitized(a.path) != sanitized(b.path),
    ensures
        segment_args(source, a) != segment_args(source, b),
{
    cut_command(source, a);
    cut_command(source, b);
    let x = cut_by(ActionView::StartFfmpeg(segment_args(source, a)));
    let y = cut_by(ActionView::StartFfmpeg(segment_args(source, b)));
    assert(x[0] != y[0]);
}

// ---------------------------------------------------------------------------
// Changes of speed
// ---------------------------------------------------------------------------

/// Whether an action runs ffmpeg to divide the time stamps of the picture by a
/// factor and to write no sound.
pub open spec fn asks_for_silent_speed(
    a: ActionView,
    input: Seq<char>,
    output: Seq<char>,
    factor: Seq<char>,
) -> bool {
    a matches ActionView::RunFfmpeg(args) && {
        &&& values(args, "-i"@) == seq![sanitized(input)]
        &&& values(args, "-filter:v"@) == seq!["setpts=PTS/"@ + factor + ",fps=30"@]
        &&& options(args).contains("-an"@)
        &&& values(args, "-r"@) == seq!["30"@]
        &&& args.last() == sanitized(output)
    }
}

/// Whether an action runs ffmpeg to divide the time stamps of the picture by a
/// factor and to change the tempo of the sound by its chain of filters.
pub open spec fn asks_for_tempo(
    a: ActionView,
    input: Seq<char>,
    output: Seq<char>,
    t: Tempo,
) -> bool {
    a matches ActionView::RunFfmpeg(args) && {
        let filters = tempo_filters(t.doublings as nat, t.halvings as nat, t.rest@);
        &&& values(args, "-i"@) == seq![sanitized(input)]
        &&& values(args, "-filter_complex"@) == seq![
            "[0:v]setpts=PTS/"@ + t.factor@ + ",fps=30[v];[0:a]"@ + joined(filters, ',') + "[a]"@,
        ]
        &&& values(args, "-map"@) == seq!["[v]"@, "[a]"@]
        &&& values(args, "-r"@) == seq!["30"@]
        &&& args.last() == sanitized(output)
    }
}

proof fn speed_commands(
    input: Seq<char>,
    output: Seq<char>,
    mode: SpeedMode,
    fit: Seq<char>,
)
    ensures
        mode is FitSeconds ==> asks_for_silent_speed(
            ActionView::RunFfmpeg(change_args(input, output, mode, fit)),
            input,
            output,
            fit,
        ),
        mode matches SpeedMode::Factor(t) ==> asks_for_tempo(
            ActionView::RunFfmpeg(change_args(input, output, mode, fit)),
            input,
            output,
            t,
        ) && asks_for_silent_speed(
            ActionView::RunFfmpeg(run_args(input, output, silent_args(t.factor@))),
            input,
            output,
            t.factor@,
        ),
{
    match mode {
        SpeedMode::FitSeconds => {
            fit_divides_by_the_probed_factor(input, output, fit);
            let args = change_args(input, output, SpeedMode::FitSeconds, fit);
            assert(options(args)[3] == "-an"@);
        },
        SpeedMode::Factor(t) => {
            factor_runs_one_graph(input, output, t, fit);
            graph_of_a_tempo(t);
            silent_speed_divides_the_time_stamps(input, output, t.factor@);
            let args = run_args(input, output, silent_args(t.factor@));
            assert(options(args)[3] == "-an"@);
        },
    }
}

/// A change of speed does what it is asked for, step by step. The input must be a
/// file and have a length. A fit divides the time stamps by the factor that the
/// probe gave and drops the sound. A factor changes picture and sound alike; where
/// that fails, the picture alone is changed by the same factor.
pub proof fn speed_step_by_step(
    input: Seq<char>,
    output: Seq<char>,
    mode: SpeedMode,
    before: Seq<ActionView>,
    world: World,
)
    ensures
        ({
            let begun = before.push(ActionView::TestFile(input));
            let job = SpeedJobView { input, output, mode, stage: SpeedStage::Input };
            let end = speed_run(job, begun, world);
            let t = end.actions;
            let b = before.len() as int;
            &&& t.len() > b && t.take(b + 1) == begun
            &&& if !reply(world, t, b).is_yes() {
                t.len() == b + 1 && end.step == StepView::Failed("input not found: "@ + input)
            } else {
                &&& t.len() > b + 1 && t[b + 1] == ActionView::CreateParent(output)
                &&& match reply(world, t, b + 1) {
                    EventView::Failed(m) => t.len() == b + 2 && end.step == StepView::Failed(m),
                    EventView::Done { .. } => {
                        &&& t.len() > b + 2
                        &&& t[b + 2] == match mode {
                            SpeedMode::FitSeconds => ActionView::ProbeFactor(input),
                            SpeedMode::Factor(_) => ActionView::ProbeDuration(input),
                        }
                        &&& match reply(world, t, b + 2) {
                            EventView::Failed(m) => t.len() == b + 3 && end.step
                                == StepView::Failed(m),
                            EventView::Done { text, .. } => {
                                &&& t.len() > b + 3
                                &&& match mode {
                                    SpeedMode::FitSeconds => asks_for_silent_speed(
                                        t[b + 3],
                                        input,
                                        output,
                                        text,
                                    ),
                                    SpeedMode::Factor(tempo) => asks_for_tempo(
                                        t[b + 3],
                                        input,
                                        output,
                                        tempo,
                                    ),
                                }
                                &&& match (reply(world, t, b + 3), mode) {
                                    (EventView::Done { .. }, _) => t.len() == b + 4 && end.step
                                        == StepView::Finished(output),
                                    (EventView::Failed(m), SpeedMode::FitSeconds) => t.len() == b
                                        + 4 && end.step == StepView::Failed(m),
                                    (EventView::Failed(_), SpeedMode::Factor(tempo)) => {
                                        &&& t.len() == b + 5
                                        &&& asks_for_silent_speed(
                                            t[b + 4],
                                            input,
                                            output,
                                            tempo.factor@,
                                        )
                                        &&& end.step == match reply(world, t, b + 4) {
                                            EventView::Done { .. } => StepView::Finished(output),
                                            EventView::Failed(m) => StepView::Failed(m),
                                        }
                                    },
                                }
                            },
                        }
                    },
                }
            }
        }),
{
    speed_keeps_audio_when_possible(input, output, mode, before, world);
    let begun = before.push(ActionView::TestFile(input));
    let job = SpeedJobView { input, output, mode, stage: SpeedStage::Input };
    let end = speed_run(job, begun, world);
    let t = end.actions;
    let b = before.len() as int;
    let made = begun.push(ActionView::CreateParent(output));
    let probed = made.push(crate::speed::speed_probe(input, mode));
    assert(t.take(b + 1) =~= begun);
    if world(begun).is_yes() {
        assert(t.take(b + 2) =~= made);
        if world(made) is Done {
            assert(t.take(b + 3) =~= probed);
            if let EventView::Done { text, .. } = world(probed) {
                speed_commands(input, output, mode, text);
                let run = probed.push(
                    ActionView::RunFfmpeg(change_args(input, output, mode, text)),
                );
                assert(t.take(b + 4) =~= run);
                if world(run) is Failed && mode is Factor {
                    assert(t.take(b + 5) =~= t);
                }
            }
        }
    }
}

// ---------------------------------------------------------------------------
// Conversions
// ---------------------------------------------------------------------------

/// A conversion that ends well has, as the last thing that it did, encoded the
/// input to the output: its primary video stream and, where there is one, its
/// primary audio stream, as the format asks.
pub proof fn conversion_writes_the_format(
    input: Seq<char>,
    folder: Seq<char>,
    format: ConvertFormat,
    name: Option<Seq<char>>,
    before: Seq<ActionView>,
    world: World,
    secs: Option<u64>,
)
    ensures
        ({
            let begun = before.push(ActionView::TestFile(input));
            let end = convert_run(convert_start(input, folder, format, name), begun, world, secs);
            &&& !(end.step is Act)
            &&& end.step matches StepView::Finished(output) ==> {
                &&& world(end.actions) is Done
                &&& end.actions.last() matches ActionView::RunFfmpeg(args) && {
                    &&& values(args, "-i"@) == seq![sanitized(input)]
                    &&& values(args, "-map"@) == seq!["0:v:0"@, "0:a:0?"@]
                    &&& values(args, "-c:v"@) == seq![
                        if format == ConvertFormat::Webm {
                            "libvpx-vp9"@
                        } else {
                            "libx264"@
                        },
                    ]
                    &&& values(args, "-c:a"@) == seq![
                        if format == ConvertFormat::Webm {
                            "libopus"@
                        } else {
                            "aac"@
                        },
                    ]
                    &&& args.last() == sanitized(output)
                }
            }
        }),
{
    converted_output_was_free(input, folder, format, name, before, world, secs);
    let begun = before.push(ActionView::TestFile(input));
    let end = convert_run(convert_start(input, folder, format, name), begun, world, secs);
    if let StepView::Finished(output) = end.step {
        conversion_encodes_for_the_format(input, output, format);
    }
}

// ---------------------------------------------------------------------------
// Frames
// ---------------------------------------------------------------------------

/// An extraction does what it is asked for, step by step: the video must be a
/// file, ffmpeg must start, the frame must be written and must open; it is then
/// removed from disk. Each failure has its own message.
pub proof fn extraction_step_by_step(job: FrameJobView, before: Seq<ActionView>, world: World)
    requires
        job.stage == FrameStage::Source,
    ensures
        ({
            let begun = before.push(ActionView::TestFile(job.path));
            let end = frame_run(job, begun, world);
            let t = end.actions;
            let b = before.len() as int;
            let wide = decimal(
                if job.width < 16 {
                    16
                } else {
                    job.width as nat
                },
            );
            &&& t.len() > b && t.take(b + 1) == begun
            &&& if !reply(world, t, b).is_yes() {
                t.len() == b + 1 && end.step == StepView::Failed("file not found: "@ + job.path)
            } else {
                &&& t.len() > b + 1
                &&& t[b + 1] matches ActionView::StartFfmpeg(args) && {
                    &&& values(args, "-ss"@) == seq![job.time]
                    &&& values(args, "-i"@) == seq![sanitized(job.path)]
                    &&& values(args, "-frames:v"@) == seq!["1"@]
                    &&& values(args, "-vf"@) == seq![
                        "scale="@ + wide + ":-1:force_original_aspect_ratio=decrease"@,
                    ]
                    &&& args.last() == sanitized(job.tmp)
                }
                &&& if reply(world, t, b + 1) is Failed {
                    t.len() == b + 2 && end.step == StepView::Failed(
                        "ffmpeg extract_frame spawn ("@ + job.exe + ")"@,
                    )
                } else {
                    &&& t.len() > b + 2 && t[b + 2] == ActionView::TestExists(job.tmp)
                    &&& if !reply(world, t, b + 2).is_yes() {
                        t.len() == b + 3 && end.step == StepView::Failed(
                            "ffmpeg did not write frame at t="@ + job.time + "s for "@ + job.path,
                        )
                    } else {
                        &&& t.len() > b + 3 && t[b + 3] == ActionView::OpenImage(job.tmp)
                        &&& if reply(world, t, b + 3) is Failed {
                            t.len() == b + 4 && end.step == StepView::Failed(
                                "open extracted frame "@ + job.tmp,
                            )
                        } else {
                            t.len() == b + 5 && t[b + 4] == ActionView::RemoveFile(job.tmp)
                                && end.step == StepView::Finished(job.tmp)
                        }
                    }
                }
            }
        }),
{
    reveal_with_fuel(frame_run, 6);
    extraction_takes_one_frame_at_the_time(job.path, job.time, job.width, job.tmp);
    let begun = before.push(ActionView::TestFile(job.path));
    let end = frame_run(job, begun, world);
    let t = end.actions;
    let b = before.len() as int;
    let run = begun.push(
        ActionView::StartFfmpeg(extraction_args(job.path, job.time, job.width, job.tmp)),
    );
    let written = run.push(ActionView::TestExists(job.tmp));
    let opened = written.push(ActionView::OpenImage(job.tmp));
    assert(t.take(b + 1) =~= begun);
    if world(begun).is_yes() {
        assert(t.take(b + 2) =~= run);
        if world(run) is Done {
            assert(t.take(b + 3) =~= written);
            if world(written).is_yes() {
                assert(t.take(b + 4) =~= opened);
            }
        }
    }
}

} // verus!
