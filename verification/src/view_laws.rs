//! Laws of the models: what the content of a value says of its fields, and what a
//! reply and a finished job mean.
use crate::add_audio::{AddAudioView, AudioStageView};
use crate::concat::{ConcatJobView, ConcatStage};
use crate::convert::{ConvertJobView, ConvertStageView};
use crate::edl::{range_views, RangeText};
use crate::export::{
    export_start, segment_paths, segment_views, ExportStage, ExportView, Segment, SegmentView,
};
use crate::frames::{frame_view, frame_views, rows, Frame, FrameJobView, FrameStage};
use crate::jobs::{Action, ActionView, Event, EventView, Step, StepView};
use crate::kit::{place_views, Place, PlaceView, ToolStep, ToolStepView};
use crate::naming::{NameStep, NameStepView};
use crate::panel::ConcatPanel;
use crate::probe::{clock_views, ClockText, ProbeStep, ProbeStepView};
use crate::speed::{SpeedJobView, SpeedStage};
use crate::text::{opt_text, str_texts, texts};
use crate::timeline::{EditorView, VideoProject};
use vstd::prelude::*;
use vstd::string::*;

verus! {

/// The content of a list is that of its entries, one by one and in order.
pub proof fn lists_are_shown_entry_by_entry<A>(
    t: Seq<String>,
    s: Seq<&str>,
    r: Seq<RangeText>,
    g: Seq<Segment>,
    p: Seq<Place>,
    c: Seq<ClockText>,
    f: Seq<Option<Frame>>,
    w: Seq<Vec<A>>,
    i: int,
)
    ensures
        texts(t).len() == t.len() && (0 <= i < t.len() ==> texts(t)[i] == t[i]@),
        str_texts(s).len() == s.len() && (0 <= i < s.len() ==> str_texts(s)[i] == s[i]@),
        range_views(r).len() == r.len() && (0 <= i < r.len() ==> range_views(r)[i] == r[i]@),
        segment_views(g).len() == g.len() && (0 <= i < g.len() ==> segment_views(g)[i] == g[i]@),
        place_views(p).len() == p.len() && (0 <= i < p.len() ==> place_views(p)[i] == p[i]@),
        clock_views(c).len() == c.len() && (0 <= i < c.len() ==> clock_views(c)[i] == c[i]@),
        frame_views(f).len() == f.len() && (0 <= i < f.len() ==> frame_views(f)[i] == frame_view(
            f[i],
        )),
        rows(w).len() == w.len() && (0 <= i < w.len() ==> rows(w)[i] == w[i]@),
{
}

/// The content of an optional value is that of the value, if there is one.
pub proof fn options_are_shown(t: Option<String>, f: Option<Frame>)
    ensures
        t is None ==> opt_text(t) is None,
        t matches Some(s) ==> opt_text(t) == Some(s@),
        f is None ==> frame_view(f) is None,
        f matches Some(x) ==> frame_view(f) == Some(x@),
{
}

/// The content of ranges, segments, clock texts and projects is that of their
/// fields.
pub proof fn records_are_shown_field_by_field<T>(
    r: RangeText,
    g: Segment,
    c: ClockText,
    p: VideoProject<T>,
    s: Seq<SegmentView>,
    i: int,
)
    ensures
        r@.start == r.start@ && r@.end == r.end@ && r@.length == r.length@,
        g@.start == g.start@ && g@.end == g.end@ && g@.path == g.path@,
        c@.hours == c.hours@ && c@.minutes == c.minutes@ && c@.seconds == c.seconds@,
        p@.source_path == p.source_path@ && p@.duration == p.duration && p@.clips == p.clips@,
        segment_paths(s).len() == s.len(),
        0 <= i < s.len() ==> segment_paths(s)[i] == s[i].path,
{
}

/// The content of the Concat panel is that of its fields.
pub proof fn panel_is_shown_field_by_field(p: ConcatPanel)
    ensures
        p@.files == texts(p.files@),
        p@.selected == p.selected_index,
        p@.audio == opt_text(p.audio_path),
        p@.reverse_order == p.reverse_order,
        p@.reverse_video == p.reverse_video,
        p@.reverse_audio == p.reverse_audio,
        p@.speed_95 == p.speed_95,
        p@.format == p.convert_fmt,
        p@.status == p.status@,
        p@.busy == p.busy,
        p@.wf() == (p.selected_index matches Some(i) ==> i < p.files@.len()),
{
}

/// The timeline has as many clips as its project, and none without one.
pub proof fn clips_are_counted<T>(e: EditorView<T>)
    ensures
        e.project is None ==> e.clip_count() == 0,
        e.project matches Some(p) ==> e.clip_count() == p.clips.len(),
{
}

/// The content of an action is the action with its texts.
pub proof fn actions_are_shown(a: Action)
    ensures
        match a {
            Action::CreateParent(p) => a@ == ActionView::CreateParent(p@),
            Action::CreateFolder(p) => a@ == ActionView::CreateFolder(p@),
            Action::TestFile(p) => a@ == ActionView::TestFile(p@),
            Action::TestExists(p) => a@ == ActionView::TestExists(p@),
            Action::ProbeDuration(p) => a@ == ActionView::ProbeDuration(p@),
            Action::ProbeFactor(p) => a@ == ActionView::ProbeFactor(p@),
            Action::LookUp { folder, name } => a@ == (ActionView::LookUp {
                folder: folder@,
                name: name@,
            }),
            Action::WriteFile { path, body } => a@ == (ActionView::WriteFile {
                path: path@,
                body: body@,
            }),
            Action::RunFfmpeg(args) => a@ == ActionView::RunFfmpeg(texts(args@)),
            Action::StartFfmpeg(args) => a@ == ActionView::StartFfmpeg(texts(args@)),
            Action::OpenImage(p) => a@ == ActionView::OpenImage(p@),
            Action::RemoveFile(p) => a@ == ActionView::RemoveFile(p@),
        },
{
}

/// The content of a reply is the reply with its text, and it says yes exactly
/// where the action succeeded and its question was answered with yes.
pub proof fn replies_are_shown(e: Event)
    ensures
        match e {
            Event::Failed(m) => e@ == EventView::Failed(m@) && !e@.is_yes(),
            Event::Done { yes, text } => e@ == (EventView::Done { yes, text: text@ })
                && e@.is_yes() == yes,
        },
{
}

/// The content of a step is the step with its texts.
pub proof fn steps_are_shown<T>(
    s: Step,
    n: NameStep,
    t: ToolStep,
    p: Place,
    q: ProbeStep<T>,
)
    ensures
        match s {
            Step::Act(a) => s@ == StepView::Act(a@),
            Step::Finished(x) => s@ == StepView::Finished(x@),
            Step::Failed(m) => s@ == StepView::Failed(m@),
        },
        match n {
            NameStep::Check(x) => n@ == NameStepView::Check(x@),
            NameStep::Take(x) => n@ == NameStepView::Take(x@),
        },
        match t {
            ToolStep::Test(x) => t@ == ToolStepView::Test(x@),
            ToolStep::Use(x) => t@ == ToolStepView::Use(x@),
        },
        match p {
            Place::At(x) => p@ == PlaceView::At(x@),
            Place::In { folder, name } => p@ == (PlaceView::In { folder: folder@, name: name@ }),
        },
        match q {
            ProbeStep::ReadLog(args) => q@ == ProbeStepView::<T>::ReadLog(texts(args@)),
            ProbeStep::Found(d) => q@ == ProbeStepView::Found(d),
            ProbeStep::Failed(m) => q@ == ProbeStepView::<T>::Failed(m@),
        },
{
}

/// A job that has ended asks for nothing more: whatever it is told, it stays as it
/// is and says that it has ended.
pub proof fn ended_jobs_stay_ended(
    concat: ConcatJobView,
    audio: AddAudioView,
    speed: SpeedJobView,
    convert: ConvertJobView,
    frame: FrameJobView,
    export: ExportView,
    event: EventView,
    secs: Option<u64>,
)
    ensures
        ({
            let ended = StepView::Failed("the job has ended"@);
            &&& concat.stage == ConcatStage::Over ==> concat.after(event) == (concat, ended)
            &&& audio.stage == AudioStageView::Over ==> audio.after(event) == (audio, ended)
            &&& speed.stage == SpeedStage::Over ==> speed.after(event) == (speed, ended)
            &&& convert.stage == ConvertStageView::Over ==> convert.after(event, secs) == (
                convert,
                ended,
            )
            &&& frame.stage == FrameStage::Over ==> frame.after(event) == (frame, ended)
            &&& export.stage == ExportStage::Over ==> export.after(event) == (export, ended)
        }),
{
    assert(concat.stage == ConcatStage::Over ==> concat.at(ConcatStage::Over) =~= concat);
    assert(audio.stage == AudioStageView::Over ==> audio.at(AudioStageView::Over) =~= audio);
    assert(frame.stage == FrameStage::Over ==> frame.at(FrameStage::Over) =~= frame);
    assert(export.stage == ExportStage::Over ==> export.at(ExportStage::Over) =~= export);
}

/// A conversion looks its names up in its folder.
pub proof fn names_are_looked_up_in_the_folder(job: ConvertJobView, name: Seq<char>)
    ensures
        job.look_up(name) == (ActionView::LookUp { folder: job.folder, name }),
{
}

/// An export of nothing fails at once.
pub proof fn nothing_to_export(source: Seq<char>, output: Seq<char>, list: Seq<char>)
    ensures
        export_start(source, Seq::empty(), output, list).cutting(0).1 == StepView::Failed(
            "No segments created for export (ffmpeg failed?)"@,
        ),
{
}

} // verus!
