//! Laws of the window: the clip list of the Concat panel, what its jobs work on, and
//! playback.
use crate::panel::{done_text, JobKind, PanelView};
use crate::transport::TransportView;
use vstd::prelude::*;
use vstd::string::*;

verus! {

// ---------------------------------------------------------------------------
// The clip list
// ---------------------------------------------------------------------------

/// Moving the selected entry up exchanges it with the one above it, and the
/// selection goes with it; the first entry and a list without selection stay as
/// they are. Nothing else of the panel changes.
pub proof fn moving_up_exchanges_with_the_one_above(p: PanelView)
    requires
        p.wf(),
    ensures
        p.selected is None || p.selected == Some(0usize) ==> p.moved_up() == p,
        p.selected matches Some(i) ==> i > 0 ==> {
            let after = p.moved_up();
            &&& after.selected == Some((i - 1) as usize)
            &&& after.files.len() == p.files.len()
            &&& after.files[i - 1] == p.files[i as int]
            &&& after.files[i as int] == p.files[i - 1]
            &&& forall|j: int|
                0 <= j < p.files.len() && j != i && j != i - 1 ==> #[trigger] after.files[j]
                    == p.files[j]
            &&& after == (PanelView { files: after.files, selected: after.selected, ..p })
        },
{
}

/// Moving the selected entry down exchanges it with the one below it, and the
/// selection goes with it; the last entry and a list without selection stay as
/// they are. Nothing else of the panel changes.
pub proof fn moving_down_exchanges_with_the_one_below(p: PanelView)
    requires
        p.wf(),
        p.files.len() <= usize::MAX,
    ensures
        p.selected is None ==> p.moved_down() == p,
        p.selected matches Some(i) ==> {
            let after = p.moved_down();
            &&& i + 1 == p.files.len() ==> after == p
            &&& i + 1 < p.files.len() ==> {
                &&& after.selected == Some((i + 1) as usize)
                &&& after.files.len() == p.files.len()
                &&& after.files[i + 1] == p.files[i as int]
                &&& after.files[i as int] == p.files[i + 1]
                &&& forall|j: int|
                    0 <= j < p.files.len() && j != i && j != i + 1 ==> #[trigger] after.files[j]
                        == p.files[j]
                &&& after == (PanelView { files: after.files, selected: after.selected, ..p })
            }
        },
{
}

/// A new list is taken as it is, with nothing selected; the options and the track
/// stay.
pub proof fn new_list_is_taken(p: PanelView, files: Seq<Seq<char>>, status: Seq<char>)
    ensures
        p.listing(files, status) == (PanelView { files, selected: None, status, ..p }),
        p.saying(status) == (PanelView { status, ..p }),
{
}

/// A job starts exactly where none is running, and the panel is then busy; where
/// one is running, the status line says so and nothing else changes.
pub proof fn job_starts_when_none_is_running(p: PanelView, status: Seq<char>)
    ensures
        !p.busy ==> p.starting(status) == (PanelView { busy: true, status, ..p }),
        p.busy ==> p.starting(status) == (PanelView {
            status: "Busy — wait for current job"@,
            ..p
        }),
{
}

// ---------------------------------------------------------------------------
// What the jobs work on
// ---------------------------------------------------------------------------

/// What Speed works on. A selected clip is the one, or there is none where it is
/// no file. Without a selection a factor takes the first clip of the list where
/// that is a file; in all other cases the newest output is taken.
pub proof fn speed_works_on_the_selected(p: PanelView, is_file: bool, latest: Option<Seq<char>>)
    requires
        p.wf(),
    ensures
        p.selected matches Some(i) ==> p.speed_clip() == Some(p.files[i as int]) && p.speed_input(
            is_file,
            latest,
        ) == if is_file {
            Some(p.files[i as int])
        } else {
            None
        },
        p.selected is None && (p.speed_95 || p.files.len() == 0) ==> p.speed_clip() is None
            && p.speed_input(is_file, latest) == latest,
        p.selected is None && !p.speed_95 && p.files.len() > 0 ==> p.speed_clip() == Some(
            p.files[0],
        ) && p.speed_input(is_file, latest) == if is_file {
            Some(p.files[0])
        } else {
            latest
        },
{
}

/// Convert works on the selected clip, without a selection on the first one, and
/// on nothing where the list is empty.
pub proof fn convert_works_on_the_selected(p: PanelView)
    requires
        p.wf(),
    ensures
        p.selected matches Some(i) ==> p.convert_clip() == Some(p.files[i as int]),
        p.selected is None && p.files.len() > 0 ==> p.convert_clip() == Some(p.files[0]),
        p.files.len() == 0 ==> p.convert_clip() is None,
{
}

/// The message of a job that has ended well names the job and the output.
pub proof fn done_names_the_job(output: Seq<char>)
    ensures
        done_text(JobKind::Concat, output) == "CONCAT done → "@ + output,
        done_text(JobKind::AddAudio, output) == "Add Audio done → "@ + output,
        done_text(JobKind::Speed, output) == "Speed done → "@ + output,
        done_text(JobKind::Convert, output) == "Convert done → "@ + output,
{
}

// ---------------------------------------------------------------------------
// Playback
// ---------------------------------------------------------------------------

/// Stopping ends playing and all winding.
pub proof fn stopping_ends_everything(t: TransportView)
    ensures
        !t.halted().playing && !t.halted().ffwd && !t.halted().rewind,
        t.halted().restart == t.restart,
{
}

/// The rewind button begins to wind back where that was not so, which begins to
/// play and ends winding forward; pressed again it ends winding back and playing
/// goes on.
pub proof fn rewind_button(t: TransportView)
    requires
        t.wf(),
    ensures
        t.rewind_toggled().rewind == !t.rewind,
        !t.rewind ==> t.rewind_toggled().playing && !t.rewind_toggled().ffwd,
        t.rewind ==> t.rewind_toggled().playing == t.playing && t.rewind_toggled().ffwd == t.ffwd,
        t.rewind_toggled().restart == t.restart,
{
}

/// The fast forward button begins to wind forward where that was not so, which
/// begins to play and ends winding back; pressed again it ends winding forward and
/// playing goes on.
pub proof fn forward_button(t: TransportView)
    requires
        t.wf(),
    ensures
        t.ffwd_toggled().ffwd == !t.ffwd,
        !t.ffwd ==> t.ffwd_toggled().playing && !t.ffwd_toggled().rewind,
        t.ffwd ==> t.ffwd_toggled().playing == t.playing && t.ffwd_toggled().rewind == t.rewind,
        t.ffwd_toggled().restart == t.restart,
{
}

/// The play button begins to play, with the sound restarted at the playhead, or
/// ends playing and all winding.
pub proof fn play_button(t: TransportView)
    requires
        t.wf(),
    ensures
        t.play_toggled().playing == !t.playing,
        !t.playing ==> t.play_toggled().restart && t.play_toggled().ffwd == t.ffwd
            && t.play_toggled().rewind == t.rewind,
        t.playing ==> !t.play_toggled().ffwd && !t.play_toggled().rewind
            && t.play_toggled().restart == t.restart,
{
}

/// The playhead moves three seconds back in a second while winding back, five
/// forward while winding forward, and one else. The preview follows after 25
/// milliseconds while winding, 90 while playing and 500 at rest.
pub proof fn speeds_of_playback(t: TransportView)
    requires
        t.wf(),
    ensures
        t.rewind ==> t.rate() == -3 && t.throttle() == 25,
        t.ffwd ==> t.rate() == 5 && t.throttle() == 25,
        !t.rewind && !t.ffwd ==> t.rate() == 1,
        !t.rewind && !t.ffwd && t.playing ==> t.throttle() == 90,
        !t.playing ==> t.throttle() == 500,
{
}

} // verus!
