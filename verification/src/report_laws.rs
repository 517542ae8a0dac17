//! Laws of what is read and written as text: the messages and durations of the media
//! tools, and the edit list.
use crate::edl::{
    escaped, json_clip, json_clips, json_text, list_text, status_text, text_clip, text_clips,
    RangeView,
};
use crate::graph_laws::{piece_added, split_lengthened};
use crate::probe::{
    after_ffprobe, after_log, clock_in, clocks_in, failure_text, first_usable, last_of, log_args,
    log_of, tail_of, ClockView, ProbeStepView, Reading,
};
use crate::scan::{after_first, before_first, joined, lines, split_on, trimmed};
use crate::text::decimal;
use crate::text_laws::{decimal_reads_back, lines_are_read_in_order};
use vstd::prelude::*;
use vstd::string::*;

verus! {

// ---------------------------------------------------------------------------
// Why a run failed
// ---------------------------------------------------------------------------

/// The message of a failed run names the status and ends with the last sixteen
/// lines that ffmpeg printed, or with all of them where there are fewer, in order.
pub proof fn failure_shows_the_last_lines(status: Seq<char>, text: Seq<char>)
    ensures
        ({
            let all = lines(text);
            exists|shown: Seq<Seq<char>>|
                {
                    &&& failure_text(status, text) == "ffmpeg failed ("@ + status + ")\n"@
                        + #[trigger] joined(shown, '\n')
                    &&& tail_of(text) == joined(shown, '\n')
                    &&& shown.len() == if all.len() > 16 {
                        16
                    } else {
                        all.len() as int
                    }
                    &&& forall|i: int|
                        0 <= i < shown.len() ==> #[trigger] shown[i] == all[all.len() - shown.len()
                            + i]
                }
        }),
{
    let all = lines(text);
    let shown = last_of(all, 16);
    assert(tail_of(text) == joined(shown, '\n'));
}

// ---------------------------------------------------------------------------
// Durations
// ---------------------------------------------------------------------------

/// A line without the mark gives no duration.
pub proof fn unmarked_line_gives_no_duration(line: Seq<char>)
    requires
        after_first(line, "Duration:"@) is None,
    ensures
        clock_in(line) is None,
{
}

/// The duration of a line is what stands behind the mark and before the next comma,
/// without white space around it, where two colons part it in three: the hours, the
/// minutes and the seconds. With fewer or more colons there is none.
pub proof fn duration_has_three_parts(line: Seq<char>)
    ensures
        after_first(line, "Duration:"@) matches Some(rest) ==> {
            let parts = split_on(trimmed(before_first(rest, ',')), ':');
            &&& clock_in(line) is Some == (parts.len() == 3)
            &&& clock_in(line) matches Some(c) ==> c.hours == trimmed(parts[0]) && c.minutes
                == trimmed(parts[1]) && c.seconds == trimmed(parts[2])
        },
{
}

/// The durations of a log are those of its lines, in order: one for each line that
/// gives one.
pub proof fn durations_come_in_order(a: Seq<Seq<char>>, b: Seq<Seq<char>>, line: Seq<char>)
    ensures
        clocks_in(a + b) == clocks_in(a) + clocks_in(b),
        clocks_in(seq![line]) == match clock_in(line) {
            Some(c) => seq![c],
            None => Seq::<ClockView>::empty(),
        },
        clocks_in(Seq::<Seq<char>>::empty()).len() == 0,
    decreases b.len(),
{
    assert(seq![line].drop_last() =~= Seq::<Seq<char>>::empty());
    reveal_with_fuel(clocks_in, 2);
    assert(clocks_in(Seq::<Seq<char>>::empty()) =~= Seq::<ClockView>::empty());
    if b.len() == 0 {
        assert(a + b =~= a);
        assert(clocks_in(a) + clocks_in(b) =~= clocks_in(a));
    } else {
        durations_come_in_order(a, b.drop_last(), line);
        assert((a + b).drop_last() =~= a + b.drop_last());
        assert((a + b).last() == b.last());
        assert(clocks_in(a + b) =~= clocks_in(a) + clocks_in(b));
    }
}

/// The duration of a log is the first usable one, where no figure that is not a
/// number stands before it.
pub proof fn first_usable_duration_counts<T>(readings: Seq<Reading<T>>)
    ensures
        match first_usable(readings) {
            Some(d) => exists|k: int|
                0 <= k < readings.len() && #[trigger] readings[k] == Reading::Usable(d) && forall|
                    j: int,
                |
                    0 <= j < k ==> #[trigger] readings[j] is Unusable,
            None => forall|k: int|
                0 <= k < readings.len() && #[trigger] readings[k] is Usable ==> exists|j: int|
                    0 <= j < k && #[trigger] readings[j] is NotANumber,
        },
    decreases readings.len(),
{
    if readings.len() > 0 {
        let rest = readings.drop_first();
        match readings[0] {
            Reading::NotANumber => {
                assert forall|k: int|
                    0 <= k < readings.len() && #[trigger] readings[k] is Usable implies exists|
                    j: int,
                |
                    0 <= j < k && #[trigger] readings[j] is NotANumber by {
                    assert(readings[0] is NotANumber);
                }
            },
            Reading::Usable(d) => {
                assert(readings[0] == Reading::Usable(d));
            },
            Reading::Unusable => {
                first_usable_duration_counts(rest);
                match first_usable(rest) {
                    Some(d) => {
                        let k = choose|k: int|
                            0 <= k < rest.len() && #[trigger] rest[k] == Reading::Usable(d)
                                && forall|j: int| 0 <= j < k ==> #[trigger] rest[j] is Unusable;
                        assert(readings[k + 1] == Reading::Usable(d));
                        assert forall|j: int|
                            0 <= j < k + 1 implies #[trigger] readings[j] is Unusable by {
                            if j > 0 {
                                assert(rest[j - 1] == readings[j]);
                            }
                        }
                    },
                    None => {
                        assert forall|k: int|
                            0 <= k < readings.len() && #[trigger] readings[k] is Usable implies exists|
                            j: int,
                        |
                            0 <= j < k && #[trigger] readings[j] is NotANumber by {
                            assert(rest[k - 1] is Usable);
                            let j = choose|j: int|
                                0 <= j < k - 1 && #[trigger] rest[j] is NotANumber;
                            assert(readings[j + 1] is NotANumber);
                        }
                    },
                }
            },
        }
    }
}

/// The log that is made of reported lines is read back line by line.
pub proof fn log_is_read_back(list: Seq<Seq<char>>)
    requires
        forall|i: int|
            0 <= i < list.len() ==> !(#[trigger] list[i]).contains('\n') && (list[i].len() == 0
                || list[i].last() != '\r'),
    ensures
        lines(log_of(list)) == list,
{
    log_is_read_behind(list, Seq::empty());
    assert(log_of(list) + Seq::<char>::empty() =~= log_of(list));
    lines_are_read_in_order(Seq::empty(), Seq::empty());
    assert(list + lines(Seq::<char>::empty()) =~= list);
}

proof fn log_is_read_behind(list: Seq<Seq<char>>, rest: Seq<char>)
    requires
        forall|i: int|
            0 <= i < list.len() ==> !(#[trigger] list[i]).contains('\n') && (list[i].len() == 0
                || list[i].last() != '\r'),
    ensures
        lines(log_of(list) + rest) == list + lines(rest),
    decreases list.len(),
{
    if list.len() == 0 {
        assert(log_of(list) + rest =~= rest);
        assert(list + lines(rest) =~= lines(rest));
    } else {
        let line = list.last();
        let front = list.drop_last();
        assert(list[list.len() - 1] == line);
        assert forall|i: int|
            0 <= i < front.len() implies !(#[trigger] front[i]).contains('\n') && (front[i].len()
            == 0 || front[i].last() != '\r') by {
            assert(front[i] == list[i]);
        }
        let tail = line + seq!['\n'] + rest;
        log_is_read_behind(front, tail);
        lines_are_read_in_order(line, rest);
        assert(log_of(list) + rest =~= log_of(front) + tail);
        assert(list + lines(rest) =~= front + (seq![line] + lines(rest)));
    }
}

/// What follows the run of ffprobe: where it could not be run, an error that names
/// it; where it succeeded with a usable duration, that duration; and else the log
/// of ffmpeg is read.
pub proof fn ffprobe_is_asked_first<T>(
    path: Seq<char>,
    exe: Seq<char>,
    ran: Option<bool>,
    reading: Reading<T>,
)
    ensures
        ran is None ==> after_ffprobe(path, exe, ran, reading) == ProbeStepView::<T>::Failed(
            "ffprobe spawn failed ("@ + exe + ")"@,
        ),
        ran == Some(true) ==> (reading matches Reading::Usable(d) ==> after_ffprobe(
            path,
            exe,
            ran,
            reading,
        ) == ProbeStepView::Found(d)),
        ran is Some && (ran == Some(false) || !(reading is Usable)) ==> after_ffprobe(
            path,
            exe,
            ran,
            reading,
        ) == ProbeStepView::<T>::ReadLog(log_args(path)),
{
}

/// What follows the log of ffmpeg: its duration, or an error that names the file.
pub proof fn log_decides<T>(path: Seq<char>, readings: Option<Seq<Reading<T>>>)
    ensures
        readings is None ==> after_log(path, readings) == ProbeStepView::<T>::Failed(
            "ffmpeg duration probe spawn"@,
        ),
        readings matches Some(list) ==> match first_usable(list) {
            Some(d) => after_log(path, readings) == ProbeStepView::Found(d),
            None => after_log(path, readings) == ProbeStepView::<T>::Failed(
                "could not probe duration for "@ + path
                    + " (put ffmpeg.exe + ffprobe.exe in engine/)"@,
            ),
        },
{
}

// ---------------------------------------------------------------------------
// The edit list
// ---------------------------------------------------------------------------

/// A time as it stands in an edit list: it holds no mark of the list.
pub open spec fn is_time(s: Seq<char>) -> bool {
    !s.contains('{') && !s.contains('\n')
}

proof fn nowhere(a: Seq<char>, b: Seq<char>, c: char)
    requires
        !a.contains(c),
        !b.contains(c),
    ensures
        !(a + b).contains(c),
{
    assert forall|i: int| 0 <= i < (a + b).len() implies (a + b)[i] != c by {
        if i < a.len() {
            assert(a.contains(a[i]));
        } else {
            assert(b.contains(b[i - a.len()]));
        }
    }
}

/// What stands in the JSON edit list behind the bracket that opens a clip.
pub open spec fn opened_clip(r: RangeView, is_last: bool) -> Seq<char> {
    "\"start\": "@ + r.start + ", \"end\": "@ + r.end + (if is_last {
        "}"@
    } else {
        "},\n    "@
    })
}

proof fn opened_clip_is_whole(r: RangeView, is_last: bool)
    requires
        is_time(r.start),
        is_time(r.end),
    ensures
        !opened_clip(r, is_last).contains('{'),
{
    reveal_strlit("\"start\": ");
    reveal_strlit(", \"end\": ");
    reveal_strlit("}");
    reveal_strlit("},\n    ");
    nowhere("\"start\": "@, r.start, '{');
    nowhere("\"start\": "@ + r.start, ", \"end\": "@, '{');
    nowhere("\"start\": "@ + r.start + ", \"end\": "@, r.end, '{');
    nowhere(
        "\"start\": "@ + r.start + ", \"end\": "@ + r.end,
        if is_last {
            "}"@
        } else {
            "},\n    "@
        },
        '{',
    );
}

/// The pieces of the clips of a JSON edit list between the brackets that open
/// them: one for each clip, in order, with its start and its end.
pub proof fn json_lists_every_clip(list: Seq<RangeView>)
    requires
        list.len() > 0,
        forall|i: int|
            0 <= i < list.len() ==> is_time((#[trigger] list[i]).start) && is_time(list[i].end),
    ensures
        ({
            let pieces = split_on(json_clips(list), '{');
            &&& pieces.len() == list.len() + 1
            &&& pieces[0] == "\n    "@
            &&& forall|i: int|
                0 <= i < list.len() ==> pieces[i + 1] == "\"start\": "@ + (#[trigger] list[i]).start
                    + ", \"end\": "@ + list[i].end + (if i == list.len() - 1 {
                    "}"@
                } else {
                    "},\n    "@
                })
        }),
    decreases list.len(),
{
    reveal_strlit("\n    ");
    reveal_strlit("\n    {\"start\": ");
    reveal_strlit("\"start\": ");
    reveal_strlit("}");
    reveal_strlit("},\n    ");
    let n = list.len();
    let x = list.last();
    assert(list[n - 1] == x);
    let mark = "\n    "@;
    let last = opened_clip(x, true);
    assert(!mark.contains('{'));
    assert("\n    {\"start\": "@ =~= mark + seq!['{'] + "\"start\": "@);
    assert(json_clip(x) =~= mark + seq!['{'] + last);
    opened_clip_is_whole(x, true);
    let all = json_clips(list);
    let pieces = split_on(all, '{');
    if n == 1 {
        crate::scan::split_without_separator(mark, '{');
        crate::scan::split_after_separator(mark, last, '{');
        assert(all == json_clip(list[0]));
        assert(pieces =~= seq![mark, last]);
    } else {
        let front = list.drop_last();
        assert forall|i: int| 0 <= i < front.len() implies is_time((#[trigger] front[i]).start)
            && is_time(front[i].end) by {
            assert(front[i] == list[i]);
        }
        json_lists_every_clip(front);
        let s = json_clips(front);
        let before = split_on(s, '{');
        let comma = seq![','] + mark;
        assert(!comma.contains('{'));
        split_lengthened(s, comma, '{');
        crate::scan::split_after_separator(s + comma, last, '{');
        assert(all =~= s + comma + seq!['{'] + last);
        assert(pieces == before.drop_last().push(before.last() + comma).push(last));
        let y = list[n - 2];
        assert(front[n - 2] == y);
        assert(before.last() == before[n - 1]);
        assert("}"@ + comma =~= "},\n    "@);
        assert(before.last() + comma =~= "\"start\": "@ + y.start + ", \"end\": "@ + y.end
            + "},\n    "@);
        assert forall|i: int| 0 <= i < n implies pieces[i + 1] == "\"start\": "@ + (
        #[trigger] list[i]).start + ", \"end\": "@ + list[i].end + (if i == n - 1 {
            "}"@
        } else {
            "},\n    "@
        }) by {
            if i < n - 2 {
                assert(front[i] == list[i]);
                assert(pieces[i + 1] == before[i + 1]);
            }
        }
    }
}

/// The JSON edit list gives the source, its duration, the assembled duration, the
/// clips, and the time of the export, each under its key.
pub proof fn json_gives_every_field(
    source: Seq<char>,
    duration: Seq<char>,
    assembled: Seq<char>,
    list: Seq<RangeView>,
    secs: nat,
)
    ensures
        json_text(source, duration, assembled, list, secs) == "{\n  \"source\": \""@ + escaped(
            source,
        ) + "\",\n  \"source_duration\": "@ + duration + ",\n  \"assembled_duration\": "@
            + assembled + ",\n  \"clips\": ["@ + json_clips(list)
            + " \n  ],\n  \"exported_at\": "@ + decimal(secs)
            + ",\n  \"engine\": \"ffmpeg-local\",\n  \"note\": \"Non-destructive edit list. Use Export Video for a remuxed .mp4 of kept ranges.\"\n}"@,
        list.len() == 0 ==> json_clips(list).len() == 0,
{
}

/// The lines of the clips of a text edit list: one for each clip, in order and
/// numbered from zero, with its start, its end and its length.
pub proof fn text_lists_every_clip(list: Seq<RangeView>)
    requires
        forall|i: int|
            0 <= i < list.len() ==> is_time((#[trigger] list[i]).start) && is_time(list[i].end)
                && is_time(list[i].length),
    ensures
        ({
            let pieces = split_on(text_clips(list), '\n');
            &&& pieces.len() == list.len() + 1
            &&& pieces.last().len() == 0
            &&& forall|i: int|
                0 <= i < list.len() ==> pieces[i] == "Clip "@ + decimal(i as nat) + ": "@ + (
                #[trigger] list[i]).start + "s - "@ + list[i].end + "s (dur "@ + list[i].length
                    + "s)"@
        }),
    decreases list.len(),
{
    let pieces = split_on(text_clips(list), '\n');
    if list.len() == 0 {
        assert(text_clips(list) =~= Seq::<char>::empty());
        assert(pieces =~= seq![Seq::<char>::empty()]);
    } else {
        let front = list.drop_last();
        let x = list.last();
        let n = (list.len() - 1) as nat;
        assert(list[n as int] == x);
        assert forall|i: int| 0 <= i < front.len() implies is_time((#[trigger] front[i]).start)
            && is_time(front[i].end) && is_time(front[i].length) by {
            assert(front[i] == list[i]);
        }
        text_lists_every_clip(front);
        let s = text_clips(front);
        let before = split_on(s, '\n');
        reveal_strlit("Clip ");
        reveal_strlit(": ");
        reveal_strlit("s - ");
        reveal_strlit("s (dur ");
        reveal_strlit("s)\n");
        reveal_strlit("s)");
        let line = "Clip "@ + decimal(n) + ": "@ + x.start + "s - "@ + x.end + "s (dur "@ + x.length
            + "s)"@;
        decimal_reads_back(n);
        assert(!decimal(n).contains('\n'));
        nowhere("Clip "@, decimal(n), '\n');
        nowhere("Clip "@ + decimal(n), ": "@, '\n');
        nowhere("Clip "@ + decimal(n) + ": "@, x.start, '\n');
        nowhere("Clip "@ + decimal(n) + ": "@ + x.start, "s - "@, '\n');
        nowhere("Clip "@ + decimal(n) + ": "@ + x.start + "s - "@, x.end, '\n');
        nowhere("Clip "@ + decimal(n) + ": "@ + x.start + "s - "@ + x.end, "s (dur "@, '\n');
        nowhere(
            "Clip "@ + decimal(n) + ": "@ + x.start + "s - "@ + x.end + "s (dur "@,
            x.length,
            '\n',
        );
        nowhere(
            "Clip "@ + decimal(n) + ": "@ + x.start + "s - "@ + x.end + "s (dur "@ + x.length,
            "s)"@,
            '\n',
        );
        assert("s)\n"@ =~= "s)"@ + seq!['\n']);
        assert(text_clip(n, x) =~= line + seq!['\n']);
        let rows = before.drop_last();
        assert(before =~= rows.push(Seq::<char>::empty())) by {
            assert(before.last() =~= Seq::<char>::empty());
        }
        piece_added(s, rows, line, '\n');
        assert(text_clips(list) =~= s + line + seq!['\n']);
        assert(pieces == rows.push(line).push(Seq::empty()));
        assert forall|i: int| 0 <= i < list.len() implies pieces[i] == "Clip "@ + decimal(i as nat)
            + ": "@ + (#[trigger] list[i]).start + "s - "@ + list[i].end + "s (dur "@
            + list[i].length + "s)"@ by {
            if i < n {
                assert(front[i] == list[i]);
                assert(pieces[i] == before[i]);
            }
        }
    }
}

/// The text edit list gives the source, its duration, the assembled duration and
/// the clips, in this order.
pub proof fn text_gives_every_field(
    source: Seq<char>,
    duration: Seq<char>,
    assembled: Seq<char>,
    list: Seq<RangeView>,
)
    ensures
        list_text(source, duration, assembled, list) == "Source: "@ + source
            + "\nSource duration: "@ + duration + "s\nAssembled (edited) duration: "@ + assembled
            + "s\nEngine: local ffmpeg\n\nKept clip list (EDL):\n"@ + text_clips(list),
{
}

/// The status line tells how many clips there are and how many are selected, and
/// the assembled duration, and speaks of the clipboard exactly where it holds
/// clips.
pub proof fn status_tells_the_counts(
    clips: nat,
    assembled: Seq<char>,
    selected: nat,
    clipboard: bool,
)
    ensures
        ({
            let head = "Clips: "@ + decimal(clips) + "  |  Assembled: "@ + assembled
                + "s  |  Selected: "@ + decimal(selected) + "  |  local ffmpeg"@;
            let tail = "  |  Ctrl+Z: undo | Ctrl+D: duplicate | Arrows: nav"@;
            status_text(clips, assembled, selected, clipboard) == if clipboard {
                head + "  |  Clipboard has clips (Ctrl+V to paste | Ctrl+C copy)"@ + tail
            } else {
                head + tail
            }
        }),
{
    let head = "Clips: "@ + decimal(clips) + "  |  Assembled: "@ + assembled + "s  |  Selected: "@
        + decimal(selected) + "  |  local ffmpeg"@;
    assert(head + Seq::<char>::empty() =~= head);
}

} // verus!
