//! Reading what the media tools print: why a run failed, how long a file is,
//! and the project that is made of it.
use crate::paths::{sanitize_path, sanitized};
use crate::scan::{
    after_first, before_first, find_after, joined, lines, split_after_separator, split_chars,
    split_lines, split_on, split_on_joined, split_text, split_without_separator, starts_with,
    trim_start, trim_text, trimmed,
};
use crate::text::{join2, join3, owned, push_texts, texts, to_chars};
use crate::timeline::{Clip, ProjectView, VideoProject};
use vstd::prelude::*;
use vstd::string::*;
use vstd::utf8::{decode_utf8, valid_utf8};

verus! {

/// How many lines of what ffmpeg printed go into an error message.
pub const TAIL_LINES: usize = 16;

// ---------------------------------------------------------------------------
// Printed bytes
// ---------------------------------------------------------------------------

/// The text that `String::from_utf8_lossy` makes of bytes.
pub uninterp spec fn lossy_utf8(bytes: Seq<u8>) -> Seq<char>;

/// The text of bytes, by `String::from_utf8_lossy`: where the bytes are valid
/// UTF-8 it is the text that they encode. What stands for invalid bytes is left
/// to that function, and named only.
#[verifier::external_body]
pub(crate) fn decode_lossy(bytes: &Vec<u8>) -> (r: String)
    ensures
        r@ == lossy_utf8(bytes@),
        valid_utf8(bytes@) ==> r@ == decode_utf8(bytes@),
{
    String::from_utf8_lossy(bytes).into_owned()
}

// ---------------------------------------------------------------------------
// Why a run failed
// ---------------------------------------------------------------------------

/// The last `n` entries of a list, or all of it.
pub open spec fn last_of(list: Seq<Seq<char>>, n: nat) -> Seq<Seq<char>> {
    if list.len() > n {
        list.skip(list.len() - n)
    } else {
        list
    }
}

/// The end of a text: its last lines, without the ending of the very last.
pub open spec fn tail_of(text: Seq<char>) -> Seq<char> {
    joined(last_of(lines(text), TAIL_LINES as nat), '\n')
}

/// Joins the entries of a list from position `from` on.
fn join_from(list: &Vec<String>, from: usize, sep: char) -> (r: String)
    requires
        from <= list@.len(),
    ensures
        r@ == joined(texts(list@).skip(from as int), sep),
{
    let ghost all = texts(list@).skip(from as int);
    let mut r = String::new();
    assert(r@ =~= joined(all.take(0), sep));
    for i in from..list.len()
        invariant
            from <= list@.len(),
            all == texts(list@).skip(from as int),
            r@ == joined(all.take(i - from), sep),
    {
        let ghost before = all.take(i - from);
        let ghost after = all.take(i - from + 1);
        assert(after.drop_last() =~= before);
        assert(after.last() == list@[i as int]@);
        if i > from {
            r.push(sep);
        } else {
            assert(before =~= Seq::<Seq<char>>::empty());
        }
        r.append(list[i].as_str());
        assert(r@ =~= joined(after, sep));
    }
    assert(all.take(list@.len() - from) =~= all);
    r
}

/// The end of a text: its last lines, without the ending of the very last.
pub fn stderr_tail(text: &str) -> (r: String)
    ensures
        r@ == tail_of(text@),
{
    let all = split_lines(text);
    let n: usize = all.len();
    assert(texts(all@).len() == n);
    let from: usize = if n > TAIL_LINES { n - TAIL_LINES } else { 0 };
    assert(from == 0 ==> texts(all@).skip(0) =~= texts(all@));
    join_from(&all, from, '\n')
}

/// The message of a run of ffmpeg that ended with `status` and printed `text`.
pub open spec fn failure_text(status: Seq<char>, text: Seq<char>) -> Seq<char> {
    "ffmpeg failed ("@ + status + ")\n"@ + tail_of(text)
}

/// The message of a run of ffmpeg that ended with `status` and printed `text`.
pub fn failure_message(status: &str, text: &str) -> (r: String)
    ensures
        r@ == failure_text(status@, text@),
{
    let head = join3("ffmpeg failed (", status, ")\n");
    join2(head.as_str(), stderr_tail(text).as_str())
}

/// What a run of ffmpeg came to: nothing to say where it succeeded, and a
/// message with the end of what it printed where it did not.
pub fn run_ffmpeg(success: bool, status: &str, stderr: &Vec<u8>) -> (r: Result<(), String>)
    ensures
        match r {
            Ok(_) => success,
            Err(m) => !success && m@ == failure_text(status@, lossy_utf8(stderr@)),
        },
{
    if success {
        Ok(())
    } else {
        Err(failure_message(status, decode_lossy(stderr).as_str()))
    }
}

// ---------------------------------------------------------------------------
// Durations by ffprobe
// ---------------------------------------------------------------------------

/// A number read from text, as far as it serves as a duration: a duration is
/// finite and greater than zero.
pub enum Reading<T> {
    NotANumber,
    Unusable,
    Usable(T),
}

/// The arguments that make ffprobe print the duration of a file and nothing
/// else.
pub open spec fn duration_args(path: Seq<char>) -> Seq<Seq<char>> {
    seq![
        "-v"@,
        "error"@,
        "-show_entries"@,
        "format=duration"@,
        "-of"@,
        "default=noprint_wrappers=1:nokey=1"@,
        sanitized(path),
    ]
}

/// Builds the arguments that make ffprobe print the duration of a file.
pub fn probe_args(path: &str) -> (args: Vec<String>)
    ensures
        texts(args@) == duration_args(path@),
{
    let clean = sanitize_path(path);
    let mut args: Vec<String> = Vec::new();
    push_texts(
        &mut args,
        vec![
            "-v",
            "error",
            "-show_entries",
            "format=duration",
            "-of",
            "default=noprint_wrappers=1:nokey=1",
            clean.as_str(),
        ],
    );
    assert(texts(args@) =~= duration_args(path@));
    args
}

/// The text that ffprobe printed, without white space around it.
pub fn probe_text(stdout: &Vec<u8>) -> (r: String)
    ensures
        r@ == trimmed(lossy_utf8(stdout@)),
{
    trim_text(decode_lossy(stdout).as_str())
}

/// The duration of a media file. `success` is nothing where ffprobe could not
/// be run, `text` is what it printed, and `reading` is what was read from that.
pub fn probe_duration<T>(path: &str, success: Option<bool>, text: &str, reading: Reading<T>) -> (r:
    Result<T, String>)
    ensures
        match r {
            Ok(d) => success == Some(true) && reading == Reading::Usable(d),
            Err(m) => match (success, reading) {
                (None, _) => m@ == "ffprobe duration"@,
                (Some(false), _) => m@ == "ffprobe failed for "@ + path@,
                (Some(true), Reading::NotANumber) => m@ == "parse duration '"@ + text@ + "' for "@
                    + path@,
                (Some(true), Reading::Unusable) => m@ == "invalid duration for "@ + path@,
                (Some(true), Reading::Usable(_)) => false,
            },
        },
{
    match success {
        None => Err(owned("ffprobe duration")),
        Some(false) => Err(join2("ffprobe failed for ", path)),
        Some(true) => match reading {
            Reading::NotANumber => {
                let head = join3("parse duration '", text, "' for ");
                Err(join2(head.as_str(), path))
            },
            Reading::Unusable => Err(join2("invalid duration for ", path)),
            Reading::Usable(d) => Ok(d),
        },
    }
}

// ---------------------------------------------------------------------------
// Durations in the log of ffmpeg
// ---------------------------------------------------------------------------

/// Hours, minutes and seconds as they stand in a log.
pub struct ClockText {
    pub hours: String,
    pub minutes: String,
    pub seconds: String,
}

/// The content of a clock text.
#[verifier::ext_equal]
pub struct ClockView {
    pub hours: Seq<char>,
    pub minutes: Seq<char>,
    pub seconds: Seq<char>,
}

impl View for ClockText {
    type V = ClockView;

    open spec fn view(&self) -> ClockView {
        ClockView { hours: self.hours@, minutes: self.minutes@, seconds: self.seconds@ }
    }
}

/// The contents of a list of clock texts.
pub open spec fn clock_views(v: Seq<ClockText>) -> Seq<ClockView> {
    v.map_values(|c: ClockText| c@)
}

/// The duration that a line of a log gives: what stands behind `Duration:` up
/// to the next comma, in three parts between colons.
pub open spec fn clock_in(line: Seq<char>) -> Option<ClockView> {
    match after_first(line, "Duration:"@) {
        Some(rest) => {
            let parts = split_on(trimmed(before_first(rest, ',')), ':');
            if parts.len() == 3 {
                Some(
                    ClockView {
                        hours: trimmed(parts[0]),
                        minutes: trimmed(parts[1]),
                        seconds: trimmed(parts[2]),
                    },
                )
            } else {
                None
            }
        },
        None => None,
    }
}

/// The durations that lines of a log give, in order.
pub open spec fn clocks_in(list: Seq<Seq<char>>) -> Seq<ClockView>
    decreases list.len(),
{
    if list.len() == 0 {
        Seq::empty()
    } else {
        let rest = clocks_in(list.drop_last());
        match clock_in(list.last()) {
            Some(c) => rest.push(c),
            None => rest,
        }
    }
}

/// Reads the duration that a line of a log gives.
pub fn line_clock(line: &str) -> (r: Option<ClockText>)
    ensures
        match r {
            Some(c) => clock_in(line@) == Some(c@),
            None => clock_in(line@) is None,
        },
{
    let v = to_chars(line);
    let marker = to_chars("Duration:");
    match find_after(&v, &marker) {
        Some(at) => {
            let n: usize = v.len();
            let pieces = split_chars(&v, at, n, ',');
            proof {
                split_on_joined(v@.skip(at as int), ',');
                assert(v@.subrange(at as int, n as int) =~= v@.skip(at as int));
                assert(texts(pieces@).len() == pieces@.len());
                assert(texts(pieces@)[0] == pieces@[0]@);
            }
            let token = trim_text(pieces[0].as_str());
            let parts = split_text(token.as_str(), ':');
            assert(texts(parts@).len() == parts@.len());
            if parts.len() == 3 {
                assert(texts(parts@)[0] == parts@[0]@);
                assert(texts(parts@)[1] == parts@[1]@);
                assert(texts(parts@)[2] == parts@[2]@);
                Some(
                    ClockText {
                        hours: trim_text(parts[0].as_str()),
                        minutes: trim_text(parts[1].as_str()),
                        seconds: trim_text(parts[2].as_str()),
                    },
                )
            } else {
                None
            }
        },
        None => None,
    }
}

/// Reads the durations that a log gives, in order.
pub fn log_clocks(log: &str) -> (r: Vec<ClockText>)
    ensures
        clock_views(r@) == clocks_in(lines(log@)),
{
    let all = split_lines(log);
    let ghost list = texts(all@);
    let mut r: Vec<ClockText> = Vec::new();
    assert(clock_views(r@) =~= clocks_in(list.take(0)));
    for i in 0..all.len()
        invariant
            list == texts(all@),
            clock_views(r@) == clocks_in(list.take(i as int)),
    {
        let ghost before = clock_views(r@);
        assert(list.take(i + 1).drop_last() =~= list.take(i as int));
        assert(list[i as int] == all@[i as int]@);
        if let Some(c) = line_clock(all[i].as_str()) {
            r.push(c);
            assert(clock_views(r@) =~= before.push(c@));
        }
    }
    assert(list.take(all@.len() as int) =~= list);
    r
}

/// The first usable duration among readings; one that is not a number ends the
/// search.
pub open spec fn first_usable<T>(readings: Seq<Reading<T>>) -> Option<T>
    decreases readings.len(),
{
    if readings.len() == 0 {
        None
    } else {
        match readings[0] {
            Reading::NotANumber => None,
            Reading::Unusable => first_usable(readings.drop_first()),
            Reading::Usable(d) => Some(d),
        }
    }
}

/// The duration that a log gives, where `readings` is what was read from its
/// clock texts, in order.
pub fn parse_duration_from_ffmpeg_log<T: Copy>(readings: &Vec<Reading<T>>) -> (r: Option<T>)
    ensures
        r == first_usable(readings@),
{
    assert(readings@.skip(0) =~= readings@);
    for i in 0..readings.len()
        invariant
            first_usable(readings@) == first_usable(readings@.skip(i as int)),
    {
        assert(readings@.skip(i as int).drop_first() =~= readings@.skip(i + 1));
        match &readings[i] {
            Reading::NotANumber => {
                return None;
            },
            Reading::Unusable => {},
            Reading::Usable(d) => {
                return Some(*d);
            },
        }
    }
    None
}

/// The log made of the lines that ffmpeg reports.
pub open spec fn log_of(list: Seq<Seq<char>>) -> Seq<char>
    decreases list.len(),
{
    if list.len() == 0 {
        Seq::empty()
    } else {
        (log_of(list.drop_last()) + list.last()).push('\n')
    }
}

/// Joins the lines that ffmpeg reports to a log.
pub fn join_log(list: &Vec<String>) -> (r: String)
    ensures
        r@ == log_of(texts(list@)),
{
    let ghost all = texts(list@);
    let mut r = String::new();
    for i in 0..list.len()
        invariant
            all == texts(list@),
            r@ == log_of(all.take(i as int)),
    {
        r.append(list[i].as_str());
        r.push('\n');
        assert(all.take(i + 1).drop_last() =~= all.take(i as int));
        assert(all[i as int] == list@[i as int]@);
    }
    assert(all.take(list@.len() as int) =~= all);
    r
}

// ---------------------------------------------------------------------------
// The duration of any media file
// ---------------------------------------------------------------------------

/// What comes next when the duration of a media file is wanted: read the log of
/// a run of ffmpeg with the arguments, or stop.
pub enum ProbeStep<T> {
    ReadLog(Vec<String>),
    Found(T),
    Failed(String),
}

/// The content of a step.
pub enum ProbeStepView<T> {
    ReadLog(Seq<Seq<char>>),
    Found(T),
    Failed(Seq<char>),
}

impl<T> View for ProbeStep<T> {
    type V = ProbeStepView<T>;

    open spec fn view(&self) -> ProbeStepView<T> {
        match *self {
            ProbeStep::ReadLog(args) => ProbeStepView::ReadLog(texts(args@)),
            ProbeStep::Found(d) => ProbeStepView::Found(d),
            ProbeStep::Failed(m) => ProbeStepView::Failed(m@),
        }
    }
}

/// The arguments that make ffmpeg print what it knows of a file.
pub open spec fn log_args(path: Seq<char>) -> Seq<Seq<char>> {
    seq!["-i"@, sanitized(path), "-t"@, "0.01"@, "-f"@, "null"@, "-"@]
}

/// What follows the run of ffprobe: a usable duration is the answer; without one
/// the log of ffmpeg is asked. `ran` is nothing where ffprobe could not be run,
/// and otherwise says whether it succeeded.
pub open spec fn after_ffprobe<T>(
    path: Seq<char>,
    exe: Seq<char>,
    ran: Option<bool>,
    reading: Reading<T>,
) -> ProbeStepView<T> {
    match (ran, reading) {
        (None, _) => ProbeStepView::Failed("ffprobe spawn failed ("@ + exe + ")"@),
        (Some(true), Reading::Usable(d)) => ProbeStepView::Found(d),
        _ => ProbeStepView::ReadLog(log_args(path)),
    }
}

/// What follows the log of ffmpeg: `readings` is nothing where ffmpeg could not
/// be run, and otherwise what was read from the clock texts of its log.
pub open spec fn after_log<T>(
    path: Seq<char>,
    readings: Option<Seq<Reading<T>>>,
) -> ProbeStepView<T> {
    match readings {
        None => ProbeStepView::Failed("ffmpeg duration probe spawn"@),
        Some(list) => match first_usable(list) {
            Some(d) => ProbeStepView::Found(d),
            None => ProbeStepView::Failed(
                "could not probe duration for "@ + path
                    + " (put ffmpeg.exe + ffprobe.exe in engine/)"@,
            ),
        },
    }
}

/// A search for the duration of a media file.
pub struct MediaProbe {
    path: String,
    exe: String,
}

impl MediaProbe {
    /// The path of the media file.
    pub closed spec fn path(&self) -> Seq<char> {
        self.path@
    }

    /// The path of ffprobe.
    pub closed spec fn exe(&self) -> Seq<char> {
        self.exe@
    }
}

/// Begins the search for the duration of a media file with the ffprobe at
/// `exe`, to be run with the arguments.
pub fn get_media_duration(path: &str, exe: &str) -> (r: (MediaProbe, Vec<String>))
    ensures
        r.0.path() == path@,
        r.0.exe() == exe@,
        texts(r.1@) == duration_args(path@),
{
    (MediaProbe { path: owned(path), exe: owned(exe) }, probe_args(path))
}

impl MediaProbe {
    /// Takes what ffprobe came to.
    pub fn ffprobe_ran<T>(&self, ran: Option<bool>, reading: Reading<T>) -> (step: ProbeStep<T>)
        ensures
            step@ == after_ffprobe(self.path(), self.exe(), ran, reading),
    {
        match (ran, reading) {
            (None, _) => ProbeStep::Failed(
                join3("ffprobe spawn failed (", self.exe.as_str(), ")"),
            ),
            (Some(true), Reading::Usable(d)) => ProbeStep::Found(d),
            _ => {
                let clean = sanitize_path(self.path.as_str());
                let mut args: Vec<String> = Vec::new();
                push_texts(
                    &mut args,
                    vec!["-i", clean.as_str(), "-t", "0.01", "-f", "null", "-"],
                );
                assert(texts(args@) =~= log_args(self.path()));
                ProbeStep::ReadLog(args)
            },
        }
    }

    /// Takes what was read from the log of ffmpeg.
    pub fn log_read<T: Copy>(&self, readings: &Option<Vec<Reading<T>>>) -> (step: ProbeStep<T>)
        ensures
            step@ == after_log(
                self.path(),
                match readings {
                    Some(v) => Some(v@),
                    None => None,
                },
            ),
    {
        match readings {
            None => ProbeStep::Failed(owned("ffmpeg duration probe spawn")),
            Some(v) => match parse_duration_from_ffmpeg_log(v) {
                Some(d) => ProbeStep::Found(d),
                None => ProbeStep::Failed(
                    join3(
                        "could not probe duration for ",
                        self.path.as_str(),
                        " (put ffmpeg.exe + ffprobe.exe in engine/)",
                    ),
                ),
            },
        }
    }
}

// ---------------------------------------------------------------------------
// Loading
// ---------------------------------------------------------------------------

/// Opens a media file as a project with one clip from `zero` to its end, where
/// the file is there, the ffmpeg at `exe` is ready, and the duration is known.
pub fn load_project<T: Copy>(
    path: &str,
    is_file: bool,
    ready: bool,
    exe: &str,
    duration: Result<T, String>,
    zero: T,
) -> (r: Result<VideoProject<T>, String>)
    ensures
        match r {
            Ok(p) => is_file && ready && duration is Ok && p@ == (ProjectView {
                source_path: path@,
                duration: duration->Ok_0,
                clips: seq![Clip { start: zero, end: duration->Ok_0 }],
            }),
            Err(m) => if !is_file {
                m@ == "file not found: "@ + path@
            } else if !ready {
                m@ == "ffmpeg not ready at "@ + exe@
                    + " — place ffmpeg.exe + ffprobe.exe in engine/"@
            } else {
                duration matches Err(e) && m@ == e@
            },
        },
{
    if !is_file {
        return Err(join2("file not found: ", path));
    }
    if !ready {
        return Err(
            join3(
                "ffmpeg not ready at ",
                exe,
                " — place ffmpeg.exe + ffprobe.exe in engine/",
            ),
        );
    }
    match duration {
        Ok(d) => {
            let clips = vec![Clip { start: zero, end: d }];
            Ok(VideoProject { source_path: owned(path), duration: d, clips })
        },
        Err(e) => Err(e),
    }
}

// ---------------------------------------------------------------------------
// Laws
// ---------------------------------------------------------------------------

/// A number as ffmpeg writes it in a duration: digits and dots.
pub open spec fn is_figure(s: Seq<char>) -> bool {
    s.len() > 0 && forall|i: int|
        0 <= i < s.len() ==> '0' <= #[trigger] s[i] <= '9' || s[i] == '.'
}

/// The duration that ffmpeg reports for an input is read as it was written,
/// whatever stands before it on the line, as long as that holds no capital D,
/// and behind it.
pub proof fn reported_duration_is_read(
    before: Seq<char>,
    h: Seq<char>,
    m: Seq<char>,
    s: Seq<char>,
    behind: Seq<char>,
)
    requires
        !before.contains('D'),
        is_figure(h),
        is_figure(m),
        is_figure(s),
    ensures
        clock_in(
            before + "Duration:"@ + seq![' '] + (h + seq![':'] + m + seq![':'] + s) + seq![','] + behind,
        ) == Some(ClockView { hours: h, minutes: m, seconds: s }),
{
    let token = h + seq![':'] + m + seq![':'] + s;
    let rest = seq![' '] + token + seq![','] + behind;
    let line = before + "Duration:"@ + seq![' '] + token + seq![','] + behind;
    assert(line =~= before + ("Duration:"@ + rest));
    marker_is_found(before, rest);
    // Up to the comma.
    let front = seq![' '] + token;
    assert(rest =~= front + seq![','] + behind);
    assert(!front.contains(','));
    first_piece(front, behind, ',');
    // Without the blank.
    assert(trim_start(front) == trim_start(front.drop_first()));
    assert(front.drop_first() =~= token);
    assert(token[0] == h[0]);
    assert(token.last() == s.last());
    assert(trimmed(front) == token);
    // Between the colons.
    assert(!h.contains(':') && !m.contains(':') && !s.contains(':'));
    split_without_separator(h, ':');
    split_after_separator(h, m, ':');
    split_after_separator(h + seq![':'] + m, s, ':');
    assert(split_on(token, ':') =~= seq![h, m, s]);
    assert(trimmed(h) == h && trimmed(m) == m && trimmed(s) == s);
}

/// The text behind the first marker, where no capital D stands before it.
proof fn marker_is_found(before: Seq<char>, rest: Seq<char>)
    requires
        !before.contains('D'),
    ensures
        after_first(before + ("Duration:"@ + rest), "Duration:"@) == Some(rest),
    decreases before.len(),
{
    reveal_strlit("Duration:");
    let all = before + ("Duration:"@ + rest);
    if before.len() == 0 {
        assert(all =~= "Duration:"@ + rest);
        assert(all.take(9) =~= "Duration:"@);
        assert(all.skip(9) =~= rest);
    } else {
        assert(before.contains(before[0]));
        assert(all[0] == before[0]);
        if starts_with(all, "Duration:"@) {
            assert(all.take(9)[0] == 'D');
        }
        let less = before.drop_first();
        assert forall|i: int| 0 <= i < less.len() implies less[i] != 'D' by {
            assert(before.contains(before[i + 1]));
        }
        assert(all.drop_first() =~= less + ("Duration:"@ + rest));
        marker_is_found(less, rest);
    }
}

/// The first piece of a text is what stands before its first separator.
proof fn first_piece(front: Seq<char>, behind: Seq<char>, sep: char)
    requires
        !front.contains(sep),
    ensures
        before_first(front + seq![sep] + behind, sep) == front,
    decreases behind.len(),
{
    let all = front + seq![sep] + behind;
    if behind.len() == 0 {
        assert(all.drop_last() =~= front);
        split_without_separator(front, sep);
    } else {
        assert(all.drop_last() =~= front + seq![sep] + behind.drop_last());
        first_piece(front, behind.drop_last(), sep);
        let pieces = split_on(all.drop_last(), sep);
        split_on_joined(all.drop_last(), sep);
        if pieces.len() == 1 {
            assert(joined(pieces, sep) == pieces[0]);
            assert(all.drop_last().len() == front.len() + behind.len());
        }
    }
}

} // verus!
