//! The Concat panel: the clip list and its selection, the options, and which
//! job may start with what.
use crate::add_audio::AddAudioOptions;
use crate::concat::ConcatOptions;
use crate::convert::ConvertFormat;
use crate::speed::{SpeedMode, Tempo};
use crate::text::{decimal, decimal_text, join2, join3, opt_text, owned, push_text, texts};
use crate::transport::Transport;
use vstd::prelude::*;
use vstd::string::*;

verus! {

/// What the window shows: the timeline or the Concat panel.
#[derive(Debug, Clone, Copy, PartialEq, Eq, Structural)]
pub enum AppMode {
    Cut,
    Concat,
}

impl Default for AppMode {
    fn default() -> (r: Self)
        ensures
            r == AppMode::Cut,
    {
        AppMode::Cut
    }
}

/// The state of the Concat panel.
#[derive(Debug)]
pub struct ConcatPanel {
    pub files: Vec<String>,
    pub selected_index: Option<usize>,
    pub audio_path: Option<String>,
    pub reverse_order: bool,
    pub reverse_video: bool,
    pub reverse_audio: bool,
    /// Speed fits the clip to a length, without sound.
    pub speed_95: bool,
    pub convert_fmt: ConvertFormat,
    pub status: String,
    pub busy: bool,
}

/// The content of a panel.
#[verifier::ext_equal]
pub struct PanelView {
    pub files: Seq<Seq<char>>,
    pub selected: Option<usize>,
    pub audio: Option<Seq<char>>,
    pub reverse_order: bool,
    pub reverse_video: bool,
    pub reverse_audio: bool,
    pub speed_95: bool,
    pub format: ConvertFormat,
    pub status: Seq<char>,
    pub busy: bool,
}

impl View for ConcatPanel {
    type V = PanelView;

    open spec fn view(&self) -> PanelView {
        PanelView {
            files: texts(self.files@),
            selected: self.selected_index,
            audio: opt_text(self.audio_path),
            reverse_order: self.reverse_order,
            reverse_video: self.reverse_video,
            reverse_audio: self.reverse_audio,
            speed_95: self.speed_95,
            format: self.convert_fmt,
            status: self.status@,
            busy: self.busy,
        }
    }
}

impl PanelView {
    /// The selection is an entry of the list.
    pub open spec fn wf(self) -> bool {
        self.selected matches Some(i) ==> i < self.files.len()
    }

    /// The panel with another status line.
    pub open spec fn saying(self, status: Seq<char>) -> PanelView {
        PanelView { status, ..self }
    }

    /// The panel with another list and nothing selected.
    pub open spec fn listing(self, files: Seq<Seq<char>>, status: Seq<char>) -> PanelView {
        PanelView { files, selected: None, status, ..self }
    }

    /// The panel after a job is to start: it does, unless one is running.
    pub open spec fn starting(self, status: Seq<char>) -> PanelView {
        if self.busy {
            self.saying("Busy — wait for current job"@)
        } else {
            PanelView { busy: true, status, ..self }
        }
    }

    /// The panel with the selected entry one place further up.
    pub open spec fn moved_up(self) -> PanelView {
        match self.selected {
            Some(i) => if i > 0 {
                PanelView {
                    files: swapped(self.files, i as int, i - 1),
                    selected: Some((i - 1) as usize),
                    ..self
                }
            } else {
                self
            },
            None => self,
        }
    }

    /// The panel with the selected entry one place further down.
    pub open spec fn moved_down(self) -> PanelView {
        match self.selected {
            Some(i) => if i + 1 < self.files.len() {
                PanelView {
                    files: swapped(self.files, i as int, i + 1),
                    selected: Some((i + 1) as usize),
                    ..self
                }
            } else {
                self
            },
            None => self,
        }
    }

    /// The clip that Speed looks at: the selected one; without a selection the
    /// first one, but a fit then takes the newest output.
    pub open spec fn speed_clip(self) -> Option<Seq<char>> {
        match self.selected {
            Some(i) => Some(self.files[i as int]),
            None => if !self.speed_95 && self.files.len() > 0 {
                Some(self.files[0])
            } else {
                None
            },
        }
    }

    /// What Speed works on: its clip where that is a file; without a selection
    /// the newest output takes the place of what is missing.
    pub open spec fn speed_input(self, is_file: bool, latest: Option<Seq<char>>) -> Option<
        Seq<char>,
    > {
        if self.speed_clip() is Some && is_file {
            self.speed_clip()
        } else if self.selected is Some {
            None
        } else {
            latest
        }
    }

    /// The clip that Convert works on: the selected one, or the first.
    pub open spec fn convert_clip(self) -> Option<Seq<char>> {
        match self.selected {
            Some(i) => Some(self.files[i as int]),
            None => if self.files.len() > 0 {
                Some(self.files[0])
            } else {
                None
            },
        }
    }
}

/// A list with two entries exchanged.
pub open spec fn swapped(files: Seq<Seq<char>>, i: int, j: int) -> Seq<Seq<char>> {
    files.update(i, files[j]).update(j, files[i])
}

/// The entries whose flag is set, in order.
pub open spec fn flagged(files: Seq<Seq<char>>, flags: Seq<bool>) -> Seq<Seq<char>>
    decreases files.len(),
{
    if files.len() == 0 {
        files
    } else {
        let rest = flagged(files.drop_last(), flags);
        if flags[files.len() - 1] {
            rest.push(files.last())
        } else {
            rest
        }
    }
}

/// News of a running job.
pub enum JobNews {
    /// It has ended well, with a message.
    Done(String),
    /// It has failed, with a message.
    Failed(String),
    /// Nothing yet.
    Pending,
    /// It has gone without a word.
    Closed,
}

/// The jobs of the panel.
#[derive(Debug, Clone, Copy, PartialEq, Eq, Structural)]
pub enum JobKind {
    Concat,
    AddAudio,
    Speed,
    Convert,
}

/// The message of a job that has ended well.
pub open spec fn done_text(kind: JobKind, output: Seq<char>) -> Seq<char> {
    let head = match kind {
        JobKind::Concat => "CONCAT done → "@,
        JobKind::AddAudio => "Add Audio done → "@,
        JobKind::Speed => "Speed done → "@,
        JobKind::Convert => "Convert done → "@,
    };
    head + output
}

/// The message of a job that has ended well.
pub fn done_message(kind: JobKind, output: &str) -> (r: String)
    ensures
        r@ == done_text(kind, output@),
{
    let head = match kind {
        JobKind::Concat => "CONCAT done → ",
        JobKind::AddAudio => "Add Audio done → ",
        JobKind::Speed => "Speed done → ",
        JobKind::Convert => "Convert done → ",
    };
    join2(head, output)
}

impl Default for ConcatPanel {
    fn default() -> (r: Self)
        ensures
            r@ == (PanelView {
                files: Seq::empty(),
                selected: None,
                audio: None,
                reverse_order: false,
                reverse_video: false,
                reverse_audio: false,
                speed_95: true,
                format: ConvertFormat::Mp4,
                status: "Load in/ + audio/ · CONCAT | Add Audio | Speed | Convert"@,
                busy: false,
            }),
    {
        let r = ConcatPanel {
            files: Vec::new(),
            selected_index: None,
            audio_path: None,
            reverse_order: false,
            reverse_video: false,
            reverse_audio: false,
            speed_95: true,
            convert_fmt: ConvertFormat::Mp4,
            status: owned("Load in/ + audio/ · CONCAT | Add Audio | Speed | Convert"),
            busy: false,
        };
        assert(texts(r.files@) =~= Seq::empty());
        r
    }
}

impl ConcatPanel {
    // -----------------------------------------------------------------------
    // Jobs in general
    // -----------------------------------------------------------------------

    /// Starts a job with a status line, unless one is running; the result says
    /// whether it starts.
    pub fn spawn_concat_job(&mut self, status: &str) -> (started: bool)
        ensures
            final(self)@ == old(self)@.starting(status@),
            started == !old(self)@.busy,
    {
        if self.busy {
            self.status = owned("Busy — wait for current job");
            false
        } else {
            self.busy = true;
            self.status = owned(status);
            true
        }
    }

    /// Takes news of the running job; the result says whether it is over.
    pub fn poll_concat_job(&mut self, news: JobNews) -> (over: bool)
        ensures
            over == !(news is Pending),
            final(self)@ == match news {
                JobNews::Done(m) => PanelView { status: m@, busy: false, ..old(self)@ },
                JobNews::Failed(m) => PanelView {
                    status: "Error: "@ + m@,
                    busy: false,
                    ..old(self)@
                },
                JobNews::Pending => old(self)@,
                JobNews::Closed => PanelView {
                    status: "Job channel closed"@,
                    busy: false,
                    ..old(self)@
                },
            },
    {
        match news {
            JobNews::Done(m) => {
                self.status = m;
                self.busy = false;
                true
            },
            JobNews::Failed(m) => {
                self.status = join2("Error: ", m.as_str());
                self.busy = false;
                true
            },
            JobNews::Pending => false,
            JobNews::Closed => {
                self.status = owned("Job channel closed");
                self.busy = false;
                true
            },
        }
    }

    // -----------------------------------------------------------------------
    // The list
    // -----------------------------------------------------------------------

    /// The entries of the list that are files; `is_file` says which are.
    pub fn concat_paths(&self, is_file: &Vec<bool>) -> (r: Vec<String>)
        requires
            is_file@.len() == self@.files.len(),
        ensures
            texts(r@) == flagged(self@.files, is_file@),
    {
        let ghost all = texts(self.files@);
        let mut r: Vec<String> = Vec::new();
        assert(texts(r@) =~= flagged(all.take(0), is_file@));
        for i in 0..self.files.len()
            invariant
                all == texts(self.files@),
                is_file@.len() == all.len(),
                texts(r@) == flagged(all.take(i as int), is_file@),
        {
            assert(all.take(i + 1).drop_last() =~= all.take(i as int));
            assert(all[i as int] == self.files@[i as int]@);
            if is_file[i] {
                push_text(&mut r, self.files[i].as_str());
            }
        }
        assert(all.take(self.files@.len() as int) =~= all);
        r
    }

    /// Takes the videos of the input folder as the list.
    pub fn refresh_in_list(&mut self, files: Vec<String>)
        ensures
            final(self)@ == old(self)@.listing(
                texts(files@),
                "Loaded "@ + decimal(files@.len()) + " from in/"@,
            ),
            final(self)@.wf(),
    {
        let n: usize = files.len();
        self.files = files;
        self.selected_index = None;
        self.status = join3("Loaded ", decimal_text(n as u64).as_str(), " from in/");
    }

    /// Takes the first track of the audio folder, if there is one.
    pub fn refresh_audio_auto(&mut self, tracks: &Vec<String>)
        ensures
            final(self)@ == if tracks@.len() > 0 {
                PanelView {
                    audio: Some(tracks@[0]@),
                    status: "Audio: "@ + tracks@[0]@,
                    ..old(self)@
                }
            } else {
                old(self)@.saying("No audio in audio/ — Select Audio or drop a file"@)
            },
    {
        if tracks.len() > 0 {
            self.choose_audio(tracks[0].as_str());
        } else {
            self.status = owned("No audio in audio/ — Select Audio or drop a file");
        }
    }

    /// Takes videos that were picked as the list.
    pub fn choose_videos(&mut self, files: Vec<String>)
        ensures
            final(self)@ == old(self)@.listing(
                texts(files@),
                decimal(files@.len()) + " file(s) selected"@,
            ),
            final(self)@.wf(),
    {
        let n: usize = files.len();
        self.files = files;
        self.selected_index = None;
        self.status = join2(decimal_text(n as u64).as_str(), " file(s) selected");
    }

    /// Takes an audio track that was picked.
    pub fn choose_audio(&mut self, path: &str)
        ensures
            final(self)@ == (PanelView {
                audio: Some(path@),
                status: "Audio: "@ + path@,
                ..old(self)@
            }),
    {
        self.audio_path = Some(owned(path));
        self.status = join2("Audio: ", path);
    }

    /// Empties the list.
    pub fn clear(&mut self)
        ensures
            final(self)@ == old(self)@.listing(Seq::empty(), "List cleared"@),
            final(self)@.wf(),
    {
        self.files = Vec::new();
        self.selected_index = None;
        self.status = owned("List cleared");
        assert(texts(self.files@) =~= Seq::empty());
    }

    /// Selects an entry of the list.
    pub fn select(&mut self, i: usize)
        requires
            i < old(self)@.files.len(),
        ensures
            final(self)@ == (PanelView { selected: Some(i), ..old(self)@ }),
            final(self)@.wf(),
    {
        self.selected_index = Some(i);
    }

    /// Exchanges two entries of the list.
    fn exchange(&mut self, i: usize, j: usize)
        requires
            i < old(self)@.files.len(),
            j < old(self)@.files.len(),
        ensures
            final(self)@ == (PanelView {
                files: swapped(old(self)@.files, i as int, j as int),
                ..old(self)@
            }),
    {
        let ghost before = self.files@;
        let a = owned(self.files[i].as_str());
        let b = owned(self.files[j].as_str());
        self.files.set(i, b);
        self.files.set(j, a);
        assert(texts(self.files@) =~= swapped(texts(before), i as int, j as int));
    }

    /// Moves the selected entry one place up.
    pub fn move_up(&mut self)
        requires
            old(self)@.wf(),
        ensures
            final(self)@ == old(self)@.moved_up(),
            final(self)@.wf(),
    {
        if let Some(i) = self.selected_index {
            if i > 0 {
                self.exchange(i, i - 1);
                self.selected_index = Some(i - 1);
            }
        }
    }

    /// Moves the selected entry one place down.
    pub fn move_down(&mut self)
        requires
            old(self)@.wf(),
        ensures
            final(self)@ == old(self)@.moved_down(),
            final(self)@.wf(),
    {
        let n: usize = self.files.len();
        if let Some(i) = self.selected_index {
            if i + 1 < n {
                self.exchange(i, i + 1);
                self.selected_index = Some(i + 1);
            }
        }
    }

    /// The line of an entry in the list, numbered from one.
    pub fn entry_label(&self, i: usize) -> (r: String)
        requires
            i < self@.files.len(),
        ensures
            r@ == decimal((i + 1) as nat) + ". "@ + self@.files[i as int],
    {
        let n: usize = self.files.len();
        assert(self@.files[i as int] == self.files@[i as int]@);
        join3(decimal_text(i as u64 + 1).as_str(), ". ", self.files[i].as_str())
    }

    /// The line that names the audio track.
    pub fn audio_label(&self) -> (r: String)
        ensures
            r@ == "Audio: "@ + match self@.audio {
                Some(a) => a,
                None => "(none — needed for Add Audio)"@,
            },
    {
        match &self.audio_path {
            Some(a) => join2("Audio: ", a.as_str()),
            None => join2("Audio: ", "(none — needed for Add Audio)"),
        }
    }

    // -----------------------------------------------------------------------
    // The jobs
    // -----------------------------------------------------------------------

    /// Asks for a join of `paths`; gives its options where it starts.
    pub fn job_concatenate(&mut self, paths: &Vec<String>) -> (r: Option<ConcatOptions>)
        ensures
            paths@.len() == 0 ==> r is None && final(self)@ == old(self)@.saying(
                "No videos — Refresh from in/ or Select Videos"@,
            ),
            paths@.len() > 0 ==> {
                &&& final(self)@ == old(self)@.starting(
                    "CONCAT "@ + decimal(paths@.len()) + " clip(s)…"@,
                )
                &&& r == if old(self)@.busy {
                    None
                } else {
                    Some(
                        ConcatOptions {
                            reverse_order: old(self)@.reverse_order,
                            reverse_video: old(self)@.reverse_video,
                            reverse_audio: old(self)@.reverse_audio,
                            prefer_stream_copy: !(old(self)@.reverse_video
                                || old(self)@.reverse_audio),
                        },
                    )
                }
            },
    {
        if paths.len() == 0 {
            self.status = owned("No videos — Refresh from in/ or Select Videos");
            return None;
        }
        let n: usize = paths.len();
        let opts = ConcatOptions {
            reverse_order: self.reverse_order,
            reverse_video: self.reverse_video,
            reverse_audio: self.reverse_audio,
            prefer_stream_copy: !(self.reverse_video || self.reverse_audio),
        };
        let status = join3("CONCAT ", decimal_text(n as u64).as_str(), " clip(s)…");
        if self.spawn_concat_job(status.as_str()) {
            Some(opts)
        } else {
            None
        }
    }

    /// Asks for the track to be added to `paths`; `audio_is_file` says whether
    /// the track is a file. Gives the track and the options where the job
    /// starts.
    pub fn job_add_audio(&mut self, paths: &Vec<String>, audio_is_file: bool) -> (r: Option<
        (String, AddAudioOptions),
    >)
        ensures
            paths@.len() == 0 ==> r is None && final(self)@ == old(self)@.saying(
                "No videos for Add Audio"@,
            ),
            paths@.len() > 0 && (old(self)@.audio is None || !audio_is_file) ==> r is None
                && final(self)@ == old(self)@.saying("Pick audio (audio/ or Select Audio)"@),
            paths@.len() > 0 && old(self)@.audio is Some && audio_is_file ==> {
                &&& final(self)@ == old(self)@.starting(
                    "Add Audio (loop visuals → "@ + old(self)@.audio->0 + ")…"@,
                )
                &&& r is None == old(self)@.busy
                &&& r matches Some((audio, opts)) ==> audio@ == old(self)@.audio->0 && opts == (
                AddAudioOptions {
                    reverse_order: old(self)@.reverse_order,
                    reverse_video: old(self)@.reverse_video,
                    reverse_audio: old(self)@.reverse_audio,
                    fps: 30,
                })
            },
    {
        if paths.len() == 0 {
            self.status = owned("No videos for Add Audio");
            return None;
        }
        let audio = match &self.audio_path {
            Some(a) => owned(a.as_str()),
            None => {
                self.status = owned("Pick audio (audio/ or Select Audio)");
                return None;
            },
        };
        if !audio_is_file {
            self.status = owned("Pick audio (audio/ or Select Audio)");
            return None;
        }
        let opts = AddAudioOptions {
            reverse_order: self.reverse_order,
            reverse_video: self.reverse_video,
            reverse_audio: self.reverse_audio,
            fps: 30,
        };
        let status = join3("Add Audio (loop visuals → ", audio.as_str(), ")…");
        if self.spawn_concat_job(status.as_str()) {
            Some((audio, opts))
        } else {
            None
        }
    }

    /// The clip that Speed looks at first.
    pub fn speed_clip(&self) -> (r: Option<String>)
        requires
            self@.wf(),
        ensures
            opt_text(r) == self@.speed_clip(),
    {
        let ghost all = texts(self.files@);
        match self.selected_index {
            Some(i) => {
                assert(all[i as int] == self.files@[i as int]@);
                Some(owned(self.files[i].as_str()))
            },
            None => if !self.speed_95 && self.files.len() > 0 {
                assert(all[0] == self.files@[0]@);
                Some(owned(self.files[0].as_str()))
            } else {
                None
            },
        }
    }

    /// Asks for a change of speed: `is_file` says whether the clip that Speed
    /// looks at is a file, `latest` is the newest output, and `factor` is the
    /// factor as text. Gives the input where the job starts.
    pub fn job_speed(&mut self, is_file: bool, latest: &Option<String>, factor: &str) -> (r: Option<
        String,
    >)
        requires
            old(self)@.wf(),
        ensures
            ({
                let input = old(self)@.speed_input(is_file, opt_text(*latest));
                &&& input is None ==> r is None && final(self)@ == old(self)@.saying(
                    "Speed: select a clip or put an mp4 in out/ (9.5s uses latest out/)"@,
                )
                &&& input is Some ==> {
                    let label = if old(self)@.speed_95 {
                        "9.5s"@
                    } else {
                        factor@ + "x"@
                    };
                    &&& final(self)@ == old(self)@.starting(
                        "Speed "@ + label + " ← "@ + input->0 + "…"@,
                    )
                    &&& opt_text(r) == if old(self)@.busy {
                        None
                    } else {
                        input
                    }
                }
            }),
    {
        let clip = self.speed_clip();
        let selected = self.selected_index.is_some();
        let input = match clip {
            Some(c) => if is_file {
                Some(c)
            } else if selected {
                None
            } else {
                match latest {
                    Some(l) => Some(owned(l.as_str())),
                    None => None,
                }
            },
            None => match latest {
                Some(l) => Some(owned(l.as_str())),
                None => None,
            },
        };
        match input {
            None => {
                self.status = owned(
                    "Speed: select a clip or put an mp4 in out/ (9.5s uses latest out/)",
                );
                None
            },
            Some(path) => {
                let label = if self.speed_95 {
                    owned("9.5s")
                } else {
                    join2(factor, "x")
                };
                let head = join3("Speed ", label.as_str(), " ← ");
                let status = join3(head.as_str(), path.as_str(), "…");
                if self.spawn_concat_job(status.as_str()) {
                    Some(path)
                } else {
                    None
                }
            },
        }
    }

    /// How Speed changes the speed: to the fixed length, or by the factor that
    /// `tempo` holds.
    pub fn speed_mode(&self, tempo: Tempo) -> (r: SpeedMode)
        ensures
            r == (if self@.speed_95 {
                SpeedMode::FitSeconds
            } else {
                SpeedMode::Factor(tempo)
            }),
    {
        if self.speed_95 {
            SpeedMode::FitSeconds
        } else {
            SpeedMode::Factor(tempo)
        }
    }

    /// The clip that Convert works on.
    pub fn convert_clip(&self) -> (r: Option<String>)
        requires
            self@.wf(),
        ensures
            opt_text(r) == self@.convert_clip(),
    {
        let ghost all = texts(self.files@);
        match self.selected_index {
            Some(i) => {
                assert(all[i as int] == self.files@[i as int]@);
                Some(owned(self.files[i].as_str()))
            },
            None => if self.files.len() > 0 {
                assert(all[0] == self.files@[0]@);
                Some(owned(self.files[0].as_str()))
            } else {
                None
            },
        }
    }

    /// Asks for a conversion: `is_file` says whether the clip that Convert works
    /// on is a file. Gives the input and the format where the job starts.
    pub fn job_convert(&mut self, is_file: bool) -> (r: Option<(String, ConvertFormat)>)
        requires
            old(self)@.wf(),
        ensures
            old(self)@.convert_clip() is None || !is_file ==> r is None && final(self)@ == old(
                self,
            )@.saying("Convert: select a video in the list"@),
            old(self)@.convert_clip() is Some && is_file ==> {
                &&& final(self)@ == old(self)@.starting(
                    "Convert → "@ + old(self)@.format.label_text() + " …"@,
                )
                &&& r is None == old(self)@.busy
                &&& r matches Some((input, format)) ==> input@ == old(self)@.convert_clip()->0
                    && format == old(self)@.format
            },
    {
        let clip = self.convert_clip();
        match clip {
            Some(path) => if is_file {
                let format = self.convert_fmt;
                let status = join3("Convert → ", format.label(), " …");
                if self.spawn_concat_job(status.as_str()) {
                    Some((path, format))
                } else {
                    None
                }
            } else {
                self.status = owned("Convert: select a video in the list");
                None
            },
            None => {
                self.status = owned("Convert: select a video in the list");
                None
            },
        }
    }
}

// ---------------------------------------------------------------------------
// Changing modes
// ---------------------------------------------------------------------------

/// What the panel needs when the window turns to it.
#[derive(Debug, Clone, Copy, PartialEq, Eq)]
pub struct Entry {
    /// The window was not showing the panel before.
    pub entered: bool,
    /// The list is to be filled from the input folder.
    pub fill_list: bool,
    /// A track is to be looked for in the audio folder.
    pub find_audio: bool,
}

/// Turns the window to the Concat panel: on entering, playback stops, and a
/// list or track that is missing is to be loaded.
pub fn enter_concat(mode: &mut AppMode, panel: &ConcatPanel, transport: &mut Transport) -> (r:
    Entry)
    ensures
        *final(mode) == AppMode::Concat,
        final(transport)@ == if *old(mode) == AppMode::Concat {
            old(transport)@
        } else {
            old(transport)@.halted()
        },
        r == (Entry {
            entered: *old(mode) != AppMode::Concat,
            fill_list: *old(mode) != AppMode::Concat && panel@.files.len() == 0,
            find_audio: *old(mode) != AppMode::Concat && panel@.audio is None,
        }),
{
    let entered = match *mode {
        AppMode::Concat => false,
        AppMode::Cut => true,
    };
    *mode = AppMode::Concat;
    if entered {
        transport.halt();
    }
    Entry {
        entered,
        fill_list: entered && panel.files.len() == 0,
        find_audio: entered && panel.audio_path.is_none(),
    }
}

// ---------------------------------------------------------------------------
// Laws
// ---------------------------------------------------------------------------

/// Moving the selected entry keeps the list complete, and the selection stays
/// with the entry.
pub proof fn moving_keeps_the_entries(p: PanelView)
    requires
        p.wf(),
        p.files.len() <= usize::MAX,
    ensures
        p.moved_up().files.to_multiset() == p.files.to_multiset(),
        p.moved_down().files.to_multiset() == p.files.to_multiset(),
        p.selected matches Some(i) ==> {
            &&& p.moved_up().files[p.moved_up().selected->0 as int] == p.files[i as int]
            &&& p.moved_down().files[p.moved_down().selected->0 as int] == p.files[i as int]
        },
{
    broadcast use vstd::seq_lib::group_to_multiset_ensures;
    broadcast use vstd::multiset::group_multiset_axioms;

    if let Some(i) = p.selected {
        if i > 0 {
            swapping_keeps_the_entries(p.files, i as int, i - 1);
        }
        if i + 1 < p.files.len() {
            swapping_keeps_the_entries(p.files, i as int, i + 1);
        }
    }
}

proof fn swapping_keeps_the_entries(files: Seq<Seq<char>>, i: int, j: int)
    requires
        0 <= i < files.len(),
        0 <= j < files.len(),
    ensures
        swapped(files, i, j).to_multiset() == files.to_multiset(),
{
    broadcast use vstd::seq_lib::group_to_multiset_ensures;
    broadcast use vstd::multiset::group_multiset_axioms;

    let once = files.update(i, files[j]);
    assert(swapped(files, i, j).to_multiset() =~= files.to_multiset());
}

/// Moving an entry up and down again, or down and up again, changes nothing.
pub proof fn moving_back(p: PanelView)
    requires
        p.wf(),
        p.files.len() <= usize::MAX,
    ensures
        p.selected matches Some(i) && i > 0 ==> p.moved_up().moved_down() == p,
        p.selected matches Some(i) && i + 1 < p.files.len() ==> p.moved_down().moved_up() == p,
{
    if let Some(i) = p.selected {
        if i > 0 {
            assert(p.moved_up().moved_down() =~= p);
        }
        if i + 1 < p.files.len() {
            assert(p.moved_down().moved_up() =~= p);
        }
    }
}

/// One job runs at a time: while one runs, nothing but the status line changes
/// when another is asked for.
pub proof fn one_job_at_a_time(p: PanelView, status: Seq<char>)
    ensures
        p.busy ==> p.starting(status) == p.saying("Busy — wait for current job"@),
        p.starting(status).busy,
{
}

} // verus!
