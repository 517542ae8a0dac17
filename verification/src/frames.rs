//! Pictures of a video: extracting a frame, composing the filmstrip of a clip,
//! and the colors that stand for a clip.
use crate::jobs::{Action, ActionView, Ending, Event, EventView, Step, StepView, World};
use crate::paths::{sanitize_path, sanitized};
use crate::text::{decimal, decimal_text, join2, join3, owned, push_texts, texts};
use vstd::prelude::*;
use vstd::string::*;

verus! {

/// The least width that a frame is extracted at.
pub const LEAST_WIDTH: u32 = 16;

/// How many frames a filmstrip shows.
pub const STRIP_FRAMES: usize = 3;

/// The width of a frame of a filmstrip.
pub const STRIP_FRAME_WIDTH: u32 = 64;

/// The height of a filmstrip.
pub const STRIP_HEIGHT: u32 = 36;

/// The width of a filmstrip.
pub const STRIP_WIDTH: u32 = 192;

/// The greatest side of a picture.
pub const GREATEST_SIDE: u32 = 65535;

// ---------------------------------------------------------------------------
// Pictures
// ---------------------------------------------------------------------------

/// A picture: four bytes for each pixel (red, green, blue, opacity), row by
/// row. Its sides fit in 16 bits, as those of a JPEG do.
pub struct Frame {
    width: u32,
    height: u32,
    rgba: Vec<u8>,
}

/// The content of a picture.
#[verifier::ext_equal]
pub struct FrameView {
    pub width: nat,
    pub height: nat,
    pub rgba: Seq<u8>,
}

impl View for Frame {
    type V = FrameView;

    closed spec fn view(&self) -> FrameView {
        FrameView { width: self.width as nat, height: self.height as nat, rgba: self.rgba@ }
    }
}

impl FrameView {
    /// There are four bytes for each pixel, and no side is too long.
    pub open spec fn wf(self) -> bool {
        &&& self.width <= GREATEST_SIDE
        &&& self.height <= GREATEST_SIDE
        &&& self.rgba.len() == 4 * (self.width * self.height)
    }

    /// The bytes of a pixel.
    pub open spec fn pixel(self, x: int, y: int) -> Seq<u8> {
        let at = 4 * (y * self.width + x);
        self.rgba.subrange(at, at + 4)
    }
}

impl Frame {
    /// Every picture is well-formed.
    #[verifier::type_invariant]
    spec fn inv(&self) -> bool {
        self@.wf()
    }

    /// The picture of the given bytes, where there are four for each pixel and
    /// no side is too long.
    pub fn from_rgba(width: u32, height: u32, rgba: Vec<u8>) -> (r: Option<Frame>)
        ensures
            match r {
                Some(f) => f@ == (FrameView {
                    width: width as nat,
                    height: height as nat,
                    rgba: rgba@,
                }) && f@.wf(),
                None => !(FrameView {
                    width: width as nat,
                    height: height as nat,
                    rgba: rgba@,
                }).wf(),
            },
    {
        if width > GREATEST_SIDE || height > GREATEST_SIDE {
            return None;
        }
        assert(0 <= width * height <= 65535 * 65535) by (nonlinear_arith)
            requires
                0 <= width <= 65535,
                0 <= height <= 65535,
        ;
        let wanted: u64 = 4 * (width as u64 * height as u64);
        if rgba.len() as u64 == wanted {
            Some(Frame { width, height, rgba })
        } else {
            None
        }
    }

    /// The width of the picture.
    pub fn width(&self) -> (r: u32)
        ensures
            r == self@.width,
    {
        self.width
    }

    /// The height of the picture.
    pub fn height(&self) -> (r: u32)
        ensures
            r == self@.height,
    {
        self.height
    }

    /// The bytes of the picture.
    pub fn rgba(&self) -> (r: &Vec<u8>)
        ensures
            r@ == self@.rgba,
    {
        &self.rgba
    }
}

/// What `image::imageops::resize` makes of a picture with its triangle filter.
pub uninterp spec fn resized(
    width: nat,
    height: nat,
    rgba: Seq<u8>,
    to_width: u32,
    to_height: u32,
) -> Seq<u8>;

/// Resizes a picture, by `image::imageops::resize` with the triangle filter. The
/// result has the wanted size. A picture that has that size already is copied,
/// and one without pixels gives pixels of zeros; what the filter makes of other
/// pictures is left to that function, and named only.
#[verifier::external_body]
pub(crate) fn resize(frame: &Frame, width: u32, height: u32) -> (r: Frame)
    requires
        0 < width <= GREATEST_SIDE,
        0 < height <= GREATEST_SIDE,
    ensures
        r@.wf(),
        r@.width == width,
        r@.height == height,
        r@.rgba == resized(frame@.width, frame@.height, frame@.rgba, width, height),
        frame@.width == width && frame@.height == height ==> r@.rgba == frame@.rgba,
        frame@.width == 0 || frame@.height == 0 ==> forall|i: int|
            0 <= i < r@.rgba.len() ==> r@.rgba[i] == 0,
{
    let from = image::RgbaImage::from_raw(frame.width, frame.height, frame.rgba.clone()).unwrap();
    let to = image::imageops::resize(&from, width, height, image::imageops::FilterType::Triangle);
    Frame { width, height, rgba: to.into_raw() }
}

/// Puts a picture on another one with its corner at (`x`, `y`), by
/// `image::imageops::replace`: the pixels that it covers are its own, all others
/// stay.
#[verifier::external_body]
pub(crate) fn replace(bottom: &mut Frame, top: &Frame, x: i64, y: i64)
    ensures
        final(bottom)@.wf(),
        final(bottom)@.width == old(bottom)@.width,
        final(bottom)@.height == old(bottom)@.height,
        forall|px: int, py: int|
            0 <= px < old(bottom)@.width && 0 <= py < old(bottom)@.height
                ==> #[trigger] final(bottom)@.pixel(px, py) == if 0 <= px - x < top@.width && 0
                <= py - y < top@.height {
                top@.pixel(px - x, py - y)
            } else {
                old(bottom)@.pixel(px, py)
            },
{
    let rgba = std::mem::take(&mut bottom.rgba);
    let mut under = image::RgbaImage::from_raw(bottom.width, bottom.height, rgba).unwrap();
    let over = image::RgbaImage::from_raw(top.width, top.height, top.rgba.clone()).unwrap();
    image::imageops::replace(&mut under, &over, x, y);
    bottom.rgba = under.into_raw();
}

// ---------------------------------------------------------------------------
// Filmstrips
// ---------------------------------------------------------------------------

/// The content of an optional picture.
pub open spec fn frame_view(f: Option<Frame>) -> Option<FrameView> {
    match f {
        Some(f) => Some(f@),
        None => None,
    }
}

/// A picture as it stands on a filmstrip.
pub open spec fn small(f: FrameView) -> FrameView {
    FrameView {
        width: STRIP_FRAME_WIDTH as nat,
        height: STRIP_HEIGHT as nat,
        rgba: resized(f.width, f.height, f.rgba, STRIP_FRAME_WIDTH, STRIP_HEIGHT),
    }
}

/// The contents of a list of optional pictures.
pub open spec fn frame_views(v: Seq<Option<Frame>>) -> Seq<Option<FrameView>> {
    v.map_values(|f: Option<Frame>| frame_view(f))
}

/// Pictures as they stand on a filmstrip.
pub open spec fn smalls(v: Seq<Option<FrameView>>) -> Seq<Option<FrameView>> {
    v.map_values(
        |f: Option<FrameView>|
            match f {
                Some(f) => Some(small(f)),
                None => None,
            },
    )
}

/// A pixel of a filmstrip: that of the piece whose place it is in, and zeros
/// where the piece is missing.
pub open spec fn strip_pixel(pieces: Seq<Option<FrameView>>, x: int, y: int) -> Seq<u8> {
    let k = x / STRIP_FRAME_WIDTH as int;
    if k < pieces.len() && pieces[k] is Some {
        pieces[k]->0.pixel(x - k * STRIP_FRAME_WIDTH, y)
    } else {
        seq![0, 0, 0, 0]
    }
}

/// Whether a picture is a filmstrip of the given pieces.
pub open spec fn is_strip_of(strip: FrameView, pieces: Seq<Option<FrameView>>) -> bool {
    &&& strip.wf()
    &&& strip.width == STRIP_WIDTH
    &&& strip.height == STRIP_HEIGHT
    &&& forall|x: int, y: int|
        0 <= x < STRIP_WIDTH && 0 <= y < STRIP_HEIGHT ==> #[trigger] strip.pixel(x, y)
            == strip_pixel(pieces, x, y)
}

/// An empty filmstrip.
fn blank_strip() -> (r: Frame)
    ensures
        r@.wf(),
        r@.width == STRIP_WIDTH,
        r@.height == STRIP_HEIGHT,
        forall|x: int, y: int|
            0 <= x < STRIP_WIDTH && 0 <= y < STRIP_HEIGHT ==> #[trigger] r@.pixel(x, y) == seq![
                0u8,
                0,
                0,
                0,
            ],
{
    let mut rgba: Vec<u8> = Vec::new();
    for i in 0..27648usize
        invariant
            rgba@.len() == i,
            forall|j: int| 0 <= j < i ==> rgba@[j] == 0,
    {
        rgba.push(0);
    }
    let r = Frame { width: STRIP_WIDTH, height: STRIP_HEIGHT, rgba };
    assert forall|x: int, y: int| 0 <= x < STRIP_WIDTH && 0 <= y < STRIP_HEIGHT implies
        #[trigger] r@.pixel(x, y) == seq![0u8, 0, 0, 0] by {
        assert(r@.pixel(x, y) =~= seq![0u8, 0, 0, 0]);
    }
    r
}

/// Composes a filmstrip from pieces of the size of its places, in order; the
/// place of a piece that is missing stays empty.
pub fn compose_strip(pieces: &Vec<Option<Frame>>) -> (r: Frame)
    requires
        pieces@.len() <= STRIP_FRAMES,
        forall|k: int|
            0 <= k < pieces@.len() ==> (#[trigger] pieces@[k] matches Some(f) ==> f@.width
                == STRIP_FRAME_WIDTH && f@.height == STRIP_HEIGHT),
    ensures
        is_strip_of(r@, frame_views(pieces@)),
{
    let ghost views = frame_views(pieces@);
    let mut strip = blank_strip();
    for k in 0..pieces.len()
        invariant
            pieces@.len() <= STRIP_FRAMES,
            forall|k: int|
                0 <= k < pieces@.len() ==> (#[trigger] pieces@[k] matches Some(f) ==> f@.width
                    == STRIP_FRAME_WIDTH && f@.height == STRIP_HEIGHT),
            views == frame_views(pieces@),
            is_strip_of(strip@, views.take(k as int)),
    {
        let ghost before = strip@;
        assert(views[k as int] == frame_view(pieces@[k as int]));
        if let Some(f) = &pieces[k] {
            replace(&mut strip, f, k as i64 * STRIP_FRAME_WIDTH as i64, 0);
        }
        assert forall|x: int, y: int| 0 <= x < STRIP_WIDTH && 0 <= y < STRIP_HEIGHT implies
            #[trigger] strip@.pixel(x, y) == strip_pixel(views.take(k + 1), x, y) by {
            assert(before.pixel(x, y) == strip_pixel(views.take(k as int), x, y));
        }
    }
    assert(views.take(pieces@.len() as int) =~= views);
    strip
}

/// Composes the filmstrip of a clip from its frames, in order, each resized to
/// its place; the place of a frame that is missing stays empty.
pub fn filmstrip(frames: &Vec<Option<Frame>>) -> (r: Frame)
    requires
        frames@.len() <= STRIP_FRAMES,
    ensures
        is_strip_of(r@, smalls(frame_views(frames@))),
{
    let mut pieces: Vec<Option<Frame>> = Vec::new();
    for k in 0..frames.len()
        invariant
            frames@.len() <= STRIP_FRAMES,
            pieces@.len() == k,
            frame_views(pieces@) == smalls(frame_views(frames@)).take(k as int),
            forall|k: int|
                0 <= k < pieces@.len() ==> (#[trigger] pieces@[k] matches Some(f) ==> f@.width
                    == STRIP_FRAME_WIDTH && f@.height == STRIP_HEIGHT),
    {
        let ghost before = pieces@;
        let piece = match &frames[k] {
            Some(f) => Some(resize(f, STRIP_FRAME_WIDTH, STRIP_HEIGHT)),
            None => None,
        };
        proof {
            assert(frame_views(frames@)[k as int] == frame_view(frames@[k as int]));
            if let Some(f) = frames@[k as int] {
                assert(piece->0@ =~= small(f@));
            }
        }
        pieces.push(piece);
        assert(frame_views(pieces@) =~= frame_views(before).push(frame_view(piece)));
        assert(frame_views(pieces@) =~= smalls(frame_views(frames@)).take(k + 1));
    }
    assert(frame_views(pieces@) =~= smalls(frame_views(frames@)));
    compose_strip(&pieces)
}

// ---------------------------------------------------------------------------
// Colors
// ---------------------------------------------------------------------------

/// A color: red, green, blue.
pub type Color = (u8, u8, u8);

/// The color at a position of a file: the byte there and the two that follow,
/// round the end.
pub open spec fn color_at(bytes: Seq<u8>, position: int) -> Color {
    let n = bytes.len() as int;
    let i = position % n;
    (bytes[i], bytes[(i + 1) % n], bytes[(i + 2) % n])
}

/// The colors that stand for a clip.
pub open spec fn colors_at(bytes: Seq<u8>, positions: Seq<usize>) -> Seq<Color> {
    positions.map_values(|p: usize| color_at(bytes, p as int))
}

/// The contents of a list of lists.
pub open spec fn rows<A>(v: Seq<Vec<A>>) -> Seq<Seq<A>> {
    v.map_values(|row: Vec<A>| row@)
}

/// The colors that stand for each clip; none where there are no bytes.
pub open spec fn visuals(bytes: Option<Seq<u8>>, positions: Seq<Seq<usize>>) -> Seq<Seq<Color>> {
    match bytes {
        Some(b) => if b.len() == 0 {
            Seq::empty()
        } else {
            positions.map_values(|p: Seq<usize>| colors_at(b, p))
        },
        None => Seq::empty(),
    }
}

/// Reads the colors at positions of a file.
fn read_colors(bytes: &Vec<u8>, positions: &Vec<usize>) -> (r: Vec<Color>)
    requires
        bytes@.len() > 0,
    ensures
        r@ == colors_at(bytes@, positions@),
{
    let n: usize = bytes.len();
    let mut r: Vec<Color> = Vec::new();
    for k in 0..positions.len()
        invariant
            n == bytes@.len(),
            n > 0,
            r@ == colors_at(bytes@, positions@).take(k as int),
    {
        let i: usize = positions[k] % n;
        let j: usize = if i + 1 == n { 0 } else { i + 1 };
        let l: usize = if j + 1 == n { 0 } else { j + 1 };
        proof {
            wraps(i as int, n as int);
        }
        r.push((bytes[i], bytes[j], bytes[l]));
        assert(r@ =~= colors_at(bytes@, positions@).take(k + 1));
    }
    assert(r@ =~= colors_at(bytes@, positions@));
    r
}

/// Going round the end by one and by two.
proof fn wraps(i: int, n: int)
    requires
        0 <= i < n,
    ensures
        (i + 1) % n == if i + 1 == n { 0 } else { i + 1 },
        (i + 2) % n == ({
            let j = if i + 1 == n { 0 } else { i + 1 };
            if j + 1 == n { 0 } else { j + 1 }
        }),
{
    if i + 1 < n {
        vstd::arithmetic::div_mod::lemma_small_mod((i + 1) as nat, n as nat);
    }
    if i + 2 < n {
        vstd::arithmetic::div_mod::lemma_small_mod((i + 2) as nat, n as nat);
    } else if i + 2 == n {
        vstd::arithmetic::div_mod::lemma_mod_self_0(n);
    } else {
        vstd::arithmetic::div_mod::lemma_mod_add_multiples_vanish(i + 2 - n, n);
        if n > 1 {
            vstd::arithmetic::div_mod::lemma_small_mod((i + 2 - n) as nat, n as nat);
        }
    }
    if i + 1 == n {
        vstd::arithmetic::div_mod::lemma_mod_self_0(n);
    }
}

/// The colors that stand for each clip: `positions` holds, for each clip, where
/// in the file to look.
pub fn compute_visuals(bytes: &Option<Vec<u8>>, positions: &Vec<Vec<usize>>) -> (r: Vec<Vec<Color>>)
    ensures
        rows(r@) == visuals(
            match bytes {
                Some(b) => Some(b@),
                None => None,
            },
            rows(positions@),
        ),
{
    let mut r: Vec<Vec<Color>> = Vec::new();
    if let Some(b) = bytes {
        if b.len() > 0 {
            for k in 0..positions.len()
                invariant
                    b@.len() > 0,
                    rows(r@) == visuals(Some(b@), rows(positions@).take(k as int)),
            {
                let ghost before = rows(r@);
                let row = read_colors(b, &positions[k]);
                r.push(row);
                assert(rows(r@) =~= before.push(row@));
                assert(rows(positions@).take(k + 1) =~= rows(positions@).take(k as int).push(
                    positions@[k as int]@,
                ));
                assert(rows(r@) =~= visuals(Some(b@), rows(positions@).take(k + 1)));
            }
            assert(rows(positions@).take(positions@.len() as int) =~= rows(positions@));
        }
    }
    r
}

// ---------------------------------------------------------------------------
// Extraction
// ---------------------------------------------------------------------------

/// The width that a frame is extracted at.
pub open spec fn used_width(width: u32) -> u32 {
    if width < LEAST_WIDTH {
        LEAST_WIDTH
    } else {
        width
    }
}

/// The arguments that extract the frame at `time` seconds to the file `tmp`.
pub open spec fn extraction_args(
    path: Seq<char>,
    time: Seq<char>,
    width: u32,
    tmp: Seq<char>,
) -> Seq<Seq<char>> {
    seq![
        "-y"@,
        "-ss"@,
        time,
        "-i"@,
        sanitized(path),
        "-frames:v"@,
        "1"@,
        "-vf"@,
        "scale="@ + decimal(used_width(width) as nat)
            + ":-1:force_original_aspect_ratio=decrease"@,
        "-update"@,
        "1"@,
        sanitized(tmp),
    ]
}

/// Builds the arguments that extract the frame at `time` seconds.
pub fn frame_args(path: &str, time: &str, width: u32, tmp: &str) -> (args: Vec<String>)
    ensures
        texts(args@) == extraction_args(path@, time@, width, tmp@),
{
    let in_path = sanitize_path(path);
    let out_path = sanitize_path(tmp);
    let w: u32 = if width < LEAST_WIDTH { LEAST_WIDTH } else { width };
    let scale = join3(
        "scale=",
        decimal_text(w as u64).as_str(),
        ":-1:force_original_aspect_ratio=decrease",
    );
    let mut args: Vec<String> = Vec::new();
    push_texts(
        &mut args,
        vec![
            "-y",
            "-ss",
            time,
            "-i",
            in_path.as_str(),
            "-frames:v",
            "1",
            "-vf",
            scale.as_str(),
            "-update",
            "1",
            out_path.as_str(),
        ],
    );
    assert(texts(args@) =~= extraction_args(path@, time@, width, tmp@));
    args
}

/// The arguments that extract the sound of a video to the file `wav`.
pub open spec fn sound_args(path: Seq<char>, wav: Seq<char>) -> Seq<Seq<char>> {
    seq![
        "-i"@,
        sanitized(path),
        "-vn"@,
        "-acodec"@,
        "pcm_s16le"@,
        "-ar"@,
        "44100"@,
        "-ac"@,
        "2"@,
        "-y"@,
        sanitized(wav),
    ]
}

/// Builds the arguments that extract the sound of a video to a wave file.
pub fn extract_audio_to_wav(path: &str, wav: &str) -> (args: Vec<String>)
    ensures
        texts(args@) == sound_args(path@, wav@),
{
    let in_path = sanitize_path(path);
    let out_path = sanitize_path(wav);
    let mut args: Vec<String> = Vec::new();
    push_texts(
        &mut args,
        vec![
            "-i",
            in_path.as_str(),
            "-vn",
            "-acodec",
            "pcm_s16le",
            "-ar",
            "44100",
            "-ac",
            "2",
            "-y",
            out_path.as_str(),
        ],
    );
    assert(texts(args@) =~= sound_args(path@, wav@));
    args
}

/// Where an extraction stands.
#[derive(Clone, Copy, PartialEq, Eq)]
pub enum FrameStage {
    /// The video is being looked for.
    Source,
    /// ffmpeg runs.
    Run,
    /// The written frame is being looked for.
    Written,
    /// The frame is being opened.
    Open,
    /// The frame is being removed from disk.
    Clean,
    /// The extraction has ended.
    Over,
}

/// The extraction of a frame.
pub struct FrameJob {
    path: String,
    time: String,
    width: u32,
    exe: String,
    tmp: String,
    stage: FrameStage,
}

/// The content of an extraction: the video, the time in seconds as text, the
/// wanted width, the ffmpeg that is run, the file that it writes, and the stage.
#[verifier::ext_equal]
pub struct FrameJobView {
    pub path: Seq<char>,
    pub time: Seq<char>,
    pub width: u32,
    pub exe: Seq<char>,
    pub tmp: Seq<char>,
    pub stage: FrameStage,
}

impl View for FrameJob {
    type V = FrameJobView;

    closed spec fn view(&self) -> FrameJobView {
        FrameJobView {
            path: self.path@,
            time: self.time@,
            width: self.width,
            exe: self.exe@,
            tmp: self.tmp@,
            stage: self.stage,
        }
    }
}

impl FrameJobView {
    /// The extraction at another stage.
    pub open spec fn at(self, stage: FrameStage) -> FrameJobView {
        FrameJobView { stage, ..self }
    }

    /// The extraction as it ends.
    pub open spec fn ending(self, step: StepView) -> (FrameJobView, StepView) {
        (self.at(FrameStage::Over), step)
    }

    /// The message where nothing was written.
    pub open spec fn unwritten(self) -> Seq<char> {
        "ffmpeg did not write frame at t="@ + self.time + "s for "@ + self.path
    }

    /// The extraction and its next step after a reply.
    pub open spec fn after(self, event: EventView) -> (FrameJobView, StepView) {
        match self.stage {
            FrameStage::Source => if event.is_yes() {
                (
                    self.at(FrameStage::Run),
                    StepView::Act(
                        ActionView::StartFfmpeg(
                            extraction_args(self.path, self.time, self.width, self.tmp),
                        ),
                    ),
                )
            } else {
                self.ending(StepView::Failed("file not found: "@ + self.path))
            },
            FrameStage::Run => match event {
                EventView::Failed(_) => self.ending(
                    StepView::Failed("ffmpeg extract_frame spawn ("@ + self.exe + ")"@),
                ),
                EventView::Done { .. } => (
                    self.at(FrameStage::Written),
                    StepView::Act(ActionView::TestExists(self.tmp)),
                ),
            },
            FrameStage::Written => if event.is_yes() {
                (self.at(FrameStage::Open), StepView::Act(ActionView::OpenImage(self.tmp)))
            } else {
                self.ending(StepView::Failed(self.unwritten()))
            },
            FrameStage::Open => match event {
                EventView::Failed(_) => self.ending(
                    StepView::Failed("open extracted frame "@ + self.tmp),
                ),
                EventView::Done { .. } => (
                    self.at(FrameStage::Clean),
                    StepView::Act(ActionView::RemoveFile(self.tmp)),
                ),
            },
            FrameStage::Clean => self.ending(StepView::Finished(self.tmp)),
            FrameStage::Over => self.ending(StepView::Failed("the job has ended"@)),
        }
    }
}

/// Begins to extract the frame at `time` seconds of the video `path`, with the
/// ffmpeg at `exe`, through the file `tmp`.
pub fn extract_frame(path: &str, time: &str, width: u32, exe: &str, tmp: &str) -> (r: (
    FrameJob,
    Action,
))
    ensures
        r.0@ == (FrameJobView {
            path: path@,
            time: time@,
            width,
            exe: exe@,
            tmp: tmp@,
            stage: FrameStage::Source,
        }),
        r.1@ == ActionView::TestFile(path@),
{
    let job = FrameJob {
        path: owned(path),
        time: owned(time),
        width,
        exe: owned(exe),
        tmp: owned(tmp),
        stage: FrameStage::Source,
    };
    (job, Action::TestFile(owned(path)))
}

impl FrameJob {
    /// Ends with an error.
    fn fail(&mut self, message: &str) -> (step: Step)
        ensures
            (final(self)@, step@) == old(self)@.ending(StepView::Failed(message@)),
    {
        self.stage = FrameStage::Over;
        Step::Failed(owned(message))
    }

    /// Ends with the frame, which was opened before.
    fn finish(&mut self) -> (step: Step)
        ensures
            (final(self)@, step@) == old(self)@.ending(StepView::Finished(old(self)@.tmp)),
    {
        self.stage = FrameStage::Over;
        Step::Finished(owned(self.tmp.as_str()))
    }

    /// Takes the reply to the last action and says what comes next.
    pub fn advance(&mut self, event: &Event) -> (step: Step)
        ensures
            (final(self)@, step@) == old(self)@.after(event@),
    {
        match self.stage {
            FrameStage::Source => if event.is_yes() {
                self.stage = FrameStage::Run;
                Step::Act(
                    Action::StartFfmpeg(
                        frame_args(
                            self.path.as_str(),
                            self.time.as_str(),
                            self.width,
                            self.tmp.as_str(),
                        ),
                    ),
                )
            } else {
                let message = join2("file not found: ", self.path.as_str());
                self.fail(message.as_str())
            },
            FrameStage::Run => match event {
                Event::Failed(_) => {
                    let message = join3("ffmpeg extract_frame spawn (", self.exe.as_str(), ")");
                    self.fail(message.as_str())
                },
                Event::Done { .. } => {
                    self.stage = FrameStage::Written;
                    Step::Act(Action::TestExists(owned(self.tmp.as_str())))
                },
            },
            FrameStage::Written => if event.is_yes() {
                self.stage = FrameStage::Open;
                Step::Act(Action::OpenImage(owned(self.tmp.as_str())))
            } else {
                let head = join3(
                    "ffmpeg did not write frame at t=",
                    self.time.as_str(),
                    "s for ",
                );
                let message = join2(head.as_str(), self.path.as_str());
                self.fail(message.as_str())
            },
            FrameStage::Open => match event {
                Event::Failed(_) => {
                    let message = join2("open extracted frame ", self.tmp.as_str());
                    self.fail(message.as_str())
                },
                Event::Done { .. } => {
                    self.stage = FrameStage::Clean;
                    Step::Act(Action::RemoveFile(owned(self.tmp.as_str())))
                },
            },
            FrameStage::Clean => self.finish(),
            FrameStage::Over => self.fail("the job has ended"),
        }
    }
}

// ---------------------------------------------------------------------------
// Laws
// ---------------------------------------------------------------------------

/// How far an extraction is from its end.
pub open spec fn frame_steps_left(stage: FrameStage) -> nat {
    match stage {
        FrameStage::Source => 5,
        FrameStage::Run => 4,
        FrameStage::Written => 3,
        FrameStage::Open => 2,
        FrameStage::Clean => 1,
        FrameStage::Over => 0,
    }
}

/// How an extraction ends that has asked for `actions`, the last of them just
/// now, where the outside replies as `world` says.
pub open spec fn frame_run(job: FrameJobView, actions: Seq<ActionView>, world: World) -> Ending
    decreases frame_steps_left(job.stage),
{
    let (next, step) = job.after(world(actions));
    match step {
        StepView::Act(a) => if frame_steps_left(next.stage) < frame_steps_left(job.stage) {
            frame_run(next, actions.push(a), world)
        } else {
            Ending { step, actions }
        },
        _ => Ending { step, actions },
    }
}

/// An extraction ends well where the video is there, ffmpeg starts and writes
/// the frame, and the frame can be opened; the frame is then removed from disk.
pub proof fn frame_is_opened_and_removed(job: FrameJobView, before: Seq<ActionView>, world: World)
    requires
        job.stage == FrameStage::Source,
    ensures
        ({
            let found = before.push(ActionView::TestFile(job.path));
            let run = found.push(
                ActionView::StartFfmpeg(
                    extraction_args(job.path, job.time, job.width, job.tmp),
                ),
            );
            let written = run.push(ActionView::TestExists(job.tmp));
            let opened = written.push(ActionView::OpenImage(job.tmp));
            let removed = opened.push(ActionView::RemoveFile(job.tmp));
            let end = frame_run(job, found, world);
            if world(found).is_yes() && world(run) is Done && world(written).is_yes() && world(
                opened,
            ) is Done {
                end == (Ending { step: StepView::Finished(job.tmp), actions: removed })
            } else {
                end.step is Failed && end.actions.len() < removed.len()
            }
        }),
{
    reveal_with_fuel(frame_run, 6);
}

/// Each place of a filmstrip shows the piece that it is for, pixel by pixel,
/// and a place without a piece is empty.
pub proof fn each_place_shows_its_piece(
    strip: FrameView,
    pieces: Seq<Option<FrameView>>,
    k: int,
    x: int,
    y: int,
)
    requires
        is_strip_of(strip, pieces),
        0 <= k < STRIP_FRAMES,
        0 <= x < STRIP_FRAME_WIDTH,
        0 <= y < STRIP_HEIGHT,
    ensures
        strip.pixel(k * STRIP_FRAME_WIDTH + x, y) == if k < pieces.len() && pieces[k] is Some {
            pieces[k]->0.pixel(x, y)
        } else {
            seq![0, 0, 0, 0]
        },
{
    let at = k * STRIP_FRAME_WIDTH + x;
    assert(at / 64 == k);
    assert(strip.pixel(at, y) == strip_pixel(pieces, at, y));
}

} // verus!
