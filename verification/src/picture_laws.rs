//! Laws of pictures: the places of a filmstrip and the colors of a clip.
use crate::frames::{
    color_at, colors_at, is_strip_of, resized, smalls, strip_pixel, visuals, FrameView,
    GREATEST_SIDE, LEAST_WIDTH, STRIP_FRAMES, STRIP_FRAME_WIDTH, STRIP_HEIGHT, STRIP_WIDTH,
};
use vstd::prelude::*;

verus! {

/// A filmstrip shows three frames of 64 by 36 pixels side by side.
pub proof fn measures_of_a_strip()
    ensures
        STRIP_FRAMES == 3,
        STRIP_FRAME_WIDTH == 64,
        STRIP_HEIGHT == 36,
        STRIP_WIDTH == 192,
        LEAST_WIDTH == 16,
        GREATEST_SIDE == 65535,
{
}

/// A pixel of a filmstrip is that of the piece whose place it is in, at the same
/// distance from its left side, and is empty where the piece is missing.
pub proof fn pixel_of_a_strip(
    strip: FrameView,
    pieces: Seq<Option<FrameView>>,
    k: int,
    x: int,
    y: int,
)
    requires
        is_strip_of(strip, pieces),
        0 <= k < 3,
        0 <= x < 64,
        0 <= y < 36,
    ensures
        strip.width == 192 && strip.height == 36 && strip.rgba.len() == 4 * 192 * 36,
        k < pieces.len() ==> (pieces[k] matches Some(f) ==> strip.pixel(64 * k + x, y) == f.pixel(
            x,
            y,
        )),
        k >= pieces.len() || pieces[k] is None ==> strip.pixel(64 * k + x, y) == seq![0u8, 0, 0, 0],
{
    let at = 64 * k + x;
    assert(at / 64 == k);
    assert(strip.pixel(at, y) == strip_pixel(pieces, at, y));
}

/// A pixel is the four bytes at its place, row by row from the top.
pub proof fn pixel_is_four_bytes(f: FrameView, x: int, y: int, i: int)
    requires
        f.wf(),
        0 <= x < f.width,
        0 <= y < f.height,
        0 <= i < 4,
    ensures
        f.pixel(x, y).len() == 4,
        f.pixel(x, y)[i] == f.rgba[4 * (y * f.width + x) + i],
{
    let w = f.width as int;
    let h = f.height as int;
    let at = y * w + x;
    assert(0 <= at < w * h) by (nonlinear_arith)
        requires
            0 <= x < w,
            0 <= y < h,
            at == y * w + x,
    ;
}

/// The frames of a filmstrip are made as large as their places, in order; one that
/// is missing stays missing.
pub proof fn frames_fit_their_places(frames: Seq<Option<FrameView>>, k: int)
    requires
        0 <= k < frames.len(),
    ensures
        smalls(frames).len() == frames.len(),
        frames[k] is None ==> smalls(frames)[k] is None,
        frames[k] matches Some(f) ==> smalls(frames)[k] == Some(
            FrameView {
                width: 64,
                height: 36,
                rgba: resized(f.width, f.height, f.rgba, 64, 36),
            },
        ),
{
}

/// The colors of a clip are one for each position that is looked at, in order: the
/// byte there, the next and the one after it, going round the end of the file.
/// Without bytes there are no colors.
pub proof fn colors_are_the_bytes_there(bytes: Seq<u8>, positions: Seq<Seq<usize>>, c: int, k: int)
    requires
        bytes.len() > 0,
        0 <= c < positions.len(),
        0 <= k < positions[c].len(),
    ensures
        ({
            let n = bytes.len() as int;
            let at = positions[c][k] as int;
            let all = visuals(Some(bytes), positions);
            &&& all.len() == positions.len()
            &&& all[c].len() == positions[c].len()
            &&& all[c][k] == (bytes[at % n], bytes[(at % n + 1) % n], bytes[(at % n + 2) % n])
        }),
        visuals(None, positions).len() == 0,
        visuals(Some(Seq::empty()), positions).len() == 0,
{
    assert(visuals(Some(bytes), positions)[c] == colors_at(bytes, positions[c]));
    assert(colors_at(bytes, positions[c])[k] == color_at(bytes, positions[c][k] as int));
}

} // verus!
