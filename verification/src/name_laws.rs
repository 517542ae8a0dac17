//! Laws of names and places: what outputs and temporary files are called, what a
//! folder listing holds, and where the kit is looked for.
use crate::convert::{convert_start, formats, ConvertFormat};
use crate::folders::{dated_mp4, files_named_in, in_order, is_video_entry, DirEntry};
use crate::kit::{
    ffprobe_places, folder_places, places_in, search_roots, tool_places, with_folder, PlaceView,
    ToolSearchView, ToolStepView, FFMPEG_VARIABLE, FFPROBE_VARIABLE, FOLDER_VARIABLE, KIT_FOLDER,
    LEVELS_UP,
};
use crate::naming::{
    audio_stem, base_text, candidate, concat_stem, edited_name_text, join_list_text, numbered,
    prefixed_stem, search_for, segment_text, stamp_text, stamped, NameSearchView, NameStepView,
    LAST_NUMBER,
};
use crate::order_laws::{pick_goes_on, pick_of_nothing, picks};
use crate::paths::{extension_of, named_in, stem_of, VIDEO_EXTENSIONS};
use crate::text::{decimal, lower, text_le};
use vstd::prelude::*;
use vstd::string::*;

verus! {

// ---------------------------------------------------------------------------
// Outputs
// ---------------------------------------------------------------------------

/// A time stamp is the seconds since the epoch in decimal notation, and zero for a
/// clock that stands before it.
pub proof fn stamp_is_the_seconds(n: u64)
    ensures
        stamp_text(Some(n)) == decimal(n as nat),
        stamp_text(None) == decimal(0),
{
}

/// The names that are tried for an output: the plain one, then the same with `_2`,
/// `_3` and so on up to `_9999` before the extension, and last the same with a
/// time stamp.
pub proof fn names_are_numbered(stem: Seq<char>, ext: Seq<char>, n: nat, secs: Option<u64>)
    ensures
        candidate(stem, ext, 1) == stem + ext,
        n >= 2 ==> candidate(stem, ext, n) == stem + "_"@ + decimal(n) + ext,
        stamped(stem, ext, secs) == stem + "_"@ + stamp_text(secs) + ext,
        LAST_NUMBER == 9999,
{
}

/// A search for a name begins with the plain one. A name that is not taken is the
/// answer; behind a taken one the next number is tried, and behind the last number
/// the stamped name is the answer.
pub proof fn search_goes_by_number(s: NameSearchView, secs: Option<u64>)
    requires
        s.wf(),
    ensures
        search_for(s.stem, s.ext) == (NameSearchView { stem: s.stem, ext: s.ext, number: 1 }),
        s.name() == candidate(s.stem, s.ext, s.number),
        s.step(false, secs) == NameStepView::Take(candidate(s.stem, s.ext, s.number)),
        s.number < 9999 ==> s.step(true, secs) == NameStepView::Check(
            candidate(s.stem, s.ext, s.number + 1),
        ),
        s.number == 9999 ==> s.step(true, secs) == NameStepView::Take(
            stamped(s.stem, s.ext, secs),
        ),
        s.next() == (NameSearchView { stem: s.stem, ext: s.ext, number: s.number + 1 }),
{
}

/// What the outputs of the jobs are called: by the time, or by the file that they
/// are made from.
pub proof fn outputs_are_named(
    secs: Option<u64>,
    name: Seq<char>,
    prefix: Seq<char>,
    fallback: Seq<char>,
)
    ensures
        concat_stem(secs) == "combined_"@ + stamp_text(secs),
        audio_stem(true, secs) == "plus-audio-combined_"@ + "rev-audio"@ + "_"@ + stamp_text(secs),
        audio_stem(false, secs) == "plus-audio-combined_"@ + "fwd"@ + "_"@ + stamp_text(secs),
        prefixed_stem(prefix, Some(name), fallback) == prefix + stem_of(name),
        prefixed_stem(prefix, None, fallback) == prefix + fallback,
{
}

/// What exports and temporary files are called: the names carry the time, and those
/// of the segments of an export their number too.
pub proof fn exports_are_named(
    secs: u64,
    at: Option<u64>,
    name: Seq<char>,
    tail: Seq<char>,
    i: nat,
)
    ensures
        edited_name_text(Some(name), secs) == stem_of(name) + "-edited-"@ + decimal(secs as nat)
            + ".mp4"@,
        edited_name_text(None, secs) == "-edited-"@ + decimal(secs as nat) + ".mp4"@,
        segment_text(secs, i) == "vc_seg_"@ + decimal(secs as nat) + "_"@ + decimal(i) + ".mp4"@,
        join_list_text(at) == "vcc_concat_"@ + stamp_text(at) + ".txt"@,
        base_text(at) == "vcc_silent_base_"@ + stamp_text(at) + ".mp4"@,
        numbered(name, i, tail) == name + decimal(i) + tail,
{
    assert(edited_name_text(Some(name), secs) =~= stem_of(name) + "-edited-"@ + decimal(secs as nat)
        + ".mp4"@);
    assert(edited_name_text(None, secs) =~= "-edited-"@ + decimal(secs as nat) + ".mp4"@);
    assert(segment_text(secs, i) =~= "vc_seg_"@ + decimal(secs as nat) + "_"@ + decimal(i)
        + ".mp4"@);
}

/// A conversion looks for a name made of `converted_`, the stem of the input and
/// the extension of the format, beginning with the plain one.
pub proof fn conversion_is_named_after_its_input(
    input: Seq<char>,
    folder: Seq<char>,
    format: ConvertFormat,
    name: Option<Seq<char>>,
)
    ensures
        ({
            let job = convert_start(input, folder, format, name);
            &&& job.input == input
            &&& job.folder == folder
            &&& job.format == format
            &&& job.search.number == 1
            &&& job.search.stem == "converted_"@ + match name {
                Some(n) => stem_of(n),
                None => "converted"@,
            }
            &&& job.search.ext == match format {
                ConvertFormat::Mp4 => ".mp4"@,
                ConvertFormat::Webm => ".webm"@,
                ConvertFormat::Mov => ".mov"@,
                ConvertFormat::Mkv => ".mkv"@,
                ConvertFormat::Avi => ".avi"@,
            }
        }),
{
}

/// The formats are offered in one order, each with its label and its extension.
pub proof fn formats_are_known()
    ensures
        formats() == seq![
            ConvertFormat::Mp4,
            ConvertFormat::Webm,
            ConvertFormat::Mov,
            ConvertFormat::Mkv,
            ConvertFormat::Avi,
        ],
        ConvertFormat::Mp4.label_text() == "MP4 (H.264)"@ && ConvertFormat::Mp4.ext_text()
            == ".mp4"@,
        ConvertFormat::Webm.label_text() == "WebM (VP9)"@ && ConvertFormat::Webm.ext_text()
            == ".webm"@,
        ConvertFormat::Mov.label_text() == "MOV (H.264)"@ && ConvertFormat::Mov.ext_text()
            == ".mov"@,
        ConvertFormat::Mkv.label_text() == "MKV (H.264)"@ && ConvertFormat::Mkv.ext_text()
            == ".mkv"@,
        ConvertFormat::Avi.label_text() == "AVI (H.264)"@ && ConvertFormat::Avi.ext_text()
            == ".avi"@,
{
}

// ---------------------------------------------------------------------------
// Folders
// ---------------------------------------------------------------------------

/// A listing takes the names of the files with an extension of the list, each once
/// and before it is put in order of name.
pub proof fn listing_takes_the_named_files(entries: Seq<DirEntry>, list: Seq<&str>)
    ensures
        picks(
            files_named_in(entries, list),
            entries.map_values(|e: DirEntry| e.name@),
            |i: int| entries[i].is_file && named_in(entries[i].name@, list),
        ),
{
    listing_so_far(entries, entries.len(), list);
    assert(entries.take(entries.len() as int) =~= entries);
}

proof fn listing_so_far(entries: Seq<DirEntry>, n: nat, list: Seq<&str>)
    requires
        n <= entries.len(),
    ensures
        picks(
            files_named_in(entries.take(n as int), list),
            entries.take(n as int).map_values(|e: DirEntry| e.name@),
            |i: int| entries[i].is_file && named_in(entries[i].name@, list),
        ),
    decreases n,
{
    let chosen = |i: int| entries[i].is_file && named_in(entries[i].name@, list);
    let now = entries.take(n as int);
    let names = now.map_values(|e: DirEntry| e.name@);
    if n == 0 {
        pick_of_nothing::<Seq<char>>(chosen);
        assert(names =~= Seq::<Seq<char>>::empty());
        assert(files_named_in(now, list) =~= Seq::<Seq<char>>::empty());
    } else {
        let m = (n - 1) as nat;
        let front = entries.take(m as int);
        let before = front.map_values(|e: DirEntry| e.name@);
        listing_so_far(entries, m, list);
        assert(now.drop_last() =~= front);
        assert(now.last() == entries[m as int]);
        pick_goes_on(files_named_in(front, list), before, entries[m as int].name@, chosen);
        assert(before.push(entries[m as int].name@) =~= names);
    }
}

/// Names are in order where each comes before every later one.
pub proof fn order_of_names(names: Seq<Seq<char>>, i: int, j: int)
    requires
        in_order(names),
        0 <= i <= j < names.len(),
    ensures
        text_le(names[i], names[j]),
{
}

/// An entry counts as a dated mp4 where its extension is `mp4`, in any case, and
/// its time is known; and as a video where it is a file with a video extension.
pub proof fn entries_are_told(e: DirEntry)
    ensures
        dated_mp4(e) == (e.modified is Some && (extension_of(e.name@) matches Some(x) && lower(x)
            == "mp4"@)),
        is_video_entry(e) == (e.is_file && named_in(e.name@, VIDEO_EXTENSIONS@)),
{
}

// ---------------------------------------------------------------------------
// The kit
// ---------------------------------------------------------------------------

/// The names that the environment and a project give the kit.
pub proof fn kit_is_named()
    ensures
        KIT_FOLDER@ == "engine"@,
        FFMPEG_VARIABLE@ == "VCC_FFMPEG"@,
        FFPROBE_VARIABLE@ == "VCC_FFPROBE"@,
        FOLDER_VARIABLE@ == "VCC_FFMPEG_DIR"@,
        LEVELS_UP == 3,
{
}

/// The roots that are looked at: the working folder first, then the folders above
/// the program, the nearest first and at most three of them.
pub proof fn roots_are_near(cwd: Option<Seq<char>>, above: Seq<Seq<char>>)
    ensures
        ({
            let roots = search_roots(cwd, above);
            let near = if above.len() > 3 {
                3
            } else {
                above.len() as int
            };
            let first: int = if cwd is Some {
                1
            } else {
                0
            };
            &&& roots.len() == first + near
            &&& cwd is Some ==> roots[0] == cwd->0
            &&& forall|i: int| 0 <= i < near ==> roots[first + i] == #[trigger] above[i]
        }),
{
}

/// The places that may be the folder of the kit: the named folder, the kit folder
/// in each root, then each root itself.
pub proof fn folder_places_in_order(
    named: Option<Seq<char>>,
    cwd: Option<Seq<char>>,
    above: Seq<Seq<char>>,
)
    ensures
        ({
            let roots = search_roots(cwd, above);
            let places = folder_places(named, cwd, above);
            let first: int = if named is Some {
                1
            } else {
                0
            };
            &&& places.len() == first + 2 * roots.len()
            &&& named is Some ==> places[0] == PlaceView::At(named->0)
            &&& forall|i: int|
                0 <= i < roots.len() ==> places[first + i] == (PlaceView::In {
                    folder: #[trigger] roots[i],
                    name: "engine"@,
                })
            &&& forall|i: int|
                0 <= i < roots.len() ==> places[first + roots.len() + i] == PlaceView::At(
                    #[trigger] roots[i],
                )
        }),
{
}

/// Where the Windows name and the plain name of a tool stand for folder `i`.
spec fn has_both(
    places: Seq<PlaceView>,
    from: int,
    dirs: Seq<Seq<char>>,
    exe: Seq<char>,
    plain: Seq<char>,
    i: int,
) -> bool {
    &&& places[from + 2 * i] == (PlaceView::In { folder: dirs[i], name: exe })
    &&& places[from + 2 * i + 1] == (PlaceView::In { folder: dirs[i], name: plain })
}

proof fn both_names_in_each_folder(dirs: Seq<Seq<char>>, exe: Seq<char>, plain: Seq<char>)
    ensures
        places_in(dirs, exe, plain).len() == 2 * dirs.len(),
        forall|i: int|
            0 <= i < dirs.len() ==> #[trigger] has_both(
                places_in(dirs, exe, plain),
                0,
                dirs,
                exe,
                plain,
                i,
            ),
    decreases dirs.len(),
{
    if dirs.len() > 0 {
        let front = dirs.drop_last();
        let all = places_in(dirs, exe, plain);
        both_names_in_each_folder(front, exe, plain);
        assert forall|i: int| 0 <= i < dirs.len() implies #[trigger] has_both(
            all,
            0,
            dirs,
            exe,
            plain,
            i,
        ) by {
            if i < front.len() {
                assert(has_both(places_in(front, exe, plain), 0, front, exe, plain, i));
            }
        }
    }
}

/// The places of a tool: the named file, then in each folder, in order, the Windows
/// name and the plain name; for ffprobe last its Windows name beside ffmpeg.
pub proof fn tool_places_in_order(
    named: Option<Seq<char>>,
    dirs: Seq<Seq<char>>,
    exe: Seq<char>,
    plain: Seq<char>,
    beside: Option<Seq<char>>,
    i: int,
)
    requires
        0 <= i < dirs.len(),
    ensures
        ({
            let places = tool_places(named, dirs, exe, plain);
            let probe = ffprobe_places(named, dirs, beside);
            let first: int = if named is Some {
                1
            } else {
                0
            };
            &&& places.len() == first + 2 * dirs.len()
            &&& named is Some ==> places[0] == PlaceView::At(named->0) && probe[0]
                == PlaceView::At(named->0)
            &&& places[first + 2 * i] == (PlaceView::In { folder: dirs[i], name: exe })
            &&& places[first + 2 * i + 1] == (PlaceView::In { folder: dirs[i], name: plain })
            &&& probe[first + 2 * i] == (PlaceView::In { folder: dirs[i], name: "ffprobe.exe"@ })
            &&& probe[first + 2 * i + 1] == (PlaceView::In { folder: dirs[i], name: "ffprobe"@ })
            &&& beside is None ==> probe.len() == first + 2 * dirs.len()
            &&& beside is Some ==> probe.len() == first + 2 * dirs.len() + 1 && probe.last() == (
            PlaceView::In { folder: beside->0, name: "ffprobe.exe"@ })
        }),
{
    both_names_in_each_folder(dirs, exe, plain);
    both_names_in_each_folder(dirs, "ffprobe.exe"@, "ffprobe"@);
    assert(has_both(places_in(dirs, exe, plain), 0, dirs, exe, plain, i));
    assert(has_both(
        places_in(dirs, "ffprobe.exe"@, "ffprobe"@),
        0,
        dirs,
        "ffprobe.exe"@,
        "ffprobe"@,
        i,
    ));
}

/// A search tests its places one after the other: a place that is a file is the
/// answer, behind one that is not the next is tested, and behind the last the bare
/// name is the answer.
pub proof fn tools_are_tested_in_turn(s: ToolSearchView)
    requires
        s.wf(),
    ensures
        s.at < s.places.len() ==> {
            &&& s.step() == ToolStepView::Test(s.places[s.at as int])
            &&& s.after(true) == ToolStepView::Use(s.places[s.at as int])
            &&& s.at + 1 < s.places.len() ==> s.after(false) == ToolStepView::Test(
                s.places[s.at as int + 1],
            )
            &&& s.at + 1 == s.places.len() ==> s.after(false) == ToolStepView::Use(
                PlaceView::At(s.bare),
            )
        },
        s.at == s.places.len() ==> s.step() == ToolStepView::Use(PlaceView::At(s.bare)),
        s.next() == (ToolSearchView { places: s.places, bare: s.bare, at: s.at + 1 }),
{
}

/// A folder is added at the end where it is a folder and none of the list is the
/// same; the list stays as it is in all other cases.
pub proof fn folder_is_added_at_the_end(
    dirs: Seq<Seq<char>>,
    path: Seq<char>,
    is_dir: bool,
    same: Seq<bool>,
)
    requires
        same.len() == dirs.len(),
    ensures
        ({
            let known = exists|i: int| 0 <= i < same.len() && #[trigger] same[i];
            let after = with_folder(dirs, path, is_dir, same);
            &&& !is_dir || known ==> after == dirs
            &&& is_dir && !known ==> {
                &&& after.len() == dirs.len() + 1
                &&& after.last() == path
                &&& forall|i: int| 0 <= i < dirs.len() ==> after[i] == #[trigger] dirs[i]
            }
        }),
{
    if exists|i: int| 0 <= i < same.len() && #[trigger] same[i] {
        let i = choose|i: int| 0 <= i < same.len() && #[trigger] same[i];
        assert(same[i] == true);
        assert(same.contains(true));
    }
}

} // verus!
