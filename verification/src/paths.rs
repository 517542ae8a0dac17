//! Media paths as text: cleaning them for ffmpeg, and telling videos and audio
//! tracks by their file name extension.
use crate::scan::{chars_at, split_after_separator, split_on, split_without_separator, starts_with};
use crate::text::{
    lower, lower_char, lower_char_range, lower_text, opt_text, replace_char, replaced, same_text,
    slice_text, str_texts, to_chars,
};
use vstd::prelude::*;
use vstd::string::*;

verus! {

/// Common video extensions accepted by Open, auto-load and the Concat list.
pub const VIDEO_EXTENSIONS: [&'static str; 30] = [
    "mp4",
    "mkv",
    "mov",
    "avi",
    "webm",
    "m4v",
    "mpg",
    "mpeg",
    "wmv",
    "flv",
    "ts",
    "m2ts",
    "mts",
    "3gp",
    "ogv",
    "vob",
    "f4v",
    "asf",
    "rm",
    "rmvb",
    "divx",
    "xvid",
    "hevc",
    "h265",
    "av1",
    "vp9",
    "mxf",
    "nut",
    "y4m",
    "webpm",
];

/// Audio extensions accepted for the track of an Add Audio job.
pub const AUDIO_EXTENSIONS: [&'static str; 11] = [
    "mp3",
    "wav",
    "aac",
    "m4a",
    "flac",
    "ogg",
    "opus",
    "wma",
    "aiff",
    "aif",
    "mka",
];

// ---------------------------------------------------------------------------
// Sanitizing
// ---------------------------------------------------------------------------

/// The prefix of a Windows verbatim path.
pub open spec fn verbatim_prefix() -> Seq<char> {
    seq!['\\', '\\', '?', '\\']
}

/// The path as ffmpeg takes it: without a verbatim prefix, and with forward
/// slashes only.
pub open spec fn sanitized(path: Seq<char>) -> Seq<char> {
    let bare = if starts_with(path, verbatim_prefix()) {
        path.skip(4)
    } else {
        path
    };
    replaced(bare, '\\', '/')
}

/// Sanitizes a path for ffmpeg: strips `\\?\` and turns backslashes into
/// forward slashes.
pub fn sanitize_path(path: &str) -> (r: String)
    ensures
        r@ == sanitized(path@),
{
    let v = to_chars(path);
    let prefix: Vec<char> = vec!['\\', '\\', '?', '\\'];
    assert(prefix@ == verbatim_prefix());
    assert(v@.skip(0) == path@);
    if chars_at(&v, 0, &prefix) {
        let bare = slice_text(&v, 4, v.len());
        assert(bare@ == path@.skip(4));
        replace_char(bare.as_str(), '\\', '/')
    } else {
        replace_char(path, '\\', '/')
    }
}

/// A sanitized path holds no backslash, so it does not start with the verbatim
/// prefix, and sanitizing it again changes nothing.
pub proof fn sanitized_is_clean(path: Seq<char>)
    ensures
        !sanitized(path).contains('\\'),
        !starts_with(sanitized(path), verbatim_prefix()),
        sanitized(sanitized(path)) == sanitized(path),
{
    let s = sanitized(path);
    assert forall|i: int| 0 <= i < s.len() implies s[i] != '\\' by {}
    if starts_with(s, verbatim_prefix()) {
        assert(s.take(4)[0] == '\\');
        assert(s[0] == '\\');
    }
    assert(replaced(s, '\\', '/') =~= s);
}

// ---------------------------------------------------------------------------
// File names
// ---------------------------------------------------------------------------

/// Where the last dot of a file name stands; -1 where there is none.
pub open spec fn last_dot(name: Seq<char>) -> int
    decreases name.len(),
{
    if name.len() == 0 {
        -1
    } else if name.last() == '.' {
        name.len() - 1
    } else {
        last_dot(name.drop_last())
    }
}

/// Whether a file name has an extension: a dot that does not begin the name.
pub open spec fn has_extension(name: Seq<char>) -> bool {
    name != seq!['.', '.'] && last_dot(name) > 0
}

/// The extension of a file name: what follows its last dot.
pub open spec fn extension_of(name: Seq<char>) -> Option<Seq<char>> {
    if has_extension(name) {
        Some(name.skip(last_dot(name) + 1))
    } else {
        None
    }
}

/// The stem of a file name: what precedes its last dot, or all of it.
pub open spec fn stem_of(name: Seq<char>) -> Seq<char> {
    if has_extension(name) {
        name.take(last_dot(name))
    } else {
        name
    }
}

/// The last dot is the last position that holds one.
pub proof fn last_dot_position(name: Seq<char>)
    ensures
        -1 <= last_dot(name) < name.len(),
        last_dot(name) >= 0 ==> name[last_dot(name)] == '.',
        forall|i: int| last_dot(name) < i < name.len() ==> name[i] != '.',
    decreases name.len(),
{
    if name.len() > 0 && name.last() != '.' {
        last_dot_position(name.drop_last());
        assert forall|i: int| last_dot(name) < i < name.len() implies name[i] != '.' by {
            if i < name.len() - 1 {
                assert(name.drop_last()[i] == name[i]);
            }
        }
    }
}

/// Finds the dot before the extension of a file name.
fn extension_dot(v: &Vec<char>) -> (r: Option<usize>)
    ensures
        match r {
            Some(d) => has_extension(v@) && d == last_dot(v@) && d < v@.len(),
            None => !has_extension(v@),
        },
{
    let n: usize = v.len();
    if n == 2 && v[0] == '.' && v[1] == '.' {
        assert(v@ =~= seq!['.', '.']);
        return None;
    }
    let mut i: usize = n;
    assert(v@.take(n as int) == v@);
    while i > 0
        invariant
            i <= n == v@.len(),
            last_dot(v@) == last_dot(v@.take(i as int)),
            v@ != seq!['.', '.'],
        decreases i,
    {
        i = i - 1;
        assert(v@.take(i + 1).drop_last() == v@.take(i as int));
        if v[i] == '.' {
            if i > 0 {
                return Some(i);
            }
            return None;
        }
    }
    None
}

/// The extension of a file name, if it has one.
pub fn extension(name: &str) -> (r: Option<String>)
    ensures
        opt_text(r) == extension_of(name@),
{
    let v = to_chars(name);
    let n: usize = v.len();
    match extension_dot(&v) {
        Some(d) => {
            let e = slice_text(&v, d + 1, n);
            assert(e@ == name@.skip(d + 1));
            Some(e)
        },
        None => None,
    }
}

/// The stem of a file name.
pub fn stem(name: &str) -> (r: String)
    ensures
        r@ == stem_of(name@),
{
    let v = to_chars(name);
    match extension_dot(&v) {
        Some(d) => {
            let s = slice_text(&v, 0, d);
            assert(s@ == name@.take(d as int));
            s
        },
        None => {
            let s = slice_text(&v, 0, v.len());
            assert(s@ == name@);
            s
        },
    }
}

/// Whether an extension, whatever its case, stands in a list of extensions.
pub open spec fn listed(ext: Seq<char>, list: Seq<&str>) -> bool {
    str_texts(list).contains(lower(ext))
}

/// Whether a file name has an extension of a list.
pub open spec fn named_in(name: Seq<char>, list: Seq<&str>) -> bool {
    match extension_of(name) {
        Some(e) => listed(e, list),
        None => false,
    }
}

/// Decides whether a file name has an extension of a list.
fn name_in(name: &str, list: &[&str]) -> (r: bool)
    ensures
        r == named_in(name@, list@),
{
    let ext = match extension(name) {
        Some(e) => lower_text(e.as_str()),
        None => {
            return false;
        },
    };
    for i in 0..list.len()
        invariant
            extension_of(name@) is Some,
            ext@ == lower(extension_of(name@)->0),
            forall|j: int| 0 <= j < i ==> str_texts(list@)[j] != ext@,
    {
        if same_text(list[i], ext.as_str()) {
            assert(str_texts(list@)[i as int] == ext@);
            return true;
        }
    }
    false
}

/// Whether a file name is that of a video.
pub fn is_video_name(name: &str) -> (r: bool)
    ensures
        r == named_in(name@, VIDEO_EXTENSIONS@),
{
    name_in(name, VIDEO_EXTENSIONS.as_slice())
}

/// Whether a file name is that of an audio track.
pub fn is_audio_name(name: &str) -> (r: bool)
    ensures
        r == named_in(name@, AUDIO_EXTENSIONS@),
{
    name_in(name, AUDIO_EXTENSIONS.as_slice())
}

/// The characters that extensions are made of.
pub open spec fn is_plain(c: char) -> bool {
    'a' <= c <= 'z' || '0' <= c <= '9'
}

/// Every listed extension is made of lower-case letters and digits, and of at
/// least one of them.
proof fn extensions_are_plain()
    ensures
        forall|i: int| 0 <= i < 30 ==> (#[trigger] VIDEO_EXTENSIONS@[i])@.len() > 0,
        forall|i: int| 0 <= i < 11 ==> (#[trigger] AUDIO_EXTENSIONS@[i])@.len() > 0,
        forall|i: int, k: int|
            0 <= i < 30 && 0 <= k < VIDEO_EXTENSIONS@[i]@.len() ==> is_plain(
                #[trigger] VIDEO_EXTENSIONS@[i]@[k],
            ),
        forall|i: int, k: int|
            0 <= i < 11 && 0 <= k < AUDIO_EXTENSIONS@[i]@.len() ==> is_plain(
                #[trigger] AUDIO_EXTENSIONS@[i]@[k],
            ),
{
    reveal_strlit("mp4");
    reveal_strlit("mkv");
    reveal_strlit("mov");
    reveal_strlit("avi");
    reveal_strlit("webm");
    reveal_strlit("m4v");
    reveal_strlit("mpg");
    reveal_strlit("mpeg");
    reveal_strlit("wmv");
    reveal_strlit("flv");
    reveal_strlit("ts");
    reveal_strlit("m2ts");
    reveal_strlit("mts");
    reveal_strlit("3gp");
    reveal_strlit("ogv");
    reveal_strlit("vob");
    reveal_strlit("f4v");
    reveal_strlit("asf");
    reveal_strlit("rm");
    reveal_strlit("rmvb");
    reveal_strlit("divx");
    reveal_strlit("xvid");
    reveal_strlit("hevc");
    reveal_strlit("h265");
    reveal_strlit("av1");
    reveal_strlit("vp9");
    reveal_strlit("mxf");
    reveal_strlit("nut");
    reveal_strlit("y4m");
    reveal_strlit("webpm");
    reveal_strlit("mp3");
    reveal_strlit("wav");
    reveal_strlit("aac");
    reveal_strlit("m4a");
    reveal_strlit("flac");
    reveal_strlit("ogg");
    reveal_strlit("opus");
    reveal_strlit("wma");
    reveal_strlit("aiff");
    reveal_strlit("aif");
    reveal_strlit("mka");
}

// ---------------------------------------------------------------------------
// Paths
// ---------------------------------------------------------------------------

/// The characters that end a directory or a drive on some platform.
pub open spec fn is_separator(c: char) -> bool {
    c == '/' || c == '\\' || c == ':'
}

/// Whether a path begins with two slashes, as a network path does.
pub open spec fn double_root(path: Seq<char>) -> bool {
    path.len() >= 2 && (path[0] == '/' || path[0] == '\\') && (path[1] == '/' || path[1] == '\\')
}

/// The characters that part the names of a path on some platform.
pub open spec fn is_slash(c: char) -> bool {
    c == '/' || c == '\\'
}

/// Where the name ends that begins at `from`: at the next slash, or with the
/// path.
pub open spec fn name_end(path: Seq<char>, from: int) -> int
    decreases path.len() - from,
{
    if from >= path.len() || from < 0 || is_slash(path[from]) {
        from
    } else {
        name_end(path, from + 1)
    }
}

/// Whether a path begins as that of a file on a share: two slashes, the name of
/// a server, which is neither a question mark nor a dot, the name of a share,
/// and a slash.
pub open spec fn has_share(path: Seq<char>) -> bool {
    let server = name_end(path, 2);
    let share = name_end(path, server + 1);
    &&& double_root(path)
    &&& 2 < server
    &&& path.subrange(2, server) != seq!['?']
    &&& path.subrange(2, server) != seq!['.']
    &&& server + 1 < share < path.len()
}

/// Whether a path begins as a verbatim one, with backslashes only: the verbatim
/// prefix, a name, and a backslash; and behind `UNC` a server and a share too.
pub open spec fn has_verbatim_root(path: Seq<char>) -> bool {
    let first = name_end(path, 4);
    let server = name_end(path, first + 1);
    let share = name_end(path, server + 1);
    &&& starts_with(path, verbatim_prefix())
    &&& !path.contains('/')
    &&& 4 < first < path.len()
    &&& path.subrange(4, first) == seq!['U', 'N', 'C'] ==> first + 1 < server && server + 1 < share
        < path.len()
}

/// A path that every platform reads alike: forward slashes only, no drive and
/// no network root.
pub open spec fn slash_path(path: Seq<char>) -> bool {
    !path.contains('\\') && !path.contains(':') && !double_root(path)
}

/// The components of a slash path: what stands between its slashes, without
/// empty components and dots.
pub open spec fn components(path: Seq<char>) -> Seq<Seq<char>> {
    split_on(path, '/').filter(|c: Seq<char>| c.len() > 0 && c != seq!['.'])
}

/// The file name of a slash path: its last component, unless that leads
/// upwards.
pub open spec fn slash_file_name(path: Seq<char>) -> Option<Seq<char>> {
    let parts = components(path);
    if parts.len() == 0 || parts.last() == seq!['.', '.'] {
        None
    } else {
        Some(parts.last())
    }
}

/// What follows the last separator of any platform.
pub open spec fn base_name(path: Seq<char>) -> Seq<char>
    decreases path.len(),
{
    if path.len() == 0 || is_separator(path.last()) {
        Seq::empty()
    } else {
        base_name(path.drop_last()).push(path.last())
    }
}

/// Whether `s` stands at the end of `path`.
pub open spec fn ends_with(path: Seq<char>, s: Seq<char>) -> bool {
    s.len() <= path.len() && path.skip(path.len() - s.len()) == s
}

/// A path that ends, on every platform, in a name that does not begin with a
/// dot; where it begins with two slashes, the name stands behind a share or a
/// verbatim root.
pub open spec fn visible_base(path: Seq<char>) -> bool {
    &&& double_root(path) ==> has_share(path) || has_verbatim_root(path)
    &&& base_name(path).len() > 0
    &&& base_name(path)[0] != '.'
}

/// Whether a character may stand behind the file name of a path.
pub open spec fn is_trailing(c: char) -> bool {
    is_slash(c) || c == '.'
}

/// Whether a name is a piece of a path with nothing but slashes and dots behind
/// it, and begins the path or stands behind a separator of some platform.
pub open spec fn is_last_piece(path: Seq<char>, name: Seq<char>) -> bool {
    exists|at: int|
        0 <= at && at + name.len() <= path.len() && #[trigger] path.subrange(
            at,
            at + name.len(),
        ) == name && (at > 0 ==> is_separator(path[at - 1])) && forall|i: int|
            at + name.len() <= i < path.len() ==> is_trailing(#[trigger] path[i])
}

/// Whether a path begins with a drive: a letter and a colon.
pub open spec fn has_drive(path: Seq<char>) -> bool {
    path.len() >= 2 && path[1] == ':' && ('a' <= path[0] <= 'z' || 'A' <= path[0] <= 'Z')
}

/// The path behind its drive, if it has one.
pub open spec fn behind_drive(path: Seq<char>) -> Seq<char> {
    if has_drive(path) {
        path.skip(2)
    } else {
        path
    }
}

/// The file name of a path where backslashes part names as slashes do.
pub open spec fn any_slash_file_name(path: Seq<char>) -> Option<Seq<char>> {
    slash_file_name(replaced(path, '\\', '/'))
}

/// The file name of a path on a platform with drives and backslashes.
pub open spec fn drive_file_name(path: Seq<char>) -> Option<Seq<char>> {
    any_slash_file_name(behind_drive(path))
}

/// The path behind the server and the share that it begins with.
pub open spec fn behind_share(path: Seq<char>) -> Seq<char> {
    path.skip(name_end(path, name_end(path, 2) + 1))
}

/// The path without the slashes at its end.
pub open spec fn without_slashes(path: Seq<char>) -> Seq<char>
    decreases path.len(),
{
    if path.len() > 0 && path.last() == '/' {
        without_slashes(path.drop_last())
    } else {
        path
    }
}

/// A path that ends, on every platform, in a name that does not begin with a
/// dot, but for slashes at its end. In a verbatim path such slashes would belong
/// to the name.
pub open spec fn solid_base(path: Seq<char>) -> bool {
    let p = without_slashes(path);
    visible_base(p) && (p == path || !starts_with(path, verbatim_prefix()))
}

/// Whether every platform reads the same file name from a path: that of the
/// path as a slash path.
pub open spec fn one_reading(path: Seq<char>) -> bool {
    slash_path(path) || !double_root(path) && slash_file_name(path) == drive_file_name(path)
}

/// What a platform may read as the file name of a path.
///
/// There are two readings: that of a platform where the slash alone parts names,
/// and that of a platform with drives and backslashes. On a slash path they
/// agree. On a path that begins with two slashes they are fixed where names stand
/// behind a server and a share. On any path the name is a piece of it that begins
/// it or stands behind a separator, with nothing but slashes and dots behind it,
/// and holds no slash unless the path is verbatim. Where a path ends in a visible
/// name, but for slashes behind it, the file name ends there too and holds at
/// least that name.
pub open spec fn may_be_file_name(path: Seq<char>, name: Option<Seq<char>>) -> bool {
    &&& name matches Some(n) ==> is_last_piece(path, n)
    &&& name matches Some(n) ==> starts_with(path, verbatim_prefix()) || !n.contains('/')
    &&& slash_path(path) ==> name == slash_file_name(path)
    &&& !double_root(path) ==> name == slash_file_name(path) || name == drive_file_name(path)
    &&& has_share(path) && any_slash_file_name(behind_share(path)) is Some ==> name
        == slash_file_name(path) || name == any_slash_file_name(behind_share(path))
    &&& solid_base(path) ==> {
        let p = without_slashes(path);
        name is Some && ends_with(p, name->0) && name->0.len() >= base_name(p).len()
    }
}

/// The file name of a path, by `std::path::Path::file_name`.
///
/// It is the last component, as the platform parts components: by slashes alone,
/// or by slashes and backslashes behind a drive, a share or a verbatim root. The
/// contract says what either reading gives, as far as the path does not begin
/// with two slashes or stands on a share. Of verbatim and device paths, and of
/// others that begin with two slashes, it says only where the name may stand in
/// the path, and that it ends a path that ends in a visible name behind a
/// verbatim root (`\\?\C:\`, `\\?\UNC\server\share\`). Which of the two readings
/// applies is the platform's matter.
#[verifier::external_body]
pub(crate) fn file_name(path: &str) -> (r: Option<String>)
    ensures
        may_be_file_name(path@, opt_text(r)),
{
    let name = std::path::Path::new(path).file_name();
    name.and_then(|n| n.to_str()).map(|n| n.to_string())
}

/// The base name of a path ends it, holds no separator, and stands behind one
/// unless it is the whole path.
pub proof fn base_name_position(path: Seq<char>)
    ensures
        ends_with(path, base_name(path)),
        forall|i: int| 0 <= i < base_name(path).len() ==> !is_separator(base_name(path)[i]),
        base_name(path).len() < path.len() ==> is_separator(
            path[path.len() - base_name(path).len() - 1],
        ),
    decreases path.len(),
{
    if path.len() > 0 && !is_separator(path.last()) {
        let front = path.drop_last();
        base_name_position(front);
        let b = base_name(path);
        assert(path.skip(path.len() - b.len()) =~= front.skip(
            front.len() - base_name(front).len(),
        ).push(path.last()));
    } else {
        assert(path.skip(path.len() as int) =~= Seq::empty());
    }
}

/// Lower case keeps separators.
proof fn lower_keeps_separators(c: char)
    ensures
        is_separator(c) ==> lower_char(c) == c,
        is_separator(c) ==> !is_plain(c),
{
}

/// A longer end of a path is listed where its base name is.
proof fn ends_share_extension(path: Seq<char>, name: Seq<char>, list: Seq<&str>)
    requires
        visible_base(path),
        ends_with(path, name),
        name.len() >= base_name(path).len(),
        forall|i: int, k: int|
            0 <= i < list.len() && 0 <= k < list[i]@.len() ==> is_plain(#[trigger] list[i]@[k]),
    ensures
        named_in(name, list) == named_in(base_name(path), list),
{
    let b = base_name(path);
    base_name_position(path);
    last_dot_position(b);
    last_dot_position(name);
    let shift = name.len() - b.len();
    assert forall|i: int| 0 <= i < b.len() implies b[i] == #[trigger] name[shift + i] by {
        assert(path.skip(path.len() - b.len())[i] == path[path.len() - b.len() + i]);
        assert(path.skip(path.len() - name.len())[shift + i] == path[path.len() - b.len() + i]);
    }
    assert(name[shift + 0] == b[0]);
    if shift == 0 {
        assert(name =~= b);
    } else {
        assert(path.skip(path.len() - name.len())[shift - 1] == path[path.len() - b.len() - 1]);
        assert(is_separator(name[shift - 1]));
        assert(name != seq!['.', '.']) by {
            assert(name[shift - 1] != '.');
        }
        if last_dot(b) >= 0 {
            assert(last_dot(b) > 0);
            assert(name[shift + last_dot(b)] == '.');
            assert forall|i: int| shift + last_dot(b) < i < name.len() implies name[i] != '.' by {
                assert(b[i - shift] == name[shift + (i - shift)]);
            }
            assert(last_dot(name) == shift + last_dot(b));
            assert(name.skip(last_dot(name) + 1) =~= b.skip(last_dot(b) + 1));
            assert(b != seq!['.', '.']) by {
                assert(b[0] != '.');
            }
        } else {
            assert(!has_extension(b));
            if has_extension(name) {
                let d = last_dot(name);
                if d >= shift {
                    assert(b[d - shift] == name[shift + (d - shift)]);
                }
                let e = extension_of(name)->0;
                let at = shift - 1 - (d + 1);
                assert(e[at] == name[shift - 1]);
                lower_keeps_separators(e[at]);
                if listed(e, list) {
                    let i = choose|i: int|
                        0 <= i < str_texts(list).len() && str_texts(list)[i] == lower(e);
                    assert(list[i]@ == lower(e));
                    assert(lower(e)[at] == e[at]);
                    assert(is_plain(list[i]@[at]));
                }
            }
        }
    }
}

/// The path without the slashes and dots at its end.
pub open spec fn without_trailing(path: Seq<char>) -> Seq<char>
    decreases path.len(),
{
    if path.len() > 0 && is_trailing(path.last()) {
        without_trailing(path.drop_last())
    } else {
        path
    }
}

/// Whether what follows the last dot of a path, without slashes and dots at its
/// end, is an extension of a list.
pub open spec fn ends_listed(path: Seq<char>, list: Seq<&str>) -> bool {
    let p = without_trailing(path);
    last_dot(p) >= 0 && listed(p.skip(last_dot(p) + 1), list)
}

/// A path ends where its last piece does, but for slashes and dots.
proof fn trailing_is_dropped(path: Seq<char>, end: int)
    requires
        0 < end <= path.len(),
        !is_trailing(path[end - 1]),
        forall|i: int| end <= i < path.len() ==> is_trailing(#[trigger] path[i]),
    ensures
        without_trailing(path) == path.take(end),
    decreases path.len(),
{
    if path.len() > end {
        assert(is_trailing(path[path.len() - 1]));
        let less = path.drop_last();
        assert forall|i: int| end <= i < less.len() implies is_trailing(#[trigger] less[i]) by {
            assert(is_trailing(path[i]));
        }
        trailing_is_dropped(less, end);
        assert(less.take(end) =~= path.take(end));
    } else {
        assert(path.take(end) =~= path);
    }
}

/// A path whose file name has a listed extension ends in that extension.
proof fn last_piece_ends_the_path(path: Seq<char>, name: Seq<char>, list: Seq<&str>)
    requires
        is_last_piece(path, name),
        named_in(name, list),
        forall|i: int| 0 <= i < list.len() ==> (#[trigger] list[i])@.len() > 0,
        forall|i: int, k: int|
            0 <= i < list.len() && 0 <= k < list[i]@.len() ==> is_plain(#[trigger] list[i]@[k]),
    ensures
        ends_listed(path, list),
{
    let at = choose|at: int|
        0 <= at && at + name.len() <= path.len() && #[trigger] path.subrange(
            at,
            at + name.len(),
        ) == name && (at > 0 ==> is_separator(path[at - 1])) && forall|i: int|
            at + name.len() <= i < path.len() ==> is_trailing(#[trigger] path[i]);
    let end = at + name.len();
    last_dot_position(name);
    let d = last_dot(name);
    let e = extension_of(name)->0;
    let i = choose|i: int| 0 <= i < str_texts(list).len() && str_texts(list)[i] == lower(e);
    assert(list[i]@ == lower(e));
    assert(e.len() > 0);
    let last = e.len() - 1;
    assert(is_plain(list[i]@[last]));
    assert(lower(e)[last] == lower_char(e[last]));
    lower_char_range(e[last]);
    assert forall|k: int| 0 <= k < name.len() implies name[k] == #[trigger] path[at + k] by {
        assert(path.subrange(at, end)[k] == path[at + k]);
    }
    assert(e[last] == name[name.len() - 1]);
    assert(path[at + (name.len() - 1)] == name[name.len() - 1]);
    trailing_is_dropped(path, end);
    let p = path.take(end);
    last_dot_position(p);
    assert(p[at + d] == '.');
    assert forall|k: int| at + d < k < p.len() implies p[k] != '.' by {
        assert(name[k - at] == path[at + (k - at)]);
    }
    assert(last_dot(p) == at + d);
    assert(p.skip(last_dot(p) + 1) =~= e);
}

/// Whether a file name, if there is one, has an extension of a list.
pub open spec fn name_listed(name: Option<Seq<char>>, list: Seq<&str>) -> bool {
    match name {
        Some(n) => named_in(n, list),
        None => false,
    }
}

/// Whether the file name of a path has an extension of a list, where slashes
/// alone part names.
pub open spec fn path_named_in(path: Seq<char>, list: Seq<&str>) -> bool {
    name_listed(slash_file_name(path), list)
}

/// Whether the file name of a path has an extension of a list, on a platform
/// with drives and backslashes.
pub open spec fn drive_named_in(path: Seq<char>, list: Seq<&str>) -> bool {
    name_listed(drive_file_name(path), list)
}

/// What follows for a path from what a platform reads as its file name.
proof fn reading_decides(path: Seq<char>, name: Option<Seq<char>>, list: Seq<&str>)
    requires
        may_be_file_name(path, name),
        forall|i: int| 0 <= i < list.len() ==> (#[trigger] list[i])@.len() > 0,
        forall|i: int, k: int|
            0 <= i < list.len() && 0 <= k < list[i]@.len() ==> is_plain(#[trigger] list[i]@[k]),
    ensures
        slash_path(path) ==> name_listed(name, list) == path_named_in(path, list),
        !double_root(path) && path_named_in(path, list) == drive_named_in(path, list)
            ==> name_listed(name, list) == path_named_in(path, list),
        solid_base(path) ==> name_listed(name, list) == named_in(
            base_name(without_slashes(path)),
            list,
        ),
        name_listed(name, list) ==> ends_listed(path, list),
{
    if let Some(n) = name {
        if solid_base(path) {
            ends_share_extension(without_slashes(path), n, list);
        }
        if named_in(n, list) {
            last_piece_ends_the_path(path, n, list);
        }
    }
}

/// Whether a path looks like a video by its extension, whatever its case.
pub fn is_video_path(path: &str) -> (r: bool)
    ensures
        exists|name: Option<Seq<char>>| #[trigger]
            may_be_file_name(path@, name) && r == name_listed(name, VIDEO_EXTENSIONS@),
        slash_path(path@) ==> r == path_named_in(path@, VIDEO_EXTENSIONS@),
        !double_root(path@) && path_named_in(path@, VIDEO_EXTENSIONS@) == drive_named_in(
            path@,
            VIDEO_EXTENSIONS@,
        ) ==> r == path_named_in(path@, VIDEO_EXTENSIONS@),
        solid_base(path@) ==> r == named_in(
            base_name(without_slashes(path@)),
            VIDEO_EXTENSIONS@,
        ),
        r ==> ends_listed(path@, VIDEO_EXTENSIONS@),
{
    let name = file_name(path);
    let r = match &name {
        Some(n) => is_video_name(n.as_str()),
        None => false,
    };
    proof {
        extensions_are_plain();
        reading_decides(path@, opt_text(name), VIDEO_EXTENSIONS@);
    }
    r
}

/// Whether a path looks like an audio track by its extension, whatever its
/// case.
pub fn is_audio_path(path: &str) -> (r: bool)
    ensures
        exists|name: Option<Seq<char>>| #[trigger]
            may_be_file_name(path@, name) && r == name_listed(name, AUDIO_EXTENSIONS@),
        slash_path(path@) ==> r == path_named_in(path@, AUDIO_EXTENSIONS@),
        !double_root(path@) && path_named_in(path@, AUDIO_EXTENSIONS@) == drive_named_in(
            path@,
            AUDIO_EXTENSIONS@,
        ) ==> r == path_named_in(path@, AUDIO_EXTENSIONS@),
        solid_base(path@) ==> r == named_in(
            base_name(without_slashes(path@)),
            AUDIO_EXTENSIONS@,
        ),
        r ==> ends_listed(path@, AUDIO_EXTENSIONS@),
{
    let name = file_name(path);
    let r = match &name {
        Some(n) => is_audio_name(n.as_str()),
        None => false,
    };
    proof {
        extensions_are_plain();
        reading_decides(path@, opt_text(name), AUDIO_EXTENSIONS@);
    }
    r
}

// ---------------------------------------------------------------------------
// Laws
// ---------------------------------------------------------------------------

/// A name without slashes is its own file name.
pub proof fn bare_name_is_its_file_name(name: Seq<char>)
    requires
        name.len() > 0,
        !name.contains('/'),
        name != seq!['.'],
        name != seq!['.', '.'],
    ensures
        slash_file_name(name) == Some(name),
{
    split_without_separator(name, '/');
    let keep = |c: Seq<char>| c.len() > 0 && c != seq!['.'];
    let parts = seq![name];
    reveal_with_fuel(Seq::filter, 2);
    assert(parts.drop_last() =~= Seq::<Seq<char>>::empty());
    assert(parts.filter(keep) =~= seq![name]);
}

/// A file in a directory has its own name as its file name, whatever the
/// directory.
pub proof fn name_in_directory(dir: Seq<char>, name: Seq<char>)
    requires
        name.len() > 0,
        !name.contains('/'),
        name != seq!['.'],
        name != seq!['.', '.'],
    ensures
        slash_file_name(dir + seq!['/'] + name) == Some(name),
{
    let path = dir + seq!['/'] + name;
    let keep = |c: Seq<char>| c.len() > 0 && c != seq!['.'];
    split_after_separator(dir, name, '/');
    let parts = split_on(path, '/');
    assert(parts.last() == name);
    reveal_with_fuel(Seq::filter, 2);
    assert(parts.filter(keep).last() == name);
}

/// Two names that differ in ASCII case only have extensions that differ in case
/// only.
proof fn case_keeps_the_dot(a: Seq<char>, b: Seq<char>)
    requires
        lower(a) == lower(b),
    ensures
        last_dot(a) == last_dot(b),
        has_extension(a) == has_extension(b),
        has_extension(a) ==> lower(extension_of(a)->0) == lower(extension_of(b)->0),
{
    last_dot_position(a);
    last_dot_position(b);
    assert(a.len() == lower(a).len() == b.len());
    assert forall|i: int| 0 <= i < a.len() implies (a[i] == '.') == (b[i] == '.') by {
        assert(lower(a)[i] == lower_char(a[i]) && lower(b)[i] == lower_char(b[i]));
        lower_char_range(a[i]);
        lower_char_range(b[i]);
    }
    assert(last_dot(a) == last_dot(b));
    if a == seq!['.', '.'] || b == seq!['.', '.'] {
        assert(a.len() == 2);
        assert(a[0] == '.' && b[0] == '.' && a[1] == '.' && b[1] == '.');
        assert(a =~= b);
    }
    if has_extension(a) {
        let k = last_dot(a) + 1;
        assert(lower(a.skip(k)) =~= lower(a).skip(k));
        assert(lower(b.skip(k)) =~= lower(b).skip(k));
    }
}

/// The case of a file name decides nothing.
pub proof fn case_does_not_matter(a: Seq<char>, b: Seq<char>)
    requires
        lower(a) == lower(b),
    ensures
        named_in(a, VIDEO_EXTENSIONS@) == named_in(b, VIDEO_EXTENSIONS@),
        named_in(a, AUDIO_EXTENSIONS@) == named_in(b, AUDIO_EXTENSIONS@),
{
    case_keeps_the_dot(a, b);
}

/// No file name is both that of a video and that of an audio track.
pub proof fn videos_are_not_audio(name: Seq<char>)
    ensures
        !(named_in(name, VIDEO_EXTENSIONS@) && named_in(name, AUDIO_EXTENSIONS@)),
{
    if named_in(name, VIDEO_EXTENSIONS@) && named_in(name, AUDIO_EXTENSIONS@) {
        let e = lower(extension_of(name)->0);
        let i = choose|i: int|
            0 <= i < str_texts(VIDEO_EXTENSIONS@).len() && str_texts(VIDEO_EXTENSIONS@)[i] == e;
        let j = choose|j: int|
            0 <= j < str_texts(AUDIO_EXTENSIONS@).len() && str_texts(AUDIO_EXTENSIONS@)[j] == e;
        lists_are_disjoint(i, j);
    }
}

/// No path is that of a video and of an audio track: whatever a platform reads
/// as its file name, it does not end in a video extension where it ends in an
/// audio extension.
pub proof fn no_path_is_video_and_audio(
    path: Seq<char>,
    a: Option<Seq<char>>,
    b: Option<Seq<char>>,
)
    requires
        may_be_file_name(path, a),
        may_be_file_name(path, b),
    ensures
        !(ends_listed(path, VIDEO_EXTENSIONS@) && ends_listed(path, AUDIO_EXTENSIONS@)),
        !((a matches Some(n) && named_in(n, VIDEO_EXTENSIONS@)) && (b matches Some(n) && named_in(
            n,
            AUDIO_EXTENSIONS@,
        ))),
{
    extensions_are_plain();
    if ends_listed(path, VIDEO_EXTENSIONS@) && ends_listed(path, AUDIO_EXTENSIONS@) {
        let p = without_trailing(path);
        let e = lower(p.skip(last_dot(p) + 1));
        let i = choose|i: int|
            0 <= i < str_texts(VIDEO_EXTENSIONS@).len() && str_texts(VIDEO_EXTENSIONS@)[i] == e;
        let j = choose|j: int|
            0 <= j < str_texts(AUDIO_EXTENSIONS@).len() && str_texts(AUDIO_EXTENSIONS@)[j] == e;
        lists_are_disjoint(i, j);
    }
    if let (Some(m), Some(n)) = (a, b) {
        if named_in(m, VIDEO_EXTENSIONS@) {
            last_piece_ends_the_path(path, m, VIDEO_EXTENSIONS@);
        }
        if named_in(n, AUDIO_EXTENSIONS@) {
            last_piece_ends_the_path(path, n, AUDIO_EXTENSIONS@);
        }
    }
}

proof fn lists_are_disjoint(i: int, j: int)
    requires
        0 <= i < 30,
        0 <= j < 11,
    ensures
        VIDEO_EXTENSIONS@[i]@ != AUDIO_EXTENSIONS@[j]@,
{
    let v = VIDEO_EXTENSIONS@[i]@;
    let a = AUDIO_EXTENSIONS@[j]@;
    if v == a {
        assert(v.len() == a.len() && v[0] == a[0] && v[1] == a[1] && v[2] == a[2]);
        reveal_strlit("mp4");
        reveal_strlit("mkv");
        reveal_strlit("mov");
        reveal_strlit("avi");
        reveal_strlit("webm");
        reveal_strlit("m4v");
        reveal_strlit("mpg");
        reveal_strlit("mpeg");
        reveal_strlit("wmv");
        reveal_strlit("flv");
        reveal_strlit("ts");
        reveal_strlit("m2ts");
        reveal_strlit("mts");
        reveal_strlit("3gp");
        reveal_strlit("ogv");
        reveal_strlit("vob");
        reveal_strlit("f4v");
        reveal_strlit("asf");
        reveal_strlit("rm");
        reveal_strlit("rmvb");
        reveal_strlit("divx");
        reveal_strlit("xvid");
        reveal_strlit("hevc");
        reveal_strlit("h265");
        reveal_strlit("av1");
        reveal_strlit("vp9");
        reveal_strlit("mxf");
        reveal_strlit("nut");
        reveal_strlit("y4m");
        reveal_strlit("webpm");
        reveal_strlit("mp3");
        reveal_strlit("wav");
        reveal_strlit("aac");
        reveal_strlit("m4a");
        reveal_strlit("flac");
        reveal_strlit("ogg");
        reveal_strlit("opus");
        reveal_strlit("wma");
        reveal_strlit("aiff");
        reveal_strlit("aif");
        reveal_strlit("mka");
    }
}

} // verus!
