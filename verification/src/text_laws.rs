//! Laws of texts and paths: numbers, dictionary order, lines, markers, and the parts
//! of a file name, character by character.
use crate::kit::{drive, may_be_same, same_drive_path, same_slash_path};
use crate::paths::{
    behind_drive, components, extension_of, last_dot, last_dot_position, may_be_file_name,
    name_listed, named_in, one_reading, path_named_in, sanitized, slash_file_name, stem_of,
    verbatim_prefix, AUDIO_EXTENSIONS, VIDEO_EXTENSIONS,
};
use crate::scan::{
    after_first, before_first, is_white, joined, lines, split_on, split_on_joined, starts_with,
    strip_cr, trim_end, trim_start, trimmed,
};
use crate::text::{decimal, digit, lower, replaced, str_texts, text_le};
use vstd::prelude::*;
use vstd::string::*;

verus! {

// ---------------------------------------------------------------------------
// Numbers
// ---------------------------------------------------------------------------

/// The number that a row of digits stands for.
pub open spec fn number_of(s: Seq<char>) -> int
    decreases s.len(),
{
    if s.len() == 0 {
        0
    } else {
        10 * number_of(s.drop_last()) + (s.last() as int - '0' as int)
    }
}

/// Decimal notation is read back as the number, is made of digits, and has no
/// leading zero.
pub proof fn decimal_reads_back(n: nat)
    ensures
        number_of(decimal(n)) == n,
        decimal(n).len() > 0,
        forall|k: int| 0 <= k < decimal(n).len() ==> '0' <= #[trigger] decimal(n)[k] <= '9',
        n > 0 ==> decimal(n)[0] != '0',
        n == 0 ==> decimal(n) == seq!['0'],
    decreases n,
{
    let all = seq!['0', '1', '2', '3', '4', '5', '6', '7', '8', '9'];
    assert(forall|i: int| 0 <= i < 10 ==> #[trigger] all[i] as int == 48 + i);
    assert(digit(n % 10) == all[(n % 10) as int]);
    if n < 10 {
        assert(decimal(n).drop_last() =~= Seq::<char>::empty());
        assert(digit(n) == all[n as int]);
        reveal_with_fuel(number_of, 2);
    } else {
        decimal_reads_back(n / 10);
        assert(decimal(n).drop_last() =~= decimal(n / 10));
        assert(decimal(n)[0] == decimal(n / 10)[0]);
    }
}

// ---------------------------------------------------------------------------
// Dictionary order
// ---------------------------------------------------------------------------

/// In dictionary order one text comes before another where it is the beginning of
/// it, or has the smaller character where they first differ.
pub proof fn order_by_the_first_difference(a: Seq<char>, b: Seq<char>)
    ensures
        text_le(a, b) == (starts_with(b, a) || exists|k: int|
            0 <= k < a.len() && k < b.len() && #[trigger] a.take(k) == b.take(k) && a[k] < b[k]),
    decreases a.len(),
{
    let less = exists|k: int|
        0 <= k < a.len() && k < b.len() && #[trigger] a.take(k) == b.take(k) && a[k] < b[k];
    if a.len() == 0 {
        assert(b.take(0) =~= a);
    } else if b.len() == 0 {
    } else if a[0] != b[0] {
        if starts_with(b, a) {
            assert(b.take(a.len() as int)[0] == a[0]);
        }
        if a[0] < b[0] {
            assert(a.take(0) =~= b.take(0));
        }
        if less {
            let k = choose|k: int|
                0 <= k < a.len() && k < b.len() && #[trigger] a.take(k) == b.take(k) && a[k] < b[k];
            if k > 0 {
                assert(a.take(k)[0] == b.take(k)[0]);
            }
        }
    } else {
        let x = a.drop_first();
        let y = b.drop_first();
        order_by_the_first_difference(x, y);
        assert(starts_with(b, a) == starts_with(y, x)) by {
            if starts_with(b, a) {
                assert(y.take(x.len() as int) =~= b.take(a.len() as int).drop_first());
                assert(y.take(x.len() as int) =~= x);
            }
            if starts_with(y, x) {
                assert(b.take(a.len() as int) =~= seq![b[0]] + y.take(x.len() as int));
                assert(b.take(a.len() as int) =~= a);
            }
        }
        if less {
            let k = choose|k: int|
                0 <= k < a.len() && k < b.len() && #[trigger] a.take(k) == b.take(k) && a[k] < b[k];
            assert(k > 0);
            assert(x.take(k - 1) =~= a.take(k).drop_first());
            assert(y.take(k - 1) =~= b.take(k).drop_first());
            assert(x[k - 1] < y[k - 1]);
        }
        if exists|k: int|
            0 <= k < x.len() && k < y.len() && #[trigger] x.take(k) == y.take(k) && x[k] < y[k] {
            let k = choose|k: int|
                0 <= k < x.len() && k < y.len() && #[trigger] x.take(k) == y.take(k) && x[k] < y[k];
            assert(a.take(k + 1) =~= seq![a[0]] + x.take(k));
            assert(b.take(k + 1) =~= seq![b[0]] + y.take(k));
            assert(a[k + 1] < b[k + 1]);
        }
    }
}

// ---------------------------------------------------------------------------
// Characters
// ---------------------------------------------------------------------------

/// Folding turns each capital letter into the small one and leaves every other
/// character, in its place.
pub proof fn folding_keeps_the_places(s: Seq<char>, i: int)
    requires
        0 <= i < s.len(),
    ensures
        lower(s).len() == s.len(),
        'A' <= s[i] <= 'Z' ==> lower(s)[i] as int == s[i] as int + 32,
        !('A' <= s[i] <= 'Z') ==> lower(s)[i] == s[i],
{
}

/// Replacing puts the one character wherever the other stood, and leaves all else
/// in its place.
pub proof fn replacing_keeps_the_places(s: Seq<char>, from: char, to: char, i: int)
    requires
        0 <= i < s.len(),
    ensures
        replaced(s, from, to).len() == s.len(),
        replaced(s, from, to)[i] == if s[i] == from {
            to
        } else {
            s[i]
        },
{
}

/// A path is handed to ffmpeg as it is, but for a verbatim prefix, which is left
/// out, and for backslashes, which become slashes.
pub proof fn sanitizing_keeps_the_path(path: Seq<char>)
    ensures
        ({
            let verbatim = path.len() >= 4 && path[0] == '\\' && path[1] == '\\' && path[2] == '?'
                && path[3] == '\\';
            let bare = if verbatim {
                path.skip(4)
            } else {
                path
            };
            &&& sanitized(path).len() == bare.len()
            &&& forall|i: int|
                0 <= i < bare.len() ==> #[trigger] sanitized(path)[i] == if bare[i] == '\\' {
                    '/'
                } else {
                    bare[i]
                }
        }),
{
    let verbatim = path.len() >= 4 && path[0] == '\\' && path[1] == '\\' && path[2] == '?'
        && path[3] == '\\';
    if verbatim {
        assert(path.take(4) =~= verbatim_prefix());
    }
    if starts_with(path, verbatim_prefix()) {
        let p = path.take(4);
        assert(p[0] == path[0] && p[1] == path[1] && p[2] == path[2] && p[3] == path[3]);
    }
}

// ---------------------------------------------------------------------------
// File names
// ---------------------------------------------------------------------------

/// A file name is its stem, a dot and its extension, where the stem is not empty
/// and the extension holds no dot; a name without extension is its own stem, and
/// holds no dot but at its beginning, unless it is the name of the folder above.
pub proof fn stem_and_extension_make_the_name(name: Seq<char>)
    ensures
        match extension_of(name) {
            Some(e) => {
                &&& name == stem_of(name) + seq!['.'] + e
                &&& stem_of(name).len() > 0
                &&& !e.contains('.')
            },
            None => {
                &&& stem_of(name) == name
                &&& name == seq!['.', '.'] || forall|i: int|
                    0 < i < name.len() ==> #[trigger] name[i] != '.'
            },
        },
{
    last_dot_position(name);
    if let Some(e) = extension_of(name) {
        let d = last_dot(name);
        assert(name =~= stem_of(name) + seq!['.'] + e);
        assert forall|i: int| 0 <= i < e.len() implies e[i] != '.' by {
            assert(name[d + 1 + i] != '.');
        }
    }
}

/// A name that is made of a stem, a dot and an extension has that stem and that
/// extension.
pub proof fn parts_of_a_made_name(stem: Seq<char>, e: Seq<char>)
    requires
        stem.len() > 0,
        !e.contains('.'),
        !(stem == seq!['.'] && e.len() == 0),
    ensures
        extension_of(stem + seq!['.'] + e) == Some(e),
        stem_of(stem + seq!['.'] + e) == stem,
{
    let name = stem + seq!['.'] + e;
    let d = stem.len() as int;
    last_dot_position(name);
    assert(name[d] == '.');
    assert forall|i: int| d < i < name.len() implies name[i] != '.' by {
        assert(e.contains(e[i - d - 1]));
    }
    assert(last_dot(name) == d);
    if name == seq!['.', '.'] {
        assert(name.len() == 2);
        assert(stem =~= seq!['.']);
    }
    assert(name.skip(d + 1) =~= e);
    assert(name.take(d) =~= stem);
}

/// A file name is in a list of extensions exactly where its extension, in small
/// letters, is one of them.
pub proof fn listed_by_the_extension(name: Seq<char>, list: Seq<&str>)
    ensures
        named_in(name, list) == (extension_of(name) matches Some(e) && exists|i: int|
            0 <= i < list.len() && (#[trigger] list[i])@ == lower(e)),
{
    if let Some(e) = extension_of(name) {
        let all = str_texts(list);
        if named_in(name, list) {
            let i = choose|i: int| 0 <= i < all.len() && all[i] == lower(e);
            assert(list[i]@ == lower(e));
        }
        if exists|i: int| 0 <= i < list.len() && (#[trigger] list[i])@ == lower(e) {
            let i = choose|i: int| 0 <= i < list.len() && (#[trigger] list[i])@ == lower(e);
            assert(all[i] == lower(e));
        }
    }
}

/// The extensions of videos and of audio tracks.
pub proof fn known_extensions()
    ensures
        str_texts(VIDEO_EXTENSIONS@) == seq![
            "mp4"@, "mkv"@, "mov"@, "avi"@, "webm"@, "m4v"@, "mpg"@, "mpeg"@, "wmv"@, "flv"@,
            "ts"@, "m2ts"@, "mts"@, "3gp"@, "ogv"@, "vob"@, "f4v"@, "asf"@, "rm"@, "rmvb"@,
            "divx"@, "xvid"@, "hevc"@, "h265"@, "av1"@, "vp9"@, "mxf"@, "nut"@, "y4m"@, "webpm"@,
        ],
        str_texts(AUDIO_EXTENSIONS@) == seq![
            "mp3"@, "wav"@, "aac"@, "m4a"@, "flac"@, "ogg"@, "opus"@, "wma"@, "aiff"@, "aif"@,
            "mka"@,
        ],
{
    assert(str_texts(VIDEO_EXTENSIONS@) =~= seq![
        "mp4"@, "mkv"@, "mov"@, "avi"@, "webm"@, "m4v"@, "mpg"@, "mpeg"@, "wmv"@, "flv"@,
        "ts"@, "m2ts"@, "mts"@, "3gp"@, "ogv"@, "vob"@, "f4v"@, "asf"@, "rm"@, "rmvb"@,
        "divx"@, "xvid"@, "hevc"@, "h265"@, "av1"@, "vp9"@, "mxf"@, "nut"@, "y4m"@, "webpm"@,
    ]);
    assert(str_texts(AUDIO_EXTENSIONS@) =~= seq![
        "mp3"@, "wav"@, "aac"@, "m4a"@, "flac"@, "ogg"@, "opus"@, "wma"@, "aiff"@, "aif"@,
        "mka"@,
    ]);
}

// ---------------------------------------------------------------------------
// Paths
// ---------------------------------------------------------------------------

/// The components of a path are the names between its slashes, in order: doubled
/// and closing slashes and single dots give none.
pub proof fn components_are_the_names(dir: Seq<char>, name: Seq<char>)
    requires
        name.len() > 0,
        name != seq!['.'],
        !name.contains('/'),
    ensures
        components(Seq::<char>::empty()).len() == 0,
        components(name) == seq![name],
        components(dir + seq!['/'] + name) == components(dir).push(name),
        components(dir + seq!['/']) == components(dir),
        components(dir + seq!['/', '.']) == components(dir),
{
    let keep = |c: Seq<char>| c.len() > 0 && c != seq!['.'];
    let none = Seq::<char>::empty();
    let dot = seq!['.'];
    reveal_with_fuel(Seq::filter, 2);
    assert(split_on(none, '/') =~= seq![none]);
    assert(seq![none].drop_last() =~= Seq::<Seq<char>>::empty());
    assert(components(none) =~= Seq::<Seq<char>>::empty());
    crate::scan::split_without_separator(name, '/');
    assert(seq![name].drop_last() =~= Seq::<Seq<char>>::empty());
    assert(components(name) =~= seq![name]);
    let all = split_on(dir, '/');
    crate::scan::split_after_separator(dir, name, '/');
    assert(all.push(name).drop_last() =~= all);
    assert(components(dir + seq!['/'] + name) =~= components(dir).push(name));
    crate::scan::split_after_separator(dir, none, '/');
    assert(dir + seq!['/'] + none =~= dir + seq!['/']);
    assert(all.push(none).drop_last() =~= all);
    assert(components(dir + seq!['/']) =~= components(dir));
    crate::scan::split_after_separator(dir, dot, '/');
    assert(dir + seq!['/'] + dot =~= dir + seq!['/', '.']);
    assert(all.push(dot).drop_last() =~= all);
    assert(components(dir + seq!['/', '.']) =~= components(dir));
}

/// The file name of a path is its last component; a path without components and one
/// that leads upwards have none.
pub proof fn file_name_is_the_last_component(path: Seq<char>)
    ensures
        components(path).len() == 0 ==> slash_file_name(path) is None,
        components(path).len() > 0 && components(path).last() == seq!['.', '.']
            ==> slash_file_name(path) is None,
        components(path).len() > 0 && components(path).last() != seq!['.', '.']
            ==> slash_file_name(path) == Some(components(path).last()),
{
}

/// A path that holds no backslash and no colon and does not begin with two slashes
/// has one file name on every platform: that of its last component.
pub proof fn plain_path_has_one_file_name(path: Seq<char>, name: Option<Seq<char>>)
    requires
        !path.contains('\\'),
        !path.contains(':'),
        !(path.len() >= 2 && path[0] == '/' && path[1] == '/'),
    ensures
        one_reading(path),
        may_be_file_name(path, name) ==> name == slash_file_name(path),
        path_named_in(path, VIDEO_EXTENSIONS@) == (slash_file_name(path) matches Some(n)
            && named_in(n, VIDEO_EXTENSIONS@)),
        path_named_in(path, AUDIO_EXTENSIONS@) == (slash_file_name(path) matches Some(n)
            && named_in(n, AUDIO_EXTENSIONS@)),
{
    if path.len() >= 2 {
        assert(path.contains(path[0]) && path.contains(path[1]));
    }
}

/// Of a path that does not begin with two slashes there are two readings at most:
/// that where the slash alone parts names, and that behind a drive, where the
/// backslash parts them too.
pub proof fn two_readings_at_most(path: Seq<char>, name: Option<Seq<char>>)
    requires
        may_be_file_name(path, name),
        path.len() < 2 || !((path[0] == '/' || path[0] == '\\') && (path[1] == '/' || path[1]
            == '\\')),
    ensures
        ({
            let drive = path.len() >= 2 && path[1] == ':' && ('a' <= path[0] <= 'z' || 'A'
                <= path[0] <= 'Z');
            let rest = if drive {
                path.skip(2)
            } else {
                path
            };
            ||| name == slash_file_name(path)
            ||| name == slash_file_name(replaced(rest, '\\', '/'))
        }),
        name matches Some(n) ==> !n.contains('/') || starts_with(path, verbatim_prefix()),
{
}

/// Whether a file name, if there is one, is in a list of extensions.
pub proof fn missing_name_is_not_listed(name: Seq<char>, list: Seq<&str>)
    ensures
        !name_listed(None, list),
        name_listed(Some(name), list) == named_in(name, list),
{
}

/// Paths are the same where both or neither begin at the root, both or neither begin
/// with a single dot, and their components are the same; behind a drive, whose case
/// does not count, backslashes are slashes.
pub proof fn same_paths_have_the_same_components(a: Seq<char>, b: Seq<char>)
    ensures
        same_slash_path(a, b) == ({
            let rooted = |p: Seq<char>| p.len() > 0 && p[0] == '/';
            let dotted = |p: Seq<char>|
                p.len() > 0 && p[0] == '.' && (p.len() == 1 || p[1] == '/');
            rooted(a) == rooted(b) && dotted(a) == dotted(b) && components(a) == components(b)
        }),
        same_drive_path(a, b) == (drive(a) == drive(b) && same_slash_path(
            replaced(behind_drive(a), '\\', '/'),
            replaced(behind_drive(b), '\\', '/'),
        )),
        a.len() >= 2 && a[1] == ':' && 'a' <= a[0] <= 'z' ==> drive(a) == Some(a[0])
            && behind_drive(a) == a.skip(2),
        a.len() >= 2 && a[1] == ':' && 'A' <= a[0] <= 'Z' ==> drive(a) == Some(
            ((a[0] as u8 + 32) as u8) as char,
        ) && behind_drive(a) == a.skip(2),
        a.len() < 2 || a[1] != ':' ==> drive(a) is None && behind_drive(a) == a,
{
}

/// Paths without backslashes and colons that do not begin with two slashes are the
/// same, by what any platform says, exactly where their components are.
pub proof fn plain_paths_compare_alike(a: Seq<char>, b: Seq<char>, r: bool)
    requires
        may_be_same(a, b, r),
        !a.contains('\\') && !a.contains(':'),
        !b.contains('\\') && !b.contains(':'),
        !(a.len() >= 2 && a[0] == '/' && a[1] == '/'),
        !(b.len() >= 2 && b[0] == '/' && b[1] == '/'),
    ensures
        r == same_slash_path(a, b),
{
    if a.len() >= 2 {
        assert(a.contains(a[0]) && a.contains(a[1]));
    }
    if b.len() >= 2 {
        assert(b.contains(b[0]) && b.contains(b[1]));
    }
}

// ---------------------------------------------------------------------------
// Lines
// ---------------------------------------------------------------------------

/// A text without separators before the first one is the first piece.
pub proof fn first_piece_is_split_off(first: Seq<char>, rest: Seq<char>, sep: char)
    requires
        !first.contains(sep),
    ensures
        split_on(first + seq![sep] + rest, sep) == seq![first] + split_on(rest, sep),
    decreases rest.len(),
{
    let all = first + seq![sep] + rest;
    split_on_joined(rest, sep);
    if rest.len() == 0 {
        crate::scan::split_without_separator(first, sep);
        assert(all.drop_last() =~= first);
        assert(split_on(all, sep) =~= seq![first] + split_on(rest, sep));
    } else {
        first_piece_is_split_off(first, rest.drop_last(), sep);
        split_on_joined(rest.drop_last(), sep);
        assert(all.drop_last() =~= first + seq![sep] + rest.drop_last());
        assert(all.last() == rest.last());
        let before = split_on(rest.drop_last(), sep);
        let x = seq![first] + before;
        assert(x.last() == before.last());
        assert(x.drop_last() =~= seq![first] + before.drop_last());
        assert(split_on(all, sep) =~= seq![first] + split_on(rest, sep));
    }
}

/// A text is read line by line: a line ends at a line feed, a carriage return
/// before it belongs to the ending, a last line may lack its ending, and an empty
/// text has no lines.
pub proof fn lines_are_read_in_order(line: Seq<char>, rest: Seq<char>)
    requires
        !line.contains('\n'),
    ensures
        lines(Seq::<char>::empty()).len() == 0,
        line.len() > 0 ==> lines(line) == seq![line],
        (line.len() == 0 || line.last() != '\r') ==> lines(line + seq!['\n'] + rest) == seq![line]
            + lines(rest),
        lines(line + seq!['\r', '\n'] + rest) == seq![line] + lines(rest),
{
    assert(split_on(Seq::<char>::empty(), '\n') =~= seq![Seq::<char>::empty()]);
    assert(lines(Seq::<char>::empty()) =~= Seq::<Seq<char>>::empty());
    if line.len() > 0 {
        crate::scan::split_without_separator(line, '\n');
        assert(lines(line) =~= seq![line]);
    }
    first_piece_is_split_off(line, rest, '\n');
    one_line_more(line, rest);
    let cr = line.push('\r');
    assert forall|i: int| 0 <= i < cr.len() implies cr[i] != '\n' by {
        if i < line.len() {
            assert(line.contains(line[i]));
        }
    }
    assert(cr + seq!['\n'] + rest =~= line + seq!['\r', '\n'] + rest);
    one_line_more(cr, rest);
    assert(strip_cr(cr) =~= line);
}

proof fn one_line_more(line: Seq<char>, rest: Seq<char>)
    requires
        !line.contains('\n'),
    ensures
        lines(line + seq!['\n'] + rest) == seq![strip_cr(line)] + lines(rest),
{
    first_piece_is_split_off(line, rest, '\n');
    split_on_joined(rest, '\n');
    let parts = split_on(rest, '\n');
    let all = seq![line] + parts;
    let f = |p: Seq<char>| strip_cr(p);
    assert(all.last() == parts.last());
    assert(all.drop_last() =~= seq![line] + parts.drop_last());
    assert(all.drop_last().map_values(f) =~= seq![strip_cr(line)] + parts.drop_last().map_values(
        f,
    ));
    assert(lines(line + seq!['\n'] + rest) =~= seq![strip_cr(line)] + lines(rest));
}

// ---------------------------------------------------------------------------
// Trimming and markers
// ---------------------------------------------------------------------------

proof fn start_is_trimmed(s: Seq<char>) -> (from: int)
    ensures
        0 <= from <= s.len(),
        trim_start(s) == s.skip(from),
        forall|i: int| 0 <= i < from ==> is_white(#[trigger] s[i]),
        from < s.len() ==> !is_white(s[from]),
    decreases s.len(),
{
    if s.len() > 0 && is_white(s[0]) {
        let r = s.drop_first();
        let f = start_is_trimmed(r);
        assert(r.skip(f) =~= s.skip(f + 1));
        assert forall|i: int| 0 <= i < f + 1 implies is_white(#[trigger] s[i]) by {
            if i > 0 {
                assert(r[i - 1] == s[i]);
            }
        }
        f + 1
    } else {
        assert(s.skip(0) =~= s);
        0
    }
}

proof fn end_is_trimmed(s: Seq<char>) -> (to: int)
    ensures
        0 <= to <= s.len(),
        trim_end(s) == s.take(to),
        forall|i: int| to <= i < s.len() ==> is_white(#[trigger] s[i]),
        to > 0 ==> !is_white(s[to - 1]),
    decreases s.len(),
{
    if s.len() > 0 && is_white(s.last()) {
        let r = s.drop_last();
        let t = end_is_trimmed(r);
        assert(r.take(t) =~= s.take(t));
        assert forall|i: int| t <= i < s.len() implies is_white(#[trigger] s[i]) by {
            if i < r.len() {
                assert(r[i] == s[i]);
            }
        }
        t
    } else {
        assert(s.take(s.len() as int) =~= s);
        s.len() as int
    }
}

/// Trimming takes away white space at both ends and nothing else: what is left
/// neither begins nor ends with white space, and all that went is white space.
pub proof fn trimming_takes_white_space_only(s: Seq<char>)
    ensures
        exists|from: int, to: int|
            {
                &&& 0 <= from <= to <= s.len()
                &&& trimmed(s) == #[trigger] s.subrange(from, to)
                &&& forall|i: int| 0 <= i < from ==> is_white(#[trigger] s[i])
                &&& forall|i: int| to <= i < s.len() ==> is_white(#[trigger] s[i])
            },
        trimmed(s).len() > 0 ==> !is_white(trimmed(s)[0]) && !is_white(trimmed(s).last()),
{
    let from = start_is_trimmed(s);
    let left = s.skip(from);
    let n = end_is_trimmed(left);
    let to = from + n;
    assert(left.take(n) =~= s.subrange(from, to));
    assert forall|i: int| to <= i < s.len() implies is_white(#[trigger] s[i]) by {
        assert(left[i - from] == s[i]);
    }
    assert(trimmed(s) == s.subrange(from, to));
}

/// Blanks, tabs and line endings are white space; printable ASCII characters are
/// not.
pub proof fn white_space_is_known(c: char)
    ensures
        is_white(' ') && is_white('\t') && is_white('\n') && is_white('\r'),
        '!' <= c <= '~' ==> !is_white(c),
{
}

/// White space is told by the number of the character.
pub proof fn white_space_by_number(c: char)
    ensures
        is_white(c) == {
            let n = c as int;
            ||| 9 <= n <= 13
            ||| n == 32
            ||| n == 0x85
            ||| n == 0xa0
            ||| n == 0x1680
            ||| 0x2000 <= n <= 0x200a
            ||| n == 0x2028
            ||| n == 0x2029
            ||| n == 0x202f
            ||| n == 0x205f
            ||| n == 0x3000
        },
{
}

/// A text starts with another one where that is not longer and agrees with it
/// character by character.
pub proof fn starting_is_agreeing(s: Seq<char>, p: Seq<char>)
    ensures
        starts_with(s, p) == (p.len() <= s.len() && forall|i: int|
            0 <= i < p.len() ==> #[trigger] s[i] == p[i]),
{
    if p.len() <= s.len() {
        let t = s.take(p.len() as int);
        if starts_with(s, p) {
            assert forall|i: int| 0 <= i < p.len() implies #[trigger] s[i] == p[i] by {
                assert(t[i] == s[i]);
            }
        } else if forall|i: int| 0 <= i < p.len() ==> #[trigger] s[i] == p[i] {
            assert(t =~= p);
        }
    }
}

/// The text behind a marker is what follows its first occurrence; where there is
/// none, the marker stands nowhere.
pub proof fn marker_is_found_where_it_first_stands(s: Seq<char>, marker: Seq<char>)
    ensures
        match after_first(s, marker) {
            Some(rest) => exists|k: int|
                {
                    &&& 0 <= k && k + marker.len() <= s.len()
                    &&& starts_with(#[trigger] s.skip(k), marker)
                    &&& rest == s.skip(k + marker.len())
                    &&& forall|j: int| 0 <= j < k ==> !starts_with(#[trigger] s.skip(j), marker)
                },
            None => forall|j: int|
                0 <= j <= s.len() ==> !starts_with(#[trigger] s.skip(j), marker),
        },
    decreases s.len(),
{
    assert(s.skip(0) =~= s);
    if starts_with(s, marker) {
        assert(starts_with(s.skip(0), marker));
    } else if s.len() > 0 {
        let r = s.drop_first();
        marker_is_found_where_it_first_stands(r, marker);
        match after_first(r, marker) {
            Some(rest) => {
                let k = choose|k: int|
                    {
                        &&& 0 <= k && k + marker.len() <= r.len()
                        &&& starts_with(#[trigger] r.skip(k), marker)
                        &&& rest == r.skip(k + marker.len())
                        &&& forall|j: int|
                            0 <= j < k ==> !starts_with(#[trigger] r.skip(j), marker)
                    };
                assert(r.skip(k) =~= s.skip(k + 1));
                assert(r.skip(k + marker.len()) =~= s.skip(k + 1 + marker.len()));
                assert forall|j: int| 0 <= j < k + 1 implies !starts_with(
                    #[trigger] s.skip(j),
                    marker,
                ) by {
                    if j > 0 {
                        assert(r.skip(j - 1) =~= s.skip(j));
                    }
                }
                assert(starts_with(s.skip(k + 1), marker));
            },
            None => {
                assert forall|j: int| 0 <= j <= s.len() implies !starts_with(
                    #[trigger] s.skip(j),
                    marker,
                ) by {
                    if j > 0 {
                        assert(r.skip(j - 1) =~= s.skip(j));
                    }
                }
            },
        }
    } else {
        assert forall|j: int| 0 <= j <= s.len() implies !starts_with(
            #[trigger] s.skip(j),
            marker,
        ) by {
            assert(s.skip(j) =~= s);
        }
    }
}

/// The part before the first separator holds none, and is followed by it or is
/// the whole text.
pub proof fn before_the_first_separator(s: Seq<char>, rest: Seq<char>, sep: char)
    requires
        !s.contains(sep),
    ensures
        before_first(s, sep) == s,
        before_first(s + seq![sep] + rest, sep) == s,
{
    crate::scan::split_without_separator(s, sep);
    first_piece_is_split_off(s, rest, sep);
}

/// Joining puts one separator between every two pieces.
pub proof fn joining_puts_one_between(list: Seq<Seq<char>>, last: Seq<char>, sep: char)
    requires
        list.len() > 0,
    ensures
        joined(seq![last], sep) == last,
        joined(list.push(last), sep) == joined(list, sep) + seq![sep] + last,
{
    assert(list.push(last).drop_last() =~= list);
    assert(joined(list.push(last), sep) =~= joined(list, sep) + seq![sep] + last);
}

} // verus!
