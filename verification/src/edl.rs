//! The edit list of a timeline, as JSON and as text, and the status line of the
//! timeline.
use crate::text::{decimal, decimal_text, join3, to_chars};
use vstd::prelude::*;
use vstd::string::*;

verus! {

/// A clip with its times written out: where it starts and ends on the source,
/// and how long it is.
pub struct RangeText {
    pub start: String,
    pub end: String,
    pub length: String,
}

/// The content of a range.
#[verifier::ext_equal]
pub struct RangeView {
    pub start: Seq<char>,
    pub end: Seq<char>,
    pub length: Seq<char>,
}

impl View for RangeText {
    type V = RangeView;

    open spec fn view(&self) -> RangeView {
        RangeView { start: self.start@, end: self.end@, length: self.length@ }
    }
}

/// The contents of a list of ranges.
pub open spec fn range_views(v: Seq<RangeText>) -> Seq<RangeView> {
    v.map_values(|r: RangeText| r@)
}

// ---------------------------------------------------------------------------
// JSON
// ---------------------------------------------------------------------------

/// The hexadecimal digit of value `d`.
pub open spec fn hex_digit(d: int) -> char {
    seq!['0', '1', '2', '3', '4', '5', '6', '7', '8', '9', 'a', 'b', 'c', 'd', 'e', 'f'][d]
}

/// The number of a character.
proof fn char_number(c: char)
    ensures
        0 <= c as int <= 0x10ffff,
{
}

/// A character as it stands in a JSON string: a quote and a backslash stand
/// behind a backslash, and a control character is written by its number.
pub open spec fn escaped_char(c: char) -> Seq<char> {
    if c == '"' || c == '\\' {
        seq!['\\', c]
    } else if (c as int) < 32 {
        seq!['\\', 'u', '0', '0', hex_digit(c as int / 16), hex_digit(c as int % 16)]
    } else {
        seq![c]
    }
}

/// A text as it stands in a JSON string.
pub open spec fn escaped(s: Seq<char>) -> Seq<char>
    decreases s.len(),
{
    if s.len() == 0 {
        Seq::empty()
    } else {
        escaped_char(s[0]) + escaped(s.drop_first())
    }
}

/// Writes a text as it stands in a JSON string.
pub fn escape(s: &str) -> (r: String)
    ensures
        r@ == escaped(s@),
{
    let digits: [char; 16] = [
        '0', '1', '2', '3', '4', '5', '6', '7', '8', '9', 'a', 'b', 'c', 'd', 'e', 'f',
    ];
    let v = to_chars(s);
    let mut r = String::new();
    assert(s@.skip(0) =~= s@);
    for i in 0..v.len()
        invariant
            v@ == s@,
            digits@ == seq![
                '0', '1', '2', '3', '4', '5', '6', '7', '8', '9', 'a', 'b', 'c', 'd', 'e', 'f',
            ],
            r@ + escaped(s@.skip(i as int)) == escaped(s@),
    {
        let ghost before = r@;
        let c = v[i];
        proof {
            char_number(c);
        }
        let n: u32 = c as u32;
        if c == '"' || c == '\\' {
            r.push('\\');
            r.push(c);
        } else if n < 32 {
            r.push('\\');
            r.push('u');
            r.push('0');
            r.push('0');
            r.push(digits[(n / 16) as usize]);
            r.push(digits[(n % 16) as usize]);
        } else {
            r.push(c);
        }
        assert(r@ =~= before + escaped_char(c));
        assert(s@.skip(i as int).drop_first() =~= s@.skip(i + 1));
        assert(r@ + escaped(s@.skip(i + 1)) =~= before + escaped(s@.skip(i as int)));
    }
    assert(r@ + escaped(s@.skip(v@.len() as int)) =~= r@);
    r
}

/// One clip of the edit list.
pub open spec fn json_clip(r: RangeView) -> Seq<char> {
    "\n    {\"start\": "@ + r.start + ", \"end\": "@ + r.end + "}"@
}

/// The clips of the edit list, with commas between them.
pub open spec fn json_clips(list: Seq<RangeView>) -> Seq<char>
    decreases list.len(),
{
    if list.len() == 0 {
        Seq::empty()
    } else if list.len() == 1 {
        json_clip(list[0])
    } else {
        json_clips(list.drop_last()).push(',') + json_clip(list.last())
    }
}

/// The edit list as JSON.
pub open spec fn json_text(
    source: Seq<char>,
    duration: Seq<char>,
    assembled: Seq<char>,
    list: Seq<RangeView>,
    secs: nat,
) -> Seq<char> {
    "{\n  \"source\": \""@ + escaped(source) + "\",\n  \"source_duration\": "@ + duration
        + ",\n  \"assembled_duration\": "@ + assembled + ",\n  \"clips\": ["@ + json_clips(list)
        + " \n  ],\n  \"exported_at\": "@ + decimal(secs)
        + ",\n  \"engine\": \"ffmpeg-local\",\n  \"note\": \"Non-destructive edit list. Use Export Video for a remuxed .mp4 of kept ranges.\"\n}"@
}

/// Writes the clips of the edit list, with commas between them.
fn write_json_clips(list: &Vec<RangeText>) -> (r: String)
    ensures
        r@ == json_clips(range_views(list@)),
{
    let ghost all = range_views(list@);
    let mut r = String::new();
    assert(r@ =~= json_clips(all.take(0)));
    for i in 0..list.len()
        invariant
            all == range_views(list@),
            r@ == json_clips(all.take(i as int)),
    {
        let ghost before = r@;
        assert(all.take(i + 1).drop_last() =~= all.take(i as int));
        assert(all[i as int] == list@[i as int]@);
        if i > 0 {
            r.push(',');
        }
        let head = join3("\n    {\"start\": ", list[i].start.as_str(), ", \"end\": ");
        let clip = join3(head.as_str(), list[i].end.as_str(), "}");
        assert(clip@ == json_clip(all[i as int]));
        r.append(clip.as_str());
        if i == 0 {
            assert(before =~= Seq::<char>::empty());
            assert(r@ =~= json_clip(all[0]));
        }
        assert(r@ =~= json_clips(all.take(i + 1)));
    }
    assert(all.take(list@.len() as int) =~= all);
    r
}

/// Writes the edit list as JSON, exported at `secs` seconds; the times are
/// given as text.
pub fn edl_json(
    source: &str,
    duration: &str,
    assembled: &str,
    list: &Vec<RangeText>,
    secs: u64,
) -> (r: String)
    ensures
        r@ == json_text(source@, duration@, assembled@, range_views(list@), secs as nat),
{
    let name = escape(source);
    let mut r = join3("{\n  \"source\": \"", name.as_str(), "\",\n  \"source_duration\": ");
    r.append(duration);
    r.append(",\n  \"assembled_duration\": ");
    r.append(assembled);
    r.append(",\n  \"clips\": [");
    r.append(write_json_clips(list).as_str());
    r.append(" \n  ],\n  \"exported_at\": ");
    r.append(decimal_text(secs).as_str());
    r.append(
        ",\n  \"engine\": \"ffmpeg-local\",\n  \"note\": \"Non-destructive edit list. Use Export Video for a remuxed .mp4 of kept ranges.\"\n}",
    );
    r
}

// ---------------------------------------------------------------------------
// Text
// ---------------------------------------------------------------------------

/// The line of clip `i`.
pub open spec fn text_clip(i: nat, r: RangeView) -> Seq<char> {
    "Clip "@ + decimal(i) + ": "@ + r.start + "s - "@ + r.end + "s (dur "@ + r.length + "s)\n"@
}

/// The lines of the clips, numbered from zero.
pub open spec fn text_clips(list: Seq<RangeView>) -> Seq<char>
    decreases list.len(),
{
    if list.len() == 0 {
        Seq::empty()
    } else {
        text_clips(list.drop_last()) + text_clip((list.len() - 1) as nat, list.last())
    }
}

/// The edit list as text.
pub open spec fn list_text(
    source: Seq<char>,
    duration: Seq<char>,
    assembled: Seq<char>,
    list: Seq<RangeView>,
) -> Seq<char> {
    "Source: "@ + source + "\nSource duration: "@ + duration
        + "s\nAssembled (edited) duration: "@ + assembled
        + "s\nEngine: local ffmpeg\n\nKept clip list (EDL):\n"@ + text_clips(list)
}

/// Writes the edit list as text; the times are given as text.
pub fn edl_text(source: &str, duration: &str, assembled: &str, list: &Vec<RangeText>) -> (r: String)
    ensures
        r@ == list_text(source@, duration@, assembled@, range_views(list@)),
{
    let ghost all = range_views(list@);
    let mut r = join3("Source: ", source, "\nSource duration: ");
    r.append(duration);
    r.append("s\nAssembled (edited) duration: ");
    r.append(assembled);
    r.append("s\nEngine: local ffmpeg\n\nKept clip list (EDL):\n");
    let ghost head = r@;
    assert(head =~= head + text_clips(all.take(0)));
    for i in 0..list.len()
        invariant
            all == range_views(list@),
            r@ == head + text_clips(all.take(i as int)),
    {
        assert(all.take(i + 1).drop_last() =~= all.take(i as int));
        assert(all[i as int] == list@[i as int]@);
        let mut line = join3("Clip ", decimal_text(i as u64).as_str(), ": ");
        line.append(list[i].start.as_str());
        line.append("s - ");
        line.append(list[i].end.as_str());
        line.append("s (dur ");
        line.append(list[i].length.as_str());
        line.append("s)\n");
        assert(line@ == text_clip(i as nat, all[i as int]));
        r.append(line.as_str());
        assert(r@ =~= head + text_clips(all.take(i + 1)));
    }
    assert(all.take(list@.len() as int) =~= all);
    r
}

// ---------------------------------------------------------------------------
// The status line
// ---------------------------------------------------------------------------

/// The status line of a timeline.
pub open spec fn status_text(
    clips: nat,
    assembled: Seq<char>,
    selected: nat,
    clipboard: bool,
) -> Seq<char> {
    "Clips: "@ + decimal(clips) + "  |  Assembled: "@ + assembled + "s  |  Selected: "@ + decimal(
        selected,
    ) + "  |  local ffmpeg"@ + (if clipboard {
        "  |  Clipboard has clips (Ctrl+V to paste | Ctrl+C copy)"@
    } else {
        Seq::empty()
    }) + "  |  Ctrl+Z: undo | Ctrl+D: duplicate | Arrows: nav"@
}

/// Writes the status line of a timeline; the assembled duration is given as
/// text.
pub fn status_line(clips: usize, assembled: &str, selected: usize, clipboard: bool) -> (r: String)
    ensures
        r@ == status_text(clips as nat, assembled@, selected as nat, clipboard),
{
    let mut r = join3("Clips: ", decimal_text(clips as u64).as_str(), "  |  Assembled: ");
    r.append(assembled);
    r.append("s  |  Selected: ");
    r.append(decimal_text(selected as u64).as_str());
    r.append("  |  local ffmpeg");
    let ghost before = r@;
    if clipboard {
        r.append("  |  Clipboard has clips (Ctrl+V to paste | Ctrl+C copy)");
    } else {
        assert(before + Seq::<char>::empty() =~= before);
    }
    r.append("  |  Ctrl+Z: undo | Ctrl+D: duplicate | Arrows: nav");
    r
}

// ---------------------------------------------------------------------------
// Laws
// ---------------------------------------------------------------------------

/// The value of a hexadecimal digit, if it is one.
pub open spec fn hex_value(c: char) -> Option<int> {
    if '0' <= c <= '9' {
        Some(c as int - '0' as int)
    } else if 'a' <= c <= 'f' {
        Some(c as int - 'a' as int + 10)
    } else if 'A' <= c <= 'F' {
        Some(c as int - 'A' as int + 10)
    } else {
        None
    }
}

/// The character that a backslash and a letter stand for in a JSON string.
pub open spec fn short_escape(c: char) -> Option<char> {
    if c == '"' || c == '\\' || c == '/' {
        Some(c)
    } else if c == 'b' {
        Some('\u{8}')
    } else if c == 'f' {
        Some('\u{c}')
    } else if c == 'n' {
        Some('\n')
    } else if c == 'r' {
        Some('\r')
    } else if c == 't' {
        Some('\t')
    } else {
        None
    }
}

/// The number that four hexadecimal digits stand for.
pub open spec fn hex_number(s: Seq<char>) -> Option<int> {
    match (hex_value(s[0]), hex_value(s[1]), hex_value(s[2]), hex_value(s[3])) {
        (Some(a), Some(b), Some(c), Some(d)) => Some(4096 * a + 256 * b + 16 * c + d),
        _ => None,
    }
}

/// How a JSON string is read behind its opening quote: the text up to the
/// closing quote, and what follows that. Nothing is read where the string is
/// not closed, holds a control character, or holds a backslash that begins no
/// escape; characters in two halves are not read either.
pub open spec fn read_string(s: Seq<char>) -> Option<(Seq<char>, Seq<char>)>
    decreases s.len(),
{
    if s.len() == 0 || (s[0] as int) < 32 {
        None
    } else if s[0] == '"' {
        Some((Seq::empty(), s.drop_first()))
    } else {
        let (c, rest): (Option<char>, Seq<char>) = if s[0] != '\\' {
            (Some(s[0]), s.skip(1))
        } else if s.len() >= 6 && s[1] == 'u' {
            match hex_number(s.subrange(2, 6)) {
                Some(n) => if n < 0xd800 || 0xe000 <= n {
                    (Some(n as char), s.skip(6))
                } else {
                    (None, s.skip(1))
                },
                None => (None, s.skip(1)),
            }
        } else if s.len() >= 2 {
            (short_escape(s[1]), s.skip(2))
        } else {
            (None, s.skip(1))
        };
        match (c, read_string(rest)) {
            (Some(c), Some((text, behind))) => Some((seq![c] + text, behind)),
            _ => None,
        }
    }
}

/// An escaped text is read back as the text, whatever characters it holds, and
/// the string ends where it was closed.
pub proof fn escaping_reads_back(s: Seq<char>, behind: Seq<char>)
    ensures
        read_string(escaped(s) + seq!['"'] + behind) == Some((s, behind)),
    decreases s.len(),
{
    let all = escaped(s) + seq!['"'] + behind;
    if s.len() == 0 {
        assert(all.drop_first() =~= behind);
        assert(s =~= Seq::empty());
    } else {
        let c = s[0];
        let rest = s.drop_first();
        let tail = escaped(rest) + seq!['"'] + behind;
        char_number(c);
        escaping_reads_back(rest, behind);
        assert(all =~= escaped_char(c) + tail);
        assert(s =~= seq![c] + rest);
        if c == '"' || c == '\\' {
            assert(all[0] == '\\' && all[1] == c);
            assert(all.skip(2) =~= tail);
        } else if (c as int) < 32 {
            let hi = c as int / 16;
            let lo = c as int % 16;
            hex_reads_back(hi);
            hex_reads_back(lo);
            let digits = all.subrange(2, 6);
            assert(all[0] == '\\' && all[1] == 'u');
            assert(digits[0] == '0' && digits[1] == '0');
            assert(digits[2] == hex_digit(hi) && digits[3] == hex_digit(lo));
            assert(hex_number(digits) == Some(c as int));
            assert(all.skip(6) =~= tail);
        } else {
            assert(all[0] == c);
            assert(all.skip(1) =~= tail);
        }
    }
}

proof fn hex_reads_back(d: int)
    requires
        0 <= d < 16,
    ensures
        hex_value(hex_digit(d)) == Some(d),
{
}

/// The JSON edit list gives its source: behind the key a string is read, and it
/// is the source, whatever characters that holds.
pub proof fn edit_list_gives_its_source(
    source: Seq<char>,
    duration: Seq<char>,
    assembled: Seq<char>,
    list: Seq<RangeView>,
    secs: nat,
)
    ensures
        ({
            let key = "{\n  \"source\": \""@;
            let all = json_text(source, duration, assembled, list, secs);
            &&& all.take(key.len() as int) == key
            &&& read_string(all.skip(key.len() as int)) matches Some((text, _)) && text == source
        }),
{
    let key = "{\n  \"source\": \""@;
    let all = json_text(source, duration, assembled, list, secs);
    let close = "\",\n  \"source_duration\": "@;
    reveal_strlit("\",\n  \"source_duration\": ");
    let behind = all.skip((key.len() + escaped(source).len() + 1) as int);
    assert(all.take(key.len() as int) =~= key);
    assert(close[0] == '"');
    assert(all.skip(key.len() as int) =~= escaped(source) + seq!['"'] + behind);
    escaping_reads_back(source, behind);
}

} // verus!
