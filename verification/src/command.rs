//! How ffmpeg and ffprobe read their arguments: which options they are given, with
//! which values, and what the last argument is.
use vstd::prelude::*;

verus! {

/// The options that stand alone; every other one takes the argument behind it as
/// its value.
pub open spec fn is_switch(option: Seq<char>) -> bool {
    option == "-y"@ || option == "-an"@ || option == "-vn"@ || option == "-shortest"@
}

/// The options from position `k` on, in order, up to the last argument, which is
/// the file that the tool writes or looks at.
pub open spec fn options_from(args: Seq<Seq<char>>, k: int) -> Seq<Seq<char>>
    decreases args.len() - k,
{
    if k < 0 || k >= args.len() - 1 {
        Seq::empty()
    } else if is_switch(args[k]) {
        seq![args[k]] + options_from(args, k + 1)
    } else {
        seq![args[k]] + options_from(args, k + 2)
    }
}

/// The values that an option is given from position `k` on, in order.
pub open spec fn values_from(args: Seq<Seq<char>>, option: Seq<char>, k: int) -> Seq<Seq<char>>
    decreases args.len() - k,
{
    if k < 0 || k >= args.len() - 1 {
        Seq::empty()
    } else if is_switch(args[k]) {
        values_from(args, option, k + 1)
    } else if args[k] == option {
        seq![args[k + 1]] + values_from(args, option, k + 2)
    } else {
        values_from(args, option, k + 2)
    }
}

/// The options of a command, in order.
pub open spec fn options(args: Seq<Seq<char>>) -> Seq<Seq<char>> {
    options_from(args, 0)
}

/// The values that an option of a command is given, in order.
pub open spec fn values(args: Seq<Seq<char>>, option: Seq<char>) -> Seq<Seq<char>> {
    values_from(args, option, 0)
}

/// The number of a character of an option, and zero behind its end.
pub open spec fn weight(option: Seq<char>, i: int) -> int {
    if i < option.len() {
        option[i] as int
    } else {
        0
    }
}

/// A number that tells options apart.
pub open spec fn code(option: Seq<char>) -> int {
    option.len() + 1000 * weight(option, 1) + 1000000 * weight(option, 2) + 1000000000 * weight(
        option,
        3,
    )
}

/// The options that are used are different from each other.
pub proof fn options_differ()
    ensures
        code("-y"@) == 121002,
        code("-f"@) == 102002,
        code("-i"@) == 105002,
        code("-safe"@) == 102097115005,
        code("-map"@) == 112097109004,
        code("-c"@) == 99002,
        code("-c:v"@) == 118058099004,
        code("-c:a"@) == 97058099004,
        code("-crf"@) == 102114099004,
        code("-preset"@) == 101114112007,
        code("-pix_fmt"@) == 120105112008,
        code("-movflags"@) == 118111109009,
        code("-filter_complex"@) == 108105102015,
        code("-filter:v"@) == 108105102009,
        code("-an"@) == 110097003,
        code("-vn"@) == 110118003,
        code("-ss"@) == 115115003,
        code("-to"@) == 111116003,
        code("-t"@) == 116002,
        code("-stream_loop"@) == 114116115012,
        code("-r"@) == 114002,
        code("-b:a"@) == 97058098004,
        code("-b:v"@) == 118058098004,
        code("-shortest"@) == 111104115009,
        code("-vf"@) == 102118003,
        code("-frames:v"@) == 97114102009,
        code("-update"@) == 100112117007,
        code("-acodec"@) == 111099097007,
        code("-ar"@) == 114097003,
        code("-ac"@) == 99097003,
        code("-v"@) == 118002,
        code("-show_entries"@) == 111104115013,
        code("-of"@) == 102111003,
{
    reveal_strlit("-y");
    reveal_strlit("-f");
    reveal_strlit("-i");
    reveal_strlit("-safe");
    reveal_strlit("-map");
    reveal_strlit("-c");
    reveal_strlit("-c:v");
    reveal_strlit("-c:a");
    reveal_strlit("-crf");
    reveal_strlit("-preset");
    reveal_strlit("-pix_fmt");
    reveal_strlit("-movflags");
    reveal_strlit("-filter_complex");
    reveal_strlit("-filter:v");
    reveal_strlit("-an");
    reveal_strlit("-vn");
    reveal_strlit("-ss");
    reveal_strlit("-to");
    reveal_strlit("-t");
    reveal_strlit("-stream_loop");
    reveal_strlit("-r");
    reveal_strlit("-b:a");
    reveal_strlit("-b:v");
    reveal_strlit("-shortest");
    reveal_strlit("-vf");
    reveal_strlit("-frames:v");
    reveal_strlit("-update");
    reveal_strlit("-acodec");
    reveal_strlit("-ar");
    reveal_strlit("-ac");
    reveal_strlit("-v");
    reveal_strlit("-show_entries");
    reveal_strlit("-of");
}

} // verus!
