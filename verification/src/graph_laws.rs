//! Laws of the filter graphs: what becomes of each stream, read off the text of the
//! graph. A graph is made of chains between semicolons, and a chain begins with the
//! labels of what it takes.
use crate::command::values;
use crate::command_laws::factor_runs_one_graph;
use crate::concat::{
    audio_label, filter_graph, labels, reversal, reversals, video_label, ConcatOptions,
};
use crate::scan::{joined, split_on, split_on_joined};
use crate::speed::{audible_args, change_args, repeated, tempo_chain, SpeedMode, Tempo};
use crate::tempo::{makes_up, Binary, TempoPlan};
use crate::text::{decimal, digit};
use vstd::prelude::*;
use vstd::string::*;

verus! {

// ---------------------------------------------------------------------------
// Pieces of a text
// ---------------------------------------------------------------------------

/// Decimal notation is made of digits.
pub proof fn decimal_digits(n: nat)
    ensures
        decimal(n).len() > 0,
        forall|k: int| 0 <= k < decimal(n).len() ==> '0' <= #[trigger] decimal(n)[k] <= '9',
    decreases n,
{
    let all = seq!['0', '1', '2', '3', '4', '5', '6', '7', '8', '9'];
    assert(forall|i: int| 0 <= i < 10 ==> '0' <= #[trigger] all[i] <= '9');
    if n >= 10 {
        decimal_digits(n / 10);
        assert(digit(n % 10) == all[(n % 10) as int]);
    } else {
        assert(digit(n) == all[n as int]);
    }
}

/// Decimal notation holds no character but digits.
proof fn no_mark_in_decimal(n: nat, c: char)
    requires
        !('0' <= c <= '9'),
    ensures
        !decimal(n).contains(c),
{
    decimal_digits(n);
}

/// What is in neither of two texts is not in both together.
proof fn in_neither(a: Seq<char>, b: Seq<char>, c: char)
    requires
        !a.contains(c),
        !b.contains(c),
    ensures
        !(a + b).contains(c),
{
    assert forall|i: int| 0 <= i < (a + b).len() implies (a + b)[i] != c by {
        if i < a.len() {
            assert(a.contains(a[i]));
        } else {
            assert(b.contains(b[i - a.len()]));
        }
    }
}

/// A text without separators lengthens the last piece.
pub proof fn split_lengthened(s: Seq<char>, rest: Seq<char>, sep: char)
    requires
        !rest.contains(sep),
    ensures
        split_on(s + rest, sep) == split_on(s, sep).drop_last().push(
            split_on(s, sep).last() + rest,
        ),
    decreases rest.len(),
{
    split_on_joined(s, sep);
    let before = split_on(s, sep);
    if rest.len() == 0 {
        assert(s + rest =~= s);
        assert(before.last() + rest =~= before.last());
        assert(before =~= before.drop_last().push(before.last()));
    } else {
        let less = rest.drop_last();
        assert forall|i: int| 0 <= i < less.len() implies less[i] != sep by {
            assert(rest.contains(rest[i]));
        }
        split_lengthened(s, less, sep);
        assert(rest.contains(rest.last()));
        assert((s + rest).drop_last() =~= s + less);
        assert((s + rest).last() == rest.last());
        assert((before.last() + less).push(rest.last()) =~= before.last() + rest);
        assert(split_on(s + rest, sep) =~= before.drop_last().push(before.last() + rest));
    }
}

/// A text that ends in a separator gets one more piece.
pub proof fn piece_added(s: Seq<char>, rows: Seq<Seq<char>>, piece: Seq<char>, sep: char)
    requires
        split_on(s, sep) == rows.push(Seq::empty()),
        !piece.contains(sep),
    ensures
        split_on(s + piece, sep) == rows.push(piece),
        split_on(s + piece + seq![sep], sep) == rows.push(piece).push(Seq::empty()),
{
    split_lengthened(s, piece, sep);
    assert(rows.push(Seq::<char>::empty()).drop_last() =~= rows);
    assert(Seq::<char>::empty() + piece =~= piece);
    let all = s + piece + seq![sep];
    assert(all.drop_last() =~= s + piece);
    assert(all.last() == sep);
}

// ---------------------------------------------------------------------------
// The graph of a join
// ---------------------------------------------------------------------------

/// The chain that reverses the video of input `i`.
pub open spec fn video_turned(i: nat) -> Seq<char> {
    "["@ + decimal(i) + ":v:0]reverse[v"@ + decimal(i) + "]"@
}

/// The chain that reverses the audio of input `i`.
pub open spec fn audio_turned(i: nat) -> Seq<char> {
    "["@ + decimal(i) + ":a:0]areverse[a"@ + decimal(i) + "]"@
}

/// How many chains stand before those of input `i`.
pub open spec fn chains_before(i: nat, video: bool, audio: bool) -> nat {
    if video && audio {
        2 * i
    } else if video || audio {
        i
    } else {
        0
    }
}

/// Whether a graph joins the inputs below `n` in order, with the video of each
/// reversed exactly where `video` is set and the audio of each reversed exactly
/// where `audio` is set.
pub open spec fn joins(graph: Seq<char>, n: nat, video: bool, audio: bool) -> bool {
    let chains = split_on(graph, ';');
    let taken = split_on(chains.last(), ']');
    // One chain for each stream that is reversed, and the join.
    &&& chains.len() == chains_before(n, video, audio) + 1
    &&& forall|i: nat|
        #![trigger decimal(i)]
        i < n && video ==> chains[chains_before(i, video, audio) as int] == "["@ + decimal(i)
            + ":v:0]reverse[v"@ + decimal(i) + "]"@
    &&& forall|i: nat|
        #![trigger decimal(i)]
        i < n && audio ==> chains[chains_before(i, video, audio) + (if video {
            1int
        } else {
            0
        })] == "["@ + decimal(i) + ":a:0]areverse[a"@ + decimal(i) + "]"@
    // The join takes the video and the audio of each input in turn.
    &&& taken.len() == 2 * n + 3
    &&& forall|i: nat|
        #![trigger decimal(i)]
        i < n ==> taken[2 * (i as int)] == (if video {
            "[v"@ + decimal(i)
        } else {
            "["@ + decimal(i) + ":v:0"@
        }) && taken[2 * (i as int) + 1] == (if audio {
            "[a"@ + decimal(i)
        } else {
            "["@ + decimal(i) + ":a:0"@
        })
    &&& taken[2 * (n as int)] == "concat=n="@ + decimal(n) + ":v=1:a=1[v"@
    &&& taken[2 * (n as int) + 1] == "[a"@
    &&& taken[2 * (n as int) + 2].len() == 0
}

/// The chains that reverse the inputs below `n`.
spec fn turning(n: nat, video: bool, audio: bool) -> Seq<Seq<char>>
    decreases n,
{
    if n == 0 {
        Seq::empty()
    } else {
        let i = (n - 1) as nat;
        turning(i, video, audio) + (if video {
            seq![video_turned(i)]
        } else {
            Seq::empty()
        }) + (if audio {
            seq![audio_turned(i)]
        } else {
            Seq::empty()
        })
    }
}

/// What the join takes of the inputs below `n`.
spec fn taking(n: nat, video: bool, audio: bool) -> Seq<Seq<char>>
    decreases n,
{
    if n == 0 {
        Seq::empty()
    } else {
        let i = (n - 1) as nat;
        taking(i, video, audio).push(
            if video {
                "[v"@ + decimal(i)
            } else {
                "["@ + decimal(i) + ":v:0"@
            },
        ).push(
            if audio {
                "[a"@ + decimal(i)
            } else {
                "["@ + decimal(i) + ":a:0"@
            },
        )
    }
}

proof fn turning_places(n: nat, video: bool, audio: bool)
    ensures
        turning(n, video, audio).len() == chains_before(n, video, audio),
        forall|i: nat|
            #![trigger decimal(i)]
            i < n && video ==> turning(n, video, audio)[chains_before(i, video, audio) as int]
                == video_turned(i),
        forall|i: nat|
            #![trigger decimal(i)]
            i < n && audio ==> turning(n, video, audio)[chains_before(i, video, audio) + (if video {
                1int
            } else {
                0
            })] == audio_turned(i),
    decreases n,
{
    if n > 0 {
        turning_places((n - 1) as nat, video, audio);
    }
}

proof fn taking_places(n: nat, video: bool, audio: bool)
    ensures
        taking(n, video, audio).len() == 2 * n,
        forall|i: nat|
            #![trigger decimal(i)]
            i < n ==> taking(n, video, audio)[2 * (i as int)] == (if video {
                "[v"@ + decimal(i)
            } else {
                "["@ + decimal(i) + ":v:0"@
            }) && taking(n, video, audio)[2 * (i as int) + 1] == (if audio {
                "[a"@ + decimal(i)
            } else {
                "["@ + decimal(i) + ":a:0"@
            }),
    decreases n,
{
    if n > 0 {
        taking_places((n - 1) as nat, video, audio);
    }
}

/// The marks that chains are made of.
proof fn marks()
    ensures
        !"["@.contains(';'),
        !"[v"@.contains(';'),
        !"[a"@.contains(';'),
        !"]"@.contains(';'),
        !":v:0]"@.contains(';'),
        !":a:0]"@.contains(';'),
        !":v:0]reverse[v"@.contains(';'),
        !":a:0]areverse[a"@.contains(';'),
        !"concat=n="@.contains(';'),
        !":v=1:a=1[v][a]"@.contains(';'),
        !"["@.contains(']'),
        !"[v"@.contains(']'),
        !"[a"@.contains(']'),
        !":v:0"@.contains(']'),
        !":a:0"@.contains(']'),
        !"concat=n="@.contains(']'),
        !":v=1:a=1[v"@.contains(']'),
        ";"@ == seq![';'],
        "]"@ == seq![']'],
        ":v:0]"@ == ":v:0"@ + seq![']'],
        ":a:0]"@ == ":a:0"@ + seq![']'],
        ":v:0]reverse[v"@ == ":v:0]"@ + "reverse"@ + "[v"@,
        ":a:0]areverse[a"@ == ":a:0]"@ + "areverse"@ + "[a"@,
        ":v=1:a=1[v][a]"@ == ":v=1:a=1[v"@ + seq![']'] + "[a"@ + seq![']'],
{
    reveal_strlit("[");
    reveal_strlit("[v");
    reveal_strlit("[a");
    reveal_strlit("]");
    reveal_strlit(";");
    reveal_strlit(":v:0");
    reveal_strlit(":a:0");
    reveal_strlit(":v:0]");
    reveal_strlit(":a:0]");
    reveal_strlit("reverse");
    reveal_strlit("areverse");
    reveal_strlit(":v:0]reverse[v");
    reveal_strlit(":a:0]areverse[a");
    reveal_strlit("concat=n=");
    reveal_strlit(":v=1:a=1[v");
    reveal_strlit(":v=1:a=1[v][a]");
    assert(";"@ =~= seq![';']);
    assert("]"@ =~= seq![']']);
    assert(":v:0]"@ =~= ":v:0"@ + seq![']']);
    assert(":a:0]"@ =~= ":a:0"@ + seq![']']);
    assert(":v:0]reverse[v"@ =~= ":v:0]"@ + "reverse"@ + "[v"@);
    assert(":a:0]areverse[a"@ =~= ":a:0]"@ + "areverse"@ + "[a"@);
    assert(":v=1:a=1[v][a]"@ =~= ":v=1:a=1[v"@ + seq![']'] + "[a"@ + seq![']']);
}

/// A number between two marks holds a character that neither does in no place.
proof fn framed(a: Seq<char>, n: nat, b: Seq<char>, c: char)
    requires
        !a.contains(c),
        !b.contains(c),
        !('0' <= c <= '9'),
    ensures
        !(a + decimal(n) + b).contains(c),
        !(a + decimal(n)).contains(c),
{
    no_mark_in_decimal(n, c);
    in_neither(a, decimal(n), c);
    in_neither(a + decimal(n), b, c);
}

/// The chains that reverse an input hold no semicolon.
proof fn chains_are_whole(i: nat)
    ensures
        !video_turned(i).contains(';'),
        !audio_turned(i).contains(';'),
{
    marks();
    framed("["@, i, ":v:0]reverse[v"@, ';');
    framed("["@ + decimal(i) + ":v:0]reverse[v"@, i, "]"@, ';');
    framed("["@, i, ":a:0]areverse[a"@, ';');
    framed("["@ + decimal(i) + ":a:0]areverse[a"@, i, "]"@, ';');
}

/// The reversals of one input, chain by chain.
proof fn reversal_chains(i: nat, opts: ConcatOptions)
    ensures
        reversal(i, opts) == (if opts.reverse_video {
            video_turned(i) + seq![';']
        } else {
            Seq::empty()
        }) + (if opts.reverse_audio {
            audio_turned(i) + seq![';']
        } else {
            Seq::empty()
        }),
{
    marks();
    assert(video_label(i, false) + "reverse"@ + video_label(i, true) + ";"@ =~= video_turned(i)
        + seq![';']);
    assert(audio_label(i, false) + "areverse"@ + audio_label(i, true) + ";"@ =~= audio_turned(i)
        + seq![';']);
}

/// The reversals of a graph are its chains but the last.
proof fn reversals_are_chains(n: nat, opts: ConcatOptions)
    ensures
        split_on(reversals(n, opts), ';') == turning(
            n,
            opts.reverse_video,
            opts.reverse_audio,
        ).push(Seq::empty()),
    decreases n,
{
    let rows = turning(n, opts.reverse_video, opts.reverse_audio);
    if n == 0 {
        assert(rows.push(Seq::<char>::empty()) =~= seq![Seq::<char>::empty()]);
    } else {
        let i = (n - 1) as nat;
        let s = reversals(i, opts);
        let before = turning(i, opts.reverse_video, opts.reverse_audio);
        reversals_are_chains(i, opts);
        chains_are_whole(i);
        reversal_chains(i, opts);
        let v = video_turned(i);
        let a = audio_turned(i);
        let middle = if opts.reverse_video {
            s + v + seq![';']
        } else {
            s
        };
        let half = if opts.reverse_video {
            before.push(v)
        } else {
            before
        };
        if opts.reverse_video {
            piece_added(s, before, v, ';');
        }
        if opts.reverse_audio {
            piece_added(middle, half, a, ';');
            assert(rows =~= half.push(a));
            assert(s + reversal(i, opts) =~= middle + a + seq![';']);
        } else {
            assert(rows =~= half);
            assert(s + reversal(i, opts) =~= middle);
        }
    }
}

/// What the join takes as the video of an input.
spec fn video_taken(i: nat, video: bool) -> Seq<char> {
    if video {
        "[v"@ + decimal(i)
    } else {
        "["@ + decimal(i) + ":v:0"@
    }
}

/// What the join takes as the audio of an input.
spec fn audio_taken(i: nat, audio: bool) -> Seq<char> {
    if audio {
        "[a"@ + decimal(i)
    } else {
        "["@ + decimal(i) + ":a:0"@
    }
}

/// The labels of an input, closed by their brackets.
proof fn labels_are_closed(i: nat, reverse: bool)
    ensures
        video_label(i, reverse) == video_taken(i, reverse) + seq![']'],
        audio_label(i, reverse) == audio_taken(i, reverse) + seq![']'],
        !video_label(i, reverse).contains(';'),
        !audio_label(i, reverse).contains(';'),
        !video_taken(i, reverse).contains(']'),
        !audio_taken(i, reverse).contains(']'),
{
    marks();
    if reverse {
        framed("[v"@, i, "]"@, ';');
        framed("[a"@, i, "]"@, ';');
        framed("[v"@, i, "["@, ']');
        framed("[a"@, i, "["@, ']');
    } else {
        framed("["@, i, ":v:0]"@, ';');
        framed("["@, i, ":a:0]"@, ';');
        framed("["@, i, ":v:0"@, ']');
        framed("["@, i, ":a:0"@, ']');
    }
    assert(video_label(i, reverse) =~= video_taken(i, reverse) + seq![']']);
    assert(audio_label(i, reverse) =~= audio_taken(i, reverse) + seq![']']);
}

/// The labels of a graph are what its last chain takes.
proof fn labels_are_taken(n: nat, opts: ConcatOptions)
    ensures
        split_on(labels(n, opts), ']') == taking(
            n,
            opts.reverse_video,
            opts.reverse_audio,
        ).push(Seq::empty()),
        !labels(n, opts).contains(';'),
    decreases n,
{
    let rows = taking(n, opts.reverse_video, opts.reverse_audio);
    if n == 0 {
        assert(rows.push(Seq::<char>::empty()) =~= seq![Seq::<char>::empty()]);
    } else {
        let i = (n - 1) as nat;
        let s = labels(i, opts);
        let before = taking(i, opts.reverse_video, opts.reverse_audio);
        let v = video_taken(i, opts.reverse_video);
        let a = audio_taken(i, opts.reverse_audio);
        let vl = video_label(i, opts.reverse_video);
        let al = audio_label(i, opts.reverse_audio);
        labels_are_taken(i, opts);
        labels_are_closed(i, opts.reverse_video);
        labels_are_closed(i, opts.reverse_audio);
        piece_added(s, before, v, ']');
        piece_added(s + v + seq![']'], before.push(v), a, ']');
        assert(s + vl + al =~= s + v + seq![']'] + a + seq![']']);
        assert(rows == before.push(v).push(a));
        in_neither(s, vl, ';');
        in_neither(s + vl, al, ';');
    }
}

/// The graph of a join reverses the video of every input exactly where that is
/// asked for, and the audio of every input exactly where that is asked for,
/// independently of each other; and it joins all inputs in order, each with its
/// video and its audio as they then are.
pub proof fn graph_joins_what_is_asked_for(n: nat, opts: ConcatOptions)
    ensures
        joins(filter_graph(n, opts), n, opts.reverse_video, opts.reverse_audio),
{
    let video = opts.reverse_video;
    let audio = opts.reverse_audio;
    let tail = "concat=n="@ + decimal(n) + ":v=1:a=1[v][a]"@;
    let join = labels(n, opts) + tail;
    marks();
    reversals_are_chains(n, opts);
    labels_are_taken(n, opts);
    turning_places(n, video, audio);
    taking_places(n, video, audio);
    framed("concat=n="@, n, ":v=1:a=1[v][a]"@, ';');
    in_neither(labels(n, opts), tail, ';');
    piece_added(reversals(n, opts), turning(n, video, audio), join, ';');
    assert(filter_graph(n, opts) =~= reversals(n, opts) + join);
    // What the join takes.
    let rows = taking(n, video, audio);
    let last = "concat=n="@ + decimal(n) + ":v=1:a=1[v"@;
    framed("concat=n="@, n, ":v=1:a=1[v"@, ']');
    piece_added(labels(n, opts), rows, last, ']');
    piece_added(labels(n, opts) + last + seq![']'], rows.push(last), "[a"@, ']');
    assert(join =~= labels(n, opts) + last + seq![']'] + "[a"@ + seq![']']);
    assert(split_on(join, ']') == rows.push(last).push("[a"@).push(Seq::empty()));
    let graph = filter_graph(n, opts);
    assert(split_on(graph, ';') == turning(n, video, audio).push(join));
    assert(split_on(graph, ';').last() == join);
}

// ---------------------------------------------------------------------------
// The graph of a change of tempo
// ---------------------------------------------------------------------------

/// The filters of a chain that doubles the tempo `doublings` times, halves it
/// `halvings` times, and changes it by a rest.
pub open spec fn tempo_filters(doublings: nat, halvings: nat, rest: Seq<char>) -> Seq<Seq<char>> {
    Seq::new(
        doublings + halvings + 1,
        |k: int|
            if k < doublings {
                "atempo=2.0"@
            } else if k < doublings + halvings {
                "atempo=0.5"@
            } else {
                "atempo="@ + rest
            },
    )
}

/// By which power of two a chain of filters changes the tempo: each filter that
/// doubles it counts one up, each that halves it counts one down.
pub open spec fn net_doublings(filters: Seq<Seq<char>>) -> int
    decreases filters.len(),
{
    if filters.len() == 0 {
        0
    } else {
        net_doublings(filters.drop_last()) + (if filters.last() == "atempo=2.0"@ {
            1int
        } else if filters.last() == "atempo=0.5"@ {
            -1
        } else {
            0
        })
    }
}

/// The first filters of a chain as text.
proof fn chain_so_far(doublings: nat, halvings: nat, rest: Seq<char>, k: nat)
    requires
        1 <= k <= doublings + halvings,
    ensures
        ({
            let twos = if k <= doublings {
                k
            } else {
                doublings
            };
            joined(tempo_filters(doublings, halvings, rest).take(k as int), ',').push(',')
                == repeated("atempo=2.0,"@, twos) + repeated("atempo=0.5,"@, (k - twos) as nat)
        }),
    decreases k,
{
    reveal_strlit("atempo=2.0");
    reveal_strlit("atempo=0.5");
    reveal_strlit("atempo=2.0,");
    reveal_strlit("atempo=0.5,");
    let all = tempo_filters(doublings, halvings, rest);
    let now = all.take(k as int);
    let x = now.last();
    let marked = if k <= doublings {
        "atempo=2.0,"@
    } else {
        "atempo=0.5,"@
    };
    assert("atempo=2.0"@.push(',') =~= "atempo=2.0,"@);
    assert("atempo=0.5"@.push(',') =~= "atempo=0.5,"@);
    assert(x.push(',') == marked);
    if k == 1 {
        assert(joined(now, ',') == x);
        reveal_with_fuel(repeated, 2);
        assert(joined(now, ',').push(',') =~= marked);
        if doublings >= 1 {
            assert(repeated("atempo=2.0,"@, 1) + repeated("atempo=0.5,"@, 0) =~= "atempo=2.0,"@);
        } else {
            assert(repeated("atempo=2.0,"@, 0) + repeated("atempo=0.5,"@, 1) =~= "atempo=0.5,"@);
        }
    } else {
        chain_so_far(doublings, halvings, rest, (k - 1) as nat);
        assert(now.drop_last() =~= all.take(k - 1));
        let before = joined(all.take(k - 1), ',').push(',');
        assert(joined(now, ',').push(',') =~= before + marked);
        if k <= doublings {
            assert(repeated("atempo=2.0,"@, k) + repeated("atempo=0.5,"@, 0) =~= before + marked);
        } else {
            let ones = (k - doublings) as nat;
            assert(repeated("atempo=2.0,"@, doublings) + repeated("atempo=0.5,"@, ones)
                =~= before + marked);
        }
    }
}

proof fn chain_counts(doublings: nat, halvings: nat, rest: Seq<char>, k: nat)
    requires
        k <= doublings + halvings,
    ensures
        net_doublings(tempo_filters(doublings, halvings, rest).take(k as int)) == if k
            <= doublings {
            k as int
        } else {
            doublings - (k - doublings)
        },
    decreases k,
{
    reveal_strlit("atempo=2.0");
    reveal_strlit("atempo=0.5");
    assert("atempo=2.0"@[7] == '2' && "atempo=0.5"@[7] == '0');
    if k > 0 {
        let all = tempo_filters(doublings, halvings, rest);
        chain_counts(doublings, halvings, rest, (k - 1) as nat);
        assert(all.take(k as int).drop_last() =~= all.take(k - 1));
        assert(all.take(k as int).last() == all[k - 1]);
    }
}

/// The graph of a change of tempo: it divides the time stamps of the picture by
/// the factor, and sends the sound through its chain of filters.
pub proof fn graph_of_a_tempo(t: Tempo)
    ensures
        audible_args(t)[1] == "[0:v]setpts=PTS/"@ + t.factor@ + ",fps=30[v];[0:a]"@ + joined(
            tempo_filters(t.doublings as nat, t.halvings as nat, t.rest@),
            ',',
        ) + "[a]"@,
{
    let d = t.doublings as nat;
    let h = t.halvings as nat;
    let filters = tempo_filters(d, h, t.rest@);
    let chain = joined(filters, ',');
    assert(filters.drop_last() =~= filters.take((d + h) as int));
    assert(filters.last() == "atempo="@ + t.rest@);
    if d + h == 0 {
        assert(chain =~= tempo_chain(t));
    } else {
        chain_so_far(d, h, t.rest@, d + h);
        assert(chain =~= tempo_chain(t));
    }
    reveal_strlit("[0:v]setpts=PTS/");
    reveal_strlit("[0:v]");
    reveal_strlit("setpts=PTS/");
    reveal_strlit(",fps=30[v];[0:a]");
    reveal_strlit(",fps=30");
    reveal_strlit("[v];[0:a]");
    assert("[0:v]setpts=PTS/"@ =~= "[0:v]"@ + "setpts=PTS/"@);
    assert(",fps=30[v];[0:a]"@ =~= ",fps=30"@ + "[v];[0:a]"@);
    assert(audible_args(t)[1] =~= "[0:v]setpts=PTS/"@ + t.factor@ + ",fps=30[v];[0:a]"@ + chain
        + "[a]"@);
}

/// The picture and the sound of a change of tempo change by one factor, whether
/// it is a speed-up or a slow-down: the graph divides the time stamps of the
/// picture by the factor, and its tempo filters, one for each doubling, one for
/// each halving and one for the rest of the plan that makes up the factor,
/// multiply to the factor.
pub proof fn picture_and_sound_keep_step(
    input: Seq<char>,
    output: Seq<char>,
    t: Tempo,
    fit: Seq<char>,
    plan: TempoPlan,
    factor: Binary,
)
    requires
        makes_up(plan, factor),
        t.doublings == plan.doublings,
        t.halvings == plan.halvings,
    ensures
        ({
            let graphs = values(
                change_args(input, output, SpeedMode::Factor(t), fit),
                "-filter_complex"@,
            );
            let filters = tempo_filters(t.doublings as nat, t.halvings as nat, t.rest@);
            &&& graphs.len() == 1
            &&& graphs[0] == "[0:v]setpts=PTS/"@ + t.factor@ + ",fps=30[v];[0:a]"@ + joined(
                filters,
                ',',
            ) + "[a]"@
            &&& factor.mantissa == plan.rest.mantissa
            &&& factor.exponent == plan.rest.exponent + net_doublings(filters.drop_last())
        }),
{
    factor_runs_one_graph(input, output, t, fit);
    graph_of_a_tempo(t);
    let d = t.doublings as nat;
    let h = t.halvings as nat;
    let filters = tempo_filters(d, h, t.rest@);
    assert(filters.drop_last() =~= filters.take((d + h) as int));
    chain_counts(d, h, t.rest@, d + h);
}

} // verus!
