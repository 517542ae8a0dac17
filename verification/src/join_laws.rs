//! Laws of the jobs that join videos: what Concat and Add Audio ask for, step by
//! step, read off the actions themselves.
use crate::add_audio::{
    add_audio_joins_then_muxes, add_audio_start, audio_run, base_options, mux_args,
    AddAudioOptions,
};
use crate::command::{options, options_differ, options_from, values, values_from};
use crate::command_laws::{copying_keeps_the_primary_streams, mux_plays_the_track_over_the_visuals};
use crate::concat::{
    concat_falls_back, concat_run, concat_start, copies_first, copy_args, filter_args,
    filter_graph, input_args, join_order, list_body, list_line, quoted, robust_ending,
    ConcatOptions,
};
use crate::graph_laws::{graph_joins_what_is_asked_for, joins};
use crate::jobs::{ActionView, Ending, EventView, StepView, World};
use crate::paths::sanitized;
use crate::scan::starts_with;
use crate::text::decimal;
use vstd::prelude::*;
use vstd::string::*;

verus! {

// ---------------------------------------------------------------------------
// Reading a list file
// ---------------------------------------------------------------------------

/// How the path of a line is read, and what follows the line: between single
/// quotes every character stands for itself, outside of them a backslash takes
/// the next one as it is, and a line ends outside of quotes.
pub open spec fn read_path(s: Seq<char>, inside: bool) -> (Seq<char>, Seq<char>)
    decreases s.len(),
{
    if s.len() == 0 {
        (Seq::empty(), Seq::empty())
    } else if s[0] == '\'' {
        read_path(s.skip(1), !inside)
    } else if !inside && s[0] == '\\' && s.len() > 1 {
        let (path, behind) = read_path(s.skip(2), false);
        (seq![s[1]] + path, behind)
    } else if !inside && s[0] == '\n' {
        (Seq::empty(), s.skip(1))
    } else {
        let (path, behind) = read_path(s.skip(1), inside);
        (seq![s[0]] + path, behind)
    }
}

/// The files that a list file names: each line gives one behind the word `file`.
pub open spec fn read_list(s: Seq<char>) -> Seq<Seq<char>>
    decreases s.len(),
{
    if !starts_with(s, "file "@) {
        Seq::empty()
    } else {
        let (path, behind) = read_path(s.skip(5), false);
        if behind.len() < s.len() {
            seq![path] + read_list(behind)
        } else {
            seq![path]
        }
    }
}

proof fn quoted_path_is_read(s: Seq<char>, behind: Seq<char>)
    ensures
        read_path(quoted(s) + seq!['\'', '\n'] + behind, true) == (s, behind),
    decreases s.len(),
{
    let all = quoted(s) + seq!['\'', '\n'] + behind;
    if s.len() == 0 {
        assert(all[0] == '\'');
        let a1 = all.skip(1);
        assert(a1[0] == '\n');
        assert(a1.skip(1) =~= behind);
        assert(read_path(a1, false) == (Seq::<char>::empty(), behind));
        assert(s =~= Seq::<char>::empty());
    } else {
        let rest = s.drop_first();
        let tail = quoted(rest) + seq!['\'', '\n'] + behind;
        quoted_path_is_read(rest, behind);
        assert(s =~= seq![s[0]] + rest);
        if s[0] == '\'' {
            assert(all =~= seq!['\'', '\\', '\'', '\''] + tail);
            let a1 = all.skip(1);
            assert(a1 =~= seq!['\\', '\'', '\''] + tail);
            let a2 = a1.skip(2);
            assert(a2 =~= seq!['\''] + tail);
            assert(a2.skip(1) =~= tail);
            assert(read_path(a2, false) == read_path(tail, true));
            assert(a1[1] == '\'');
            assert(read_path(a1, false) == (seq!['\''] + rest, behind));
        } else {
            assert(all =~= seq![s[0]] + tail);
            assert(all.skip(1) =~= tail);
        }
    }
}

proof fn line_is_read(path: Seq<char>, behind: Seq<char>)
    ensures
        read_list(list_line(path) + behind) == seq![sanitized(path)] + read_list(behind),
{
    reveal_strlit("file ");
    reveal_strlit("file '");
    reveal_strlit("'\n");
    let p = sanitized(path);
    let all = list_line(path) + behind;
    let tail = quoted(p) + seq!['\'', '\n'] + behind;
    assert(all.take(5) =~= "file "@);
    let rest = all.skip(5);
    assert(rest =~= seq!['\''] + tail);
    assert(rest.skip(1) =~= tail);
    quoted_path_is_read(p, behind);
    assert(read_path(rest, false) == (p, behind));
}

proof fn list_begins_with_the_first(files: Seq<Seq<char>>)
    requires
        files.len() > 0,
    ensures
        list_body(files) == list_line(files[0]) + list_body(files.drop_first()),
    decreases files.len(),
{
    let front = files.drop_last();
    if files.len() == 1 {
        assert(front =~= Seq::<Seq<char>>::empty());
        assert(files.drop_first() =~= Seq::<Seq<char>>::empty());
        assert(list_body(files) =~= list_line(files[0]) + list_body(files.drop_first()));
    } else {
        list_begins_with_the_first(front);
        assert(front.drop_first() =~= files.drop_first().drop_last());
        assert(list_body(files) =~= list_line(files[0]) + list_body(files.drop_first()));
    }
}

/// A list file names the files that it was written for, in order and whatever
/// characters their paths hold.
pub proof fn list_names_its_files(files: Seq<Seq<char>>)
    ensures
        read_list(list_body(files)).len() == files.len(),
        forall|i: int|
            0 <= i < files.len() ==> #[trigger] read_list(list_body(files))[i] == sanitized(
                files[i],
            ),
    decreases files.len(),
{
    reveal_strlit("file ");
    if files.len() > 0 {
        let rest = files.drop_first();
        list_begins_with_the_first(files);
        line_is_read(files[0], list_body(rest));
        list_names_its_files(rest);
        let all = read_list(list_body(files));
        assert forall|i: int| 0 <= i < files.len() implies #[trigger] all[i] == sanitized(
            files[i],
        ) by {
            if i > 0 {
                assert(all[i] == read_list(list_body(rest))[i - 1]);
                assert(rest[i - 1] == files[i]);
            }
        }
    }
}

// ---------------------------------------------------------------------------
// The command of a join
// ---------------------------------------------------------------------------

/// Whether `got` are the files of `inputs` as ffmpeg takes them, in order or, if
/// `reverse` is set, from the last to the first.
pub open spec fn in_turn(got: Seq<Seq<char>>, inputs: Seq<Seq<char>>, reverse: bool) -> bool {
    &&& got.len() == inputs.len()
    &&& forall|i: int|
        0 <= i < inputs.len() ==> #[trigger] got[i] == sanitized(
            inputs[if reverse {
                inputs.len() - 1 - i
            } else {
                i
            }],
        )
}

/// Behind a first part, arguments are read as if they stood alone.
proof fn read_behind(a: Seq<Seq<char>>, b: Seq<Seq<char>>, option: Seq<char>, k: int)
    requires
        0 <= k,
        b.len() > 0,
    ensures
        values_from(a + b, option, a.len() + k) == values_from(b, option, k),
        options_from(a + b, a.len() + k) == options_from(b, k),
    decreases b.len() - k,
{
    if k < b.len() - 1 {
        assert((a + b)[a.len() + k] == b[k]);
        assert((a + b)[a.len() + k + 1] == b[k + 1]);
        read_behind(a, b, option, k + 1);
        read_behind(a, b, option, k + 2);
    }
}

/// Whether file `j` stands behind its flag in arguments whose inputs begin at
/// position `from`.
spec fn is_input(args: Seq<Seq<char>>, from: int, files: Seq<Seq<char>>, j: int) -> bool {
    args[from + 2 * j] == "-i"@ && args[from + 2 * j + 1] == sanitized(files[j])
}

proof fn inputs_stand_behind_flags(files: Seq<Seq<char>>)
    ensures
        input_args(files).len() == 2 * files.len(),
        forall|j: int|
            0 <= j < files.len() ==> #[trigger] is_input(input_args(files), 0, files, j),
    decreases files.len(),
{
    if files.len() > 0 {
        let front = files.drop_last();
        inputs_stand_behind_flags(front);
        let all = input_args(files);
        assert forall|j: int| 0 <= j < files.len() implies #[trigger] is_input(
            all,
            0,
            files,
            j,
        ) by {
            if j < front.len() {
                assert(is_input(input_args(front), 0, front, j));
            }
        }
    }
}

/// The inputs from the `i`th on are read as values of their flag.
proof fn inputs_are_read(
    args: Seq<Seq<char>>,
    files: Seq<Seq<char>>,
    option: Seq<char>,
    i: int,
)
    requires
        0 <= i <= files.len(),
        1 + 2 * files.len() < args.len(),
        forall|j: int| 0 <= j < files.len() ==> #[trigger] is_input(args, 1, files, j),
    ensures
        ({
            let rest = values_from(args, option, 1 + 2 * files.len() as int);
            let got = values_from(args, option, 1 + 2 * i);
            let n = files.len() - i;
            if option == "-i"@ {
                &&& got.len() == n + rest.len()
                &&& forall|j: int| 0 <= j < n ==> #[trigger] got[j] == sanitized(files[i + j])
                &&& got.skip(n) == rest
            } else {
                got == rest
            }
        }),
        options_from(args, 1 + 2 * i) == Seq::new((files.len() - i) as nat, |j: int| "-i"@)
            + options_from(args, 1 + 2 * files.len() as int),
    decreases files.len() - i,
{
    options_differ();
    let rest = values_from(args, option, 1 + 2 * files.len() as int);
    let got = values_from(args, option, 1 + 2 * i);
    let others = options_from(args, 1 + 2 * files.len() as int);
    if i == files.len() {
        assert(got.skip(0) =~= got);
        assert(Seq::new(0, |j: int| "-i"@) + others =~= others);
    } else {
        assert(is_input(args, 1, files, i));
        inputs_are_read(args, files, option, i + 1);
        let less = values_from(args, option, 1 + 2 * (i + 1));
        let n = files.len() - i;
        if option == "-i"@ {
            assert(got == seq![sanitized(files[i])] + less);
            assert forall|j: int| 0 <= j < n implies #[trigger] got[j] == sanitized(
                files[i + j],
            ) by {
                if j > 0 {
                    assert(got[j] == less[j - 1]);
                }
            }
            assert(got.skip(n) =~= less.skip(n - 1));
        }
        let m = (files.len() - i) as nat;
        assert(options_from(args, 1 + 2 * i) =~= Seq::new(m, |j: int| "-i"@) + others);
    }
}

/// What the robust path of a join asks ffmpeg for: every file is an input, in
/// order; one graph joins them, with picture and sound reversed as the options
/// say; the joined picture and sound are encoded to the output; and nothing else
/// is asked for.
#[verifier::rlimit(60)]
#[verifier::spinoff_prover]
pub proof fn robust_path_joins_every_file(
    files: Seq<Seq<char>>,
    output: Seq<char>,
    opts: ConcatOptions,
)
    ensures
        ({
            let args = filter_args(files, output, opts);
            let graphs = values(args, "-filter_complex"@);
            &&& in_turn(values(args, "-i"@), files, false)
            &&& graphs.len() == 1 && joins(
                graphs[0],
                files.len(),
                opts.reverse_video,
                opts.reverse_audio,
            )
            &&& values(args, "-map"@) == seq!["[v]"@, "[a]"@]
            &&& values(args, "-c:v"@) == seq!["libx264"@]
            &&& values(args, "-preset"@) == seq!["fast"@]
            &&& values(args, "-crf"@) == seq!["23"@]
            &&& values(args, "-pix_fmt"@) == seq!["yuv420p"@]
            &&& values(args, "-c:a"@) == seq!["aac"@]
            &&& values(args, "-b:a"@) == seq!["192k"@]
            &&& values(args, "-movflags"@) == seq!["+faststart"@]
            &&& options(args) == seq!["-y"@] + Seq::new(files.len(), |j: int| "-i"@) + seq![
                "-filter_complex"@,
                "-map"@,
                "-map"@,
                "-c:v"@,
                "-preset"@,
                "-crf"@,
                "-pix_fmt"@,
                "-c:a"@,
                "-b:a"@,
                "-movflags"@,
            ]
            &&& args.last() == sanitized(output)
        }),
{
    let n = files.len();
    let graph = filter_graph(n, opts);
    let head = seq!["-y"@] + input_args(files);
    let tail = seq![
        "-filter_complex"@,
        graph,
        "-map"@,
        "[v]"@,
        "-map"@,
        "[a]"@,
        "-c:v"@,
        "libx264"@,
        "-preset"@,
        "fast"@,
        "-crf"@,
        "23"@,
        "-pix_fmt"@,
        "yuv420p"@,
        "-c:a"@,
        "aac"@,
        "-b:a"@,
        "192k"@,
        "-movflags"@,
        "+faststart"@,
        sanitized(output),
    ];
    let args = filter_args(files, output, opts);
    assert(args == head + tail);
    graph_joins_what_is_asked_for(n, opts);
    inputs_stand_behind_flags(files);
    assert forall|j: int| 0 <= j < n implies #[trigger] is_input(args, 1, files, j) by {
        assert(is_input(input_args(files), 0, files, j));
        assert(args[1 + 2 * j] == input_args(files)[2 * j]);
        assert(args[2 + 2 * j] == input_args(files)[2 * j + 1]);
    }
    options_differ();
    assert(args[0] == "-y"@);
    assert forall|option: Seq<char>| #[trigger] values(args, option) == if option == "-i"@ {
        values(args, option)
    } else {
        values_from(tail, option, 0)
    } by {
        inputs_are_read(args, files, option, 0);
        read_behind(head, tail, option, 0);
    }
    inputs_are_read(args, files, "-i"@, 0);
    read_behind(head, tail, "-i"@, 0);
    reveal_with_fuel(values_from, 12);
    reveal_with_fuel(options_from, 12);
    assert(values_from(tail, "-i"@, 0) =~= Seq::<Seq<char>>::empty());
    assert(values_from(tail, "-filter_complex"@, 0) =~= seq![graph]);
    assert(values_from(tail, "-map"@, 0) =~= seq!["[v]"@, "[a]"@]);
    assert(values_from(tail, "-c:v"@, 0) =~= seq!["libx264"@]);
    assert(values_from(tail, "-preset"@, 0) =~= seq!["fast"@]);
    assert(values_from(tail, "-crf"@, 0) =~= seq!["23"@]);
    assert(values_from(tail, "-pix_fmt"@, 0) =~= seq!["yuv420p"@]);
    assert(values_from(tail, "-c:a"@, 0) =~= seq!["aac"@]);
    assert(values_from(tail, "-b:a"@, 0) =~= seq!["192k"@]);
    assert(values_from(tail, "-movflags"@, 0) =~= seq!["+faststart"@]);
    let rest = seq![
        "-filter_complex"@,
        "-map"@,
        "-map"@,
        "-c:v"@,
        "-preset"@,
        "-crf"@,
        "-pix_fmt"@,
        "-c:a"@,
        "-b:a"@,
        "-movflags"@,
    ];
    assert(options_from(tail, 0) =~= rest);
    assert(options(args) =~= seq!["-y"@] + Seq::new(n, |j: int| "-i"@) + rest);
}

// ---------------------------------------------------------------------------
// The jobs, step by step
// ---------------------------------------------------------------------------

/// Whether an action runs ffmpeg on all inputs, in order or from the last to the
/// first, to join them to `output` with picture and sound reversed as said.
pub open spec fn asks_for_join(
    a: ActionView,
    inputs: Seq<Seq<char>>,
    output: Seq<char>,
    reverse: bool,
    video: bool,
    audio: bool,
) -> bool {
    a matches ActionView::RunFfmpeg(args) && {
        let graphs = values(args, "-filter_complex"@);
        &&& in_turn(values(args, "-i"@), inputs, reverse)
        &&& graphs.len() == 1 && joins(graphs[0], inputs.len(), video, audio)
        &&& values(args, "-map"@) == seq!["[v]"@, "[a]"@]
        &&& args.last() == sanitized(output)
    }
}

/// Whether an action runs ffmpeg to copy the streams of what a list file names.
pub open spec fn asks_for_copy(a: ActionView, list: Seq<char>, output: Seq<char>) -> bool {
    a matches ActionView::RunFfmpeg(args) && {
        &&& values(args, "-f"@) == seq!["concat"@]
        &&& values(args, "-i"@) == seq![sanitized(list)]
        &&& values(args, "-c"@) == seq!["copy"@]
        &&& args.last() == sanitized(output)
    }
}

/// Whether an action writes a list file that names all inputs, in order or from
/// the last to the first.
pub open spec fn writes_list(
    a: ActionView,
    list: Seq<char>,
    inputs: Seq<Seq<char>>,
    reverse: bool,
) -> bool {
    a matches ActionView::WriteFile { path, body } && path == list && in_turn(
        read_list(body),
        inputs,
        reverse,
    )
}

/// The reply to the action at position `k`.
pub open spec fn reply(world: World, actions: Seq<ActionView>, k: int) -> EventView {
    world(actions.take(k + 1))
}

/// Whether a job ends with the robust path from position `k` on: the inputs are
/// joined, and the output is then there or that is an error.
pub open spec fn robust_from(
    end: Ending,
    k: int,
    inputs: Seq<Seq<char>>,
    output: Seq<char>,
    opts: ConcatOptions,
    world: World,
) -> bool {
    let t = end.actions;
    &&& k < t.len()
    &&& asks_for_join(
        t[k],
        inputs,
        output,
        opts.reverse_order,
        opts.reverse_video,
        opts.reverse_audio,
    )
    &&& match reply(world, t, k) {
        EventView::Failed(m) => t.len() == k + 1 && end.step == StepView::Failed(m),
        EventView::Done { .. } => t.len() == k + 2 && t[k + 1] == ActionView::TestFile(output)
            && end.step == if reply(world, t, k + 1).is_yes() {
            StepView::Finished(output)
        } else {
            StepView::Failed("concat produced no output"@)
        },
    }
}

/// Whether a join whose folder has been created ends as it should from position
/// `k` on. Where nothing is reversed and copying is preferred, the streams of all
/// inputs are copied through a list file, which is removed again; where that
/// leaves the output, it is the end. In all other cases the robust path follows.
pub open spec fn join_from(
    end: Ending,
    k: int,
    inputs: Seq<Seq<char>>,
    output: Seq<char>,
    list: Seq<char>,
    opts: ConcatOptions,
    world: World,
) -> bool {
    let t = end.actions;
    if opts.reverse_video || opts.reverse_audio || !opts.prefer_stream_copy {
        robust_from(end, k, inputs, output, opts, world)
    } else {
        &&& k < t.len()
        &&& writes_list(t[k], list, inputs, opts.reverse_order)
        &&& if reply(world, t, k) is Failed {
            robust_from(end, k + 1, inputs, output, opts, world)
        } else {
            &&& k + 2 < t.len()
            &&& asks_for_copy(t[k + 1], list, output)
            &&& t[k + 2] == ActionView::RemoveFile(list)
            &&& if reply(world, t, k + 1) is Failed {
                robust_from(end, k + 3, inputs, output, opts, world)
            } else {
                &&& k + 3 < t.len()
                &&& t[k + 3] == ActionView::TestFile(output)
                &&& if reply(world, t, k + 3).is_yes() {
                    t.len() == k + 4 && end.step == StepView::Finished(output)
                } else {
                    robust_from(end, k + 4, inputs, output, opts, world)
                }
            }
        }
    }
}

/// The command of the robust path is what it should be.
proof fn robust_command(
    inputs: Seq<Seq<char>>,
    output: Seq<char>,
    opts: ConcatOptions,
)
    ensures
        asks_for_join(
            ActionView::RunFfmpeg(filter_args(join_order(inputs, opts), output, opts)),
            inputs,
            output,
            opts.reverse_order,
            opts.reverse_video,
            opts.reverse_audio,
        ),
        writes_list(
            ActionView::WriteFile {
                path: Seq::empty(),
                body: list_body(join_order(inputs, opts)),
            },
            Seq::empty(),
            inputs,
            opts.reverse_order,
        ),
{
    let files = join_order(inputs, opts);
    let args = filter_args(files, output, opts);
    robust_path_joins_every_file(files, output, opts);
    list_names_its_files(files);
    assert(files.len() == inputs.len());
    let got = values(args, "-i"@);
    assert forall|i: int| 0 <= i < inputs.len() implies #[trigger] got[i] == sanitized(
        inputs[if opts.reverse_order {
            inputs.len() - 1 - i
        } else {
            i
        }],
    ) by {
        assert(got[i] == sanitized(files[i]));
    }
    let listed = read_list(list_body(files));
    assert forall|i: int| 0 <= i < inputs.len() implies #[trigger] listed[i] == sanitized(
        inputs[if opts.reverse_order {
            inputs.len() - 1 - i
        } else {
            i
        }],
    ) by {
        assert(listed[i] == sanitized(files[i]));
    }
}

/// The command of the stream copy is what it should be.
proof fn copy_command(list: Seq<char>, output: Seq<char>)
    ensures
        asks_for_copy(ActionView::RunFfmpeg(copy_args(list, output)), list, output),
{
    copying_keeps_the_primary_streams(list, output);
}

/// What the robust path asks for behind `actions`, found again in the end.
proof fn robust_steps(
    end: Ending,
    actions: Seq<ActionView>,
    inputs: Seq<Seq<char>>,
    output: Seq<char>,
    list: Seq<char>,
    opts: ConcatOptions,
    world: World,
)
    requires
        end == robust_ending(concat_start(inputs, output, list, opts), actions, world),
    ensures
        robust_from(end, actions.len() as int, inputs, output, opts, world),
        end.actions.len() > actions.len(),
        end.actions.take(actions.len() as int) == actions,
{
    robust_command(inputs, output, opts);
    let k = actions.len() as int;
    let run = actions.push(
        ActionView::RunFfmpeg(filter_args(join_order(inputs, opts), output, opts)),
    );
    assert(end.actions.take(k) =~= actions);
    assert(end.actions.take(k + 1) =~= run);
    if world(run) is Done {
        assert(end.actions.take(k + 2) =~= end.actions);
    }
}

/// A join does what it is asked for, step by step: it creates the folder of the
/// output, and joins the inputs by copying or by the robust path.
pub proof fn concat_step_by_step(
    inputs: Seq<Seq<char>>,
    output: Seq<char>,
    list: Seq<char>,
    opts: ConcatOptions,
    before: Seq<ActionView>,
    world: World,
)
    ensures
        ({
            let begun = before.push(ActionView::CreateParent(output));
            let end = concat_run(concat_start(inputs, output, list, opts), begun, world);
            match world(begun) {
                EventView::Failed(m) => end.step == StepView::Failed(m) && end.actions == begun,
                EventView::Done { .. } => {
                    &&& end.actions.take(begun.len() as int) == begun
                    &&& join_from(end, begun.len() as int, inputs, output, list, opts, world)
                },
            }
        }),
{
    concat_falls_back(inputs, output, list, opts, before, world);
    let job = concat_start(inputs, output, list, opts);
    let begun = before.push(ActionView::CreateParent(output));
    let end = concat_run(job, begun, world);
    let k = begun.len() as int;
    let t = end.actions;
    if world(begun) is Done {
        let listed = begun.push(
            ActionView::WriteFile { path: job.list, body: list_body(job.files) },
        );
        let copied = listed.push(ActionView::RunFfmpeg(copy_args(job.list, job.output)));
        let unlisted = copied.push(ActionView::RemoveFile(job.list));
        let tested = unlisted.push(ActionView::TestFile(job.output));
        robust_command(inputs, output, opts);
        copy_command(list, output);
        if !copies_first(opts) {
            robust_steps(end, begun, inputs, output, list, opts, world);
        } else if world(listed) is Failed {
            robust_steps(end, listed, inputs, output, list, opts, world);
            assert(t.take(k + 1) =~= listed);
            assert(t.take(k) =~= begun);
            assert(t[k] == listed[k]);
        } else {
            let shown = if world(copied) is Failed {
                unlisted
            } else {
                tested
            };
            if world(copied) is Failed {
                robust_steps(end, unlisted, inputs, output, list, opts, world);
            } else if !world(tested).is_yes() {
                robust_steps(end, tested, inputs, output, list, opts, world);
            } else {
                assert(t == tested);
                assert(t.take(tested.len() as int) =~= tested);
            }
            assert(t.take(shown.len() as int) == shown);
            assert(t.take(k) =~= shown.take(k));
            assert(shown.take(k) =~= begun);
            assert(t.take(k + 1) =~= shown.take(k + 1));
            assert(shown.take(k + 1) =~= listed);
            assert(t.take(k + 2) =~= shown.take(k + 2));
            assert(shown.take(k + 2) =~= copied);
            assert(t[k] == shown[k]);
            assert(t[k + 1] == shown[k + 1]);
            assert(t[k + 2] == shown[k + 2]);
            if world(copied) is Done {
                assert(t[k + 3] == shown[k + 3]);
            }
        }
    }
}

/// Whether an action runs ffmpeg to play a track over visuals: the visuals are
/// looped without end, the picture is theirs, the sound is that of the track,
/// played backwards exactly where `reverse` is set, and the output is cut at
/// `duration` and where the shorter stream ends.
pub open spec fn asks_for_mux(
    a: ActionView,
    base: Seq<char>,
    audio: Seq<char>,
    output: Seq<char>,
    duration: Seq<char>,
    opts: AddAudioOptions,
) -> bool {
    a matches ActionView::RunFfmpeg(args) && {
        let fps = decimal(
            if opts.fps < 10 {
                10
            } else if opts.fps > 60 {
                60
            } else {
                opts.fps as nat
            },
        );
        let graph = "[0:v]fps="@ + fps + "[v];[1:a]areverse[a]"@;
        &&& values(args, "-stream_loop"@) == seq!["-1"@]
        &&& values(args, "-i"@) == seq![sanitized(base), sanitized(audio)]
        &&& values(args, "-t"@) == seq![duration]
        &&& options(args).contains("-shortest"@)
        &&& values(args, "-r"@) == seq![fps]
        &&& opts.reverse_audio ==> values(args, "-filter_complex"@) == seq![graph] && values(
            args,
            "-map"@,
        ) == seq!["[v]"@, "[a]"@]
        &&& !opts.reverse_audio ==> values(args, "-vf"@) == seq!["fps="@ + fps] && values(
            args,
            "-map"@,
        ) == seq!["0:v:0"@, "1:a:0"@] && !options(args).contains("-filter_complex"@)
        &&& args.last() == sanitized(output)
    }
}

proof fn mux_command(
    base: Seq<char>,
    audio: Seq<char>,
    output: Seq<char>,
    duration: Seq<char>,
    opts: AddAudioOptions,
)
    ensures
        asks_for_mux(
            ActionView::RunFfmpeg(mux_args(base, audio, output, duration, opts)),
            base,
            audio,
            output,
            duration,
            opts,
        ),
{
    mux_plays_the_track_over_the_visuals(base, audio, output, duration, opts);
    options_differ();
    let all = options(mux_args(base, audio, output, duration, opts));
    if opts.reverse_audio {
        assert(all[15] == "-shortest"@);
    } else {
        assert(all[15] == "-shortest"@);
        assert(!all.contains("-filter_complex"@));
    }
}

/// Adding a track does what it is asked for, step by step. The track must be a
/// file and have a length. All visuals are joined to a base, in order or from
/// the last to the first as the options say, each with its picture reversed
/// exactly where the options say so and its sound as it is. The track is then
/// played over the base for its length, and the base is removed again.
pub proof fn add_audio_step_by_step(
    visuals: Seq<Seq<char>>,
    audio: Seq<char>,
    output: Seq<char>,
    base: Seq<char>,
    list: Seq<char>,
    opts: AddAudioOptions,
    before: Seq<ActionView>,
    world: World,
)
    ensures
        ({
            let begun = before.push(ActionView::TestFile(audio));
            let job = add_audio_start(visuals, audio, output, base, list, opts);
            let end = audio_run(job, begun, world);
            let t = end.actions;
            let b = before.len() as int;
            &&& t.len() > b && t.take(b + 1) == begun
            &&& if !reply(world, t, b).is_yes() {
                t.len() == b + 1 && end.step == StepView::Failed("audio not found: "@ + audio)
            } else {
                &&& t.len() > b + 1 && t[b + 1] == ActionView::CreateParent(output)
                &&& match reply(world, t, b + 1) {
                    EventView::Failed(m) => t.len() == b + 2 && end.step == StepView::Failed(m),
                    EventView::Done { .. } => {
                        &&& t.len() > b + 2 && t[b + 2] == ActionView::ProbeDuration(audio)
                        &&& match reply(world, t, b + 2) {
                            EventView::Failed(m) => t.len() == b + 3 && end.step
                                == StepView::Failed(m),
                            EventView::Done { text, .. } => base_from(
                                end,
                                b + 3,
                                visuals,
                                audio,
                                output,
                                base,
                                text,
                                opts,
                                world,
                            ),
                        }
                    },
                }
            }
        }),
{
    let begun = before.push(ActionView::TestFile(audio));
    let job = add_audio_start(visuals, audio, output, base, list, opts);
    let end = audio_run(job, begun, world);
    let t = end.actions;
    let b = before.len() as int;
    add_audio_joins_then_muxes(visuals, audio, output, base, list, opts, before, world);
    let made = begun.push(ActionView::CreateParent(output));
    let probed = made.push(ActionView::ProbeDuration(audio));
    let based = probed.push(ActionView::CreateParent(base));
    if !world(begun).is_yes() {
        assert(t.take(b + 1) =~= begun);
    } else if world(made) is Failed {
        assert(t.take(b + 1) =~= begun);
        assert(t.take(b + 2) =~= made);
    } else if world(probed) is Failed {
        assert(t.take(b + 1) =~= begun);
        assert(t.take(b + 2) =~= made);
        assert(t.take(b + 3) =~= probed);
    } else {
        let text = world(probed)->text;
        let options = base_options(opts);
        let join = concat_run(concat_start(visuals, base, list, options), based, world);
        concat_step_by_step(visuals, base, list, options, probed, world);
        mux_command(base, audio, output, text, opts);
        let u = join.actions;
        let n = u.len() as int;
        assert(u.take(b + 4) =~= based);
        // The actions of the job begin with those of the join.
        assert(t.take(n) =~= u);
        assert(t.take(b + 4) =~= u.take(b + 4));
        assert(t.take(b + 1) =~= based.take(b + 1) && based.take(b + 1) =~= begun);
        assert(t.take(b + 2) =~= based.take(b + 2) && based.take(b + 2) =~= made);
        assert(t.take(b + 3) =~= based.take(b + 3) && based.take(b + 3) =~= probed);
        assert(t[b + 1] == based[b + 1]);
        assert(t[b + 2] == based[b + 2]);
        assert(t[b + 3] == based[b + 3]);
        if world(based) is Done {
            assert(t[b + 4] == u[b + 4]);
            assert(t.take(b + 5) =~= u.take(b + 5));
            if reply(world, u, b + 4) is Done {
                assert(t[b + 5] == u[b + 5]);
                assert(t.take(b + 6) =~= u.take(b + 6));
                if reply(world, u, b + 5).is_yes() {
                    let run = u.push(
                        ActionView::RunFfmpeg(mux_args(base, audio, output, text, opts)),
                    );
                    assert(n == b + 6);
                    assert(t[n] == run[n]);
                    assert(t.take(n + 1) =~= run);
                    if world(run) is Done {
                        assert(t.take(b + 9) =~= t);
                    }
                }
            }
        }
    }
}

/// Whether a job that has asked for the folder of the base at position `k` goes
/// on as it should: the visuals are joined to the base, the track is played over
/// it, and the base is removed.
pub open spec fn base_from(
    end: Ending,
    k: int,
    visuals: Seq<Seq<char>>,
    audio: Seq<char>,
    output: Seq<char>,
    base: Seq<char>,
    duration: Seq<char>,
    opts: AddAudioOptions,
    world: World,
) -> bool {
    let t = end.actions;
    &&& t.len() > k && t[k] == ActionView::CreateParent(base)
    &&& match reply(world, t, k) {
        EventView::Failed(m) => t.len() == k + 1 && end.step == StepView::Failed(m),
        EventView::Done { .. } => {
            &&& t.len() > k + 1
            &&& asks_for_join(
                t[k + 1],
                visuals,
                base,
                opts.reverse_order,
                opts.reverse_video,
                false,
            )
            &&& match reply(world, t, k + 1) {
                EventView::Failed(m) => t.len() == k + 2 && end.step == StepView::Failed(m),
                EventView::Done { .. } => {
                    &&& t.len() > k + 2 && t[k + 2] == ActionView::TestFile(base)
                    &&& if !reply(world, t, k + 2).is_yes() {
                        t.len() == k + 3 && end.step == StepView::Failed(
                            "concat produced no output"@,
                        )
                    } else {
                        &&& t.len() > k + 4
                        &&& asks_for_mux(t[k + 3], base, audio, output, duration, opts)
                        &&& t[k + 4] == ActionView::RemoveFile(base)
                        &&& match reply(world, t, k + 3) {
                            EventView::Failed(m) => t.len() == k + 5 && end.step
                                == StepView::Failed(m),
                            EventView::Done { .. } => t.len() == k + 6 && t[k + 5]
                                == ActionView::TestFile(output) && end.step == if reply(
                                world,
                                t,
                                k + 5,
                            ).is_yes() {
                                StepView::Finished(output)
                            } else {
                                StepView::Failed("add_audio produced no output"@)
                            },
                        }
                    }
                },
            }
        },
    }
}

} // verus!
