//! Laws of the commands: what each run of ffmpeg and ffprobe is told, read off its
//! arguments option by option.
use crate::add_audio::{mux_args, AddAudioOptions};
use crate::command::{options, options_differ, options_from, values, values_from};
use crate::concat::copy_args;
use crate::convert::{conversion_args, ConvertFormat};
use crate::export::{join_args, segment_args, SegmentView};
use crate::frames::{extraction_args, sound_args};
use crate::paths::sanitized;
use crate::probe::{duration_args, log_args};
use crate::speed::{audible_args, change_args, run_args, silent_args, SpeedMode, Tempo};
use crate::text::decimal;
use vstd::prelude::*;

verus! {

/// The arguments that cut a segment: of the source, from the start of the segment
/// to its end, copied as it is, to the file of the segment; and nothing else.
pub proof fn cut_takes_the_range_of_the_clip(source: Seq<char>, s: SegmentView)
    ensures
        ({
            let args = segment_args(source, s);
            &&& options(args) == seq!["-y"@, "-i"@, "-ss"@, "-to"@, "-c"@]
            &&& values(args, "-i"@) == seq![sanitized(source)]
            &&& values(args, "-ss"@) == seq![s.start]
            &&& values(args, "-to"@) == seq![s.end]
            &&& values(args, "-c"@) == seq!["copy"@]
            &&& args.last() == sanitized(s.path)
        }),
{
    options_differ();
    reveal_with_fuel(options_from, 20);
    reveal_with_fuel(values_from, 20);
    let args = segment_args(source, s);
    assert(args =~= seq![
        "-y"@,
        "-i"@,
        sanitized(source),
        "-ss"@,
        s.start,
        "-to"@,
        s.end,
        "-c"@,
        "copy"@,
        sanitized(s.path),
    ]);
    assert(options(args) =~= seq!["-y"@, "-i"@, "-ss"@, "-to"@, "-c"@]);
    assert(values(args, "-i"@) =~= seq![sanitized(source)]);
    assert(values(args, "-ss"@) =~= seq![s.start]);
    assert(values(args, "-to"@) =~= seq![s.end]);
    assert(values(args, "-c"@) =~= seq!["copy"@]);
}

/// The arguments that join the segments of an export: what the list file names,
/// copied as it is, to the output; and nothing else.
pub proof fn export_joins_the_list(list: Seq<char>, output: Seq<char>)
    ensures
        ({
            let args = join_args(list, output);
            &&& options(args) == seq!["-y"@, "-f"@, "-safe"@, "-i"@, "-c"@]
            &&& values(args, "-f"@) == seq!["concat"@]
            &&& values(args, "-safe"@) == seq!["0"@]
            &&& values(args, "-i"@) == seq![sanitized(list)]
            &&& values(args, "-c"@) == seq!["copy"@]
            &&& args.last() == sanitized(output)
        }),
{
    options_differ();
    reveal_with_fuel(options_from, 20);
    reveal_with_fuel(values_from, 20);
    let args = join_args(list, output);
    assert(args =~= seq![
        "-y"@,
        "-f"@,
        "concat"@,
        "-safe"@,
        "0"@,
        "-i"@,
        sanitized(list),
        "-c"@,
        "copy"@,
        sanitized(output),
    ]);
    assert(options(args) =~= seq!["-y"@, "-f"@, "-safe"@, "-i"@, "-c"@]);
    assert(values(args, "-f"@) =~= seq!["concat"@]);
    assert(values(args, "-safe"@) =~= seq!["0"@]);
    assert(values(args, "-i"@) =~= seq![sanitized(list)]);
    assert(values(args, "-c"@) =~= seq!["copy"@]);
}

/// The arguments of a stream copy: what the list file names, the primary video
/// stream and the primary audio stream if there is one, copied as they are.
pub proof fn copying_keeps_the_primary_streams(list: Seq<char>, output: Seq<char>)
    ensures
        ({
            let args = copy_args(list, output);
            &&& options(args) == seq![
                "-y"@,
                "-f"@,
                "-safe"@,
                "-i"@,
                "-map"@,
                "-map"@,
                "-c"@,
                "-movflags"@,
            ]
            &&& values(args, "-f"@) == seq!["concat"@]
            &&& values(args, "-safe"@) == seq!["0"@]
            &&& values(args, "-i"@) == seq![sanitized(list)]
            &&& values(args, "-map"@) == seq!["0:v:0"@, "0:a:0?"@]
            &&& values(args, "-c"@) == seq!["copy"@]
            &&& values(args, "-movflags"@) == seq!["+faststart"@]
            &&& args.last() == sanitized(output)
        }),
{
    options_differ();
    reveal_with_fuel(options_from, 20);
    reveal_with_fuel(values_from, 20);
    let args = copy_args(list, output);
    assert(args =~= seq![
        "-y"@,
        "-f"@,
        "concat"@,
        "-safe"@,
        "0"@,
        "-i"@,
        sanitized(list),
        "-map"@,
        "0:v:0"@,
        "-map"@,
        "0:a:0?"@,
        "-c"@,
        "copy"@,
        "-movflags"@,
        "+faststart"@,
        sanitized(output),
    ]);
    assert(options(args) =~= seq![
        "-y"@,
        "-f"@,
        "-safe"@,
        "-i"@,
        "-map"@,
        "-map"@,
        "-c"@,
        "-movflags"@,
    ]);
    assert(values(args, "-f"@) =~= seq!["concat"@]);
    assert(values(args, "-safe"@) =~= seq!["0"@]);
    assert(values(args, "-i"@) =~= seq![sanitized(list)]);
    assert(values(args, "-map"@) =~= seq!["0:v:0"@, "0:a:0?"@]);
    assert(values(args, "-c"@) =~= seq!["copy"@]);
    assert(values(args, "-movflags"@) =~= seq!["+faststart"@]);
}

/// The arguments of the final mux: the joined visuals, looped without end, are the
/// first input and the track is the second; the picture is that of the first, the
/// sound that of the second, played backwards exactly where that is asked for; and
/// the output ends with the track. The frame rate is the wanted one, but not below
/// 10 and not above 60.
#[verifier::rlimit(60)]
#[verifier::spinoff_prover]
pub proof fn mux_plays_the_track_over_the_visuals(
    base: Seq<char>,
    audio: Seq<char>,
    output: Seq<char>,
    duration: Seq<char>,
    opts: AddAudioOptions,
)
    ensures
        ({
            let args = mux_args(base, audio, output, duration, opts);
            let fps = decimal(
                if opts.fps < 10 {
                    10
                } else if opts.fps > 60 {
                    60
                } else {
                    opts.fps as nat
                },
            );
            &&& opts.reverse_audio ==> {
                &&& options(args) == seq![
                    "-y"@,
                    "-stream_loop"@,
                    "-i"@,
                    "-i"@,
                    "-filter_complex"@,
                    "-map"@,
                    "-map"@,
                    "-c:v"@,
                    "-crf"@,
                    "-preset"@,
                    "-pix_fmt"@,
                    "-r"@,
                    "-c:a"@,
                    "-b:a"@,
                    "-t"@,
                    "-shortest"@,
                    "-movflags"@,
                ]
                &&& values(args, "-stream_loop"@) == seq!["-1"@]
                &&& values(args, "-i"@) == seq![sanitized(base), sanitized(audio)]
                &&& values(args, "-filter_complex"@) == seq![
                    "[0:v]fps="@ + fps + "[v];[1:a]areverse[a]"@,
                ]
                &&& values(args, "-map"@) == seq!["[v]"@, "[a]"@]
                &&& values(args, "-c:v"@) == seq!["libx264"@]
                &&& values(args, "-crf"@) == seq!["23"@]
                &&& values(args, "-preset"@) == seq!["fast"@]
                &&& values(args, "-pix_fmt"@) == seq!["yuv420p"@]
                &&& values(args, "-r"@) == seq![fps]
                &&& values(args, "-c:a"@) == seq!["aac"@]
                &&& values(args, "-b:a"@) == seq!["192k"@]
                &&& values(args, "-t"@) == seq![duration]
                &&& values(args, "-movflags"@) == seq!["+faststart"@]
            }
            &&& !opts.reverse_audio ==> {
                &&& options(args) == seq![
                    "-y"@,
                    "-stream_loop"@,
                    "-i"@,
                    "-i"@,
                    "-map"@,
                    "-map"@,
                    "-vf"@,
                    "-c:v"@,
                    "-crf"@,
                    "-preset"@,
                    "-pix_fmt"@,
                    "-r"@,
                    "-c:a"@,
                    "-b:a"@,
                    "-t"@,
                    "-shortest"@,
                    "-movflags"@,
                ]
                &&& values(args, "-stream_loop"@) == seq!["-1"@]
                &&& values(args, "-i"@) == seq![sanitized(base), sanitized(audio)]
                &&& values(args, "-map"@) == seq!["0:v:0"@, "1:a:0"@]
                &&& values(args, "-vf"@) == seq!["fps="@ + fps]
                &&& values(args, "-c:v"@) == seq!["libx264"@]
                &&& values(args, "-crf"@) == seq!["23"@]
                &&& values(args, "-preset"@) == seq!["fast"@]
                &&& values(args, "-pix_fmt"@) == seq!["yuv420p"@]
                &&& values(args, "-r"@) == seq![fps]
                &&& values(args, "-c:a"@) == seq!["aac"@]
                &&& values(args, "-b:a"@) == seq!["192k"@]
                &&& values(args, "-t"@) == seq![duration]
                &&& values(args, "-movflags"@) == seq!["+faststart"@]
            }
            &&& args.last() == sanitized(output)
        }),
{
    options_differ();
    reveal_with_fuel(options_from, 20);
    reveal_with_fuel(values_from, 20);
    let args = mux_args(base, audio, output, duration, opts);
    let fps = decimal(
        if opts.fps < 10 {
            10
        } else if opts.fps > 60 {
            60
        } else {
            opts.fps as nat
        },
    );
    reveal_strlit("[0:v]fps=");
    reveal_strlit("[0:v]");
    reveal_strlit("fps=");
    assert("[0:v]fps="@ =~= "[0:v]"@ + "fps="@);
    assert("[0:v]fps="@ + fps + "[v];[1:a]areverse[a]"@ =~= "[0:v]"@ + ("fps="@ + fps)
        + "[v];[1:a]areverse[a]"@);
    if opts.reverse_audio {
        assert(args =~= seq![
            "-y"@,
            "-stream_loop"@,
            "-1"@,
            "-i"@,
            sanitized(base),
            "-i"@,
            sanitized(audio),
            "-filter_complex"@,
            "[0:v]fps="@ + fps + "[v];[1:a]areverse[a]"@,
            "-map"@,
            "[v]"@,
            "-map"@,
            "[a]"@,
            "-c:v"@,
            "libx264"@,
            "-crf"@,
            "23"@,
            "-preset"@,
            "fast"@,
            "-pix_fmt"@,
            "yuv420p"@,
            "-r"@,
            fps,
            "-c:a"@,
            "aac"@,
            "-b:a"@,
            "192k"@,
            "-t"@,
            duration,
            "-shortest"@,
            "-movflags"@,
            "+faststart"@,
            sanitized(output),
        ]);
        assert(options(args) =~= seq![
            "-y"@,
            "-stream_loop"@,
            "-i"@,
            "-i"@,
            "-filter_complex"@,
            "-map"@,
            "-map"@,
            "-c:v"@,
            "-crf"@,
            "-preset"@,
            "-pix_fmt"@,
            "-r"@,
            "-c:a"@,
            "-b:a"@,
            "-t"@,
            "-shortest"@,
            "-movflags"@,
        ]);
        assert(values(args, "-stream_loop"@) =~= seq!["-1"@]);
        assert(values(args, "-i"@) =~= seq![sanitized(base), sanitized(audio)]);
        assert(values(args, "-filter_complex"@) =~= seq![
            "[0:v]fps="@ + fps + "[v];[1:a]areverse[a]"@,
        ]);
        assert(values(args, "-map"@) =~= seq!["[v]"@, "[a]"@]);
        assert(values(args, "-c:v"@) =~= seq!["libx264"@]);
        assert(values(args, "-crf"@) =~= seq!["23"@]);
        assert(values(args, "-preset"@) =~= seq!["fast"@]);
        assert(values(args, "-pix_fmt"@) =~= seq!["yuv420p"@]);
        assert(values(args, "-r"@) =~= seq![fps]);
        assert(values(args, "-c:a"@) =~= seq!["aac"@]);
        assert(values(args, "-b:a"@) =~= seq!["192k"@]);
        assert(values(args, "-t"@) =~= seq![duration]);
        assert(values(args, "-movflags"@) =~= seq!["+faststart"@]);
    }
    if !opts.reverse_audio {
        assert(args =~= seq![
            "-y"@,
            "-stream_loop"@,
            "-1"@,
            "-i"@,
            sanitized(base),
            "-i"@,
            sanitized(audio),
            "-map"@,
            "0:v:0"@,
            "-map"@,
            "1:a:0"@,
            "-vf"@,
            "fps="@ + fps,
            "-c:v"@,
            "libx264"@,
            "-crf"@,
            "23"@,
            "-preset"@,
            "fast"@,
            "-pix_fmt"@,
            "yuv420p"@,
            "-r"@,
            fps,
            "-c:a"@,
            "aac"@,
            "-b:a"@,
            "192k"@,
            "-t"@,
            duration,
            "-shortest"@,
            "-movflags"@,
            "+faststart"@,
            sanitized(output),
        ]);
        assert(options(args) =~= seq![
            "-y"@,
            "-stream_loop"@,
            "-i"@,
            "-i"@,
            "-map"@,
            "-map"@,
            "-vf"@,
            "-c:v"@,
            "-crf"@,
            "-preset"@,
            "-pix_fmt"@,
            "-r"@,
            "-c:a"@,
            "-b:a"@,
            "-t"@,
            "-shortest"@,
            "-movflags"@,
        ]);
        assert(values(args, "-stream_loop"@) =~= seq!["-1"@]);
        assert(values(args, "-i"@) =~= seq![sanitized(base), sanitized(audio)]);
        assert(values(args, "-map"@) =~= seq!["0:v:0"@, "1:a:0"@]);
        assert(values(args, "-vf"@) =~= seq!["fps="@ + fps]);
        assert(values(args, "-c:v"@) =~= seq!["libx264"@]);
        assert(values(args, "-crf"@) =~= seq!["23"@]);
        assert(values(args, "-preset"@) =~= seq!["fast"@]);
        assert(values(args, "-pix_fmt"@) =~= seq!["yuv420p"@]);
        assert(values(args, "-r"@) =~= seq![fps]);
        assert(values(args, "-c:a"@) =~= seq!["aac"@]);
        assert(values(args, "-b:a"@) =~= seq!["192k"@]);
        assert(values(args, "-t"@) =~= seq![duration]);
        assert(values(args, "-movflags"@) =~= seq!["+faststart"@]);
    }
}

/// The arguments of a change of speed without sound: the time stamps of the
/// picture are divided by the factor, and no sound is written.
pub proof fn silent_speed_divides_the_time_stamps(
    input: Seq<char>,
    output: Seq<char>,
    factor: Seq<char>,
)
    ensures
        ({
            let args = run_args(input, output, silent_args(factor));
            &&& options(args) == seq![
                "-y"@,
                "-i"@,
                "-filter:v"@,
                "-an"@,
                "-c:v"@,
                "-crf"@,
                "-preset"@,
                "-pix_fmt"@,
                "-r"@,
                "-movflags"@,
            ]
            &&& values(args, "-i"@) == seq![sanitized(input)]
            &&& values(args, "-filter:v"@) == seq!["setpts=PTS/"@ + factor + ",fps=30"@]
            &&& values(args, "-c:v"@) == seq!["libx264"@]
            &&& values(args, "-crf"@) == seq!["23"@]
            &&& values(args, "-preset"@) == seq!["fast"@]
            &&& values(args, "-pix_fmt"@) == seq!["yuv420p"@]
            &&& values(args, "-r"@) == seq!["30"@]
            &&& values(args, "-movflags"@) == seq!["+faststart"@]
            &&& args.last() == sanitized(output)
        }),
{
    options_differ();
    reveal_with_fuel(options_from, 20);
    reveal_with_fuel(values_from, 20);
    let args = run_args(input, output, silent_args(factor));
    assert(args =~= seq![
        "-y"@,
        "-i"@,
        sanitized(input),
        "-filter:v"@,
        "setpts=PTS/"@ + factor + ",fps=30"@,
        "-an"@,
        "-c:v"@,
        "libx264"@,
        "-crf"@,
        "23"@,
        "-preset"@,
        "fast"@,
        "-pix_fmt"@,
        "yuv420p"@,
        "-r"@,
        "30"@,
        "-movflags"@,
        "+faststart"@,
        sanitized(output),
    ]);
    assert(options(args) =~= seq![
        "-y"@,
        "-i"@,
        "-filter:v"@,
        "-an"@,
        "-c:v"@,
        "-crf"@,
        "-preset"@,
        "-pix_fmt"@,
        "-r"@,
        "-movflags"@,
    ]);
    assert(values(args, "-i"@) =~= seq![sanitized(input)]);
    assert(values(args, "-filter:v"@) =~= seq!["setpts=PTS/"@ + factor + ",fps=30"@]);
    assert(values(args, "-c:v"@) =~= seq!["libx264"@]);
    assert(values(args, "-crf"@) =~= seq!["23"@]);
    assert(values(args, "-preset"@) =~= seq!["fast"@]);
    assert(values(args, "-pix_fmt"@) =~= seq!["yuv420p"@]);
    assert(values(args, "-r"@) =~= seq!["30"@]);
    assert(values(args, "-movflags"@) =~= seq!["+faststart"@]);
}

/// The arguments of a fit: the time stamps of the picture are divided by the
/// factor that was probed, and no sound is written.
pub proof fn fit_divides_by_the_probed_factor(input: Seq<char>, output: Seq<char>, fit: Seq<char>)
    ensures
        ({
            let args = change_args(input, output, SpeedMode::FitSeconds, fit);
            &&& options(args) == seq![
                "-y"@,
                "-i"@,
                "-filter:v"@,
                "-an"@,
                "-c:v"@,
                "-crf"@,
                "-preset"@,
                "-pix_fmt"@,
                "-r"@,
                "-movflags"@,
            ]
            &&& values(args, "-i"@) == seq![sanitized(input)]
            &&& values(args, "-filter:v"@) == seq!["setpts=PTS/"@ + fit + ",fps=30"@]
            &&& values(args, "-c:v"@) == seq!["libx264"@]
            &&& values(args, "-crf"@) == seq!["23"@]
            &&& values(args, "-preset"@) == seq!["fast"@]
            &&& values(args, "-pix_fmt"@) == seq!["yuv420p"@]
            &&& values(args, "-r"@) == seq!["30"@]
            &&& values(args, "-movflags"@) == seq!["+faststart"@]
            &&& args.last() == sanitized(output)
        }),
{
    options_differ();
    reveal_with_fuel(options_from, 20);
    reveal_with_fuel(values_from, 20);
    let args = change_args(input, output, SpeedMode::FitSeconds, fit);
    assert(args =~= seq![
        "-y"@,
        "-i"@,
        sanitized(input),
        "-filter:v"@,
        "setpts=PTS/"@ + fit + ",fps=30"@,
        "-an"@,
        "-c:v"@,
        "libx264"@,
        "-crf"@,
        "23"@,
        "-preset"@,
        "fast"@,
        "-pix_fmt"@,
        "yuv420p"@,
        "-r"@,
        "30"@,
        "-movflags"@,
        "+faststart"@,
        sanitized(output),
    ]);
    assert(options(args) =~= seq![
        "-y"@,
        "-i"@,
        "-filter:v"@,
        "-an"@,
        "-c:v"@,
        "-crf"@,
        "-preset"@,
        "-pix_fmt"@,
        "-r"@,
        "-movflags"@,
    ]);
    assert(values(args, "-i"@) =~= seq![sanitized(input)]);
    assert(values(args, "-filter:v"@) =~= seq!["setpts=PTS/"@ + fit + ",fps=30"@]);
    assert(values(args, "-c:v"@) =~= seq!["libx264"@]);
    assert(values(args, "-crf"@) =~= seq!["23"@]);
    assert(values(args, "-preset"@) =~= seq!["fast"@]);
    assert(values(args, "-pix_fmt"@) =~= seq!["yuv420p"@]);
    assert(values(args, "-r"@) =~= seq!["30"@]);
    assert(values(args, "-movflags"@) =~= seq!["+faststart"@]);
}

/// The arguments of a change of speed by a factor: one filter graph for picture
/// and sound, both of which are written.
pub proof fn factor_runs_one_graph(input: Seq<char>, output: Seq<char>, t: Tempo, fit: Seq<char>)
    ensures
        ({
            let args = change_args(input, output, SpeedMode::Factor(t), fit);
            &&& options(args) == seq![
                "-y"@,
                "-i"@,
                "-filter_complex"@,
                "-map"@,
                "-map"@,
                "-c:a"@,
                "-b:a"@,
                "-c:v"@,
                "-crf"@,
                "-preset"@,
                "-pix_fmt"@,
                "-r"@,
                "-movflags"@,
            ]
            &&& values(args, "-i"@) == seq![sanitized(input)]
            &&& values(args, "-filter_complex"@) == seq![audible_args(t)[1]]
            &&& values(args, "-map"@) == seq!["[v]"@, "[a]"@]
            &&& values(args, "-c:a"@) == seq!["aac"@]
            &&& values(args, "-b:a"@) == seq!["128k"@]
            &&& values(args, "-c:v"@) == seq!["libx264"@]
            &&& values(args, "-crf"@) == seq!["23"@]
            &&& values(args, "-preset"@) == seq!["fast"@]
            &&& values(args, "-pix_fmt"@) == seq!["yuv420p"@]
            &&& values(args, "-r"@) == seq!["30"@]
            &&& values(args, "-movflags"@) == seq!["+faststart"@]
            &&& args.last() == sanitized(output)
        }),
{
    options_differ();
    reveal_with_fuel(options_from, 20);
    reveal_with_fuel(values_from, 20);
    let args = change_args(input, output, SpeedMode::Factor(t), fit);
    assert(args =~= seq![
        "-y"@,
        "-i"@,
        sanitized(input),
        "-filter_complex"@,
        audible_args(t)[1],
        "-map"@,
        "[v]"@,
        "-map"@,
        "[a]"@,
        "-c:a"@,
        "aac"@,
        "-b:a"@,
        "128k"@,
        "-c:v"@,
        "libx264"@,
        "-crf"@,
        "23"@,
        "-preset"@,
        "fast"@,
        "-pix_fmt"@,
        "yuv420p"@,
        "-r"@,
        "30"@,
        "-movflags"@,
        "+faststart"@,
        sanitized(output),
    ]);
    assert(options(args) =~= seq![
        "-y"@,
        "-i"@,
        "-filter_complex"@,
        "-map"@,
        "-map"@,
        "-c:a"@,
        "-b:a"@,
        "-c:v"@,
        "-crf"@,
        "-preset"@,
        "-pix_fmt"@,
        "-r"@,
        "-movflags"@,
    ]);
    assert(values(args, "-i"@) =~= seq![sanitized(input)]);
    assert(values(args, "-filter_complex"@) =~= seq![audible_args(t)[1]]);
    assert(values(args, "-map"@) =~= seq!["[v]"@, "[a]"@]);
    assert(values(args, "-c:a"@) =~= seq!["aac"@]);
    assert(values(args, "-b:a"@) =~= seq!["128k"@]);
    assert(values(args, "-c:v"@) =~= seq!["libx264"@]);
    assert(values(args, "-crf"@) =~= seq!["23"@]);
    assert(values(args, "-preset"@) =~= seq!["fast"@]);
    assert(values(args, "-pix_fmt"@) =~= seq!["yuv420p"@]);
    assert(values(args, "-r"@) =~= seq!["30"@]);
    assert(values(args, "-movflags"@) =~= seq!["+faststart"@]);
}

/// The arguments of a conversion: the primary video stream and the primary audio
/// stream if there is one, encoded as VP9 and Opus for WebM and as H.264 and AAC
/// for every other format.
#[verifier::rlimit(60)]
#[verifier::spinoff_prover]
pub proof fn conversion_encodes_for_the_format(
    input: Seq<char>,
    output: Seq<char>,
    format: ConvertFormat,
)
    ensures
        ({
            let args = conversion_args(input, output, format);
            &&& format == ConvertFormat::Webm ==> {
                &&& options(args) == seq![
                    "-y"@,
                    "-i"@,
                    "-map"@,
                    "-map"@,
                    "-c:v"@,
                    "-crf"@,
                    "-b:v"@,
                    "-pix_fmt"@,
                    "-c:a"@,
                    "-b:a"@,
                ]
                &&& values(args, "-i"@) == seq![sanitized(input)]
                &&& values(args, "-map"@) == seq!["0:v:0"@, "0:a:0?"@]
                &&& values(args, "-c:v"@) == seq!["libvpx-vp9"@]
                &&& values(args, "-crf"@) == seq!["32"@]
                &&& values(args, "-b:v"@) == seq!["0"@]
                &&& values(args, "-pix_fmt"@) == seq!["yuv420p"@]
                &&& values(args, "-c:a"@) == seq!["libopus"@]
                &&& values(args, "-b:a"@) == seq!["128k"@]
            }
            &&& format != ConvertFormat::Webm ==> {
                &&& options(args) == seq![
                    "-y"@,
                    "-i"@,
                    "-map"@,
                    "-map"@,
                    "-c:v"@,
                    "-crf"@,
                    "-preset"@,
                    "-pix_fmt"@,
                    "-c:a"@,
                    "-b:a"@,
                    "-movflags"@,
                ]
                &&& values(args, "-i"@) == seq![sanitized(input)]
                &&& values(args, "-map"@) == seq!["0:v:0"@, "0:a:0?"@]
                &&& values(args, "-c:v"@) == seq!["libx264"@]
                &&& values(args, "-crf"@) == seq!["23"@]
                &&& values(args, "-preset"@) == seq!["fast"@]
                &&& values(args, "-pix_fmt"@) == seq!["yuv420p"@]
                &&& values(args, "-c:a"@) == seq!["aac"@]
                &&& values(args, "-b:a"@) == seq!["192k"@]
                &&& values(args, "-movflags"@) == seq!["+faststart"@]
            }
            &&& args.last() == sanitized(output)
        }),
{
    options_differ();
    reveal_with_fuel(options_from, 20);
    reveal_with_fuel(values_from, 20);
    let args = conversion_args(input, output, format);
    if format == ConvertFormat::Webm {
        assert(args =~= seq![
            "-y"@,
            "-i"@,
            sanitized(input),
            "-map"@,
            "0:v:0"@,
            "-map"@,
            "0:a:0?"@,
            "-c:v"@,
            "libvpx-vp9"@,
            "-crf"@,
            "32"@,
            "-b:v"@,
            "0"@,
            "-pix_fmt"@,
            "yuv420p"@,
            "-c:a"@,
            "libopus"@,
            "-b:a"@,
            "128k"@,
            sanitized(output),
        ]);
        assert(options(args) =~= seq![
            "-y"@,
            "-i"@,
            "-map"@,
            "-map"@,
            "-c:v"@,
            "-crf"@,
            "-b:v"@,
            "-pix_fmt"@,
            "-c:a"@,
            "-b:a"@,
        ]);
        assert(values(args, "-i"@) =~= seq![sanitized(input)]);
        assert(values(args, "-map"@) =~= seq!["0:v:0"@, "0:a:0?"@]);
        assert(values(args, "-c:v"@) =~= seq!["libvpx-vp9"@]);
        assert(values(args, "-crf"@) =~= seq!["32"@]);
        assert(values(args, "-b:v"@) =~= seq!["0"@]);
        assert(values(args, "-pix_fmt"@) =~= seq!["yuv420p"@]);
        assert(values(args, "-c:a"@) =~= seq!["libopus"@]);
        assert(values(args, "-b:a"@) =~= seq!["128k"@]);
    }
    if format != ConvertFormat::Webm {
        assert(args =~= seq![
            "-y"@,
            "-i"@,
            sanitized(input),
            "-map"@,
            "0:v:0"@,
            "-map"@,
            "0:a:0?"@,
            "-c:v"@,
            "libx264"@,
            "-crf"@,
            "23"@,
            "-preset"@,
            "fast"@,
            "-pix_fmt"@,
            "yuv420p"@,
            "-c:a"@,
            "aac"@,
            "-b:a"@,
            "192k"@,
            "-movflags"@,
            "+faststart"@,
            sanitized(output),
        ]);
        assert(options(args) =~= seq![
            "-y"@,
            "-i"@,
            "-map"@,
            "-map"@,
            "-c:v"@,
            "-crf"@,
            "-preset"@,
            "-pix_fmt"@,
            "-c:a"@,
            "-b:a"@,
            "-movflags"@,
        ]);
        assert(values(args, "-i"@) =~= seq![sanitized(input)]);
        assert(values(args, "-map"@) =~= seq!["0:v:0"@, "0:a:0?"@]);
        assert(values(args, "-c:v"@) =~= seq!["libx264"@]);
        assert(values(args, "-crf"@) =~= seq!["23"@]);
        assert(values(args, "-preset"@) =~= seq!["fast"@]);
        assert(values(args, "-pix_fmt"@) =~= seq!["yuv420p"@]);
        assert(values(args, "-c:a"@) =~= seq!["aac"@]);
        assert(values(args, "-b:a"@) =~= seq!["192k"@]);
        assert(values(args, "-movflags"@) =~= seq!["+faststart"@]);
    }
}

/// The arguments that extract a frame: one frame of the video at the wanted time,
/// in the wanted width but not below 16, with its proportions kept.
pub proof fn extraction_takes_one_frame_at_the_time(
    path: Seq<char>,
    time: Seq<char>,
    width: u32,
    tmp: Seq<char>,
)
    ensures
        ({
            let args = extraction_args(path, time, width, tmp);
            let wide = decimal(
                if width < 16 {
                    16
                } else {
                    width as nat
                },
            );
            &&& options(args) == seq!["-y"@, "-ss"@, "-i"@, "-frames:v"@, "-vf"@, "-update"@]
            &&& values(args, "-ss"@) == seq![time]
            &&& values(args, "-i"@) == seq![sanitized(path)]
            &&& values(args, "-frames:v"@) == seq!["1"@]
            &&& values(args, "-vf"@) == seq![
                "scale="@ + wide + ":-1:force_original_aspect_ratio=decrease"@,
            ]
            &&& values(args, "-update"@) == seq!["1"@]
            &&& args.last() == sanitized(tmp)
        }),
{
    options_differ();
    reveal_with_fuel(options_from, 20);
    reveal_with_fuel(values_from, 20);
    let args = extraction_args(path, time, width, tmp);
    let wide = decimal(
        if width < 16 {
            16
        } else {
            width as nat
        },
    );
    assert(args =~= seq![
        "-y"@,
        "-ss"@,
        time,
        "-i"@,
        sanitized(path),
        "-frames:v"@,
        "1"@,
        "-vf"@,
        "scale="@ + wide + ":-1:force_original_aspect_ratio=decrease"@,
        "-update"@,
        "1"@,
        sanitized(tmp),
    ]);
    assert(options(args) =~= seq!["-y"@, "-ss"@, "-i"@, "-frames:v"@, "-vf"@, "-update"@]);
    assert(values(args, "-ss"@) =~= seq![time]);
    assert(values(args, "-i"@) =~= seq![sanitized(path)]);
    assert(values(args, "-frames:v"@) =~= seq!["1"@]);
    assert(values(args, "-vf"@) =~= seq![
        "scale="@ + wide + ":-1:force_original_aspect_ratio=decrease"@,
    ]);
    assert(values(args, "-update"@) =~= seq!["1"@]);
}

/// The arguments that extract the sound of a video: no picture, and two channels
/// of 16-bit samples at 44100 Hz.
pub proof fn sound_is_extracted_as_pcm(path: Seq<char>, wav: Seq<char>)
    ensures
        ({
            let args = sound_args(path, wav);
            &&& options(args) == seq!["-i"@, "-vn"@, "-acodec"@, "-ar"@, "-ac"@, "-y"@]
            &&& values(args, "-i"@) == seq![sanitized(path)]
            &&& values(args, "-acodec"@) == seq!["pcm_s16le"@]
            &&& values(args, "-ar"@) == seq!["44100"@]
            &&& values(args, "-ac"@) == seq!["2"@]
            &&& args.last() == sanitized(wav)
        }),
{
    options_differ();
    reveal_with_fuel(options_from, 20);
    reveal_with_fuel(values_from, 20);
    let args = sound_args(path, wav);
    assert(args =~= seq![
        "-i"@,
        sanitized(path),
        "-vn"@,
        "-acodec"@,
        "pcm_s16le"@,
        "-ar"@,
        "44100"@,
        "-ac"@,
        "2"@,
        "-y"@,
        sanitized(wav),
    ]);
    assert(options(args) =~= seq!["-i"@, "-vn"@, "-acodec"@, "-ar"@, "-ac"@, "-y"@]);
    assert(values(args, "-i"@) =~= seq![sanitized(path)]);
    assert(values(args, "-acodec"@) =~= seq!["pcm_s16le"@]);
    assert(values(args, "-ar"@) =~= seq!["44100"@]);
    assert(values(args, "-ac"@) =~= seq!["2"@]);
}

/// The arguments of ffprobe: it prints the duration of the file and nothing
/// else.
pub proof fn ffprobe_prints_the_duration_alone(path: Seq<char>)
    ensures
        ({
            let args = duration_args(path);
            &&& options(args) == seq!["-v"@, "-show_entries"@, "-of"@]
            &&& values(args, "-v"@) == seq!["error"@]
            &&& values(args, "-show_entries"@) == seq!["format=duration"@]
            &&& values(args, "-of"@) == seq!["default=noprint_wrappers=1:nokey=1"@]
            &&& args.last() == sanitized(path)
        }),
{
    options_differ();
    reveal_with_fuel(options_from, 20);
    reveal_with_fuel(values_from, 20);
    let args = duration_args(path);
    assert(args =~= seq![
        "-v"@,
        "error"@,
        "-show_entries"@,
        "format=duration"@,
        "-of"@,
        "default=noprint_wrappers=1:nokey=1"@,
        sanitized(path),
    ]);
    assert(options(args) =~= seq!["-v"@, "-show_entries"@, "-of"@]);
    assert(values(args, "-v"@) =~= seq!["error"@]);
    assert(values(args, "-show_entries"@) =~= seq!["format=duration"@]);
    assert(values(args, "-of"@) =~= seq!["default=noprint_wrappers=1:nokey=1"@]);
}

/// The arguments of the run of ffmpeg whose log is read: it opens the file, decodes
/// next to nothing of it and writes nowhere.
pub proof fn log_run_writes_nothing(path: Seq<char>)
    ensures
        ({
            let args = log_args(path);
            &&& options(args) == seq!["-i"@, "-t"@, "-f"@]
            &&& values(args, "-i"@) == seq![sanitized(path)]
            &&& values(args, "-t"@) == seq!["0.01"@]
            &&& values(args, "-f"@) == seq!["null"@]
            &&& args.last() == "-"@
        }),
{
    options_differ();
    reveal_with_fuel(options_from, 20);
    reveal_with_fuel(values_from, 20);
    let args = log_args(path);
    assert(args =~= seq!["-i"@, sanitized(path), "-t"@, "0.01"@, "-f"@, "null"@, "-"@]);
    assert(options(args) =~= seq!["-i"@, "-t"@, "-f"@]);
    assert(values(args, "-i"@) =~= seq![sanitized(path)]);
    assert(values(args, "-t"@) =~= seq!["0.01"@]);
    assert(values(args, "-f"@) =~= seq!["null"@]);
}

} // verus!
