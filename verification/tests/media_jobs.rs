use vid_concat_cutter::add_audio::{add_audio, add_audio_args, clamp_fps, AddAudioOptions};
use vid_concat_cutter::convert::{convert_args, convert_named_video, convert_video, ConvertFormat};
use vid_concat_cutter::jobs::{Action, Event, Step};
use vid_concat_cutter::paths::is_video_name;
use vid_concat_cutter::speed::{
    atempo_chain, silent_speed_args, speed_args, speed_up, SpeedMode, Tempo,
};
use vid_concat_cutter::tempo::{plan_tempo, Binary};

fn list_of(names: &[&str]) -> Vec<String> {
    names.iter().map(|n| n.to_string()).collect()
}

fn say(action: &Action) -> String {
    match action {
        Action::CreateParent(p) => format!("parent {p}"),
        Action::CreateFolder(p) => format!("folder {p}"),
        Action::TestFile(p) => format!("file {p}"),
        Action::ProbeDuration(p) => format!("length {p}"),
        Action::ProbeFactor(p) => format!("factor {p}"),
        Action::LookUp { folder, name } => format!("look {folder} {name}"),
        Action::WriteFile { path, .. } => format!("write {path}"),
        Action::RunFfmpeg(args) => format!("run {}", args.join(" ")),
        Action::RemoveFile(p) => format!("remove {p}"),
        _ => panic!("no such action"),
    }
}

fn play(
    first: Action,
    mut advance: impl FnMut(&Event) -> Step,
    mut reply: impl FnMut(&str) -> Event,
) -> (Vec<String>, Result<String, String>) {
    let mut seen = vec![];
    let mut action = first;
    loop {
        let text = say(&action);
        let event = reply(&text);
        seen.push(text);
        match advance(&event) {
            Step::Act(a) => action = a,
            Step::Finished(p) => return (seen, Ok(p)),
            Step::Failed(m) => return (seen, Err(m)),
        }
    }
}

fn yes() -> Event {
    Event::Done { yes: true, text: "12.500".to_string() }
}

fn no(message: &str) -> Event {
    Event::Failed(message.to_string())
}

#[test]
fn convert_labels() {
    assert_eq!(ConvertFormat::Mp4.ext(), ".mp4");
}

#[test]
fn formats_offered() {
    let labels: Vec<&str> = ConvertFormat::all().iter().map(|f| f.label()).collect();
    assert_eq!(
        labels,
        ["MP4 (H.264)", "WebM (VP9)", "MOV (H.264)", "MKV (H.264)", "AVI (H.264)"]
    );
    let exts: Vec<&str> = ConvertFormat::all().iter().map(|f| f.ext()).collect();
    assert_eq!(exts, [".mp4", ".webm", ".mov", ".mkv", ".avi"]);
    for f in ConvertFormat::all() {
        assert!(is_video_name(&format!("converted_x{}", f.ext())));
    }
}

#[test]
fn convert_arguments() {
    assert_eq!(
        convert_args(r"in\a.mov", "out/a.webm", ConvertFormat::Webm),
        [
            "-y", "-i", "in/a.mov", "-map", "0:v:0", "-map", "0:a:0?", "-c:v", "libvpx-vp9",
            "-crf", "32", "-b:v", "0", "-pix_fmt", "yuv420p", "-c:a", "libopus", "-b:a", "128k",
            "out/a.webm",
        ]
    );
    let h264 = [
        "-y", "-i", "a", "-map", "0:v:0", "-map", "0:a:0?", "-c:v", "libx264", "-crf", "23",
        "-preset", "fast", "-pix_fmt", "yuv420p", "-c:a", "aac", "-b:a", "192k", "-movflags",
        "+faststart", "b",
    ];
    for f in [ConvertFormat::Mp4, ConvertFormat::Mov, ConvertFormat::Mkv, ConvertFormat::Avi] {
        assert_eq!(convert_args("a", "b", f), h264);
    }
}

#[test]
fn convert_job() {
    let (mut job, first) = convert_video("in/a.mov", "out", ConvertFormat::Mkv);
    let (seen, end) = play(first, |e| job.advance(e), |a| look(a, 1));
    assert_eq!(end, Ok("out/converted_a.mkv".to_string()));
    assert_eq!(seen.len(), 4);
    assert_eq!(&seen[..3], ["file in/a.mov", "folder out", "look out converted_a.mkv"]);
    assert!(seen[3].ends_with("out/converted_a.mkv"));
    assert!(matches!(job.advance(&yes()), Step::Failed(m) if m == "the job has ended"));
}

fn look(action: &str, free_from: usize) -> Event {
    let Some(name) = action.strip_prefix("look out ") else {
        return yes();
    };
    let number: usize =
        name.split(['_', '.']).filter_map(|p| p.parse().ok()).next().unwrap_or(1);
    Event::Done { yes: number < free_from, text: format!("out/{name}") }
}

#[test]
fn conversions_write_over_nothing() {
    let (mut job, first) = convert_video("in/a.mov", "out", ConvertFormat::Webm);
    let (seen, end) = play(first, |e| job.advance(e), |a| look(a, 4));
    assert_eq!(end, Ok("out/converted_a_4.webm".to_string()));
    assert_eq!(
        &seen[2..6],
        [
            "look out converted_a.webm",
            "look out converted_a_2.webm",
            "look out converted_a_3.webm",
            "look out converted_a_4.webm",
        ]
    );
    let (mut job, first) = convert_named_video("..", &None, "out", ConvertFormat::Mp4);
    let (seen, end) = play(first, |e| job.advance_at(e, Some(5)), |a| look(a, 10_000_000));
    assert_eq!(end, Ok("out/converted_converted_5.mp4".to_string()));
    assert_eq!(seen.len(), 2 + 9999 + 1 + 1);
    assert_eq!(seen[10_000], "look out converted_converted_9999.mp4");
    assert_eq!(seen[10_001], "look out converted_converted_5.mp4");
}

#[test]
fn convert_errors() {
    let (mut job, first) = convert_video("a.mov", "out", ConvertFormat::Mp4);
    let (_, end) = play(first, |e| job.advance(e), |_| Event::answer(false));
    assert_eq!(end, Err("input not found: a.mov".to_string()));
    for (at, message) in [("folder", "denied"), ("look", "no name"), ("run", "broken")] {
        let (mut job, first) = convert_video("a.mov", "out", ConvertFormat::Mp4);
        let (_, end) = play(first, |e| job.advance(e), |a| {
            if a.starts_with(at) { no(message) } else { look(a, 1) }
        });
        assert_eq!(end, Err(message.to_string()));
    }
}

#[test]
fn audio_defaults() {
    let o = AddAudioOptions::default();
    assert!(!o.reverse_order && !o.reverse_video && !o.reverse_audio);
    assert_eq!(o.fps, 30);
}

#[test]
fn frame_rates_are_kept_in_range() {
    assert_eq!(clamp_fps(0), 10);
    assert_eq!(clamp_fps(10), 10);
    assert_eq!(clamp_fps(24), 24);
    assert_eq!(clamp_fps(60), 60);
    assert_eq!(clamp_fps(144), 60);
}

#[test]
fn audio_arguments() {
    let args = add_audio_args("b.mp4", r"audio\t.mp3", "o.mp4", "3.250", &AddAudioOptions::default());
    assert_eq!(
        args,
        [
            "-y", "-stream_loop", "-1", "-i", "b.mp4", "-i", "audio/t.mp3", "-map", "0:v:0",
            "-map", "1:a:0", "-vf", "fps=30", "-c:v", "libx264", "-crf", "23", "-preset", "fast",
            "-pix_fmt", "yuv420p", "-r", "30", "-c:a", "aac", "-b:a", "192k", "-t", "3.250",
            "-shortest", "-movflags", "+faststart", "o.mp4",
        ]
    );
    let opts = AddAudioOptions { reverse_audio: true, fps: 5, ..AddAudioOptions::default() };
    let args = add_audio_args("b.mp4", "t.mp3", "o.mp4", "1.000", &opts);
    assert_eq!(
        &args[7..13],
        ["-filter_complex", "[0:v]fps=10[v];[1:a]areverse[a]", "-map", "[v]", "-map", "[a]"]
    );
    assert_eq!(&args[21..23], ["-r", "10"]);
}

#[test]
fn add_audio_needs_visuals() {
    let r = add_audio(&vec![], "t.mp3", "o.mp4", "b.mp4", "l.txt", &AddAudioOptions::default());
    assert_eq!(r.err().unwrap(), "no visual clips for add_audio");
}

fn audio_run(reply: impl FnMut(&str) -> Event) -> (Vec<String>, Result<String, String>) {
    let (mut job, first) = add_audio(
        &list_of(&["v1.mp4", "v2.mp4"]),
        "t.mp3",
        "o.mp4",
        "b.mp4",
        "l.txt",
        &AddAudioOptions { reverse_order: true, ..AddAudioOptions::default() },
    )
    .ok()
    .unwrap();
    play(first, |e| job.advance(e), reply)
}

#[test]
fn add_audio_joins_and_muxes() {
    let (seen, end) = audio_run(|_| yes());
    assert_eq!(end, Ok("o.mp4".to_string()));
    assert_eq!(&seen[..4], ["file t.mp3", "parent o.mp4", "length t.mp3", "parent b.mp4"]);
    assert!(seen[4].starts_with("run -y -i v2.mp4 -i v1.mp4 -filter_complex"));
    assert_eq!(seen[5], "file b.mp4");
    assert!(seen[6].starts_with("run -y -stream_loop -1 -i b.mp4 -i t.mp3"));
    assert!(seen[6].contains("-t 12.500 "));
    assert_eq!(&seen[7..], ["remove b.mp4", "file o.mp4"]);
}

#[test]
fn add_audio_errors() {
    let (_, end) = audio_run(|_| Event::answer(false));
    assert_eq!(end, Err("audio not found: t.mp3".to_string()));
    for (at, message) in [("parent o", "a"), ("length", "b"), ("parent b", "c"), ("run -y -i", "d")] {
        let (seen, end) = audio_run(|a| if a.starts_with(at) { no(message) } else { yes() });
        assert_eq!(end, Err(message.to_string()));
        assert!(!seen.contains(&"remove b.mp4".to_string()));
    }
    let (seen, end) =
        audio_run(|a| if a.starts_with("run -y -stream") { no("mux") } else { yes() });
    assert_eq!(end, Err("mux".to_string()));
    assert_eq!(seen.last().unwrap(), "remove b.mp4");
    let (_, end) = audio_run(|a| if a == "file b.mp4" { Event::answer(false) } else { yes() });
    assert_eq!(end, Err("concat produced no output".to_string()));
    let (_, end) = audio_run(|a| if a == "file o.mp4" { Event::answer(false) } else { yes() });
    assert_eq!(end, Err("add_audio produced no output".to_string()));
}

fn tempo(doublings: usize, halvings: usize) -> Tempo {
    Tempo { factor: "5".to_string(), doublings, halvings, rest: "1.250000".to_string() }
}

#[test]
fn tempo_chains() {
    assert_eq!(atempo_chain(&tempo(0, 0)), "atempo=1.250000");
    assert_eq!(atempo_chain(&tempo(2, 0)), "atempo=2.0,atempo=2.0,atempo=1.250000");
    assert_eq!(atempo_chain(&tempo(0, 1)), "atempo=0.5,atempo=1.250000");
}

#[test]
fn speed_arguments() {
    assert_eq!(
        speed_args(r"in\a.mp4", "o.mp4", &SpeedMode::FitSeconds, "2.5"),
        [
            "-y", "-i", "in/a.mp4", "-filter:v", "setpts=PTS/2.5,fps=30", "-an", "-c:v",
            "libx264", "-crf", "23", "-preset", "fast", "-pix_fmt", "yuv420p", "-r", "30",
            "-movflags", "+faststart", "o.mp4",
        ]
    );
    assert_eq!(
        speed_args("a", "b", &SpeedMode::Factor(tempo(2, 0)), ""),
        [
            "-y", "-i", "a", "-filter_complex",
            "[0:v]setpts=PTS/5,fps=30[v];[0:a]atempo=2.0,atempo=2.0,atempo=1.250000[a]", "-map",
            "[v]", "-map", "[a]", "-c:a", "aac", "-b:a", "128k", "-c:v", "libx264", "-crf", "23",
            "-preset", "fast", "-pix_fmt", "yuv420p", "-r", "30", "-movflags", "+faststart", "b",
        ]
    );
}

#[test]
fn speed_jobs() {
    let (mut job, first) = speed_up("a.mp4", "o.mp4", SpeedMode::FitSeconds);
    let (seen, end) = play(first, |e| job.advance(e), |_| yes());
    assert_eq!(end, Ok("o.mp4".to_string()));
    assert_eq!(&seen[..3], ["file a.mp4", "parent o.mp4", "factor a.mp4"]);
    assert!(seen[3].contains("setpts=PTS/12.500,fps=30 -an"));
    assert_eq!(seen.len(), 4);
    let (mut job, first) = speed_up("a.mp4", "o.mp4", SpeedMode::Factor(tempo(0, 0)));
    let (seen, _) = play(first, |e| job.advance(e), |_| yes());
    assert_eq!(seen[2], "length a.mp4");
    assert!(!seen[3].contains("-an"));
}

#[test]
fn a_video_without_sound_is_sped_up_without_sound() {
    let (mut job, first) = speed_up("a.mp4", "o.mp4", SpeedMode::Factor(tempo(2, 0)));
    let (seen, end) = play(first, |e| job.advance(e), |a| {
        if a.contains("[0:a]") { no("no audio stream") } else { yes() }
    });
    assert_eq!(end, Ok("o.mp4".to_string()));
    assert_eq!(seen.len(), 5);
    assert_eq!(seen[4], format!("run {}", silent_speed_args("a.mp4", "o.mp4", "5").join(" ")));
    assert!(seen[4].contains("setpts=PTS/5,fps=30 -an"));
    let (mut job, first) = speed_up("a.mp4", "o.mp4", SpeedMode::Factor(tempo(2, 0)));
    let (seen, end) =
        play(first, |e| job.advance(e), |a| if a.starts_with("run") { no("bad") } else { yes() });
    assert_eq!(end, Err("bad".to_string()));
    assert_eq!(seen.len(), 5);
}

#[test]
fn tempo_follows_its_plan() {
    let plan = plan_tempo(Binary::from_bits(5f64.to_bits()).unwrap());
    let t = Tempo::of_plan(plan, "5", "1.250000");
    assert_eq!(atempo_chain(&t), "atempo=2.0,atempo=2.0,atempo=1.250000");
    assert_eq!(t.factor, "5");
}

#[test]
fn speed_errors() {
    let (mut job, first) = speed_up("a.mp4", "o.mp4", SpeedMode::FitSeconds);
    let (_, end) = play(first, |e| job.advance(e), |_| Event::done());
    assert_eq!(end, Err("input not found: a.mp4".to_string()));
    assert!(matches!(job.advance(&yes()), Step::Failed(m) if m == "the job has ended"));
    for (at, message) in [("parent", "x"), ("factor", "y"), ("run", "z")] {
        let (mut job, first) = speed_up("a.mp4", "o.mp4", SpeedMode::FitSeconds);
        let (_, end) =
            play(first, |e| job.advance(e), |a| if a.starts_with(at) { no(message) } else { yes() });
        assert_eq!(end, Err(message.to_string()));
    }
}
