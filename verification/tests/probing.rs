use vid_concat_cutter::probe::{
    failure_message, get_media_duration, join_log, line_clock, load_project, log_clocks,
    parse_duration_from_ffmpeg_log, probe_args, probe_duration, probe_text, run_ffmpeg,
    stderr_tail, ProbeStep, Reading,
};

#[test]
fn tails_of_output() {
    assert_eq!(stderr_tail("a\r\nb\n"), "a\nb");
    assert_eq!(stderr_tail(""), "");
    assert_eq!(stderr_tail("\n\n"), "\n");
    let long: Vec<String> = (0..20).map(|i| format!("line {i}")).collect();
    assert_eq!(stderr_tail(&long.join("\n")), long[4..].join("\n"));
}

#[test]
fn tails_agree_with_std() {
    for text in ["x\ny\r\nz", "\r", "a\n\r\n", "one", "q\n\nw\n"] {
        let all: Vec<&str> = text.lines().collect();
        assert_eq!(stderr_tail(text), all.join("\n"));
    }
}

#[test]
fn failed_runs() {
    assert_eq!(failure_message("exit status: 1", "bad\n"), "ffmpeg failed (exit status: 1)\nbad");
    assert_eq!(run_ffmpeg(true, "exit status: 0", &b"noise".to_vec()), Ok(()));
    assert_eq!(
        run_ffmpeg(false, "exit status: 1", &b"No such file\n".to_vec()),
        Err("ffmpeg failed (exit status: 1)\nNo such file".to_string())
    );
    assert_eq!(
        run_ffmpeg(false, "signal", &vec![0x61, 0xff, 0x62]),
        Err("ffmpeg failed (signal)\na\u{fffd}b".to_string())
    );
}

#[test]
fn probe_arguments() {
    assert_eq!(
        probe_args(r"in\a.mp4"),
        [
            "-v", "error", "-show_entries", "format=duration", "-of",
            "default=noprint_wrappers=1:nokey=1", "in/a.mp4",
        ]
    );
}

#[test]
fn probe_output_is_trimmed() {
    assert_eq!(probe_text(&b" 12.34\r\n".to_vec()), "12.34");
    assert_eq!(probe_text(&b"\n".to_vec()), "");
    assert_eq!(probe_text(&"\u{a0}N/A\u{2003}".as_bytes().to_vec()), "N/A");
}

#[test]
fn probed_durations() {
    assert_eq!(probe_duration("a", Some(true), "2", Reading::Usable(2)), Ok(2));
    let failed = |success, reading: Reading<u32>| probe_duration("a", success, "x", reading).unwrap_err();
    assert_eq!(failed(None, Reading::NotANumber), "ffprobe duration");
    assert_eq!(failed(Some(false), Reading::Usable(1)), "ffprobe failed for a");
    assert_eq!(failed(Some(true), Reading::NotANumber), "parse duration 'x' for a");
    assert_eq!(failed(Some(true), Reading::Unusable), "invalid duration for a");
}

fn clock(line: &str) -> Option<(String, String, String)> {
    line_clock(line).map(|c| (c.hours, c.minutes, c.seconds))
}

fn parts(h: &str, m: &str, s: &str) -> Option<(String, String, String)> {
    Some((h.to_string(), m.to_string(), s.to_string()))
}

#[test]
fn clocks_in_lines() {
    assert_eq!(
        clock("  Duration: 00:01:02.50, start: 0.000000, bitrate: 5 kb/s"),
        parts("00", "01", "02.50")
    );
    assert_eq!(clock("Duration: 1 : 2 : 3 "), parts("1", "2", "3"));
    assert_eq!(clock("Duration: N/A, start"), None);
    assert_eq!(clock("Duration: 1:2:3:4, x"), None);
    assert_eq!(clock("duration: 1:2:3"), None);
    assert_eq!(clock("Duration:Duration: 1:2:3"), None);
    assert_eq!(clock(""), None);
}

#[test]
fn clocks_in_logs() {
    let log = join_log(&vec![
        "Input #0".to_string(),
        "  Duration: 00:00:00.00, x".to_string(),
        "  Duration: 00:00:07.00, y".to_string(),
    ]);
    assert_eq!(log, "Input #0\n  Duration: 00:00:00.00, x\n  Duration: 00:00:07.00, y\n");
    let found: Vec<String> = log_clocks(&log).into_iter().map(|c| c.seconds).collect();
    assert_eq!(found, ["00.00", "07.00"]);
}

#[test]
fn first_usable_duration() {
    let read = |v: Vec<Reading<u32>>| parse_duration_from_ffmpeg_log(&v);
    assert_eq!(read(vec![]), None);
    assert_eq!(read(vec![Reading::Unusable, Reading::Usable(7), Reading::Usable(8)]), Some(7));
    assert_eq!(read(vec![Reading::NotANumber, Reading::Usable(7)]), None);
    assert_eq!(read(vec![Reading::Unusable]), None);
}

#[test]
fn media_durations() {
    let (probe, args) = get_media_duration("in/a.mp4", "engine/ffprobe.exe");
    assert_eq!(args, probe_args("in/a.mp4"));
    assert!(matches!(probe.ffprobe_ran(Some(true), Reading::Usable(3)), ProbeStep::Found(3)));
    match probe.ffprobe_ran::<u32>(None, Reading::NotANumber) {
        ProbeStep::Failed(m) => assert_eq!(m, "ffprobe spawn failed (engine/ffprobe.exe)"),
        _ => panic!(),
    }
    let log_args = ["-i", "in/a.mp4", "-t", "0.01", "-f", "null", "-"];
    for step in [
        probe.ffprobe_ran(Some(false), Reading::Usable(3)),
        probe.ffprobe_ran(Some(true), Reading::Unusable),
        probe.ffprobe_ran(Some(true), Reading::NotANumber),
    ] {
        match step {
            ProbeStep::ReadLog(args) => assert_eq!(args, log_args),
            _ => panic!(),
        }
    }
    assert!(matches!(probe.log_read(&Some(vec![Reading::Usable(4)])), ProbeStep::Found(4)));
    match probe.log_read::<u32>(&Some(vec![])) {
        ProbeStep::Failed(m) => assert_eq!(
            m,
            "could not probe duration for in/a.mp4 (put ffmpeg.exe + ffprobe.exe in engine/)"
        ),
        _ => panic!(),
    }
    match probe.log_read::<u32>(&None) {
        ProbeStep::Failed(m) => assert_eq!(m, "ffmpeg duration probe spawn"),
        _ => panic!(),
    }
}

#[test]
fn loading_projects() {
    let p = load_project("a.mp4", true, true, "ffmpeg", Ok(9u32), 0).unwrap();
    assert_eq!(p.source_path, "a.mp4");
    assert_eq!(p.duration, 9);
    assert_eq!(p.clips.len(), 1);
    assert_eq!((p.clips[0].start, p.clips[0].end), (0, 9));
    let e = load_project("a.mp4", false, true, "ffmpeg", Ok(9u32), 0).unwrap_err();
    assert_eq!(e, "file not found: a.mp4");
    let e = load_project("a.mp4", true, false, "ffmpeg", Ok(9u32), 0).unwrap_err();
    assert_eq!(e, "ffmpeg not ready at ffmpeg — place ffmpeg.exe + ffprobe.exe in engine/");
    let e = load_project("a.mp4", true, true, "ffmpeg", Err::<u32, String>("no".to_string()), 0);
    assert_eq!(e.unwrap_err(), "no");
}
