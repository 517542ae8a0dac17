use vid_concat_cutter::convert::ConvertFormat;
use vid_concat_cutter::panel::{
    done_message, enter_concat, AppMode, ConcatPanel, JobKind, JobNews,
};
use vid_concat_cutter::speed::{SpeedMode, Tempo};
use vid_concat_cutter::transport::Transport;

fn files(names: &[&str]) -> Vec<String> {
    names.iter().map(|n| n.to_string()).collect()
}

fn panel_of(names: &[&str]) -> ConcatPanel {
    let mut p = ConcatPanel::default();
    p.refresh_in_list(files(names));
    p
}

#[test]
fn panel_defaults() {
    let p = ConcatPanel::default();
    assert!(p.files.is_empty() && p.selected_index.is_none() && p.audio_path.is_none());
    assert!(!p.reverse_order && !p.reverse_video && !p.reverse_audio && p.speed_95 && !p.busy);
    assert_eq!(p.convert_fmt, ConvertFormat::Mp4);
    assert_eq!(p.status, "Load in/ + audio/ · CONCAT | Add Audio | Speed | Convert");
    assert_eq!(AppMode::default(), AppMode::Cut);
}

#[test]
fn lists_replace_the_selection() {
    let mut p = panel_of(&["a.mp4", "b.mp4"]);
    assert_eq!(p.status, "Loaded 2 from in/");
    p.select(1);
    p.choose_videos(files(&["c.mp4"]));
    assert_eq!(p.selected_index, None);
    assert_eq!(p.status, "1 file(s) selected");
    p.select(0);
    p.clear();
    assert!(p.files.is_empty());
    assert_eq!(p.selected_index, None);
    assert_eq!(p.status, "List cleared");
}

#[test]
fn audio_tracks() {
    let mut p = ConcatPanel::default();
    assert_eq!(p.audio_label(), "Audio: (none — needed for Add Audio)");
    p.refresh_audio_auto(&vec![]);
    assert_eq!(p.status, "No audio in audio/ — Select Audio or drop a file");
    assert_eq!(p.audio_path, None);
    p.refresh_audio_auto(&files(&["audio/a.mp3", "audio/b.mp3"]));
    assert_eq!(p.audio_path.as_deref(), Some("audio/a.mp3"));
    assert_eq!(p.status, "Audio: audio/a.mp3");
    p.choose_audio("x.wav");
    assert_eq!(p.audio_label(), "Audio: x.wav");
    assert_eq!(p.status, "Audio: x.wav");
}

#[test]
fn entries_move() {
    let mut p = panel_of(&["a", "b", "c"]);
    p.move_up();
    p.move_down();
    assert_eq!(p.files, ["a", "b", "c"]);
    p.select(2);
    p.move_up();
    assert_eq!(p.files, ["a", "c", "b"]);
    assert_eq!(p.selected_index, Some(1));
    p.move_up();
    p.move_up();
    assert_eq!(p.files, ["c", "a", "b"]);
    assert_eq!(p.selected_index, Some(0));
    p.move_down();
    p.move_down();
    p.move_down();
    assert_eq!(p.files, ["a", "b", "c"]);
    assert_eq!(p.selected_index, Some(2));
    assert_eq!(p.entry_label(0), "1. a");
}

#[test]
fn only_files_are_joined() {
    let p = panel_of(&["a", "b", "c"]);
    assert_eq!(p.concat_paths(&vec![true, false, true]), ["a", "c"]);
    assert!(p.concat_paths(&vec![false, false, false]).is_empty());
}

#[test]
fn one_job_runs_at_a_time() {
    let mut p = panel_of(&["a"]);
    let opts = p.job_concatenate(&files(&["a"])).unwrap();
    assert!(opts.prefer_stream_copy);
    assert_eq!(p.status, "CONCAT 1 clip(s)…");
    assert!(p.busy);
    assert!(p.job_concatenate(&files(&["a"])).is_none());
    assert_eq!(p.status, "Busy — wait for current job");
    assert!(p.job_convert(true).is_none());
    assert!(!p.poll_concat_job(JobNews::Pending));
    assert!(p.busy);
    assert!(p.poll_concat_job(JobNews::Done(done_message(JobKind::Concat, "out/x.mp4"))));
    assert_eq!(p.status, "CONCAT done → out/x.mp4");
    assert!(!p.busy);
    assert!(p.spawn_concat_job("again"));
    assert!(p.poll_concat_job(JobNews::Failed("boom".to_string())));
    assert_eq!(p.status, "Error: boom");
    assert!(p.spawn_concat_job("again"));
    assert!(p.poll_concat_job(JobNews::Closed));
    assert_eq!(p.status, "Job channel closed");
    assert!(!p.busy);
}

#[test]
fn done_messages() {
    assert_eq!(done_message(JobKind::AddAudio, "o"), "Add Audio done → o");
    assert_eq!(done_message(JobKind::Speed, "o"), "Speed done → o");
    assert_eq!(done_message(JobKind::Convert, "o"), "Convert done → o");
}

#[test]
fn concat_requests() {
    let mut p = panel_of(&["a"]);
    assert!(p.job_concatenate(&vec![]).is_none());
    assert_eq!(p.status, "No videos — Refresh from in/ or Select Videos");
    assert!(!p.busy);
    p.reverse_order = true;
    p.reverse_audio = true;
    let opts = p.job_concatenate(&files(&["a", "b"])).unwrap();
    assert!(opts.reverse_order && opts.reverse_audio && !opts.reverse_video);
    assert!(!opts.prefer_stream_copy);
    assert_eq!(p.status, "CONCAT 2 clip(s)…");
}

#[test]
fn audio_requests() {
    let mut p = panel_of(&["a"]);
    assert!(p.job_add_audio(&vec![], true).is_none());
    assert_eq!(p.status, "No videos for Add Audio");
    assert!(p.job_add_audio(&files(&["a"]), true).is_none());
    assert_eq!(p.status, "Pick audio (audio/ or Select Audio)");
    p.choose_audio("t.mp3");
    assert!(p.job_add_audio(&files(&["a"]), false).is_none());
    assert_eq!(p.status, "Pick audio (audio/ or Select Audio)");
    p.reverse_video = true;
    let (audio, opts) = p.job_add_audio(&files(&["a"]), true).unwrap();
    assert_eq!(audio, "t.mp3");
    assert!(opts.reverse_video && !opts.reverse_audio && !opts.reverse_order);
    assert_eq!(opts.fps, 30);
    assert_eq!(p.status, "Add Audio (loop visuals → t.mp3)…");
}

#[test]
fn speed_requests() {
    let missing = "Speed: select a clip or put an mp4 in out/ (9.5s uses latest out/)";
    let latest = Some("out/new.mp4".to_string());
    let mut p = panel_of(&["a", "b"]);
    assert_eq!(p.speed_clip(), None);
    assert_eq!(p.job_speed(false, &latest, "1.8").as_deref(), Some("out/new.mp4"));
    assert_eq!(p.status, "Speed 9.5s ← out/new.mp4…");
    let mut p = panel_of(&["a", "b"]);
    assert_eq!(p.job_speed(true, &None, "1.8"), None);
    assert_eq!(p.status, missing);
    p.speed_95 = false;
    assert_eq!(p.speed_clip().as_deref(), Some("a"));
    assert_eq!(p.job_speed(true, &latest, "1.8").as_deref(), Some("a"));
    assert_eq!(p.status, "Speed 1.8x ← a…");
    let mut p = panel_of(&["a", "b"]);
    p.speed_95 = false;
    assert_eq!(p.job_speed(false, &latest, "1.8").as_deref(), Some("out/new.mp4"));
    let mut p = panel_of(&["a", "b"]);
    p.select(1);
    assert_eq!(p.speed_clip().as_deref(), Some("b"));
    assert_eq!(p.job_speed(false, &latest, "1.8"), None);
    assert_eq!(p.status, missing);
    assert_eq!(p.job_speed(true, &latest, "1.8").as_deref(), Some("b"));
    assert_eq!(p.job_speed(true, &latest, "1.8"), None);
    assert_eq!(p.status, "Busy — wait for current job");
}

#[test]
fn convert_requests() {
    let mut p = ConcatPanel::default();
    assert!(p.job_convert(true).is_none());
    assert_eq!(p.status, "Convert: select a video in the list");
    let mut p = panel_of(&["a", "b"]);
    assert_eq!(p.convert_clip().as_deref(), Some("a"));
    assert!(p.job_convert(false).is_none());
    assert_eq!(p.status, "Convert: select a video in the list");
    p.select(1);
    p.convert_fmt = ConvertFormat::Webm;
    let (input, format) = p.job_convert(true).unwrap();
    assert_eq!(input, "b");
    assert_eq!(format, ConvertFormat::Webm);
    assert_eq!(p.status, "Convert → WebM (VP9) …");
}

#[test]
fn entering_the_panel() {
    let mut mode = AppMode::Cut;
    let mut t = Transport::new();
    t.toggle_ffwd();
    let mut p = ConcatPanel::default();
    let entry = enter_concat(&mut mode, &p, &mut t);
    assert!(entry.entered && entry.fill_list && entry.find_audio);
    assert_eq!(mode, AppMode::Concat);
    assert!(!t.is_playing() && !t.is_ffwd());
    let entry = enter_concat(&mut mode, &p, &mut t);
    assert!(!entry.entered && !entry.fill_list && !entry.find_audio);
    mode = AppMode::Cut;
    p.refresh_in_list(files(&["a"]));
    p.choose_audio("t.mp3");
    let entry = enter_concat(&mut mode, &p, &mut t);
    assert!(entry.entered && !entry.fill_list && !entry.find_audio);
}

fn some_tempo() -> Tempo {
    Tempo { factor: "1.8".to_string(), doublings: 0, halvings: 0, rest: "1.800000".to_string() }
}

#[test]
fn speed_fits_or_multiplies() {
    let mut p = panel_of(&["a"]);
    assert!(matches!(p.speed_mode(some_tempo()), SpeedMode::FitSeconds));
    p.speed_95 = false;
    match p.speed_mode(some_tempo()) {
        SpeedMode::Factor(t) => {
            assert_eq!(t.factor, "1.8");
            assert_eq!(t.rest, "1.800000");
        }
        SpeedMode::FitSeconds => panic!("a factor was asked for"),
    }
}
