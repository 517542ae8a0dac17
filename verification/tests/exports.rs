use vid_concat_cutter::edl::{edl_json, edl_text, escape, status_line, RangeText};
use vid_concat_cutter::export::{
    cut_args, export_edited_video_only, remux_args, segments_of, Segment,
};
use vid_concat_cutter::jobs::{Action, Event, Step};

fn range(start: &str, end: &str, length: &str) -> RangeText {
    RangeText { start: start.to_string(), end: end.to_string(), length: length.to_string() }
}

#[test]
fn edit_list_as_json() {
    let list = vec![range("0.000", "1.500", ""), range("2.000", "4.000", "")];
    assert_eq!(
        edl_json("in/a.mp4", "8.000", "3.500", &list, 77),
        "{\n  \"source\": \"in/a.mp4\",\n  \"source_duration\": 8.000,\n  \"assembled_duration\": 3.500,\n  \"clips\": [\n    {\"start\": 0.000, \"end\": 1.500},\n    {\"start\": 2.000, \"end\": 4.000} \n  ],\n  \"exported_at\": 77,\n  \"engine\": \"ffmpeg-local\",\n  \"note\": \"Non-destructive edit list. Use Export Video for a remuxed .mp4 of kept ranges.\"\n}"
    );
    assert!(edl_json("a", "1.000", "0.000", &vec![], 0).contains("\"clips\": [ \n  ],"));
}

#[test]
fn json_sources_are_escaped() {
    assert_eq!(escape(r"in\a.mp4"), r"in\\a.mp4");
    assert_eq!(escape("say \"hi\"\n\u{1f}é"), "say \\\"hi\\\"\\u000a\\u001fé");
    assert_eq!(escape(""), "");
    let json = edl_json(r"in\a.mp4", "10.000", "8.500", &vec![range("0.000", "2.500", "")], 1);
    assert!(json.contains(r#""source": "in\\a.mp4","#));
}

#[test]
fn segments_pair_clips_and_files() {
    let ranges = vec![range("0.000", "1.000", "x"), range("2.000", "3.000", "y")];
    let segments = segments_of(&ranges, &vec!["s0".to_string(), "s1".to_string()]);
    let all: Vec<(&str, &str, &str)> =
        segments.iter().map(|s| (s.start.as_str(), s.end.as_str(), s.path.as_str())).collect();
    assert_eq!(all, [("0.000", "1.000", "s0"), ("2.000", "3.000", "s1")]);
}

#[test]
fn edit_list_as_text() {
    let list = vec![range("0.00", "1.50", "1.50"), range("2.00", "4.00", "2.00")];
    assert_eq!(
        edl_text("in/a.mp4", "8.00", "3.50", &list),
        "Source: in/a.mp4\nSource duration: 8.00s\nAssembled (edited) duration: 3.50s\nEngine: local ffmpeg\n\nKept clip list (EDL):\nClip 0: 0.00s - 1.50s (dur 1.50s)\nClip 1: 2.00s - 4.00s (dur 2.00s)\n"
    );
}

#[test]
fn status_lines() {
    assert_eq!(
        status_line(3, "12.5", 1, false),
        "Clips: 3  |  Assembled: 12.5s  |  Selected: 1  |  local ffmpeg  |  Ctrl+Z: undo | Ctrl+D: duplicate | Arrows: nav"
    );
    assert_eq!(
        status_line(0, "0.0", 0, true),
        "Clips: 0  |  Assembled: 0.0s  |  Selected: 0  |  local ffmpeg  |  Clipboard has clips (Ctrl+V to paste | Ctrl+C copy)  |  Ctrl+Z: undo | Ctrl+D: duplicate | Arrows: nav"
    );
}

fn segment(start: &str, end: &str, path: &str) -> Segment {
    Segment { start: start.to_string(), end: end.to_string(), path: path.to_string() }
}

#[test]
fn export_arguments() {
    assert_eq!(
        cut_args(r"in\a.mp4", &segment("0.000", "1.500", r"tmp\s0.mp4")),
        ["-y", "-i", "in/a.mp4", "-ss", "0.000", "-to", "1.500", "-c", "copy", "tmp/s0.mp4"]
    );
    assert_eq!(
        remux_args("tmp/l.txt", "out/e.mp4"),
        ["-y", "-f", "concat", "-safe", "0", "-i", "tmp/l.txt", "-c", "copy", "out/e.mp4"]
    );
}

fn export(n: usize, mut reply: impl FnMut(&str) -> Event) -> (Vec<String>, Result<String, String>) {
    let segments = (0..n).map(|i| segment("0.000", "1.000", &format!("s{i}"))).collect();
    let (mut job, mut step) = export_edited_video_only("a.mp4", segments, "e.mp4", "l.txt");
    let mut seen = vec![];
    loop {
        let action = match step {
            Step::Act(a) => a,
            Step::Finished(p) => return (seen, Ok(p)),
            Step::Failed(m) => return (seen, Err(m)),
        };
        let text = match &action {
            Action::StartFfmpeg(args) => format!("start {}", args[args.len() - 1]),
            Action::TestExists(p) => format!("exists {p}"),
            Action::WriteFile { path, body } => format!("write {path} {body}"),
            Action::RemoveFile(p) => format!("remove {p}"),
            _ => panic!("no such action"),
        };
        let event = reply(&text);
        seen.push(text);
        step = job.advance(&event);
    }
}

#[test]
fn exports_join_their_segments() {
    let (seen, end) = export(2, |_| Event::answer(true));
    assert_eq!(end, Ok("e.mp4".to_string()));
    assert_eq!(
        seen,
        [
            "start s0",
            "exists s0",
            "start s1",
            "exists s1",
            "write l.txt file 's0'\nfile 's1'\n",
            "start e.mp4",
            "remove s0",
            "remove s1",
            "remove l.txt",
            "exists e.mp4",
        ]
    );
}

#[test]
fn exports_skip_segments_that_fail() {
    let (seen, end) = export(4, |a| match a {
        "start s1" => Event::Failed("spawn".to_string()),
        "exists s2" => Event::answer(false),
        _ => Event::answer(true),
    });
    assert_eq!(end, Ok("e.mp4".to_string()));
    assert!(seen.contains(&"write l.txt file 's0'\nfile 's3'\n".to_string()));
    assert!(!seen.contains(&"exists s1".to_string()));
    assert_eq!(&seen[seen.len() - 4..], ["remove s0", "remove s3", "remove l.txt", "exists e.mp4"]);
}

#[test]
fn export_failures() {
    let none = "No segments created for export (ffmpeg failed?)".to_string();
    assert_eq!(export(0, |_| Event::answer(true)), (vec![], Err(none.clone())));
    let (seen, end) = export(2, |_| Event::answer(false));
    assert_eq!(end, Err(none));
    assert_eq!(seen, ["start s0", "exists s0", "start s1", "exists s1"]);
    let (seen, end) = export(1, |a| {
        if a == "exists s0" { Event::answer(true) } else { Event::Failed("x".to_string()) }
    });
    assert_eq!(seen, ["start s0"]);
    assert!(end.is_err());
    let (seen, end) = export(1, |a| {
        if a == "start s0" { Event::done() } else if a == "exists s0" { Event::answer(true) } else { Event::Failed("x".to_string()) }
    });
    assert_eq!(end, Err("Export finished but output missing: e.mp4".to_string()));
    assert!(seen.contains(&"remove s0".to_string()) && seen.contains(&"remove l.txt".to_string()));
}
