use vid_concat_cutter::concat::{
    concat_copy_args, concat_filter_complex, concat_graph, concat_list, concatenate, quote,
    ConcatJob, ConcatOptions,
};
use vid_concat_cutter::jobs::{Action, Event, Step};

fn paths_of(names: &[&str]) -> Vec<String> {
    names.iter().map(|n| n.to_string()).collect()
}

fn describe(action: &Action) -> String {
    match action {
        Action::CreateParent(p) => format!("parent {p}"),
        Action::TestFile(p) => format!("file {p}"),
        Action::WriteFile { path, body } => format!("write {path} {body}"),
        Action::RunFfmpeg(args) => format!("run {}", args[1]),
        Action::RemoveFile(p) => format!("remove {p}"),
        _ => panic!("no such action"),
    }
}

fn drive(mut job: ConcatJob, first: Action, mut reply: impl FnMut(&str) -> Event) -> (Vec<String>, Result<String, String>) {
    let mut seen = vec![];
    let mut action = first;
    loop {
        let text = describe(&action);
        let event = reply(&text);
        seen.push(text);
        match job.advance(&event) {
            Step::Act(a) => action = a,
            Step::Finished(p) => return (seen, Ok(p)),
            Step::Failed(m) => return (seen, Err(m)),
        }
    }
}

#[test]
fn concat_defaults() {
    let o = ConcatOptions::default();
    assert!(!o.reverse_order && !o.reverse_video && !o.reverse_audio && o.prefer_stream_copy);
}

#[test]
fn quotes_are_escaped() {
    assert_eq!(quote("it's"), r"it'\''s");
    assert_eq!(quote("plain"), "plain");
    assert_eq!(quote(""), "");
}

#[test]
fn list_file() {
    let body = concat_list(&paths_of(&[r"in\it's.mp4", "b.mp4"]));
    assert_eq!(body, "file 'in/it'\\''s.mp4'\nfile 'b.mp4'\n");
    assert_eq!(concat_list(&vec![]), "");
}

#[test]
fn copy_arguments() {
    let args = concat_copy_args(r"tmp\list.txt", "out/x.mp4");
    let expected = [
        "-y", "-f", "concat", "-safe", "0", "-i", "tmp/list.txt", "-map", "0:v:0", "-map",
        "0:a:0?", "-c", "copy", "-movflags", "+faststart", "out/x.mp4",
    ];
    assert_eq!(args, expected);
}

#[test]
fn filter_graphs() {
    let plain = ConcatOptions::default();
    assert_eq!(concat_graph(2, &plain), "[0:v:0][0:a:0][1:v:0][1:a:0]concat=n=2:v=1:a=1[v][a]");
    let video = ConcatOptions { reverse_video: true, ..plain };
    assert_eq!(
        concat_graph(2, &video),
        "[0:v:0]reverse[v0];[1:v:0]reverse[v1];[v0][0:a:0][v1][1:a:0]concat=n=2:v=1:a=1[v][a]"
    );
    let both = ConcatOptions { reverse_video: true, reverse_audio: true, ..plain };
    assert_eq!(
        concat_graph(1, &both),
        "[0:v:0]reverse[v0];[0:a:0]areverse[a0];[v0][a0]concat=n=1:v=1:a=1[v][a]"
    );
}

#[test]
fn filter_arguments() {
    let args = concat_filter_complex(&paths_of(&["a.mp4", r"b\c.mp4"]), "o.mp4", &ConcatOptions::default());
    let expected = [
        "-y", "-i", "a.mp4", "-i", "b/c.mp4", "-filter_complex",
        "[0:v:0][0:a:0][1:v:0][1:a:0]concat=n=2:v=1:a=1[v][a]", "-map", "[v]", "-map", "[a]",
        "-c:v", "libx264", "-preset", "fast", "-crf", "23", "-pix_fmt", "yuv420p", "-c:a", "aac",
        "-b:a", "192k", "-movflags", "+faststart", "o.mp4",
    ];
    assert_eq!(args, expected);
}

#[test]
fn concat_needs_inputs() {
    let r = concatenate(&vec![], "o.mp4", "l.txt", &ConcatOptions::default());
    assert_eq!(r.err().unwrap(), "no inputs for concat");
}

#[test]
fn concat_by_copy() {
    let (job, first) = concatenate(
        &paths_of(&["a.mp4", "b.mp4"]),
        "o.mp4",
        "l.txt",
        &ConcatOptions { reverse_order: true, ..ConcatOptions::default() },
    )
    .ok()
    .unwrap();
    let (seen, end) = drive(job, first, |_| Event::answer(true));
    assert_eq!(end, Ok("o.mp4".to_string()));
    assert_eq!(
        seen,
        [
            "parent o.mp4",
            "write l.txt file 'b.mp4'\nfile 'a.mp4'\n",
            "run -f",
            "remove l.txt",
            "file o.mp4",
        ]
    );
}

#[test]
fn concat_falls_back_when_the_copy_fails() {
    let (job, first) =
        concatenate(&paths_of(&["a.mp4"]), "o.mp4", "l.txt", &ConcatOptions::default()).ok().unwrap();
    let (seen, end) = drive(job, first, |a| {
        if a == "run -f" { Event::Failed("bad".to_string()) } else { Event::answer(true) }
    });
    assert_eq!(end, Ok("o.mp4".to_string()));
    assert_eq!(
        seen,
        [
            "parent o.mp4",
            "write l.txt file 'a.mp4'\n",
            "run -f",
            "remove l.txt",
            "run -i",
            "file o.mp4",
        ]
    );
}

#[test]
fn concat_falls_back_when_the_list_cannot_be_written() {
    let (job, first) =
        concatenate(&paths_of(&["a.mp4"]), "o.mp4", "l.txt", &ConcatOptions::default()).ok().unwrap();
    let (seen, end) = drive(job, first, |a| {
        if a.starts_with("write") { Event::Failed("full".to_string()) } else { Event::answer(true) }
    });
    assert_eq!(end, Ok("o.mp4".to_string()));
    assert_eq!(seen[2], "run -i");
}

#[test]
fn concat_falls_back_when_the_copy_leaves_nothing() {
    let (job, first) =
        concatenate(&paths_of(&["a.mp4"]), "o.mp4", "l.txt", &ConcatOptions::default()).ok().unwrap();
    let mut tests = 0;
    let (seen, end) = drive(job, first, |a| {
        if a.starts_with("file") {
            tests += 1;
            Event::answer(tests > 1)
        } else {
            Event::done()
        }
    });
    assert_eq!(end, Ok("o.mp4".to_string()));
    assert_eq!(seen.len(), 7);
}

#[test]
fn reversal_skips_the_copy() {
    let opts = ConcatOptions { reverse_audio: true, ..ConcatOptions::default() };
    let (job, first) = concatenate(&paths_of(&["a.mp4"]), "o.mp4", "l.txt", &opts).ok().unwrap();
    let (seen, end) = drive(job, first, |_| Event::answer(true));
    assert_eq!(end, Ok("o.mp4".to_string()));
    assert_eq!(seen, ["parent o.mp4", "run -i", "file o.mp4"]);
}

#[test]
fn concat_errors() {
    let start = || {
        let opts = ConcatOptions { prefer_stream_copy: false, ..ConcatOptions::default() };
        concatenate(&paths_of(&["a.mp4"]), "o.mp4", "l.txt", &opts).ok().unwrap()
    };
    let (job, first) = start();
    let (_, end) = drive(job, first, |_| Event::Failed("denied".to_string()));
    assert_eq!(end, Err("denied".to_string()));
    let (mut job, _) = start();
    let denied = Event::Failed("denied".to_string());
    assert!(matches!(job.advance(&denied), Step::Failed(m) if m == "denied"));
    assert!(matches!(job.advance(&Event::done()), Step::Failed(m) if m == "the job has ended"));
    let (job, first) = start();
    let (_, end) = drive(job, first, |a| {
        if a.starts_with("run") { Event::Failed("ffmpeg failed".to_string()) } else { Event::done() }
    });
    assert_eq!(end, Err("ffmpeg failed".to_string()));
    let (job, first) = start();
    let (_, end) = drive(job, first, |_| Event::answer(false));
    assert_eq!(end, Err("concat produced no output".to_string()));
}
