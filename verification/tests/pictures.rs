use vid_concat_cutter::frames::{
    compose_strip, compute_visuals, extract_audio_to_wav, extract_frame, filmstrip, frame_args,
    Frame,
};
use vid_concat_cutter::jobs::{Action, Event, Step};

fn plain(width: u32, height: u32, pixel: [u8; 4]) -> Frame {
    let mut rgba = vec![];
    for _ in 0..width * height {
        rgba.extend(pixel);
    }
    Frame::from_rgba(width, height, rgba).unwrap()
}

fn pixel(f: &Frame, x: usize, y: usize) -> Vec<u8> {
    let at = 4 * (y * f.width() as usize + x);
    f.rgba()[at..at + 4].to_vec()
}

#[test]
fn pictures_need_their_bytes() {
    assert!(Frame::from_rgba(2, 2, vec![0; 16]).is_some());
    assert!(Frame::from_rgba(2, 2, vec![0; 15]).is_none());
    assert!(Frame::from_rgba(2, 2, vec![0; 17]).is_none());
    assert!(Frame::from_rgba(65536, 0, vec![]).is_none());
    assert!(Frame::from_rgba(0, 7, vec![]).is_some());
}

#[test]
fn filmstrip_shows_its_frames() {
    let red = plain(64, 36, [255, 0, 0, 255]);
    let blue = plain(64, 36, [0, 0, 255, 200]);
    let strip = filmstrip(&vec![Some(red), None, Some(blue)]);
    assert_eq!((strip.width(), strip.height()), (192, 36));
    assert_eq!(strip.rgba().len(), 192 * 36 * 4);
    for y in [0, 17, 35] {
        assert_eq!(pixel(&strip, 0, y), [255, 0, 0, 255]);
        assert_eq!(pixel(&strip, 63, y), [255, 0, 0, 255]);
        assert_eq!(pixel(&strip, 64, y), [0, 0, 0, 0]);
        assert_eq!(pixel(&strip, 127, y), [0, 0, 0, 0]);
        assert_eq!(pixel(&strip, 128, y), [0, 0, 255, 200]);
        assert_eq!(pixel(&strip, 191, y), [0, 0, 255, 200]);
    }
}

#[test]
fn pieces_stand_at_their_places() {
    let strip = compose_strip(&vec![None, Some(plain(64, 36, [1, 2, 3, 4]))]);
    assert_eq!((strip.width(), strip.height()), (192, 36));
    assert_eq!(pixel(&strip, 63, 35), [0, 0, 0, 0]);
    assert_eq!(pixel(&strip, 64, 0), [1, 2, 3, 4]);
    assert_eq!(pixel(&strip, 127, 35), [1, 2, 3, 4]);
    assert_eq!(pixel(&strip, 128, 0), [0, 0, 0, 0]);
}

#[test]
fn filmstrip_keeps_every_pixel_of_a_fitting_frame() {
    let mut rgba = vec![];
    for i in 0..64 * 36 {
        rgba.extend([(i % 251) as u8, (i / 251) as u8, 7, 255]);
    }
    let frame = Frame::from_rgba(64, 36, rgba.clone()).unwrap();
    let strip = filmstrip(&vec![None, Some(frame)]);
    for y in 0..36 {
        for x in 0..64 {
            let at = 4 * (y * 64 + x);
            assert_eq!(pixel(&strip, 64 + x, y), rgba[at..at + 4].to_vec());
        }
    }
}

#[test]
fn filmstrip_resizes() {
    let gray = plain(320, 180, [90, 90, 90, 255]);
    let strip = filmstrip(&vec![Some(gray)]);
    assert_eq!(pixel(&strip, 0, 0), [90, 90, 90, 255]);
    assert_eq!(pixel(&strip, 32, 18), [90, 90, 90, 255]);
    assert_eq!(pixel(&strip, 64, 0), [0, 0, 0, 0]);
    let mut rgba = vec![];
    for i in 0..128 * 72 {
        rgba.extend([(i * 7 % 256) as u8, 0, 0, 255]);
    }
    let busy = image::RgbaImage::from_raw(128, 72, rgba.clone()).unwrap();
    let small = image::imageops::resize(&busy, 64, 36, image::imageops::FilterType::Triangle);
    let strip = filmstrip(&vec![Frame::from_rgba(128, 72, rgba)]);
    for (x, y, p) in small.enumerate_pixels() {
        assert_eq!(pixel(&strip, x as usize, y as usize), p.0.to_vec());
    }
}

#[test]
fn empty_frames_leave_their_place_empty() {
    let strip = filmstrip(&vec![Frame::from_rgba(0, 0, vec![]), None, None]);
    assert!(strip.rgba().iter().all(|b| *b == 0));
    let strip = filmstrip(&vec![]);
    assert!(strip.rgba().iter().all(|b| *b == 0));
}

#[test]
fn colors_of_clips() {
    let bytes = Some(vec![10u8, 20, 30, 40]);
    let colors = compute_visuals(&bytes, &vec![vec![0, 2, 3, 6], vec![]]);
    assert_eq!(colors, vec![vec![(10, 20, 30), (30, 40, 10), (40, 10, 20), (30, 40, 10)], vec![]]);
    assert_eq!(compute_visuals(&Some(vec![5u8]), &vec![vec![9]]), vec![vec![(5, 5, 5)]]);
    assert_eq!(compute_visuals(&Some(vec![5u8, 6]), &vec![vec![1]]), vec![vec![(6, 5, 6)]]);
    assert!(compute_visuals(&None, &vec![vec![0]]).is_empty());
    assert!(compute_visuals(&Some(vec![]), &vec![vec![0]]).is_empty());
    assert!(compute_visuals(&bytes, &vec![]).is_empty());
}

#[test]
fn extraction_arguments() {
    assert_eq!(
        frame_args(r"in\a.mp4", "1.500", 320, r"tmp\f.jpg"),
        [
            "-y", "-ss", "1.500", "-i", "in/a.mp4", "-frames:v", "1", "-vf",
            "scale=320:-1:force_original_aspect_ratio=decrease", "-update", "1", "tmp/f.jpg",
        ]
    );
    assert_eq!(frame_args("a", "0.000", 3, "b")[8], "scale=16:-1:force_original_aspect_ratio=decrease");
    assert_eq!(
        extract_audio_to_wav("in/a.mp4", "t.wav"),
        ["-i", "in/a.mp4", "-vn", "-acodec", "pcm_s16le", "-ar", "44100", "-ac", "2", "-y", "t.wav"]
    );
}

fn extraction(mut reply: impl FnMut(&str) -> Event) -> (Vec<String>, Result<String, String>) {
    let (mut job, first) = extract_frame("a.mp4", "2.000", 64, "engine/ffmpeg.exe", "f.jpg");
    let mut seen = vec![];
    let mut action = first;
    loop {
        let text = match &action {
            Action::TestFile(p) => format!("file {p}"),
            Action::TestExists(p) => format!("exists {p}"),
            Action::StartFfmpeg(args) => format!("start {}", args.len()),
            Action::OpenImage(p) => format!("open {p}"),
            Action::RemoveFile(p) => format!("remove {p}"),
            _ => panic!("no such action"),
        };
        let event = reply(&text);
        seen.push(text);
        match job.advance(&event) {
            Step::Act(a) => action = a,
            Step::Finished(p) => return (seen, Ok(p)),
            Step::Failed(m) => return (seen, Err(m)),
        }
    }
}

#[test]
fn frames_are_extracted() {
    let (seen, end) = extraction(|_| Event::answer(true));
    assert_eq!(end, Ok("f.jpg".to_string()));
    assert_eq!(seen, ["file a.mp4", "start 12", "exists f.jpg", "open f.jpg", "remove f.jpg"]);
}

#[test]
fn extraction_errors() {
    let fail = |at: &'static str| {
        extraction(move |a| {
            if a.starts_with(at) { Event::Failed("x".to_string()) } else { Event::answer(true) }
        })
        .1
        .unwrap_err()
    };
    assert_eq!(fail("file"), "file not found: a.mp4");
    assert_eq!(fail("start"), "ffmpeg extract_frame spawn (engine/ffmpeg.exe)");
    assert_eq!(fail("exists"), "ffmpeg did not write frame at t=2.000s for a.mp4");
    assert_eq!(fail("open"), "open extracted frame f.jpg");
}
