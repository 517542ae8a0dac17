use vid_concat_cutter::paths::{
    extension, is_audio_name, is_audio_path, is_video_name, is_video_path, sanitize_path, stem,
    AUDIO_EXTENSIONS, VIDEO_EXTENSIONS,
};

#[test]
fn video_ext_mp4() {
    assert!(is_video_path("a.MP4"));
    assert!(is_video_path("b.mkv"));
    assert!(!is_video_path("c.txt"));
}

#[test]
fn sanitize_strips_unc() {
    let s = sanitize_path(r"\\?\C:\path\to\y.mp4");
    assert!(!s.starts_with(r"\\?\"));
}

#[test]
fn audio_ext() {
    assert!(is_audio_path("a.MP3"));
    assert!(!is_audio_path("a.mp4"));
}

#[test]
fn sanitize_turns_slashes() {
    assert_eq!(sanitize_path(r"\\?\C:\path\to\y.mp4"), "C:/path/to/y.mp4");
    assert_eq!(sanitize_path(r"in\a b.mp4"), "in/a b.mp4");
    assert_eq!(sanitize_path("out/x.mp4"), "out/x.mp4");
    assert_eq!(sanitize_path(r"\\server\share"), "//server/share");
    assert_eq!(sanitize_path(r"\\?\\\?\x"), "//?/x");
    assert_eq!(sanitize_path(""), "");
}

#[test]
fn sanitizing_twice_changes_nothing() {
    for p in [r"\\?\C:\a\b", r"a\b", "a/b", r"\\?\", ""] {
        let once = sanitize_path(p);
        assert_eq!(sanitize_path(&once), once);
        assert!(!once.contains('\\'));
    }
}

#[test]
fn extensions_of_names() {
    assert_eq!(extension("a.tar.gz").as_deref(), Some("gz"));
    assert_eq!(extension("a."), Some(String::new()));
    assert_eq!(extension(".mp4"), None);
    assert_eq!(extension(".."), None);
    assert_eq!(extension("name"), None);
    assert_eq!(stem("a.tar.gz"), "a.tar");
    assert_eq!(stem(".mp4"), ".mp4");
    assert_eq!(stem("name"), "name");
}

#[test]
fn file_names_of_paths() {
    assert!(is_video_path("in/clip.Mov"));
    assert!(is_video_path("/tmp/x/clip.webm/"));
    assert!(is_video_path("a/./b.avi/."));
    assert!(!is_video_path("clip.mp4/readme"));
    assert!(!is_video_path("a.mp4/.."));
    assert!(!is_video_path("in/.mp4"));
    assert!(!is_video_path(""));
    assert!(is_audio_path("audio/track.FLAC"));
    assert!(!is_audio_path("audio/"));
}

#[test]
fn network_and_verbatim_paths() {
    for p in [
        "//server/share/clip.mp4",
        r"\\server\share\clip.MP4",
        r"\\?\C:\path\to\y.mp4",
        r"\\?\UNC\server\share\y.mp4",
        r"C:\in\y.mp4",
    ] {
        assert!(is_video_path(p), "{p}");
        assert!(!is_audio_path(p), "{p}");
    }
    assert!(is_audio_path(r"\\server\share\t.mp3"));
    assert!(!is_video_path("//server/share/clip.txt"));
    assert!(!is_video_path("//server/share.mp4/clip"));
}

#[test]
fn names_agree_with_std() {
    for p in ["a.mp4", "in/b.MKV", "c", ".mp4", "d/../e.ts", "x.y/z"] {
        let ext = std::path::Path::new(p).extension().and_then(|e| e.to_str());
        let listed = ext
            .map(|e| VIDEO_EXTENSIONS.iter().any(|v| *v == e.to_ascii_lowercase()))
            .unwrap_or(false);
        assert_eq!(is_video_path(p), listed);
    }
}

#[test]
fn no_name_is_video_and_audio() {
    for e in VIDEO_EXTENSIONS {
        let name = format!("x.{e}");
        assert!(is_video_name(&name));
        assert!(!is_audio_name(&name));
    }
    for e in AUDIO_EXTENSIONS {
        let name = format!("x.{}", e.to_uppercase());
        assert!(is_audio_name(&name));
        assert!(!is_video_name(&name));
    }
}

#[test]
fn slashes_at_the_end_change_nothing() {
    for p in ["C:/x.mp4/", "C:x.mp4//", r"in\y.mp4/", "//server/share/z.mkv/", "C:/x.mp4/./"] {
        assert!(is_video_path(p), "{p}");
    }
    for p in ["C:/x.mp4/y", "C:/x.txt/", r"in\y.mp3/"] {
        assert!(!is_video_path(p), "{p}");
    }
    assert!(is_audio_path("C:/song.mp3/"));
    assert!(is_audio_path(r"in\song.wav//"));
}
