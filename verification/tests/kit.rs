use vid_concat_cutter::kit::{
    candidate_dirs, ffmpeg_exe, ffmpeg_ready, ffprobe_exe, media_ready, push_new, push_unique, Place,
    ToolSearch, ToolStep, FFMPEG_VARIABLE, FFPROBE_VARIABLE, FOLDER_VARIABLE, KIT_FOLDER,
};

fn path_of(place: &Place) -> String {
    match place {
        Place::At(p) => p.clone(),
        Place::In { folder, name } => format!("{folder}/{name}"),
    }
}

fn resolve(mut search: ToolSearch, files: &[&str]) -> String {
    let mut step = search.step();
    loop {
        match step {
            ToolStep::Use(p) => return path_of(&p),
            ToolStep::Test(p) => step = search.answer(files.contains(&path_of(&p).as_str())),
        }
    }
}

fn tried(mut search: ToolSearch) -> Vec<String> {
    let mut seen = vec![];
    let mut step = search.step();
    loop {
        match step {
            ToolStep::Use(p) => {
                seen.push(path_of(&p));
                return seen;
            }
            ToolStep::Test(p) => {
                seen.push(path_of(&p));
                step = search.answer(false);
            }
        }
    }
}

fn some(s: &str) -> Option<String> {
    Some(s.to_string())
}

fn strings(names: &[&str]) -> Vec<String> {
    names.iter().map(|n| n.to_string()).collect()
}

#[test]
fn no_hardcoded_shared_toolchain_path() {
    let needle = format!("{} - {}", "engine", "ffmpeg");
    let mut prod: Vec<String> = strings(&[FFMPEG_VARIABLE, FFPROBE_VARIABLE, FOLDER_VARIABLE, KIT_FOLDER]);
    let places = candidate_dirs(&some("kit"), &some("work"), &strings(&["a", "b", "c", "d"]));
    let dirs: Vec<String> = places.iter().map(path_of).collect();
    prod.extend(tried(ffmpeg_exe(&some("mine"), &dirs)));
    prod.extend(tried(ffprobe_exe(&some("mine"), &dirs, &some("beside"))));
    prod.extend(dirs);
    assert!(
        !prod.iter().any(|p| p.contains(&needle)),
        "production lib must not hardcode shared toolchain path"
    );
    assert!(!prod.iter().any(|p| p.contains("SHARED_FFMPEG_DIR")));
}

#[test]
fn folders_in_order() {
    let places = candidate_dirs(&some("kit"), &some("work"), &strings(&["t/debug", "t", "root", "up"]));
    let all: Vec<String> = places.iter().map(path_of).collect();
    assert_eq!(
        all,
        [
            "kit", "work/engine", "t/debug/engine", "t/engine", "root/engine", "work", "t/debug", "t",
            "root",
        ]
    );
    assert!(candidate_dirs(&None, &None, &vec![]).is_empty());
    let all: Vec<String> = candidate_dirs(&None, &None, &strings(&["x"])).iter().map(path_of).collect();
    assert_eq!(all, ["x/engine", "x"]);
}

#[test]
fn kit_folders_come_before_roots() {
    let above = strings(&["/p/target/debug", "/p/target", "/p", "/"]);
    let all: Vec<String> = candidate_dirs(&None, &some("/w"), &above).iter().map(path_of).collect();
    assert_eq!(
        all,
        [
            "/w/engine", "/p/target/debug/engine", "/p/target/engine", "/p/engine", "/w",
            "/p/target/debug", "/p/target", "/p",
        ]
    );
}

#[test]
fn windows_folders_are_kept() {
    let mut dirs: Vec<String> = vec![];
    for d in [r"C:\work\engine", r"C:\work", r"C:\app\engine", r"\\server\share\kit", r"C:\work"] {
        push_unique(&mut dirs, d, true);
    }
    assert_eq!(dirs, [r"C:\work\engine", r"C:\work", r"C:\app\engine", r"\\server\share\kit"]);
}

#[test]
fn known_folders_are_not_added() {
    let mut dirs = strings(&["a", "b"]);
    push_new(&mut dirs, "c", true, &vec![false, true]);
    push_new(&mut dirs, "c", false, &vec![false, false]);
    assert_eq!(dirs, ["a", "b"]);
    push_new(&mut dirs, "c", true, &vec![false, false]);
    assert_eq!(dirs, ["a", "b", "c"]);
}

#[test]
fn folders_are_kept_once() {
    let mut dirs: Vec<String> = vec![];
    push_unique(&mut dirs, "a/b", true);
    push_unique(&mut dirs, "missing", false);
    push_unique(&mut dirs, "a//b/", true);
    push_unique(&mut dirs, "a/./b", true);
    push_unique(&mut dirs, "./a/b", true);
    push_unique(&mut dirs, "/a/b", true);
    push_unique(&mut dirs, "a/b", true);
    assert_eq!(dirs, ["a/b", "./a/b", "/a/b"]);
}

#[test]
fn ffmpeg_is_searched_in_order() {
    let dirs = strings(&["one", "two"]);
    assert_eq!(
        tried(ffmpeg_exe(&some("mine"), &dirs)),
        ["mine", "one/ffmpeg.exe", "one/ffmpeg", "two/ffmpeg.exe", "two/ffmpeg", "ffmpeg"]
    );
    assert_eq!(resolve(ffmpeg_exe(&some("mine"), &dirs), &["mine", "one/ffmpeg"]), "mine");
    assert_eq!(resolve(ffmpeg_exe(&some("mine"), &dirs), &["two/ffmpeg.exe", "one/ffmpeg"]), "one/ffmpeg");
    assert_eq!(resolve(ffmpeg_exe(&None, &dirs), &[]), "ffmpeg");
}

#[test]
fn ffprobe_is_searched_beside_ffmpeg() {
    let dirs = strings(&["one"]);
    assert_eq!(
        tried(ffprobe_exe(&None, &dirs, &some("kit"))),
        ["one/ffprobe.exe", "one/ffprobe", "kit/ffprobe.exe", "ffprobe"]
    );
    assert_eq!(resolve(ffprobe_exe(&None, &dirs, &some("kit")), &["kit/ffprobe.exe"]), "kit/ffprobe.exe");
    assert_eq!(resolve(ffprobe_exe(&None, &vec![], &None), &[]), "ffprobe");
}

#[test]
fn readiness() {
    assert!(ffmpeg_ready(Some(true)));
    assert!(!ffmpeg_ready(Some(false)));
    assert!(!ffmpeg_ready(None));
    assert!(media_ready(Some(true)));
    assert!(!media_ready(None));
}

#[test]
fn case_counts_behind_a_drive() {
    let mut dirs: Vec<String> = vec![];
    for d in [r"C:\Work", r"C:\work", "C:/Kit/", "C:/kit", "D:/Kit", "C:/Kit"] {
        push_unique(&mut dirs, d, true);
    }
    assert_eq!(dirs, [r"C:\Work", r"C:\work", "C:/Kit/", "C:/kit", "D:/Kit"]);
}
