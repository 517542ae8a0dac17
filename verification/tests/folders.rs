use vid_concat_cutter::folders::{
    auto_load_order, latest_mp4_in, list_audio_in_dir, list_videos_in_dir, AutoLoad, DirEntry,
};

fn entry(name: &str, is_file: bool, modified: Option<i128>) -> DirEntry {
    DirEntry { name: name.to_string(), is_file, modified }
}

#[test]
fn videos_are_listed_in_order() {
    let entries = vec![
        entry("b.mp4", true, None),
        entry("song.mp3", true, None),
        entry("A.MKV", true, None),
        entry("folder.mp4", false, None),
        entry("a.webm", true, None),
        entry("notes.txt", true, None),
    ];
    assert_eq!(list_videos_in_dir(&entries), vec!["A.MKV", "a.webm", "b.mp4"]);
    assert_eq!(list_audio_in_dir(&entries), vec!["song.mp3"]);
}

#[test]
fn listing_orders_like_strings() {
    let names = ["clip10.mp4", "clip2.mp4", "Clip.mp4", "clip.mp4", "éclair.mp4", "z.mp4"];
    let entries: Vec<DirEntry> = names.iter().map(|n| entry(n, true, None)).collect();
    let mut expected: Vec<String> = names.iter().map(|n| n.to_string()).collect();
    expected.sort();
    assert_eq!(list_videos_in_dir(&entries), expected);
}

#[test]
fn empty_folder() {
    let entries: Vec<DirEntry> = vec![];
    assert!(list_videos_in_dir(&entries).is_empty());
    assert!(list_audio_in_dir(&entries).is_empty());
    assert!(auto_load_order(&entries).is_empty());
    assert_eq!(latest_mp4_in(&entries), None);
}

#[test]
fn auto_load_keeps_the_order_of_the_folder() {
    let entries = vec![
        entry("b.mp4", true, None),
        entry("x.txt", true, None),
        entry("dir.mov", false, None),
        entry("a.mov", true, None),
    ];
    assert_eq!(auto_load_order(&entries), vec![0, 3]);
}

#[test]
fn newest_mp4() {
    let entries = vec![
        entry("old.mp4", true, Some(10)),
        entry("new.webm", true, Some(99)),
        entry("new.MP4", true, Some(50)),
        entry("same.mp4", true, Some(50)),
        entry("unknown.mp4", true, None),
        entry("before.mp4", true, Some(-5)),
    ];
    assert_eq!(latest_mp4_in(&entries), Some(2));
    assert_eq!(latest_mp4_in(&vec![entry("a.mp4", true, None)]), None);
    assert_eq!(latest_mp4_in(&vec![entry("folder.mp4", false, Some(-1))]), Some(0));
}

fn tried(entries: &Vec<DirEntry>, loading: &[usize]) -> Vec<usize> {
    let mut search = AutoLoad::new(entries);
    let mut seen = vec![];
    let mut loaded = false;
    while let Some(i) = search.next(loaded) {
        seen.push(i);
        loaded = loading.contains(&i);
    }
    seen
}

#[test]
fn the_first_video_that_loads_is_opened() {
    let entries = vec![
        entry("notes.txt", true, None),
        entry("broken.mp4", true, None),
        entry("folder.mp4", false, None),
        entry("good.mkv", true, None),
        entry("other.avi", true, None),
    ];
    assert_eq!(tried(&entries, &[3, 4]), vec![1, 3]);
    assert_eq!(tried(&entries, &[1]), vec![1]);
    assert_eq!(tried(&entries, &[0, 2]), vec![1, 3, 4]);
    assert!(tried(&vec![], &[]).is_empty());
}

#[test]
fn a_loaded_video_ends_the_search() {
    let entries = vec![entry("a.mp4", true, None), entry("b.mp4", true, None)];
    let mut search = AutoLoad::new(&entries);
    assert_eq!(search.next(false), Some(0));
    assert_eq!(search.next(true), None);
    assert_eq!(search.next(false), None);
}
