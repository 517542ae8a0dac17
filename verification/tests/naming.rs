use vid_concat_cutter::naming::{
    audio_output_at, base_name_at, concat_output_at, convert_output_for,
    default_audio_output, default_concat_output, default_speed_output, edit_list_names,
    edited_name, edited_name_for, export_list_name, frame_file_name, join_list_name,
    join_list_name_at, segment_name, segment_names, silent_base_name, sound_file_name,
    speed_output_for, stamp, stamp_at, unique_out, NameSearch, NameStep,
};

fn first_free(mut search: NameSearch, taken: &[&str]) -> String {
    let mut name = search.name();
    loop {
        match search.answer(taken.contains(&name.as_str())) {
            NameStep::Check(n) => name = n,
            NameStep::Take(n) => return n,
        }
    }
}

#[test]
fn stamps() {
    assert_eq!(stamp_at(Some(1_700_000_000)), "1700000000");
    assert_eq!(stamp_at(Some(0)), "0");
    assert_eq!(stamp_at(Some(u64::MAX)), "18446744073709551615");
    assert_eq!(stamp_at(None), "0");
}

#[test]
fn stamp_is_now() {
    let now = std::time::SystemTime::now()
        .duration_since(std::time::UNIX_EPOCH)
        .unwrap()
        .as_secs();
    let s: u64 = stamp().parse().unwrap();
    assert!(s >= now && s < now + 60);
}

#[test]
fn free_name_is_plain() {
    assert_eq!(first_free(unique_out("fast_a", ".mp4"), &[]), "fast_a.mp4");
}

#[test]
fn taken_names_are_numbered() {
    let taken = ["x.mp4", "x_2.mp4", "x_3.mp4"];
    assert_eq!(first_free(unique_out("x", ".mp4"), &taken), "x_4.mp4");
    assert_eq!(first_free(unique_out("x", ".mp4"), &["x_2.mp4"]), "x.mp4");
}

#[test]
fn all_names_taken_gives_a_stamp() {
    let mut search = unique_out("x", ".mp4");
    let mut checked = vec![search.name()];
    let last = loop {
        match search.answer_at(true, Some(77)) {
            NameStep::Check(n) => checked.push(n),
            NameStep::Take(n) => break n,
        }
    };
    assert_eq!(last, "x_77.mp4");
    assert_eq!(checked.len(), 9999);
    assert_eq!(checked[1], "x_2.mp4");
    assert_eq!(checked[9998], "x_9999.mp4");
    checked.sort();
    checked.dedup();
    assert_eq!(checked.len(), 9999);
}

#[test]
fn default_names() {
    assert_eq!(concat_output_at(Some(5)).name(), "combined_5.mp4");
    assert_eq!(audio_output_at(false, Some(5)).name(), "plus-audio-combined_fwd_5.mp4");
    assert_eq!(audio_output_at(true, None).name(), "plus-audio-combined_rev-audio_0.mp4");
    assert_eq!(default_speed_output("in/holiday.mov").name(), "fast_holiday.mp4");
    assert_eq!(default_speed_output("..").name(), "fast_clip.mp4");
    let name = Some("a.b.mov".to_string());
    assert_eq!(convert_output_for(&name, ".webm").name(), "converted_a.b.webm");
    assert_eq!(speed_output_for(&name).name(), "fast_a.b.mp4");
    assert_eq!(convert_output_for(&None, ".avi").name(), "converted_converted.avi");
}

#[test]
fn default_names_of_now() {
    let name = default_concat_output().name();
    assert!(name.starts_with("combined_1") && name.ends_with(".mp4"));
    let name = default_audio_output(true).name();
    assert!(name.starts_with("plus-audio-combined_rev-audio_1"));
    assert!(join_list_name().starts_with("vcc_concat_1"));
    assert!(silent_base_name().starts_with("vcc_silent_base_1"));
}

#[test]
fn export_names() {
    let (json, txt) = edit_list_names(12);
    assert_eq!(json, "edit-list-12.json");
    assert_eq!(txt, "edit-list-12.txt");
    assert_eq!(edited_name("in/sept.mp4", 12), "sept-edited-12.mp4");
    assert_eq!(edited_name_for(&None, 12), "-edited-12.mp4");
    assert_eq!(segment_name(12, 0), "vc_seg_12_0.mp4");
    assert_eq!(segment_name(12, 31), "vc_seg_12_31.mp4");
    assert_eq!(segment_names(12, 3), ["vc_seg_12_0.mp4", "vc_seg_12_1.mp4", "vc_seg_12_2.mp4"]);
    assert!(segment_names(12, 0).is_empty());
    assert_eq!(export_list_name(12), "vc_concat_12.txt");
}

#[test]
fn temporary_names() {
    assert_eq!(join_list_name_at(Some(3)), "vcc_concat_3.txt");
    assert_eq!(base_name_at(None), "vcc_silent_base_0.mp4");
    assert_eq!(frame_file_name(42, 1234567890123), "vcc_frame_42_1234567890123.jpg");
    assert_eq!(sound_file_name(99), "vc_audio_99.wav");
}

#[test]
fn names_of_paths_with_drives_and_backslashes() {
    assert_eq!(default_speed_output("C:/in/holiday.mov").name(), "fast_holiday.mp4");
    assert_eq!(edited_name("C:/in/sept.mp4", 12), "sept-edited-12.mp4");
    let name = default_speed_output(r"d/in\a.mp4").name();
    assert!([r"fast_in\a.mp4", "fast_a.mp4"].contains(&name.as_str()), "{name}");
    let name = edited_name(r"C:in\b.mp4", 7);
    assert!([r"C:in\b-edited-7.mp4", "b-edited-7.mp4"].contains(&name.as_str()), "{name}");
}
