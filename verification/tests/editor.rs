use vid_concat_cutter::editor::Editor;
use vid_concat_cutter::timeline::{Clip, VideoProject, UNDO_LIMIT};

fn clip(start: u32, end: u32) -> Clip<u32> {
    Clip { start, end }
}

fn editor_of(times: &[(u32, u32)]) -> Editor<u32> {
    let mut e = Editor::new();
    e.load(VideoProject {
        source_path: "in/sept.mp4".to_string(),
        duration: 100,
        clips: times.iter().map(|t| clip(t.0, t.1)).collect(),
    });
    e
}

fn times(e: &Editor<u32>) -> Vec<(u32, u32)> {
    e.project().unwrap().clips.iter().map(|c| (c.start, c.end)).collect()
}

fn held(e: &Editor<u32>) -> Vec<(u32, u32)> {
    e.clipboard().unwrap().iter().map(|c| (c.start, c.end)).collect()
}

#[test]
fn a_new_editor_is_empty() {
    let mut e: Editor<u32> = Editor::new();
    assert!(e.project().is_none());
    assert_eq!(e.selected_count(), 0);
    assert!(e.clipboard().is_none());
    assert!(!e.delete_selected());
    assert!(!e.paste());
    assert!(!e.undo());
    assert!(!e.duplicate());
    assert_eq!(e.undo_depth(), 0);
}

#[test]
fn loading_drops_selection_and_clipboard() {
    let mut e = editor_of(&[(0, 10), (10, 20)]);
    e.click_select(1, false);
    e.copy();
    e.delete_selected();
    e.load(VideoProject { source_path: "b".to_string(), duration: 5, clips: vec![clip(0, 5)] });
    assert_eq!(e.selected_count(), 0);
    assert!(e.clipboard().is_none());
    assert_eq!(e.undo_depth(), 1);
    assert_eq!(times(&e), vec![(0, 5)]);
}

#[test]
fn clicks_select() {
    let mut e = editor_of(&[(0, 1), (1, 2), (2, 3)]);
    e.click_select(0, false);
    e.click_select(2, true);
    assert!(e.is_selected(0) && e.is_selected(2) && !e.is_selected(1));
    e.click_select(0, true);
    assert!(!e.is_selected(0));
    e.click_select(1, false);
    assert_eq!(e.selected_count(), 1);
    assert!(e.is_selected(1));
}

#[test]
fn strip_click_splits() {
    let mut e = editor_of(&[(0, 10), (10, 30)]);
    assert!(e.click_strip(1, false, Some(17)));
    assert_eq!(times(&e), vec![(0, 10), (10, 17), (17, 30)]);
    assert!(e.is_selected(1));
    assert!(!e.click_strip(0, false, None));
    assert_eq!(times(&e), vec![(0, 10), (10, 17), (17, 30)]);
    assert_eq!(e.undo_depth(), 2);
    assert!(e.undo());
    assert!(e.undo());
    assert_eq!(times(&e), vec![(0, 10), (10, 30)]);
    assert!(!e.undo());
}

#[test]
fn dropping_moves() {
    let mut e = editor_of(&[(0, 1), (1, 2), (2, 3), (3, 4)]);
    e.drag(0);
    assert!(e.drop_on(2));
    assert_eq!(times(&e), vec![(1, 2), (2, 3), (0, 1), (3, 4)]);
    e.drag(2);
    assert!(e.drop_on(0));
    assert_eq!(times(&e), vec![(0, 1), (1, 2), (2, 3), (3, 4)]);
    e.drag(1);
    assert!(!e.drop_on(1));
    assert!(!e.drop_on(3));
    assert_eq!(times(&e), vec![(0, 1), (1, 2), (2, 3), (3, 4)]);
    assert_eq!(e.undo_depth(), 2);
}

#[test]
fn deleting_drops_the_selected() {
    let mut e = editor_of(&[(0, 1), (1, 2), (2, 3), (3, 4)]);
    e.click_select(0, false);
    e.click_select(2, true);
    assert!(e.delete_selected());
    assert_eq!(times(&e), vec![(1, 2), (3, 4)]);
    assert_eq!(e.selected_count(), 0);
    assert!(e.delete_selected());
    assert_eq!(e.undo_depth(), 2);
    e.undo();
    e.undo();
    assert_eq!(times(&e), vec![(0, 1), (1, 2), (2, 3), (3, 4)]);
}

#[test]
fn cut_sorts_by_key() {
    let mut e = editor_of(&[(30, 40), (0, 10), (20, 30), (10, 20)]);
    e.click_select(0, false);
    e.click_select(1, true);
    e.click_select(2, true);
    let keys: Vec<i32> = vec![30, 0, 20, 10];
    assert!(e.cut(&keys));
    assert_eq!(times(&e), vec![(10, 20)]);
    assert_eq!(held(&e), vec![(0, 10), (20, 30), (30, 40)]);
    assert!(e.paste());
    assert_eq!(times(&e), vec![(10, 20), (0, 10), (20, 30), (30, 40)]);
    assert!(e.paste());
    assert_eq!(times(&e).len(), 7);
}

#[test]
fn equal_keys_keep_the_walked_order() {
    let mut e = editor_of(&[(5, 6), (5, 7), (1, 2)]);
    for i in 0..3 {
        e.click_select(i, true);
    }
    assert!(e.cut_in_order(&vec![1, 2, 0], &vec![5, 5, 1]));
    assert_eq!(held(&e), vec![(1, 2), (5, 7), (5, 6)]);
    assert!(times(&e).is_empty());
}

#[test]
fn cut_without_selection_does_nothing() {
    let mut e = editor_of(&[(0, 1)]);
    assert!(!e.cut(&vec![0]));
    assert_eq!(e.undo_depth(), 0);
    assert!(e.clipboard().is_none());
}

#[test]
fn copy_keeps_the_timeline() {
    let mut e = editor_of(&[(0, 1), (1, 2), (2, 3)]);
    e.copy();
    assert!(e.clipboard().is_none());
    e.click_select(1, false);
    e.copy();
    assert_eq!(held(&e), vec![(1, 2)]);
    e.click_select(2, true);
    e.copy_in_order(&vec![2, 1]);
    assert_eq!(held(&e), vec![(2, 3), (1, 2)]);
    assert_eq!(times(&e).len(), 3);
    assert_eq!(e.undo_depth(), 0);
}

#[test]
fn duplicates_stand_behind_the_last() {
    let mut e = editor_of(&[(0, 1), (1, 2), (2, 3)]);
    e.click_select(0, false);
    e.click_select(1, true);
    assert!(e.duplicate_in_order(&vec![1, 0]));
    assert_eq!(times(&e), vec![(0, 1), (1, 2), (1, 2), (0, 1), (2, 3)]);
    e.undo();
    e.click_select(2, false);
    assert!(e.duplicate());
    assert_eq!(times(&e), vec![(0, 1), (1, 2), (2, 3), (2, 3)]);
}

#[test]
fn history_is_bounded() {
    let mut e = editor_of(&[(0, 100)]);
    for i in 0..(UNDO_LIMIT as u32 + 5) {
        e.retime(vec![clip(i, 100)]);
    }
    assert_eq!(e.undo_depth(), UNDO_LIMIT);
    let mut undone = 0;
    while e.undo() {
        undone += 1;
    }
    assert_eq!(undone, UNDO_LIMIT);
    assert_eq!(times(&e), vec![(4, 100)]);
    assert_eq!(e.project().unwrap().source_path, "in/sept.mp4");
    assert_eq!(e.project().unwrap().duration, 100);
}

#[test]
fn twenty_edits_can_be_undone() {
    let mut e = editor_of(&[(0, 100)]);
    for i in 0..UNDO_LIMIT as u32 {
        e.retime(vec![clip(0, 99 - i)]);
    }
    for _ in 0..UNDO_LIMIT {
        assert!(e.undo());
    }
    assert_eq!(times(&e), vec![(0, 100)]);
}

#[test]
fn arrows_move_the_selection() {
    let mut e = editor_of(&[(0, 1), (1, 2), (2, 3)]);
    e.select_next();
    assert_eq!(e.selected_count(), 0);
    e.click_select(0, false);
    e.click_select(1, true);
    e.select_next();
    assert!(e.is_selected(2));
    assert_eq!(e.selected_count(), 1);
    e.select_next();
    assert!(e.is_selected(2));
    e.click_select(1, true);
    e.select_previous();
    assert!(e.is_selected(0));
    e.select_previous();
    assert!(e.is_selected(0));
    assert_eq!(e.selected_count(), 1);
}
