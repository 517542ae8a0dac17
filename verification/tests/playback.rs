use vid_concat_cutter::transport::{ruler_divisions, Edge, Transport};

fn state(t: &Transport) -> (bool, bool, bool) {
    (t.is_playing(), t.is_ffwd(), t.is_rewind())
}

#[test]
fn at_rest() {
    let mut t = Transport::new();
    assert_eq!(state(&t), (false, false, false));
    assert_eq!(t.rate(), 1);
    assert_eq!(t.preview_throttle(), 500);
    assert!(!t.take_restart());
}

#[test]
fn play_and_pause() {
    let mut t = Transport::new();
    t.toggle_play();
    assert_eq!(state(&t), (true, false, false));
    assert_eq!(t.preview_throttle(), 90);
    assert!(t.take_restart());
    assert!(!t.take_restart());
    t.toggle_ffwd();
    t.toggle_play();
    assert_eq!(state(&t), (false, false, false));
    assert!(!t.take_restart());
}

#[test]
fn winding_is_exclusive() {
    let mut t = Transport::new();
    t.toggle_ffwd();
    assert_eq!(state(&t), (true, true, false));
    assert_eq!(t.rate(), 5);
    assert_eq!(t.preview_throttle(), 25);
    t.toggle_rewind();
    assert_eq!(state(&t), (true, false, true));
    assert_eq!(t.rate(), -3);
    t.toggle_rewind();
    assert_eq!(state(&t), (true, false, false));
    t.toggle_rewind();
    t.toggle_ffwd();
    assert_eq!(state(&t), (true, true, false));
    t.toggle_ffwd();
    assert_eq!(state(&t), (true, false, false));
    t.halt();
    assert_eq!(state(&t), (false, false, false));
}

#[test]
fn the_ends_stop_playback() {
    let mut t = Transport::new();
    t.toggle_rewind();
    assert_eq!(t.settle(false, false), None);
    assert_eq!(state(&t), (true, false, true));
    assert_eq!(t.settle(false, true), Some(Edge::Start));
    assert_eq!(state(&t), (false, false, false));
    t.toggle_ffwd();
    assert_eq!(t.settle(true, false), Some(Edge::End));
    assert_eq!(state(&t), (false, false, false));
}

#[test]
fn seeking_restarts_the_sound() {
    let mut t = Transport::new();
    t.seek();
    assert_eq!(state(&t), (false, false, false));
    t.halt();
    assert!(t.take_restart());
    assert!(!t.take_restart());
}

#[test]
fn rulers() {
    assert_eq!(ruler_divisions(true, true), 20);
    assert_eq!(ruler_divisions(false, true), 15);
    assert_eq!(ruler_divisions(false, false), 10);
}
