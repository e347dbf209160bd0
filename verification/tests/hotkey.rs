use pylade_clicker::hotkey::{push_unique, toggle_on_key_press, HotkeyState};
use pylade_clicker::keys::Key;

#[test]
fn single_key_hotkey_toggles_on_every_matching_press() {
    let hotkey = vec![Key::F6];
    let mut active = false;
    for _ in 0..5 {
        let was = active;
        active = toggle_on_key_press(&hotkey, active, Key::F6);
        assert_eq!(active, !was);
    }
}

#[test]
fn unrelated_key_never_toggles() {
    let hotkey = vec![Key::F6];
    assert_eq!(toggle_on_key_press(&hotkey, false, Key::F5), false);
    assert_eq!(toggle_on_key_press(&hotkey, true, Key::F5), true);
    assert_eq!(toggle_on_key_press(&hotkey, true, Key::Space), true);
}

#[test]
fn multi_key_hotkey_toggles_on_any_member() {
    // The global listener's loose match: any member press toggles.
    let hotkey = vec![Key::ShiftLeft, Key::F2];
    assert_eq!(toggle_on_key_press(&hotkey, false, Key::F2), true);
    assert_eq!(toggle_on_key_press(&hotkey, false, Key::ShiftLeft), true);
    assert_eq!(toggle_on_key_press(&hotkey, false, Key::F3), false);
}

#[test]
fn empty_combination_toggles_nothing() {
    let hotkey: Vec<Key> = Vec::new();
    assert_eq!(toggle_on_key_press(&hotkey, false, Key::F6), false);
}

#[test]
fn capture_two_keys_down_commits_combination() {
    let mut st = HotkeyState::from_saved(vec![Key::F6]);
    st.begin_capture();
    assert!(st.capturing);
    let committed = st.capture_frame(&vec![Key::ShiftLeft, Key::F2], None);
    assert!(committed);
    assert!(!st.capturing);
    assert_eq!(st.hotkey, vec![Key::ShiftLeft, Key::F2]);
    assert!(st.current.is_empty());
}

#[test]
fn capture_single_key_release_commits_single_key() {
    let mut st = HotkeyState::from_saved(vec![Key::F6]);
    st.begin_capture();
    // One key goes down: the session keeps tracking and shows it.
    let c1 = st.capture_frame(&vec![Key::F7], None);
    assert!(!c1);
    assert!(st.capturing);
    assert_eq!(st.current, vec![Key::F7]);
    assert_eq!(st.hotkey, vec![Key::F6]);
    // Its release commits it alone.
    let c2 = st.capture_frame(&vec![], Some(Key::F7));
    assert!(c2);
    assert!(!st.capturing);
    assert_eq!(st.hotkey, vec![Key::F7]);
}

#[test]
fn capture_prefers_chord_over_release_in_same_frame() {
    let mut st = HotkeyState::from_saved(vec![Key::F6]);
    st.begin_capture();
    let committed = st.capture_frame(&vec![Key::ControlLeft, Key::Space], Some(Key::F9));
    assert!(committed);
    assert_eq!(st.hotkey, vec![Key::ControlLeft, Key::Space]);
}

#[test]
fn capture_cancel_discards_partial_selection() {
    let mut st = HotkeyState::from_saved(vec![Key::F6]);
    st.begin_capture();
    st.capture_frame(&vec![Key::F8], None);
    st.cancel_capture();
    assert!(!st.capturing);
    assert!(st.current.is_empty());
    assert_eq!(st.hotkey, vec![Key::F6]);
}

#[test]
fn frame_outside_capture_changes_nothing() {
    let mut st = HotkeyState::from_saved(vec![Key::F6]);
    let committed = st.capture_frame(&vec![Key::F1, Key::F2], Some(Key::F3));
    assert!(!committed);
    assert_eq!(st.hotkey, vec![Key::F6]);
    assert!(!st.capturing);
}

#[test]
fn from_saved_empty_list_falls_back_to_f6() {
    let st = HotkeyState::from_saved(Vec::new());
    assert_eq!(st.hotkey, vec![Key::F6]);
}

#[test]
fn push_unique_keeps_members_once() {
    let mut combo: Vec<Key> = Vec::new();
    push_unique(&mut combo, Key::ShiftLeft);
    push_unique(&mut combo, Key::F2);
    push_unique(&mut combo, Key::ShiftLeft);
    assert_eq!(combo, vec![Key::ShiftLeft, Key::F2]);
}
