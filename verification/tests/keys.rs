use pylade_clicker::keys::{combination_to_string, key_from_name, key_name, vk_to_key, Key};

fn all_keys() -> Vec<Key> {
    vec![
        Key::F1,
        Key::F2,
        Key::F3,
        Key::F4,
        Key::F5,
        Key::F6,
        Key::F7,
        Key::F8,
        Key::F9,
        Key::F10,
        Key::F11,
        Key::F12,
        Key::Home,
        Key::End,
        Key::PageUp,
        Key::PageDown,
        Key::Insert,
        Key::Delete,
        Key::UpArrow,
        Key::DownArrow,
        Key::LeftArrow,
        Key::RightArrow,
        Key::Space,
        Key::Return,
        Key::Escape,
        Key::Tab,
        Key::Backspace,
        Key::CapsLock,
        Key::ShiftLeft,
        Key::ShiftRight,
        Key::ControlLeft,
        Key::ControlRight,
        Key::Alt,
        Key::AltGr,
    ]
}

#[test]
fn every_key_name_resolves_back() {
    for k in all_keys() {
        assert_eq!(key_from_name(key_name(k)), Some(k), "name {:?}", key_name(k));
    }
}

#[test]
fn key_names_are_distinct() {
    let keys = all_keys();
    for (i, a) in keys.iter().enumerate() {
        for b in keys.iter().skip(i + 1) {
            assert_ne!(key_name(*a), key_name(*b));
        }
    }
}

#[test]
fn unknown_name_resolves_to_nothing() {
    assert_eq!(key_from_name("NotAKey"), None);
    assert_eq!(key_from_name(""), None);
    assert_eq!(key_from_name("f6"), None);
}

#[test]
fn virtual_key_codes_map_to_keys() {
    assert_eq!(vk_to_key(0x75), Some(Key::F6));
    assert_eq!(vk_to_key(0x20), Some(Key::Space));
    assert_eq!(vk_to_key(0x0D), Some(Key::Return));
    assert_eq!(vk_to_key(0xA0), Some(Key::ShiftLeft));
    assert_eq!(vk_to_key(0x41), None);
}

#[test]
fn combination_renders_joined_names() {
    assert_eq!(combination_to_string(&vec![]), "Press keys...");
    assert_eq!(combination_to_string(&vec![Key::F6]), "F6");
    assert_eq!(
        combination_to_string(&vec![Key::ShiftLeft, Key::F2]),
        "LeftShift + F2"
    );
    assert_eq!(
        combination_to_string(&vec![Key::ControlLeft, Key::Alt, Key::Delete]),
        "LeftCtrl + Alt + Delete"
    );
}
