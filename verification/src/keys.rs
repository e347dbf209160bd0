//! The keys the application recognizes, with one bidirectional lookup between
//! keys and their names. The same name is used in the persisted configuration
//! and in the UI, so a saved hotkey always loads back as the same key.

use vstd::prelude::*;

verus! {

/// A key the hotkey recognizer can work with.
#[derive(Clone, Copy, Debug, PartialEq, Eq, Structural)]
pub enum Key {
    F1,
    F2,
    F3,
    F4,
    F5,
    F6,
    F7,
    F8,
    F9,
    F10,
    F11,
    F12,
    Home,
    End,
    PageUp,
    PageDown,
    Insert,
    Delete,
    UpArrow,
    DownArrow,
    LeftArrow,
    RightArrow,
    Space,
    Return,
    Escape,
    Tab,
    Backspace,
    CapsLock,
    ShiftLeft,
    ShiftRight,
    ControlLeft,
    ControlRight,
    Alt,
    AltGr,
}

/// The key a Windows virtual-key code stands for, where one is recognized.
pub open spec fn spec_key_of_vk(vk: u32) -> Option<Key> {
    if vk == 0x70 { Some(Key::F1) }
    else if vk == 0x71 { Some(Key::F2) }
    else if vk == 0x72 { Some(Key::F3) }
    else if vk == 0x73 { Some(Key::F4) }
    else if vk == 0x74 { Some(Key::F5) }
    else if vk == 0x75 { Some(Key::F6) }
    else if vk == 0x76 { Some(Key::F7) }
    else if vk == 0x77 { Some(Key::F8) }
    else if vk == 0x78 { Some(Key::F9) }
    else if vk == 0x79 { Some(Key::F10) }
    else if vk == 0x7A { Some(Key::F11) }
    else if vk == 0x7B { Some(Key::F12) }
    else if vk == 0x20 { Some(Key::Space) }
    else if vk == 0x0D { Some(Key::Return) }
    else if vk == 0x1B { Some(Key::Escape) }
    else if vk == 0x09 { Some(Key::Tab) }
    else if vk == 0x14 { Some(Key::CapsLock) }
    else if vk == 0xA0 { Some(Key::ShiftLeft) }
    else if vk == 0xA1 { Some(Key::ShiftRight) }
    else if vk == 0xA2 { Some(Key::ControlLeft) }
    else if vk == 0xA3 { Some(Key::ControlRight) }
    else if vk == 0x12 { Some(Key::Alt) }
    else if vk == 0xA5 { Some(Key::AltGr) }
    else { None }
}

/// Translates a Windows virtual-key code to the key it stands for.
pub fn vk_to_key(vk: u32) -> (r: Option<Key>)
    ensures
        r == spec_key_of_vk(vk),
{
    match vk {
        0x70 => Some(Key::F1),
        0x71 => Some(Key::F2),
        0x72 => Some(Key::F3),
        0x73 => Some(Key::F4),
        0x74 => Some(Key::F5),
        0x75 => Some(Key::F6),
        0x76 => Some(Key::F7),
        0x77 => Some(Key::F8),
        0x78 => Some(Key::F9),
        0x79 => Some(Key::F10),
        0x7A => Some(Key::F11),
        0x7B => Some(Key::F12),
        0x20 => Some(Key::Space),
        0x0D => Some(Key::Return),
        0x1B => Some(Key::Escape),
        0x09 => Some(Key::Tab),
        0x14 => Some(Key::CapsLock),
        0xA0 => Some(Key::ShiftLeft),
        0xA1 => Some(Key::ShiftRight),
        0xA2 => Some(Key::ControlLeft),
        0xA3 => Some(Key::ControlRight),
        0x12 => Some(Key::Alt),
        0xA5 => Some(Key::AltGr),
        _ => None,
    }
}

/// The one name of each key, used both in the persisted configuration and in
/// the UI, so that what is saved is what loads back.
pub open spec fn spec_key_name(k: Key) -> Seq<char> {
    match k {
        Key::F1 => "F1"@,
        Key::F2 => "F2"@,
        Key::F3 => "F3"@,
        Key::F4 => "F4"@,
        Key::F5 => "F5"@,
        Key::F6 => "F6"@,
        Key::F7 => "F7"@,
        Key::F8 => "F8"@,
        Key::F9 => "F9"@,
        Key::F10 => "F10"@,
        Key::F11 => "F11"@,
        Key::F12 => "F12"@,
        Key::Home => "Home"@,
        Key::End => "End"@,
        Key::PageUp => "PageUp"@,
        Key::PageDown => "PageDown"@,
        Key::Insert => "Insert"@,
        Key::Delete => "Delete"@,
        Key::UpArrow => "Up"@,
        Key::DownArrow => "Down"@,
        Key::LeftArrow => "Left"@,
        Key::RightArrow => "Right"@,
        Key::Space => "Space"@,
        Key::Return => "Enter"@,
        Key::Escape => "Escape"@,
        Key::Tab => "Tab"@,
        Key::Backspace => "Backspace"@,
        Key::CapsLock => "CapsLock"@,
        Key::ShiftLeft => "LeftShift"@,
        Key::ShiftRight => "RightShift"@,
        Key::ControlLeft => "LeftCtrl"@,
        Key::ControlRight => "RightCtrl"@,
        Key::Alt => "Alt"@,
        Key::AltGr => "AltGr"@,
    }
}

/// The name of a key.
pub fn key_name(k: Key) -> (r: &'static str)
    ensures
        r@ == spec_key_name(k),
{
    match k {
        Key::F1 => "F1",
        Key::F2 => "F2",
        Key::F3 => "F3",
        Key::F4 => "F4",
        Key::F5 => "F5",
        Key::F6 => "F6",
        Key::F7 => "F7",
        Key::F8 => "F8",
        Key::F9 => "F9",
        Key::F10 => "F10",
        Key::F11 => "F11",
        Key::F12 => "F12",
        Key::Home => "Home",
        Key::End => "End",
        Key::PageUp => "PageUp",
        Key::PageDown => "PageDown",
        Key::Insert => "Insert",
        Key::Delete => "Delete",
        Key::UpArrow => "Up",
        Key::DownArrow => "Down",
        Key::LeftArrow => "Left",
        Key::RightArrow => "Right",
        Key::Space => "Space",
        Key::Return => "Enter",
        Key::Escape => "Escape",
        Key::Tab => "Tab",
        Key::Backspace => "Backspace",
        Key::CapsLock => "CapsLock",
        Key::ShiftLeft => "LeftShift",
        Key::ShiftRight => "RightShift",
        Key::ControlLeft => "LeftCtrl",
        Key::ControlRight => "RightCtrl",
        Key::Alt => "Alt",
        Key::AltGr => "AltGr",
    }
}

/// The key a name stands for: the exact inverse of [`spec_key_name`].
pub open spec fn spec_key_from_name(s: Seq<char>) -> Option<Key> {
    if s == "F1"@ { Some(Key::F1) }
    else if s == "F2"@ { Some(Key::F2) }
    else if s == "F3"@ { Some(Key::F3) }
    else if s == "F4"@ { Some(Key::F4) }
    else if s == "F5"@ { Some(Key::F5) }
    else if s == "F6"@ { Some(Key::F6) }
    else if s == "F7"@ { Some(Key::F7) }
    else if s == "F8"@ { Some(Key::F8) }
    else if s == "F9"@ { Some(Key::F9) }
    else if s == "F10"@ { Some(Key::F10) }
    else if s == "F11"@ { Some(Key::F11) }
    else if s == "F12"@ { Some(Key::F12) }
    else if s == "Home"@ { Some(Key::Home) }
    else if s == "End"@ { Some(Key::End) }
    else if s == "PageUp"@ { Some(Key::PageUp) }
    else if s == "PageDown"@ { Some(Key::PageDown) }
    else if s == "Insert"@ { Some(Key::Insert) }
    else if s == "Delete"@ { Some(Key::Delete) }
    else if s == "Up"@ { Some(Key::UpArrow) }
    else if s == "Down"@ { Some(Key::DownArrow) }
    else if s == "Left"@ { Some(Key::LeftArrow) }
    else if s == "Right"@ { Some(Key::RightArrow) }
    else if s == "Space"@ { Some(Key::Space) }
    else if s == "Enter"@ { Some(Key::Return) }
    else if s == "Escape"@ { Some(Key::Escape) }
    else if s == "Tab"@ { Some(Key::Tab) }
    else if s == "Backspace"@ { Some(Key::Backspace) }
    else if s == "CapsLock"@ { Some(Key::CapsLock) }
    else if s == "LeftShift"@ { Some(Key::ShiftLeft) }
    else if s == "RightShift"@ { Some(Key::ShiftRight) }
    else if s == "LeftCtrl"@ { Some(Key::ControlLeft) }
    else if s == "RightCtrl"@ { Some(Key::ControlRight) }
    else if s == "Alt"@ { Some(Key::Alt) }
    else if s == "AltGr"@ { Some(Key::AltGr) }
    else { None }
}

/// Looks a name up, returning the key it stands for.
pub fn key_from_name(s: &str) -> (r: Option<Key>)
    ensures
        r == spec_key_from_name(s@),
{
    if crate::target::str_eq(s, "F1") { Some(Key::F1) }
    else if crate::target::str_eq(s, "F2") { Some(Key::F2) }
    else if crate::target::str_eq(s, "F3") { Some(Key::F3) }
    else if crate::target::str_eq(s, "F4") { Some(Key::F4) }
    else if crate::target::str_eq(s, "F5") { Some(Key::F5) }
    else if crate::target::str_eq(s, "F6") { Some(Key::F6) }
    else if crate::target::str_eq(s, "F7") { Some(Key::F7) }
    else if crate::target::str_eq(s, "F8") { Some(Key::F8) }
    else if crate::target::str_eq(s, "F9") { Some(Key::F9) }
    else if crate::target::str_eq(s, "F10") { Some(Key::F10) }
    else if crate::target::str_eq(s, "F11") { Some(Key::F11) }
    else if crate::target::str_eq(s, "F12") { Some(Key::F12) }
    else if crate::target::str_eq(s, "Home") { Some(Key::Home) }
    else if crate::target::str_eq(s, "End") { Some(Key::End) }
    else if crate::target::str_eq(s, "PageUp") { Some(Key::PageUp) }
    else if crate::target::str_eq(s, "PageDown") { Some(Key::PageDown) }
    else if crate::target::str_eq(s, "Insert") { Some(Key::Insert) }
    else if crate::target::str_eq(s, "Delete") { Some(Key::Delete) }
    else if crate::target::str_eq(s, "Up") { Some(Key::UpArrow) }
    else if crate::target::str_eq(s, "Down") { Some(Key::DownArrow) }
    else if crate::target::str_eq(s, "Left") { Some(Key::LeftArrow) }
    else if crate::target::str_eq(s, "Right") { Some(Key::RightArrow) }
    else if crate::target::str_eq(s, "Space") { Some(Key::Space) }
    else if crate::target::str_eq(s, "Enter") { Some(Key::Return) }
    else if crate::target::str_eq(s, "Escape") { Some(Key::Escape) }
    else if crate::target::str_eq(s, "Tab") { Some(Key::Tab) }
    else if crate::target::str_eq(s, "Backspace") { Some(Key::Backspace) }
    else if crate::target::str_eq(s, "CapsLock") { Some(Key::CapsLock) }
    else if crate::target::str_eq(s, "LeftShift") { Some(Key::ShiftLeft) }
    else if crate::target::str_eq(s, "RightShift") { Some(Key::ShiftRight) }
    else if crate::target::str_eq(s, "LeftCtrl") { Some(Key::ControlLeft) }
    else if crate::target::str_eq(s, "RightCtrl") { Some(Key::ControlRight) }
    else if crate::target::str_eq(s, "Alt") { Some(Key::Alt) }
    else if crate::target::str_eq(s, "AltGr") { Some(Key::AltGr) }
    else { None }
}

/// The lookup is bidirectional: every key's name resolves back to that key,
/// so a saved hotkey always loads as the combination that was saved.
pub proof fn lemma_key_name_round_trip(k: Key)
    ensures
        spec_key_from_name(spec_key_name(k)) == Some(k),
{
    reveal_strlit("F1");
    reveal_strlit("F2");
    reveal_strlit("F3");
    reveal_strlit("F4");
    reveal_strlit("F5");
    reveal_strlit("F6");
    reveal_strlit("F7");
    reveal_strlit("F8");
    reveal_strlit("F9");
    reveal_strlit("F10");
    reveal_strlit("F11");
    reveal_strlit("F12");
    reveal_strlit("Home");
    reveal_strlit("End");
    reveal_strlit("PageUp");
    reveal_strlit("PageDown");
    reveal_strlit("Insert");
    reveal_strlit("Delete");
    reveal_strlit("Up");
    reveal_strlit("Down");
    reveal_strlit("Left");
    reveal_strlit("Right");
    reveal_strlit("Space");
    reveal_strlit("Enter");
    reveal_strlit("Escape");
    reveal_strlit("Tab");
    reveal_strlit("Backspace");
    reveal_strlit("CapsLock");
    reveal_strlit("LeftShift");
    reveal_strlit("RightShift");
    reveal_strlit("LeftCtrl");
    reveal_strlit("RightCtrl");
    reveal_strlit("Alt");
    reveal_strlit("AltGr");
    // Seed the solver with each name's distinguishing characters, so it can
    // refute every equality between distinct names along the lookup chain.
    assert("F1"@.len() == 2 && "F2"@.len() == 2 && "F3"@.len() == 2 && "F4"@.len() == 2
        && "F5"@.len() == 2 && "F6"@.len() == 2 && "F7"@.len() == 2 && "F8"@.len() == 2
        && "F9"@.len() == 2 && "Up"@.len() == 2);
    assert("F10"@.len() == 3 && "F11"@.len() == 3 && "F12"@.len() == 3 && "End"@.len() == 3
        && "Tab"@.len() == 3 && "Alt"@.len() == 3);
    assert("Home"@.len() == 4 && "Down"@.len() == 4 && "Left"@.len() == 4);
    assert("Right"@.len() == 5 && "Space"@.len() == 5 && "Enter"@.len() == 5 && "AltGr"@.len()
        == 5);
    assert("PageUp"@.len() == 6 && "Escape"@.len() == 6 && "Insert"@.len() == 6
        && "Delete"@.len() == 6);
    assert("PageDown"@.len() == 8 && "CapsLock"@.len() == 8 && "LeftCtrl"@.len() == 8);
    assert("Backspace"@.len() == 9 && "LeftShift"@.len() == 9 && "RightCtrl"@.len() == 9);
    assert("RightShift"@.len() == 10);
    assert("F1"@[0] == 'F' && "F1"@[1] == '1');
    assert("F2"@[0] == 'F' && "F2"@[1] == '2');
    assert("F3"@[0] == 'F' && "F3"@[1] == '3');
    assert("F4"@[0] == 'F' && "F4"@[1] == '4');
    assert("F5"@[0] == 'F' && "F5"@[1] == '5');
    assert("F6"@[0] == 'F' && "F6"@[1] == '6');
    assert("F7"@[0] == 'F' && "F7"@[1] == '7');
    assert("F8"@[0] == 'F' && "F8"@[1] == '8');
    assert("F9"@[0] == 'F' && "F9"@[1] == '9');
    assert("Up"@[0] == 'U');
    assert("F10"@[0] == 'F' && "F10"@[2] == '0');
    assert("F11"@[0] == 'F' && "F11"@[2] == '1');
    assert("F12"@[0] == 'F' && "F12"@[2] == '2');
    assert("End"@[0] == 'E');
    assert("Tab"@[0] == 'T');
    assert("Alt"@[0] == 'A');
    assert("Home"@[0] == 'H');
    assert("Down"@[0] == 'D');
    assert("Left"@[0] == 'L');
    assert("Right"@[0] == 'R');
    assert("Space"@[0] == 'S');
    assert("Enter"@[0] == 'E');
    assert("AltGr"@[0] == 'A');
    assert("PageUp"@[0] == 'P' && "PageUp"@[4] == 'U');
    assert("Escape"@[0] == 'E');
    assert("Insert"@[0] == 'I');
    assert("Delete"@[0] == 'D');
    assert("PageDown"@[0] == 'P' && "PageDown"@[4] == 'D');
    assert("CapsLock"@[0] == 'C');
    assert("LeftCtrl"@[0] == 'L');
    assert("Backspace"@[0] == 'B');
    assert("LeftShift"@[0] == 'L' && "LeftShift"@[4] == 'S');
    assert("RightCtrl"@[0] == 'R');
    assert("RightShift"@[0] == 'R');
    match k {
        Key::F1 => assert(spec_key_from_name(spec_key_name(k)) == Some(k)),
        Key::F2 => assert(spec_key_from_name(spec_key_name(k)) == Some(k)),
        Key::F3 => assert(spec_key_from_name(spec_key_name(k)) == Some(k)),
        Key::F4 => assert(spec_key_from_name(spec_key_name(k)) == Some(k)),
        Key::F5 => assert(spec_key_from_name(spec_key_name(k)) == Some(k)),
        Key::F6 => assert(spec_key_from_name(spec_key_name(k)) == Some(k)),
        Key::F7 => assert(spec_key_from_name(spec_key_name(k)) == Some(k)),
        Key::F8 => assert(spec_key_from_name(spec_key_name(k)) == Some(k)),
        Key::F9 => assert(spec_key_from_name(spec_key_name(k)) == Some(k)),
        Key::F10 => assert(spec_key_from_name(spec_key_name(k)) == Some(k)),
        Key::F11 => assert(spec_key_from_name(spec_key_name(k)) == Some(k)),
        Key::F12 => assert(spec_key_from_name(spec_key_name(k)) == Some(k)),
        Key::Home => assert(spec_key_from_name(spec_key_name(k)) == Some(k)),
        Key::End => assert(spec_key_from_name(spec_key_name(k)) == Some(k)),
        Key::PageUp => assert(spec_key_from_name(spec_key_name(k)) == Some(k)),
        Key::PageDown => assert(spec_key_from_name(spec_key_name(k)) == Some(k)),
        Key::Insert => assert(spec_key_from_name(spec_key_name(k)) == Some(k)),
        Key::Delete => assert(spec_key_from_name(spec_key_name(k)) == Some(k)),
        Key::UpArrow => assert(spec_key_from_name(spec_key_name(k)) == Some(k)),
        Key::DownArrow => assert(spec_key_from_name(spec_key_name(k)) == Some(k)),
        Key::LeftArrow => assert(spec_key_from_name(spec_key_name(k)) == Some(k)),
        Key::RightArrow => assert(spec_key_from_name(spec_key_name(k)) == Some(k)),
        Key::Space => assert(spec_key_from_name(spec_key_name(k)) == Some(k)),
        Key::Return => assert(spec_key_from_name(spec_key_name(k)) == Some(k)),
        Key::Escape => assert(spec_key_from_name(spec_key_name(k)) == Some(k)),
        Key::Tab => assert(spec_key_from_name(spec_key_name(k)) == Some(k)),
        Key::Backspace => assert(spec_key_from_name(spec_key_name(k)) == Some(k)),
        Key::CapsLock => assert(spec_key_from_name(spec_key_name(k)) == Some(k)),
        Key::ShiftLeft => assert(spec_key_from_name(spec_key_name(k)) == Some(k)),
        Key::ShiftRight => assert(spec_key_from_name(spec_key_name(k)) == Some(k)),
        Key::ControlLeft => assert(spec_key_from_name(spec_key_name(k)) == Some(k)),
        Key::ControlRight => assert(spec_key_from_name(spec_key_name(k)) == Some(k)),
        Key::Alt => assert(spec_key_from_name(spec_key_name(k)) == Some(k)),
        Key::AltGr => assert(spec_key_from_name(spec_key_name(k)) == Some(k)),
    }
}

/// A combination shown to the user: the member names joined by " + " for the
/// first `n` members.
pub open spec fn spec_joined_names(keys: Seq<Key>, n: int) -> Seq<char>
    decreases n,
{
    if n <= 0 {
        Seq::empty()
    } else if n == 1 {
        spec_key_name(keys[0])
    } else {
        spec_joined_names(keys, n - 1) + " + "@ + spec_key_name(keys[n - 1])
    }
}

/// What the hotkey button shows: the joined member names, or a prompt while
/// the combination is still empty during capture.
pub open spec fn spec_combination_string(keys: Seq<Key>) -> Seq<char> {
    if keys.len() == 0 {
        "Press keys..."@
    } else {
        spec_joined_names(keys, keys.len() as int)
    }
}

/// Renders a combination for display: member names joined by " + ", or the
/// capture prompt for an empty one.
pub fn combination_to_string(keys: &Vec<Key>) -> (r: String)
    ensures
        r@ == spec_combination_string(keys@),
{
    if keys.len() == 0 {
        return String::from_str("Press keys...");
    }
    let mut out = String::from_str(key_name(keys[0]));
    let mut i: usize = 1;
    while i < keys.len()
        invariant
            1 <= i <= keys@.len(),
            out@ == spec_joined_names(keys@, i as int),
        decreases keys@.len() - i,
    {
        out.append(" + ");
        out.append(key_name(keys[i]));
        i = i + 1;
    }
    out
}

} // verus!
