//! Hotkey recognition: toggling the active flag on a matching key press, and
//! the capture session through which the user records a new combination.

use vstd::prelude::*;
use crate::keys::Key;

verus! {

/// Whether a pressed key satisfies the configured combination. A single-key
/// hotkey is satisfied only by its member; a larger combination is satisfied
/// by a press of any member — the loose match the global listener applies,
/// kept as the original application behaves. For a single key the two rules
/// coincide, so membership states both.
pub open spec fn hotkey_matches(hotkey: Seq<Key>, key: Key) -> bool {
    hotkey.contains(key)
}

/// Whether `keys` has `key` as a member.
pub fn keys_contain(keys: &Vec<Key>, key: Key) -> (r: bool)
    ensures
        r == keys@.contains(key),
{
    let mut i: usize = 0;
    while i < keys.len()
        invariant
            0 <= i <= keys@.len(),
            forall|j: int| 0 <= j < i ==> keys@[j] != key,
        decreases keys@.len() - i,
    {
        if keys[i] == key {
            return true;
        }
        i = i + 1;
    }
    false
}

/// Copies a key list.
fn clone_keys(keys: &Vec<Key>) -> (r: Vec<Key>)
    ensures
        r@ == keys@,
{
    let mut r: Vec<Key> = Vec::new();
    let mut i: usize = 0;
    while i < keys.len()
        invariant
            0 <= i <= keys@.len(),
            r@ == keys@.take(i as int),
        decreases keys@.len() - i,
    {
        r.push(keys[i]);
        proof {
            assert(r@ =~= keys@.take(i + 1 as int));
        }
        i = i + 1;
    }
    proof {
        assert(keys@.take(keys@.len() as int) =~= keys@);
    }
    r
}

/// Appends `key` unless it is already a member; the capture session builds
/// the set of currently-down keys with this.
pub fn push_unique(keys: &mut Vec<Key>, key: Key)
    ensures
        final(keys)@ == if old(keys)@.contains(key) {
            old(keys)@
        } else {
            old(keys)@.push(key)
        },
{
    if !keys_contain(keys, key) {
        keys.push(key);
    }
}

/// The new value of the active flag after a key press: toggled exactly when
/// the press satisfies the configured combination, unchanged otherwise. An
/// unrelated key never changes it.
pub fn toggle_on_key_press(hotkey: &Vec<Key>, active: bool, key: Key) -> (r: bool)
    ensures
        r == if hotkey_matches(hotkey@, key) {
            !active
        } else {
            active
        },
{
    if hotkey.len() == 1 {
        if hotkey[0] == key {
            !active
        } else {
            proof {
                assert(forall|j: int| 0 <= j < hotkey@.len() ==> hotkey@[j] != key);
            }
            active
        }
    } else if hotkey.len() > 1 {
        if keys_contain(hotkey, key) {
            !active
        } else {
            active
        }
    } else {
        active
    }
}

/// The hotkey recognizer's shared state: the committed combination, whether a
/// capture session is running, and the partial selection the session shows.
pub struct HotkeyState {
    pub hotkey: Vec<Key>,
    pub capturing: bool,
    pub current: Vec<Key>,
}

impl HotkeyState {
    /// The committed combination is never empty.
    pub open spec fn wf(self) -> bool {
        self.hotkey@.len() >= 1
    }

    /// Builds the recognizer state from the keys a saved configuration named;
    /// an empty list falls back to the single default key F6.
    pub fn from_saved(keys: Vec<Key>) -> (s: Self)
        ensures
            s.hotkey@ == if keys@.len() == 0 {
                seq![Key::F6]
            } else {
                keys@
            },
            !s.capturing,
            s.current@.len() == 0,
            s.wf(),
    {
        let hotkey = if keys.len() == 0 {
            let v = vec![Key::F6];
            proof {
                assert(v@ =~= seq![Key::F6]);
            }
            v
        } else {
            keys
        };
        HotkeyState { hotkey, capturing: false, current: Vec::new() }
    }

    /// Starts a capture session with an empty partial selection. The
    /// committed combination stands until the session commits a new one.
    pub fn begin_capture(&mut self)
        ensures
            final(self).hotkey == old(self).hotkey,
            final(self).capturing,
            final(self).current@.len() == 0,
            old(self).wf() ==> final(self).wf(),
    {
        self.capturing = true;
        self.current = Vec::new();
    }

    /// Ends a capture session without committing: the partial selection is
    /// discarded and the previous combination stands.
    pub fn cancel_capture(&mut self)
        ensures
            final(self).hotkey == old(self).hotkey,
            !final(self).capturing,
            final(self).current@.len() == 0,
            old(self).wf() ==> final(self).wf(),
    {
        self.capturing = false;
        self.current = Vec::new();
    }

    /// One frame of a capture session. `down` is the set of currently-down
    /// recognized keys this frame, `released` the first recognized key whose
    /// release was observed, if any. Two or more keys down commit immediately
    /// as a combination; otherwise an observed release commits that single
    /// key; otherwise the session keeps tracking and shows `down` as the
    /// partial selection. Outside a session the frame changes nothing.
    pub fn capture_frame(&mut self, down: &Vec<Key>, released: Option<Key>) -> (committed: bool)
        requires
            old(self).wf(),
        ensures
            final(self).wf(),
            !old(self).capturing ==> *final(self) == *old(self) && !committed,
            old(self).capturing && down@.len() >= 2 ==> committed && !final(self).capturing
                && final(self).hotkey@ == down@ && final(self).current@.len() == 0,
            old(self).capturing && down@.len() < 2 ==> match released {
                Some(k) => committed && !final(self).capturing && final(self).hotkey@ == seq![k]
                    && final(self).current@.len() == 0,
                None => !committed && final(self).capturing && final(self).hotkey == old(
                    self,
                ).hotkey && final(self).current@ == down@,
            },
    {
        if !self.capturing {
            return false;
        }
        if down.len() >= 2 {
            self.hotkey = clone_keys(down);
            self.capturing = false;
            self.current = Vec::new();
            true
        } else {
            match released {
                Some(k) => {
                    let v = vec![k];
                    proof {
                        assert(v@ =~= seq![k]);
                    }
                    self.hotkey = v;
                    self.capturing = false;
                    self.current = Vec::new();
                    true
                },
                None => {
                    self.current = clone_keys(down);
                    false
                },
            }
        }
    }
}

} // verus!
