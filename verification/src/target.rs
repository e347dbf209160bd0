//! Targeted delivery: resolving the configured window title against the
//! current window snapshot, and planning the messages posted directly to a
//! window. The process around the library enumerates the actual windows and
//! posts the planned messages; every decision in between is proved here.

use vstd::prelude::*;
use crate::config::ClickType;

verus! {

/// One visible top-level window: its opaque handle and its title.
pub struct WindowEntry {
    pub handle: u64,
    pub title: String,
}

/// Whether two strings hold the same characters.
pub fn str_eq(a: &str, b: &str) -> (r: bool)
    ensures
        r == (a@ == b@),
{
    let na = a.unicode_len();
    let nb = b.unicode_len();
    if na != nb {
        return false;
    }
    let mut i: usize = 0;
    while i < na
        invariant
            na == a@.len(),
            na == b@.len(),
            0 <= i <= na,
            forall|j: int| 0 <= j < i ==> a@[j] == b@[j],
        decreases na - i,
    {
        if a.get_char(i) != b.get_char(i) {
            return false;
        }
        i = i + 1;
    }
    proof {
        assert(a@ =~= b@);
    }
    true
}

/// Whether a window belongs in the directory snapshot: it must be visible,
/// titled, and not the desktop shell window.
pub fn should_list_window(visible: bool, title: &str) -> (r: bool)
    ensures
        r == (visible && title@.len() > 0 && title@ != "Program Manager"@),
{
    visible && title.unicode_len() > 0 && !str_eq(title, "Program Manager")
}

/// The handle of the first window in the snapshot whose title equals the
/// sought one, if any.
pub open spec fn spec_resolve(ws: Seq<WindowEntry>, title: Seq<char>) -> Option<u64>
    decreases ws.len(),
{
    if ws.len() == 0 {
        None
    } else if ws[0].title@ == title {
        Some(ws[0].handle)
    } else {
        spec_resolve(ws.drop_first(), title)
    }
}

/// Resolution fails exactly when no window in the snapshot bears the title.
pub proof fn lemma_resolve_none(ws: Seq<WindowEntry>, title: Seq<char>)
    ensures
        (spec_resolve(ws, title) is None) <==> (forall|i: int|
            0 <= i < ws.len() ==> ws[i].title@ != title),
    decreases ws.len(),
{
    if ws.len() > 0 {
        lemma_resolve_none(ws.drop_first(), title);
        if spec_resolve(ws, title) is None {
            assert forall|i: int| 0 <= i < ws.len() implies ws[i].title@ != title by {
                if i > 0 {
                    assert(ws.drop_first()[i - 1] == ws[i]);
                }
            }
        }
        if forall|i: int| 0 <= i < ws.len() ==> #[trigger] ws[i].title@ != title {
            assert forall|j: int| 0 <= j < ws.drop_first().len() implies ws.drop_first()[j].title@
                != title by {
                assert(ws.drop_first()[j] == ws[j + 1]);
            }
            assert(spec_resolve(ws, title) is None);
        }
    }
}

/// Looks the title up in the snapshot, returning the handle of the first
/// window bearing it. Titles are not unique and handles are not stable, so
/// this runs again before every delivery.
pub fn resolve_target(windows: &Vec<WindowEntry>, title: &str) -> (r: Option<u64>)
    ensures
        r == spec_resolve(windows@, title@),
{
    let ghost all = windows@;
    proof {
        assert(all.skip(0) =~= all);
    }
    let mut i: usize = 0;
    while i < windows.len()
        invariant
            0 <= i <= all.len(),
            all == windows@,
            spec_resolve(all, title@) == spec_resolve(all.skip(i as int), title@),
        decreases all.len() - i,
    {
        proof {
            assert(all.skip(i as int)[0] == all[i as int]);
            assert(all.skip(i as int).drop_first() =~= all.skip(i + 1 as int));
        }
        if str_eq(windows[i].title.as_str(), title) {
            return Some(windows[i].handle);
        }
        i = i + 1;
    }
    proof {
        assert(all.skip(all.len() as int) =~= Seq::<WindowEntry>::empty());
    }
    None
}

/// Where an action goes: the global input stream, one window, or nowhere.
#[derive(Clone, Copy, Debug, PartialEq, Eq, Structural)]
pub enum Delivery {
    /// No target is configured: deliver to the OS-wide input stream.
    Global,
    /// The target resolved to this handle: post directly to it.
    ToWindow(u64),
    /// A target is configured but no window bears the title: deliver nothing.
    Skip,
}

/// Picks the delivery path for the configured target. A configured title
/// that no longer resolves yields `Skip` — the action is silently dropped,
/// never an error and never a stray global event.
pub fn plan_delivery(windows: &Vec<WindowEntry>, target: &Option<String>) -> (d: Delivery)
    ensures
        match target {
            Option::None => d == Delivery::Global,
            Option::Some(t) => d == match spec_resolve(windows@, t@) {
                Option::Some(h) => Delivery::ToWindow(h),
                Option::None => Delivery::Skip,
            },
        },
{
    match target {
        Option::None => Delivery::Global,
        Option::Some(t) => {
            match resolve_target(windows, t.as_str()) {
                Option::Some(h) => Delivery::ToWindow(h),
                Option::None => Delivery::Skip,
            }
        },
    }
}

/// The center of a client rectangle, the point a posted mouse message
/// carries. Client rectangles start at the origin, so the coordinates are
/// never negative.
pub fn client_center(left: i32, top: i32, right: i32, bottom: i32) -> (c: (i32, i32))
    requires
        0 <= left,
        0 <= top,
        0 <= right,
        0 <= bottom,
        left + right <= i32::MAX,
        top + bottom <= i32::MAX,
    ensures
        c.0 == (left + right) / 2,
        c.1 == (top + bottom) / 2,
        0 <= c.0,
        0 <= c.1,
{
    let cx = ((left as u32 + right as u32) / 2) as i32;
    let cy = ((top as u32 + bottom as u32) / 2) as i32;
    (cx, cy)
}

/// A mouse message's coordinate word: the y coordinate in the high half, the
/// x coordinate in the low half.
pub open spec fn packed_point(x: i32, y: i32) -> u32 {
    ((y as u32) << 16) | (x as u32)
}

/// Packs a client-area point into a message's coordinate word. For points
/// within the halves' ranges both coordinates are recoverable, so no click
/// lands elsewhere than planned.
pub fn pack_client_point(x: i32, y: i32) -> (r: u32)
    requires
        0 <= x,
        0 <= y,
    ensures
        r == packed_point(x, y),
        x <= 0xFFFF && y <= 0xFFFF ==> r >> 16 == y as u32 && (r & 0xFFFF) == x as u32,
{
    let xu: u32 = x as u32;
    let yu: u32 = y as u32;
    proof {
        assert(xu <= 0xFFFF && yu <= 0xFFFF ==> ((yu << 16) | xu) >> 16 == yu && (((yu << 16)
            | xu) & 0xFFFF) == xu) by (bit_vector);
    }
    (yu << 16) | xu
}

/// The kinds of message a targeted delivery posts; the process around the
/// library maps each to the matching window-message code.
#[derive(Clone, Copy, Debug, PartialEq, Eq, Structural)]
pub enum PostMsg {
    MouseLeftDown,
    MouseLeftUp,
    MouseRightDown,
    MouseRightUp,
    KeyDown,
    KeyUp,
}

/// One message to post to the target window.
#[derive(Clone, Copy, Debug, PartialEq, Eq, Structural)]
pub struct WindowPost {
    pub msg: PostMsg,
    pub wparam: u64,
    pub lparam: u64,
}

/// The down-message for an action kind at a client-area point: mouse downs
/// carry the pressed-button flag and the packed point, the space key carries
/// its virtual-key code.
pub fn press_post(kind: ClickType, cx: i32, cy: i32) -> (p: WindowPost)
    requires
        0 <= cx,
        0 <= cy,
    ensures
        kind == ClickType::LeftClick ==> p == (WindowPost {
            msg: PostMsg::MouseLeftDown,
            wparam: 1,
            lparam: packed_point(cx, cy) as u64,
        }),
        kind == ClickType::RightClick ==> p == (WindowPost {
            msg: PostMsg::MouseRightDown,
            wparam: 1,
            lparam: packed_point(cx, cy) as u64,
        }),
        kind == ClickType::Space ==> p == (WindowPost { msg: PostMsg::KeyDown, wparam: 0x20, lparam: 0 }),
{
    match kind {
        ClickType::LeftClick => WindowPost {
            msg: PostMsg::MouseLeftDown,
            wparam: 1,
            lparam: pack_client_point(cx, cy) as u64,
        },
        ClickType::RightClick => WindowPost {
            msg: PostMsg::MouseRightDown,
            wparam: 1,
            lparam: pack_client_point(cx, cy) as u64,
        },
        ClickType::Space => WindowPost { msg: PostMsg::KeyDown, wparam: 0x20, lparam: 0 },
    }
}

/// The up-message matching [`press_post`]: mouse ups carry a clear button
/// flag and the same packed point, the space key its virtual-key code.
pub fn release_post(kind: ClickType, cx: i32, cy: i32) -> (p: WindowPost)
    requires
        0 <= cx,
        0 <= cy,
    ensures
        kind == ClickType::LeftClick ==> p == (WindowPost {
            msg: PostMsg::MouseLeftUp,
            wparam: 0,
            lparam: packed_point(cx, cy) as u64,
        }),
        kind == ClickType::RightClick ==> p == (WindowPost {
            msg: PostMsg::MouseRightUp,
            wparam: 0,
            lparam: packed_point(cx, cy) as u64,
        }),
        kind == ClickType::Space ==> p == (WindowPost { msg: PostMsg::KeyUp, wparam: 0x20, lparam: 0 }),
{
    match kind {
        ClickType::LeftClick => WindowPost {
            msg: PostMsg::MouseLeftUp,
            wparam: 0,
            lparam: pack_client_point(cx, cy) as u64,
        },
        ClickType::RightClick => WindowPost {
            msg: PostMsg::MouseRightUp,
            wparam: 0,
            lparam: pack_client_point(cx, cy) as u64,
        },
        ClickType::Space => WindowPost { msg: PostMsg::KeyUp, wparam: 0x20, lparam: 0 },
    }
}

} // verus!
