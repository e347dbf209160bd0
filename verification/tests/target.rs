use pylade_clicker::config::ClickType;
use pylade_clicker::target::{
    client_center, pack_client_point, plan_delivery, press_post, release_post, resolve_target,
    should_list_window, str_eq, Delivery, PostMsg, WindowEntry, WindowPost,
};

fn snapshot() -> Vec<WindowEntry> {
    vec![
        WindowEntry { handle: 11, title: String::from("Notepad") },
        WindowEntry { handle: 22, title: String::from("Game") },
        WindowEntry { handle: 33, title: String::from("Game") },
    ]
}

#[test]
fn resolve_returns_first_matching_handle() {
    let ws = snapshot();
    assert_eq!(resolve_target(&ws, "Notepad"), Some(11));
    assert_eq!(resolve_target(&ws, "Game"), Some(22));
}

#[test]
fn resolve_missing_title_is_none() {
    let ws = snapshot();
    assert_eq!(resolve_target(&ws, "Gone"), None);
    assert_eq!(resolve_target(&Vec::new(), "Notepad"), None);
}

#[test]
fn no_target_delivers_globally() {
    let ws = snapshot();
    assert_eq!(plan_delivery(&ws, &None), Delivery::Global);
}

#[test]
fn missing_target_is_a_silent_no_op() {
    // A configured title absent from the snapshot: the action is dropped,
    // with no global event and no error.
    let ws = snapshot();
    let target = Some(String::from("Closed Window"));
    assert_eq!(plan_delivery(&ws, &target), Delivery::Skip);
    assert_eq!(plan_delivery(&Vec::new(), &target), Delivery::Skip);
}

#[test]
fn present_target_delivers_to_its_window() {
    let ws = snapshot();
    let target = Some(String::from("Game"));
    assert_eq!(plan_delivery(&ws, &target), Delivery::ToWindow(22));
}

#[test]
fn client_center_is_rect_midpoint() {
    assert_eq!(client_center(0, 0, 800, 600), (400, 300));
    assert_eq!(client_center(0, 0, 801, 601), (400, 300));
    assert_eq!(client_center(0, 0, 0, 0), (0, 0));
}

#[test]
fn packed_point_keeps_both_coordinates() {
    let r = pack_client_point(400, 300);
    assert_eq!(r, (300u32 << 16) | 400);
    assert_eq!(r >> 16, 300);
    assert_eq!(r & 0xFFFF, 400);
}

#[test]
fn mouse_posts_carry_button_state_and_point() {
    let p = press_post(ClickType::LeftClick, 400, 300);
    assert_eq!(
        p,
        WindowPost { msg: PostMsg::MouseLeftDown, wparam: 1, lparam: ((300u64 << 16) | 400) }
    );
    let r = release_post(ClickType::LeftClick, 400, 300);
    assert_eq!(
        r,
        WindowPost { msg: PostMsg::MouseLeftUp, wparam: 0, lparam: ((300u64 << 16) | 400) }
    );
    let pr = press_post(ClickType::RightClick, 10, 20);
    assert_eq!(pr.msg, PostMsg::MouseRightDown);
    assert_eq!(pr.wparam, 1);
    let rr = release_post(ClickType::RightClick, 10, 20);
    assert_eq!(rr.msg, PostMsg::MouseRightUp);
}

#[test]
fn space_posts_carry_virtual_key_code() {
    let p = press_post(ClickType::Space, 400, 300);
    assert_eq!(p, WindowPost { msg: PostMsg::KeyDown, wparam: 0x20, lparam: 0 });
    let r = release_post(ClickType::Space, 400, 300);
    assert_eq!(r, WindowPost { msg: PostMsg::KeyUp, wparam: 0x20, lparam: 0 });
}

#[test]
fn window_directory_filter() {
    assert!(should_list_window(true, "Notepad"));
    assert!(!should_list_window(true, ""));
    assert!(!should_list_window(true, "Program Manager"));
    assert!(!should_list_window(false, "Notepad"));
}

#[test]
fn str_eq_compares_characters() {
    assert!(str_eq("Game", "Game"));
    assert!(!str_eq("Game", "game"));
    assert!(!str_eq("Game", "Games"));
    assert!(str_eq("", ""));
}
