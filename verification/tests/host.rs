use lib::radiant_host::{vst3_key_down_to_input_char, RadiantHostedGui};

#[test]
fn vst3_callback_translation_uses_vst3_virtual_key_codes() {
    assert_eq!(vst3_key_down_to_input_char(0, 1), Some('\u{8}'));
    assert_eq!(vst3_key_down_to_input_char(0, 11), Some('\u{1c}'));
    assert_eq!(vst3_key_down_to_input_char(0, 12), Some('\u{1e}'));
    assert_eq!(vst3_key_down_to_input_char(0, 13), Some('\u{1d}'));
    assert_eq!(vst3_key_down_to_input_char(0, 14), Some('\u{1f}'));
    assert_eq!(vst3_key_down_to_input_char(0, 10), Some('\u{f729}'));
    assert_eq!(vst3_key_down_to_input_char(0, 9), Some('\u{f72b}'));
    assert_eq!(vst3_key_down_to_input_char(0, 22), Some('\u{7f}'));
}

#[test]
fn size_contract_updates_preopen_host_size() {
    let gui = RadiantHostedGui::new("ToyboxRadiantPreopenContractTest", 420, 282)
        .with_size_contract((720, 540), (912, 684), (1440, 1080));
    assert_eq!(gui.last_size(), Some((912, 684)));
}

#[test]
fn show_reports_failure_when_host_parent_is_missing() {
    let mut gui = RadiantHostedGui::new("ToyboxRadiantShowFailureTest", 420, 282);
    assert!(!gui.show());
}

#[test]
fn focus_reports_failure_before_a_native_child_is_open() {
    let gui = RadiantHostedGui::new("ToyboxRadiantFocusFailureTest", 420, 282);
    assert!(!gui.on_focus(true));
}

#[test]
fn hide_show_preserves_negotiated_size() {
    let mut gui = RadiantHostedGui::new("ToyboxRadiantRetainedSizeTest", 420, 282)
        .with_size_contract((720, 540), (912, 684), (1440, 1080));
    gui.request_resize(1440, 1080);
    assert_eq!(gui.last_size(), Some((1440, 1080)));

    gui.hide_view();
    assert!(!gui.show(), "show without a host parent should fail");
    assert_eq!(gui.last_size(), Some((1440, 1080)));
}

#[test]
fn vst3_key_down_falls_back_to_characters_and_ascii_codes() {
    assert_eq!(vst3_key_down_to_input_char('a' as u16, 0), Some('a'));
    assert_eq!(vst3_key_down_to_input_char(0xD800, 0x41), Some('A'));
    assert_eq!(vst3_key_down_to_input_char(0xD800, 0), None);
    assert_eq!(vst3_key_down_to_input_char(0, 4), Some('\r'));
    assert_eq!(vst3_key_down_to_input_char(0, 19), Some('\r'));
}

#[test]
fn parented_view_opens_shows_and_closes() {
    let mut gui = RadiantHostedGui::new("ToyboxRadiantLifecycleTest", 420, 282);
    assert!(!gui.open());
    gui.set_parent();
    assert!(gui.open());
    assert!(gui.on_focus(true));
    assert_eq!(gui.on_key_down(0, 1, 0), Some('\u{8}'));
    assert!(!gui.on_key_up(0, 1, 0));
    gui.hide_view();
    assert!(gui.show());
    gui.close();
    assert!(!gui.on_focus(true));
    assert_eq!(gui.on_key_down(0, 1, 0), None);
}

#[test]
fn resize_requests_are_constrained_by_the_contract() {
    let mut gui = RadiantHostedGui::new("ToyboxRadiantResizeTest", 420, 282)
        .with_size_contract((720, 540), (912, 684), (1440, 1080));
    gui.request_resize(5000, 5000);
    assert_eq!(gui.last_size(), Some((1440, 1080)));
    assert_eq!(gui.constrain_size((1, 1)), (720, 540));
    assert_eq!(gui.size_contract().default, (912, 684));
    gui.set_callback_keyboard_mode(true);
    assert_eq!(gui.class_name(), "ToyboxRadiantResizeTest");
}

#[test]
fn new_view_clamps_zero_default_size() {
    let gui = RadiantHostedGui::new("ToyboxRadiantZeroSizeTest", 0, 0);
    assert_eq!(gui.last_size(), Some((1, 1)));
}
