use lib::events::Modifiers;
use lib::numeric_input::{NumericDraft, NumericStep};
use lib::text::{is_numeric_draft, offset_from_utf16};

#[test]
fn accepts_incomplete_numeric_drafts() {
    for draft in ["", "-", ".", "-.", "-12", "12.5"] {
        assert!(is_numeric_draft(draft), "{draft}");
    }
}

#[test]
fn rejects_non_numeric_drafts() {
    for draft in ["--1", "1.2.3", "1-2", "dB", "1 2", "∞"] {
        assert!(!is_numeric_draft(draft), "{draft}");
    }
}

#[test]
fn maps_utf16_offsets_to_scalar_boundaries() {
    assert_eq!(offset_from_utf16("-12", 2), 2);
    assert_eq!(offset_from_utf16("😀2", 1), 0);
    assert_eq!(offset_from_utf16("😀2", 2), 4);
    assert_eq!(offset_from_utf16("😀2", 99), 5);
}

fn plain() -> Modifiers {
    Modifiers::default()
}

fn command() -> Modifiers {
    Modifiers {
        platform: true,
        ..Modifiers::default()
    }
}

#[test]
fn new_draft_places_caret_at_end() {
    let draft = NumericDraft::new("12.5");
    assert_eq!(draft.text(), "12.5");
    assert_eq!(draft.cursor_offset(), 4);
    assert!(!draft.is_editing());
}

#[test]
fn accepted_replacements_move_the_caret_after_the_insert() {
    let mut draft = NumericDraft::new("12");
    let changed = draft.replace_text(2, 2, ".5");
    assert_eq!(changed.map(|c| c.text), Some("12.5".to_string()));
    assert_eq!(draft.text(), "12.5");
    assert_eq!(draft.cursor_offset(), 4);
}

#[test]
fn rejected_replacements_change_nothing() {
    let mut draft = NumericDraft::new("12");
    assert!(draft.replace_text(0, 0, "x").is_none());
    assert!(draft.replace_text(2, 2, ".5.").is_none());
    assert!(draft.replace_text(1, 0, "3").is_none());
    assert_eq!(draft.text(), "12");
    assert_eq!(draft.cursor_offset(), 2);
}

#[test]
fn overlong_drafts_are_refused() {
    let long = "1".repeat(64);
    let mut draft = NumericDraft::new(&long);
    assert!(draft.replace_text(64, 64, "1").is_none());
    assert_eq!(draft.text(), long);
}

#[test]
fn backspace_and_delete_remove_one_character() {
    let mut draft = NumericDraft::new("123");
    let response = draft.on_key_down("backspace", plain());
    assert!(response.handled);
    assert_eq!(response.changed.map(|c| c.text), Some("12".to_string()));
    draft.on_key_down("home", plain());
    let response = draft.on_key_down("delete", plain());
    assert_eq!(response.changed.map(|c| c.text), Some("2".to_string()));
    assert_eq!(draft.text(), "2");
}

#[test]
fn shortcuts_select_copy_cut_and_request_paste() {
    let mut draft = NumericDraft::new("42");
    let response = draft.on_key_down("a", command());
    assert!(response.handled);
    let response = draft.on_key_down("c", command());
    assert_eq!(response.clipboard_write, Some("42".to_string()));
    let response = draft.on_key_down("x", command());
    assert_eq!(response.clipboard_write, Some("42".to_string()));
    assert_eq!(draft.text(), "");
    let response = draft.on_key_down("v", command());
    assert!(response.paste_requested);
    let changed = draft.paste("-7");
    assert_eq!(changed.map(|c| c.text), Some("-7".to_string()));
}

#[test]
fn arrows_step_and_enter_submits() {
    let mut draft = NumericDraft::new("1");
    draft.set_editing(true);
    let up = draft.on_key_down(
        "up",
        Modifiers {
            shift: true,
            ..Modifiers::default()
        },
    );
    assert_eq!(up.step, Some(NumericStep { up: true, fine: true }));
    let submit = draft.on_key_down("enter", plain());
    assert_eq!(submit.submitted.map(|s| s.text), Some("1".to_string()));
    assert!(!draft.is_editing());
    draft.set_editing(true);
    let cancel = draft.on_key_down("escape", plain());
    assert!(cancel.canceled);
    assert!(!draft.is_editing());
}

#[test]
fn unknown_keys_pass_through() {
    let mut draft = NumericDraft::new("1");
    let response = draft.on_key_down("q", plain());
    assert!(!response.handled);
    assert_eq!(draft.text(), "1");
}

#[test]
fn utf16_ranges_map_to_character_offsets() {
    let mut draft = NumericDraft::new("12.5");
    assert_eq!(draft.offset_from_utf16(2), 2);
    assert_eq!(draft.offset_to_utf16(3), 3);
    draft.select_to(1);
    let (range, reversed) = draft.selected_text_range();
    assert_eq!(range, (1, 4));
    assert!(reversed);
    let (text, actual) = draft.text_for_range((0, 2));
    assert_eq!(text, "12");
    assert_eq!(actual, (0, 2));
}
