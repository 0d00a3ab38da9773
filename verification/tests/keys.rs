use lib::events::{Modifiers, NativeEventIdentity, NativeEventToken};
use lib::mac_keys::{key_name, mac_modifiers, ns_range, range_option, NSRange, NS_NOT_FOUND};
use lib::vst3_keys::{f_key_name, vst3_keystroke, vst3_text};
use lib::windows_keys::{
    decode_windows_utf16_unit, lparam_position, utf16_units_of, vst3_modifiers, windows_char,
    windows_char_is_shortcut, windows_ime_composition, windows_ime_end, WindowsTextState,
};

#[test]
fn key_name_is_stable_for_key_down_and_key_up_characters() {
    for (characters, expected) in [
        (Some(" "), "space"),
        (Some("\r"), "enter"),
        (Some("\n"), "enter"),
        (Some("A"), "a"),
        (Some("z"), "z"),
    ] {
        assert_eq!(key_name(characters), expected);
    }
    assert_eq!(key_name(None), "unknown");
}

#[test]
fn vst3_navigation_and_numeric_key_translation_is_stable() {
    assert_eq!(vst3_keystroke(0, 11), Some(("left".to_string(), None)));
    assert_eq!(
        vst3_keystroke(0, 24),
        Some(("0".to_string(), Some("0".to_string())))
    );
    assert_eq!(vst3_keystroke(0, 40), Some(("f1".to_string(), None)));
    assert_eq!(vst3_keystroke(0, 65), Some(("f13".to_string(), None)));
    assert_eq!(
        vst3_keystroke('A' as u16, 0),
        Some(("a".to_string(), Some("A".to_string()),))
    );
}

#[test]
fn vst3_backspace_character_fallback_preserves_semantic_delete() {
    for character in [8, 127] {
        assert_eq!(
            vst3_keystroke(character, 0),
            Some(("backspace".to_string(), None))
        );
    }
    assert_eq!(vst3_keystroke(0, 1), Some(("backspace".to_string(), None)));
    assert_eq!(vst3_keystroke(0, 22), Some(("delete".to_string(), None)));
}

#[test]
fn vst3_modifier_bits_follow_host_platform_convention() {
    for macos in [true, false] {
        let modifiers = vst3_modifiers(1 | 2 | 4 | 8, macos);
        assert!(modifiers.shift);
        assert!(modifiers.alt);
        assert!(modifiers.platform);
        assert!(modifiers.control);
    }
}

#[test]
fn vst3_command_and_control_bits_swap_between_platforms() {
    let mac = vst3_modifiers(4, true);
    assert!(mac.platform && !mac.control);
    let other = vst3_modifiers(4, false);
    assert!(other.control && !other.platform);
    let none = vst3_modifiers(0, true);
    assert_eq!(none, Modifiers::default());
}

#[test]
fn windows_utf16_surrogates_are_committed_as_one_scalar() {
    let mut state = WindowsTextState::new();
    let token = NativeEventToken {
        generation: 1,
        identity: NativeEventIdentity::Windows {
            message_time: 12,
            window: 4,
            virtual_key: 0,
            scan_code: 0,
            kind: 1,
        },
    };
    assert!(decode_windows_utf16_unit(&mut state, 0xD83D, Some(token)).is_empty());
    assert_eq!(
        decode_windows_utf16_unit(&mut state, 0xDE42, Some(token)),
        vec![("🙂".to_string(), Some(token))]
    );
}

#[test]
fn windows_plain_units_commit_themselves() {
    let mut state = WindowsTextState::new();
    assert_eq!(
        decode_windows_utf16_unit(&mut state, 'a' as u16, None),
        vec![("a".to_string(), None)]
    );
}

#[test]
fn windows_controls_are_filtered_but_altgr_printable_text_survives() {
    assert!(windows_char_is_shortcut(
        0x03,
        Modifiers {
            control: true,
            ..Modifiers::default()
        }
    ));
    assert!(windows_char_is_shortcut(
        'c' as u16,
        Modifiers {
            control: true,
            ..Modifiers::default()
        }
    ));
    assert!(windows_char_is_shortcut(
        'x' as u16,
        Modifiers {
            alt: true,
            ..Modifiers::default()
        }
    ));
    assert!(!windows_char_is_shortcut(
        '€' as u16,
        Modifiers {
            control: true,
            alt: true,
            ..Modifiers::default()
        }
    ));
}

#[test]
fn pointer_lparam_words_are_signed_client_coordinates() {
    assert_eq!(lparam_position((75_u32 << 16 | 150) as isize), (150, 75));
    let packed = ((-12_i16 as u16 as u32) << 16 | (-9_i16 as u16 as u32)) as isize;
    assert_eq!(lparam_position(packed), (-9, -12));
}

#[test]
fn function_key_names_and_texts() {
    assert_eq!(f_key_name(0), "f1");
    assert_eq!(f_key_name(22), "f23");
    assert_eq!(f_key_name(99), "f24");
    assert_eq!(vst3_text(0, 24), Some("0".to_string()));
    assert_eq!(vst3_text(0, 11), None);
}

#[test]
fn mac_not_found_ranges_are_absent() {
    assert_eq!(range_option(NSRange { location: 2, length: 3 }), Some(2..5));
    assert_eq!(
        range_option(NSRange {
            location: NS_NOT_FOUND,
            length: 0
        }),
        None
    );
    assert_eq!(
        range_option(NSRange {
            location: 3,
            length: usize::MAX
        }),
        Some(3..usize::MAX)
    );
}

#[test]
fn index_ranges_convert_to_appkit_ranges_and_back() {
    assert_eq!(ns_range(None).location, NS_NOT_FOUND);
    let range = ns_range(Some((2, 7)));
    assert_eq!(range, NSRange { location: 2, length: 5 });
    assert_eq!(range_option(range), Some(2..7));
    assert_eq!(ns_range(Some((7, 2))), NSRange { location: 7, length: 0 });
}

#[test]
fn appkit_modifier_flags_map_to_modifiers() {
    let all = mac_modifiers((1 << 17) | (1 << 18) | (1 << 19) | (1 << 20) | (1 << 23));
    assert!(all.shift && all.control && all.alt && all.platform && all.function);
    assert_eq!(mac_modifiers(1 << 16), Modifiers::default());
    let command = mac_modifiers(1 << 20);
    assert!(command.platform && !command.control);
}

#[test]
fn utf16_text_fed_unit_by_unit_commits_that_text() {
    let text = "a😀b🙂";
    let mut state = WindowsTextState::new();
    let mut committed = String::new();
    for unit in text.encode_utf16() {
        let commits = decode_windows_utf16_unit(&mut state, unit, None);
        assert!(commits.len() <= 2);
        for (piece, _) in commits {
            committed.push_str(&piece);
        }
    }
    assert_eq!(committed, text);
    assert!(decode_windows_utf16_unit(&mut state, 'c' as u16, None) == vec![("c".to_string(), None)]);
}

#[test]
fn unpaired_surrogates_commit_replacement_characters() {
    let mut state = WindowsTextState::new();
    assert!(decode_windows_utf16_unit(&mut state, 0xD83D, None).is_empty());
    assert_eq!(
        decode_windows_utf16_unit(&mut state, 'x' as u16, None),
        vec![("\u{FFFD}".to_string(), None), ("x".to_string(), None)]
    );
    assert_eq!(
        decode_windows_utf16_unit(&mut state, 0xDE42, None),
        vec![("\u{FFFD}".to_string(), None)]
    );
}

#[test]
fn ime_commit_echo_messages_are_swallowed() {
    let mut state = WindowsTextState::new();
    let plain = Modifiers::default();
    windows_ime_composition(&mut state, "にほ", false);
    windows_ime_composition(&mut state, "日本😀", true);
    for unit in "日本😀".encode_utf16() {
        assert!(windows_char(&mut state, unit, plain, None).is_empty());
    }
    assert_eq!(
        windows_char(&mut state, 'a' as u16, plain, None),
        vec![("a".to_string(), None)]
    );
    windows_ime_end(&mut state);
}

#[test]
fn a_different_unit_ends_the_ime_echo() {
    let mut state = WindowsTextState::new();
    let plain = Modifiers::default();
    windows_ime_composition(&mut state, "ab", true);
    assert!(windows_char(&mut state, 'a' as u16, plain, None).is_empty());
    assert_eq!(
        windows_char(&mut state, 'x' as u16, plain, None),
        vec![("x".to_string(), None)]
    );
    assert_eq!(
        windows_char(&mut state, 'b' as u16, plain, None),
        vec![("b".to_string(), None)]
    );
    let control = Modifiers {
        control: true,
        ..Modifiers::default()
    };
    assert!(windows_char(&mut state, 'c' as u16, control, None).is_empty());
}

#[test]
fn utf16_units_match_the_standard_encoding() {
    let text = "a€😀";
    assert_eq!(utf16_units_of(text), text.encode_utf16().collect::<Vec<u16>>());
}

#[test]
fn ascii_key_names_are_lowercase_of_their_character() {
    assert_eq!(key_name(Some("Q")), "q");
    assert_eq!(
        vst3_keystroke('Q' as u16, 0),
        Some(("q".to_string(), Some("Q".to_string())))
    );
}
