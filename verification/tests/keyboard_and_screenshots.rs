use lib::piano::{collect_white_notes, is_c_note, is_white_note, midi_octave, white_index_before};
use lib::screenshot::{default_screenshot_sizes, scaled_dimension};
use lib::waveform::Size;

#[test]
fn white_notes_follow_the_piano_pattern() {
    let whites: Vec<u8> = (0..12).filter(|note| is_white_note(*note)).collect();
    assert_eq!(whites, vec![0, 2, 4, 5, 7, 9, 11]);
    assert!(is_c_note(60));
    assert!(!is_c_note(61));
}

#[test]
fn octave_numbers_apply_the_offset() {
    assert_eq!(midi_octave(60, -2), 3);
    assert_eq!(midi_octave(0, -2), -2);
    assert_eq!(midi_octave(127, 0), 10);
}

#[test]
fn white_notes_are_collected_in_range_order() {
    assert_eq!(collect_white_notes(59, 65), vec![59, 60, 62, 64, 65]);
    assert!(collect_white_notes(61, 61).is_empty());
    assert!(collect_white_notes(70, 60).is_empty());
    assert_eq!(collect_white_notes(254, 255), vec![254]);
}

#[test]
fn black_keys_sit_after_their_lower_white_key() {
    let whites = collect_white_notes(60, 72);
    assert_eq!(white_index_before(61, &whites), 0);
    assert_eq!(white_index_before(63, &whites), 1);
    assert_eq!(white_index_before(66, &whites), 3);
    assert_eq!(whites[white_index_before(70, &whites)], 69);
    assert_eq!(white_index_before(59, &whites), 0);
}

#[test]
fn screenshot_sizes_scale_the_base_size() {
    let sizes = default_screenshot_sizes(Size {
        width: 800,
        height: 600,
    });
    assert_eq!(
        sizes,
        [
            Size {
                width: 800,
                height: 600
            },
            Size {
                width: 600,
                height: 450
            },
            Size {
                width: 1000,
                height: 750
            },
            Size {
                width: 1200,
                height: 900
            },
        ]
    );
}

#[test]
fn screenshot_sizes_never_collapse_or_overflow() {
    let tiny = default_screenshot_sizes(Size {
        width: 0,
        height: 1,
    });
    assert!(tiny.iter().all(|size| size.width >= 1 && size.height >= 1));
    assert_eq!(tiny[3], Size { width: 1, height: 1 });
    assert_eq!(scaled_dimension(u32::MAX, 3, 2), u32::MAX / 2);
}
