//! Translation of Steinberg VST3 virtual-key callbacks into the key names and
//! text used by GPUI.

use vstd::prelude::*;

use crate::chars::{char_from_u32, is_control, is_control_spec};
use crate::strings::{
    all_ascii, ascii_lower, decimal_seq, digit_char, function_key_name, str_lowercase_of, str_to_lowercase, string_of,
    string_of_char,
};

verus! {

/// The semantic key name of a VST3 virtual-key code, with the text it types
/// when it types any.
pub open spec fn vst3_semantic_key(key_code: int) -> Option<(Seq<char>, Option<Seq<char>>)> {
    if key_code == 1 {
        Some(("backspace"@, None))
    } else if key_code == 2 {
        Some(("tab"@, None))
    } else if key_code == 4 || key_code == 19 {
        Some(("enter"@, None))
    } else if key_code == 6 {
        Some(("escape"@, None))
    } else if key_code == 7 {
        Some(("space"@, Some(" "@)))
    } else if key_code == 9 {
        Some(("end"@, None))
    } else if key_code == 10 {
        Some(("home"@, None))
    } else if key_code == 11 {
        Some(("left"@, None))
    } else if key_code == 12 {
        Some(("up"@, None))
    } else if key_code == 13 {
        Some(("right"@, None))
    } else if key_code == 14 {
        Some(("down"@, None))
    } else if key_code == 15 {
        Some(("pageup"@, None))
    } else if key_code == 16 {
        Some(("pagedown"@, None))
    } else if key_code == 21 {
        Some(("insert"@, None))
    } else if key_code == 22 {
        Some(("delete"@, None))
    } else if 40 <= key_code <= 51 {
        Some((f_key_name_spec(key_code - 40), None))
    } else if 65 <= key_code <= 76 {
        Some((f_key_name_spec(key_code - 65 + 12), None))
    } else {
        None
    }
}

/// `f1` for 0 up to `f23` for 22; `f24` for every other value.
pub open spec fn f_key_name_spec(value: int) -> Seq<char> {
    seq!['f'] + decimal_seq(
        if 0 <= value <= 22 {
            (value + 1) as nat
        } else {
            24
        },
    )
}

/// Key codes that name a non-text key.
pub open spec fn vst3_non_text_code(key_code: int) -> bool {
    ||| key_code == 1
    ||| key_code == 2
    ||| key_code == 4
    ||| key_code == 6
    ||| 9 <= key_code <= 16
    ||| key_code == 19
    ||| key_code == 21
    ||| key_code == 22
    ||| 40 <= key_code <= 51
    ||| 65 <= key_code <= 76
}

/// The text a VST3 key callback types, if any.
///
/// Space types a space; named non-text keys type nothing; numeric-keypad
/// codes type their digit or operator when no character accompanies them;
/// otherwise the accompanying character (or, without one, a printable ASCII
/// key code) types itself unless it is a control character.
pub open spec fn vst3_text_spec(key: u16, key_code: int) -> Option<Seq<char>> {
    if key_code == 7 {
        Some(" "@)
    } else if vst3_non_text_code(key_code) {
        None
    } else if 24 <= key_code <= 33 && key == 0 {
        Some(seq![digit_char((key_code - 24) as nat)])
    } else if 34 <= key_code <= 39 && key == 0 {
        Some(seq![keypad_operator(key_code)])
    } else {
        let code: int = if key != 0 {
            key as int
        } else if 0x21 <= key_code <= 0x7e {
            key_code
        } else {
            -1
        };
        if code >= 0 && vstd::utf8::is_scalar(code as u32) && !is_control_spec(
            (code as u32) as char,
        ) {
            Some(seq![(code as u32) as char])
        } else {
            None
        }
    }
}

/// The operator typed by keypad codes 34 to 39.
pub open spec fn keypad_operator(key_code: int) -> char {
    if key_code == 34 {
        '*'
    } else if key_code == 35 {
        '+'
    } else if key_code == 36 {
        ','
    } else if key_code == 37 {
        '-'
    } else if key_code == 38 {
        '.'
    } else {
        '/'
    }
}

/// The GPUI keystroke of a VST3 key callback: its key name and typed text.
pub open spec fn vst3_keystroke_spec(key: u16, key_code: int) -> Option<(Seq<char>, Option<Seq<char>>)> {
    if vst3_semantic_key(key_code) is Some {
        vst3_semantic_key(key_code)
    } else if key == 8 || key == 127 {
        Some(("backspace"@, None))
    } else {
        match vst3_text_spec(key, key_code) {
            Some(text) => Some((str_lowercase_of(text), Some(text))),
            None => None,
        }
    }
}

/// The view of an optional keystroke result.
pub open spec fn keystroke_view(r: Option<(String, Option<String>)>) -> Option<(Seq<char>, Option<Seq<char>>)> {
    match r {
        Some((name, text)) => Some((
            name@,
            match text {
                Some(t) => Some(t@),
                None => None,
            },
        )),
        None => None,
    }
}

/// Name of function key `value + 1`, saturating at `f24`.
pub fn f_key_name(value: i64) -> (r: String)
    ensures
        r@ == f_key_name_spec(value as int),
{
    if 0 <= value && value <= 22 {
        function_key_name((value + 1) as u32)
    } else {
        function_key_name(24)
    }
}

/// Translate Steinberg's platform-independent virtual-key values into the
/// key names used by GPUI.
pub fn vst3_keystroke(key: u16, key_code: i16) -> (r: Option<(String, Option<String>)>)
    ensures
        keystroke_view(r) == vst3_keystroke_spec(key, key_code as int),
        vst3_semantic_key(key_code as int) is None && key != 8 && key != 127 ==> match vst3_text_spec(
            key,
            key_code as int,
        ) {
            Some(text) => all_ascii(text) ==> keystroke_view(r) == Some(
                (text.map_values(|c: char| ascii_lower(c)), Some(text)),
            ),
            None => true,
        },
{
    let code = key_code as i64;
    let semantic: Option<(String, Option<String>)> = if code == 1 {
        Some((string_of("backspace"), None))
    } else if code == 2 {
        Some((string_of("tab"), None))
    } else if code == 4 || code == 19 {
        Some((string_of("enter"), None))
    } else if code == 6 {
        Some((string_of("escape"), None))
    } else if code == 7 {
        Some((string_of("space"), Some(string_of(" "))))
    } else if code == 9 {
        Some((string_of("end"), None))
    } else if code == 10 {
        Some((string_of("home"), None))
    } else if code == 11 {
        Some((string_of("left"), None))
    } else if code == 12 {
        Some((string_of("up"), None))
    } else if code == 13 {
        Some((string_of("right"), None))
    } else if code == 14 {
        Some((string_of("down"), None))
    } else if code == 15 {
        Some((string_of("pageup"), None))
    } else if code == 16 {
        Some((string_of("pagedown"), None))
    } else if code == 21 {
        Some((string_of("insert"), None))
    } else if code == 22 {
        Some((string_of("delete"), None))
    } else if 40 <= code && code <= 51 {
        Some((f_key_name(code - 40), None))
    } else if 65 <= code && code <= 76 {
        Some((f_key_name(code - 65 + 12), None))
    } else {
        None
    };
    if semantic.is_some() {
        return semantic;
    }
    if key == 8 || key == 127 {
        return Some((string_of("backspace"), None));
    }
    match vst3_text(key, key_code) {
        Some(text) => {
            let name = str_to_lowercase(text.as_str());
            Some((name, Some(text)))
        },
        None => None,
    }
}

/// The text typed by a VST3 key callback, if any.
pub fn vst3_text(key: u16, key_code: i16) -> (r: Option<String>)
    ensures
        (match r {
            Some(t) => Some(t@),
            None => None,
        }) == vst3_text_spec(key, key_code as int),
{
    let code = key_code as i64;
    if code == 7 {
        return Some(string_of(" "));
    }
    if code == 1 || code == 2 || code == 4 || code == 6 || (9 <= code && code <= 16) || code == 19
        || code == 21 || code == 22 || (40 <= code && code <= 51) || (65 <= code && code <= 76) {
        return None;
    }
    if 24 <= code && code <= 33 && key == 0 {
        return Some(string_of_char(crate::strings::digit((code - 24) as u32)));
    }
    if 34 <= code && code <= 39 && key == 0 {
        let op = if code == 34 {
            '*'
        } else if code == 35 {
            '+'
        } else if code == 36 {
            ','
        } else if code == 37 {
            '-'
        } else if code == 38 {
            '.'
        } else {
            '/'
        };
        return Some(string_of_char(op));
    }
    let scalar: u32 = if key != 0 {
        key as u32
    } else if 0x21 <= code && code <= 0x7e {
        code as u32
    } else {
        return None;
    };
    match char_from_u32(scalar) {
        Some(c) => {
            proof {
                vstd::utf8::char_u32_cast(c, scalar);
            }
            if is_control(c) {
                None
            } else {
                Some(string_of_char(c))
            }
        },
        None => None,
    }
}

/// The named keys read the same whichever host reports them: a VST3 key
/// code, the Win32 virtual-key code and the AppKit key character of one
/// physical key give it one GPUI name, and none of them types text. Page Up
/// and Page Down, Home and End, and the four arrows each keep their own
/// direction, whatever character accompanies the VST3 callback.
pub proof fn law_named_keys_agree_across_hosts(key: u16)
    ensures
        vst3_keystroke_spec(key, 1) == Some(("backspace"@, None::<Seq<char>>)) && crate::windows_keys::key_name_spec(0x08) == "backspace"@
            && crate::mac_keys::key_name_spec(Some(seq!['\u{f728}'])) == "backspace"@,
        vst3_keystroke_spec(key, 2) == Some(("tab"@, None::<Seq<char>>)) && crate::windows_keys::key_name_spec(0x09) == "tab"@
            && crate::mac_keys::key_name_spec(Some(seq!['\t'])) == "tab"@,
        vst3_keystroke_spec(key, 4) == Some(("enter"@, None::<Seq<char>>)) && crate::windows_keys::key_name_spec(0x0d) == "enter"@
            && crate::mac_keys::key_name_spec(Some(seq!['\r'])) == "enter"@
            && crate::mac_keys::key_name_spec(Some(seq!['\n'])) == "enter"@,
        vst3_keystroke_spec(key, 6) == Some(("escape"@, None::<Seq<char>>)) && crate::windows_keys::key_name_spec(0x1b) == "escape"@
            && crate::mac_keys::key_name_spec(Some(seq!['\u{1b}'])) == "escape"@,
        vst3_keystroke_spec(key, 9) == Some(("end"@, None::<Seq<char>>)) && crate::windows_keys::key_name_spec(0x23) == "end"@
            && crate::mac_keys::key_name_spec(Some(seq!['\u{f72b}'])) == "end"@,
        vst3_keystroke_spec(key, 10) == Some(("home"@, None::<Seq<char>>)) && crate::windows_keys::key_name_spec(0x24) == "home"@
            && crate::mac_keys::key_name_spec(Some(seq!['\u{f729}'])) == "home"@,
        vst3_keystroke_spec(key, 11) == Some(("left"@, None::<Seq<char>>)) && crate::windows_keys::key_name_spec(0x25) == "left"@
            && crate::mac_keys::key_name_spec(Some(seq!['\u{f702}'])) == "left"@,
        vst3_keystroke_spec(key, 12) == Some(("up"@, None::<Seq<char>>)) && crate::windows_keys::key_name_spec(0x26) == "up"@
            && crate::mac_keys::key_name_spec(Some(seq!['\u{f700}'])) == "up"@,
        vst3_keystroke_spec(key, 13) == Some(("right"@, None::<Seq<char>>)) && crate::windows_keys::key_name_spec(0x27) == "right"@
            && crate::mac_keys::key_name_spec(Some(seq!['\u{f703}'])) == "right"@,
        vst3_keystroke_spec(key, 14) == Some(("down"@, None::<Seq<char>>)) && crate::windows_keys::key_name_spec(0x28) == "down"@
            && crate::mac_keys::key_name_spec(Some(seq!['\u{f701}'])) == "down"@,
        vst3_keystroke_spec(key, 15) == Some(("pageup"@, None::<Seq<char>>)) && crate::windows_keys::key_name_spec(0x21) == "pageup"@,
        vst3_keystroke_spec(key, 16) == Some(("pagedown"@, None::<Seq<char>>)) && crate::windows_keys::key_name_spec(0x22) == "pagedown"@,
        vst3_keystroke_spec(key, 22) == Some(("delete"@, None::<Seq<char>>)) && crate::windows_keys::key_name_spec(0x2e) == "delete"@,
        vst3_keystroke_spec(key, 19) == vst3_keystroke_spec(key, 4),
        vst3_keystroke_spec(key, 7) == Some(("space"@, Some(" "@))) && crate::windows_keys::key_name_spec(0x20) == "space"@
            && crate::mac_keys::key_name_spec(Some(seq![' '])) == "space"@,
{
}

/// Function key `F(n + 1)` has one name on every host: the VST3 codes from
/// `KEY_F1` up and the Win32 virtual keys from `VK_F1` up name it `f1`,
/// `f2` and so on, in order.
pub proof fn law_function_keys_agree_across_hosts(key: u16, n: int)
    requires
        0 <= n < 12,
    ensures
        vst3_keystroke_spec(key, 40 + n) == Some((f_key_name_spec(n), None::<Seq<char>>)),
        crate::windows_keys::key_name_spec((0x70 + n) as u32) == f_key_name_spec(n),
        f_key_name_spec(n) == seq!['f'] + decimal_seq((n + 1) as nat),
{
}

/// A numeric-keypad key reported without a character types what its
/// character would type: keypad digit `d` types the digit `d`, and the
/// keypad operators type `*`, `+`, `,`, `-`, `.` and `/`.
pub proof fn law_keypad_types_its_character(d: int)
    requires
        0 <= d < 10,
    ensures
        vst3_text_spec(0, 24 + d) == vst3_text_spec((0x30 + d) as u16, 0),
        vst3_text_spec(0, 24 + d) == Some(seq![((0x30 + d) as u32) as char]),
        vst3_text_spec(0, 34) == vst3_text_spec(0x2a, 0) && vst3_text_spec(0, 34) == Some(seq!['*']),
        vst3_text_spec(0, 35) == vst3_text_spec(0x2b, 0) && vst3_text_spec(0, 35) == Some(seq!['+']),
        vst3_text_spec(0, 36) == vst3_text_spec(0x2c, 0) && vst3_text_spec(0, 36) == Some(seq![',']),
        vst3_text_spec(0, 37) == vst3_text_spec(0x2d, 0) && vst3_text_spec(0, 37) == Some(seq!['-']),
        vst3_text_spec(0, 38) == vst3_text_spec(0x2e, 0) && vst3_text_spec(0, 38) == Some(seq!['.']),
        vst3_text_spec(0, 39) == vst3_text_spec(0x2f, 0) && vst3_text_spec(0, 39) == Some(seq!['/']),
{
}

} // verus!
