//! Key naming, modifier flags and text-range conversion for the AppKit
//! child view.

use vstd::prelude::*;

use crate::events::Modifiers;
use crate::strings::{ascii_lower, char_lowercase_of, char_to_lowercase, string_of};

verus! {

/// The location that marks an absent text range.
pub const NS_NOT_FOUND: usize = usize::MAX;

/// The location that marks an absent text range.
pub open spec fn ns_not_found() -> int {
    usize::MAX as int
}

/// An AppKit text range: a start location and a length.
#[derive(Clone, Copy, Debug, PartialEq, Eq, Structural)]
pub struct NSRange {
    /// First index of the range.
    pub location: usize,
    /// Number of indices in the range.
    pub length: usize,
}

/// The GPUI key name of the characters of an AppKit key event.
///
/// The first character decides: function-key private-use characters and
/// control characters name their key, any other character is named by its
/// lowercase; no characters name `unknown`, empty characters name nothing.
pub open spec fn key_name_spec(key_char: Option<Seq<char>>) -> Seq<char> {
    match key_char {
        None => "unknown"@,
        Some(s) => if s.len() == 0 {
            s
        } else {
            let c = s[0];
            if c == '\u{f700}' {
                "up"@
            } else if c == '\u{f701}' {
                "down"@
            } else if c == '\u{f702}' {
                "left"@
            } else if c == '\u{f703}' {
                "right"@
            } else if c == '\u{f728}' {
                "backspace"@
            } else if c == '\u{f729}' {
                "home"@
            } else if c == '\u{f72b}' {
                "end"@
            } else if c == '\u{1b}' {
                "escape"@
            } else if c == '\r' || c == '\n' {
                "enter"@
            } else if c == '\t' {
                "tab"@
            } else if c == ' ' {
                "space"@
            } else {
                char_lowercase_of(c)
            }
        },
    }
}

/// Name the key of an AppKit key event from its characters.
pub fn key_name(key_char: Option<&str>) -> (r: String)
    ensures
        r@ == key_name_spec(
            match key_char {
                Some(s) => Some(s@),
                None => None,
            },
        ),
        match key_char {
            Some(s) => s@.len() > 0 && (s@[0] as u32) < 0x80 && s@[0] != '\u{1b}' && s@[0] != '\r'
                && s@[0] != '\n' && s@[0] != '\t' && s@[0] != ' ' ==> r@ == seq![
                ascii_lower(s@[0]),
            ],
            None => true,
        },
{
    let value = match key_char {
        None => {
            return string_of("unknown");
        },
        Some(v) => v,
    };
    if value.unicode_len() == 0 {
        return string_of(value);
    }
    let c = value.get_char(0);
    if c == '\u{f700}' {
        string_of("up")
    } else if c == '\u{f701}' {
        string_of("down")
    } else if c == '\u{f702}' {
        string_of("left")
    } else if c == '\u{f703}' {
        string_of("right")
    } else if c == '\u{f728}' {
        string_of("backspace")
    } else if c == '\u{f729}' {
        string_of("home")
    } else if c == '\u{f72b}' {
        string_of("end")
    } else if c == '\u{1b}' {
        string_of("escape")
    } else if c == '\r' || c == '\n' {
        string_of("enter")
    } else if c == '\t' {
        string_of("tab")
    } else if c == ' ' {
        string_of("space")
    } else {
        char_to_lowercase(c)
    }
}

/// The index range `[location, location + length)` of an AppKit range
/// (the end saturating at `usize::MAX`), or nothing for a not-found range.
pub fn range_option(range: NSRange) -> (r: Option<std::ops::Range<usize>>)
    ensures
        range.location == ns_not_found() ==> r is None,
        range.location != ns_not_found() ==> (r matches Some(x) && x.start == range.location
            && x.end == if range.location + range.length <= usize::MAX {
            range.location + range.length
        } else {
            usize::MAX as int
        }),
{
    if range.location == NS_NOT_FOUND {
        None
    } else {
        let end = if range.length <= usize::MAX - range.location {
            range.location + range.length
        } else {
            usize::MAX
        };
        Some(std::ops::Range { start: range.location, end })
    }
}

/// The AppKit range of an optional index range: not found when absent,
/// else its start and its length (zero for a reversed range).
pub open spec fn ns_range_spec(range: Option<(usize, usize)>) -> NSRange {
    match range {
        None => NSRange { location: usize::MAX, length: 0 },
        Some((start, end)) => NSRange {
            location: start,
            length: if end >= start {
                (end - start) as usize
            } else {
                0
            },
        },
    }
}

/// Convert an optional index range into the AppKit range reported to the
/// input system.
pub fn ns_range(range: Option<(usize, usize)>) -> (r: NSRange)
    ensures
        r == ns_range_spec(range),
{
    match range {
        None => NSRange { location: NS_NOT_FOUND, length: 0 },
        Some((start, end)) => NSRange { location: start, length: end.saturating_sub(start) },
    }
}

/// An index range survives the trip to an AppKit range and back, unless it
/// starts at the not-found location or runs backwards.
pub proof fn law_ns_range_roundtrip(start: usize, end: usize)
    requires
        start <= end,
        start != usize::MAX,
    ensures
        ns_range_spec(Some((start, end))).location == start,
        ns_range_spec(Some((start, end))).location + ns_range_spec(Some((start, end))).length
            == end,
        ns_range_spec(None).location == ns_not_found(),
{
}

/// AppKit modifier flag bits.
pub const SHIFT_FLAG: u64 = 0x2_0000;
/// AppKit modifier flag bits.
pub const CONTROL_FLAG: u64 = 0x4_0000;
/// AppKit modifier flag bits.
pub const OPTION_FLAG: u64 = 0x8_0000;
/// AppKit modifier flag bits.
pub const COMMAND_FLAG: u64 = 0x10_0000;
/// AppKit modifier flag bits.
pub const FUNCTION_FLAG: u64 = 0x80_0000;

/// The modifier state of an AppKit event's modifier flags.
pub fn mac_modifiers(flags: u64) -> (m: Modifiers)
    ensures
        m.control == (flags & CONTROL_FLAG != 0),
        m.alt == (flags & OPTION_FLAG != 0),
        m.shift == (flags & SHIFT_FLAG != 0),
        m.platform == (flags & COMMAND_FLAG != 0),
        m.function == (flags & FUNCTION_FLAG != 0),
{
    Modifiers {
        control: flags & CONTROL_FLAG != 0,
        alt: flags & OPTION_FLAG != 0,
        shift: flags & SHIFT_FLAG != 0,
        platform: flags & COMMAND_FLAG != 0,
        function: flags & FUNCTION_FLAG != 0,
    }
}

} // verus!
