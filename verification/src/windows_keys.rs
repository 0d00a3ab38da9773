//! Win32 keyboard, pointer-message and `WM_CHAR` text decoding for the
//! embedded child window.

use vstd::prelude::*;

use crate::chars::char_from_u32;
use crate::events::{Modifiers, NativeEventToken};
use crate::strings::{function_key_name, string_of, string_of_char};

verus! {

/// The GPUI key name of a Win32 virtual-key code.
pub open spec fn key_name_spec(key: u32) -> Seq<char> {
    if key == 0x08 {
        "backspace"@
    } else if key == 0x09 {
        "tab"@
    } else if key == 0x0d {
        "enter"@
    } else if key == 0x1b {
        "escape"@
    } else if key == 0x20 {
        "space"@
    } else if key == 0x21 {
        "pageup"@
    } else if key == 0x22 {
        "pagedown"@
    } else if key == 0x23 {
        "end"@
    } else if key == 0x24 {
        "home"@
    } else if key == 0x25 {
        "left"@
    } else if key == 0x26 {
        "up"@
    } else if key == 0x27 {
        "right"@
    } else if key == 0x28 {
        "down"@
    } else if key == 0x2e {
        "delete"@
    } else if 0x70 <= key <= 0x7b {
        seq!['f'] + crate::strings::decimal_seq((key - 0x6f) as nat)
    } else if 0x30 <= key <= 0x39 {
        seq![key as char]
    } else if 0x41 <= key <= 0x5a {
        seq![(key + 0x20) as char]
    } else {
        "unknown"@
    }
}

/// Letter and digit keys name the character on the key, in lowercase: the
/// virtual keys `0`-`9` name the digits and `A`-`Z` the letters `a`-`z`, in
/// alphabetical order.
pub proof fn law_letter_and_digit_keys_name_their_character(key: u32)
    requires
        (0x30 <= key <= 0x39) || (0x41 <= key <= 0x5a),
    ensures
        key_name_spec(key) == seq![crate::strings::ascii_lower(key as char)],
        0x30 <= key <= 0x39 ==> key_name_spec(key) == seq![key as char] && '0' <= key_name_spec(key)[0]
            <= '9',
        0x41 <= key <= 0x5a ==> 'a' <= key_name_spec(key)[0] <= 'z' && key_name_spec(key)[0] as u32
            - ('a' as u32) == key - 0x41,
{
}

/// Name a Win32 virtual-key code.
pub fn key_name(key: u32) -> (r: String)
    ensures
        r@ == key_name_spec(key),
{
    if key == 0x08 {
        string_of("backspace")
    } else if key == 0x09 {
        string_of("tab")
    } else if key == 0x0d {
        string_of("enter")
    } else if key == 0x1b {
        string_of("escape")
    } else if key == 0x20 {
        string_of("space")
    } else if key == 0x21 {
        string_of("pageup")
    } else if key == 0x22 {
        string_of("pagedown")
    } else if key == 0x23 {
        string_of("end")
    } else if key == 0x24 {
        string_of("home")
    } else if key == 0x25 {
        string_of("left")
    } else if key == 0x26 {
        string_of("up")
    } else if key == 0x27 {
        string_of("right")
    } else if key == 0x28 {
        string_of("down")
    } else if key == 0x2e {
        string_of("delete")
    } else if 0x70 <= key && key <= 0x7b {
        function_key_name(key - 0x6f)
    } else if (0x30 <= key && key <= 0x39) || (0x41 <= key && key <= 0x5a) {
        let lower = if key >= 0x41 {
            key + 0x20
        } else {
            key
        };
        match char_from_u32(lower) {
            Some(c) => {
                proof {
                    vstd::utf8::char_u32_cast(c, lower);
                }
                string_of_char(c)
            },
            None => {
                assert(false);
                string_of("unknown")
            },
        }
    } else {
        string_of("unknown")
    }
}

/// The low 16 bits of `v`, read as a signed 16-bit number.
pub open spec fn signed_low_word(v: int) -> int {
    let low = v % 0x1_0000;
    if low >= 0x8000 {
        low - 0x1_0000
    } else {
        low
    }
}

/// The signed client coordinates packed into a pointer message's `LPARAM`:
/// `x` in bits 0-15, `y` in bits 16-31.
pub fn lparam_position(lparam: isize) -> (r: (i32, i32))
    ensures
        r.0 == signed_low_word(lparam as int),
        r.1 == signed_low_word((lparam as int) / 0x1_0000),
{
    let v = lparam as i64;
    let x = signed_low_word_exec(v);
    let y = signed_low_word_exec(floor_div_word(v));
    (x, y)
}

/// `v / 0x10000`, rounded toward negative infinity.
fn floor_div_word(v: i64) -> (r: i64)
    ensures
        r == (v as int) / 0x1_0000,
{
    let q = v / 0x1_0000;
    let r = v % 0x1_0000;
    if r < 0 {
        q - 1
    } else {
        q
    }
}

/// The low 16 bits of `v`, read as a signed 16-bit number.
fn signed_low_word_exec(v: i64) -> (r: i32)
    ensures
        r == signed_low_word(v as int),
{
    let r = v % 0x1_0000;
    let low = if r < 0 {
        r + 0x1_0000
    } else {
        r
    };
    if low >= 0x8000 {
        (low - 0x1_0000) as i32
    } else {
        low as i32
    }
}

/// Whether a `WM_CHAR` code unit is a keyboard shortcut rather than text:
/// C0 controls and DEL always are, and so is any character typed with the
/// Windows key, or with exactly one of Control and Alt (Control with Alt is
/// AltGr, which types printable text).
pub open spec fn windows_char_is_shortcut_spec(unit: u16, modifiers: Modifiers) -> bool {
    ||| unit < 0x20
    ||| unit == 0x7f
    ||| modifiers.platform
    ||| (modifiers.control && !modifiers.alt)
    ||| (modifiers.alt && !modifiers.control)
}

/// Control characters and DEL never type text. A printable character typed
/// without the Windows key is text exactly when Control and Alt are both
/// held (AltGr) or both released; the Windows key always makes a shortcut.
/// Shift and Fn never decide.
pub proof fn law_printable_chars_are_text_unless_one_of_control_and_alt(unit: u16, m: Modifiers)
    ensures
        unit < 0x20 || unit == 0x7f ==> windows_char_is_shortcut_spec(unit, m),
        m.platform ==> windows_char_is_shortcut_spec(unit, m),
        0x20 <= unit && unit != 0x7f && !m.platform ==> (windows_char_is_shortcut_spec(unit, m)
            <==> m.control != m.alt),
        windows_char_is_shortcut_spec(unit, m) == windows_char_is_shortcut_spec(
            unit,
            Modifiers { shift: !m.shift, function: !m.function, ..m },
        ),
{
}

/// Decide whether a `WM_CHAR` code unit is a shortcut rather than text.
pub fn windows_char_is_shortcut(unit: u16, modifiers: Modifiers) -> (r: bool)
    ensures
        r == windows_char_is_shortcut_spec(unit, modifiers),
{
    if unit < 0x20 || unit == 0x7f {
        return true;
    }
    modifiers.platform || (modifiers.control && !modifiers.alt) || (modifiers.alt
        && !modifiers.control)
}

/// Modifier state from VST3 modifier bits: shift is bit 0 and alt bit 1; the
/// command key is bit 2 on macOS and bit 3 elsewhere, control the other one.
pub fn vst3_modifiers(modifiers: i16, macos: bool) -> (r: Modifiers)
    ensures
        r.shift == (modifiers & 1 != 0),
        r.alt == (modifiers & 2 != 0),
        r.platform == (if macos {
            modifiers & 4 != 0
        } else {
            modifiers & 8 != 0
        }),
        r.control == (if macos {
            modifiers & 8 != 0
        } else {
            modifiers & 4 != 0
        }),
        !r.function,
{
    let (platform, control) = if macos {
        (4i16, 8i16)
    } else {
        (8i16, 4i16)
    };
    Modifiers {
        shift: modifiers & 1 != 0,
        alt: modifiers & 2 != 0,
        platform: modifiers & platform != 0,
        control: modifiers & control != 0,
        function: false,
    }
}

/// A high surrogate awaiting its low half, with the token of its message.
pub type PendingSurrogate = Option<(u16, Option<NativeEventToken>)>;

/// `WM_CHAR` decoding state: a high surrogate waiting for its low half,
/// the code units of the last IME commit that Windows may echo back as
/// character messages, and whether an IME composition is in progress.
pub struct WindowsTextState {
    pending_high_surrogate: PendingSurrogate,
    suppressed_commit_units: Vec<u16>,
    composition_active: bool,
}

/// The state of `WM_CHAR` decoding, as a value.
pub struct WindowsTextView {
    /// A high surrogate awaiting its low half.
    pub pending: PendingSurrogate,
    /// Code units still expected as the echo of the last IME commit.
    pub suppressed: Seq<u16>,
    /// Whether an IME composition is in progress.
    pub composition_active: bool,
}

/// Whether a code unit is a high (leading) surrogate.
pub open spec fn is_high_surrogate(unit: u16) -> bool {
    0xD800 <= unit <= 0xDBFF
}

/// Whether a code unit is a low (trailing) surrogate.
pub open spec fn is_low_surrogate(unit: u16) -> bool {
    0xDC00 <= unit <= 0xDFFF
}

/// The scalar a surrogate pair encodes.
pub open spec fn surrogate_pair_scalar(high: u16, low: u16) -> u32 {
    (0x1_0000 + (high - 0xD800) * 0x400 + (low - 0xDC00)) as u32
}

/// The text one non-surrogate-pair code unit commits: itself, or U+FFFD for
/// a lone surrogate.
pub open spec fn unit_text(unit: u16) -> Seq<char> {
    if is_high_surrogate(unit) || is_low_surrogate(unit) {
        seq!['\u{FFFD}']
    } else {
        seq![(unit as u32) as char]
    }
}

/// The text commits and the next pending surrogate after one `WM_CHAR` code
/// unit.
///
/// A low surrogate completing a pending high one commits their scalar under
/// the high half's token (or, lacking one, the low half's). A pending high
/// surrogate not followed by its low half commits U+FFFD. A new high
/// surrogate waits; any other unit commits its own text.
pub open spec fn decode_step(
    pending: PendingSurrogate,
    unit: u16,
    token: Option<NativeEventToken>,
) -> (Seq<(Seq<char>, Option<NativeEventToken>)>, PendingSurrogate) {
    match pending {
        Some((high, pending_token)) => if is_low_surrogate(unit) {
            (
                seq![
                    (
                        seq![surrogate_pair_scalar(high, unit) as char],
                        if pending_token is Some {
                            pending_token
                        } else {
                            token
                        },
                    ),
                ],
                None,
            )
        } else if is_high_surrogate(unit) {
            (seq![(seq!['\u{FFFD}'], pending_token)], Some((unit, token)))
        } else {
            (seq![(seq!['\u{FFFD}'], pending_token), (unit_text(unit), token)], None)
        },
        None => if is_high_surrogate(unit) {
            (seq![], Some((unit, token)))
        } else {
            (seq![(unit_text(unit), token)], None)
        },
    }
}

/// The view of decoded commits.
pub open spec fn commits_view(v: Seq<(String, Option<NativeEventToken>)>) -> Seq<
    (Seq<char>, Option<NativeEventToken>),
> {
    v.map_values(|c: (String, Option<NativeEventToken>)| (c.0@, c.1))
}

impl View for WindowsTextState {
    type V = WindowsTextView;

    closed spec fn view(&self) -> WindowsTextView {
        WindowsTextView {
            pending: self.pending_high_surrogate,
            suppressed: self.suppressed_commit_units@,
            composition_active: self.composition_active,
        }
    }
}

impl WindowsTextState {
    #[verifier::type_invariant]
    closed spec fn inv(self) -> bool {
        self.pending_high_surrogate matches Some((high, _)) ==> is_high_surrogate(high)
    }

    /// A decoder with nothing pending, nothing to suppress and no
    /// composition.
    pub fn new() -> (s: Self)
        ensures
            s@.pending is None,
            s@.suppressed.len() == 0,
            !s@.composition_active,
    {
        WindowsTextState {
            pending_high_surrogate: None,
            suppressed_commit_units: Vec::new(),
            composition_active: false,
        }
    }
}

/// The text of a code unit that is not part of a surrogate pair.
fn unit_string(unit: u16) -> (r: String)
    ensures
        r@ == unit_text(unit),
{
    match char_from_u32(unit as u32) {
        Some(c) => {
            proof {
                vstd::utf8::char_u32_cast(c, unit as u32);
            }
            string_of_char(c)
        },
        None => string_of_char('\u{FFFD}'),
    }
}

/// Decode one UTF-16 `WM_CHAR` code unit into zero, one or two text commits,
/// joining surrogate pairs into one scalar.
pub fn decode_windows_utf16_unit(
    state: &mut WindowsTextState,
    unit: u16,
    token: Option<NativeEventToken>,
) -> (output: Vec<(String, Option<NativeEventToken>)>)
    ensures
        commits_view(output@) == decode_step(old(state)@.pending, unit, token).0,
        final(state)@ == (WindowsTextView {
            pending: decode_step(old(state)@.pending, unit, token).1,
            ..old(state)@
        }),
{
    proof {
        use_type_invariant(&*state);
    }
    let mut output: Vec<(String, Option<NativeEventToken>)> = Vec::new();
    let pending = state.pending_high_surrogate;
    match pending {
        Some((high, pending_token)) => {
            if 0xDC00 <= unit && unit <= 0xDFFF {
                state.pending_high_surrogate = None;
                let code: u32 = 0x1_0000 + ((high as u32) - 0xD800) * 0x400 + ((unit as u32)
                    - 0xDC00);
                let committed = match char_from_u32(code) {
                    Some(c) => {
                        proof {
                            vstd::utf8::char_u32_cast(c, code);
                        }
                        c
                    },
                    None => {
                        assert(false);
                        '\u{FFFD}'
                    },
                };
                let t = match pending_token {
                    Some(p) => Some(p),
                    None => token,
                };
                output.push((string_of_char(committed), t));
            } else if 0xD800 <= unit && unit <= 0xDBFF {
                state.pending_high_surrogate = Some((unit, token));
                output.push((string_of_char('\u{FFFD}'), pending_token));
            } else {
                state.pending_high_surrogate = None;
                output.push((string_of_char('\u{FFFD}'), pending_token));
                output.push((unit_string(unit), token));
            }
        },
        None => {
            if 0xD800 <= unit && unit <= 0xDBFF {
                state.pending_high_surrogate = Some((unit, token));
            } else {
                output.push((unit_string(unit), token));
            }
        },
    }
    proof {
        assert(commits_view(output@) =~= decode_step(pending, unit, token).0);
    }
    output
}

/// A surrogate pair typed from an idle decoder commits exactly one scalar,
/// under the token of its first half when it has one, and leaves the
/// decoder idle again.
pub proof fn law_surrogate_pair_commits_one_scalar(
    high: u16,
    low: u16,
    first: Option<NativeEventToken>,
    second: Option<NativeEventToken>,
)
    requires
        is_high_surrogate(high),
        is_low_surrogate(low),
    ensures
        decode_step(None, high, first).0.len() == 0,
        decode_step(decode_step(None, high, first).1, low, second) == (
            seq![
                (
                    seq![surrogate_pair_scalar(high, low) as char],
                    if first is Some {
                        first
                    } else {
                        second
                    },
                ),
            ],
            None::<(u16, Option<NativeEventToken>)>,
        ),
        0x1_0000 <= surrogate_pair_scalar(high, low) <= 0x10FFFF,
{
}

/// Text without surrogates passes through one commit per code unit, and the
/// decoder stays idle.
pub proof fn law_plain_units_commit_themselves(unit: u16, token: Option<NativeEventToken>)
    requires
        !is_high_surrogate(unit),
        !is_low_surrogate(unit),
    ensures
        decode_step(None, unit, token) == (
            seq![(seq![(unit as u32) as char], token)],
            None::<(u16, Option<NativeEventToken>)>,
        ),
{
}

/// The UTF-16 code units of one character: itself below `0x10000`, else
/// its high and low surrogates.
pub open spec fn char_utf16_units(c: char) -> Seq<u16> {
    let v = c as u32;
    if v < 0x1_0000 {
        seq![v as u16]
    } else {
        seq![(0xD800 + (v - 0x1_0000) / 0x400) as u16, (0xDC00 + (v - 0x1_0000) % 0x400) as u16]
    }
}

/// The UTF-16 encoding of a character sequence.
pub open spec fn encode_utf16(s: Seq<char>) -> Seq<u16>
    decreases s.len(),
{
    if s.len() == 0 {
        Seq::empty()
    } else {
        char_utf16_units(s[0]) + encode_utf16(s.drop_first())
    }
}

/// The commits and final pending surrogate after feeding `units` one per
/// call, unit `i` with token `tokens[i]`.
pub open spec fn decode_units(
    pending: PendingSurrogate,
    units: Seq<u16>,
    tokens: Seq<Option<NativeEventToken>>,
) -> (Seq<(Seq<char>, Option<NativeEventToken>)>, PendingSurrogate)
    decreases units.len(),
{
    if units.len() == 0 {
        (Seq::empty(), pending)
    } else {
        let step = decode_step(pending, units[0], tokens[0]);
        let rest = decode_units(step.1, units.drop_first(), tokens.drop_first());
        (step.0 + rest.0, rest.1)
    }
}

/// The text of a sequence of commits, in order.
pub open spec fn committed_text(commits: Seq<(Seq<char>, Option<NativeEventToken>)>) -> Seq<char>
    decreases commits.len(),
{
    if commits.len() == 0 {
        Seq::empty()
    } else {
        commits[0].0 + committed_text(commits.drop_first())
    }
}

proof fn lemma_committed_text_prepend(
    first: Seq<(Seq<char>, Option<NativeEventToken>)>,
    rest: Seq<(Seq<char>, Option<NativeEventToken>)>,
)
    requires
        first.len() <= 1,
    ensures
        committed_text(first + rest) == committed_text(first) + committed_text(rest),
{
    if first.len() == 1 {
        assert((first + rest).drop_first() =~= rest);
        assert(first.drop_first() =~= Seq::<(Seq<char>, Option<NativeEventToken>)>::empty());
        assert(committed_text(first.drop_first()) == Seq::<char>::empty());
        assert(committed_text(first) =~= first[0].0);
    } else {
        assert(first + rest =~= rest);
    }
}

proof fn lemma_committed_text_single(a: (Seq<char>, Option<NativeEventToken>))
    ensures
        committed_text(seq![a]) == a.0,
{
    assert(seq![a].drop_first() =~= Seq::<(Seq<char>, Option<NativeEventToken>)>::empty());
    assert(committed_text(seq![a].drop_first()) == Seq::<char>::empty());
    assert(a.0 + Seq::<char>::empty() =~= a.0);
}

/// One decoding step commits at most two texts.
pub proof fn law_decode_step_commits_at_most_two(
    pending: PendingSurrogate,
    unit: u16,
    token: Option<NativeEventToken>,
)
    ensures
        decode_step(pending, unit, token).0.len() <= 2,
{
}

/// Feeding the UTF-16 encoding of any text to an idle decoder, one code
/// unit per call with any tokens, commits exactly that text and leaves the
/// decoder idle.
pub proof fn law_utf16_text_roundtrips(s: Seq<char>, tokens: Seq<Option<NativeEventToken>>)
    requires
        tokens.len() == encode_utf16(s).len(),
    ensures
        committed_text(decode_units(None, encode_utf16(s), tokens).0) == s,
        decode_units(None, encode_utf16(s), tokens).1 is None,
    decreases s.len(),
{
    if s.len() > 0 {
        let c = s[0];
        let v = c as u32;
        let rest = s.drop_first();
        let units = encode_utf16(s);
        let tail = encode_utf16(rest);
        if v < 0x1_0000 {
            assert(units.drop_first() =~= tail);
            law_utf16_text_roundtrips(rest, tokens.drop_first());
            let u = v as u16;
            assert(units[0] == u);
            assert(u as int == v as int);
            vstd::utf8::char_is_scalar(c);
            assert(v <= 0xD7FF || 0xE000 <= v);
            assert(!is_high_surrogate(u) && !is_low_surrogate(u));
            vstd::utf8::char_u32_cast(c, u as u32);
            assert(unit_text(u) == seq![c]);
            let step = decode_step(None, u, tokens[0]);
            let after = decode_units(None, tail, tokens.drop_first());
            lemma_committed_text_prepend(step.0, after.0);
            assert(step.0 == seq![(seq![c], tokens[0])]);
            lemma_committed_text_single((seq![c], tokens[0]));
            assert(seq![c] + rest =~= s);
        } else {
            vstd::utf8::char_is_scalar(c);
            let high = (0xD800 + (v - 0x1_0000) / 0x400) as u16;
            let low = (0xDC00 + (v - 0x1_0000) % 0x400) as u16;
            assert(units[0] == high && units[1] == low);
            assert(units.drop_first().drop_first() =~= tail);
            assert(units.drop_first()[0] == low);
            law_utf16_text_roundtrips(rest, tokens.drop_first().drop_first());
            assert(0 <= (v - 0x1_0000) / 0x400 < 0x400 && 0 <= (v - 0x1_0000) % 0x400 < 0x400);
            assert(is_high_surrogate(high) && is_low_surrogate(low));
            vstd::arithmetic::div_mod::lemma_fundamental_div_mod((v - 0x1_0000) as int, 0x400);
            assert(surrogate_pair_scalar(high, low) == v);
            vstd::utf8::char_u32_cast(c, v);
            let first = decode_step(None, high, tokens[0]);
            assert(first.0.len() == 0);
            let second = decode_step(first.1, low, tokens.drop_first()[0]);
            let after = decode_units(None, tail, tokens.drop_first().drop_first());
            assert(decode_units(first.1, units.drop_first(), tokens.drop_first()) == (
                second.0 + after.0,
                after.1,
            ));
            assert(first.0 + (second.0 + after.0) =~= second.0 + after.0);
            lemma_committed_text_prepend(second.0, after.0);
            assert(second.0 == seq![(seq![c], second.0[0].1)]);
            lemma_committed_text_single(second.0[0]);
            assert(seq![c] + rest =~= s);
        }
    }
}

/// The commits and next state after one `WM_CHAR` code unit: shortcuts are
/// ignored; a unit that the last IME commit is expected to echo is
/// swallowed; any other unit ends the echo and is decoded.
pub open spec fn windows_char_step(
    s: WindowsTextView,
    unit: u16,
    modifiers: Modifiers,
    token: Option<NativeEventToken>,
) -> (Seq<(Seq<char>, Option<NativeEventToken>)>, WindowsTextView) {
    if windows_char_is_shortcut_spec(unit, modifiers) {
        (Seq::empty(), s)
    } else if s.suppressed.len() > 0 && s.suppressed[0] == unit {
        (Seq::empty(), WindowsTextView { suppressed: s.suppressed.drop_first(), ..s })
    } else {
        let d = decode_step(s.pending, unit, token);
        (d.0, WindowsTextView { pending: d.1, suppressed: Seq::empty(), ..s })
    }
}

/// Handle one `WM_CHAR` code unit: the text commits it produces.
pub fn windows_char(
    state: &mut WindowsTextState,
    unit: u16,
    modifiers: Modifiers,
    token: Option<NativeEventToken>,
) -> (output: Vec<(String, Option<NativeEventToken>)>)
    ensures
        commits_view(output@) == windows_char_step(old(state)@, unit, modifiers, token).0,
        final(state)@ == windows_char_step(old(state)@, unit, modifiers, token).1,
{
    if windows_char_is_shortcut(unit, modifiers) {
        let output: Vec<(String, Option<NativeEventToken>)> = Vec::new();
        proof {
            assert(commits_view(output@) =~= Seq::empty());
        }
        return output;
    }
    proof {
        use_type_invariant(&*state);
    }
    if state.suppressed_commit_units.len() > 0 && state.suppressed_commit_units[0] == unit {
        let mut queue: Vec<u16> = Vec::new();
        std::mem::swap(&mut queue, &mut state.suppressed_commit_units);
        queue.remove(0);
        state.suppressed_commit_units = queue;
        let output: Vec<(String, Option<NativeEventToken>)> = Vec::new();
        proof {
            assert(commits_view(output@) =~= Seq::empty());
            assert(state@.suppressed =~= old(state)@.suppressed.drop_first());
        }
        return output;
    }
    state.suppressed_commit_units = Vec::new();
    decode_windows_utf16_unit(state, unit, token)
}

proof fn lemma_encode_utf16_push(a: Seq<char>, c: char)
    ensures
        encode_utf16(a.push(c)) == encode_utf16(a) + char_utf16_units(c),
    decreases a.len(),
{
    if a.len() == 0 {
        assert(a.push(c).drop_first() =~= Seq::<char>::empty());
        assert(encode_utf16(Seq::<char>::empty()) =~= Seq::<u16>::empty());
        assert(char_utf16_units(c) + Seq::<u16>::empty() =~= char_utf16_units(c));
        assert(Seq::<u16>::empty() + char_utf16_units(c) =~= char_utf16_units(c));
    } else {
        assert(a.push(c).drop_first() =~= a.drop_first().push(c));
        lemma_encode_utf16_push(a.drop_first(), c);
        assert(a.push(c)[0] == a[0]);
        assert(char_utf16_units(a[0]) + (encode_utf16(a.drop_first()) + char_utf16_units(c))
            =~= (char_utf16_units(a[0]) + encode_utf16(a.drop_first())) + char_utf16_units(c));
    }
}

/// The UTF-16 code units of a string.
pub fn utf16_units_of(text: &str) -> (units: Vec<u16>)
    ensures
        units@ == encode_utf16(text@),
{
    let chars = crate::text::chars_of(text);
    let mut units: Vec<u16> = Vec::new();
    let mut i: usize = 0;
    proof {
        assert(chars@.take(0) =~= Seq::<char>::empty());
        assert(encode_utf16(Seq::<char>::empty()) =~= Seq::<u16>::empty());
    }
    while i < chars.len()
        invariant
            i <= chars.len(),
            units@ == encode_utf16(chars@.take(i as int)),
        decreases chars.len() - i,
    {
        let c = chars[i];
        let v = c as u32;
        proof {
            assert(chars@.take(i + 1) =~= chars@.take(i as int).push(c));
            lemma_encode_utf16_push(chars@.take(i as int), c);
            vstd::utf8::char_is_scalar(c);
        }
        if v < 0x1_0000 {
            units.push(v as u16);
            proof {
                assert(units@ =~= encode_utf16(chars@.take(i as int)) + char_utf16_units(c));
            }
        } else {
            units.push((0xD800 + (v - 0x1_0000) / 0x400) as u16);
            units.push((0xDC00 + (v - 0x1_0000) % 0x400) as u16);
            proof {
                assert(units@ =~= encode_utf16(chars@.take(i as int)) + char_utf16_units(c));
            }
        }
        i = i + 1;
    }
    proof {
        assert(chars@.take(chars.len() as int) =~= chars@);
    }
    units
}

/// Handle an IME composition message: a result commits `text` (the caller
/// dispatches it), drops any pending surrogate and expects the character
/// messages that echo it; an intermediate composition only marks the
/// composition as active.
pub fn windows_ime_composition(state: &mut WindowsTextState, text: &str, result: bool)
    ensures
        result ==> final(state)@ == (WindowsTextView {
            pending: None,
            suppressed: encode_utf16(text@),
            composition_active: false,
        }),
        !result ==> final(state)@ == (WindowsTextView { composition_active: true, ..old(state)@ }),
{
    proof {
        use_type_invariant(&*state);
    }
    if result {
        let units = utf16_units_of(text);
        state.pending_high_surrogate = None;
        state.suppressed_commit_units = units;
        state.composition_active = false;
    } else {
        state.composition_active = true;
    }
}

/// Handle the end of an IME composition.
pub fn windows_ime_end(state: &mut WindowsTextState)
    ensures
        final(state)@ == (WindowsTextView { composition_active: false, ..old(state)@ }),
{
    proof {
        use_type_invariant(&*state);
    }
    state.composition_active = false;
}

/// The commits and final state after feeding `units` one per call, all
/// with the same modifiers and token.
pub open spec fn feed_chars(
    s: WindowsTextView,
    units: Seq<u16>,
    modifiers: Modifiers,
    token: Option<NativeEventToken>,
) -> (Seq<(Seq<char>, Option<NativeEventToken>)>, WindowsTextView)
    decreases units.len(),
{
    if units.len() == 0 {
        (Seq::empty(), s)
    } else {
        let step = windows_char_step(s, units[0], modifiers, token);
        let rest = feed_chars(step.1, units.drop_first(), modifiers, token);
        (step.0 + rest.0, rest.1)
    }
}

/// After an IME commit, the character messages that echo its text (none of
/// them a shortcut) commit nothing more, and leave nothing to suppress.
pub proof fn law_ime_commit_echo_is_swallowed(
    s: WindowsTextView,
    units: Seq<u16>,
    modifiers: Modifiers,
    token: Option<NativeEventToken>,
)
    requires
        s.suppressed == units,
        forall|i: int| 0 <= i < units.len() ==> !windows_char_is_shortcut_spec(
            #[trigger] units[i],
            modifiers,
        ),
    ensures
        feed_chars(s, units, modifiers, token).0.len() == 0,
        feed_chars(s, units, modifiers, token).1 == (WindowsTextView {
            suppressed: Seq::empty(),
            ..s
        }),
    decreases units.len(),
{
    if units.len() > 0 {
        let next = WindowsTextView { suppressed: units.drop_first(), ..s };
        assert(windows_char_step(s, units[0], modifiers, token) == (
            Seq::<(Seq<char>, Option<NativeEventToken>)>::empty(),
            next,
        ));
        assert forall|i: int| 0 <= i < units.drop_first().len() implies !windows_char_is_shortcut_spec(
            #[trigger] units.drop_first()[i],
            modifiers,
        ) by {
            assert(units.drop_first()[i] == units[i + 1]);
        }
        law_ime_commit_echo_is_swallowed(next, units.drop_first(), modifiers, token);
        assert(Seq::<(Seq<char>, Option<NativeEventToken>)>::empty() + feed_chars(
            next,
            units.drop_first(),
            modifiers,
            token,
        ).0 =~= feed_chars(next, units.drop_first(), modifiers, token).0);
    } else {
        assert(s.suppressed =~= Seq::<u16>::empty());
    }
}

} // verus!
