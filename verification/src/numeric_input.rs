//! The editing core of a numeric text field: the draft text, its selection
//! and IME composition range, and how keys, pointer gestures and input
//! method requests change them.
//!
//! Offsets inside the draft count characters; the input-method interface
//! speaks UTF-16 code units, as platform text systems do.

use vstd::prelude::*;

use crate::chars::{char_utf16_len, char_utf8_len, utf16_len, utf8_len};
use crate::events::Modifiers;
use crate::strings::string_of;
use crate::text::{
    chars_of, chars_within_utf16, is_numeric_chars, is_numeric_draft_spec, lemma_utf16_units_take_next,
    lemma_utf8_bytes_append, lemma_utf8_bytes_take_next, str_eq, utf16_units, utf8_bytes,
};

verus! {

/// Largest accepted draft, in UTF-8 bytes.
pub const MAX_NUMERIC_TEXT_BYTES: usize = 64;

/// Emitted whenever the numeric draft changes through text or IME input.
#[derive(Clone, Debug, PartialEq, Eq)]
pub struct NumericInputChanged {
    /// The current numeric draft. It may be incomplete, such as `-` or `.`.
    pub text: String,
}

/// Emitted when the user submits the current draft with Enter.
#[derive(Clone, Debug, PartialEq, Eq)]
pub struct NumericInputSubmitted {
    /// The submitted numeric draft.
    pub text: String,
}

/// Emitted when the user cancels the current draft with Escape or blur.
#[derive(Clone, Copy, Debug, Default, PartialEq, Eq)]
pub struct NumericInputCanceled;

/// Direction and size of a keyboard step request.
#[derive(Clone, Copy, Debug, PartialEq, Eq, Structural)]
pub struct NumericStep {
    /// Whether the value steps up (Up key) rather than down.
    pub up: bool,
    /// Whether the fine step applies (Shift held).
    pub fine: bool,
}

/// What one key press asks of the embedding view.
pub struct KeyResponse {
    /// Whether the key was consumed (event propagation stops).
    pub handled: bool,
    /// Text to place on the clipboard.
    pub clipboard_write: Option<String>,
    /// Whether the clipboard should be read and pasted with `paste`.
    pub paste_requested: bool,
    /// The draft change, if the key edited the draft.
    pub changed: Option<NumericInputChanged>,
    /// The submission, if Enter was pressed.
    pub submitted: Option<NumericInputSubmitted>,
    /// Whether Escape canceled the draft.
    pub canceled: bool,
    /// The requested value step, if Up or Down was pressed.
    pub step: Option<NumericStep>,
}

/// The observable state of a numeric draft.
pub struct DraftState {
    /// The draft text.
    pub content: Seq<char>,
    /// Selected character range `[start, end)`.
    pub selected: (usize, usize),
    /// Whether the caret is at the start of the selection.
    pub reversed: bool,
    /// Fixed end of a selection being extended.
    pub anchor: usize,
    /// Character range of the uncommitted IME composition.
    pub marked: Option<(usize, usize)>,
    /// Whether an editing session is active.
    pub editing: bool,
    /// Whether a pointer drag is selecting text.
    pub dragging: bool,
}

/// Ranges inside the text, and a text short enough to measure in `usize`.
pub open spec fn draft_invariant(s: DraftState) -> bool {
    &&& s.selected.0 <= s.selected.1 <= s.content.len()
    &&& s.anchor <= s.content.len()
    &&& (s.marked matches Some(m) ==> m.0 <= m.1 <= s.content.len())
    &&& utf8_bytes(s.content) <= usize::MAX
}

/// The text that replacing `[start, end)` of `content` with `text` yields.
pub open spec fn replaced(content: Seq<char>, start: int, end: int, text: Seq<char>) -> Seq<char> {
    content.subrange(0, start) + text + content.subrange(end, content.len() as int)
}

/// Whether replacing `[start, end)` with `text` keeps a short numeric draft.
pub open spec fn valid_replacement_spec(content: Seq<char>, start: int, end: int, text: Seq<char>) -> bool {
    &&& utf8_bytes(replaced(content, start, end, text)) <= MAX_NUMERIC_TEXT_BYTES
    &&& is_numeric_draft_spec(text)
    &&& is_numeric_draft_spec(replaced(content, start, end, text))
}

/// Whether a replacement of `[start, end)` with `text` is accepted.
pub open spec fn replacement_accepted(s: DraftState, start: int, end: int, text: Seq<char>) -> bool {
    &&& start <= end <= s.content.len()
    &&& 0 <= start
    &&& valid_replacement_spec(s.content, start, end, text)
}

/// The state after an accepted replacement: the caret follows the inserted
/// text and any composition ends.
pub open spec fn after_replace(s: DraftState, start: int, end: int, text: Seq<char>) -> DraftState {
    let caret = (start + text.len()) as usize;
    DraftState {
        content: replaced(s.content, start, end, text),
        selected: (caret, caret),
        reversed: false,
        anchor: caret,
        marked: None,
        editing: true,
        ..s
    }
}

/// The state after `select_to(offset)`: the selection spans the anchor and
/// the offset, reversed when the offset lies before the anchor.
pub open spec fn after_select_to(s: DraftState, offset: usize) -> DraftState {
    let o = if offset <= s.content.len() {
        offset
    } else {
        s.content.len() as usize
    };
    let a = if s.anchor <= s.content.len() {
        s.anchor
    } else {
        s.content.len() as usize
    };
    if o < a {
        DraftState { selected: (o, a), reversed: true, ..s }
    } else {
        DraftState { selected: (a, o), reversed: false, ..s }
    }
}

/// The state after `move_to(offset)`: an empty selection at the offset.
pub open spec fn after_move_to(s: DraftState, offset: usize) -> DraftState {
    let o = if offset <= s.content.len() {
        offset
    } else {
        s.content.len() as usize
    };
    DraftState { selected: (o, o), reversed: false, anchor: o, ..s }
}

/// The caret position.
pub open spec fn cursor_spec(s: DraftState) -> usize {
    if s.reversed {
        s.selected.0
    } else {
        s.selected.1
    }
}

/// The UTF-16 offset of character offset `i`.
pub open spec fn utf16_offset_of(content: Seq<char>, i: int) -> nat {
    utf16_units(content.take(i))
}

/// The editing core of a numeric text field.
pub struct NumericDraft {
    content: Vec<char>,
    selected: (usize, usize),
    reversed: bool,
    anchor: usize,
    marked: Option<(usize, usize)>,
    editing: bool,
    dragging: bool,
}

impl View for NumericDraft {
    type V = DraftState;

    closed spec fn view(&self) -> DraftState {
        DraftState {
            content: self.content@,
            selected: self.selected,
            reversed: self.reversed,
            anchor: self.anchor,
            marked: self.marked,
            editing: self.editing,
            dragging: self.dragging,
        }
    }
}

/// UTF-16 never needs more code units than UTF-8 needs bytes.
pub proof fn lemma_utf16_units_at_most_bytes(s: Seq<char>)
    ensures
        utf16_units(s) <= utf8_bytes(s),
    decreases s.len(),
{
    if s.len() > 0 {
        lemma_utf16_units_at_most_bytes(s.drop_first());
        assert(s =~= seq![s[0]] + s.drop_first());
        lemma_utf8_bytes_append(seq![s[0]], s.drop_first());
        crate::text::lemma_utf8_bytes_single(s[0]);
        vstd::utf8::char_is_scalar(s[0]);
    }
}

/// A character sequence has at most as many characters as UTF-8 bytes.
proof fn lemma_len_at_most_bytes(s: Seq<char>)
    ensures
        s.len() <= utf8_bytes(s),
    decreases s.len(),
{
    if s.len() > 0 {
        lemma_len_at_most_bytes(s.drop_first());
        assert(s =~= seq![s[0]] + s.drop_first());
        lemma_utf8_bytes_append(seq![s[0]], s.drop_first());
        crate::text::lemma_utf8_bytes_single(s[0]);
        vstd::utf8::char_is_scalar(s[0]);
    }
}

/// A prefix or a slice never has more UTF-8 bytes than the whole.
proof fn lemma_utf8_bytes_subrange(s: Seq<char>, i: int, j: int)
    requires
        0 <= i <= j <= s.len(),
    ensures
        utf8_bytes(s.subrange(i, j)) <= utf8_bytes(s),
        utf8_bytes(s.take(j)) <= utf8_bytes(s),
        utf8_bytes(s) == utf8_bytes(s.take(i)) + utf8_bytes(s.subrange(i, j)) + utf8_bytes(
            s.subrange(j, s.len() as int),
        ),
{
    assert(s =~= s.take(i) + s.subrange(i, j) + s.subrange(j, s.len() as int));
    lemma_utf8_bytes_append(s.take(i) + s.subrange(i, j), s.subrange(j, s.len() as int));
    lemma_utf8_bytes_append(s.take(i), s.subrange(i, j));
    assert(s.take(j) =~= s.take(i) + s.subrange(i, j));
}

/// Counting more UTF-16 units never admits fewer characters.
proof fn lemma_chars_within_utf16_monotone(s: Seq<char>, a: int, b: int)
    requires
        a <= b,
    ensures
        chars_within_utf16(s, a) <= chars_within_utf16(s, b),
    decreases s.len(),
{
    if s.len() > 0 && utf16_len(s[0]) <= a {
        lemma_chars_within_utf16_monotone(s.drop_first(), a - utf16_len(s[0]), b - utf16_len(s[0]));
    }
}

/// The UTF-8 length of a sequence, which must fit in `usize`.
fn utf8_len_of(v: &Vec<char>, start: usize, end: usize) -> (n: usize)
    requires
        start <= end <= v@.len(),
        utf8_bytes(v@) <= usize::MAX,
    ensures
        n == utf8_bytes(v@.subrange(start as int, end as int)),
{
    let mut i = start;
    let mut n: usize = 0;
    proof {
        assert(v@.subrange(start as int, start as int) =~= Seq::<char>::empty());
        assert(vstd::utf8::encode_utf8(Seq::<char>::empty()) =~= Seq::<u8>::empty());
    }
    while i < end
        invariant
            start <= i <= end <= v@.len(),
            utf8_bytes(v@) <= usize::MAX,
            n == utf8_bytes(v@.subrange(start as int, i as int)),
        decreases end - i,
    {
        proof {
            let sub = v@.subrange(start as int, end as int);
            lemma_utf8_bytes_take_next(sub, i - start);
            assert(sub.take(i - start) =~= v@.subrange(start as int, i as int));
            assert(sub.take(i - start + 1) =~= v@.subrange(start as int, i + 1));
            lemma_utf8_bytes_subrange(v@, start as int, end as int);
        }
        n = n + char_utf8_len(v[i]);
        i = i + 1;
    }
    n
}

/// The characters of a vector as a string.
fn string_of_chars(v: &Vec<char>, start: usize, end: usize) -> (r: String)
    requires
        start <= end <= v@.len(),
    ensures
        r@ == v@.subrange(start as int, end as int),
{
    let mut r = String::new();
    let mut i = start;
    while i < end
        invariant
            start <= i <= end <= v@.len(),
            r@ == v@.subrange(start as int, i as int),
        decreases end - i,
    {
        r.push(v[i]);
        i = i + 1;
        assert(r@ =~= v@.subrange(start as int, i as int));
    }
    r
}

/// How many leading characters of `v` fit within `offset` UTF-16 units.
pub fn utf16_char_offset(v: &Vec<char>, offset: usize) -> (r: usize)
    ensures
        r == chars_within_utf16(v@, offset as int),
        r <= v@.len(),
{
    proof {
        crate::text::lemma_chars_within_utf16_bounds(v@, offset as int);
    }
    let n = v.len();
    let ghost s = v@;
    let mut i: usize = 0;
    let mut used: usize = 0;
    proof {
        assert(s.skip(0) =~= s);
    }
    while i < n
        invariant
            n == s.len(),
            s == v@,
            i <= n,
            used <= offset,
            chars_within_utf16(s, offset as int) == i + chars_within_utf16(
                s.skip(i as int),
                offset - used,
            ),
        decreases n - i,
    {
        let ch = v[i];
        proof {
            assert(s.skip(i as int)[0] == ch);
            assert(s.skip(i as int).drop_first() =~= s.skip(i + 1));
        }
        let width = char_utf16_len(ch);
        if width > offset - used {
            return i;
        }
        used = used + width;
        i = i + 1;
    }
    n
}

/// `s` without carriage returns and line feeds.
pub open spec fn strip_line_breaks(s: Seq<char>) -> Seq<char>
    decreases s.len(),
{
    if s.len() == 0 {
        s
    } else if s.last() == '\r' || s.last() == '\n' {
        strip_line_breaks(s.drop_last())
    } else {
        strip_line_breaks(s.drop_last()).push(s.last())
    }
}

/// The text without carriage returns and line feeds.
pub fn without_line_breaks(text: &str) -> (r: String)
    ensures
        r@ == strip_line_breaks(text@),
{
    let n = text.unicode_len();
    let mut r = String::new();
    let mut i: usize = 0;
    proof {
        assert(text@.take(0) =~= Seq::<char>::empty());
    }
    while i < n
        invariant
            n == text@.len(),
            i <= n,
            r@ == strip_line_breaks(text@.take(i as int)),
        decreases n - i,
    {
        let c = text.get_char(i);
        proof {
            assert(text@.take(i + 1).drop_last() =~= text@.take(i as int));
            assert(text@.take(i + 1).last() == c);
        }
        if c != '\r' && c != '\n' {
            r.push(c);
        }
        i = i + 1;
    }
    proof {
        assert(text@.take(n as int) =~= text@);
    }
    r
}

/// The characters `[start, end)` of `content` with `text` in their place.
fn spliced(content: &Vec<char>, start: usize, end: usize, text: &Vec<char>) -> (r: Vec<char>)
    requires
        start <= end <= content@.len(),
    ensures
        r@ == replaced(content@, start as int, end as int, text@),
{
    let len = content.len();
    let mut out: Vec<char> = Vec::new();
    let mut i: usize = 0;
    while i < start
        invariant
            i <= start <= end <= len == content@.len(),
            out@ == content@.subrange(0, i as int),
        decreases start - i,
    {
        out.push(content[i]);
        i = i + 1;
        assert(out@ =~= content@.subrange(0, i as int));
    }
    let mut j: usize = 0;
    while j < text.len()
        invariant
            j <= text@.len(),
            start <= end <= len == content@.len(),
            out@ == content@.subrange(0, start as int) + text@.take(j as int),
        decreases text@.len() - j,
    {
        out.push(text[j]);
        j = j + 1;
        assert(out@ =~= content@.subrange(0, start as int) + text@.take(j as int));
    }
    proof {
        assert(text@.take(text@.len() as int) =~= text@);
    }
    let mut k: usize = end;
    while k < len
        invariant
            end <= k <= len == content@.len(),
            out@ == content@.subrange(0, start as int) + text@ + content@.subrange(end as int, k as int),
        decreases len - k,
    {
        out.push(content[k]);
        k = k + 1;
        assert(out@ =~= content@.subrange(0, start as int) + text@ + content@.subrange(
            end as int,
            k as int,
        ));
    }
    out
}

impl NumericDraft {
    #[verifier::type_invariant]
    closed spec fn inv(self) -> bool {
        draft_invariant(self@)
    }

    /// A draft showing `text` with the caret at its end and no session.
    pub fn new(text: &str) -> (d: Self)
        ensures
            d@.content == text@,
            d@.selected == (text@.len() as usize, text@.len() as usize),
            !d@.reversed,
            d@.anchor == text@.len(),
            d@.marked is None,
            !d@.editing,
            !d@.dragging,
            draft_invariant(d@),
    {
        let total = text.as_bytes().len();
        let content = chars_of(text);
        let end = content.len();
        NumericDraft {
            content,
            selected: (end, end),
            reversed: false,
            anchor: end,
            marked: None,
            editing: false,
            dragging: false,
        }
    }

    /// The current draft text.
    pub fn text(&self) -> (r: String)
        ensures
            r@ == self@.content,
    {
        string_of_chars(&self.content, 0, self.content.len())
    }

    /// Whether an editing session is active.
    pub fn is_editing(&self) -> (r: bool)
        ensures
            r == self@.editing,
    {
        self.editing
    }

    /// Start or finish an editing session; finishing drops any composition.
    pub fn set_editing(&mut self, editing: bool)
        ensures
            old(self)@.editing == editing ==> final(self)@ == old(self)@,
            old(self)@.editing != editing ==> final(self)@ == (DraftState {
                editing,
                marked: if editing {
                    old(self)@.marked
                } else {
                    None
                },
                ..old(self)@
            }),
            draft_invariant(final(self)@),
    {
        proof {
            use_type_invariant(&*self);
        }
        if self.editing == editing {
            return;
        }
        let marked = if editing {
            self.marked
        } else {
            None
        };
        self.marked = marked;
        self.editing = editing;
    }

    /// Replace the draft text, leaving the caret at its end.
    pub fn set_text(&mut self, text: &str)
        ensures
            final(self)@ == (DraftState {
                content: text@,
                selected: (text@.len() as usize, text@.len() as usize),
                reversed: false,
                anchor: text@.len() as usize,
                marked: None,
                ..old(self)@
            }),
            draft_invariant(final(self)@),
    {
        let total = text.as_bytes().len();
        let content = chars_of(text);
        let end = content.len();
        *self = NumericDraft {
            content,
            selected: (end, end),
            reversed: false,
            anchor: end,
            marked: None,
            editing: self.editing,
            dragging: self.dragging,
        };
    }

    /// The caret position.
    pub fn cursor_offset(&self) -> (r: usize)
        ensures
            r == cursor_spec(self@),
            r <= self@.content.len(),
    {
        proof {
            use_type_invariant(self);
        }
        if self.reversed {
            self.selected.0
        } else {
            self.selected.1
        }
    }

    /// The character boundary before `offset`.
    pub fn previous_boundary(&self, offset: usize) -> (r: usize)
        requires
            offset <= self@.content.len(),
        ensures
            r == (if offset == 0 {
                0
            } else {
                offset - 1
            }),
    {
        if offset == 0 {
            0
        } else {
            offset - 1
        }
    }

    /// The character boundary after `offset`.
    pub fn next_boundary(&self, offset: usize) -> (r: usize)
        requires
            offset <= self@.content.len(),
        ensures
            r == (if offset < self@.content.len() {
                offset + 1
            } else {
                self@.content.len() as int
            }),
    {
        if offset < self.content.len() {
            offset + 1
        } else {
            self.content.len()
        }
    }

    /// Collapse the selection to `offset`.
    pub fn move_to(&mut self, offset: usize)
        ensures
            final(self)@ == after_move_to(old(self)@, offset),
            draft_invariant(final(self)@),
    {
        proof {
            use_type_invariant(&*self);
        }
        let o = if offset < self.content.len() {
            offset
        } else {
            self.content.len()
        };
        self.selected = (o, o);
        self.reversed = false;
        self.anchor = o;
    }

    /// Extend the selection from its anchor to `offset`.
    pub fn select_to(&mut self, offset: usize)
        ensures
            final(self)@ == after_select_to(old(self)@, offset),
            draft_invariant(final(self)@),
    {
        proof {
            use_type_invariant(&*self);
        }
        let len = self.content.len();
        let o = if offset < len {
            offset
        } else {
            len
        };
        let a = if self.anchor < len {
            self.anchor
        } else {
            len
        };
        if o < a {
            self.selected = (o, a);
            self.reversed = true;
        } else {
            self.selected = (a, o);
            self.reversed = false;
        }
    }

    /// Select the whole draft.
    pub fn select_all(&mut self)
        ensures
            final(self)@ == (DraftState {
                selected: (0, old(self)@.content.len() as usize),
                reversed: false,
                anchor: 0,
                ..old(self)@
            }),
            draft_invariant(final(self)@),
    {
        proof {
            use_type_invariant(&*self);
        }
        let len = self.content.len();
        self.selected = (0, len);
        self.reversed = false;
        self.anchor = 0;
    }

    /// The character offset of the last boundary at or before a UTF-16 offset.
    pub fn offset_from_utf16(&self, offset: usize) -> (r: usize)
        ensures
            r == chars_within_utf16(self@.content, offset as int),
            r <= self@.content.len(),
    {
        utf16_char_offset(&self.content, offset)
    }

    /// The UTF-16 offset of character offset `offset`.
    pub fn offset_to_utf16(&self, offset: usize) -> (r: usize)
        requires
            offset <= self@.content.len(),
        ensures
            r == utf16_offset_of(self@.content, offset as int),
    {
        proof {
            use_type_invariant(self);
        }
        let mut i: usize = 0;
        let mut units: usize = 0;
        proof {
            assert(self.content@.take(0) =~= Seq::<char>::empty());
            assert(utf16_units(Seq::<char>::empty()) == 0);
        }
        while i < offset
            invariant
                offset <= self.content@.len(),
                i <= offset,
                units == utf16_units(self.content@.take(i as int)),
                utf8_bytes(self.content@) <= usize::MAX,
            decreases offset - i,
        {
            proof {
                lemma_utf16_units_take_next(self.content@, i as int);
                lemma_utf16_units_at_most_bytes(self.content@.take(i + 1));
                lemma_utf8_bytes_subrange(self.content@, 0, i + 1);
            }
            units = units + char_utf16_len(self.content[i]);
            i = i + 1;
        }
        units
    }

    /// Whether replacing `[start, end)` with `text` keeps a short numeric draft.
    pub fn valid_replacement(&self, start: usize, end: usize, text: &str) -> (r: bool)
        requires
            start <= end <= self@.content.len(),
        ensures
            r == valid_replacement_spec(self@.content, start as int, end as int, text@),
    {
        proof {
            use_type_invariant(self);
        }
        let s = &self.content;
        let len = s.len();
        let text_chars = chars_of(text);
        let ghost t = text@;
        let ghost result = replaced(s@, start as int, end as int, t);
        proof {
            lemma_utf8_bytes_subrange(s@, start as int, end as int);
            lemma_utf8_bytes_append(s@.subrange(0, start as int) + t, s@.subrange(
                end as int,
                len as int,
            ));
            lemma_utf8_bytes_append(s@.subrange(0, start as int), t);
            assert(s@.take(start as int) =~= s@.subrange(0, start as int));
        }
        let before = utf8_len_of(s, 0, start);
        let after = utf8_len_of(s, end, len);
        let text_len = text.as_bytes().len();
        if text_len > MAX_NUMERIC_TEXT_BYTES || before + after > MAX_NUMERIC_TEXT_BYTES
            - text_len {
            return false;
        }
        if !is_numeric_chars(&text_chars) {
            return false;
        }
        let candidate = spliced(s, start, end, &text_chars);
        is_numeric_chars(&candidate)
    }

    /// Replace `[start, end)` with `text` when the result is a short numeric
    /// draft; the caret then follows the inserted text. Returns the change.
    pub fn replace_text(&mut self, start: usize, end: usize, text: &str) -> (r: Option<
        NumericInputChanged,
    >)
        ensures
            replacement_accepted(old(self)@, start as int, end as int, text@) ==> {
                &&& final(self)@ == after_replace(old(self)@, start as int, end as int, text@)
                &&& r matches Some(c) && c.text@ == final(self)@.content
            },
            !replacement_accepted(old(self)@, start as int, end as int, text@) ==> {
                &&& final(self)@ == old(self)@
                &&& r is None
            },
            draft_invariant(final(self)@),
    {
        proof {
            use_type_invariant(&*self);
        }
        if start > end || end > self.content.len() {
            return None;
        }
        if !self.valid_replacement(start, end, text) {
            return None;
        }
        let text_chars = chars_of(text);
        let ghost t = text@;
        let len = self.content.len();
        let content = spliced(&self.content, start, end, &text_chars);
        proof {
            assert(content@.len() == start + t.len() + (len - end));
            lemma_len_at_most_bytes(content@);
        }
        let caret = start + text_chars.len();
        *self = NumericDraft {
            content,
            selected: (caret, caret),
            reversed: false,
            anchor: caret,
            marked: None,
            editing: true,
            dragging: self.dragging,
        };
        let changed = string_of_chars(&self.content, 0, self.content.len());
        proof {
            assert(self.content@.subrange(0, self.content@.len() as int) =~= self.content@);
        }
        Some(NumericInputChanged { text: changed })
    }
}

/// The state after a replacement that was either accepted or rejected.
pub open spec fn after_replace_if_valid(s: DraftState, start: int, end: int, text: Seq<char>) -> DraftState {
    if replacement_accepted(s, start, end, text) {
        after_replace(s, start, end, text)
    } else {
        s
    }
}

/// The draft change a replacement reports.
pub open spec fn replace_report(s: DraftState, start: int, end: int, text: Seq<char>) -> Option<Seq<char>> {
    if replacement_accepted(s, start, end, text) {
        Some(replaced(s.content, start, end, text))
    } else {
        None
    }
}

/// The view of a reported change.
pub open spec fn changed_view(c: Option<NumericInputChanged>) -> Option<Seq<char>> {
    match c {
        Some(x) => Some(x.text@),
        None => None,
    }
}

/// The character range an input-method request addresses: the given UTF-16
/// range, else the composition, else the selection.
pub open spec fn ime_target(s: DraftState, range_utf16: Option<(usize, usize)>) -> (int, int) {
    match range_utf16 {
        Some(r) => (
            chars_within_utf16(s.content, r.0 as int) as int,
            chars_within_utf16(s.content, r.1 as int) as int,
        ),
        None => match s.marked {
            Some(m) => (m.0 as int, m.1 as int),
            None => (s.selected.0 as int, s.selected.1 as int),
        },
    }
}

/// The state after a composition update replaces `[start, end)` with `text`:
/// the composition covers the new text (nothing when it is empty) and the
/// selection is the requested range inside it, or the caret after it.
pub open spec fn after_mark(
    s: DraftState,
    start: int,
    end: int,
    text: Seq<char>,
    selection_utf16: Option<(usize, usize)>,
) -> DraftState {
    let selected: (usize, usize) = match selection_utf16 {
        Some(sel) => {
            let a = chars_within_utf16(text, sel.0 as int);
            let b = chars_within_utf16(text, sel.1 as int);
            let b2 = if b >= a {
                b
            } else {
                a
            };
            ((start + a) as usize, (start + b2) as usize)
        },
        None => ((start + text.len()) as usize, (start + text.len()) as usize),
    };
    DraftState {
        content: replaced(s.content, start, end, text),
        marked: if text.len() > 0 {
            Some((start as usize, (start + text.len()) as usize))
        } else {
            None
        },
        selected,
        reversed: false,
        anchor: selected.0,
        editing: true,
        ..s
    }
}

/// Everything one key press does, as a specification.
pub struct KeyOutcome {
    /// The draft afterwards.
    pub state: DraftState,
    /// Whether the key was consumed.
    pub handled: bool,
    /// Text placed on the clipboard.
    pub clipboard_write: Option<Seq<char>>,
    /// Whether a paste was requested.
    pub paste_requested: bool,
    /// Reported draft change.
    pub changed: Option<Seq<char>>,
    /// Reported submission.
    pub submitted: Option<Seq<char>>,
    /// Whether the draft was canceled.
    pub canceled: bool,
    /// Requested value step.
    pub step: Option<NumericStep>,
}

/// A key outcome that changes only the draft, or nothing.
pub open spec fn plain_outcome(state: DraftState, handled: bool) -> KeyOutcome {
    KeyOutcome {
        state,
        handled,
        clipboard_write: None,
        paste_requested: false,
        changed: None,
        submitted: None,
        canceled: false,
        step: None,
    }
}

/// Deleting the selection, or the character before (`backward`) or after
/// the caret when nothing is selected.
pub open spec fn delete_outcome(s: DraftState, backward: bool) -> KeyOutcome {
    let c = cursor_spec(s);
    let target = if backward {
        previous_spec(c)
    } else {
        next_spec(c, s.content.len())
    };
    let s1 = if s.selected.0 == s.selected.1 {
        after_select_to(s, target)
    } else {
        s
    };
    KeyOutcome {
        state: after_replace_if_valid(s1, s1.selected.0 as int, s1.selected.1 as int, Seq::empty()),
        changed: replace_report(s1, s1.selected.0 as int, s1.selected.1 as int, Seq::empty()),
        ..plain_outcome(s1, true)
    }
}

/// Moving the caret to `offset`, or extending the selection there with Shift.
pub open spec fn motion_outcome(s: DraftState, offset: usize, shift: bool) -> KeyOutcome {
    plain_outcome(
        if shift {
            after_select_to(s, offset)
        } else {
            after_move_to(s, offset)
        },
        true,
    )
}

/// What a key press with Command or Control held does: `a` selects all,
/// `c` copies and `x` cuts a non-empty selection, and `v` asks for a paste;
/// other keys pass through.
pub open spec fn shortcut_outcome(s: DraftState, key: Seq<char>) -> KeyOutcome {
    let sel_empty = s.selected.0 == s.selected.1;
    let selection = s.content.subrange(s.selected.0 as int, s.selected.1 as int);
    if key == "a"@ {
        plain_outcome(
            DraftState { selected: (0, s.content.len() as usize), reversed: false, anchor: 0, ..s },
            true,
        )
    } else if key == "c"@ {
        KeyOutcome {
            clipboard_write: if sel_empty {
                None
            } else {
                Some(selection)
            },
            ..plain_outcome(s, true)
        }
    } else if key == "x"@ {
        if sel_empty {
            plain_outcome(s, true)
        } else {
            KeyOutcome {
                state: after_replace_if_valid(s, s.selected.0 as int, s.selected.1 as int, Seq::empty()),
                clipboard_write: Some(selection),
                changed: replace_report(s, s.selected.0 as int, s.selected.1 as int, Seq::empty()),
                ..plain_outcome(s, true)
            }
        }
    } else if key == "v"@ {
        KeyOutcome { paste_requested: true, ..plain_outcome(s, true) }
    } else {
        plain_outcome(s, false)
    }
}

/// The caret position one character back.
pub open spec fn previous_spec(c: usize) -> usize {
    if c == 0 {
        0usize
    } else {
        (c - 1) as usize
    }
}

/// The caret position one character forward, at most the text length.
pub open spec fn next_spec(c: usize, len: nat) -> usize {
    if c < len {
        (c + 1) as usize
    } else {
        len as usize
    }
}

/// What an unmodified key press does: Backspace and Delete delete, the
/// arrow, Home and End keys move or extend the selection, Up and Down
/// request a step (fine with Shift), Enter submits and Escape cancels the
/// draft; other keys pass through.
pub open spec fn editing_outcome(s: DraftState, key: Seq<char>, m: Modifiers) -> KeyOutcome {
    let sel_empty = s.selected.0 == s.selected.1;
    if key == "back"@ || key == "backspace"@ {
        delete_outcome(s, true)
    } else if key == "delete"@ {
        delete_outcome(s, false)
    } else if key == "left"@ {
        motion_outcome(
            s,
            if m.shift || sel_empty {
                previous_spec(cursor_spec(s))
            } else {
                s.selected.0
            },
            m.shift,
        )
    } else if key == "right"@ {
        motion_outcome(
            s,
            if m.shift || sel_empty {
                next_spec(cursor_spec(s), s.content.len())
            } else {
                s.selected.1
            },
            m.shift,
        )
    } else if key == "home"@ {
        motion_outcome(s, 0, m.shift)
    } else if key == "end"@ {
        motion_outcome(s, s.content.len() as usize, m.shift)
    } else if key == "up"@ || key == "down"@ {
        KeyOutcome {
            step: Some(NumericStep { up: key == "up"@, fine: m.shift }),
            ..plain_outcome(s, true)
        }
    } else if key == "enter"@ {
        KeyOutcome {
            submitted: Some(s.content),
            ..plain_outcome(DraftState { editing: false, ..s }, true)
        }
    } else if key == "escape"@ {
        KeyOutcome { canceled: true, ..plain_outcome(DraftState { editing: false, ..s }, true) }
    } else {
        plain_outcome(s, false)
    }
}

/// What a key press does to a draft: shortcuts with Command or Control
/// held, editing keys otherwise.
pub open spec fn key_outcome(s: DraftState, key: Seq<char>, m: Modifiers) -> KeyOutcome {
    if m.platform || m.control {
        shortcut_outcome(s, key)
    } else {
        editing_outcome(s, key, m)
    }
}

/// Whether a key response carries exactly a key outcome's requests.
pub open spec fn response_matches(r: KeyResponse, o: KeyOutcome) -> bool {
    &&& r.handled == o.handled
    &&& (match r.clipboard_write {
        Some(t) => Some(t@),
        None => None,
    }) == o.clipboard_write
    &&& r.paste_requested == o.paste_requested
    &&& changed_view(r.changed) == o.changed
    &&& (match r.submitted {
        Some(t) => Some(t.text@),
        None => None,
    }) == o.submitted
    &&& r.canceled == o.canceled
    &&& r.step == o.step
}

impl NumericDraft {
    /// Replace the selection with `text`.
    pub fn replace_selected_text(&mut self, text: &str) -> (r: Option<NumericInputChanged>)
        ensures
            final(self)@ == after_replace_if_valid(
                old(self)@,
                old(self)@.selected.0 as int,
                old(self)@.selected.1 as int,
                text@,
            ),
            changed_view(r) == replace_report(
                old(self)@,
                old(self)@.selected.0 as int,
                old(self)@.selected.1 as int,
                text@,
            ),
            draft_invariant(final(self)@),
    {
        let (start, end) = self.selected;
        self.replace_text(start, end, text)
    }

    /// Paste clipboard text over the selection, without line breaks.
    pub fn paste(&mut self, clipboard: &str) -> (r: Option<NumericInputChanged>)
        ensures
            final(self)@ == after_replace_if_valid(
                old(self)@,
                old(self)@.selected.0 as int,
                old(self)@.selected.1 as int,
                strip_line_breaks(clipboard@),
            ),
            changed_view(r) == replace_report(
                old(self)@,
                old(self)@.selected.0 as int,
                old(self)@.selected.1 as int,
                strip_line_breaks(clipboard@),
            ),
            draft_invariant(final(self)@),
    {
        let text = without_line_breaks(clipboard);
        self.replace_selected_text(text.as_str())
    }

    /// The selected text.
    fn selected_text(&self) -> (r: String)
        ensures
            r@ == self@.content.subrange(self@.selected.0 as int, self@.selected.1 as int),
    {
        proof {
            use_type_invariant(self);
        }
        string_of_chars(&self.content, self.selected.0, self.selected.1)
    }

    /// A response that asks nothing beyond `handled`.
    fn plain_response(handled: bool) -> (r: KeyResponse)
        ensures
            r.handled == handled,
            r.clipboard_write is None,
            !r.paste_requested,
            r.changed is None,
            r.submitted is None,
            !r.canceled,
            r.step is None,
    {
        KeyResponse {
            handled,
            clipboard_write: None,
            paste_requested: false,
            changed: None,
            submitted: None,
            canceled: false,
            step: None,
        }
    }

    /// Apply a key press made with Command or Control held.
    fn shortcut_key(&mut self, key: &str) -> (r: KeyResponse)
        ensures
            final(self)@ == shortcut_outcome(old(self)@, key@).state,
            response_matches(r, shortcut_outcome(old(self)@, key@)),
            draft_invariant(final(self)@),
    {
        proof {
            use_type_invariant(&*self);
        }
        let mut response = Self::plain_response(true);
        let selection_empty = self.selected.0 == self.selected.1;
        if str_eq(key, "a") {
            self.select_all();
        } else if str_eq(key, "c") {
            if !selection_empty {
                response.clipboard_write = Some(self.selected_text());
            }
        } else if str_eq(key, "x") {
            if !selection_empty {
                response.clipboard_write = Some(self.selected_text());
                response.changed = self.replace_selected_text("");
                proof {
                    reveal_strlit("");
                }
            }
        } else if str_eq(key, "v") {
            response.paste_requested = true;
        } else {
            response.handled = false;
        }
        response
    }

    /// Delete the selection, or the character before or after the caret.
    fn delete_key(&mut self, backward: bool) -> (r: KeyResponse)
        ensures
            final(self)@ == delete_outcome(old(self)@, backward).state,
            response_matches(r, delete_outcome(old(self)@, backward)),
            draft_invariant(final(self)@),
    {
        proof {
            use_type_invariant(&*self);
        }
        let mut response = Self::plain_response(true);
        if self.selected.0 == self.selected.1 {
            let cursor = self.cursor_offset();
            let target = if backward {
                self.previous_boundary(cursor)
            } else {
                self.next_boundary(cursor)
            };
            self.select_to(target);
        }
        response.changed = self.replace_selected_text("");
        proof {
            reveal_strlit("");
        }
        response
    }

    /// Move the caret to `offset`, or extend the selection there.
    fn motion_key(&mut self, offset: usize, shift: bool) -> (r: KeyResponse)
        ensures
            final(self)@ == motion_outcome(old(self)@, offset, shift).state,
            response_matches(r, motion_outcome(old(self)@, offset, shift)),
            draft_invariant(final(self)@),
    {
        if shift {
            self.select_to(offset);
        } else {
            self.move_to(offset);
        }
        Self::plain_response(true)
    }

    /// Apply a key press made without Command or Control.
    fn editing_key(&mut self, key: &str, modifiers: Modifiers) -> (r: KeyResponse)
        ensures
            final(self)@ == editing_outcome(old(self)@, key@, modifiers).state,
            response_matches(r, editing_outcome(old(self)@, key@, modifiers)),
            draft_invariant(final(self)@),
    {
        proof {
            use_type_invariant(&*self);
        }
        let selection_empty = self.selected.0 == self.selected.1;
        if str_eq(key, "back") || str_eq(key, "backspace") {
            self.delete_key(true)
        } else if str_eq(key, "delete") {
            self.delete_key(false)
        } else if str_eq(key, "left") {
            let offset = if modifiers.shift || selection_empty {
                self.previous_boundary(self.cursor_offset())
            } else {
                self.selected.0
            };
            self.motion_key(offset, modifiers.shift)
        } else if str_eq(key, "right") {
            let offset = if modifiers.shift || selection_empty {
                self.next_boundary(self.cursor_offset())
            } else {
                self.selected.1
            };
            self.motion_key(offset, modifiers.shift)
        } else if str_eq(key, "home") {
            self.motion_key(0, modifiers.shift)
        } else if str_eq(key, "end") {
            let len = self.content.len();
            self.motion_key(len, modifiers.shift)
        } else if str_eq(key, "up") || str_eq(key, "down") {
            let mut response = Self::plain_response(true);
            response.step = Some(NumericStep { up: str_eq(key, "up"), fine: modifiers.shift });
            response
        } else if str_eq(key, "enter") {
            self.editing = false;
            let mut response = Self::plain_response(true);
            response.submitted = Some(NumericInputSubmitted { text: self.text() });
            response
        } else if str_eq(key, "escape") {
            self.editing = false;
            let mut response = Self::plain_response(true);
            response.canceled = true;
            response
        } else {
            Self::plain_response(false)
        }
    }

    /// Apply one key press.
    pub fn on_key_down(&mut self, key: &str, modifiers: Modifiers) -> (r: KeyResponse)
        ensures
            final(self)@ == key_outcome(old(self)@, key@, modifiers).state,
            response_matches(r, key_outcome(old(self)@, key@, modifiers)),
            draft_invariant(final(self)@),
    {
        if modifiers.platform || modifiers.control {
            self.shortcut_key(key)
        } else {
            self.editing_key(key, modifiers)
        }
    }

    /// Start a pointer gesture at character `offset` (the end of the text
    /// when the pointer is not over it): a double click selects all, Shift
    /// extends the selection, a plain click places the caret.
    pub fn on_mouse_down(&mut self, offset: Option<usize>, click_count: usize, shift: bool)
        ensures
            ({
                let s = DraftState { editing: true, dragging: true, ..old(self)@ };
                let o = match offset {
                    Some(o) => o,
                    None => old(self)@.content.len() as usize,
                };
                final(self)@ == if click_count >= 2 {
                    DraftState {
                        selected: (0, s.content.len() as usize),
                        reversed: false,
                        anchor: 0,
                        ..s
                    }
                } else if shift {
                    after_select_to(s, o)
                } else {
                    after_move_to(s, o)
                }
            }),
            draft_invariant(final(self)@),
    {
        proof {
            use_type_invariant(&*self);
        }
        self.editing = true;
        self.dragging = true;
        let o = match offset {
            Some(o) => o,
            None => self.content.len(),
        };
        if click_count >= 2 {
            self.select_all();
        } else if shift {
            self.select_to(o);
        } else {
            self.move_to(o);
        }
    }

    /// Continue a pointer drag: a released button ends it, otherwise the
    /// selection extends to the character under the pointer.
    pub fn on_mouse_move(&mut self, left_pressed: bool, offset: Option<usize>)
        ensures
            final(self)@ == if !old(self)@.dragging {
                old(self)@
            } else if !left_pressed {
                DraftState { dragging: false, ..old(self)@ }
            } else {
                match offset {
                    Some(o) => after_select_to(old(self)@, o),
                    None => old(self)@,
                }
            },
            draft_invariant(final(self)@),
    {
        proof {
            use_type_invariant(&*self);
        }
        if !self.dragging {
            return;
        }
        if !left_pressed {
            self.dragging = false;
            return;
        }
        match offset {
            Some(o) => self.select_to(o),
            None => {},
        }
    }

    /// End a pointer gesture.
    pub fn on_mouse_up(&mut self)
        ensures
            final(self)@ == (DraftState { dragging: false, ..old(self)@ }),
            draft_invariant(final(self)@),
    {
        proof {
            use_type_invariant(&*self);
        }
        self.dragging = false;
    }

    /// The text of a UTF-16 range, with the UTF-16 range it actually covers
    /// after snapping to character boundaries.
    pub fn text_for_range(&self, range_utf16: (usize, usize)) -> (r: (String, (usize, usize)))
        requires
            range_utf16.0 <= range_utf16.1,
        ensures
            ({
                let a = chars_within_utf16(self@.content, range_utf16.0 as int) as int;
                let b = chars_within_utf16(self@.content, range_utf16.1 as int) as int;
                &&& r.0@ == self@.content.subrange(a, b)
                &&& r.1.0 == utf16_offset_of(self@.content, a)
                &&& r.1.1 == utf16_offset_of(self@.content, b)
            }),
    {
        let start = self.offset_from_utf16(range_utf16.0);
        let end = self.offset_from_utf16(range_utf16.1);
        proof {
            lemma_chars_within_utf16_monotone(self.content@, range_utf16.0 as int, range_utf16.1 as int);
        }
        let text = string_of_chars(&self.content, start, end);
        (text, (self.offset_to_utf16(start), self.offset_to_utf16(end)))
    }

    /// The selection in UTF-16 units, and whether it is reversed.
    pub fn selected_text_range(&self) -> (r: ((usize, usize), bool))
        ensures
            r.0.0 == utf16_offset_of(self@.content, self@.selected.0 as int),
            r.0.1 == utf16_offset_of(self@.content, self@.selected.1 as int),
            r.1 == self@.reversed,
    {
        proof {
            use_type_invariant(self);
        }
        ((self.offset_to_utf16(self.selected.0), self.offset_to_utf16(self.selected.1)), self.reversed)
    }

    /// The composition range in UTF-16 units.
    pub fn marked_text_range(&self) -> (r: Option<(usize, usize)>)
        ensures
            match self@.marked {
                Some(m) => r == Some(
                    (
                        utf16_offset_of(self@.content, m.0 as int) as usize,
                        utf16_offset_of(self@.content, m.1 as int) as usize,
                    ),
                ),
                None => r is None,
            },
    {
        proof {
            use_type_invariant(self);
        }
        match self.marked {
            Some((a, b)) => Some((self.offset_to_utf16(a), self.offset_to_utf16(b))),
            None => None,
        }
    }

    /// End the composition, keeping its text.
    pub fn unmark_text(&mut self)
        ensures
            final(self)@ == (DraftState { marked: None, ..old(self)@ }),
            draft_invariant(final(self)@),
    {
        proof {
            use_type_invariant(&*self);
        }
        self.marked = None;
    }

    /// The character range an input-method request addresses.
    fn ime_range(&self, range_utf16: Option<(usize, usize)>) -> (r: (usize, usize))
        ensures
            (r.0 as int, r.1 as int) == ime_target(self@, range_utf16),
    {
        match range_utf16 {
            Some((a, b)) => (self.offset_from_utf16(a), self.offset_from_utf16(b)),
            None => match self.marked {
                Some(m) => m,
                None => self.selected,
            },
        }
    }

    /// Commit input-method text over a UTF-16 range (else the composition,
    /// else the selection).
    pub fn replace_text_in_range(&mut self, range_utf16: Option<(usize, usize)>, text: &str) -> (r:
        Option<NumericInputChanged>)
        ensures
            ({
                let t = ime_target(old(self)@, range_utf16);
                &&& final(self)@ == after_replace_if_valid(old(self)@, t.0, t.1, text@)
                &&& changed_view(r) == replace_report(old(self)@, t.0, t.1, text@)
            }),
            draft_invariant(final(self)@),
    {
        let (start, end) = self.ime_range(range_utf16);
        self.replace_text(start, end, text)
    }

    /// Replace a UTF-16 range (else the composition, else the selection) with
    /// uncommitted composition text, selecting the requested part of it.
    pub fn replace_and_mark_text_in_range(
        &mut self,
        range_utf16: Option<(usize, usize)>,
        text: &str,
        selection_utf16: Option<(usize, usize)>,
    ) -> (r: Option<NumericInputChanged>)
        ensures
            ({
                let t = ime_target(old(self)@, range_utf16);
                if replacement_accepted(old(self)@, t.0, t.1, text@) {
                    &&& final(self)@ == after_mark(old(self)@, t.0, t.1, text@, selection_utf16)
                    &&& changed_view(r) == Some(final(self)@.content)
                } else {
                    &&& final(self)@ == old(self)@
                    &&& r is None
                }
            }),
            draft_invariant(final(self)@),
    {
        proof {
            use_type_invariant(&*self);
        }
        let (start, end) = self.ime_range(range_utf16);
        if start > end || end > self.content.len() {
            return None;
        }
        if !self.valid_replacement(start, end, text) {
            return None;
        }
        let text_chars = chars_of(text);
        let len = self.content.len();
        let content = spliced(&self.content, start, end, &text_chars);
        proof {
            assert(content@.len() == start + text@.len() + (len - end));
            lemma_len_at_most_bytes(content@);
        }
        let inserted = text_chars.len();
        let marked = if inserted > 0 {
            Some((start, start + inserted))
        } else {
            None
        };
        let selected = match selection_utf16 {
            Some((a, b)) => {
                let sa = utf16_char_offset(&text_chars, a);
                let sb = utf16_char_offset(&text_chars, b);
                let sb = if sb >= sa {
                    sb
                } else {
                    sa
                };
                (start + sa, start + sb)
            },
            None => (start + inserted, start + inserted),
        };
        *self = NumericDraft {
            content,
            selected,
            reversed: false,
            anchor: selected.0,
            marked,
            editing: true,
            dragging: self.dragging,
        };
        let changed = string_of_chars(&self.content, 0, self.content.len());
        proof {
            assert(self.content@.subrange(0, self.content@.len() as int) =~= self.content@);
        }
        Some(NumericInputChanged { text: changed })
    }
}

/// Converting a character offset to UTF-16 units and back returns it.
pub proof fn law_utf16_offset_roundtrip(content: Seq<char>, i: int)
    requires
        0 <= i <= content.len(),
    ensures
        chars_within_utf16(content, utf16_offset_of(content, i) as int) == i,
    decreases i,
{
    if i > 0 {
        let tail = content.drop_first();
        law_utf16_offset_roundtrip(tail, i - 1);
        assert(content.take(i) =~= seq![content[0]] + tail.take(i - 1));
        crate::text::lemma_utf16_units_append(seq![content[0]], tail.take(i - 1));
        crate::text::lemma_utf16_units_single(content[0]);
    } else {
        assert(content.take(0) =~= Seq::<char>::empty());
        assert(utf16_units(Seq::<char>::empty()) == 0);
        if content.len() > 0 {
            assert(utf16_len(content[0]) >= 1);
        }
    }
}

/// An accepted edit always leaves a numeric draft of at most
/// `MAX_NUMERIC_TEXT_BYTES` bytes, whether committed or composed.
pub proof fn law_accepted_edit_is_short_numeric_draft(
    s: DraftState,
    start: int,
    end: int,
    text: Seq<char>,
    selection_utf16: Option<(usize, usize)>,
)
    requires
        replacement_accepted(s, start, end, text),
    ensures
        is_numeric_draft_spec(after_replace(s, start, end, text).content),
        utf8_bytes(after_replace(s, start, end, text).content) <= MAX_NUMERIC_TEXT_BYTES,
        is_numeric_draft_spec(after_mark(s, start, end, text, selection_utf16).content),
        utf8_bytes(after_mark(s, start, end, text, selection_utf16).content) <= MAX_NUMERIC_TEXT_BYTES,
{
}

/// A rejected edit changes nothing.
pub proof fn law_rejected_edit_changes_nothing(s: DraftState, start: int, end: int, text: Seq<char>)
    requires
        !replacement_accepted(s, start, end, text),
    ensures
        after_replace_if_valid(s, start, end, text) == s,
        replace_report(s, start, end, text) is None,
{
}

/// A draft that holds a short number keeps holding one, whatever key is
/// pressed: keys either leave the text alone or make an accepted edit.
pub proof fn law_keys_keep_numeric_draft(s: DraftState, key: Seq<char>, m: Modifiers)
    requires
        is_numeric_draft_spec(s.content),
        utf8_bytes(s.content) <= MAX_NUMERIC_TEXT_BYTES,
    ensures
        is_numeric_draft_spec(key_outcome(s, key, m).state.content),
        utf8_bytes(key_outcome(s, key, m).state.content) <= MAX_NUMERIC_TEXT_BYTES,
        key_outcome(s, key, m).changed matches Some(t) ==> t == key_outcome(s, key, m).state.content,
{
}

/// The editing key names differ from one another: by length, or else by
/// their first character.
proof fn lemma_key_names_differ()
    ensures
        "up"@.len() == 2 && "up"@[0] == 'u',
        "down"@.len() == 4 && "down"@[0] == 'd',
        "back"@.len() == 4 && "back"@[0] == 'b',
        "backspace"@.len() == 9 && "backspace"@[0] == 'b',
        "delete"@.len() == 6 && "delete"@[0] == 'd',
        "left"@.len() == 4 && "left"@[0] == 'l',
        "right"@.len() == 5 && "right"@[0] == 'r',
        "home"@.len() == 4 && "home"@[0] == 'h',
        "end"@.len() == 3 && "end"@[0] == 'e',
        "enter"@.len() == 5 && "enter"@[0] == 'e',
        "escape"@.len() == 6 && "escape"@[0] == 'e',
{
    reveal_strlit("up");
    reveal_strlit("down");
    reveal_strlit("back");
    reveal_strlit("backspace");
    reveal_strlit("delete");
    reveal_strlit("left");
    reveal_strlit("right");
    reveal_strlit("home");
    reveal_strlit("end");
    reveal_strlit("enter");
    reveal_strlit("escape");
}

/// Unmodified editing keys do what their names say: Home and End put the
/// caret at the start and end of the text; Left and Right move it one
/// character (collapsing a selection to its start or end instead); Enter
/// submits the text and Escape cancels it, each ending the editing session.
/// None of them changes the text.
pub proof fn law_editing_keys_move_submit_and_cancel(s: DraftState, m: Modifiers)
    requires
        draft_invariant(s),
        !m.platform,
        !m.control,
        !m.shift,
    ensures
        key_outcome(s, "home"@, m).state == (DraftState {
            selected: (0, 0),
            reversed: false,
            anchor: 0,
            ..s
        }),
        key_outcome(s, "end"@, m).state == (DraftState {
            selected: (s.content.len() as usize, s.content.len() as usize),
            reversed: false,
            anchor: s.content.len() as usize,
            ..s
        }),
        ({
            let c = cursor_spec(s);
            let left = if s.selected.0 < s.selected.1 {
                s.selected.0
            } else if c > 0 {
                (c - 1) as usize
            } else {
                0usize
            };
            let right = if s.selected.0 < s.selected.1 {
                s.selected.1
            } else if c < s.content.len() {
                (c + 1) as usize
            } else {
                s.content.len() as usize
            };
            &&& key_outcome(s, "left"@, m).state == (DraftState {
                selected: (left, left),
                reversed: false,
                anchor: left,
                ..s
            })
            &&& key_outcome(s, "right"@, m).state == (DraftState {
                selected: (right, right),
                reversed: false,
                anchor: right,
                ..s
            })
        }),
        key_outcome(s, "home"@, m).handled && key_outcome(s, "end"@, m).handled,
        key_outcome(s, "left"@, m).handled && key_outcome(s, "right"@, m).handled,
        key_outcome(s, "enter"@, m).submitted == Some(s.content),
        !key_outcome(s, "enter"@, m).canceled,
        key_outcome(s, "enter"@, m).state == (DraftState { editing: false, ..s }),
        key_outcome(s, "escape"@, m).canceled,
        (key_outcome(s, "escape"@, m).submitted is None),
        key_outcome(s, "escape"@, m).state == (DraftState { editing: false, ..s }),
{
    lemma_key_names_differ();
}

/// Only Up and Down, pressed without Command or Control, request a step.
/// Up steps the value up and Down steps it down, both by the fine step
/// exactly when Shift is held; the request consumes the key and leaves the
/// draft as it was.
pub proof fn law_up_and_down_step_in_opposite_directions(s: DraftState, key: Seq<char>, m: Modifiers)
    ensures
        key_outcome(s, key, m).step is Some <==> (!m.platform && !m.control && (key == "up"@
            || key == "down"@)),
        !m.platform && !m.control ==> key_outcome(s, "up"@, m).step == Some(
            NumericStep { up: true, fine: m.shift },
        ),
        !m.platform && !m.control ==> key_outcome(s, "down"@, m).step == Some(
            NumericStep { up: false, fine: m.shift },
        ),
        !m.platform && !m.control ==> key_outcome(s, "up"@, m).state == s && key_outcome(
            s,
            "up"@,
            m,
        ).handled,
        !m.platform && !m.control ==> key_outcome(s, "down"@, m).state == s && key_outcome(
            s,
            "down"@,
            m,
        ).handled,
{
    lemma_key_names_differ();
}

/// Extending a selection keeps its anchor as one end and the requested
/// offset (within the text) as the other; the caret sits at that offset.
pub proof fn law_select_to_spans_anchor_and_offset(s: DraftState, offset: usize)
    requires
        draft_invariant(s),
    ensures
        ({
            let t = after_select_to(s, offset);
            let o = if offset <= s.content.len() {
                offset
            } else {
                s.content.len() as usize
            };
            &&& t.anchor == s.anchor
            &&& cursor_spec(t) == o
            &&& (t.selected.0 == s.anchor || t.selected.1 == s.anchor)
            &&& draft_invariant(t)
        }),
{
}

} // verus!
