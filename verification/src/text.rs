//! Text measures shared by the text-entry logic: UTF-8 and UTF-16 lengths,
//! offset conversion and numeric-draft validation.

use vstd::prelude::*;
use vstd::utf8::encode_utf8;

use crate::chars::{char_utf16_len, char_utf8_len, utf16_len, utf8_len};

verus! {

/// UTF-8 byte length of a character sequence.
pub open spec fn utf8_bytes(s: Seq<char>) -> nat {
    encode_utf8(s).len()
}

/// How many leading characters of `s` fit within `offset` UTF-16 code units.
pub open spec fn chars_within_utf16(s: Seq<char>, offset: int) -> nat
    decreases s.len(),
{
    if s.len() == 0 {
        0
    } else if utf16_len(s[0]) <= offset {
        1 + chars_within_utf16(s.drop_first(), offset - utf16_len(s[0]))
    } else {
        0
    }
}

/// UTF-16 length of a character sequence.
pub open spec fn utf16_units(s: Seq<char>) -> nat
    decreases s.len(),
{
    if s.len() == 0 {
        0
    } else {
        utf16_len(s[0]) + utf16_units(s.drop_first())
    }
}

/// The UTF-8 encoding of a concatenation is the concatenation of encodings.
pub proof fn lemma_encode_utf8_append(a: Seq<char>, b: Seq<char>)
    ensures
        encode_utf8(a + b) == encode_utf8(a) + encode_utf8(b),
    decreases a.len(),
{
    if a.len() == 0 {
        assert(a + b =~= b);
        assert(encode_utf8(a) =~= Seq::<u8>::empty());
        assert(encode_utf8(a) + encode_utf8(b) =~= encode_utf8(b));
    } else {
        assert((a + b).drop_first() =~= a.drop_first() + b);
        assert((a + b)[0] == a[0]);
        lemma_encode_utf8_append(a.drop_first(), b);
        let h = vstd::utf8::encode_scalar(a[0] as u32);
        assert(h + (encode_utf8(a.drop_first()) + encode_utf8(b)) =~= (h + encode_utf8(
            a.drop_first(),
        )) + encode_utf8(b));
    }
}

/// The UTF-8 length of a concatenation is the sum of lengths.
pub proof fn lemma_utf8_bytes_append(a: Seq<char>, b: Seq<char>)
    ensures
        utf8_bytes(a + b) == utf8_bytes(a) + utf8_bytes(b),
{
    lemma_encode_utf8_append(a, b);
}

/// The UTF-8 length of one character sequence of length one.
pub proof fn lemma_utf8_bytes_single(c: char)
    ensures
        utf8_bytes(seq![c]) == utf8_len(c),
{
    assert(seq![c].drop_first() =~= Seq::<char>::empty());
    assert(encode_utf8(Seq::<char>::empty()) =~= Seq::<u8>::empty());
    assert(encode_utf8(seq![c]) =~= vstd::utf8::encode_scalar(c as u32));
}

/// Extending a prefix by one character adds that character's UTF-8 length.
pub proof fn lemma_utf8_bytes_take_next(s: Seq<char>, i: int)
    requires
        0 <= i < s.len(),
    ensures
        utf8_bytes(s.take(i + 1)) == utf8_bytes(s.take(i)) + utf8_len(s[i]),
        utf8_bytes(s.take(i + 1)) <= utf8_bytes(s),
{
    assert(s.take(i + 1) =~= s.take(i) + seq![s[i]]);
    lemma_utf8_bytes_append(s.take(i), seq![s[i]]);
    lemma_utf8_bytes_single(s[i]);
    assert(s =~= s.take(i + 1) + s.skip(i + 1));
    lemma_utf8_bytes_append(s.take(i + 1), s.skip(i + 1));
}

/// The UTF-16 length of a concatenation is the sum of lengths.
pub proof fn lemma_utf16_units_append(a: Seq<char>, b: Seq<char>)
    ensures
        utf16_units(a + b) == utf16_units(a) + utf16_units(b),
    decreases a.len(),
{
    if a.len() == 0 {
        assert(a + b =~= b);
    } else {
        assert((a + b).drop_first() =~= a.drop_first() + b);
        assert((a + b)[0] == a[0]);
        lemma_utf16_units_append(a.drop_first(), b);
    }
}

/// Extending a prefix by one character adds that character's UTF-16 length.
pub proof fn lemma_utf16_units_take_next(s: Seq<char>, i: int)
    requires
        0 <= i < s.len(),
    ensures
        utf16_units(s.take(i + 1)) == utf16_units(s.take(i)) + utf16_len(s[i]),
{
    assert(s.take(i + 1) =~= s.take(i) + seq![s[i]]);
    lemma_utf16_units_append(s.take(i), seq![s[i]]);
    lemma_utf16_units_single(s[i]);
}

/// The UTF-16 length of a one-character sequence.
pub proof fn lemma_utf16_units_single(c: char)
    ensures
        utf16_units(seq![c]) == utf16_len(c),
{
    assert(seq![c].drop_first() =~= Seq::<char>::empty());
    assert(utf16_units(Seq::<char>::empty()) == 0);
}

/// Every character counted within a UTF-16 offset fits it, and the count is
/// at most the sequence length.
pub proof fn lemma_chars_within_utf16_bounds(s: Seq<char>, offset: int)
    ensures
        chars_within_utf16(s, offset) <= s.len(),
        offset >= 0 ==> utf16_units(s.take(chars_within_utf16(s, offset) as int)) <= offset,
    decreases s.len(),
{
    if s.len() > 0 && utf16_len(s[0]) <= offset {
        lemma_chars_within_utf16_bounds(s.drop_first(), offset - utf16_len(s[0]));
        let k = chars_within_utf16(s.drop_first(), offset - utf16_len(s[0]));
        assert(s.take(k + 1 as int) =~= seq![s[0]] + s.drop_first().take(k as int));
        lemma_utf16_units_append(seq![s[0]], s.drop_first().take(k as int));
        lemma_utf16_units_single(s[0]);
    } else {
        assert(s.take(0) =~= Seq::<char>::empty());
        assert(utf16_units(Seq::<char>::empty()) == 0);
    }
}

/// The byte offset in `text` of the last character boundary at or before
/// UTF-16 offset `offset` (the end of the text when the offset lies beyond it).
pub fn offset_from_utf16(text: &str, offset: usize) -> (r: usize)
    ensures
        r == utf8_bytes(text@.take(chars_within_utf16(text@, offset as int) as int)),
{
    let n = text.unicode_len();
    let total = text.as_bytes().len();
    let ghost s = text@;
    let mut i: usize = 0;
    let mut utf16_offset: usize = 0;
    let mut byte_offset: usize = 0;
    proof {
        assert(s.skip(0) =~= s);
        assert(s.take(0) =~= Seq::<char>::empty());
        assert(encode_utf8(Seq::<char>::empty()) =~= Seq::<u8>::empty());
    }
    while i < n
        invariant
            n == s.len(),
            s == text@,
            i <= n,
            utf16_offset <= offset,
            byte_offset == utf8_bytes(s.take(i as int)),
            utf8_bytes(s) == total,
            chars_within_utf16(s, offset as int) == i + chars_within_utf16(
                s.skip(i as int),
                offset - utf16_offset,
            ),
        decreases n - i,
    {
        let ch = text.get_char(i);
        proof {
            assert(s.skip(i as int)[0] == ch);
            assert(s.skip(i as int).drop_first() =~= s.skip(i + 1));
            lemma_utf8_bytes_take_next(s, i as int);
        }
        if utf16_offset >= offset {
            return byte_offset;
        }
        let width = char_utf16_len(ch);
        if width > offset - utf16_offset {
            return byte_offset;
        }
        utf16_offset = utf16_offset + width;
        byte_offset = byte_offset + char_utf8_len(ch);
        i = i + 1;
    }
    proof {
        assert(s.take(n as int) =~= s);
    }
    total
}

/// Whether a character may appear in a numeric draft at position `index`.
pub open spec fn numeric_char_allowed(c: char, index: int) -> bool {
    ('0' <= c <= '9') || c == '.' || (c == '-' && index == 0)
}

/// A possibly incomplete number: digits, an optional leading minus and at
/// most one decimal point.
pub open spec fn is_numeric_draft_spec(s: Seq<char>) -> bool {
    &&& forall|i: int| 0 <= i < s.len() ==> numeric_char_allowed(#[trigger] s[i], i)
    &&& forall|i: int, j: int| 0 <= i < j < s.len() && s[i] == '.' ==> s[j] != '.'
}

/// Whether the characters `s` form a possibly incomplete number.
pub fn is_numeric_chars(s: &Vec<char>) -> (r: bool)
    ensures
        r == is_numeric_draft_spec(s@),
{
    let mut decimal_seen = false;
    let mut i: usize = 0;
    while i < s.len()
        invariant
            i <= s.len(),
            forall|k: int| 0 <= k < i ==> numeric_char_allowed(#[trigger] s@[k], k),
            forall|a: int, b: int| 0 <= a < b < i && s@[a] == '.' ==> s@[b] != '.',
            decimal_seen <==> exists|k: int| 0 <= k < i && s@[k] == '.',
        decreases s.len() - i,
    {
        let c = s[i];
        if c == '-' && i == 0 {
        } else if '0' <= c && c <= '9' {
        } else if c == '.' && !decimal_seen {
            decimal_seen = true;
        } else {
            if c == '.' {
                let ghost k = choose|k: int| 0 <= k < i && s@[k] == '.';
                assert(!(forall|a: int, b: int|
                    0 <= a < b < s@.len() && s@[a] == '.' ==> s@[b] != '.')) by {
                    assert(0 <= k < i && s@[k] == '.' && s@[i as int] == '.');
                }
            } else {
                assert(!numeric_char_allowed(s@[i as int], i as int));
            }
            return false;
        }
        i += 1;
    }
    true
}

/// The characters of a string.
pub fn chars_of(text: &str) -> (v: Vec<char>)
    ensures
        v@ == text@,
{
    let n = text.unicode_len();
    let mut v: Vec<char> = Vec::new();
    let mut i: usize = 0;
    while i < n
        invariant
            n == text@.len(),
            i <= n,
            v@ == text@.take(i as int),
        decreases n - i,
    {
        v.push(text.get_char(i));
        i += 1;
        assert(v@ =~= text@.take(i as int));
    }
    assert(text@.take(n as int) =~= text@);
    v
}

/// Whether a text is a possibly incomplete number: digits, an optional
/// leading minus and at most one decimal point.
pub fn is_numeric_draft(text: &str) -> (r: bool)
    ensures
        r == is_numeric_draft_spec(text@),
{
    let chars = chars_of(text);
    is_numeric_chars(&chars)
}

/// Whether two strings hold the same characters.
pub fn str_eq(a: &str, b: &str) -> (r: bool)
    ensures
        r == (a@ == b@),
{
    let n = a.unicode_len();
    if n != b.unicode_len() {
        return false;
    }
    let mut i: usize = 0;
    while i < n
        invariant
            n == a@.len(),
            n == b@.len(),
            i <= n,
            forall|k: int| 0 <= k < i ==> a@[k] == b@[k],
        decreases n - i,
    {
        if a.get_char(i) != b.get_char(i) {
            return false;
        }
        i += 1;
    }
    assert(a@ =~= b@);
    true
}

} // verus!
