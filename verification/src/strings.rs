//! String building blocks: appending characters, decimal digits, and the
//! standard library's Unicode lowercase mappings.

use vstd::prelude::*;

verus! {

/// `String::push` appends one character.
pub assume_specification[ String::push ](s: &mut String, ch: char)
    ensures
        final(s)@ == old(s)@.push(ch),
;

/// Names the result of `str::to_lowercase` on a character sequence.
pub uninterp spec fn str_lowercase_of(s: Seq<char>) -> Seq<char>;

/// Names the result of `char::to_lowercase`, collected into a string.
pub uninterp spec fn char_lowercase_of(c: char) -> Seq<char>;

/// ASCII lowercase mapping of one character: `A`-`Z` become `a`-`z`, every
/// other character is unchanged.
pub open spec fn ascii_lower(c: char) -> char {
    if 'A' <= c <= 'Z' {
        ((c as u32) + 32) as char
    } else {
        c
    }
}

/// Whether every character of `s` is ASCII.
pub open spec fn all_ascii(s: Seq<char>) -> bool {
    forall|i: int| 0 <= i < s.len() ==> (s[i] as u32) < 0x80
}

/// `str::to_lowercase`: the Unicode lowercase of a string. The contract
/// names the result; of its content it states only what the standard
/// library documents for ASCII text, which maps `A`-`Z` to `a`-`z` and
/// leaves the rest unchanged.
#[verifier::external_body]
pub(crate) fn str_to_lowercase(s: &str) -> (r: String)
    ensures
        r@ == str_lowercase_of(s@),
        all_ascii(s@) ==> r@ == s@.map_values(|c: char| ascii_lower(c)),
{
    s.to_lowercase()
}

/// `char::to_lowercase`, collected into a string: the Unicode lowercase of
/// one character. The contract names the result; of its content it states
/// only the documented ASCII mapping.
#[verifier::external_body]
pub(crate) fn char_to_lowercase(c: char) -> (r: String)
    ensures
        r@ == char_lowercase_of(c),
        (c as u32) < 0x80 ==> r@ == seq![ascii_lower(c)],
{
    c.to_lowercase().collect()
}

/// The decimal digit character for `d < 10`.
pub open spec fn digit_char(d: nat) -> char {
    (('0' as u32) + d) as char
}

/// Decimal digits of `n`, most significant first, without leading zeros.
pub open spec fn decimal_seq(n: nat) -> Seq<char>
    decreases n,
{
    if n < 10 {
        seq![digit_char(n)]
    } else {
        decimal_seq(n / 10).push(digit_char(n % 10))
    }
}

/// A string holding exactly the characters of a string literal.
pub fn string_of(s: &str) -> (r: String)
    ensures
        r@ == s@,
{
    String::from_str(s)
}

/// A string holding one character.
pub fn string_of_char(c: char) -> (r: String)
    ensures
        r@ == seq![c],
{
    let mut s = String::new();
    s.push(c);
    s
}

/// The name of function key `n` (`f1` to `f24`).
pub fn function_key_name(n: u32) -> (r: String)
    requires
        1 <= n <= 24,
    ensures
        r@ == seq!['f'] + decimal_seq(n as nat),
{
    let mut s = String::new();
    s.push('f');
    if n < 10 {
        s.push(digit(n));
    } else {
        s.push(digit(n / 10));
        s.push(digit(n % 10));
        assert(decimal_seq((n / 10) as nat) == seq![digit_char((n / 10) as nat)]);
    }
    s
}

/// The decimal digit character for `d < 10`.
pub fn digit(d: u32) -> (c: char)
    requires
        d < 10,
    ensures
        c == digit_char(d as nat),
{
    let code = ('0' as u32) + d;
    let r = crate::chars::char_from_u32(code);
    match r {
        Some(c) => {
            proof {
                vstd::utf8::char_u32_cast(c, code);
            }
            c
        },
        None => {
            assert(false);
            '0'
        },
    }
}

} // verus!
