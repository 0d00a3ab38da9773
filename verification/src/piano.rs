//! Key layout of the piano keyboard widget.
//!
//! White keys are laid out side by side in note order; each black key sits
//! on the boundary to the right of the white key below it. C keys carry an
//! octave label.

use vstd::prelude::*;

verus! {

/// Whether a MIDI note is a white key: C, D, E, F, G, A or B.
pub open spec fn is_white_note_spec(note: u8) -> bool {
    let pitch = note % 12;
    pitch == 0 || pitch == 2 || pitch == 4 || pitch == 5 || pitch == 7 || pitch == 9 || pitch == 11
}

/// Return true for the white keys of a piano.
pub fn is_white_note(note: u8) -> (white: bool)
    ensures
        white == is_white_note_spec(note),
{
    let pitch = note % 12;
    pitch == 0 || pitch == 2 || pitch == 4 || pitch == 5 || pitch == 7 || pitch == 9 || pitch == 11
}

/// Return true for the C keys, which carry octave labels.
pub fn is_c_note(note: u8) -> (c: bool)
    ensures
        c == (note % 12 == 0),
{
    note % 12 == 0
}

/// The octave number of a note, shifted by the keyboard's octave offset.
pub fn midi_octave(note: u8, offset: i8) -> (octave: i8)
    requires
        note / 12 + offset <= i8::MAX,
    ensures
        octave == note / 12 + offset,
{
    (note / 12) as i8 + offset
}

/// The white notes from `first` through `last`, in ascending order.
pub fn collect_white_notes(first: u8, last: u8) -> (whites: Vec<u8>)
    ensures
        forall|i: int|
            0 <= i < whites.len() ==> first <= whites@[i] <= last && is_white_note_spec(
                whites@[i],
            ),
        forall|i: int, j: int| 0 <= i < j < whites.len() ==> whites@[i] < whites@[j],
        forall|note: u8|
            first <= note <= last && is_white_note_spec(note) ==> whites@.contains(note),
{
    let mut whites: Vec<u8> = Vec::new();
    if first > last {
        return whites;
    }
    let mut note: u8 = first;
    loop
        invariant_except_break
            forall|i: int|
                0 <= i < whites.len() ==> first <= whites@[i] < note && is_white_note_spec(
                    whites@[i],
                ),
            forall|i: int, j: int| 0 <= i < j < whites.len() ==> whites@[i] < whites@[j],
            forall|n: u8| first <= n < note && is_white_note_spec(n) ==> whites@.contains(n),
        invariant
            first <= note <= last,
        ensures
            forall|i: int|
                0 <= i < whites.len() ==> first <= whites@[i] <= last && is_white_note_spec(
                    whites@[i],
                ),
            forall|i: int, j: int| 0 <= i < j < whites.len() ==> whites@[i] < whites@[j],
            forall|n: u8| first <= n <= last && is_white_note_spec(n) ==> whites@.contains(n),
        decreases last - note,
    {
        let ghost prev = whites@;
        if is_white_note(note) {
            whites.push(note);
        }
        proof {
            assert forall|n: u8| first <= n <= note && is_white_note_spec(n) implies whites@.contains(
                n,
            ) by {
                if n < note {
                    let w = choose|w: int| 0 <= w < prev.len() && prev[w] == n;
                    assert(whites@[w] == n);
                } else {
                    assert(whites@[whites.len() - 1] == n);
                }
            }
        }
        if note == last {
            break;
        }
        note = note + 1;
    }
    whites
}

/// How many entries at the front of `whites` lie below `note`.
pub open spec fn leading_below(whites: Seq<u8>, note: u8) -> nat
    decreases whites.len(),
{
    if whites.len() == 0 {
        0
    } else if whites[0] < note {
        1 + leading_below(whites.drop_first(), note)
    } else {
        0
    }
}

/// The index of the white key a black key `note` is drawn after: one less
/// than the number of leading white keys below it, or zero.
pub fn white_index_before(note: u8, whites: &[u8]) -> (index: usize)
    ensures
        index == (if leading_below(whites@, note) > 0 {
            leading_below(whites@, note) - 1
        } else {
            0
        }),
{
    let mut count: usize = 0;
    proof {
        assert(whites@.skip(0) == whites@);
    }
    while count < whites.len() && whites[count] < note
        invariant
            count <= whites.len(),
            leading_below(whites@, note) == count + leading_below(whites@.skip(count as int), note),
        decreases whites.len() - count,
    {
        proof {
            assert(whites@.skip(count as int).drop_first() == whites@.skip(count + 1));
        }
        count = count + 1;
    }
    proof {
        if count < whites.len() {
            assert(whites@.skip(count as int)[0] == whites@[count as int]);
        } else {
            assert(whites@.skip(count as int).len() == 0);
        }
    }
    if count > 0 {
        count - 1
    } else {
        0
    }
}

proof fn lemma_leading_below_sorted(whites: Seq<u8>, note: u8, k: int)
    requires
        forall|i: int, j: int| 0 <= i < j < whites.len() ==> whites[i] < whites[j],
        0 <= k <= whites.len(),
        forall|i: int| 0 <= i < k ==> whites[i] < note,
        k < whites.len() ==> whites[k] >= note,
    ensures
        leading_below(whites, note) == k,
    decreases whites.len(),
{
    if whites.len() > 0 && k > 0 {
        let rest = whites.drop_first();
        assert forall|i: int| 0 <= i < k - 1 implies rest[i] < note by {
            assert(rest[i] == whites[i + 1]);
        }
        if k - 1 < rest.len() {
            assert(rest[k - 1] == whites[k]);
        }
        lemma_leading_below_sorted(rest, note, k - 1);
    }
}

/// On a keyboard whose white keys run in ascending order, a black key whose
/// lower white neighbour is on the keyboard is drawn right after that
/// neighbour.
pub proof fn law_black_key_follows_its_white_neighbour(whites: Seq<u8>, note: u8, k: int)
    requires
        forall|i: int, j: int| 0 <= i < j < whites.len() ==> whites[i] < whites[j],
        !is_white_note_spec(note),
        0 <= k < whites.len(),
        whites[k] + 1 == note,
    ensures
        leading_below(whites, note) == k + 1,
        whites[(leading_below(whites, note) - 1) as int] + 1 == note,
{
    assert forall|i: int| 0 <= i < k + 1 implies whites[i] < note by {
        if i < k {
            assert(whites[i] < whites[k]);
        }
    }
    if k + 1 < whites.len() {
        assert(whites[k + 1] > whites[k]);
    }
    lemma_leading_below_sorted(whites, note, k + 1);
}

} // verus!
