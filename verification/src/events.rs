//! Identity of native input events and the ledger that keeps one keystroke
//! or text commit from being delivered twice when it reaches the editor both
//! from the native view and from a host callback.

use vstd::prelude::*;

use crate::strings::string_of;

verus! {

/// Keyboard modifier state of one input event.
#[derive(Clone, Copy, Debug, PartialEq, Eq, Structural, Default)]
pub struct Modifiers {
    /// Control key.
    pub control: bool,
    /// Alt / Option key.
    pub alt: bool,
    /// Shift key.
    pub shift: bool,
    /// Command (macOS) or Windows key.
    pub platform: bool,
    /// Function key.
    pub function: bool,
}

/// Where an input event was observed.
#[derive(Clone, Copy, Debug, PartialEq, Eq, Structural)]
pub enum KeySource {
    /// The native child view's own event handling.
    Native,
    /// A VST3 host keyboard callback.
    Vst3Callback,
}

/// The identity of one native input event.
#[derive(Clone, Copy, Debug, PartialEq, Eq, Structural)]
pub enum NativeEventIdentity {
    /// An AppKit event.
    Mac { timestamp_bits: u64, key_code: u16, event_type: u16, window: u64 },
    /// A Win32 message.
    Windows { message_time: u32, window: u64, virtual_key: u32, scan_code: u16, kind: u8 },
}

/// A native event identity within one focus generation.
#[derive(Clone, Copy, Debug, PartialEq, Eq, Structural)]
pub struct NativeEventToken {
    /// Focus generation the event belongs to.
    pub generation: u64,
    /// Identity of the native event.
    pub identity: NativeEventIdentity,
}

/// Outcome of dispatching one input event to the editor.
#[derive(Clone, Copy, Debug, PartialEq, Eq, Structural, Default)]
pub struct DispatchEventResult {
    /// Whether the event should propagate to the host.
    pub propagate: bool,
    /// Whether the editor prevented the default action.
    pub default_prevented: bool,
}

/// A key press or release as the editor sees it.
#[derive(Clone, Debug)]
pub struct SemanticKey {
    /// GPUI key name.
    pub key: String,
    /// Modifier state.
    pub modifiers: Modifiers,
    /// Whether the key went down.
    pub down: bool,
}

/// Whether two keystrokes are the same.
pub open spec fn same_stroke(a: SemanticKey, b: SemanticKey) -> bool {
    a.key@ == b.key@ && a.modifiers == b.modifiers && a.down == b.down
}

/// A dispatched keystroke remembered by the ledger.
pub struct LedgerKey {
    /// The keystroke.
    pub stroke: SemanticKey,
    /// Where it was observed first.
    pub source: KeySource,
    /// What its dispatch returned.
    pub result: DispatchEventResult,
}

/// A dispatched text commit remembered by the ledger.
pub struct LedgerText {
    /// The committed text.
    pub text: String,
    /// Where it was observed first.
    pub source: KeySource,
    /// Whether the editor handled it.
    pub handled: bool,
}

/// One ledger record: a keystroke or a text commit under a native token.
pub struct EventLedgerEntry {
    /// The native event the record belongs to.
    pub token: NativeEventToken,
    /// The keystroke, for a key record.
    pub key: Option<LedgerKey>,
    /// The text, for a text record.
    pub text: Option<LedgerText>,
}

/// Whether `e` records keystroke `stroke` for `token` seen from the other source.
pub open spec fn key_entry_matches(
    e: EventLedgerEntry,
    token: NativeEventToken,
    stroke: SemanticKey,
    source: KeySource,
) -> bool {
    &&& e.token == token
    &&& (e.key matches Some(k) && k.source != source && same_stroke(k.stroke, stroke))
}

/// Whether `e` records text `text` for `token` seen from the other source.
pub open spec fn text_entry_matches(
    e: EventLedgerEntry,
    token: NativeEventToken,
    text: Seq<char>,
    source: KeySource,
) -> bool {
    &&& e.token == token
    &&& (e.text matches Some(t) && t.source != source && t.text@ == text)
}

/// Whether `e` records keystroke `stroke` for `token`, from either source.
pub open spec fn key_entry_recorded(e: EventLedgerEntry, token: NativeEventToken, stroke: SemanticKey) -> bool {
    &&& e.token == token
    &&& (e.key matches Some(k) && same_stroke(k.stroke, stroke))
}

/// Whether `e` records text `text` for `token`, from either source.
pub open spec fn text_entry_recorded(e: EventLedgerEntry, token: NativeEventToken, text: Seq<char>) -> bool {
    &&& e.token == token
    &&& (e.text matches Some(t) && t.text@ == text)
}

/// The dispatch result of the oldest record of `stroke` under `token` seen
/// from the other source, if any.
pub open spec fn first_key_duplicate(
    entries: Seq<EventLedgerEntry>,
    token: NativeEventToken,
    stroke: SemanticKey,
    source: KeySource,
) -> Option<DispatchEventResult>
    decreases entries.len(),
{
    if entries.len() == 0 {
        None
    } else if key_entry_matches(entries[0], token, stroke, source) {
        Some(entries[0].key->Some_0.result)
    } else {
        first_key_duplicate(entries.drop_first(), token, stroke, source)
    }
}

/// Whether the oldest record of `text` under `token` seen from the other
/// source was handled, if there is one.
pub open spec fn first_text_duplicate(
    entries: Seq<EventLedgerEntry>,
    token: NativeEventToken,
    text: Seq<char>,
    source: KeySource,
) -> Option<bool>
    decreases entries.len(),
{
    if entries.len() == 0 {
        None
    } else if text_entry_matches(entries[0], token, text, source) {
        Some(entries[0].text->Some_0.handled)
    } else {
        first_text_duplicate(entries.drop_first(), token, text, source)
    }
}

/// The records kept after appending `entry`: the oldest record leaves when
/// the ledger is full.
pub open spec fn pushed(entries: Seq<EventLedgerEntry>, entry: EventLedgerEntry) -> Seq<EventLedgerEntry> {
    if entries.len() >= EventLedger::MAX_ENTRIES {
        entries.drop_first().push(entry)
    } else {
        entries.push(entry)
    }
}

/// Bounded record of recently dispatched native keystrokes and text commits.
pub struct EventLedger {
    entries: std::collections::VecDeque<EventLedgerEntry>,
}

impl View for EventLedger {
    type V = Seq<EventLedgerEntry>;

    closed spec fn view(&self) -> Seq<EventLedgerEntry> {
        self.entries@
    }
}

impl EventLedger {
    /// Most records the ledger keeps.
    pub const MAX_ENTRIES: usize = 128;

    #[verifier::type_invariant]
    closed spec fn inv(self) -> bool {
        self.entries@.len() <= Self::MAX_ENTRIES
    }

    /// An empty ledger.
    pub fn new() -> (l: Self)
        ensures
            l@ == Seq::<EventLedgerEntry>::empty(),
    {
        EventLedger { entries: std::collections::VecDeque::new() }
    }

    /// The number of records kept.
    pub fn len(&self) -> (n: usize)
        ensures
            n == self@.len(),
            n <= Self::MAX_ENTRIES,
    {
        proof {
            use_type_invariant(self);
        }
        self.entries.len()
    }

    /// Forget every record (a focus generation reset).
    pub fn clear(&mut self)
        ensures
            final(self)@ == Seq::<EventLedgerEntry>::empty(),
    {
        let mut fresh = std::collections::VecDeque::new();
        std::mem::swap(&mut fresh, &mut self.entries);
    }

    /// The recorded result of `stroke` under `token` when it was first seen
    /// from the other source.
    pub fn key_duplicate(
        &self,
        token: NativeEventToken,
        stroke: &SemanticKey,
        source: KeySource,
    ) -> (r: Option<DispatchEventResult>)
        ensures
            r == first_key_duplicate(self@, token, *stroke, source),
    {
        let n = self.entries.len();
        let mut i: usize = 0;
        proof {
            assert(self@.subrange(0, n as int) =~= self@);
        }
        while i < n
            invariant
                n == self@.len(),
                i <= n,
                first_key_duplicate(self@, token, *stroke, source) == first_key_duplicate(
                    self@.subrange(i as int, n as int),
                    token,
                    *stroke,
                    source,
                ),
            decreases n - i,
        {
            let entry = &self.entries[i];
            proof {
                assert(self@.subrange(i as int, n as int).drop_first() =~= self@.subrange(
                    i + 1,
                    n as int,
                ));
            }
            if entry.token == token {
                match &entry.key {
                    Some(key) => {
                        if key.source != source && key.stroke.key == stroke.key
                            && key.stroke.modifiers == stroke.modifiers && key.stroke.down
                            == stroke.down {
                            return Some(key.result);
                        }
                    },
                    None => {},
                }
            }
            i += 1;
        }
        None
    }

    /// Remember a dispatched keystroke unless `stroke` is already recorded
    /// under `token`.
    pub fn record_key(
        &mut self,
        token: NativeEventToken,
        stroke: SemanticKey,
        source: KeySource,
        result: DispatchEventResult,
    )
        ensures
            (exists|i: int|
                0 <= i < old(self)@.len() && key_entry_recorded(#[trigger] old(self)@[i], token, stroke))
                ==> final(self)@ == old(self)@,
            !(exists|i: int|
                0 <= i < old(self)@.len() && key_entry_recorded(#[trigger] old(self)@[i], token, stroke))
                ==> final(self)@ == pushed(
                old(self)@,
                EventLedgerEntry {
                    token,
                    key: Some(LedgerKey { stroke, source, result }),
                    text: None,
                },
            ),
    {
        let n = self.entries.len();
        let mut i: usize = 0;
        while i < n
            invariant
                n == self@.len(),
                i <= n,
                forall|j: int| 0 <= j < i ==> !key_entry_recorded(#[trigger] self@[j], token, stroke),
            decreases n - i,
        {
            let entry = &self.entries[i];
            if entry.token == token {
                match &entry.key {
                    Some(key) => {
                        if key.stroke.key == stroke.key && key.stroke.modifiers == stroke.modifiers
                            && key.stroke.down == stroke.down {
                            return;
                        }
                    },
                    None => {},
                }
            }
            i += 1;
        }
        self.push(
            EventLedgerEntry { token, key: Some(LedgerKey { stroke, source, result }), text: None },
        );
    }

    /// Whether `text` under `token`, first seen from the other source, was
    /// handled.
    pub fn text_duplicate(&self, token: NativeEventToken, text: &str, source: KeySource) -> (r:
        Option<bool>)
        ensures
            r == first_text_duplicate(self@, token, text@, source),
    {
        let wanted = string_of(text);
        let n = self.entries.len();
        let mut i: usize = 0;
        proof {
            assert(self@.subrange(0, n as int) =~= self@);
        }
        while i < n
            invariant
                n == self@.len(),
                i <= n,
                wanted@ == text@,
                first_text_duplicate(self@, token, text@, source) == first_text_duplicate(
                    self@.subrange(i as int, n as int),
                    token,
                    text@,
                    source,
                ),
            decreases n - i,
        {
            let entry = &self.entries[i];
            proof {
                assert(self@.subrange(i as int, n as int).drop_first() =~= self@.subrange(
                    i + 1,
                    n as int,
                ));
            }
            if entry.token == token {
                match &entry.text {
                    Some(t) => {
                        if t.source != source && t.text == wanted {
                            return Some(t.handled);
                        }
                    },
                    None => {},
                }
            }
            i += 1;
        }
        None
    }

    /// Remember a dispatched text commit unless `text` is already recorded
    /// under `token`.
    pub fn record_text(&mut self, token: NativeEventToken, text: String, source: KeySource, handled: bool)
        ensures
            (exists|i: int|
                0 <= i < old(self)@.len() && text_entry_recorded(#[trigger] old(self)@[i], token, text@))
                ==> final(self)@ == old(self)@,
            !(exists|i: int|
                0 <= i < old(self)@.len() && text_entry_recorded(#[trigger] old(self)@[i], token, text@))
                ==> final(self)@ == pushed(
                old(self)@,
                EventLedgerEntry {
                    token,
                    key: None,
                    text: Some(LedgerText { text, source, handled }),
                },
            ),
    {
        let n = self.entries.len();
        let mut i: usize = 0;
        while i < n
            invariant
                n == self@.len(),
                i <= n,
                forall|j: int| 0 <= j < i ==> !text_entry_recorded(#[trigger] self@[j], token, text@),
            decreases n - i,
        {
            let entry = &self.entries[i];
            if entry.token == token {
                match &entry.text {
                    Some(t) => {
                        if t.text == text {
                            return;
                        }
                    },
                    None => {},
                }
            }
            i += 1;
        }
        self.push(
            EventLedgerEntry { token, key: None, text: Some(LedgerText { text, source, handled }) },
        );
    }

    /// Append one record, letting the oldest go when the ledger is full.
    fn push(&mut self, entry: EventLedgerEntry)
        ensures
            final(self)@ == pushed(old(self)@, entry),
    {
        proof {
            use_type_invariant(&*self);
        }
        let mut entries = std::collections::VecDeque::new();
        std::mem::swap(&mut entries, &mut self.entries);
        if entries.len() >= Self::MAX_ENTRIES {
            entries.pop_front();
        }
        entries.push_back(entry);
        self.entries = entries;
    }
}

/// Appending a record leaves earlier answers alone and otherwise answers
/// from the new record.
proof fn lemma_first_key_duplicate_push(
    a: Seq<EventLedgerEntry>,
    e: EventLedgerEntry,
    token: NativeEventToken,
    stroke: SemanticKey,
    source: KeySource,
)
    ensures
        first_key_duplicate(a.push(e), token, stroke, source) == (if first_key_duplicate(
            a,
            token,
            stroke,
            source,
        ) is Some {
            first_key_duplicate(a, token, stroke, source)
        } else if key_entry_matches(e, token, stroke, source) {
            Some(e.key->Some_0.result)
        } else {
            None
        }),
    decreases a.len(),
{
    if a.len() > 0 {
        assert(a.push(e).drop_first() =~= a.drop_first().push(e));
        assert(a.push(e)[0] == a[0]);
        lemma_first_key_duplicate_push(a.drop_first(), e, token, stroke, source);
    } else {
        assert(a.push(e).drop_first() =~= Seq::<EventLedgerEntry>::empty());
        assert(a.push(e)[0] == e);
        assert(first_key_duplicate(Seq::<EventLedgerEntry>::empty(), token, stroke, source) is None);
    }
}

/// Without a matching record there is no duplicate.
proof fn lemma_first_key_duplicate_none(
    a: Seq<EventLedgerEntry>,
    token: NativeEventToken,
    stroke: SemanticKey,
    source: KeySource,
)
    requires
        forall|i: int| 0 <= i < a.len() ==> !key_entry_recorded(#[trigger] a[i], token, stroke),
    ensures
        first_key_duplicate(a, token, stroke, source) is None,
    decreases a.len(),
{
    if a.len() > 0 {
        assert(!key_entry_recorded(a[0], token, stroke));
        assert forall|i: int| 0 <= i < a.drop_first().len() implies !key_entry_recorded(
            #[trigger] a.drop_first()[i],
            token,
            stroke,
        ) by {
            assert(a.drop_first()[i] == a[i + 1]);
        }
        lemma_first_key_duplicate_none(a.drop_first(), token, stroke, source);
    }
}

/// Appending a text record leaves earlier answers alone and otherwise
/// answers from the new record.
proof fn lemma_first_text_duplicate_push(
    a: Seq<EventLedgerEntry>,
    e: EventLedgerEntry,
    token: NativeEventToken,
    text: Seq<char>,
    source: KeySource,
)
    ensures
        first_text_duplicate(a.push(e), token, text, source) == (if first_text_duplicate(
            a,
            token,
            text,
            source,
        ) is Some {
            first_text_duplicate(a, token, text, source)
        } else if text_entry_matches(e, token, text, source) {
            Some(e.text->Some_0.handled)
        } else {
            None
        }),
    decreases a.len(),
{
    if a.len() > 0 {
        assert(a.push(e).drop_first() =~= a.drop_first().push(e));
        assert(a.push(e)[0] == a[0]);
        lemma_first_text_duplicate_push(a.drop_first(), e, token, text, source);
    } else {
        assert(a.push(e).drop_first() =~= Seq::<EventLedgerEntry>::empty());
        assert(a.push(e)[0] == e);
        assert(first_text_duplicate(Seq::<EventLedgerEntry>::empty(), token, text, source) is None);
    }
}

/// Without a matching text record there is no duplicate.
proof fn lemma_first_text_duplicate_none(
    a: Seq<EventLedgerEntry>,
    token: NativeEventToken,
    text: Seq<char>,
    source: KeySource,
)
    requires
        forall|i: int| 0 <= i < a.len() ==> !text_entry_recorded(#[trigger] a[i], token, text),
    ensures
        first_text_duplicate(a, token, text, source) is None,
    decreases a.len(),
{
    if a.len() > 0 {
        assert(!text_entry_recorded(a[0], token, text));
        assert forall|i: int| 0 <= i < a.drop_first().len() implies !text_entry_recorded(
            #[trigger] a.drop_first()[i],
            token,
            text,
        ) by {
            assert(a.drop_first()[i] == a[i + 1]);
        }
        lemma_first_text_duplicate_none(a.drop_first(), token, text, source);
    }
}

/// A freshly recorded keystroke is reported as a duplicate to the other
/// source, with the recorded dispatch result, and never to its own source.
pub proof fn law_recorded_key_is_cross_source_duplicate(
    entries: Seq<EventLedgerEntry>,
    token: NativeEventToken,
    stroke: SemanticKey,
    source: KeySource,
    other: KeySource,
    result: DispatchEventResult,
)
    requires
        other != source,
        forall|i: int| 0 <= i < entries.len() ==> !key_entry_recorded(#[trigger] entries[i], token, stroke),
    ensures
        ({
            let after = pushed(
                entries,
                EventLedgerEntry { token, key: Some(LedgerKey { stroke, source, result }), text: None },
            );
            &&& first_key_duplicate(after, token, stroke, other) == Some(result)
            &&& first_key_duplicate(after, token, stroke, source) is None
        }),
{
    let e = EventLedgerEntry { token, key: Some(LedgerKey { stroke, source, result }), text: None };
    let kept = if entries.len() >= EventLedger::MAX_ENTRIES {
        entries.drop_first()
    } else {
        entries
    };
    assert forall|i: int| 0 <= i < kept.len() implies !key_entry_recorded(#[trigger] kept[i], token, stroke) by {
        if entries.len() >= EventLedger::MAX_ENTRIES {
            assert(kept[i] == entries[i + 1]);
        }
    }
    lemma_first_key_duplicate_none(kept, token, stroke, other);
    lemma_first_key_duplicate_none(kept, token, stroke, source);
    lemma_first_key_duplicate_push(kept, e, token, stroke, other);
    lemma_first_key_duplicate_push(kept, e, token, stroke, source);
}

/// A freshly recorded text commit is reported as a duplicate to the other
/// source, with whether it was handled, and never to its own source.
pub proof fn law_recorded_text_is_cross_source_duplicate(
    entries: Seq<EventLedgerEntry>,
    token: NativeEventToken,
    text: String,
    source: KeySource,
    other: KeySource,
    handled: bool,
)
    requires
        other != source,
        forall|i: int| 0 <= i < entries.len() ==> !text_entry_recorded(#[trigger] entries[i], token, text@),
    ensures
        ({
            let after = pushed(
                entries,
                EventLedgerEntry { token, key: None, text: Some(LedgerText { text, source, handled }) },
            );
            &&& first_text_duplicate(after, token, text@, other) == Some(handled)
            &&& first_text_duplicate(after, token, text@, source) is None
        }),
{
    let e = EventLedgerEntry { token, key: None, text: Some(LedgerText { text, source, handled }) };
    let kept = if entries.len() >= EventLedger::MAX_ENTRIES {
        entries.drop_first()
    } else {
        entries
    };
    assert forall|i: int| 0 <= i < kept.len() implies !text_entry_recorded(#[trigger] kept[i], token, text@) by {
        if entries.len() >= EventLedger::MAX_ENTRIES {
            assert(kept[i] == entries[i + 1]);
        }
    }
    lemma_first_text_duplicate_none(kept, token, text@, other);
    lemma_first_text_duplicate_none(kept, token, text@, source);
    lemma_first_text_duplicate_push(kept, e, token, text@, other);
    lemma_first_text_duplicate_push(kept, e, token, text@, source);
}

/// An event whose token has no record is never a duplicate.
pub proof fn law_unrecorded_token_is_never_duplicate(
    entries: Seq<EventLedgerEntry>,
    token: NativeEventToken,
    stroke: SemanticKey,
    text: Seq<char>,
    source: KeySource,
)
    requires
        forall|i: int| 0 <= i < entries.len() ==> (#[trigger] entries[i]).token != token,
    ensures
        first_key_duplicate(entries, token, stroke, source) is None,
        first_text_duplicate(entries, token, text, source) is None,
{
    lemma_first_key_duplicate_none(entries, token, stroke, source);
    lemma_first_text_duplicate_none(entries, token, text, source);
}

/// The ledger never holds more than its capacity.
pub proof fn law_ledger_stays_bounded(entries: Seq<EventLedgerEntry>, entry: EventLedgerEntry)
    requires
        entries.len() <= EventLedger::MAX_ENTRIES,
    ensures
        pushed(entries, entry).len() <= EventLedger::MAX_ENTRIES,
        pushed(entries, entry).last() == entry,
{
}

} // verus!
