//! Correlation of keyboard input that reaches the editor twice.
//!
//! In a plugin host the same key press can arrive both as a native event of
//! the child view and as a VST3 host callback. Events that carry a native
//! identity from the current focus generation are remembered in an event
//! ledger; when the other source reports the same event, the remembered
//! answer is returned instead of dispatching it again. Events without an
//! identity, or from an older focus generation, are always dispatched.

use vstd::prelude::*;

use crate::events::{
    first_key_duplicate, first_text_duplicate, key_entry_recorded, pushed, text_entry_recorded,
    DispatchEventResult, EventLedger, EventLedgerEntry, KeySource, LedgerKey, LedgerText, Modifiers,
    NativeEventIdentity, NativeEventToken, SemanticKey,
};
use crate::vst3_keys::{vst3_text, vst3_text_spec};

verus! {

/// The correlation state: remembered events, the current focus generation
/// and the token of the last native key press still held.
pub struct CorrelationState {
    /// Remembered events, oldest first.
    pub ledger: Seq<EventLedgerEntry>,
    /// Generation that tokens must carry to be correlated.
    pub focus_generation: u64,
    /// Token of the last native key-down not yet released.
    pub last_native_key_token: Option<NativeEventToken>,
}

/// Whether an event token belongs to the current focus generation.
pub open spec fn correlatable(s: CorrelationState, token: Option<NativeEventToken>) -> bool {
    token matches Some(t) && t.generation == s.focus_generation
}

/// The ledger after remembering keystroke `stroke` under `token`: unchanged
/// when it is already remembered, else with the new record appended.
pub open spec fn ledger_with_key(
    entries: Seq<EventLedgerEntry>,
    token: NativeEventToken,
    stroke: SemanticKey,
    source: KeySource,
    result: DispatchEventResult,
) -> Seq<EventLedgerEntry> {
    if exists|i: int| 0 <= i < entries.len() && key_entry_recorded(#[trigger] entries[i], token, stroke) {
        entries
    } else {
        pushed(
            entries,
            EventLedgerEntry { token, key: Some(LedgerKey { stroke, source, result }), text: None },
        )
    }
}

/// The ledger after remembering text `text` under `token`.
pub open spec fn ledger_with_text(
    entries: Seq<EventLedgerEntry>,
    token: NativeEventToken,
    text: String,
    source: KeySource,
    handled: bool,
) -> Seq<EventLedgerEntry> {
    if exists|i: int|
        0 <= i < entries.len() && text_entry_recorded(#[trigger] entries[i], token, text@) {
        entries
    } else {
        pushed(
            entries,
            EventLedgerEntry { token, key: None, text: Some(LedgerText { text, source, handled }) },
        )
    }
}

/// Whether `token` is a Win32 key event of `window` posted at `message_time`.
pub open spec fn windows_token_matches(token: NativeEventToken, window: u64, message_time: u32) -> bool {
    match token.identity {
        NativeEventIdentity::Windows { message_time: time, window: w, .. } => time == message_time
            && w == window,
        NativeEventIdentity::Mac { .. } => false,
    }
}

/// Correlates native and host-callback keyboard events of one editor window.
pub struct KeyCorrelation {
    ledger: EventLedger,
    focus_generation: u64,
    last_native_key_token: Option<NativeEventToken>,
}

impl View for KeyCorrelation {
    type V = CorrelationState;

    closed spec fn view(&self) -> CorrelationState {
        CorrelationState {
            ledger: self.ledger@,
            focus_generation: self.focus_generation,
            last_native_key_token: self.last_native_key_token,
        }
    }
}

impl KeyCorrelation {
    /// A fresh correlation state in focus generation zero.
    pub fn new() -> (c: Self)
        ensures
            c@.ledger == Seq::<EventLedgerEntry>::empty(),
            c@.focus_generation == 0,
            c@.last_native_key_token is None,
    {
        KeyCorrelation { ledger: EventLedger::new(), focus_generation: 0, last_native_key_token: None }
    }

    /// The current focus generation.
    pub fn focus_generation(&self) -> (g: u64)
        ensures
            g == self@.focus_generation,
    {
        self.focus_generation
    }

    /// The token of the last native key press not yet released.
    pub fn last_native_key_token(&self) -> (t: Option<NativeEventToken>)
        ensures
            t == self@.last_native_key_token,
    {
        self.last_native_key_token
    }

    /// The token of a native event observed in the current generation.
    pub fn token_for(&self, identity: NativeEventIdentity) -> (t: NativeEventToken)
        ensures
            t == (NativeEventToken { generation: self@.focus_generation, identity }),
    {
        NativeEventToken { generation: self.focus_generation, identity }
    }

    /// The token a Win32 character message inherits: the held key press,
    /// when it is from the current generation and from the same window and
    /// message time.
    pub fn windows_text_token(&self, window: u64, message_time: u32) -> (t: Option<NativeEventToken>)
        ensures
            t == (match self@.last_native_key_token {
                Some(token) => if token.generation == self@.focus_generation
                    && windows_token_matches(token, window, message_time) {
                    Some(token)
                } else {
                    None
                },
                None => None,
            }),
    {
        let token = match self.last_native_key_token {
            Some(token) => token,
            None => {
                return None;
            },
        };
        if token.generation != self.focus_generation {
            return None;
        }
        match token.identity {
            NativeEventIdentity::Windows { message_time: time, window: w, .. } => {
                if time == message_time && w == window {
                    Some(token)
                } else {
                    None
                }
            },
            NativeEventIdentity::Mac { .. } => None,
        }
    }

    /// Start a new focus generation: every remembered event is forgotten and
    /// no key press is held.
    pub fn invalidate_generation(&mut self)
        ensures
            final(self)@.ledger == Seq::<EventLedgerEntry>::empty(),
            final(self)@.focus_generation == (if old(self)@.focus_generation == u64::MAX {
                0
            } else {
                old(self)@.focus_generation + 1
            }),
            final(self)@.last_native_key_token is None,
    {
        self.focus_generation = if self.focus_generation == u64::MAX {
            0
        } else {
            self.focus_generation + 1
        };
        self.ledger.clear();
        self.last_native_key_token = None;
    }

    /// Note a native key event: a press is held under its token, a release
    /// clears the held token.
    pub fn note_native_key(&mut self, token: Option<NativeEventToken>, down: bool)
        ensures
            final(self)@ == (CorrelationState {
                last_native_key_token: if down {
                    token
                } else {
                    None
                },
                ..old(self)@
            }),
    {
        self.last_native_key_token = if down {
            token
        } else {
            None
        };
    }

    /// The remembered answer to a keystroke already dispatched from the
    /// other source, when its token is correlatable.
    pub fn key_duplicate(
        &self,
        token: Option<NativeEventToken>,
        stroke: &SemanticKey,
        source: KeySource,
    ) -> (r: Option<DispatchEventResult>)
        ensures
            r == (if correlatable(self@, token) {
                first_key_duplicate(self@.ledger, token->Some_0, *stroke, source)
            } else {
                None
            }),
    {
        match token {
            Some(t) => {
                if t.generation == self.focus_generation {
                    self.ledger.key_duplicate(t, stroke, source)
                } else {
                    None
                }
            },
            None => None,
        }
    }

    /// Remember the answer to a dispatched keystroke when its token is
    /// correlatable.
    pub fn record_key(
        &mut self,
        token: Option<NativeEventToken>,
        stroke: SemanticKey,
        source: KeySource,
        result: DispatchEventResult,
    )
        ensures
            final(self)@ == (CorrelationState {
                ledger: if correlatable(old(self)@, token) {
                    ledger_with_key(old(self)@.ledger, token->Some_0, stroke, source, result)
                } else {
                    old(self)@.ledger
                },
                ..old(self)@
            }),
    {
        match token {
            Some(t) => {
                if t.generation == self.focus_generation {
                    self.ledger.record_key(t, stroke, source, result);
                }
            },
            None => {},
        }
    }

    /// Whether text already committed from the other source was handled,
    /// when its token is correlatable.
    pub fn text_duplicate(&self, token: Option<NativeEventToken>, text: &str, source: KeySource) -> (r:
        Option<bool>)
        ensures
            r == (if correlatable(self@, token) {
                first_text_duplicate(self@.ledger, token->Some_0, text@, source)
            } else {
                None
            }),
    {
        match token {
            Some(t) => {
                if t.generation == self.focus_generation {
                    self.ledger.text_duplicate(t, text, source)
                } else {
                    None
                }
            },
            None => None,
        }
    }

    /// Remember whether committed text was handled, when its token is
    /// correlatable.
    pub fn record_text(
        &mut self,
        token: Option<NativeEventToken>,
        text: String,
        source: KeySource,
        handled: bool,
    )
        ensures
            final(self)@ == (CorrelationState {
                ledger: if correlatable(old(self)@, token) {
                    ledger_with_text(old(self)@.ledger, token->Some_0, text, source, handled)
                } else {
                    old(self)@.ledger
                },
                ..old(self)@
            }),
    {
        match token {
            Some(t) => {
                if t.generation == self.focus_generation {
                    self.ledger.record_text(t, text, source, handled);
                }
            },
            None => {},
        }
    }
}

/// What to do once a VST3 key callback has been dispatched as a key event.
#[derive(Debug, PartialEq, Eq)]
pub enum Vst3KeyAction {
    /// Report to the host whether the key was handled.
    Handled(bool),
    /// Commit this text to the editor and report whether that was handled.
    DispatchText(String),
}

/// Whether the editor consumed a dispatched key event.
pub open spec fn consumed(result: DispatchEventResult) -> bool {
    !result.propagate || result.default_prevented
}

/// The decision after dispatching a VST3 key callback: a release, or a
/// consumed press, reports whether it was consumed; an unconsumed press
/// without Control, Alt or Command commits the key's text when it types
/// any; anything else is reported unhandled.
pub fn vst3_key_action(
    down: bool,
    result: DispatchEventResult,
    modifiers: Modifiers,
    key: u16,
    key_code: i16,
) -> (action: Vst3KeyAction)
    ensures
        !down ==> action == Vst3KeyAction::Handled(consumed(result)),
        down && consumed(result) ==> action == Vst3KeyAction::Handled(true),
        down && !consumed(result) ==> match action {
            Vst3KeyAction::DispatchText(text) => !modifiers.control && !modifiers.alt
                && !modifiers.platform && vst3_text_spec(key, key_code as int) == Some(text@),
            Vst3KeyAction::Handled(handled) => !handled && (modifiers.control || modifiers.alt
                || modifiers.platform || vst3_text_spec(key, key_code as int) is None),
        },
{
    if !down {
        return Vst3KeyAction::Handled(!result.propagate || result.default_prevented);
    }
    if !result.propagate || result.default_prevented {
        return Vst3KeyAction::Handled(true);
    }
    if !modifiers.control && !modifiers.alt && !modifiers.platform {
        match vst3_text(key, key_code) {
            Some(text) => {
                return Vst3KeyAction::DispatchText(text);
            },
            None => {},
        }
    }
    Vst3KeyAction::Handled(false)
}

} // verus!
