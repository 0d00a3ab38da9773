//! Host-neutral lifecycle and size negotiation for a retained Radiant editor
//! embedded in a plugin host's native parent window.
//!
//! The native child window itself is created and destroyed by the embedding
//! application; this module decides what every host request does to the
//! hosted view's state. Host-facing sizes are logical points.

use vstd::prelude::*;

use crate::chars::char_from_u32;
use crate::size_contract::{
    lemma_well_formed_editor_contract_is_defined, law_editor_contract_within_bounds,
    EditorSizeContract,
};

verus! {

/// The character a VST3 key-down callback delivers to the editor.
///
/// VST3 virtual-key codes (not Win32 virtual keys) map to control and
/// private-use navigation characters; any other key delivers its `key`
/// character when that is a Unicode scalar value, else the printable ASCII
/// `key_code`, if any.
pub open spec fn vst3_input_char_spec(key: u16, key_code: i16) -> Option<char> {
    if key_code == 1 {
        Some('\u{8}')
    } else if key_code == 2 {
        Some('\t')
    } else if key_code == 4 || key_code == 19 {
        Some('\r')
    } else if key_code == 6 {
        Some('\u{1b}')
    } else if key_code == 7 {
        Some(' ')
    } else if key_code == 9 {
        Some('\u{f72b}')
    } else if key_code == 10 {
        Some('\u{f729}')
    } else if key_code == 11 {
        Some('\u{1c}')
    } else if key_code == 12 {
        Some('\u{1e}')
    } else if key_code == 13 {
        Some('\u{1d}')
    } else if key_code == 14 {
        Some('\u{1f}')
    } else if key_code == 22 {
        Some('\u{7f}')
    } else if vstd::utf8::is_scalar(key as u32) {
        Some((key as u32) as char)
    } else if 0x20 <= key_code <= 0x7e {
        Some((key_code as u8) as char)
    } else {
        None
    }
}

/// Convert a VST3 key callback into the character understood by Radiant.
pub fn vst3_key_down_to_input_char(key: u16, key_code: i16) -> (r: Option<char>)
    ensures
        r == vst3_input_char_spec(key, key_code),
{
    match key_code {
        1 => Some('\u{8}'),
        2 => Some('\t'),
        4 | 19 => Some('\r'),
        6 => Some('\u{1b}'),
        7 => Some(' '),
        9 => Some('\u{f72b}'),
        10 => Some('\u{f729}'),
        11 => Some('\u{1c}'),
        12 => Some('\u{1e}'),
        13 => Some('\u{1d}'),
        14 => Some('\u{1f}'),
        22 => Some('\u{7f}'),
        _ => {
            let from_key = char_from_u32(key as u32);
            match from_key {
                Some(c) => {
                    proof {
                        vstd::utf8::char_u32_cast(c, key as u32);
                    }
                    Some(c)
                },
                None => {
                    if 0x20 <= key_code && key_code <= 0x7e {
                        Some((key_code as u8) as char)
                    } else {
                        None
                    }
                },
            }
        },
    }
}

/// The character that Radiant receives for a named VST3 key is the one the
/// AppKit key naming reads as that same key: Tab, Return and Enter, Escape,
/// Space, Home and End each arrive as the character of their own key, so
/// Escape cancels with ESC and never commits as Return. Backspace and
/// Delete arrive as the ASCII BS and DEL controls, and the arrows as the
/// FS, GS, RS and US controls for left, right, up and down, whatever
/// character accompanies the callback.
pub proof fn law_radiant_chars_name_their_key(key: u16)
    ensures
        forall|code: i16|
            #![trigger vst3_input_char_spec(key, code)]
            code == 2 || code == 4 || code == 6 || code == 7 || code == 9 || code == 10 || code == 19
                ==> vst3_input_char_spec(key, code) is Some && crate::vst3_keys::vst3_keystroke_spec(
                key,
                code as int,
            ) is Some && crate::mac_keys::key_name_spec(
                Some(seq![vst3_input_char_spec(key, code)->Some_0]),
            ) == crate::vst3_keys::vst3_keystroke_spec(key, code as int)->Some_0.0,
        vst3_input_char_spec(key, 6) == Some('\u{1b}'),
        vst3_input_char_spec(key, 1) == Some('\u{8}') && vst3_input_char_spec(key, 22) == Some(
            '\u{7f}',
        ),
        vst3_input_char_spec(key, 11) == Some('\u{1c}') && vst3_input_char_spec(key, 13) == Some(
            '\u{1d}',
        ),
        vst3_input_char_spec(key, 12) == Some('\u{1e}') && vst3_input_char_spec(key, 14) == Some(
            '\u{1f}',
        ),
{
}

/// The state of a hosted editor view, as the host sees it.
pub struct HostedViewState {
    /// Name of the native window class used for the child view.
    pub class_name: Seq<char>,
    /// Logical size contract applied to host resize requests.
    pub contract: EditorSizeContract,
    /// Whether the host has attached a parent window.
    pub parent_attached: bool,
    /// Whether the native child view exists.
    pub open: bool,
    /// Whether the native child view is shown.
    pub visible: bool,
    /// Latest negotiated host-facing size.
    pub size: (u32, u32),
    /// Whether keyboard input arrives only through host callbacks.
    pub callback_keyboard_only: bool,
}

/// CLAP/VST3-compatible host facade for a retained Radiant editor.
pub struct RadiantHostedGui {
    class_name: &'static str,
    contract: EditorSizeContract,
    parent_attached: bool,
    open: bool,
    visible: bool,
    size: (u32, u32),
    callback_keyboard_only: bool,
}

impl View for RadiantHostedGui {
    type V = HostedViewState;

    closed spec fn view(&self) -> HostedViewState {
        HostedViewState {
            class_name: self.class_name@,
            contract: self.contract,
            parent_attached: self.parent_attached,
            open: self.open,
            visible: self.visible,
            size: self.size,
            callback_keyboard_only: self.callback_keyboard_only,
        }
    }
}

/// What every hosted view keeps true: a well-formed contract, a negotiated
/// size inside its bounds, and a shown view only when it is open, which in
/// turn needs an attached parent.
pub open spec fn hosted_view_invariant(s: HostedViewState) -> bool {
    &&& s.contract.well_formed()
    &&& s.contract.minimum.0 <= s.size.0 <= s.contract.maximum.0
    &&& s.contract.minimum.1 <= s.size.1 <= s.contract.maximum.1
    &&& s.visible ==> s.open
    &&& s.open ==> s.parent_attached
}

/// The state after `open`: the size is renegotiated, and the child view
/// opens (and is shown if it was not already open) when a parent is attached.
pub open spec fn after_open(s: HostedViewState) -> HostedViewState {
    HostedViewState {
        size: s.contract.constrained_size(s.size),
        open: s.open || s.parent_attached,
        visible: if s.open {
            s.visible
        } else {
            s.parent_attached
        },
        ..s
    }
}

/// The state after `show`: `open`, then the open view is shown.
pub open spec fn after_show(s: HostedViewState) -> HostedViewState {
    let o = after_open(s);
    HostedViewState { visible: o.visible || (s.parent_attached && o.open), ..o }
}

/// The state after `hide_view`.
pub open spec fn after_hide(s: HostedViewState) -> HostedViewState {
    HostedViewState { visible: false, ..s }
}

/// The state after `close`.
pub open spec fn after_close(s: HostedViewState) -> HostedViewState {
    HostedViewState { open: false, visible: false, ..s }
}

/// The state after `request_resize(width, height)`.
pub open spec fn after_request_resize(s: HostedViewState, width: u32, height: u32) -> HostedViewState {
    HostedViewState { size: s.contract.constrained_size((width, height)), ..s }
}

impl RadiantHostedGui {
    #[verifier::type_invariant]
    closed spec fn inv(self) -> bool {
        hosted_view_invariant(self@)
    }

    /// The name of the native window class used for the child view.
    pub fn class_name(&self) -> (name: &'static str)
        ensures
            name@ == self@.class_name,
    {
        self.class_name
    }

    /// Create a host facade with an explicit default logical size.
    pub fn new(class_name: &'static str, width: u32, height: u32) -> (gui: Self)
        ensures
            gui@.class_name == class_name@,
            gui@.contract == EditorSizeContract::new_spec(
                (width, height),
                (1, 1),
                (u32::MAX, u32::MAX),
            ),
            gui@.size == (
                if width > 1 { width } else { 1u32 },
                if height > 1 { height } else { 1u32 },
            ),
            !gui@.parent_attached,
            !gui@.open,
            !gui@.visible,
            !gui@.callback_keyboard_only,
            hosted_view_invariant(gui@),
    {
        let contract = EditorSizeContract::new((width, height), (1, 1), (u32::MAX, u32::MAX));
        RadiantHostedGui {
            class_name,
            contract,
            parent_attached: false,
            open: false,
            visible: false,
            size: contract.default,
            callback_keyboard_only: false,
        }
    }

    /// Declare minimum, default, and maximum logical sizes for the editor.
    ///
    /// A view that is not open adopts the new default size.
    pub fn with_size_contract(
        self,
        minimum: (u32, u32),
        default: (u32, u32),
        maximum: (u32, u32),
    ) -> (gui: Self)
        ensures
            gui@.class_name == self@.class_name,
            gui@.contract == EditorSizeContract::new_spec(default, minimum, maximum),
            gui@.size == (if self@.open {
                gui@.contract.constrained_size(self@.size)
            } else {
                gui@.contract.default
            }),
            gui@.parent_attached == self@.parent_attached,
            gui@.open == self@.open,
            gui@.visible == self@.visible,
            gui@.callback_keyboard_only == self@.callback_keyboard_only,
            hosted_view_invariant(gui@),
    {
        proof {
            use_type_invariant(&self);
        }
        let contract = EditorSizeContract::new(default, minimum, maximum);
        proof {
            lemma_well_formed_editor_contract_is_defined(contract);
            law_editor_contract_within_bounds(contract, self.size);
        }
        let size = if self.open {
            contract.constrain(self.size)
        } else {
            contract.default
        };
        RadiantHostedGui {
            class_name: self.class_name,
            contract,
            parent_attached: self.parent_attached,
            open: self.open,
            visible: self.visible,
            size,
            callback_keyboard_only: self.callback_keyboard_only,
        }
    }

    /// Return the shared logical size contract.
    pub fn size_contract(&self) -> (c: EditorSizeContract)
        ensures
            c == self@.contract,
    {
        self.contract
    }

    /// Record that the host attached a parent window.
    pub fn set_parent(&mut self)
        ensures
            final(self)@ == (HostedViewState { parent_attached: true, ..old(self)@ }),
            hosted_view_invariant(final(self)@),
    {
        proof {
            use_type_invariant(&*self);
        }
        *self = RadiantHostedGui { parent_attached: true, ..*self };
    }

    /// Constrain one host-facing resize request using the shared editor contract.
    pub fn constrain_size(&self, size: (u32, u32)) -> (r: (u32, u32))
        ensures
            r == self@.contract.constrained_size(size),
    {
        proof {
            use_type_invariant(self);
            lemma_well_formed_editor_contract_is_defined(self.contract);
        }
        self.contract.constrain(size)
    }

    /// Negotiate the current size, then create the child view; opening fails
    /// while no parent window is attached.
    pub fn open(&mut self) -> (opened: bool)
        ensures
            opened == old(self)@.parent_attached,
            final(self)@ == after_open(old(self)@),
            hosted_view_invariant(final(self)@),
    {
        proof {
            use_type_invariant(&*self);
            law_editor_contract_within_bounds(self.contract, self.size);
        }
        let size = self.constrain_size(self.size);
        if !self.parent_attached {
            *self = RadiantHostedGui { size, ..*self };
            return false;
        }
        let visible = if self.open {
            self.visible
        } else {
            true
        };
        *self = RadiantHostedGui { size, open: true, visible, ..*self };
        true
    }

    /// Show a child that has already been opened.
    fn show_open(&mut self) -> (shown: bool)
        ensures
            shown == old(self)@.open,
            final(self)@ == (HostedViewState {
                visible: old(self)@.visible || old(self)@.open,
                ..old(self)@
            }),
    {
        proof {
            use_type_invariant(&*self);
        }
        if self.open {
            *self = RadiantHostedGui { visible: true, ..*self };
            true
        } else {
            false
        }
    }

    /// Open the child view if needed, then show it.
    pub fn show(&mut self) -> (shown: bool)
        ensures
            shown == old(self)@.parent_attached,
            final(self)@ == after_show(old(self)@),
            hosted_view_invariant(final(self)@),
    {
        proof {
            use_type_invariant(&*self);
        }
        if !self.open() {
            return false;
        }
        self.show_open()
    }

    /// Hide the child view without destroying its editor state.
    pub fn hide_view(&mut self)
        ensures
            final(self)@ == after_hide(old(self)@),
            hosted_view_invariant(final(self)@),
    {
        proof {
            use_type_invariant(&*self);
        }
        *self = RadiantHostedGui { visible: false, ..*self };
    }

    /// Destroy the child view while retaining the editor for a later open.
    pub fn close(&mut self)
        ensures
            final(self)@ == after_close(old(self)@),
            hosted_view_invariant(final(self)@),
    {
        proof {
            use_type_invariant(&*self);
        }
        *self = RadiantHostedGui { open: false, visible: false, ..*self };
    }

    /// Return the most recent host-facing size.
    pub fn last_size(&self) -> (r: Option<(u32, u32)>)
        ensures
            r == Some(self@.size),
    {
        Some(self.size)
    }

    /// Apply a constrained host resize.
    pub fn request_resize(&mut self, width: u32, height: u32)
        ensures
            final(self)@ == after_request_resize(old(self)@, width, height),
            hosted_view_invariant(final(self)@),
    {
        proof {
            use_type_invariant(&*self);
            law_editor_contract_within_bounds(self.contract, (width, height));
        }
        let size = self.constrain_size((width, height));
        *self = RadiantHostedGui { size, ..*self };
    }

    /// Select callback-only keyboard delivery for VST3 host callbacks.
    pub fn set_callback_keyboard_mode(&mut self, callback_only: bool)
        ensures
            final(self)@ == (HostedViewState {
                callback_keyboard_only: callback_only,
                ..old(self)@
            }),
            hosted_view_invariant(final(self)@),
    {
        proof {
            use_type_invariant(&*self);
        }
        *self = RadiantHostedGui { callback_keyboard_only: callback_only, ..*self };
    }

    /// The character one VST3 key press delivers to the editor: none while
    /// the child view is closed.
    pub fn on_key_down(&self, key: u16, key_code: i16, modifiers: i16) -> (r: Option<char>)
        ensures
            r == (if self@.open {
                vst3_input_char_spec(key, key_code)
            } else {
                None
            }),
    {
        if self.open {
            vst3_key_down_to_input_char(key, key_code)
        } else {
            None
        }
    }

    /// A VST3 key release: Radiant editors take key presses and characters
    /// only, so a release is never consumed.
    pub fn on_key_up(&self, key: u16, key_code: i16, modifiers: i16) -> (consumed: bool)
        ensures
            !consumed,
    {
        false
    }

    /// Whether a host focus change can be applied: only to an open child view.
    pub fn on_focus(&self, focused: bool) -> (r: bool)
        ensures
            r == self@.open,
    {
        self.open
    }
}

/// Every host request keeps the hosted-view invariant.
pub proof fn law_host_requests_preserve_invariant(s: HostedViewState, width: u32, height: u32)
    requires
        hosted_view_invariant(s),
    ensures
        hosted_view_invariant(after_open(s)),
        hosted_view_invariant(after_show(s)),
        hosted_view_invariant(after_hide(s)),
        hosted_view_invariant(after_close(s)),
        hosted_view_invariant(after_request_resize(s, width, height)),
{
    law_editor_contract_within_bounds(s.contract, s.size);
    law_editor_contract_within_bounds(s.contract, (width, height));
}

/// After a resize request the negotiated size reads back as the contract's
/// answer to that request, whatever else the view was doing.
pub proof fn law_resize_reads_back_constrained(s: HostedViewState, width: u32, height: u32)
    ensures
        after_request_resize(s, width, height).size == s.contract.constrained_size((width, height)),
        after_hide(after_request_resize(s, width, height)).size == s.contract.constrained_size(
            (width, height),
        ),
{
}

/// Without a parent window, hiding and then trying to show a view whose
/// negotiated size is already settled changes nothing beyond hiding it.
pub proof fn law_show_without_parent_keeps_settled_size(s: HostedViewState)
    requires
        hosted_view_invariant(s),
        !s.parent_attached,
        s.contract.constrained_size(s.size) == s.size,
    ensures
        after_show(after_hide(s)) == after_hide(s),
{
}

/// With a parent attached, hiding and showing an open view shows it again
/// with its settled size unchanged.
pub proof fn law_hide_show_roundtrip(s: HostedViewState)
    requires
        hosted_view_invariant(s),
        s.parent_attached,
        s.open,
        s.contract.constrained_size(s.size) == s.size,
    ensures
        after_show(after_hide(s)) == (HostedViewState { visible: true, ..s }),
{
}

} // verus!
