//! Lifecycle and size negotiation of a GPUI view hosted in a plugin host's
//! native parent window.
//!
//! Launching the GPUI application and its window is the embedding
//! application's work; this module decides when a launch is attempted, at
//! which logical size, and what state a successful or failed launch leaves.

use vstd::prelude::*;

use crate::size_contract::{
    law_fixed_aspect_idempotent, law_fixed_aspect_within_bounds_and_ratio,
    law_free_aspect_within_bounds_and_idempotent, lemma_well_formed_is_fixed_aspect_feasible,
    max_int, min_int, GpuiSizeContract,
};

verus! {

/// The state of a hosted GPUI view, as the host sees it.
pub struct GpuiHostState {
    /// Logical size contract applied to resize requests.
    pub contract: GpuiSizeContract,
    /// Whether resizing keeps the preferred width-to-height ratio.
    pub fixed_aspect_ratio: bool,
    /// Whether the host has attached a parent window.
    pub parent_attached: bool,
    /// Latest logical size, if any.
    pub size: Option<(u32, u32)>,
    /// Whether the GPUI application and its window are running.
    pub open: bool,
    /// Whether keyboard input arrives only through host callbacks.
    pub callback_keyboard_only: bool,
}

/// The logical size a request is negotiated to: by the preferred ratio
/// when the aspect ratio is fixed, else each axis on its own.
pub open spec fn negotiated_size(s: GpuiHostState, requested: (u32, u32)) -> (u32, u32) {
    if s.fixed_aspect_ratio {
        s.contract.fixed_aspect_size(requested)
    } else {
        s.contract.free_size(requested)
    }
}

/// What opening the view does next.
#[derive(Clone, Copy, Debug, PartialEq, Eq)]
pub enum OpenStep {
    /// Nothing to launch: report this result to the host.
    Done(bool),
    /// Launch the GPUI window at this logical size, then call `finish_open`.
    Launch((u32, u32)),
}

/// A hosted GPUI view's host-facing state.
pub struct GpuiHostedView {
    contract: GpuiSizeContract,
    fixed_aspect_ratio: bool,
    parent_attached: bool,
    size: Option<(u32, u32)>,
    open: bool,
    callback_keyboard_only: bool,
}

impl View for GpuiHostedView {
    type V = GpuiHostState;

    closed spec fn view(&self) -> GpuiHostState {
        GpuiHostState {
            contract: self.contract,
            fixed_aspect_ratio: self.fixed_aspect_ratio,
            parent_attached: self.parent_attached,
            size: self.size,
            open: self.open,
            callback_keyboard_only: self.callback_keyboard_only,
        }
    }
}

impl GpuiHostedView {
    #[verifier::type_invariant]
    closed spec fn inv(self) -> bool {
        self.contract.well_formed()
    }

    /// A view with a preferred logical size (at least one point each way)
    /// that any size can be negotiated around; not parented, not open.
    pub fn new(width: u32, height: u32) -> (v: Self)
        ensures
            v@.contract.preferred == (max_int(width as int, 1) as u32, max_int(height as int, 1) as u32),
            v@.contract.minimum == (1u32, 1u32),
            v@.contract.maximum == (u32::MAX, u32::MAX),
            v@.size == Some(v@.contract.preferred),
            !v@.fixed_aspect_ratio,
            !v@.parent_attached,
            !v@.open,
            !v@.callback_keyboard_only,
    {
        let preferred = (
            if width > 1 {
                width
            } else {
                1
            },
            if height > 1 {
                height
            } else {
                1
            },
        );
        let contract = GpuiSizeContract::new(preferred, (1, 1), (u32::MAX, u32::MAX));
        GpuiHostedView {
            contract,
            fixed_aspect_ratio: false,
            parent_attached: false,
            size: Some(preferred),
            open: false,
            callback_keyboard_only: false,
        }
    }

    /// Apply an inclusive logical minimum, preferred and maximum size; the
    /// size becomes the contract's preferred size.
    pub fn with_size_contract(
        self,
        minimum: (u32, u32),
        preferred: (u32, u32),
        maximum: (u32, u32),
    ) -> (v: Self)
        ensures
            v@.contract.preferred == (
                max_int(preferred.0 as int, 1) as u32,
                max_int(preferred.1 as int, 1) as u32,
            ),
            v@.contract.minimum == (
                min_int(max_int(minimum.0 as int, 1), v@.contract.preferred.0 as int) as u32,
                min_int(max_int(minimum.1 as int, 1), v@.contract.preferred.1 as int) as u32,
            ),
            v@.contract.maximum == (
                max_int(maximum.0 as int, v@.contract.preferred.0 as int) as u32,
                max_int(maximum.1 as int, v@.contract.preferred.1 as int) as u32,
            ),
            v@ == (GpuiHostState {
                contract: v@.contract,
                size: Some(v@.contract.preferred),
                ..self@
            }),
    {
        let contract = GpuiSizeContract::new(preferred, minimum, maximum);
        GpuiHostedView {
            contract,
            fixed_aspect_ratio: self.fixed_aspect_ratio,
            parent_attached: self.parent_attached,
            size: Some(contract.preferred),
            open: self.open,
            callback_keyboard_only: self.callback_keyboard_only,
        }
    }

    /// Preserve the preferred width-to-height ratio during resizing.
    pub fn with_fixed_aspect_ratio(self) -> (v: Self)
        ensures
            v@ == (GpuiHostState { fixed_aspect_ratio: true, ..self@ }),
    {
        proof {
            use_type_invariant(&self);
        }
        GpuiHostedView {
            contract: self.contract,
            fixed_aspect_ratio: true,
            parent_attached: self.parent_attached,
            size: self.size,
            open: self.open,
            callback_keyboard_only: self.callback_keyboard_only,
        }
    }

    /// Record that the host attached a parent window.
    pub fn set_parent(&mut self)
        ensures
            final(self)@ == (GpuiHostState { parent_attached: true, ..old(self)@ }),
    {
        proof {
            use_type_invariant(&*self);
        }
        self.parent_attached = true;
    }

    /// Select callback-only VST3 keyboard delivery.
    pub fn set_callback_keyboard_mode(&mut self, callback_only: bool)
        ensures
            final(self)@ == (GpuiHostState { callback_keyboard_only: callback_only, ..old(self)@ }),
    {
        proof {
            use_type_invariant(&*self);
        }
        self.callback_keyboard_only = callback_only;
    }

    /// Negotiate a logical size under the view's contract and aspect policy.
    pub fn constrain_logical_size(&self, size: (u32, u32)) -> (r: (u32, u32))
        ensures
            r == negotiated_size(self@, size),
    {
        proof {
            use_type_invariant(self);
            lemma_well_formed_is_fixed_aspect_feasible(self.contract);
        }
        if self.fixed_aspect_ratio {
            self.contract.constrain_fixed_aspect(size)
        } else {
            self.contract.constrain(size)
        }
    }

    /// The ratio hosts are asked to keep while resizing, if any.
    pub fn aspect_ratio_hint(&self) -> (r: Option<(u32, u32)>)
        ensures
            r == (if self@.fixed_aspect_ratio {
                Some(self@.contract.preferred)
            } else {
                None
            }),
    {
        if self.fixed_aspect_ratio {
            Some(self.contract.preferred)
        } else {
            None
        }
    }

    /// What opening the view does: an open view reports success, a view
    /// without a parent reports failure, and otherwise the window is
    /// launched at the stored size negotiated under the contract (the
    /// preferred size when none is stored).
    pub fn open_step(&self) -> (d: OpenStep)
        ensures
            self@.open ==> d == OpenStep::Done(true),
            !self@.open && !self@.parent_attached ==> d == OpenStep::Done(false),
            !self@.open && self@.parent_attached ==> d == OpenStep::Launch(
                match self@.size {
                    Some(size) => negotiated_size(self@, size),
                    None => self@.contract.preferred,
                },
            ),
    {
        if self.open {
            return OpenStep::Done(true);
        }
        if !self.parent_attached {
            return OpenStep::Done(false);
        }
        match self.size {
            Some(size) => OpenStep::Launch(self.constrain_logical_size(size)),
            None => OpenStep::Launch(self.contract.preferred),
        }
    }

    /// Record the outcome of a launch at `size`: on success the view is open
    /// at that size; a failed launch is rolled back and changes nothing.
    pub fn finish_open(&mut self, size: (u32, u32), window_opened: bool) -> (ok: bool)
        ensures
            ok == window_opened,
            window_opened ==> final(self)@ == (GpuiHostState {
                open: true,
                size: Some(size),
                ..old(self)@
            }),
            !window_opened ==> final(self)@ == old(self)@,
    {
        proof {
            use_type_invariant(&*self);
        }
        if window_opened {
            self.open = true;
            self.size = Some(size);
        }
        window_opened
    }

    /// Stop the GPUI application, keeping the negotiated size.
    pub fn close(&mut self)
        ensures
            final(self)@ == (GpuiHostState { open: false, ..old(self)@ }),
    {
        proof {
            use_type_invariant(&*self);
        }
        self.open = false;
    }

    /// Show an open view; an unopened view cannot be shown.
    pub fn show(&self) -> (shown: bool)
        ensures
            shown == self@.open,
    {
        self.open
    }

    /// The latest logical size.
    pub fn last_logical_size(&self) -> (r: Option<(u32, u32)>)
        ensures
            r == self@.size,
    {
        self.size
    }

    /// Apply a resize request given in logical points: the negotiated size
    /// becomes the latest size.
    pub fn request_resize(&mut self, width: u32, height: u32)
        ensures
            final(self)@ == (GpuiHostState {
                size: Some(negotiated_size(old(self)@, (width, height))),
                ..old(self)@
            }),
    {
        let size = self.constrain_logical_size((width, height));
        proof {
            use_type_invariant(&*self);
        }
        self.size = Some(size);
    }
}

/// A launch is always attempted at a size inside the contract's bounds
/// that the contract leaves unchanged, and a successful launch leaves a view
/// that reports itself open without launching again.
pub proof fn law_launch_size_is_settled(s: GpuiHostState, size: (u32, u32))
    requires
        s.contract.well_formed(),
    ensures
        s.contract.minimum.0 <= negotiated_size(s, size).0 <= s.contract.maximum.0,
        s.contract.minimum.1 <= negotiated_size(s, size).1 <= s.contract.maximum.1,
        negotiated_size(s, negotiated_size(s, size)) == negotiated_size(s, size),
        s.contract.minimum.0 <= s.contract.preferred.0 <= s.contract.maximum.0,
        s.contract.minimum.1 <= s.contract.preferred.1 <= s.contract.maximum.1,
{
    law_fixed_aspect_within_bounds_and_ratio(s.contract, size);
    law_fixed_aspect_idempotent(s.contract, size);
    law_free_aspect_within_bounds_and_idempotent(s.contract, size);
}

} // verus!
