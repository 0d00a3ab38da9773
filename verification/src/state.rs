//! Limits shared by plugin state serialization.

use vstd::prelude::*;

verus! {

/// Maximum accepted versioned state payload size in bytes, shared by the
/// CLAP and VST3 state helpers.
pub const MAX_STATE_PAYLOAD_BYTES: usize = 16 * 1024 * 1024;

} // verus!
