//! Verified host-integration, text-entry and drawing-geometry logic for
//! embedded audio-plugin editors.

pub mod arith;
pub mod size_contract;
pub mod chars;
pub mod radiant_host;
pub mod gpui_host;
pub mod strings;
pub mod vst3_keys;
pub mod mac_keys;
pub mod events;
pub mod windows_keys;
pub mod text;
pub mod numeric_input;
pub mod key_routing;
pub mod waveform;
pub mod waveform_glow;
pub mod waveform_contour;
pub mod waveform_columns;
pub mod piano;
pub mod screenshot;
pub mod state;
