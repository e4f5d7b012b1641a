//! Codec for "hat pack" assets: directories of PNG images whose right-hand
//! columns carry a stream of "metapixels" — RGB pixels read as typed records
//! that describe animation timing, offsets and behaviour flags.
//!
//! The crate models the images and the wire format with plain values and
//! proves the encoder, the decoder and the bundle operations against
//! mathematical specifications of the format.

pub mod animations;
pub mod config;
pub mod event_bus;
pub mod file_utils;
pub mod frames_from_range;
pub mod hat_utils;
pub mod hats;
pub mod ids;
pub mod image;
pub mod is_range;
pub mod ivec2;
pub mod metapixels;
pub mod strings;
pub mod texture_reloader;
pub mod ui_events;
pub mod ui_text;
