//! Decoder and tick-driven playback engine for ProTracker music modules.

pub mod format;
pub mod player;
