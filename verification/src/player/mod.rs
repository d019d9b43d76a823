//! Playback of modules: what is common to all players.

pub mod protracker;

use vstd::prelude::*;

verus! {

/// What is added to a sample of the mix to make it an unsigned 16-bit
/// sample.
pub const UNSIGNED_BIAS: u16 = 16384;

/// The value of the mix that becomes 1.0 as a floating-point sample.
pub const FLOAT_SCALE: u16 = 16384;

/// The format in which a player's audio is asked for.
#[derive(Clone, Copy, Debug, PartialEq, Eq)]
pub struct OutputFormat {
    /// Frames per second.
    pub sample_rate: u32,
    pub sample_format: SampleFormat,
    /// 1 for mono, 2 for stereo.
    pub channel_count: u16,
}

/// The number format of one output sample.
#[derive(Clone, Copy, Debug, PartialEq, Eq, Structural)]
pub enum SampleFormat {
    I16,
    U16,
    F32,
}

/// Why no player could be made.
#[derive(Clone, Copy, Debug, PartialEq, Eq, Structural)]
pub enum InitError {
    /// The output has neither one channel nor two.
    ChannelCountError,
}

/// Why no audio could be produced.
#[derive(Clone, Copy, Debug, PartialEq, Eq, Structural)]
pub enum PlayError {
    Other,
}

} // verus!
