//! The ProTracker module format: the data model of a song and the decoder
//! that builds it from the bytes of a module file.

pub mod info;
pub mod layout;
pub mod note;
pub mod reader;

use layout::{
    cell_at, decode, effect_of, header_at, headers_of, high_nibble, highest, is_common_tag,
    is_large_tag, lengths_before, loaded, low_nibble, module_of, padded_text, pattern_at,
    pattern_count, patterns_offset, row_at, sample_count, samples_offset, sequence_of, signed_at,
    tag_of, text_end, with_data,
};
use reader::{decode_text, to_signed, ByteReader};
use vstd::prelude::*;
use vstd::slice::{slice_subrange, slice_to_vec};

verus! {

/// A complete song: title, instruments, play order and patterns.
#[derive(Clone, Debug, PartialEq, Eq)]
pub struct ProtrackerMod {
    pub title: String,
    /// The instruments. A cell refers to them counting from 1.
    pub samples: Vec<Sample>,
    /// The play order: indices into `patterns`.
    pub sequence: Vec<u8>,
    pub patterns: Vec<Pattern>,
}

/// One instrument: its parameters and its signed 8-bit waveform.
#[derive(Clone, Debug, PartialEq, Eq)]
pub struct Sample {
    pub name: String,
    /// Selects the period table, -8 to 7.
    pub finetune: i8,
    /// Length of the waveform in bytes.
    pub length: u32,
    pub volume: u8,
    /// Start of the loop region, in bytes.
    pub repeat_offset: u32,
    /// Length of the loop region in bytes; 2 or less means no loop.
    pub repeat_length: u32,
    pub data: Vec<i8>,
}

/// A block of 64 rows.
#[derive(Clone, Debug, PartialEq, Eq)]
pub struct Pattern {
    pub divisions: Vec<Division>,
}

/// One row: a cell for every channel.
#[derive(Clone, Debug, PartialEq, Eq)]
pub struct Division {
    pub channel_data: Vec<ChannelData>,
}

/// One cell of a pattern.
#[derive(Clone, Copy, Debug, PartialEq, Eq, Structural)]
pub struct ChannelData {
    /// The instrument, counted from 1; 0 keeps the current one.
    pub sample: u8,
    /// The pitch period; 0 keeps the current pitch.
    pub period: u16,
    pub effect: Effect,
}

/// The effect of a cell.
#[derive(Clone, Copy, Debug, PartialEq, Eq, Structural)]
pub enum Effect {
    Normal { effect_type: EffectType, param1: u8, param2: u8 },
    Extended { effect_type: EffectTypeExtended, param: u8 },
}

/// The sixteen effect kinds, in the order of their codes 0 to 15.
#[derive(Clone, Copy, Debug, PartialEq, Eq, Structural)]
pub enum EffectType {
    Arpeggio,
    SlideUp,
    SlideDown,
    SlideToNote,
    Vibrato,
    SlideToNoteVolumeSlide,
    VibratoVolumeSlide,
    Tremolo,
    SetPanningPosition,
    SetSampleOffset,
    VolumeSlide,
    PositionJump,
    SetVolume,
    PatternBreak,
    Extended,
    SetSpeed,
}

/// The sixteen extended effect kinds, in the order of their codes 0 to 15.
#[derive(Clone, Copy, Debug, PartialEq, Eq, Structural)]
pub enum EffectTypeExtended {
    SetFilterOnOff,
    FineslideUp,
    FineslideDown,
    Glissando,
    SetVibratoWaveform,
    SetFinetuneValue,
    LoopPattern,
    SetTremoloWaveform,
    Unused,
    RetriggerSample,
    FineVolumeSlideUp,
    FineVolumeSlideDown,
    CutSample,
    DelaySample,
    DelayPattern,
    InvertLoop,
}

/// Why a module could not be decoded.
#[derive(Clone, Copy, Debug, PartialEq, Eq, Structural)]
pub enum ParseError {
    /// The input ends before the data that its header announces.
    Truncated,
    /// A value that names no effect.
    InvalidEffect(u8),
    /// The play order holds no entry, so no pattern count follows from it.
    EmptySequence,
}

impl EffectType {
    /// The code of the effect kind, 0 to 15.
    pub open spec fn spec_code(self) -> u8 {
        match self {
            EffectType::Arpeggio => 0x0,
            EffectType::SlideUp => 0x1,
            EffectType::SlideDown => 0x2,
            EffectType::SlideToNote => 0x3,
            EffectType::Vibrato => 0x4,
            EffectType::SlideToNoteVolumeSlide => 0x5,
            EffectType::VibratoVolumeSlide => 0x6,
            EffectType::Tremolo => 0x7,
            EffectType::SetPanningPosition => 0x8,
            EffectType::SetSampleOffset => 0x9,
            EffectType::VolumeSlide => 0xa,
            EffectType::PositionJump => 0xb,
            EffectType::SetVolume => 0xc,
            EffectType::PatternBreak => 0xd,
            EffectType::Extended => 0xe,
            EffectType::SetSpeed => 0xf,
        }
    }

    /// The effect kind with the given code, if there is one.
    pub open spec fn spec_from_code(code: u8) -> Option<EffectType> {
        if code == 0x0 {
            Some(EffectType::Arpeggio)
        } else if code == 0x1 {
            Some(EffectType::SlideUp)
        } else if code == 0x2 {
            Some(EffectType::SlideDown)
        } else if code == 0x3 {
            Some(EffectType::SlideToNote)
        } else if code == 0x4 {
            Some(EffectType::Vibrato)
        } else if code == 0x5 {
            Some(EffectType::SlideToNoteVolumeSlide)
        } else if code == 0x6 {
            Some(EffectType::VibratoVolumeSlide)
        } else if code == 0x7 {
            Some(EffectType::Tremolo)
        } else if code == 0x8 {
            Some(EffectType::SetPanningPosition)
        } else if code == 0x9 {
            Some(EffectType::SetSampleOffset)
        } else if code == 0xa {
            Some(EffectType::VolumeSlide)
        } else if code == 0xb {
            Some(EffectType::PositionJump)
        } else if code == 0xc {
            Some(EffectType::SetVolume)
        } else if code == 0xd {
            Some(EffectType::PatternBreak)
        } else if code == 0xe {
            Some(EffectType::Extended)
        } else if code == 0xf {
            Some(EffectType::SetSpeed)
        } else {
            None
        }
    }

    /// The code of the effect kind.
    pub fn code(self) -> (r: u8)
        ensures
            r == self.spec_code(),
            r < 16,
    {
        match self {
            EffectType::Arpeggio => 0x0,
            EffectType::SlideUp => 0x1,
            EffectType::SlideDown => 0x2,
            EffectType::SlideToNote => 0x3,
            EffectType::Vibrato => 0x4,
            EffectType::SlideToNoteVolumeSlide => 0x5,
            EffectType::VibratoVolumeSlide => 0x6,
            EffectType::Tremolo => 0x7,
            EffectType::SetPanningPosition => 0x8,
            EffectType::SetSampleOffset => 0x9,
            EffectType::VolumeSlide => 0xa,
            EffectType::PositionJump => 0xb,
            EffectType::SetVolume => 0xc,
            EffectType::PatternBreak => 0xd,
            EffectType::Extended => 0xe,
            EffectType::SetSpeed => 0xf,
        }
    }

    /// The effect kind with the given code. Every code from 0 to 15 has one,
    /// and no other code has.
    pub fn from_code(code: u8) -> (r: Option<EffectType>)
        ensures
            r == Self::spec_from_code(code),
            r is Some <==> code < 16,
            r matches Some(e) ==> e.spec_code() == code,
    {
        match code {
            0x0 => Some(EffectType::Arpeggio),
            0x1 => Some(EffectType::SlideUp),
            0x2 => Some(EffectType::SlideDown),
            0x3 => Some(EffectType::SlideToNote),
            0x4 => Some(EffectType::Vibrato),
            0x5 => Some(EffectType::SlideToNoteVolumeSlide),
            0x6 => Some(EffectType::VibratoVolumeSlide),
            0x7 => Some(EffectType::Tremolo),
            0x8 => Some(EffectType::SetPanningPosition),
            0x9 => Some(EffectType::SetSampleOffset),
            0xa => Some(EffectType::VolumeSlide),
            0xb => Some(EffectType::PositionJump),
            0xc => Some(EffectType::SetVolume),
            0xd => Some(EffectType::PatternBreak),
            0xe => Some(EffectType::Extended),
            0xf => Some(EffectType::SetSpeed),
            _ => None,
        }
    }
}

impl EffectTypeExtended {
    /// The code of the extended effect kind, 0 to 15.
    pub open spec fn spec_code(self) -> u8 {
        match self {
            EffectTypeExtended::SetFilterOnOff => 0x0,
            EffectTypeExtended::FineslideUp => 0x1,
            EffectTypeExtended::FineslideDown => 0x2,
            EffectTypeExtended::Glissando => 0x3,
            EffectTypeExtended::SetVibratoWaveform => 0x4,
            EffectTypeExtended::SetFinetuneValue => 0x5,
            EffectTypeExtended::LoopPattern => 0x6,
            EffectTypeExtended::SetTremoloWaveform => 0x7,
            EffectTypeExtended::Unused => 0x8,
            EffectTypeExtended::RetriggerSample => 0x9,
            EffectTypeExtended::FineVolumeSlideUp => 0xa,
            EffectTypeExtended::FineVolumeSlideDown => 0xb,
            EffectTypeExtended::CutSample => 0xc,
            EffectTypeExtended::DelaySample => 0xd,
            EffectTypeExtended::DelayPattern => 0xe,
            EffectTypeExtended::InvertLoop => 0xf,
        }
    }

    /// The extended effect kind with the given code, if there is one.
    pub open spec fn spec_from_code(code: u8) -> Option<EffectTypeExtended> {
        if code == 0x0 {
            Some(EffectTypeExtended::SetFilterOnOff)
        } else if code == 0x1 {
            Some(EffectTypeExtended::FineslideUp)
        } else if code == 0x2 {
            Some(EffectTypeExtended::FineslideDown)
        } else if code == 0x3 {
            Some(EffectTypeExtended::Glissando)
        } else if code == 0x4 {
            Some(EffectTypeExtended::SetVibratoWaveform)
        } else if code == 0x5 {
            Some(EffectTypeExtended::SetFinetuneValue)
        } else if code == 0x6 {
            Some(EffectTypeExtended::LoopPattern)
        } else if code == 0x7 {
            Some(EffectTypeExtended::SetTremoloWaveform)
        } else if code == 0x8 {
            Some(EffectTypeExtended::Unused)
        } else if code == 0x9 {
            Some(EffectTypeExtended::RetriggerSample)
        } else if code == 0xa {
            Some(EffectTypeExtended::FineVolumeSlideUp)
        } else if code == 0xb {
            Some(EffectTypeExtended::FineVolumeSlideDown)
        } else if code == 0xc {
            Some(EffectTypeExtended::CutSample)
        } else if code == 0xd {
            Some(EffectTypeExtended::DelaySample)
        } else if code == 0xe {
            Some(EffectTypeExtended::DelayPattern)
        } else if code == 0xf {
            Some(EffectTypeExtended::InvertLoop)
        } else {
            None
        }
    }

    /// The code of the extended effect kind.
    pub fn code(self) -> (r: u8)
        ensures
            r == self.spec_code(),
            r < 16,
    {
        match self {
            EffectTypeExtended::SetFilterOnOff => 0x0,
            EffectTypeExtended::FineslideUp => 0x1,
            EffectTypeExtended::FineslideDown => 0x2,
            EffectTypeExtended::Glissando => 0x3,
            EffectTypeExtended::SetVibratoWaveform => 0x4,
            EffectTypeExtended::SetFinetuneValue => 0x5,
            EffectTypeExtended::LoopPattern => 0x6,
            EffectTypeExtended::SetTremoloWaveform => 0x7,
            EffectTypeExtended::Unused => 0x8,
            EffectTypeExtended::RetriggerSample => 0x9,
            EffectTypeExtended::FineVolumeSlideUp => 0xa,
            EffectTypeExtended::FineVolumeSlideDown => 0xb,
            EffectTypeExtended::CutSample => 0xc,
            EffectTypeExtended::DelaySample => 0xd,
            EffectTypeExtended::DelayPattern => 0xe,
            EffectTypeExtended::InvertLoop => 0xf,
        }
    }

    /// The extended effect kind with the given code. Every code from 0 to 15
    /// has one, and no other code has.
    pub fn from_code(code: u8) -> (r: Option<EffectTypeExtended>)
        ensures
            r == Self::spec_from_code(code),
            r is Some <==> code < 16,
            r matches Some(e) ==> e.spec_code() == code,
    {
        match code {
            0x0 => Some(EffectTypeExtended::SetFilterOnOff),
            0x1 => Some(EffectTypeExtended::FineslideUp),
            0x2 => Some(EffectTypeExtended::FineslideDown),
            0x3 => Some(EffectTypeExtended::Glissando),
            0x4 => Some(EffectTypeExtended::SetVibratoWaveform),
            0x5 => Some(EffectTypeExtended::SetFinetuneValue),
            0x6 => Some(EffectTypeExtended::LoopPattern),
            0x7 => Some(EffectTypeExtended::SetTremoloWaveform),
            0x8 => Some(EffectTypeExtended::Unused),
            0x9 => Some(EffectTypeExtended::RetriggerSample),
            0xa => Some(EffectTypeExtended::FineVolumeSlideUp),
            0xb => Some(EffectTypeExtended::FineVolumeSlideDown),
            0xc => Some(EffectTypeExtended::CutSample),
            0xd => Some(EffectTypeExtended::DelaySample),
            0xe => Some(EffectTypeExtended::DelayPattern),
            0xf => Some(EffectTypeExtended::InvertLoop),
            _ => None,
        }
    }
}

/// What a sample is, as mathematical values.
pub struct SampleView {
    pub name: Seq<char>,
    pub finetune: i8,
    pub length: u32,
    pub volume: u8,
    pub repeat_offset: u32,
    pub repeat_length: u32,
    pub data: Seq<i8>,
}

/// What a module is, as mathematical values: a pattern is a sequence of
/// rows, and a row a sequence of cells.
pub struct ModuleView {
    pub title: Seq<char>,
    pub samples: Seq<SampleView>,
    pub sequence: Seq<u8>,
    pub patterns: Seq<Seq<Seq<ChannelData>>>,
}

impl View for Sample {
    type V = SampleView;

    open spec fn view(&self) -> SampleView {
        SampleView {
            name: self.name@,
            finetune: self.finetune,
            length: self.length,
            volume: self.volume,
            repeat_offset: self.repeat_offset,
            repeat_length: self.repeat_length,
            data: self.data@,
        }
    }
}

/// The loop of a sample: where it starts and where it ends, in bytes from
/// the start of the waveform. A sample whose loop has a length of 2 or less
/// does not loop.
pub open spec fn loop_region(sample: SampleView) -> Option<(int, int)> {
    if sample.repeat_length > 2 {
        Some((sample.repeat_offset as int, sample.repeat_offset + sample.repeat_length))
    } else {
        None
    }
}

impl Sample {
    /// The loop of the sample, if it has one: its first place, and the place
    /// behind its last.
    pub fn loop_region(&self) -> (r: Option<(u32, u64)>)
        ensures
            r is Some <==> self.repeat_length > 2,
            r matches Some(region) ==> loop_region(self@) == Some((region.0 as int, region.1 as int)),
            r is None ==> loop_region(self@) is None,
    {
        if self.repeat_length > 2 {
            Some((self.repeat_offset, self.repeat_offset as u64 + self.repeat_length as u64))
        } else {
            None
        }
    }
}

impl View for Division {
    type V = Seq<ChannelData>;

    open spec fn view(&self) -> Seq<ChannelData> {
        self.channel_data@
    }
}

impl View for Pattern {
    type V = Seq<Seq<ChannelData>>;

    open spec fn view(&self) -> Seq<Seq<ChannelData>> {
        Seq::new(self.divisions@.len(), |i: int| self.divisions@[i]@)
    }
}

impl ProtrackerMod {
    /// Every pattern has 64 rows, and every row `channels` cells.
    pub open spec fn has_rows_of(&self, channels: int) -> bool {
        forall|p: int, d: int|
            0 <= p < self.patterns@.len() ==> (#[trigger] self.patterns@[p]).divisions@.len() == 64
                && (0 <= d < 64 ==> (#[trigger] self.patterns@[p].divisions@[d]).channel_data@.len()
                == channels)
    }
}

/// The samples of a list, as mathematical values.
pub open spec fn sample_views(samples: Seq<Sample>) -> Seq<SampleView> {
    Seq::new(samples.len(), |i: int| samples[i]@)
}

impl View for ProtrackerMod {
    type V = ModuleView;

    open spec fn view(&self) -> ModuleView {
        ModuleView {
            title: self.title@,
            samples: sample_views(self.samples@),
            sequence: self.sequence@,
            patterns: Seq::new(self.patterns@.len(), |i: int| self.patterns@[i]@),
        }
    }
}

/// Splits every byte into its high and its low nibble.
pub fn split_nibbles(v: &[u8]) -> (r: Vec<(u8, u8)>)
    ensures
        r@.len() == v@.len(),
        forall|i: int|
            0 <= i < v@.len() ==> r@[i] == (high_nibble(v@[i]), low_nibble(v@[i])),
{
    let mut out: Vec<(u8, u8)> = Vec::new();
    let mut i: usize = 0;
    while i < v.len()
        invariant
            i <= v@.len(),
            out@.len() == i,
            forall|k: int| 0 <= k < i ==> out@[k] == (high_nibble(v@[k]), low_nibble(v@[k])),
        decreases v@.len() - i,
    {
        let x: u8 = v[i];
        assert((x & 0xf0) >> 4 == x / 16) by (bit_vector);
        assert(x & 0x0f == x % 16) by (bit_vector);
        out.push(((x & 0xf0) >> 4, x & 0x0f));
        i = i + 1;
    }
    out
}

/// Decodes an effect from its kind code `t` and its two parameters.
///
/// Every code from 0 to 15 names an effect kind, so only a larger value is
/// refused. Under the code of the extended effects the extended kind is
/// decoded from `t` as well, and the two parameters become one: `x * 16 + y`
/// for two nibbles, and the low byte of that number for larger parameters.
pub fn parse_effect(t: u8, x: u8, y: u8) -> (r: Result<Effect, ParseError>)
    ensures
        r == effect_of(t, x, y),
        r is Ok <==> t < 16,
        t == 0xe && x < 16 && y < 16 ==> r == Ok::<Effect, ParseError>(
            Effect::Extended {
                effect_type: EffectTypeExtended::DelayPattern,
                param: (x * 16 + y) as u8,
            },
        ),
{
    let effect_type = match EffectType::from_code(t) {
        Some(effect_type) => effect_type,
        None => {
            return Err(ParseError::InvalidEffect(t));
        },
    };
    if effect_type == EffectType::Extended {
        let effect_type_extended = match EffectTypeExtended::from_code(t) {
            Some(effect_type_extended) => effect_type_extended,
            None => {
                return Err(ParseError::InvalidEffect(t));
            },
        };
        let param: u8 = ((x as u16 * 16 + y as u16) % 256) as u8;
        Ok(Effect::Extended { effect_type: effect_type_extended, param })
    } else {
        Ok(Effect::Normal { effect_type, param1: x, param2: y })
    }
}

/// Reads the four bytes of a cell and decodes them.
pub fn parse_channel_data(r: &mut ByteReader) -> (res: Result<ChannelData, ParseError>)
    ensures
        final(r).bytes() == old(r).bytes(),
        old(r).remaining() >= 4 ==> res == Ok::<ChannelData, ParseError>(
            cell_at(old(r).bytes(), old(r).position()),
        ) && final(r).position() == old(r).position() + 4,
        old(r).remaining() < 4 ==> res == Err::<ChannelData, ParseError>(ParseError::Truncated)
            && final(r).position() == old(r).position(),
{
    let buf = match r.read_exact(4) {
        Ok(buf) => buf,
        Err(e) => {
            return Err(e);
        },
    };
    let nibbles = split_nibbles(buf);
    let n0: (u8, u8) = nibbles[0];
    let n1: (u8, u8) = nibbles[1];
    let n2: (u8, u8) = nibbles[2];
    let n3: (u8, u8) = nibbles[3];
    let (hi0, lo0): (u8, u8) = (n0.0, n0.1);
    let (hi1, lo1): (u8, u8) = (n1.0, n1.1);
    let lo2: u8 = n2.1;
    assert((hi0 << 4) | lo2 == hi0 * 16 + lo2) by (bit_vector)
        requires
            hi0 < 16,
            lo2 < 16,
    ;
    let sample: u8 = (hi0 << 4) | lo2;
    let (p0, p1, p2): (u16, u16, u16) = (lo0 as u16, hi1 as u16, lo1 as u16);
    assert((p0 << 8) | (p1 << 4) | p2 == p0 * 256 + p1 * 16 + p2) by (bit_vector)
        requires
            p0 < 16,
            p1 < 16,
            p2 < 16,
    ;
    let period: u16 = (p0 << 8) | (p1 << 4) | p2;
    let effect = match parse_effect(n2.0, n3.0, n3.1) {
        Ok(effect) => effect,
        Err(e) => {
            return Err(e);
        },
    };
    Ok(ChannelData { sample, period, effect })
}

/// Reads one row of `num_channels` cells.
fn parse_division(r: &mut ByteReader, num_channels: u8) -> (res: Result<Division, ParseError>)
    ensures
        final(r).bytes() == old(r).bytes(),
        old(r).remaining() >= 4 * num_channels ==> res is Ok && res->Ok_0@ == row_at(
            old(r).bytes(),
            old(r).position(),
            num_channels as int,
        ) && final(r).position() == old(r).position() + 4 * num_channels,
        old(r).remaining() < 4 * num_channels ==> res is Err && res->Err_0
            == ParseError::Truncated,
{
    let ghost bytes = r.bytes();
    let ghost start = r.position();
    let mut channel_data: Vec<ChannelData> = Vec::new();
    let mut c: u8 = 0;
    while c < num_channels
        invariant
            c <= num_channels,
            bytes == old(r).bytes(),
            start == old(r).position(),
            r.bytes() == bytes,
            r.position() == start + 4 * c,
            c > 0 ==> start + 4 * c <= bytes.len(),
            channel_data@.len() == c,
            forall|k: int| 0 <= k < c ==> channel_data@[k] == cell_at(bytes, start + 4 * k),
        decreases num_channels - c,
    {
        let cell = match parse_channel_data(r) {
            Ok(cell) => cell,
            Err(e) => {
                return Err(e);
            },
        };
        channel_data.push(cell);
        c = c + 1;
    }
    let division = Division { channel_data };
    Ok(division)
}

/// Reads one pattern: 64 rows of `num_channels` cells each.
pub fn parse_pattern(r: &mut ByteReader, num_channels: u8) -> (res: Result<Pattern, ParseError>)
    ensures
        final(r).bytes() == old(r).bytes(),
        old(r).remaining() >= 256 * num_channels ==> res is Ok && res->Ok_0@ == pattern_at(
            old(r).bytes(),
            old(r).position(),
            num_channels as int,
        ) && final(r).position() == old(r).position() + 256 * num_channels,
        old(r).remaining() < 256 * num_channels ==> res is Err && res->Err_0
            == ParseError::Truncated,
{
    let ghost bytes = r.bytes();
    let ghost start = r.position();
    let ghost row: int = 4 * num_channels;
    let mut divisions: Vec<Division> = Vec::new();
    let mut d: usize = 0;
    while d < 64
        invariant
            d <= 64,
            row == 4 * num_channels,
            bytes == old(r).bytes(),
            start == old(r).position(),
            r.bytes() == bytes,
            r.position() == start + row * d,
            d > 0 && row > 0 ==> start + row * d <= bytes.len(),
            divisions@.len() == d,
            forall|k: int|
                0 <= k < d ==> (#[trigger] divisions@[k])@ == row_at(
                    bytes,
                    start + row * k,
                    num_channels as int,
                ),
        decreases 64 - d,
    {
        assert(row * (d + 1) == row * d + row) by (nonlinear_arith);
        assert(row * d >= 0 && row * d <= row * 63) by (nonlinear_arith)
            requires
                0 <= d < 64,
                row >= 0,
        ;
        let division = match parse_division(r, num_channels) {
            Ok(division) => division,
            Err(e) => {
                return Err(e);
            },
        };
        divisions.push(division);
        d = d + 1;
    }
    let pattern = Pattern { divisions };
    Ok(pattern)
}

/// Reads a zero-padded text field of `length` bytes. The text ends before
/// the first zero byte; a field that holds no valid UTF-8 there gives the
/// empty string.
pub fn parse_str(r: &mut ByteReader, length: usize) -> (res: Result<String, ParseError>)
    ensures
        final(r).bytes() == old(r).bytes(),
        length <= old(r).remaining() ==> res is Ok && res->Ok_0@ == padded_text(
            old(r).upcoming(length as int),
        ) && final(r).position() == old(r).position() + length,
        length > old(r).remaining() ==> res is Err && res->Err_0 == ParseError::Truncated
            && final(r).position() == old(r).position(),
{
    let buf = match r.read_exact(length) {
        Ok(buf) => buf,
        Err(e) => {
            return Err(e);
        },
    };
    let mut end: usize = 0;
    while end < buf.len() && buf[end] != 0
        invariant
            end <= buf@.len(),
            text_end(buf@, 0) == text_end(buf@, end as int),
        decreases buf@.len() - end,
    {
        end = end + 1;
    }
    let text = slice_subrange(buf, 0, end);
    Ok(decode_text(text))
}

/// Reads the 30 bytes of a sample header. The waveform is left empty.
pub fn parse_sample_param(r: &mut ByteReader) -> (res: Result<Sample, ParseError>)
    ensures
        final(r).bytes() == old(r).bytes(),
        old(r).remaining() >= 30 ==> res is Ok && res->Ok_0@ == header_at(
            old(r).bytes(),
            old(r).position(),
        ) && final(r).position() == old(r).position() + 30,
        old(r).remaining() < 30 ==> res is Err && res->Err_0 == ParseError::Truncated,
{
    let ghost bytes = r.bytes();
    let ghost start = r.position();
    let ghost field = r.upcoming(22);
    let name = match parse_str(r, 22) {
        Ok(name) => name,
        Err(e) => {
            return Err(e);
        },
    };
    assert(field =~= bytes.subrange(start, start + 22));
    let length_words = match r.read_u16_be() {
        Ok(v) => v,
        Err(e) => {
            return Err(e);
        },
    };
    let finetune = match r.read_i8() {
        Ok(v) => v,
        Err(e) => {
            return Err(e);
        },
    };
    let volume = match r.read_u8() {
        Ok(v) => v,
        Err(e) => {
            return Err(e);
        },
    };
    let repeat_offset_words = match r.read_u16_be() {
        Ok(v) => v,
        Err(e) => {
            return Err(e);
        },
    };
    let repeat_length_words = match r.read_u16_be() {
        Ok(v) => v,
        Err(e) => {
            return Err(e);
        },
    };
    let sample = Sample {
        name,
        length: length_words as u32 * 2,
        finetune,
        volume,
        repeat_offset: repeat_offset_words as u32 * 2,
        repeat_length: repeat_length_words as u32 * 2,
        data: Vec::new(),
    };
    Ok(sample)
}

/// The lengths of the samples add up: a longer prefix is no shorter.
pub proof fn lemma_lengths_grow(samples: Seq<SampleView>, i: int, j: int)
    requires
        i <= j,
    ensures
        0 <= lengths_before(samples, i) <= lengths_before(samples, j),
    decreases j - i,
{
    if i < j {
        lemma_lengths_grow(samples, i, j - 1);
    } else {
        lemma_lengths_nonnegative(samples, i);
    }
}

proof fn lemma_lengths_nonnegative(samples: Seq<SampleView>, i: int)
    ensures
        0 <= lengths_before(samples, i),
    decreases i,
{
    if i > 0 {
        lemma_lengths_nonnegative(samples, i - 1);
    }
}

/// Reads the waveforms of the samples, which follow one another in the
/// order of the samples. Each takes as many bytes as the sample's length
/// says, read as signed numbers; a sample of length 0 takes none and is left
/// as it is.
pub fn parse_sample_data(r: &mut ByteReader, samples: &mut Vec<Sample>) -> (res: Result<
    (),
    ParseError,
>)
    ensures
        final(r).bytes() == old(r).bytes(),
        final(samples)@.len() == old(samples)@.len(),
        old(r).remaining() >= lengths_before(
            sample_views(old(samples)@),
            old(samples)@.len() as int,
        ) ==> res is Ok && sample_views(final(samples)@) == loaded(
            sample_views(old(samples)@),
            old(r).bytes(),
            old(r).position(),
        ) && final(r).position() == old(r).position() + lengths_before(
            sample_views(old(samples)@),
            old(samples)@.len() as int,
        ),
        old(r).remaining() < lengths_before(
            sample_views(old(samples)@),
            old(samples)@.len() as int,
        ) ==> res is Err && res->Err_0 == ParseError::Truncated,
{
    let ghost bytes = r.bytes();
    let ghost start = r.position();
    let ghost before = sample_views(samples@);
    let count = samples.len();
    let mut i: usize = 0;
    while i < count
        invariant
            i <= count,
            count == before.len(),
            samples@.len() == count,
            bytes == old(r).bytes(),
            start == old(r).position(),
            before == sample_views(old(samples)@),
            r.bytes() == bytes,
            r.position() == start + lengths_before(before, i as int),
            lengths_before(before, i as int) > 0 ==> r.position() <= bytes.len(),
            forall|k: int|
                0 <= k < i ==> (#[trigger] samples@[k])@ == with_data(
                    before[k],
                    bytes,
                    start + lengths_before(before, k),
                ),
            forall|k: int| i <= k < count ==> (#[trigger] samples@[k])@ == before[k],
        decreases count - i,
    {
        let length = samples[i].length;
        proof {
            lemma_lengths_grow(before, i as int, i as int);
            lemma_lengths_grow(before, i as int + 1, count as int);
        }
        if length > 0 {
            let ghost at = r.position();
            let raw = match r.read_exact(length as usize) {
                Ok(raw) => raw,
                Err(e) => {
                    return Err(e);
                },
            };
            let mut data: Vec<i8> = Vec::new();
            let mut k: usize = 0;
            while k < raw.len()
                invariant
                    k <= raw@.len(),
                    data@.len() == k,
                    forall|j: int| 0 <= j < k ==> data@[j] == reader::as_signed(raw@[j]),
                decreases raw@.len() - k,
            {
                data.push(to_signed(raw[k]));
                k = k + 1;
            }
            assert(data@ =~= signed_at(bytes, at, length as int));
            samples[i].data = data;
        }
        i = i + 1;
    }
    Ok(())
}

/// What a format tag says of the file: the number of sample headers, the
/// number of channels, and the bound on the number of patterns.
fn tag_layout(tag: &[u8]) -> (r: (u8, u8, u8))
    requires
        tag@.len() == 4,
    ensures
        r.0 == (if is_common_tag(tag@) || is_large_tag(tag@) {
            31int
        } else {
            15int
        }),
        r.1 == 4,
        r.2 == (if is_large_tag(tag@) {
            255int
        } else {
            63int
        }),
{
    let (a, b, c, d): (u8, u8, u8, u8) = (tag[0], tag[1], tag[2], tag[3]);
    assert(tag@ =~= seq![a, b, c, d]);
    if a == 0x4d && b == 0x21 && c == 0x4b && d == 0x21 {
        (31, 4, 255)
    } else if (a == 0x4d && b == 0x2e && c == 0x4b && d == 0x2e) || (a == 0x46 && b == 0x4c && c
        == 0x54 && d == 0x34) || (a == 0x34 && b == 0x43 && c == 0x48 && d == 0x4e) {
        (31, 4, 63)
    } else if a == 0x36 && b == 0x43 && c == 0x48 && d == 0x4e {
        (31, 4, 63)
    } else if (a == 0x46 && b == 0x4c && c == 0x54 && d == 0x38) || (a == 0x38 && b == 0x43 && c
        == 0x48 && d == 0x4e) {
        (31, 4, 63)
    } else {
        (15, 4, 63)
    }
}

/// The largest entry of a play order; 0 for an empty one.
fn max_entry(order: &Vec<u8>) -> (r: u8)
    ensures
        r == highest(order@),
{
    let mut m: u8 = 0;
    let mut i: usize = 0;
    while i < order.len()
        invariant
            i <= order@.len(),
            m == highest(order@.take(i as int)),
        decreases order@.len() - i,
    {
        assert(order@.take(i + 1).drop_last() =~= order@.take(i as int));
        if order[i] > m {
            m = order[i];
        }
        i = i + 1;
    }
    assert(order@.take(i as int) =~= order@);
    m
}

/// Decodes a module from the bytes of its file.
///
/// The tag at offset 1080 tells the format, so a file of fewer than 1084
/// bytes is refused as truncated even in the old format, which has no tag.
/// The result is the module that the layout describes, or the reason why
/// there is none: the file ends too early, or its play order is empty.
/// Bytes behind the last waveform are ignored.
pub fn deserialize(bytes: &[u8]) -> (res: Result<ProtrackerMod, ParseError>)
    ensures
        match res {
            Ok(m) => decode(bytes@) == Ok::<ModuleView, ParseError>(m@),
            Err(e) => decode(bytes@) == Err::<ModuleView, ParseError>(e),
        },
        res matches Ok(m) ==> m.samples@.len() == sample_count(bytes@) && m.patterns@.len()
            == pattern_count(bytes@) && m.has_rows_of(4),
{
    let ghost b = bytes@;
    let mut r = ByteReader::new(bytes);

    // the tag tells the number of samples and the bound on the patterns
    r.seek(1080);
    let tag = match r.read_exact(4) {
        Ok(tag) => tag,
        Err(e) => {
            return Err(e);
        },
    };
    assert(tag@ =~= tag_of(b));
    let (num_samples, num_channels, max_pattern) = tag_layout(tag);

    r.seek(0);
    let title = match parse_str(&mut r, 20) {
        Ok(title) => title,
        Err(e) => {
            return Err(e);
        },
    };
    assert(Seq::new(20, |i: int| b[0 + i]) =~= b.subrange(0, 20));

    let mut samples: Vec<Sample> = Vec::new();
    let mut i: u8 = 0;
    while i < num_samples
        invariant
            i <= num_samples <= 31,
            b.len() >= 1084,
            r.bytes() == b,
            r.position() == 20 + 30 * i,
            samples@.len() == i,
            forall|k: int| 0 <= k < i ==> (#[trigger] samples@[k])@ == header_at(b, 20 + 30 * k),
        decreases num_samples - i,
    {
        let sample = match parse_sample_param(&mut r) {
            Ok(sample) => sample,
            Err(e) => {
                return Err(e);
            },
        };
        samples.push(sample);
        i = i + 1;
    }
    assert(sample_views(samples@) =~= headers_of(b));

    // the play order, and what pads it to 128 bytes and the tag
    let song_length = match r.read_u8() {
        Ok(v) => v,
        Err(e) => {
            return Err(e);
        },
    };
    match r.read_u8() {
        Ok(_) => {},
        Err(e) => {
            return Err(e);
        },
    }
    if song_length > 132 {
        return Err(ParseError::Truncated);
    }
    let order = match r.read_exact(song_length as usize) {
        Ok(order) => order,
        Err(e) => {
            return Err(e);
        },
    };
    let sequence = slice_to_vec(order);
    assert(sequence@ =~= sequence_of(b));
    let padding: usize = 128 + 4 - song_length as usize;
    match r.read_exact(padding) {
        Ok(_) => {},
        Err(e) => {
            return Err(e);
        },
    }
    if sequence.len() == 0 {
        return Err(ParseError::EmptySequence);
    }
    // one pattern more than the highest index of the play order, up to the bound

    let highest_index = max_entry(&sequence);
    let num_patterns: u8 = if highest_index < max_pattern {
        highest_index + 1
    } else {
        max_pattern
    };

    let mut patterns: Vec<Pattern> = Vec::new();
    let mut p: u8 = 0;
    while p < num_patterns
        invariant
            p <= num_patterns,
            num_patterns == pattern_count(b),
            num_channels == 4,
            b == bytes@,
            b.len() >= 1084,
            1 <= layout::song_length(b) <= 132,
            r.bytes() == b,
            r.position() == patterns_offset(b) + 1024 * p,
            r.position() <= b.len(),
            patterns@.len() == p,
            forall|k: int|
                0 <= k < p ==> (#[trigger] patterns@[k])@ == pattern_at(
                    b,
                    patterns_offset(b) + 1024 * k,
                    4,
                ),
        decreases num_patterns - p,
    {
        proof {
            lemma_lengths_grow(headers_of(b), 0, sample_count(b));
        }
        let pattern = match parse_pattern(&mut r, num_channels) {
            Ok(pattern) => pattern,
            Err(e) => {
                return Err(e);
            },
        };
        patterns.push(pattern);
        p = p + 1;
    }

    match parse_sample_data(&mut r, &mut samples) {
        Ok(_) => {},
        Err(e) => {
            return Err(e);
        },
    }
    let module = ProtrackerMod { title, samples, sequence, patterns };
    assert(module@.patterns =~= module_of(b).patterns);
    assert forall|p: int, d: int| 0 <= p < module.patterns@.len() implies (
    #[trigger] module.patterns@[p]).divisions@.len() == 64 && (0 <= d < 64 ==> (
    #[trigger] module.patterns@[p].divisions@[d]).channel_data@.len() == 4) by {
        let pattern = module.patterns@[p];
        if 0 <= d < 64 {
            assert(pattern@[d] == pattern.divisions@[d]@);
        }
    }
    Ok(module)
}

} // verus!
