//! The byte layout of a module file, as a mathematical model: what every
//! part of a module is, given the bytes of the file.
//!
//! A file holds, in this order: a title of 20 bytes; 31 sample headers of 30
//! bytes each (15 in the old format); the length of the play order; an
//! unused byte; 128 bytes of play order; 4 bytes that hold the format tag
//! (at offset 1080 in the new format); the patterns, 1024 bytes each; and
//! the waveforms of the samples.

use super::reader::{as_signed, be_u16, text_or_empty};
use super::{ChannelData, Effect, EffectType, EffectTypeExtended, ModuleView, ParseError, SampleView};
use vstd::prelude::*;

verus! {

/// The upper four bits of a byte.
pub open spec fn high_nibble(b: u8) -> u8 {
    b / 16
}

/// The lower four bits of a byte.
pub open spec fn low_nibble(b: u8) -> u8 {
    b % 16
}

/// The byte that two parameters make when they are taken as one number:
/// the first counts sixteenfold. Of a number that does not fit in a byte,
/// which only comes of a parameter above 15, the low byte is kept.
pub open spec fn combined_byte(x: u8, y: u8) -> u8 {
    ((x * 16 + y) % 256) as u8
}

/// The effect that a kind code and two parameters stand for. The extended
/// kind is decoded from the very code that selected the extended effect, and
/// the two parameters become its one parameter.
pub open spec fn effect_of(t: u8, x: u8, y: u8) -> Result<Effect, ParseError> {
    if t >= 16 {
        Err(ParseError::InvalidEffect(t))
    } else if t == 0xe {
        Ok(
            Effect::Extended {
                effect_type: EffectTypeExtended::spec_from_code(t)->Some_0,
                param: combined_byte(x, y),
            },
        )
    } else {
        Ok(Effect::Normal { effect_type: EffectType::spec_from_code(t)->Some_0, param1: x, param2: y })
    }
}

/// The cell that four bytes encode. The sample number takes the high nibble
/// of the first byte and the low nibble of the third; the period takes the
/// low nibble of the first byte and the whole second byte; the effect kind
/// is the high nibble of the third byte, and the fourth byte holds the two
/// parameters.
pub open spec fn cell_of(b0: u8, b1: u8, b2: u8, b3: u8) -> ChannelData {
    ChannelData {
        sample: (high_nibble(b0) * 16 + low_nibble(b2)) as u8,
        period: (low_nibble(b0) * 256 + high_nibble(b1) * 16 + low_nibble(b1)) as u16,
        effect: effect_of(high_nibble(b2), high_nibble(b3), low_nibble(b3))->Ok_0,
    }
}

/// The cell encoded at offset `at`.
pub open spec fn cell_at(b: Seq<u8>, at: int) -> ChannelData {
    cell_of(b[at], b[at + 1], b[at + 2], b[at + 3])
}

/// The row of `channels` cells encoded from offset `at` on.
pub open spec fn row_at(b: Seq<u8>, at: int, channels: int) -> Seq<ChannelData> {
    Seq::new(channels as nat, |c: int| cell_at(b, at + 4 * c))
}

/// The pattern of 64 rows encoded from offset `at` on.
pub open spec fn pattern_at(b: Seq<u8>, at: int, channels: int) -> Seq<Seq<ChannelData>> {
    Seq::new(64, |d: int| row_at(b, at + 4 * channels * d, channels))
}

/// The offset of the first zero byte of `s` at or behind `from`, or the
/// length of `s` where there is none.
pub open spec fn text_end(s: Seq<u8>, from: int) -> int
    decreases s.len() - from,
{
    if from < 0 || from >= s.len() || s[from] == 0 {
        from
    } else {
        text_end(s, from + 1)
    }
}

/// The text of a zero-padded field: what stands before the first zero byte,
/// decoded as UTF-8, or nothing where that is no valid UTF-8.
pub open spec fn padded_text(field: Seq<u8>) -> Seq<char> {
    text_or_empty(field.take(text_end(field, 0)))
}

/// The sample header of 30 bytes encoded at offset `at`, with no waveform
/// yet. Lengths and offsets are stored as counts of 16-bit words.
pub open spec fn header_at(b: Seq<u8>, at: int) -> SampleView {
    SampleView {
        name: padded_text(b.subrange(at, at + 22)),
        length: (2 * be_u16(b[at + 22], b[at + 23])) as u32,
        finetune: as_signed(b[at + 24]),
        volume: b[at + 25],
        repeat_offset: (2 * be_u16(b[at + 26], b[at + 27])) as u32,
        repeat_length: (2 * be_u16(b[at + 28], b[at + 29])) as u32,
        data: Seq::empty(),
    }
}

/// The `n` bytes from offset `at` on, as signed numbers.
pub open spec fn signed_at(b: Seq<u8>, at: int, n: int) -> Seq<i8> {
    Seq::new(n as nat, |i: int| as_signed(b[at + i]))
}

/// The sum of the lengths of the first `i` samples.
pub open spec fn lengths_before(samples: Seq<SampleView>, i: int) -> int
    decreases i,
{
    if i <= 0 {
        0
    } else {
        lengths_before(samples, i - 1) + samples[i - 1].length
    }
}

/// A sample with its waveform read from offset `at`. A sample of length 0
/// has no waveform in the file and keeps what it holds.
pub open spec fn with_data(sample: SampleView, b: Seq<u8>, at: int) -> SampleView {
    if sample.length > 0 {
        SampleView { data: signed_at(b, at, sample.length as int), ..sample }
    } else {
        sample
    }
}

/// The samples with their waveforms, which stand in the file one behind the
/// other from offset `at` on.
pub open spec fn loaded(samples: Seq<SampleView>, b: Seq<u8>, at: int) -> Seq<SampleView> {
    Seq::new(samples.len(), |i: int| with_data(samples[i], b, at + lengths_before(samples, i)))
}

/// The four bytes at offset 1080, where the newer formats keep their tag.
pub open spec fn tag_of(b: Seq<u8>) -> Seq<u8> {
    b.subrange(1080, 1084)
}

/// The tag `M!K!`, of modules with up to 255 patterns.
pub open spec fn is_large_tag(tag: Seq<u8>) -> bool {
    tag == seq![0x4du8, 0x21u8, 0x4bu8, 0x21u8]
}

/// One of the tags `M.K.`, `FLT4`, `4CHN`, `6CHN`, `FLT8`, `8CHN`.
pub open spec fn is_common_tag(tag: Seq<u8>) -> bool {
    ||| tag == seq![0x4du8, 0x2eu8, 0x4bu8, 0x2eu8]
    ||| tag == seq![0x46u8, 0x4cu8, 0x54u8, 0x34u8]
    ||| tag == seq![0x34u8, 0x43u8, 0x48u8, 0x4eu8]
    ||| tag == seq![0x36u8, 0x43u8, 0x48u8, 0x4eu8]
    ||| tag == seq![0x46u8, 0x4cu8, 0x54u8, 0x38u8]
    ||| tag == seq![0x38u8, 0x43u8, 0x48u8, 0x4eu8]
}

/// The number of sample headers: 31 under a known tag, 15 in the old format
/// that has none.
pub open spec fn sample_count(b: Seq<u8>) -> int {
    if is_common_tag(tag_of(b)) || is_large_tag(tag_of(b)) {
        31
    } else {
        15
    }
}

/// The bound on the number of patterns that the format allows.
pub open spec fn pattern_limit(b: Seq<u8>) -> int {
    if is_large_tag(tag_of(b)) {
        255
    } else {
        63
    }
}

/// The number of channels. Every format is read with four.
pub open spec fn channel_count(b: Seq<u8>) -> int {
    4
}

/// The offset of the byte that holds the length of the play order.
pub open spec fn order_offset(b: Seq<u8>) -> int {
    20 + 30 * sample_count(b)
}

/// The length of the play order.
pub open spec fn song_length(b: Seq<u8>) -> int {
    b[order_offset(b)] as int
}

/// The play order.
pub open spec fn sequence_of(b: Seq<u8>) -> Seq<u8> {
    b.subrange(order_offset(b) + 2, order_offset(b) + 2 + song_length(b))
}

/// The largest entry of `s`; 0 for the empty sequence.
pub open spec fn highest(s: Seq<u8>) -> int
    decreases s.len(),
{
    if s.len() == 0 {
        0
    } else if highest(s.drop_last()) >= s.last() {
        highest(s.drop_last())
    } else {
        s.last() as int
    }
}

/// The number of patterns in the file: one more than the highest pattern
/// index of the play order, but no more than the format's bound.
pub open spec fn pattern_count(b: Seq<u8>) -> int {
    if highest(sequence_of(b)) + 1 <= pattern_limit(b) {
        highest(sequence_of(b)) + 1
    } else {
        pattern_limit(b)
    }
}

/// The offset of the first pattern.
pub open spec fn patterns_offset(b: Seq<u8>) -> int {
    order_offset(b) + 2 + 128 + 4
}

/// The offset of the first waveform.
pub open spec fn samples_offset(b: Seq<u8>) -> int {
    patterns_offset(b) + 256 * channel_count(b) * pattern_count(b)
}

/// The sample headers.
pub open spec fn headers_of(b: Seq<u8>) -> Seq<SampleView> {
    Seq::new(sample_count(b) as nat, |i: int| header_at(b, 20 + 30 * i))
}

/// The number of bytes that the module takes in the file.
pub open spec fn total_length(b: Seq<u8>) -> int {
    samples_offset(b) + lengths_before(headers_of(b), sample_count(b))
}

/// The module that the bytes of a well-formed file encode.
pub open spec fn module_of(b: Seq<u8>) -> ModuleView {
    ModuleView {
        title: padded_text(b.subrange(0, 20)),
        samples: loaded(headers_of(b), b, samples_offset(b)),
        sequence: sequence_of(b),
        patterns: Seq::new(
            pattern_count(b) as nat,
            |p: int| pattern_at(b, patterns_offset(b) + 256 * channel_count(b) * p, channel_count(b)),
        ),
    }
}

/// What decoding a file gives. A file shorter than 1084 bytes is truncated,
/// whatever its format. A play order of more than 132 entries reaches
/// behind the tag, and the file then counts as truncated too.
pub open spec fn decode(b: Seq<u8>) -> Result<ModuleView, ParseError> {
    if b.len() < 1084 {
        Err(ParseError::Truncated)
    } else if song_length(b) == 0 {
        Err(ParseError::EmptySequence)
    } else if song_length(b) > 132 || b.len() < total_length(b) {
        Err(ParseError::Truncated)
    } else {
        Ok(module_of(b))
    }
}

/// Every value of four bits decodes. It names an effect kind and an
/// extended effect kind, each with that value as its code, and as the kind
/// code of a cell it gives an effect, whatever the two parameters are: an
/// extended effect under the code 14, whose extended kind has the code 14
/// too and whose parameter is the two parameters combined, `x * 16 + y`
/// for two nibbles; and else an effect of the named kind with both
/// parameters.
pub proof fn lemma_nibbles_decode(t: u8, x: u8, y: u8)
    requires
        t < 16,
    ensures
        EffectType::spec_from_code(t) is Some,
        EffectType::spec_from_code(t)->Some_0.spec_code() == t,
        EffectTypeExtended::spec_from_code(t) is Some,
        EffectTypeExtended::spec_from_code(t)->Some_0.spec_code() == t,
        effect_of(t, x, y) is Ok,
        t == 0xe ==> effect_of(t, x, y)->Ok_0 == (Effect::Extended {
            effect_type: EffectTypeExtended::DelayPattern,
            param: combined_byte(x, y),
        }),
        x < 16 && y < 16 ==> combined_byte(x, y) == x * 16 + y,
        t != 0xe ==> effect_of(t, x, y)->Ok_0 == (Effect::Normal {
            effect_type: EffectType::spec_from_code(t)->Some_0,
            param1: x,
            param2: y,
        }),
{
}

/// The kinds go to their codes and back.
pub proof fn lemma_codes_round_trip(kind: EffectType, extended: EffectTypeExtended)
    ensures
        kind.spec_code() < 16,
        EffectType::spec_from_code(kind.spec_code()) == Some(kind),
        extended.spec_code() < 16,
        EffectTypeExtended::spec_from_code(extended.spec_code()) == Some(extended),
{
}

/// `k` occurs in `s`, and no entry of `s` is larger.
pub open spec fn is_highest(s: Seq<u8>, k: int) -> bool {
    &&& exists|i: int| 0 <= i < s.len() && s[i] == k
    &&& forall|i: int| 0 <= i < s.len() ==> s[i] <= k
}

/// `highest` gives the largest entry of a sequence that is not empty.
pub proof fn lemma_highest(s: Seq<u8>)
    requires
        s.len() > 0,
    ensures
        is_highest(s, highest(s)),
    decreases s.len(),
{
    let front = s.drop_last();
    if front.len() == 0 {
        assert(highest(front) == 0);
    } else {
        lemma_highest(front);
        assert forall|j: int| 0 <= j < s.len() implies s[j] <= highest(s) by {
            if j < front.len() {
                assert(s[j] == front[j]);
            }
        }
    }
}

/// The shape of a decoded module. A file with the tag `M.K.` whose play
/// order has `k` as its highest entry decodes to 31 samples and to
/// `k + 1` patterns, but no more than 63; and whatever the tag, every
/// pattern has 64 rows of 4 cells.
pub proof fn lemma_decoded_shape(b: Seq<u8>, k: int)
    requires
        decode(b) is Ok,
        is_highest(sequence_of(b), k),
    ensures
        tag_of(b) == seq![0x4du8, 0x2eu8, 0x4bu8, 0x2eu8] ==> decode(b)->Ok_0.samples.len() == 31
            && decode(b)->Ok_0.patterns.len() == (if k + 1 <= 63 {
            k + 1
        } else {
            63
        }),
        forall|p: int|
            0 <= p < decode(b)->Ok_0.patterns.len() ==> (#[trigger] decode(b)->Ok_0.patterns[p]).len()
                == 64,
        forall|p: int, d: int|
            0 <= p < decode(b)->Ok_0.patterns.len() && 0 <= d < 64 ==> (#[trigger] decode(
                b,
            )->Ok_0.patterns[p][d]).len() == 4,
{
    lemma_highest(sequence_of(b));
}

} // verus!
