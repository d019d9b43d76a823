use trackermod::format::protracker::reader::{decode_text, to_signed, ByteReader};
use trackermod::format::protracker::{
    deserialize, parse_channel_data, parse_effect, parse_pattern, parse_sample_data,
    parse_sample_param, parse_str, split_nibbles, ChannelData, Effect, EffectType,
    EffectTypeExtended, ParseError, Sample,
};

/// The bytes of one cell.
fn cell(sample: u8, period: u16, kind: u8, x: u8, y: u8) -> [u8; 4] {
    [
        (sample & 0xf0) | ((period >> 8) as u8 & 0x0f),
        (period & 0xff) as u8,
        (kind << 4) | (sample & 0x0f),
        (x << 4) | y,
    ]
}

/// The 30 bytes of a sample header.
fn header(name: &[u8], words: u16, finetune: u8, volume: u8, roff: u16, rlen: u16) -> Vec<u8> {
    let mut h = vec![0u8; 22];
    h[..name.len()].copy_from_slice(name);
    h.extend_from_slice(&words.to_be_bytes());
    h.push(finetune);
    h.push(volume);
    h.extend_from_slice(&roff.to_be_bytes());
    h.extend_from_slice(&rlen.to_be_bytes());
    h
}

/// A module file with the given tag and play order, `patterns` patterns of
/// empty cells, and one sample of four bytes.
fn file(tag: &[u8; 4], headers: usize, order: &[u8], patterns: usize) -> Vec<u8> {
    let mut b = vec![0u8; 20];
    b[..4].copy_from_slice(b"song");
    b.extend(header(b"lead", 2, 0xfd, 64, 0, 1));
    for _ in 1..headers {
        b.extend(header(b"", 0, 0, 0, 0, 0));
    }
    b.push(order.len() as u8);
    b.push(127);
    let mut table = vec![0u8; 128];
    table[..order.len()].copy_from_slice(order);
    b.extend(table);
    b.extend_from_slice(tag);
    for _ in 0..patterns {
        b.extend(vec![0u8; 1024]);
    }
    b.extend_from_slice(&[10, 0xf6, 20, 0xec]);
    b
}

#[test]
fn nibbles_are_high_then_low() {
    assert_eq!(split_nibbles(&[0xab, 0x05, 0xf0, 0x00]), vec![(0xa, 0xb), (0, 5), (0xf, 0), (0, 0)]);
    assert_eq!(split_nibbles(&[]), vec![]);
}

#[test]
fn every_nibble_names_an_effect() {
    let kinds = [
        EffectType::Arpeggio,
        EffectType::SlideUp,
        EffectType::SlideDown,
        EffectType::SlideToNote,
        EffectType::Vibrato,
        EffectType::SlideToNoteVolumeSlide,
        EffectType::VibratoVolumeSlide,
        EffectType::Tremolo,
        EffectType::SetPanningPosition,
        EffectType::SetSampleOffset,
        EffectType::VolumeSlide,
        EffectType::PositionJump,
        EffectType::SetVolume,
        EffectType::PatternBreak,
        EffectType::Extended,
        EffectType::SetSpeed,
    ];
    for t in 0u8..16 {
        assert_eq!(EffectType::from_code(t), Some(kinds[t as usize]));
        assert_eq!(kinds[t as usize].code(), t);
        for x in 0u8..16 {
            let got = parse_effect(t, x, 9);
            if t == 0xe {
                assert_eq!(
                    got,
                    Ok(Effect::Extended {
                        effect_type: EffectTypeExtended::DelayPattern,
                        param: x * 16 + 9,
                    })
                );
            } else {
                assert_eq!(
                    got,
                    Ok(Effect::Normal { effect_type: kinds[t as usize], param1: x, param2: 9 })
                );
            }
        }
    }
}

#[test]
fn every_nibble_names_an_extended_effect() {
    let kinds = [
        EffectTypeExtended::SetFilterOnOff,
        EffectTypeExtended::FineslideUp,
        EffectTypeExtended::FineslideDown,
        EffectTypeExtended::Glissando,
        EffectTypeExtended::SetVibratoWaveform,
        EffectTypeExtended::SetFinetuneValue,
        EffectTypeExtended::LoopPattern,
        EffectTypeExtended::SetTremoloWaveform,
        EffectTypeExtended::Unused,
        EffectTypeExtended::RetriggerSample,
        EffectTypeExtended::FineVolumeSlideUp,
        EffectTypeExtended::FineVolumeSlideDown,
        EffectTypeExtended::CutSample,
        EffectTypeExtended::DelaySample,
        EffectTypeExtended::DelayPattern,
        EffectTypeExtended::InvertLoop,
    ];
    for t in 0u8..16 {
        assert_eq!(EffectTypeExtended::from_code(t), Some(kinds[t as usize]));
        assert_eq!(kinds[t as usize].code(), t);
    }
    assert_eq!(EffectTypeExtended::from_code(16), None);
}

#[test]
fn an_extended_effect_combines_its_parameters() {
    let extended = |param| Ok(Effect::Extended { effect_type: EffectTypeExtended::DelayPattern, param });
    assert_eq!(parse_effect(0xe, 0x1, 0x2), extended(0x12));
    assert_eq!(parse_effect(0xe, 0, 0), extended(0));
    assert_eq!(parse_effect(0xe, 0xf, 0xf), extended(0xff));
    assert_eq!(parse_effect(0xe, 0xa, 0), extended(0xa0));
    assert_eq!(parse_effect(0xe, 0, 0xa), extended(0x0a));
    // of parameters that are no nibbles the low byte of the number is kept
    assert_eq!(parse_effect(0xe, 0x10, 0), extended(0));
    assert_eq!(parse_effect(0xe, 0x11, 0x22), extended(0x32));
    assert_eq!(parse_effect(0xe, 0xff, 0xff), extended(0xef));
    let bytes = [0x00, 0x00, 0xe1, 0x5c];
    let mut r = ByteReader::new(&bytes);
    assert_eq!(
        parse_channel_data(&mut r),
        Ok(ChannelData {
            sample: 1,
            period: 0,
            effect: Effect::Extended { effect_type: EffectTypeExtended::DelayPattern, param: 0x5c },
        })
    );
}

#[test]
fn a_value_above_fifteen_is_no_effect() {
    assert_eq!(EffectType::from_code(16), None);
    assert_eq!(parse_effect(16, 1, 2), Err(ParseError::InvalidEffect(16)));
    assert_eq!(parse_effect(255, 0, 0), Err(ParseError::InvalidEffect(255)));
}

#[test]
fn a_cell_is_decoded_from_its_nibbles() {
    let bytes = [0x12, 0x34, 0xc5, 0x67];
    let mut r = ByteReader::new(&bytes);
    let cd = parse_channel_data(&mut r).unwrap();
    assert_eq!(
        cd,
        ChannelData {
            sample: 0x15,
            period: 0x234,
            effect: Effect::Normal { effect_type: EffectType::SetVolume, param1: 6, param2: 7 },
        }
    );
    assert_eq!(r.offset(), 4);
    assert_eq!(parse_channel_data(&mut r), Err(ParseError::Truncated));
    assert_eq!(r.offset(), 4);
}

#[test]
fn a_cell_round_trips_through_its_bytes() {
    let bytes = cell(0x1f, 856, 0xf, 7, 13);
    let mut r = ByteReader::new(&bytes);
    assert_eq!(
        parse_channel_data(&mut r),
        Ok(ChannelData {
            sample: 0x1f,
            period: 856,
            effect: Effect::Normal { effect_type: EffectType::SetSpeed, param1: 7, param2: 13 },
        })
    );
}

#[test]
fn a_short_cell_is_truncated() {
    let bytes = [1, 2, 3];
    let mut r = ByteReader::new(&bytes);
    assert_eq!(parse_channel_data(&mut r), Err(ParseError::Truncated));
}

#[test]
fn a_pattern_has_64_rows() {
    let mut bytes = vec![0u8; 1024];
    bytes[4 * (4 * 5 + 2)..4 * (4 * 5 + 2) + 4].copy_from_slice(&cell(3, 428, 1, 2, 3));
    let mut r = ByteReader::new(&bytes);
    let p = parse_pattern(&mut r, 4).unwrap();
    assert_eq!(p.divisions.len(), 64);
    for d in &p.divisions {
        assert_eq!(d.channel_data.len(), 4);
    }
    assert_eq!(
        p.divisions[5].channel_data[2],
        ChannelData {
            sample: 3,
            period: 428,
            effect: Effect::Normal { effect_type: EffectType::SlideUp, param1: 2, param2: 3 },
        }
    );
    assert_eq!(p.divisions[5].channel_data[1].sample, 0);
    assert_eq!(r.offset(), 1024);
}

#[test]
fn a_short_pattern_is_truncated() {
    let bytes = vec![0u8; 1023];
    let mut r = ByteReader::new(&bytes);
    assert_eq!(parse_pattern(&mut r, 4), Err(ParseError::Truncated));
    let bytes = vec![0u8; 512];
    let mut r = ByteReader::new(&bytes);
    assert!(parse_pattern(&mut r, 2).is_ok());
}

#[test]
fn a_text_ends_at_the_first_zero() {
    let bytes = *b"abc\0def\0";
    let mut r = ByteReader::new(&bytes);
    assert_eq!(parse_str(&mut r, 8), Ok("abc".to_owned()));
    assert_eq!(r.offset(), 8);
    let mut r = ByteReader::new(&bytes);
    assert_eq!(parse_str(&mut r, 3), Ok("abc".to_owned()));
    let mut r = ByteReader::new(&bytes);
    assert_eq!(parse_str(&mut r, 9), Err(ParseError::Truncated));
    let zeros = [0u8; 4];
    let mut r = ByteReader::new(&zeros);
    assert_eq!(parse_str(&mut r, 4), Ok(String::new()));
}

#[test]
fn a_text_that_is_no_utf8_is_empty() {
    let bytes = [b'a', 0xff, b'b', 0];
    let mut r = ByteReader::new(&bytes);
    assert_eq!(parse_str(&mut r, 4), Ok(String::new()));
    assert_eq!(decode_text(&[0xc3, 0xa9]), "\u{e9}");
    assert_eq!(decode_text(&[0xc3]), "");
    assert_eq!(decode_text(b"plain"), "plain");
}

#[test]
fn bytes_are_signed_by_their_bits() {
    assert_eq!(to_signed(0), 0);
    assert_eq!(to_signed(127), 127);
    assert_eq!(to_signed(128), -128);
    assert_eq!(to_signed(255), -1);
    assert_eq!(to_signed(0xf6), -10);
}

#[test]
fn the_reader_reads_big_endian() {
    let bytes = [0x12, 0x34, 0xff, 0x80];
    let mut r = ByteReader::new(&bytes);
    assert_eq!(r.read_u16_be(), Ok(0x1234));
    assert_eq!(r.read_u8(), Ok(0xff));
    assert_eq!(r.read_i8(), Ok(-128));
    assert_eq!(r.read_u8(), Err(ParseError::Truncated));
    r.seek(3);
    assert_eq!(r.read_u16_be(), Err(ParseError::Truncated));
    assert_eq!(r.offset(), 3);
    r.seek(1);
    assert_eq!(r.read_u16_be(), Ok(0x34ff));
    r.seek(100);
    assert_eq!(r.read_exact(0).map(|s| s.len()), Ok(0));
    assert_eq!(r.read_exact(1).map(|s| s.len()), Err(ParseError::Truncated));
}

#[test]
fn a_sample_header_counts_in_words() {
    let bytes = header(b"kick", 0x0102, 0xf9, 48, 0x0010, 0x0203);
    let mut r = ByteReader::new(&bytes);
    let s = parse_sample_param(&mut r).unwrap();
    assert_eq!(
        s,
        Sample {
            name: "kick".to_owned(),
            finetune: -7,
            length: 0x0204,
            volume: 48,
            repeat_offset: 0x20,
            repeat_length: 0x0406,
            data: vec![],
        }
    );
    assert_eq!(r.offset(), 30);
    let mut r = ByteReader::new(&bytes[..29]);
    assert_eq!(parse_sample_param(&mut r).err(), Some(ParseError::Truncated));
}

#[test]
fn the_longest_sample_needs_no_more_than_32_bits() {
    let bytes = header(b"", 0xffff, 7, 64, 0xffff, 0xffff);
    let mut r = ByteReader::new(&bytes);
    let s = parse_sample_param(&mut r).unwrap();
    assert_eq!((s.length, s.repeat_offset, s.repeat_length), (131070, 131070, 131070));
    assert_eq!(s.finetune, 7);
}

fn empty_sample(length: u32, data: Vec<i8>) -> Sample {
    Sample {
        name: String::new(),
        finetune: 0,
        length,
        volume: 64,
        repeat_offset: 0,
        repeat_length: 2,
        data,
    }
}

#[test]
fn waveforms_follow_one_another() {
    let bytes = [1u8, 2, 0x80, 0xff, 9];
    let mut samples = vec![empty_sample(2, vec![]), empty_sample(0, vec![5]), empty_sample(2, vec![])];
    let mut r = ByteReader::new(&bytes);
    assert_eq!(parse_sample_data(&mut r, &mut samples), Ok(()));
    assert_eq!(samples[0].data, vec![1, 2]);
    assert_eq!(samples[1].data, vec![5]);
    assert_eq!(samples[2].data, vec![-128, -1]);
    assert_eq!(r.offset(), 4);
}

#[test]
fn a_short_waveform_is_truncated() {
    let bytes = [1u8, 2, 3];
    let mut samples = vec![empty_sample(2, vec![]), empty_sample(2, vec![])];
    let mut r = ByteReader::new(&bytes);
    assert_eq!(parse_sample_data(&mut r, &mut samples), Err(ParseError::Truncated));
    assert_eq!(samples.len(), 2);
}

#[test]
fn a_tagged_module_is_decoded() {
    let mut b = file(b"M.K.", 31, &[0, 1, 0], 2);
    let at = 1084 + 1024 + 4 * (4 * 63 + 3);
    b[at..at + 4].copy_from_slice(&cell(1, 214, 0xa, 0, 4));
    let m = deserialize(&b).unwrap();
    assert_eq!(m.title, "song");
    assert_eq!(m.samples.len(), 31);
    assert_eq!(m.sequence, vec![0, 1, 0]);
    assert_eq!(m.patterns.len(), 2);
    for p in &m.patterns {
        assert_eq!(p.divisions.len(), 64);
        for d in &p.divisions {
            assert_eq!(d.channel_data.len(), 4);
        }
    }
    assert_eq!(
        m.samples[0],
        Sample {
            name: "lead".to_owned(),
            finetune: -3,
            length: 4,
            volume: 64,
            repeat_offset: 0,
            repeat_length: 2,
            data: vec![10, -10, 20, -20],
        }
    );
    assert_eq!(m.samples[1].length, 0);
    assert!(m.samples[1].data.is_empty());
    assert_eq!(
        m.patterns[1].divisions[63].channel_data[3],
        ChannelData {
            sample: 1,
            period: 214,
            effect: Effect::Normal { effect_type: EffectType::VolumeSlide, param1: 0, param2: 4 },
        }
    );
    assert_eq!(m.patterns[0].divisions[0].channel_data[0].sample, 0);
}

#[test]
fn the_pattern_count_follows_the_play_order() {
    for k in [0u8, 1, 5, 61, 62] {
        let b = file(b"M.K.", 31, &[0, k, 0], k as usize + 1);
        let m = deserialize(&b).unwrap();
        assert_eq!(m.patterns.len(), k as usize + 1);
    }
    // no more than 63 patterns are read, whatever the play order says
    for k in [63u8, 64, 200, 255] {
        let b = file(b"M.K.", 31, &[k], 63);
        let m = deserialize(&b).unwrap();
        assert_eq!(m.patterns.len(), 63);
        assert_eq!(m.samples[0].data, vec![10, -10, 20, -20]);
    }
}

#[test]
fn the_large_format_reads_up_to_255_patterns() {
    let b = file(b"M!K!", 31, &[70], 71);
    let m = deserialize(&b).unwrap();
    assert_eq!(m.patterns.len(), 71);
    assert_eq!(m.samples.len(), 31);
    let b = file(b"M!K!", 31, &[255], 255);
    let m = deserialize(&b).unwrap();
    assert_eq!(m.patterns.len(), 255);
}

#[test]
fn all_known_tags_have_31_samples_and_4_channels() {
    for tag in [b"M.K.", b"FLT4", b"4CHN", b"6CHN", b"FLT8", b"8CHN", b"M!K!"] {
        let b = file(tag, 31, &[0], 1);
        let m = deserialize(&b).unwrap();
        assert_eq!(m.samples.len(), 31);
        assert_eq!(m.patterns[0].divisions[0].channel_data.len(), 4);
        assert_eq!(m.samples[0].data, vec![10, -10, 20, -20]);
    }
}

#[test]
fn a_file_without_a_tag_has_15_samples() {
    let b = file(b"\0\0\0\0", 15, &[1, 0], 2);
    assert!(b.len() >= 1084);
    let m = deserialize(&b).unwrap();
    assert_eq!(m.samples.len(), 15);
    assert_eq!(m.sequence, vec![1, 0]);
    assert_eq!(m.patterns.len(), 2);
    assert_eq!(m.samples[0].data, vec![10, -10, 20, -20]);
}

#[test]
fn a_file_shorter_than_its_tag_is_truncated() {
    assert_eq!(deserialize(&[]), Err(ParseError::Truncated));
    assert_eq!(deserialize(&vec![0u8; 1083]), Err(ParseError::Truncated));
    let b = file(b"M.K.", 31, &[0], 1);
    assert_eq!(deserialize(&b[..1083]), Err(ParseError::Truncated));
}

#[test]
fn a_file_shorter_than_its_header_says_is_truncated() {
    let b = file(b"M.K.", 31, &[0, 1], 2);
    assert!(deserialize(&b).is_ok());
    assert_eq!(deserialize(&b[..b.len() - 1]), Err(ParseError::Truncated));
    assert_eq!(deserialize(&b[..1084 + 1024]), Err(ParseError::Truncated));
    assert_eq!(deserialize(&b[..1084]), Err(ParseError::Truncated));
    let mut longer = b.clone();
    longer.extend_from_slice(&[1, 2, 3]);
    assert_eq!(deserialize(&longer), deserialize(&b));
}

#[test]
fn an_empty_play_order_is_refused() {
    let b = file(b"M.K.", 31, &[], 1);
    assert_eq!(deserialize(&b), Err(ParseError::EmptySequence));
}

#[test]
fn a_play_order_that_reaches_behind_the_tag_is_truncated() {
    let mut b = file(b"M.K.", 31, &[0], 63);
    b[950] = 133;
    assert_eq!(deserialize(&b), Err(ParseError::Truncated));
    // up to 132 entries the play order runs into the padding and the tag
    b[950] = 132;
    let m = deserialize(&b).unwrap();
    assert_eq!(m.sequence.len(), 132);
    assert_eq!(&m.sequence[128..], b"M.K.");
    assert_eq!(m.patterns.len(), 63);
}

#[test]
fn a_sample_loops_when_its_loop_is_longer_than_two() {
    let mut s = empty_sample(1000, vec![]);
    s.repeat_offset = 800;
    s.repeat_length = 200;
    assert_eq!(s.loop_region(), Some((800, 1000)));
    s.repeat_length = 3;
    assert_eq!(s.loop_region(), Some((800, 803)));
    s.repeat_length = 2;
    assert_eq!(s.loop_region(), None);
    s.repeat_length = 0;
    assert_eq!(s.loop_region(), None);
    s.repeat_offset = u32::MAX;
    s.repeat_length = u32::MAX;
    assert_eq!(s.loop_region(), Some((u32::MAX, 2 * (u32::MAX as u64))));
}
