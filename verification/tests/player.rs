use trackermod::format::protracker::{
    ChannelData, Division, Effect, EffectType, EffectTypeExtended, Pattern, ProtrackerMod, Sample,
};
use trackermod::player::protracker::model::ChannelState;
use trackermod::player::protracker::{mix_divisor, pans_left, ClockFreq, ProtrackerPlayer};
use trackermod::player::{InitError, OutputFormat, SampleFormat};

fn rest() -> ChannelData {
    ChannelData {
        sample: 0,
        period: 0,
        effect: Effect::Normal { effect_type: EffectType::Arpeggio, param1: 0, param2: 0 },
    }
}

fn note(sample: u8, period: u16, kind: EffectType, x: u8, y: u8) -> ChannelData {
    ChannelData {
        sample,
        period,
        effect: Effect::Normal { effect_type: kind, param1: x, param2: y },
    }
}

fn pattern() -> Pattern {
    Pattern {
        divisions: (0..64).map(|_| Division { channel_data: vec![rest(); 4] }).collect(),
    }
}

fn lead() -> Sample {
    Sample {
        name: "lead".to_owned(),
        finetune: 0,
        length: 4,
        volume: 48,
        repeat_offset: 0,
        repeat_length: 2,
        data: vec![10, -10, 20, -20],
    }
}

fn song(sequence: Vec<u8>, patterns: usize) -> ProtrackerMod {
    ProtrackerMod {
        title: "song".to_owned(),
        samples: vec![lead()],
        sequence,
        patterns: (0..patterns).map(|_| pattern()).collect(),
    }
}

fn stereo() -> OutputFormat {
    OutputFormat { sample_rate: 48000, sample_format: SampleFormat::I16, channel_count: 2 }
}

fn player(m: ProtrackerMod) -> ProtrackerPlayer {
    assert!(m.is_playable());
    ProtrackerPlayer::new(m, ClockFreq::Pal, stereo()).unwrap()
}

/// A player of a song whose first row holds `cd` on the first channel.
fn player_with(cd: ChannelData) -> ProtrackerPlayer {
    let mut m = song(vec![0], 1);
    m.patterns[0].divisions[0].channel_data[0] = cd;
    player(m)
}

#[test]
fn only_mono_and_stereo_are_accepted() {
    for (count, ok) in [(0u16, false), (1, true), (2, true), (3, false), (65535, false)] {
        let format =
            OutputFormat { sample_rate: 44100, sample_format: SampleFormat::F32, channel_count: count };
        let got = ProtrackerPlayer::new(song(vec![0], 1), ClockFreq::Ntsc, format);
        assert_eq!(got.is_ok(), ok);
        if let Err(e) = got {
            assert_eq!(e, InitError::ChannelCountError);
        }
    }
}

#[test]
fn a_player_starts_at_the_first_entry_of_the_play_order() {
    let p = player(song(vec![2, 0, 1], 3));
    assert_eq!(p.sequence_pos(), 0);
    assert_eq!(p.cur_pattern(), 2);
    assert_eq!(p.cur_division(), 0);
    assert_eq!(p.cur_tick(), 0);
    assert_eq!(p.ticks_per_div(), 6);
    assert_eq!(p.ticks_per_min(), 750);
    assert_eq!(p.num_channels(), 4);
    assert!(!p.is_finished());
    assert_eq!(p.clock_freq(), ClockFreq::Pal);
    assert_eq!(p.output_format(), stereo());
    assert_eq!(p.pt_mod().sequence, vec![2, 0, 1]);
    for c in 0..4 {
        assert_eq!(
            p.channel(c),
            ChannelState {
                sample_no: None,
                volume: 0,
                volume_diff: 0,
                period: 0,
                period_diff: 0,
                period_target: None,
            }
        );
    }
}

#[test]
fn a_speed_up_to_32_sets_the_ticks_in_a_row() {
    let mut p = player_with(note(1, 428, EffectType::SetSpeed, 1, 4));
    p.next_tick().unwrap();
    assert_eq!(p.ticks_per_div(), 20);
    assert_eq!(p.ticks_per_min(), 750);
    let mut p = player_with(note(1, 428, EffectType::SetSpeed, 2, 0));
    p.next_tick().unwrap();
    assert_eq!((p.ticks_per_div(), p.ticks_per_min()), (32, 750));
    let mut p = player_with(note(1, 428, EffectType::SetSpeed, 0, 1));
    p.next_tick().unwrap();
    assert_eq!((p.ticks_per_div(), p.ticks_per_min()), (1, 750));
    // with one tick in a row, the tick was the row's last
    assert_eq!((p.cur_division(), p.cur_tick()), (1, 0));
}

#[test]
fn a_speed_above_32_sets_the_tempo() {
    let mut p = player_with(note(1, 428, EffectType::SetSpeed, 7, 13));
    let tick = p.next_tick().unwrap();
    assert_eq!(p.ticks_per_min(), 3000);
    assert_eq!(p.ticks_per_div(), 6);
    assert_eq!(tick.frames, 960);
    let mut p = player_with(note(1, 428, EffectType::SetSpeed, 2, 1));
    p.next_tick().unwrap();
    assert_eq!((p.ticks_per_div(), p.ticks_per_min()), (6, 792));
    let mut p = player_with(note(1, 428, EffectType::SetSpeed, 15, 15));
    p.next_tick().unwrap();
    assert_eq!((p.ticks_per_div(), p.ticks_per_min()), (6, 6120));
}

#[test]
fn a_speed_of_zero_changes_nothing() {
    let mut p = player_with(note(1, 428, EffectType::SetSpeed, 0, 0));
    p.next_tick().unwrap();
    assert_eq!(p.ticks_per_div(), 6);
    assert_eq!(p.ticks_per_min(), 750);
}

#[test]
fn a_speed_effect_leaves_the_channel_alone() {
    let mut p = player_with(note(1, 428, EffectType::SetSpeed, 1, 4));
    let tick = p.next_tick().unwrap();
    assert_eq!(tick.restarted, vec![false; 4]);
    assert_eq!(p.channel(0).sample_no, None);
    assert_eq!(p.channel(0).period, 0);
}

#[test]
fn a_cell_without_a_sample_is_passed_over() {
    let mut p = player_with(note(0, 428, EffectType::SetSpeed, 1, 4));
    let tick = p.next_tick().unwrap();
    assert_eq!((p.ticks_per_div(), p.ticks_per_min()), (6, 750));
    assert_eq!(tick.restarted, vec![false; 4]);
    assert_eq!(p.channel(0).sample_no, None);
}

#[test]
fn later_speed_effects_of_a_row_come_last() {
    let mut m = song(vec![0], 1);
    m.patterns[0].divisions[0].channel_data[0] = note(1, 428, EffectType::SetSpeed, 0, 3);
    m.patterns[0].divisions[0].channel_data[1] = note(1, 428, EffectType::SetSpeed, 6, 4);
    m.patterns[0].divisions[0].channel_data[3] = note(1, 428, EffectType::SetSpeed, 0, 9);
    let mut p = player(m);
    p.next_tick().unwrap();
    assert_eq!((p.ticks_per_div(), p.ticks_per_min()), (9, 2400));
}

#[test]
fn a_song_ends_after_64_rows_for_every_entry() {
    for n in 1..=3usize {
        let mut p = player(song(vec![0; n], 1));
        let mut ticks = 0;
        let mut rows = 0;
        while let Some(_) = p.next_tick() {
            ticks += 1;
            if p.cur_tick() == 0 {
                rows += 1;
            }
            assert!(ticks <= 64 * 32 * n);
        }
        assert_eq!(rows, 64 * n);
        assert_eq!(ticks, 6 * 64 * n);
        assert!(p.is_finished());
        assert_eq!(p.sequence_pos(), n);
        for _ in 0..10 {
            assert_eq!(p.next_tick(), None);
            assert_eq!(p.sequence_pos(), n);
            assert_eq!((p.cur_division(), p.cur_tick()), (0, 0));
        }
    }
}

#[test]
fn the_counters_walk_through_ticks_rows_and_the_play_order() {
    let mut p = player(song(vec![1, 0], 2));
    for row in 0..64 {
        for tick in 0..6 {
            assert_eq!((p.sequence_pos(), p.cur_pattern()), (0, 1));
            assert_eq!((p.cur_division(), p.cur_tick()), (row, tick));
            p.next_tick().unwrap();
        }
    }
    assert_eq!((p.sequence_pos(), p.cur_pattern()), (1, 0));
    assert_eq!((p.cur_division(), p.cur_tick()), (0, 0));
}

#[test]
fn a_plain_note_starts_the_sample_anew() {
    let mut p = player_with(note(1, 428, EffectType::Arpeggio, 3, 7));
    let tick = p.next_tick().unwrap();
    assert_eq!(tick.restarted, vec![true, false, false, false]);
    assert_eq!(
        p.channel(0),
        ChannelState {
            sample_no: Some(1),
            volume: 48,
            volume_diff: 0,
            period: 428,
            period_diff: 0,
            period_target: None,
        }
    );
    let tick = p.next_tick().unwrap();
    assert_eq!(tick.restarted, vec![false; 4]);
    assert_eq!(p.channel(0).period, 428);
}

#[test]
fn an_extended_effect_starts_the_sample_anew() {
    let mut p = player_with(ChannelData {
        sample: 1,
        period: 300,
        effect: Effect::Extended { effect_type: EffectTypeExtended::DelayPattern, param: 200 },
    });
    let tick = p.next_tick().unwrap();
    assert_eq!(tick.restarted, vec![true, false, false, false]);
    assert_eq!(p.channel(0).period, 300);
    assert_eq!(p.channel(0).volume, 48);
    assert_eq!(p.channel(0).period_diff, 0);
}

#[test]
fn a_slide_up_raises_the_period_at_every_tick() {
    let mut p = player_with(note(1, 400, EffectType::SlideUp, 1, 2));
    let tick = p.next_tick().unwrap();
    assert_eq!(tick.restarted[0], true);
    assert_eq!(p.channel(0).period_diff, 18);
    assert_eq!(p.channel(0).period, 418);
    for k in 2..=12u16 {
        p.next_tick().unwrap();
        assert_eq!(p.channel(0).period, 400 + 18 * k);
    }
}

#[test]
fn a_slide_down_lowers_the_period_at_every_tick() {
    let mut p = player_with(note(1, 400, EffectType::SlideDown, 0, 5));
    p.next_tick().unwrap();
    assert_eq!(p.channel(0).period_diff, -5);
    assert_eq!(p.channel(0).period, 395);
    p.next_tick().unwrap();
    assert_eq!(p.channel(0).period, 390);
}

#[test]
fn a_period_without_a_target_wraps_around() {
    let mut p = player_with(note(1, 3, EffectType::SlideDown, 0, 5));
    p.next_tick().unwrap();
    assert_eq!(p.channel(0).period, 65534);
    p.next_tick().unwrap();
    assert_eq!(p.channel(0).period, 65529);
    let mut p = player_with(note(1, 65530, EffectType::SlideUp, 0, 10));
    p.next_tick().unwrap();
    assert_eq!(p.channel(0).period, 4);
}

#[test]
fn a_slide_to_a_lower_note_stops_at_the_note() {
    let mut m = song(vec![0], 1);
    m.patterns[0].divisions[0].channel_data[2] = note(1, 400, EffectType::Arpeggio, 0, 0);
    m.patterns[0].divisions[1].channel_data[2] = note(1, 380, EffectType::SlideToNote, 0, 8);
    let mut p = player(m);
    for _ in 0..6 {
        p.next_tick().unwrap();
    }
    let tick = p.next_tick().unwrap();
    assert_eq!(tick.restarted, vec![false; 4]);
    assert_eq!(
        p.channel(2),
        ChannelState {
            sample_no: Some(1),
            volume: 48,
            volume_diff: 0,
            period: 392,
            period_diff: -8,
            period_target: Some(380),
        }
    );
    p.next_tick().unwrap();
    assert_eq!(p.channel(2).period, 384);
    p.next_tick().unwrap();
    assert_eq!(p.channel(2).period, 380);
    p.next_tick().unwrap();
    assert_eq!(p.channel(2).period, 380);
}

#[test]
fn a_slide_to_a_higher_note_stops_at_the_note() {
    let mut m = song(vec![0], 1);
    m.patterns[0].divisions[0].channel_data[0] = note(1, 400, EffectType::Arpeggio, 0, 0);
    m.patterns[0].divisions[1].channel_data[0] = note(1, 410, EffectType::SlideToNote, 0, 4);
    let mut p = player(m);
    for _ in 0..6 {
        p.next_tick().unwrap();
    }
    let mut seen = vec![];
    for _ in 0..4 {
        p.next_tick().unwrap();
        seen.push(p.channel(0).period);
    }
    assert_eq!(seen, vec![404, 408, 410, 410]);
    assert_eq!(p.channel(0).period_diff, 4);
}

#[test]
fn a_slide_below_zero_stops_at_its_target() {
    let mut m = song(vec![0], 1);
    m.patterns[0].divisions[0].channel_data[0] = note(1, 100, EffectType::Arpeggio, 0, 0);
    m.patterns[0].divisions[1].channel_data[0] = note(1, 50, EffectType::SlideToNote, 15, 15);
    let mut p = player(m);
    for _ in 0..7 {
        p.next_tick().unwrap();
    }
    assert_eq!(p.channel(0).period_diff, -255);
    assert_eq!(p.channel(0).period, 50);
}

#[test]
fn a_volume_effect_sets_the_volume() {
    let mut p = player_with(note(1, 428, EffectType::SetVolume, 2, 1));
    let tick = p.next_tick().unwrap();
    assert_eq!(tick.restarted[0], true);
    assert_eq!(p.channel(0).volume, 33);
    assert_eq!(p.channel(0).period, 428);
    assert_eq!(p.channel(0).sample_no, Some(1));
}

#[test]
fn the_frames_of_a_tick_follow_the_tempo() {
    for (rate, frames) in [(48000u32, 3840usize), (44100, 3528), (8000, 640), (11025, 882), (1, 0)] {
        let format = OutputFormat { sample_rate: rate, sample_format: SampleFormat::U16, channel_count: 1 };
        let mut p = ProtrackerPlayer::new(song(vec![0], 1), ClockFreq::Pal, format).unwrap();
        let tick = p.next_tick().unwrap();
        assert_eq!(tick.frames, frames);
        assert_eq!(tick.samples, frames);
    }
    let mut p = player(song(vec![0], 1));
    let tick = p.next_tick().unwrap();
    assert_eq!((tick.frames, tick.samples), (3840, 7680));
    let format = OutputFormat { sample_rate: u32::MAX, sample_format: SampleFormat::I16, channel_count: 2 };
    let mut p = ProtrackerPlayer::new(song(vec![0], 1), ClockFreq::Pal, format).unwrap();
    let tick = p.next_tick().unwrap();
    assert_eq!((tick.frames, tick.samples), (343597383, 687194766));
}

#[test]
fn the_first_tick_sounds_the_sample_at_its_volume() {
    let mut p = player_with(note(1, 428, EffectType::Arpeggio, 0, 0));
    let tick = p.next_tick().unwrap();
    assert_eq!(tick.frames, (48000.0f64 * 60.0 / 750.0).floor() as usize);
    // a renderer that moves on by one place in every frame
    let advance = 1.0f64;
    let mut offset = 0.0f64;
    let mut heard = vec![];
    for _ in 0..tick.frames {
        heard.push(p.sample_value(0, offset.floor() as usize));
        offset += advance;
    }
    let vol = 48;
    assert_eq!(&heard[..6], &[10 * vol, -10 * vol, 20 * vol, -20 * vol, 0, 0]);
    assert!(heard[4..].iter().all(|v| *v == 0));
    assert_eq!(heard.len(), 3840);
    for c in 1..4 {
        assert_eq!(p.sample_value(c, 0), 0);
    }
}

#[test]
fn the_sounding_value_is_the_sample_times_the_volume() {
    let mut m = song(vec![0], 1);
    m.samples[0].data = vec![-128, 127, 1, 0];
    m.patterns[0].divisions[0].channel_data[1] = note(1, 428, EffectType::SetVolume, 15, 15);
    let mut p = player(m);
    assert_eq!(p.sample_value(1, 0), 0);
    p.next_tick().unwrap();
    assert_eq!(p.sample_value(1, 0), -128 * 255);
    assert_eq!(p.sample_value(1, 1), 127 * 255);
    assert_eq!(p.sample_value(1, 2), 255);
    assert_eq!(p.sample_value(1, 3), 0);
    assert_eq!(p.sample_value(1, 4), 0);
    assert_eq!(p.sample_value(1, usize::MAX), 0);
}

#[test]
fn a_song_needs_a_play_order_and_its_patterns() {
    assert!(song(vec![0], 1).is_playable());
    assert!(song(vec![0, 1, 1, 0], 2).is_playable());
    assert!(!song(vec![], 1).is_playable());
    assert!(!song(vec![0], 0).is_playable());
    assert!(!song(vec![0, 1], 1).is_playable());
    assert!(!song(vec![63], 63).is_playable());
    let mut m = song(vec![0], 1);
    m.patterns[0].divisions.pop();
    assert!(!m.is_playable());
    let mut m = song(vec![0], 1);
    m.patterns[0].divisions.clear();
    assert!(!m.is_playable());
    let mut m = song(vec![0], 1);
    m.patterns[0].divisions[7].channel_data.push(rest());
    assert!(!m.is_playable());
    let mut m = song(vec![0], 1);
    m.patterns[0].divisions[7].channel_data.pop();
    assert!(m.is_playable());
}

#[test]
fn a_song_needs_the_samples_of_its_cells() {
    let mut m = song(vec![0], 1);
    m.patterns[0].divisions[63].channel_data[3] = note(2, 428, EffectType::Arpeggio, 0, 0);
    assert!(!m.is_playable());
    m.samples.push(lead());
    assert!(m.is_playable());
    m.samples[1].data.pop();
    assert!(!m.is_playable());
    m.samples[1].length = 3;
    assert!(m.is_playable());
    m.patterns[0].divisions[63].channel_data[3] = note(2, 428, EffectType::SlideUp, 16, 0);
    assert!(!m.is_playable());
    m.patterns[0].divisions[63].channel_data[3] = note(0, 428, EffectType::SlideUp, 16, 0);
    assert!(m.is_playable());
    m.patterns[0].divisions[63].channel_data[3] = ChannelData {
        sample: 2,
        period: 0,
        effect: Effect::Extended { effect_type: EffectTypeExtended::Unused, param: 255 },
    };
    assert!(m.is_playable());
}

#[test]
fn a_pattern_that_is_never_played_does_not_matter() {
    let mut m = song(vec![0], 2);
    m.patterns[1].divisions.clear();
    assert!(m.is_playable());
    let mut m = song(vec![1], 2);
    m.patterns[0].divisions[5].channel_data[0] = note(200, 428, EffectType::Arpeggio, 0, 0);
    assert!(m.is_playable());
    let mut p = player(m);
    assert_eq!(p.cur_pattern(), 1);
    while let Some(_) = p.next_tick() {}
    assert!(p.is_finished());
}

#[test]
fn the_first_and_last_of_four_channels_sound_left() {
    let left: Vec<bool> = (0..8).map(pans_left).collect();
    assert_eq!(left, vec![true, false, false, true, true, false, false, true]);
}

#[test]
fn the_mix_is_divided_by_a_part_of_the_channels() {
    assert_eq!(mix_divisor(4, 1), 2);
    assert_eq!(mix_divisor(4, 2), 1);
    assert_eq!(mix_divisor(8, 1), 4);
    assert_eq!(mix_divisor(8, 2), 2);
    assert_eq!(mix_divisor(1, 1), 0);
    assert_eq!(mix_divisor(3, 2), 0);
    assert_eq!(mix_divisor(7, 2), 1);
}

#[test]
fn a_channel_can_be_reset_and_slid_by_hand() {
    let mut cs = ChannelState::default();
    cs.reset(3, 20, 500);
    assert_eq!(
        cs,
        ChannelState {
            sample_no: Some(3),
            volume: 20,
            volume_diff: 0,
            period: 500,
            period_diff: 0,
            period_target: None,
        }
    );
    cs.period_diff = -7;
    cs.slide();
    assert_eq!(cs.period, 493);
    cs.period_target = Some(490);
    cs.slide();
    assert_eq!(cs.period, 490);
    cs.period_diff = 0;
    cs.period_target = Some(100);
    cs.slide();
    assert_eq!(cs.period, 100);
    cs.period_target = Some(200);
    cs.slide();
    assert_eq!(cs.period, 100);
}
