//! The ProTracker playback engine: a player walks through a song tick by
//! tick and says, for every tick, what its channels sound.
//!
//! The player keeps the part of the playback that is counted in whole
//! numbers: the place in the song, the speeds, and for every channel the
//! instrument, the volume and the pitch with its slide. The place within a
//! waveform is a fraction, and is kept by whoever renders the audio; the
//! player says when a channel starts its waveform anew.

pub mod model;

use super::{InitError, OutputFormat};
use crate::format::protracker::{ChannelData, Effect, EffectType, ModuleView, ProtrackerMod};
use model::{
    advanced, after_division, after_tick, channel_after_cell, channel_after_tick, channel_valid,
    channels_of, cell_playable, current_row, finished, frames_per_tick, fresh_note, initial_state,
    lemma_speed_bounds, pattern_playable, playable, restarted, restarts,
    silent_channel, sounding_value, speed_after_cells, state_valid, tick, volume_of, ChannelState,
    StateView,
};
use vstd::prelude::*;

verus! {

/// The clock of the machine whose playback is reproduced.
#[derive(Clone, Copy, Debug, PartialEq, Eq, Structural)]
pub enum ClockFreq {
    Pal,
    Ntsc,
}

/// The counters and channels of a player.
struct PlayerState {
    sequence_pos: usize,
    cur_pattern: usize,
    cur_division: usize,
    cur_tick: u8,
    ticks_per_min: u16,
    ticks_per_div: u8,
    channels: Vec<ChannelState>,
}

impl View for PlayerState {
    type V = StateView;

    closed spec fn view(&self) -> StateView {
        StateView {
            sequence_pos: self.sequence_pos as int,
            cur_pattern: self.cur_pattern as int,
            cur_division: self.cur_division as int,
            cur_tick: self.cur_tick as int,
            ticks_per_min: self.ticks_per_min as int,
            ticks_per_div: self.ticks_per_div as int,
            channels: self.channels@,
        }
    }
}

impl ChannelState {
    /// A channel on which nothing has been played.
    pub fn default() -> (r: ChannelState)
        ensures
            r == silent_channel(),
    {
        ChannelState {
            sample_no: None,
            volume: 0,
            volume_diff: 0,
            period: 0,
            period_diff: 0,
            period_target: None,
        }
    }

    /// Starts a new note on the channel: the slide and its target are gone.
    pub fn reset(&mut self, sample_no: u8, volume: u16, period: u16)
        ensures
            *final(self) == fresh_note(sample_no, volume, period),
    {
        self.sample_no = Some(sample_no);
        self.volume = volume;
        self.volume_diff = 0;
        self.period = period;
        self.period_diff = 0;
        self.period_target = None;
    }

    /// Moves the period by its step for one tick.
    pub fn slide(&mut self)
        ensures
            *final(self) == channel_after_tick(*old(self)),
    {
        let moved: i32 = self.period as i32 + self.period_diff as i32;
        match self.period_target {
            Some(period_target) => {
                if self.period_diff < 0 {
                    if moved >= period_target as i32 {
                        self.period = moved as u16;
                    } else {
                        self.period = period_target;
                    }
                } else {
                    if moved <= period_target as i32 {
                        self.period = moved as u16;
                    } else {
                        self.period = period_target;
                    }
                }
            },
            None => {
                if moved < 0 {
                    self.period = (moved + 65536) as u16;
                } else if moved > 65535 {
                    self.period = (moved - 65536) as u16;
                } else {
                    self.period = moved as u16;
                }
            },
        }
    }
}

impl PlayerState {
    /// The state in which a player starts, but for the pattern, which is
    /// the caller's to set.
    fn default(num_channels: usize) -> (r: PlayerState)
        ensures
            r.sequence_pos == 0,
            r.cur_pattern == 0,
            r.cur_division == 0,
            r.cur_tick == 0,
            r.ticks_per_min == 750,
            r.ticks_per_div == 6,
            r.channels@ == Seq::new(num_channels as nat, |i: int| silent_channel()),
    {
        let mut channels: Vec<ChannelState> = Vec::new();
        let mut i: usize = 0;
        while i < num_channels
            invariant
                i <= num_channels,
                channels@.len() == i,
                forall|k: int| 0 <= k < i ==> channels@[k] == silent_channel(),
            decreases num_channels - i,
        {
            channels.push(ChannelState::default());
            i = i + 1;
        }
        PlayerState {
            sequence_pos: 0,
            cur_pattern: 0,
            cur_division: 0,
            cur_tick: 0,
            ticks_per_min: 750,
            ticks_per_div: 6,
            channels,
        }
    }
}

/// Applies the cells of the current row to the channels and the speeds.
/// Says for each channel whether its note starts anew.
fn update_division(m: &ProtrackerMod, st: &mut PlayerState) -> (r: Vec<bool>)
    requires
        playable(m@),
        state_valid(m@, old(st)@),
        !finished(m@, old(st)@),
        old(st).cur_tick == 0,
    ensures
        final(st)@ == after_division(m@, old(st)@),
        state_valid(m@, final(st)@),
        r@ == restarted(m@, old(st)@),
{
    let ghost row = current_row(m@, st@);
    let ghost before = st@;
    let pattern = &m.patterns[st.cur_pattern];
    let division = &pattern.divisions[st.cur_division];

    let count = st.channels.len();
    let mut flags = no_restarts(count);
    let cells = division.channel_data.len();
    let mut idx: usize = 0;
    while idx < cells
        invariant
            idx <= cells,
            cells == row.len(),
            division.channel_data@ == row,
            before == old(st)@,
            row == current_row(m@, before),
            cells <= count,
            count == st.channels@.len(),
            count == before.channels.len(),
            count == channels_of(m@),
            st.sequence_pos == before.sequence_pos,
            st.cur_pattern == before.cur_pattern,
            st.cur_division == before.cur_division,
            st.cur_tick == before.cur_tick,
            (st.ticks_per_div as int, st.ticks_per_min as int) == speed_after_cells(
                before.ticks_per_div,
                before.ticks_per_min,
                row,
                idx as int,
            ),
            1 <= before.ticks_per_div <= 32,
            750 <= before.ticks_per_min <= 6120,
            forall|c: int| 0 <= c < row.len() ==> cell_playable(m@, #[trigger] row[c]),
            forall|i: int|
                0 <= i < idx ==> #[trigger] st.channels@[i] == channel_after_cell(
                    before.channels[i],
                    row[i],
                    volume_of(m@, row[i]),
                ),
            forall|i: int| idx <= i < count ==> #[trigger] st.channels@[i] == before.channels[i],
            forall|i: int| 0 <= i < count ==> channel_valid(m@, #[trigger] st.channels@[i]),
            flags@.len() == count,
            forall|i: int| 0 <= i < idx ==> flags@[i] == restarts(row[i]),
            forall|i: int| idx <= i < count ==> !flags@[i],
            m@.samples.len() == m.samples@.len(),
            forall|i: int| 0 <= i < m.samples@.len() ==> #[trigger] m@.samples[i] == m.samples@[i]@,
        decreases cells - idx,
    {
        let cd: ChannelData = division.channel_data[idx];
        proof {
            lemma_speed_bounds(before.ticks_per_div, before.ticks_per_min, row, idx as int + 1);
        }
        if cd.sample > 0 {
            // new note
            let mut cs: ChannelState = st.channels[idx];
            let vol: u16 = m.samples[cd.sample as usize - 1].volume as u16;

            // handle effects
            match cd.effect {
                Effect::Normal { effect_type, param1, param2 } => {
                    match effect_type {
                        EffectType::SlideUp => {
                            cs.reset(cd.sample, vol, cd.period);
                            cs.period_diff = (param1 * 16 + param2) as i16;
                            flags.set(idx, true);
                        },
                        EffectType::SlideDown => {
                            cs.reset(cd.sample, vol, cd.period);
                            cs.period_diff = 0 - (param1 * 16 + param2) as i16;
                            flags.set(idx, true);
                        },
                        EffectType::SlideToNote => {
                            // the note that sounds goes on, towards the new one
                            cs.period_target = Some(cd.period);
                            if cd.period < cs.period {
                                cs.period_diff = 0 - (param1 * 16 + param2) as i16;
                            } else {
                                cs.period_diff = (param1 * 16 + param2) as i16;
                            }
                        },
                        EffectType::SetVolume => {
                            cs.reset(cd.sample, vol, cd.period);
                            cs.volume = (param1 * 16 + param2) as u16;
                            flags.set(idx, true);
                        },
                        EffectType::SetSpeed => {
                            let speed_val: u8 = param1 * 16 + param2;
                            if speed_val == 0 {
                                // ignore
                            } else if speed_val >= 1 && speed_val <= 32 {
                                st.ticks_per_div = speed_val;
                            } else {
                                st.ticks_per_min = 4 * 6 * speed_val as u16;
                            }
                        },
                        _ => {
                            cs.reset(cd.sample, vol, cd.period);
                            flags.set(idx, true);
                        },
                    }
                },
                Effect::Extended { effect_type: _, param: _ } => {
                    cs.reset(cd.sample, vol, cd.period);
                    flags.set(idx, true);
                },
            }
            st.channels.set(idx, cs);
        }
        idx = idx + 1;
    }
    proof {
        lemma_speed_bounds(before.ticks_per_div, before.ticks_per_min, row, cells as int);
        assert(st@.channels =~= after_division(m@, before).channels);
    }
    flags
}

/// Moves the period of every channel by its step.
fn update_tick(st: &mut PlayerState)
    ensures
        final(st)@ == after_tick(old(st)@),
{
    let ghost before = st@;
    let count = st.channels.len();
    let mut i: usize = 0;
    while i < count
        invariant
            i <= count,
            count == st.channels@.len(),
            count == before.channels.len(),
            st.sequence_pos == before.sequence_pos,
            st.cur_pattern == before.cur_pattern,
            st.cur_division == before.cur_division,
            st.cur_tick == before.cur_tick,
            st.ticks_per_div == before.ticks_per_div,
            st.ticks_per_min == before.ticks_per_min,
            forall|k: int|
                0 <= k < i ==> #[trigger] st.channels@[k] == channel_after_tick(before.channels[k]),
            forall|k: int| i <= k < count ==> #[trigger] st.channels@[k] == before.channels[k],
        decreases count - i,
    {
        let mut channel: ChannelState = st.channels[i];
        channel.slide();
        st.channels.set(i, channel);
        i = i + 1;
    }
    assert(st@.channels =~= after_tick(before).channels);
}

/// Moves the counters on by one tick.
fn advance(m: &ProtrackerMod, st: &mut PlayerState)
    requires
        state_valid(m@, old(st)@),
        !finished(m@, old(st)@),
    ensures
        final(st)@ == advanced(m@, old(st)@),
        state_valid(m@, final(st)@),
{
    let ghost (t, d): (int, int) = (st.cur_tick as int, st.ticks_per_div as int);
    let entries = m.sequence.len();
    assert((t + 1) % d == if t + 1 < d {
        t + 1
    } else {
        0
    }) by (nonlinear_arith)
        requires
            0 <= t < d,
    ;
    st.cur_tick = (st.cur_tick + 1) % st.ticks_per_div;

    if st.cur_tick == 0 {
        // advance division
        st.cur_division = (st.cur_division + 1) % 64;
        if st.cur_division == 0 {
            // advance sequence position
            st.sequence_pos = st.sequence_pos + 1;
            if st.sequence_pos < entries {
                st.cur_pattern = m.sequence[st.sequence_pos] as usize;
            }
        }
    }
}

/// The number of frames that one tick lasts.
fn samples_per_tick(sample_rate: u32, ticks_per_min: u16) -> (r: usize)
    requires
        750 <= ticks_per_min,
    ensures
        r == frames_per_tick(sample_rate as int, ticks_per_min as int),
        r <= 0x1fff_ffff,
{
    let frames: u64 = sample_rate as u64 * 60 / ticks_per_min as u64;
    assert(frames <= 0x1fff_ffff) by (nonlinear_arith)
        requires
            frames == (sample_rate as int * 60) / (ticks_per_min as int),
            750 <= ticks_per_min,
            sample_rate <= 0xffff_ffff,
    ;
    frames as usize
}

/// What one tick asks of the renderer.
#[derive(Clone, Debug, PartialEq, Eq)]
pub struct Tick {
    /// The number of frames that the tick lasts.
    pub frames: usize,
    /// The number of samples in the tick's audio: one for every frame and
    /// output channel.
    pub samples: usize,
    /// For every channel, whether its note starts anew: the renderer then
    /// goes back to the start of the waveform, and out of its loop.
    pub restarted: Vec<bool>,
}

/// A player of one module.
pub struct ProtrackerPlayer {
    pt_mod: ProtrackerMod,
    clock_freq: ClockFreq,
    output_format: OutputFormat,
    state: PlayerState,
}

impl ProtrackerPlayer {
    /// What holds of every player: its module can be played through, its
    /// state is one that playing leads to, and its output has one channel or
    /// two. `new` makes such a player, and every method keeps it so.
    pub open spec fn wf(&self) -> bool {
        &&& playable(self.module())
        &&& state_valid(self.module(), self.state())
        &&& (self.format().channel_count == 1 || self.format().channel_count == 2)
    }

    /// The module that is played.
    pub closed spec fn module(&self) -> ModuleView {
        self.pt_mod@
    }

    /// The state of the playback.
    pub closed spec fn state(&self) -> StateView {
        self.state@
    }

    /// The format of the output.
    pub closed spec fn format(&self) -> OutputFormat {
        self.output_format
    }

    /// The clock that sets the pitch.
    pub closed spec fn clock(&self) -> ClockFreq {
        self.clock_freq
    }

    /// A player at the start of the song.
    ///
    /// Only one or two output channels are accepted. The module must be one
    /// that can be played through: `is_playable` tells.
    pub fn new(pt_mod: ProtrackerMod, clock_freq: ClockFreq, output_format: OutputFormat) -> (r:
        Result<ProtrackerPlayer, InitError>)
        requires
            playable(pt_mod@),
        ensures
            r is Ok <==> output_format.channel_count == 1 || output_format.channel_count == 2,
            r matches Err(e) ==> e == InitError::ChannelCountError,
            r matches Ok(p) ==> p.wf() && p.module() == pt_mod@ && p.state() == initial_state(
                pt_mod@,
            ) && p.format() == output_format && p.clock() == clock_freq,
    {
        if output_format.channel_count < 1 || output_format.channel_count > 2 {
            Err(InitError::ChannelCountError)
        } else {
            let num_channels = pt_mod.patterns[0].divisions[0].channel_data.len();
            let start_pattern = pt_mod.sequence[0];
            let mut state = PlayerState::default(num_channels);
            state.cur_pattern = start_pattern as usize;
            let player = ProtrackerPlayer { pt_mod, clock_freq, output_format, state };
            Ok(player)
        }
    }

    /// Whether the song is over.
    pub fn is_finished(&self) -> (r: bool)
        ensures
            r == finished(self.module(), self.state()),
    {
        self.state.sequence_pos >= self.pt_mod.sequence.len()
    }

    /// Plays the next tick.
    ///
    /// At the first tick of a row the cells of the row are applied; then
    /// every channel's pitch moves by its step; then the counters move on.
    /// The audio of the tick is that of the channels as they are after the
    /// call. At the end of the song nothing changes and `None` is returned,
    /// at this call and at every later one.
    pub fn next_tick(&mut self) -> (r: Option<Tick>)
        requires
            old(self).wf(),
        ensures
            final(self).wf(),
            final(self).module() == old(self).module(),
            final(self).format() == old(self).format(),
            final(self).clock() == old(self).clock(),
            final(self).state() == tick(old(self).module(), old(self).state()),
            r is None <==> finished(old(self).module(), old(self).state()),
            r matches Some(t) ==> {
                &&& t.frames == frames_per_tick(
                    old(self).format().sample_rate as int,
                    final(self).state().ticks_per_min,
                )
                &&& t.samples == t.frames * old(self).format().channel_count
                &&& t.restarted@ == restarted(old(self).module(), old(self).state())
            },
    {
        if self.state.sequence_pos >= self.pt_mod.sequence.len() {
            return None;
        }
        let restarted = if self.state.cur_tick == 0 {
            // new division: parse notes and effects and set parameters
            update_division(&self.pt_mod, &mut self.state)
        } else {
            no_restarts(self.state.channels.len())
        };
        update_tick(&mut self.state);
        let frames = samples_per_tick(self.output_format.sample_rate, self.state.ticks_per_min);
        let output_channels = self.output_format.channel_count as usize;
        assert(output_channels == 1 || output_channels == 2);
        let samples = frames * output_channels;
        advance(&self.pt_mod, &mut self.state);
        Some(Tick { frames, samples, restarted })
    }
}

/// A list that says of none of `count` channels that it starts anew.
fn no_restarts(count: usize) -> (r: Vec<bool>)
    ensures
        r@.len() == count,
        forall|i: int| 0 <= i < count ==> !r@[i],
{
    let mut flags: Vec<bool> = Vec::new();
    let mut k: usize = 0;
    while k < count
        invariant
            k <= count,
            flags@.len() == k,
            forall|i: int| 0 <= i < k ==> !flags@[i],
        decreases count - k,
    {
        flags.push(false);
        k = k + 1;
    }
    flags
}

/// Whether the player can apply a cell.
fn cell_ok(m: &ProtrackerMod, cd: ChannelData) -> (r: bool)
    ensures
        r == cell_playable(m@, cd),
{
    if cd.sample == 0 {
        return true;
    }
    if cd.sample as usize > m.samples.len() {
        return false;
    }
    let sample = &m.samples[cd.sample as usize - 1];
    if sample.data.len() < sample.length as usize {
        return false;
    }
    match cd.effect {
        Effect::Normal { effect_type: _, param1, param2 } => param1 < 16 && param2 < 16,
        Effect::Extended { effect_type: _, param: _ } => true,
    }
}

/// Whether the player can walk through pattern `p` with `channels` channels.
fn pattern_ok(m: &ProtrackerMod, p: usize, channels: usize) -> (r: bool)
    requires
        p < m.patterns@.len(),
        channels == channels_of(m@),
    ensures
        r == pattern_playable(m@, p as int),
{
    let pattern = &m.patterns[p];
    if pattern.divisions.len() < 64 {
        return false;
    }
    let mut d: usize = 0;
    while d < 64
        invariant
            d <= 64,
            p < m.patterns@.len(),
            channels == channels_of(m@),
            *pattern == m.patterns@[p as int],
            pattern.divisions@.len() >= 64,
            m@.patterns[p as int].len() >= 64,
            forall|k: int| 0 <= k < 64 ==> #[trigger] m@.patterns[p as int][k] == pattern.divisions@[k].channel_data@,
            forall|k: int| 0 <= k < d ==> (#[trigger] m@.patterns[p as int][k]).len() <= channels,
            forall|k: int, c: int|
                0 <= k < d && 0 <= c < m@.patterns[p as int][k].len() ==> cell_playable(
                    m@,
                    #[trigger] m@.patterns[p as int][k][c],
                ),
        decreases 64 - d,
    {
        let division = &pattern.divisions[d];
        let ghost row = m@.patterns[p as int][d as int];
        if division.channel_data.len() > channels {
            return false;
        }
        let mut c: usize = 0;
        while c < division.channel_data.len()
            invariant
                c <= division.channel_data@.len(),
                d < 64,
                m@.patterns[p as int].len() >= 64,
                row == division.channel_data@,
                row == m@.patterns[p as int][d as int],
                forall|j: int| 0 <= j < c ==> cell_playable(m@, #[trigger] row[j]),
            decreases division.channel_data@.len() - c,
        {
            if !cell_ok(m, division.channel_data[c]) {
                return false;
            }
            c = c + 1;
        }
        d = d + 1;
    }
    true
}

impl ProtrackerMod {
    /// Whether the module can be played through: what `ProtrackerPlayer::new`
    /// asks of its module.
    pub fn is_playable(&self) -> (r: bool)
        ensures
            r == playable(self@),
    {
        if self.patterns.len() == 0 || self.patterns[0].divisions.len() == 0
            || self.sequence.len() == 0 {
            return false;
        }
        let channels = self.patterns[0].divisions[0].channel_data.len();
        let mut i: usize = 0;
        while i < self.sequence.len()
            invariant
                i <= self.sequence@.len(),
                channels == channels_of(self@),
                self@.sequence == self.sequence@,
                self@.patterns.len() == self.patterns@.len(),
                forall|k: int|
                    0 <= k < i ==> (#[trigger] self@.sequence[k]) < self@.patterns.len()
                        && pattern_playable(self@, self@.sequence[k] as int),
            decreases self.sequence@.len() - i,
        {
            let p = self.sequence[i] as usize;
            if p >= self.patterns.len() {
                return false;
            }
            if !pattern_ok(self, p, channels) {
                return false;
            }
            i = i + 1;
        }
        true
    }
}

impl ProtrackerPlayer {
    /// The module that is played.
    pub fn pt_mod(&self) -> (r: &ProtrackerMod)
        ensures
            r@ == self.module(),
    {
        &self.pt_mod
    }

    /// The clock that sets the pitch.
    pub fn clock_freq(&self) -> (r: ClockFreq)
        ensures
            r == self.clock(),
    {
        self.clock_freq
    }

    /// The format of the output.
    pub fn output_format(&self) -> (r: OutputFormat)
        ensures
            r == self.format(),
    {
        self.output_format
    }

    /// How many entries of the play order are done.
    pub fn sequence_pos(&self) -> (r: usize)
        ensures
            r == self.state().sequence_pos,
    {
        self.state.sequence_pos
    }

    /// The pattern that is being played.
    pub fn cur_pattern(&self) -> (r: usize)
        ensures
            r == self.state().cur_pattern,
    {
        self.state.cur_pattern
    }

    /// The row within the pattern.
    pub fn cur_division(&self) -> (r: usize)
        ensures
            r == self.state().cur_division,
    {
        self.state.cur_division
    }

    /// The tick within the row.
    pub fn cur_tick(&self) -> (r: u8)
        ensures
            r == self.state().cur_tick,
    {
        self.state.cur_tick
    }

    /// The tempo, in ticks per minute.
    pub fn ticks_per_min(&self) -> (r: u16)
        ensures
            r == self.state().ticks_per_min,
    {
        self.state.ticks_per_min
    }

    /// The number of ticks in a row.
    pub fn ticks_per_div(&self) -> (r: u8)
        ensures
            r == self.state().ticks_per_div,
    {
        self.state.ticks_per_div
    }

    /// The number of playback channels.
    pub fn num_channels(&self) -> (r: usize)
        ensures
            r == self.state().channels.len(),
    {
        self.state.channels.len()
    }

    /// The state of a channel.
    pub fn channel(&self, channel_no: usize) -> (r: ChannelState)
        requires
            channel_no < self.state().channels.len(),
        ensures
            r == self.state().channels[channel_no as int],
    {
        self.state.channels[channel_no]
    }

    /// What a channel sounds at place `index` of its waveform: the value of
    /// its sample there, times the channel's volume. A channel without a
    /// sample is silent, and so is every place behind the end of the
    /// waveform.
    pub fn sample_value(&self, channel_no: usize, index: usize) -> (r: i32)
        requires
            self.wf(),
            channel_no < self.state().channels.len(),
        ensures
            r == sounding_value(self.module(), self.state().channels[channel_no as int], index as int),
    {
        let channel = &self.state.channels[channel_no];
        match channel.sample_no {
            None => 0,
            Some(no) => {
                let sample = &self.pt_mod.samples[no as usize - 1];
                if index < sample.length as usize {
                    let value: i32 = sample.data[index] as i32;
                    let volume: i32 = channel.volume as i32;
                    assert(-128 * 65535 <= value * volume <= 127 * 65535) by (nonlinear_arith)
                        requires
                            -128 <= value <= 127,
                            0 <= volume <= 65535,
                    ;
                    value * volume
                } else {
                    0
                }
            },
        }
    }
}

/// Whether a playback channel sounds on the left side of a stereo output:
/// of every four channels the first and the last do, the two between them
/// sound on the right.
pub fn pans_left(channel_no: usize) -> (r: bool)
    ensures
        r == (channel_no % 4 == 0 || channel_no % 4 == 3),
{
    channel_no % 4 == 0 || channel_no % 4 == 3
}

/// The number by which the mix of `num_channels` playback channels is
/// divided: half their number for a mono output, a quarter of it for any
/// other, each rounded down.
pub fn mix_divisor(num_channels: usize, output_channels: u16) -> (r: usize)
    ensures
        output_channels == 1 ==> r == num_channels / 2,
        output_channels != 1 ==> r == num_channels / 4,
{
    if output_channels == 1 {
        num_channels / 2
    } else {
        num_channels / 4
    }
}

} // verus!
