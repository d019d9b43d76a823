//! The playback engine as a mathematical model: the state of a player, and
//! what one tick makes of it.
//!
//! A song is walked through in ticks. Several ticks make a row, 64 rows a
//! pattern, and the play order says which pattern comes next. At the first
//! tick of a row the cells of the row are applied to the channels; at every
//! tick the pitch of each channel slides by its step.

use crate::format::protracker::{ChannelData, Effect, EffectType, ModuleView};
use vstd::prelude::*;

verus! {

/// What a channel is playing, and how its pitch moves.
#[derive(Clone, Copy, Debug, PartialEq, Eq)]
pub struct ChannelState {
    /// The instrument, counted from 1; `None` before the first note.
    pub sample_no: Option<u8>,
    pub volume: u16,
    /// Step of the volume per tick. No effect sets it yet.
    pub volume_diff: i16,
    /// The pitch period.
    pub period: u16,
    /// Step of the period per tick.
    pub period_diff: i16,
    /// The period at which a slide to a note stops.
    pub period_target: Option<u16>,
}

/// The state of a player, as mathematical values.
pub struct StateView {
    /// How many entries of the play order are done.
    pub sequence_pos: int,
    /// The pattern that is being played.
    pub cur_pattern: int,
    /// The row within the pattern, 0 to 63.
    pub cur_division: int,
    /// The tick within the row.
    pub cur_tick: int,
    pub ticks_per_min: int,
    pub ticks_per_div: int,
    pub channels: Seq<ChannelState>,
}

/// The number of playback channels of a module: the number of cells in the
/// first row of its first pattern.
pub open spec fn channels_of(m: ModuleView) -> int {
    m.patterns[0][0].len() as int
}

/// A cell that the player can apply: its sample exists and holds all of its
/// waveform, and the parameters of its effect are nibbles. A cell without a
/// sample is passed over, whatever it holds.
pub open spec fn cell_playable(m: ModuleView, cd: ChannelData) -> bool {
    cd.sample > 0 ==> {
        &&& cd.sample <= m.samples.len()
        &&& m.samples[cd.sample - 1].data.len() >= m.samples[cd.sample - 1].length
        &&& cd.effect matches Effect::Normal { param1, param2, .. } ==> param1 < 16 && param2 < 16
    }
}

/// A pattern that the player can walk through: it has 64 rows, none with
/// more cells than there are channels, and all cells can be applied.
pub open spec fn pattern_playable(m: ModuleView, p: int) -> bool {
    &&& m.patterns[p].len() >= 64
    &&& forall|d: int|
        0 <= d < 64 ==> (#[trigger] m.patterns[p][d]).len() <= channels_of(m)
    &&& forall|d: int, c: int|
        0 <= d < 64 && 0 <= c < m.patterns[p][d].len() ==> cell_playable(
            m,
            #[trigger] m.patterns[p][d][c],
        )
}

/// A module that can be played from its first tick to its last: its play
/// order is not empty, every pattern that the play order names exists and
/// can be walked through, and the first pattern has a first row, which
/// tells the number of channels.
pub open spec fn playable(m: ModuleView) -> bool {
    &&& m.patterns.len() > 0
    &&& m.patterns[0].len() > 0
    &&& m.sequence.len() > 0
    &&& forall|i: int|
        0 <= i < m.sequence.len() ==> (#[trigger] m.sequence[i]) < m.patterns.len()
            && pattern_playable(m, m.sequence[i] as int)
}

/// A channel on which nothing has been played.
pub open spec fn silent_channel() -> ChannelState {
    ChannelState {
        sample_no: None,
        volume: 0,
        volume_diff: 0,
        period: 0,
        period_diff: 0,
        period_target: None,
    }
}

/// The state in which a player starts: at the first tick of the first row
/// of the first pattern of the play order, with 6 ticks in a row and 750
/// ticks in a minute.
pub open spec fn initial_state(m: ModuleView) -> StateView {
    StateView {
        sequence_pos: 0,
        cur_pattern: m.sequence[0] as int,
        cur_division: 0,
        cur_tick: 0,
        ticks_per_min: 750,
        ticks_per_div: 6,
        channels: Seq::new(channels_of(m) as nat, |i: int| silent_channel()),
    }
}

/// What every state of a player fulfils.
pub open spec fn state_valid(m: ModuleView, s: StateView) -> bool {
    &&& 0 <= s.sequence_pos <= m.sequence.len()
    &&& s.sequence_pos < m.sequence.len() ==> s.cur_pattern == m.sequence[s.sequence_pos]
    &&& s.sequence_pos == m.sequence.len() ==> s.cur_division == 0 && s.cur_tick == 0
    &&& 0 <= s.cur_division < 64
    &&& 0 <= s.cur_tick < s.ticks_per_div <= 32
    &&& 750 <= s.ticks_per_min <= 6120
    &&& s.channels.len() == channels_of(m)
    &&& forall|i: int|
        0 <= i < s.channels.len() ==> channel_valid(m, #[trigger] s.channels[i])
}

/// The sample of a channel exists and holds all of its waveform.
pub open spec fn channel_valid(m: ModuleView, cs: ChannelState) -> bool {
    cs.sample_no matches Some(no) ==> 0 < no <= m.samples.len() && m.samples[no - 1].data.len()
        >= m.samples[no - 1].length
}

/// The song is over: the whole play order is done.
pub open spec fn finished(m: ModuleView, s: StateView) -> bool {
    s.sequence_pos >= m.sequence.len()
}

/// The value of the two parameters of an effect, taken as one number.
pub open spec fn combined(x: u8, y: u8) -> int {
    x * 16 + y
}

/// A channel on which a new note starts.
pub open spec fn fresh_note(sample_no: u8, volume: u16, period: u16) -> ChannelState {
    ChannelState {
        sample_no: Some(sample_no),
        volume,
        volume_diff: 0,
        period,
        period_diff: 0,
        period_target: None,
    }
}

/// Whether a cell starts its note anew, from the beginning of the waveform.
/// Every cell with a sample does, but for a slide to a note, which goes on
/// with the note that sounds, and a change of speed, which leaves the
/// channel alone.
pub open spec fn restarts(cd: ChannelData) -> bool {
    cd.sample > 0 && !(cd.effect matches Effect::Normal { effect_type, .. } && (effect_type
        == EffectType::SlideToNote || effect_type == EffectType::SetSpeed))
}

/// The channel after a cell has been applied to it. `volume` is the volume
/// of the cell's sample.
pub open spec fn channel_after_cell(cs: ChannelState, cd: ChannelData, volume: u16) -> ChannelState {
    let fresh = fresh_note(cd.sample, volume, cd.period);
    if cd.sample == 0 {
        cs
    } else {
        match cd.effect {
            Effect::Normal { effect_type, param1, param2 } => {
                let v = combined(param1, param2);
                match effect_type {
                    EffectType::SlideUp => ChannelState { period_diff: v as i16, ..fresh },
                    EffectType::SlideDown => ChannelState { period_diff: (-v) as i16, ..fresh },
                    EffectType::SlideToNote => ChannelState {
                        period_target: Some(cd.period),
                        period_diff: if cd.period < cs.period {
                            (-v) as i16
                        } else {
                            v as i16
                        },
                        ..cs
                    },
                    EffectType::SetVolume => ChannelState { volume: v as u16, ..fresh },
                    EffectType::SetSpeed => cs,
                    _ => fresh,
                }
            },
            Effect::Extended { .. } => fresh,
        }
    }
}

/// The two speeds, ticks in a row and ticks in a minute, after a speed
/// effect of value `v`: 0 changes nothing, a value up to 32 is the new
/// number of ticks in a row, and a larger one sets the tempo to `24 * v`
/// ticks in a minute.
pub open spec fn speed_after(ticks_per_div: int, ticks_per_min: int, v: int) -> (int, int) {
    if v == 0 {
        (ticks_per_div, ticks_per_min)
    } else if v <= 32 {
        (v, ticks_per_min)
    } else {
        (ticks_per_div, 24 * v)
    }
}

/// The two speeds after a cell has been applied.
pub open spec fn speed_after_cell(ticks_per_div: int, ticks_per_min: int, cd: ChannelData) -> (
    int,
    int,
) {
    match cd.effect {
        Effect::Normal { effect_type, param1, param2 } => if cd.sample > 0 && effect_type
            == EffectType::SetSpeed {
            speed_after(ticks_per_div, ticks_per_min, combined(param1, param2))
        } else {
            (ticks_per_div, ticks_per_min)
        },
        Effect::Extended { .. } => (ticks_per_div, ticks_per_min),
    }
}

/// The two speeds after the first `n` cells of a row have been applied, one
/// after the other.
pub open spec fn speed_after_cells(
    ticks_per_div: int,
    ticks_per_min: int,
    row: Seq<ChannelData>,
    n: int,
) -> (int, int)
    decreases n,
{
    if n <= 0 {
        (ticks_per_div, ticks_per_min)
    } else {
        let before = speed_after_cells(ticks_per_div, ticks_per_min, row, n - 1);
        speed_after_cell(before.0, before.1, row[n - 1])
    }
}

/// The volume of the sample that a cell names.
pub open spec fn volume_of(m: ModuleView, cd: ChannelData) -> u16 {
    m.samples[cd.sample - 1].volume as u16
}

/// The row that is being played.
pub open spec fn current_row(m: ModuleView, s: StateView) -> Seq<ChannelData> {
    m.patterns[s.cur_pattern][s.cur_division]
}

/// The state after the current row has been applied: each cell to the
/// channel of its place, and the speed effects in the order of the cells.
pub open spec fn after_division(m: ModuleView, s: StateView) -> StateView {
    let row = current_row(m, s);
    let speed = speed_after_cells(s.ticks_per_div, s.ticks_per_min, row, row.len() as int);
    StateView {
        ticks_per_div: speed.0,
        ticks_per_min: speed.1,
        channels: Seq::new(
            s.channels.len(),
            |i: int|
                if i < row.len() {
                    channel_after_cell(s.channels[i], row[i], volume_of(m, row[i]))
                } else {
                    s.channels[i]
                },
        ),
        ..s
    }
}

/// A number brought into the range of 16 bits by adding or taking 65536.
pub open spec fn wrap16(v: int) -> int {
    if v < 0 {
        v + 65536
    } else if v > 65535 {
        v - 65536
    } else {
        v
    }
}

/// The channel after one tick: the period has moved by its step. Where a
/// target is set the period stops there: a falling period does not go below
/// the target, any other not above it. Without a target the period wraps
/// around at the ends of its 16 bits.
pub open spec fn channel_after_tick(cs: ChannelState) -> ChannelState {
    let moved = cs.period + cs.period_diff;
    ChannelState {
        period: match cs.period_target {
            Some(target) => if cs.period_diff < 0 {
                if moved >= target {
                    moved as u16
                } else {
                    target
                }
            } else {
                if moved <= target {
                    moved as u16
                } else {
                    target
                }
            },
            None => wrap16(moved) as u16,
        },
        ..cs
    }
}

/// The state with every channel moved by one tick.
pub open spec fn after_tick(s: StateView) -> StateView {
    StateView {
        channels: Seq::new(s.channels.len(), |i: int| channel_after_tick(s.channels[i])),
        ..s
    }
}

/// The state with the counters moved on by one tick: behind the last tick
/// of a row comes the next row, behind the last row the next entry of the
/// play order.
pub open spec fn advanced(m: ModuleView, s: StateView) -> StateView {
    if s.cur_tick + 1 < s.ticks_per_div {
        StateView { cur_tick: s.cur_tick + 1, ..s }
    } else if s.cur_division + 1 < 64 {
        StateView { cur_tick: 0, cur_division: s.cur_division + 1, ..s }
    } else {
        StateView {
            cur_tick: 0,
            cur_division: 0,
            sequence_pos: s.sequence_pos + 1,
            cur_pattern: if s.sequence_pos + 1 < m.sequence.len() {
                m.sequence[s.sequence_pos + 1] as int
            } else {
                s.cur_pattern
            },
            ..s
        }
    }
}

/// The state with the current row applied, if the tick is the first of its
/// row, and every channel moved by one tick: the state in which the audio of
/// the tick is rendered.
pub open spec fn sounding(m: ModuleView, s: StateView) -> StateView {
    if s.cur_tick == 0 {
        after_tick(after_division(m, s))
    } else {
        after_tick(s)
    }
}

/// The state after one tick. A song that is over stays as it is.
pub open spec fn tick(m: ModuleView, s: StateView) -> StateView {
    if finished(m, s) {
        s
    } else {
        advanced(m, sounding(m, s))
    }
}

/// The number of frames that one tick lasts: the frames of a minute,
/// divided by the ticks of a minute and rounded down.
pub open spec fn frames_per_tick(sample_rate: int, ticks_per_min: int) -> int {
    sample_rate * 60 / ticks_per_min
}

/// For each channel, whether the tick starts its note anew.
pub open spec fn restarted(m: ModuleView, s: StateView) -> Seq<bool> {
    Seq::new(
        s.channels.len(),
        |i: int| s.cur_tick == 0 && i < current_row(m, s).len() && restarts(current_row(m, s)[i]),
    )
}

/// The value that a channel sounds at place `index` of its waveform: the
/// sample's value there times the channel's volume, and 0 where the channel
/// has no sample or the place lies behind the waveform's end.
pub open spec fn sounding_value(m: ModuleView, cs: ChannelState, index: int) -> int {
    match cs.sample_no {
        Some(no) => if index < m.samples[no - 1].length {
            m.samples[no - 1].data[index] * cs.volume
        } else {
            0
        },
        None => 0,
    }
}

/// The speeds stay within their bounds under the speed effects of a row.
pub proof fn lemma_speed_bounds(ticks_per_div: int, ticks_per_min: int, row: Seq<ChannelData>, n: int)
    requires
        1 <= ticks_per_div <= 32,
        750 <= ticks_per_min <= 6120,
        0 <= n <= row.len(),
        forall|c: int|
            0 <= c < row.len() ==> ((#[trigger] row[c]).sample > 0 ==> (row[c].effect matches Effect::Normal {
                param1,
                param2,
                ..
            } ==> param1 < 16 && param2 < 16)),
    ensures
        1 <= speed_after_cells(ticks_per_div, ticks_per_min, row, n).0 <= 32,
        750 <= speed_after_cells(ticks_per_div, ticks_per_min, row, n).1 <= 6120,
    decreases n,
{
    if n > 0 {
        lemma_speed_bounds(ticks_per_div, ticks_per_min, row, n - 1);
        assert(row[n - 1].sample > 0 ==> (row[n - 1].effect matches Effect::Normal {
            param1,
            param2,
            ..
        } ==> param1 < 16 && param2 < 16));
    }
}

/// Applying a row leads from a state of a player to a state of a player.
pub proof fn lemma_division_valid(m: ModuleView, s: StateView)
    requires
        playable(m),
        state_valid(m, s),
        !finished(m, s),
        s.cur_tick == 0,
    ensures
        state_valid(m, after_division(m, s)),
{
    let row = current_row(m, s);
    lemma_speed_bounds(s.ticks_per_div, s.ticks_per_min, row, row.len() as int);
}

/// The number of rows that have been played through.
pub open spec fn rows_done(s: StateView) -> int {
    s.sequence_pos * 64 + s.cur_division
}

/// The state after `n` ticks.
pub open spec fn after_ticks(m: ModuleView, s: StateView, n: nat) -> StateView
    decreases n,
{
    if n == 0 {
        s
    } else {
        after_ticks(m, tick(m, s), (n - 1) as nat)
    }
}

/// A bound on the number of ticks that are left to play: no row has more
/// than 32 ticks.
pub open spec fn ticks_left(m: ModuleView, s: StateView) -> int {
    (64 * m.sequence.len() - rows_done(s)) * 32 - s.cur_tick
}

/// One tick of a song. The tick leads from a state of a player to a state of
/// a player. While the song is not over, the tick either stays in its row
/// and is followed by the row's next tick, or it is the last of its row and
/// is followed by the first tick of the next row. The song is over exactly
/// when 64 rows have been played through for every entry of the play order,
/// and from then on a tick changes nothing.
pub proof fn lemma_tick_walks_rows(m: ModuleView, s: StateView)
    requires
        playable(m),
        state_valid(m, s),
    ensures
        state_valid(m, tick(m, s)),
        0 <= rows_done(s) <= 64 * m.sequence.len(),
        finished(m, s) <==> rows_done(s) == 64 * m.sequence.len(),
        finished(m, s) ==> tick(m, s) == s,
        !finished(m, s) ==> {
            ||| rows_done(tick(m, s)) == rows_done(s) && tick(m, s).cur_tick == s.cur_tick + 1
            ||| rows_done(tick(m, s)) == rows_done(s) + 1 && tick(m, s).cur_tick == 0
        },
        !finished(m, s) ==> 0 <= ticks_left(m, tick(m, s)) < ticks_left(m, s),
        finished(m, s) ==> ticks_left(m, s) == 0,
{
    if !finished(m, s) && s.cur_tick == 0 {
        lemma_division_valid(m, s);
    }
}

/// A song that is over stays over, whatever the number of further ticks.
pub proof fn lemma_finished_stays(m: ModuleView, s: StateView, n: nat)
    requires
        finished(m, s),
    ensures
        after_ticks(m, s, n) == s,
    decreases n,
{
    if n > 0 {
        lemma_finished_stays(m, s, (n - 1) as nat);
    }
}

/// Every song comes to its end: after as many ticks as `ticks_left` says,
/// or more, the song is over. From the start of a song with `N` entries in
/// its play order that is after at most `64 * 32 * N` ticks.
pub proof fn lemma_song_ends(m: ModuleView, s: StateView, n: nat)
    requires
        playable(m),
        state_valid(m, s),
        n >= ticks_left(m, s),
    ensures
        state_valid(m, after_ticks(m, s, n)),
        finished(m, after_ticks(m, s, n)),
    decreases n,
{
    lemma_tick_walks_rows(m, s);
    if finished(m, s) {
        lemma_finished_stays(m, s, n);
    } else {
        lemma_song_ends(m, tick(m, s), (n - 1) as nat);
    }
}

/// The state in which a player starts is a state of a player, with no row
/// played yet.
pub proof fn lemma_initial_valid(m: ModuleView)
    requires
        playable(m),
    ensures
        state_valid(m, initial_state(m)),
        rows_done(initial_state(m)) == 0,
        !finished(m, initial_state(m)),
{
}

/// A song with `N` entries in its play order is over after `64 * 32 * N`
/// ticks, counted from its start.
pub proof fn lemma_song_ends_from_start(m: ModuleView)
    requires
        playable(m),
    ensures
        finished(m, after_ticks(m, initial_state(m), (2048 * m.sequence.len()) as nat)),
{
    lemma_song_ends(m, initial_state(m), (2048 * m.sequence.len()) as nat);
}

/// What a speed effect of value `v` does: 0 changes neither speed; a value
/// from 1 to 32 becomes the number of ticks in a row and leaves the ticks in
/// a minute; a larger value sets the ticks in a minute to `24 * v` and
/// leaves the ticks in a row.
pub proof fn lemma_speed_effect(ticks_per_div: int, ticks_per_min: int, cd: ChannelData)
    requires
        cd.sample > 0,
        cd.effect is Normal,
        cd.effect->Normal_effect_type == EffectType::SetSpeed,
    ensures
        ({
            let v = combined(cd.effect->param1, cd.effect->param2);
            let after = speed_after_cell(ticks_per_div, ticks_per_min, cd);
            &&& v == 0 ==> after == (ticks_per_div, ticks_per_min)
            &&& 1 <= v <= 32 ==> after == (v, ticks_per_min)
            &&& v > 32 ==> after == (ticks_per_div, 24 * v)
        }),
{
}

} // verus!
