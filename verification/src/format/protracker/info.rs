//! A module written out as text, for inspection: the title, the samples,
//! the play order and every pattern, with numbers in hexadecimal.

use super::note::{get_note, note_name, note_position};
use super::{sample_views, ChannelData, Effect, ModuleView, Pattern, ProtrackerMod, Sample, SampleView};
use vstd::prelude::*;

verus! {

/// The character of a digit from 0 to 15, as a text.
pub open spec fn digit(d: int) -> Seq<char> {
    if d == 0 {
        "0"@
    } else if d == 1 {
        "1"@
    } else if d == 2 {
        "2"@
    } else if d == 3 {
        "3"@
    } else if d == 4 {
        "4"@
    } else if d == 5 {
        "5"@
    } else if d == 6 {
        "6"@
    } else if d == 7 {
        "7"@
    } else if d == 8 {
        "8"@
    } else if d == 9 {
        "9"@
    } else if d == 10 {
        "a"@
    } else if d == 11 {
        "b"@
    } else if d == 12 {
        "c"@
    } else if d == 13 {
        "d"@
    } else if d == 14 {
        "e"@
    } else {
        "f"@
    }
}

/// A number in hexadecimal, without leading zeros.
pub open spec fn hex(n: nat) -> Seq<char>
    decreases n,
{
    if n < 16 {
        digit(n as int)
    } else {
        hex(n / 16) + digit((n % 16) as int)
    }
}

/// The number of hexadecimal digits of a number.
pub open spec fn hex_width(n: nat) -> nat
    decreases n,
{
    if n < 16 {
        1
    } else {
        hex_width(n / 16) + 1
    }
}

/// A number in decimal, without leading zeros.
pub open spec fn decimal(n: nat) -> Seq<char>
    decreases n,
{
    if n < 10 {
        digit(n as int)
    } else {
        decimal(n / 10) + digit((n % 10) as int)
    }
}

/// The number of decimal digits of a number.
pub open spec fn decimal_width(n: nat) -> nat
    decreases n,
{
    if n < 10 {
        1
    } else {
        decimal_width(n / 10) + 1
    }
}

/// A text `n` times over.
pub open spec fn repeated(s: Seq<char>, n: int) -> Seq<char>
    decreases n,
{
    if n <= 0 {
        Seq::empty()
    } else {
        repeated(s, n - 1) + s
    }
}

/// A number in hexadecimal, with zeros in front up to `width` digits.
pub open spec fn hex_padded(n: nat, width: nat) -> Seq<char> {
    repeated("0"@, width - hex_width(n)) + hex(n)
}

/// A number in decimal with its sign, with blanks in front up to `width`
/// characters.
pub open spec fn decimal_aligned(v: int, width: nat) -> Seq<char> {
    if v < 0 {
        repeated(" "@, width - decimal_width((-v) as nat) - 1) + "-"@ + decimal((-v) as nat)
    } else {
        repeated(" "@, width - decimal_width(v as nat)) + decimal(v as nat)
    }
}

/// A text with blanks in front up to `width` characters.
pub open spec fn right_aligned(text: Seq<char>, width: nat) -> Seq<char> {
    repeated(" "@, width - text.len()) + text
}

/// The texts of a list, with `sep` between each two of them.
pub open spec fn joined(parts: Seq<Seq<char>>, sep: Seq<char>) -> Seq<char>
    decreases parts.len(),
{
    if parts.len() == 0 {
        Seq::empty()
    } else if parts.len() == 1 {
        parts[0]
    } else {
        joined(parts.drop_last(), sep) + sep + parts.last()
    }
}

/// The texts that a list of strings holds.
pub open spec fn texts(parts: Seq<String>) -> Seq<Seq<char>> {
    Seq::new(parts.len(), |i: int| parts[i]@)
}

/// An effect as three hexadecimal digits: the kind and the two parameters,
/// or `e`, the extended kind and the parameter.
pub open spec fn effect_text(effect: Effect) -> Seq<char> {
    match effect {
        Effect::Normal { effect_type, param1, param2 } => hex(effect_type.spec_code() as nat) + hex(
            param1 as nat,
        ) + hex(param2 as nat),
        Effect::Extended { effect_type, param } => "e"@ + hex(effect_type.spec_code() as nat) + hex(
            param as nat,
        ),
    }
}

/// A cell as text: the sample number, the note and the effect; ten dots for
/// a cell without a sample. `finetune` is that of the cell's sample.
pub open spec fn channel_text(cd: ChannelData, finetune: int) -> Seq<char> {
    if cd.sample > 0 {
        hex_padded(cd.sample as nat, 2) + "|"@ + note_name(note_position(finetune, cd.period))
            + "|"@ + effect_text(cd.effect)
    } else {
        ".........."@
    }
}

/// A cell as text, among the samples of its module.
pub open spec fn cell_text(cd: ChannelData, samples: Seq<SampleView>) -> Seq<char> {
    channel_text(cd, samples[cd.sample - 1].finetune as int)
}

/// A cell that can be written out: its sample, if it has one, exists and
/// has a finetune from -8 to 7.
pub open spec fn cell_describable(cd: ChannelData, samples: Seq<SampleView>) -> bool {
    cd.sample > 0 ==> cd.sample <= samples.len() && -8 <= samples[cd.sample - 1].finetune <= 7
}

/// A pattern all of whose cells can be written out.
pub open spec fn pattern_describable(pattern: Seq<Seq<ChannelData>>, samples: Seq<SampleView>) -> bool {
    forall|d: int, c: int|
        0 <= d < pattern.len() && 0 <= c < pattern[d].len() ==> cell_describable(
            #[trigger] pattern[d][c],
            samples,
        )
}

/// A module all of whose cells can be written out.
pub open spec fn describable(m: ModuleView) -> bool {
    forall|p: int| 0 <= p < m.patterns.len() ==> pattern_describable(#[trigger] m.patterns[p], m.samples)
}

/// A row as text: its number, then its cells.
pub open spec fn row_text(number: nat, row: Seq<ChannelData>, samples: Seq<SampleView>) -> Seq<char> {
    hex_padded(number, 2) + "      "@ + joined(
        Seq::new(row.len(), |c: int| cell_text(row[c], samples)),
        "      "@,
    ) + "\n"@
}

/// The first `n` rows of a pattern as text, a line for each.
pub open spec fn rows_text(pattern: Seq<Seq<ChannelData>>, samples: Seq<SampleView>, n: int) -> Seq<char>
    decreases n,
{
    if n <= 0 {
        Seq::empty()
    } else {
        rows_text(pattern, samples, n - 1) + row_text((n - 1) as nat, pattern[n - 1], samples)
    }
}

/// A sample as a line of text. `number` counts the samples from 1.
pub open spec fn sample_line(number: nat, sample: SampleView) -> Seq<char> {
    hex_padded(number, 2) + " "@ + right_aligned(sample.name, 22) + ", ft: "@ + decimal_aligned(
        sample.finetune as int,
        2,
    ) + ", len: "@ + hex_padded(sample.length as nat, 4) + ", vol: "@ + hex_padded(
        sample.volume as nat,
        2,
    ) + ", roff: "@ + hex_padded(sample.repeat_offset as nat, 4) + ", rlen:"@ + hex_padded(
        sample.repeat_length as nat,
        4,
    )
}

/// The lines of those of the first `n` samples that have a waveform.
pub open spec fn sample_lines(samples: Seq<SampleView>, n: int) -> Seq<Seq<char>>
    decreases n,
{
    if n <= 0 {
        Seq::empty()
    } else if samples[n - 1].length > 0 {
        sample_lines(samples, n - 1).push(sample_line(n as nat, samples[n - 1]))
    } else {
        sample_lines(samples, n - 1)
    }
}

/// The samples as text: a line for each sample that has a waveform.
pub open spec fn samples_text(samples: Seq<SampleView>) -> Seq<char> {
    joined(sample_lines(samples, samples.len() as int), "\n"@)
}

/// An entry of the play order as text: its place and its pattern.
pub open spec fn sequence_entry(pos: nat, pattern: u8) -> Seq<char> {
    hex_padded(pos, 2) + " "@ + hex_padded(pattern as nat, 2)
}

/// The number of entries in line `k` of the play order's text.
pub open spec fn sequence_row_len(len: int, k: int) -> int {
    (len - k + 7) / 8
}

/// Line `k` of the play order's text: the entries `k`, `k + 8`, `k + 16`
/// and so on.
pub open spec fn sequence_row(sequence: Seq<u8>, k: int) -> Seq<char> {
    joined(
        Seq::new(
            sequence_row_len(sequence.len() as int, k) as nat,
            |j: int| sequence_entry((k + 8 * j) as nat, sequence[k + 8 * j]),
        ),
        "   "@,
    )
}

/// The play order as text, in up to eight lines: the entries run down the
/// lines first, then to the right.
pub open spec fn sequence_text(sequence: Seq<u8>) -> Seq<char> {
    joined(
        Seq::new(
            if sequence.len() < 8 {
                sequence.len()
            } else {
                8
            },
            |k: int| sequence_row(sequence, k),
        ),
        "\n"@,
    )
}

/// The first `n` patterns as text, each under its number.
pub open spec fn patterns_text(m: ModuleView, n: int) -> Seq<char>
    decreases n,
{
    if n <= 0 {
        Seq::empty()
    } else {
        patterns_text(m, n - 1) + "Pattern "@ + hex_padded((n - 1) as nat, 2) + ":\n"@ + rows_text(
            m.patterns[n - 1],
            m.samples,
            m.patterns[n - 1].len() as int,
        ) + "\n"@
    }
}

/// A module as text.
pub open spec fn module_text(m: ModuleView) -> Seq<char> {
    "Title: "@ + m.title + "\n"@ + "\nSamples:\n"@ + samples_text(m.samples) + "\n\nSequence:\n"@
        + sequence_text(m.sequence) + "\n\n"@ + patterns_text(m, m.patterns.len() as int)
}

/// The character of a digit, as a string.
fn digit_str(d: u64) -> (r: &'static str)
    requires
        d < 16,
    ensures
        r@ == digit(d as int),
{
    if d == 0 {
        "0"
    } else if d == 1 {
        "1"
    } else if d == 2 {
        "2"
    } else if d == 3 {
        "3"
    } else if d == 4 {
        "4"
    } else if d == 5 {
        "5"
    } else if d == 6 {
        "6"
    } else if d == 7 {
        "7"
    } else if d == 8 {
        "8"
    } else if d == 9 {
        "9"
    } else if d == 10 {
        "a"
    } else if d == 11 {
        "b"
    } else if d == 12 {
        "c"
    } else if d == 13 {
        "d"
    } else if d == 14 {
        "e"
    } else {
        "f"
    }
}

/// Writes a number in hexadecimal.
fn hex_string(n: u64) -> (r: String)
    ensures
        r@ == hex(n as nat),
    decreases n,
{
    if n < 16 {
        String::from_str(digit_str(n))
    } else {
        let mut s = hex_string(n / 16);
        s.append(digit_str(n % 16));
        s
    }
}

/// Counts the hexadecimal digits of a number.
fn hex_len(n: u64) -> (r: usize)
    ensures
        r == hex_width(n as nat),
        1 <= r <= 16,
{
    let mut rest: u64 = n;
    let mut count: usize = 1;
    proof {
        let unit = pow16((count - 1) as nat);
        assert(rest as nat * unit <= n) by (nonlinear_arith)
            requires
                unit == 1,
                rest == n,
        ;
    }
    while rest >= 16
        invariant
            1 <= count <= 16,
            hex_width(n as nat) == hex_width(rest as nat) + count - 1,
            rest as nat * pow16((count - 1) as nat) <= n,
        decreases rest,
    {
        proof {
            lemma_pow16_grows((count - 1) as nat);
            assert(count < 16) by {
                if count == 16 {
                    lemma_pow16_15();
                    assert(rest as nat * pow16(15) >= 16 * pow16(15)) by (nonlinear_arith)
                        requires
                            rest >= 16,
                    ;
                }
            }
            assert((rest / 16) as nat * pow16(count as nat) <= rest as nat * pow16((count - 1) as nat))
                by (nonlinear_arith)
                requires
                    pow16(count as nat) == 16 * pow16((count - 1) as nat),
                    (rest / 16) * 16 <= rest,
            ;
        }
        rest = rest / 16;
        count = count + 1;
    }
    count
}

spec fn pow16(k: nat) -> nat
    decreases k,
{
    if k == 0 {
        1
    } else {
        16 * pow16((k - 1) as nat)
    }
}

proof fn lemma_pow16_grows(k: nat)
    ensures
        pow16(k + 1) == 16 * pow16(k),
        pow16(k) >= 1,
    decreases k,
{
    if k > 0 {
        lemma_pow16_grows((k - 1) as nat);
    }
}

proof fn lemma_pow16_15()
    ensures
        pow16(15) == 0x1000_0000_0000_0000,
{
    reveal_with_fuel(pow16, 16);
}

/// Writes a number in decimal.
fn decimal_string(n: u64) -> (r: String)
    ensures
        r@ == decimal(n as nat),
    decreases n,
{
    if n < 10 {
        String::from_str(digit_str(n))
    } else {
        let mut s = decimal_string(n / 10);
        s.append(digit_str(n % 10));
        s
    }
}

/// A string `n` times over.
fn repeat_string(s: &str, n: usize) -> (r: String)
    ensures
        r@ == repeated(s@, n as int),
{
    let mut out = String::new();
    let mut i: usize = 0;
    while i < n
        invariant
            i <= n,
            out@ == repeated(s@, i as int),
        decreases n - i,
    {
        out.append(s);
        i = i + 1;
    }
    out
}

/// Writes a number in hexadecimal, with zeros in front up to `width` digits.
fn hex_padded_string(n: u64, width: usize) -> (r: String)
    ensures
        r@ == hex_padded(n as nat, width as nat),
{
    let len = hex_len(n);
    let mut out = if len < width {
        repeat_string("0", width - len)
    } else {
        String::new()
    };
    let digits = hex_string(n);
    out.append(digits.as_str());
    out
}

/// Writes a number in decimal with its sign, with blanks in front up to
/// `width` characters.
fn decimal_aligned_string(v: i8, width: usize) -> (r: String)
    ensures
        r@ == decimal_aligned(v as int, width as nat),
{
    let magnitude: u64 = if v < 0 {
        (0 - v as i16) as u64
    } else {
        v as u64
    };
    proof {
        reveal_with_fuel(decimal_width, 3);
    }
    let digits: usize = if magnitude < 10 {
        1
    } else if magnitude < 100 {
        2
    } else {
        3
    };
    let len: usize = if v < 0 {
        digits + 1
    } else {
        digits
    };
    let mut out = if len < width {
        repeat_string(" ", width - len)
    } else {
        String::new()
    };
    if v < 0 {
        out.append("-");
    }
    let number = decimal_string(magnitude);
    out.append(number.as_str());
    out
}

/// Writes a text with blanks in front up to `width` characters.
fn right_aligned_string(text: &str, width: usize) -> (r: String)
    ensures
        r@ == right_aligned(text@, width as nat),
{
    let len = text.unicode_len();
    let mut out = if len < width {
        repeat_string(" ", width - len)
    } else {
        String::new()
    };
    out.append(text);
    out
}

/// Joins strings, with `sep` between each two of them.
fn join(parts: &Vec<String>, sep: &str) -> (r: String)
    ensures
        r@ == joined(texts(parts@), sep@),
{
    let mut out = String::new();
    let mut i: usize = 0;
    while i < parts.len()
        invariant
            i <= parts@.len(),
            out@ == joined(texts(parts@).take(i as int), sep@),
        decreases parts@.len() - i,
    {
        let ghost all = texts(parts@);
        assert(all.take(i + 1).drop_last() =~= all.take(i as int));
        if i > 0 {
            out.append(sep);
        }
        out.append(parts[i].as_str());
        i = i + 1;
    }
    assert(texts(parts@).take(i as int) =~= texts(parts@));
    out
}

/// Writes an effect as three hexadecimal digits.
pub fn info_effect(effect: &Effect) -> (r: String)
    ensures
        r@ == effect_text(*effect),
{
    match effect {
        Effect::Normal { effect_type, param1, param2 } => {
            let t: u8 = effect_type.code();
            let mut out = hex_string(t as u64);
            out.append(hex_string(*param1 as u64).as_str());
            out.append(hex_string(*param2 as u64).as_str());
            out
        },
        Effect::Extended { effect_type, param } => {
            let t: u8 = effect_type.code();
            let mut out = String::from_str("e");
            out.append(hex_string(t as u64).as_str());
            out.append(hex_string(*param as u64).as_str());
            out
        },
    }
}

/// Writes a cell: the number of its sample, its note and its effect, or ten
/// dots where the cell has no sample.
pub fn info_channel(channel: &ChannelData, samples: &[Sample]) -> (r: String)
    requires
        cell_describable(*channel, sample_views(samples@)),
    ensures
        r@ == cell_text(*channel, sample_views(samples@)),
{
    if channel.sample > 0 {
        let finetune = samples[channel.sample as usize - 1].finetune;
        let note_str = get_note(finetune, channel.period).name();
        let mut out = hex_padded_string(channel.sample as u64, 2);
        out.append("|");
        out.append(note_str.as_str());
        out.append("|");
        out.append(info_effect(&channel.effect).as_str());
        out
    } else {
        String::from_str("..........")
    }
}

/// Writes a pattern, a line for each row.
pub fn info_pattern(pattern: &Pattern, samples: &[Sample]) -> (r: String)
    requires
        pattern_describable(pattern@, sample_views(samples@)),
    ensures
        r@ == rows_text(pattern@, sample_views(samples@), pattern@.len() as int),
{
    let ghost views = sample_views(samples@);
    let mut ret = String::new();
    let mut idx: usize = 0;
    while idx < pattern.divisions.len()
        invariant
            idx <= pattern.divisions@.len(),
            pattern@.len() == pattern.divisions@.len(),
            views == sample_views(samples@),
            pattern_describable(pattern@, views),
            ret@ == rows_text(pattern@, views, idx as int),
        decreases pattern.divisions@.len() - idx,
    {
        let division = &pattern.divisions[idx];
        let ghost row = pattern@[idx as int];
        let mut channel_strs: Vec<String> = Vec::new();
        let mut c: usize = 0;
        while c < division.channel_data.len()
            invariant
                c <= division.channel_data@.len(),
                row == division.channel_data@,
                row == pattern@[idx as int],
                idx < pattern@.len(),
                views == sample_views(samples@),
                pattern_describable(pattern@, views),
                channel_strs@.len() == c,
                forall|k: int| 0 <= k < c ==> (#[trigger] channel_strs@[k])@ == cell_text(row[k], views),
            decreases division.channel_data@.len() - c,
        {
            channel_strs.push(info_channel(&division.channel_data[c], samples));
            c = c + 1;
        }
        assert(texts(channel_strs@) =~= Seq::new(row.len(), |c: int| cell_text(row[c], views)));
        let mut line = hex_padded_string(idx as u64, 2);
        line.append("      ");
        line.append(join(&channel_strs, "      ").as_str());
        line.append("\n");
        ret.append(line.as_str());
        idx = idx + 1;
    }
    ret
}

/// Writes the samples, a line for each sample that has a waveform.
pub fn info_samples(samples: &[Sample]) -> (r: String)
    ensures
        r@ == samples_text(sample_views(samples@)),
{
    let ghost views = sample_views(samples@);
    let mut samples_strs: Vec<String> = Vec::new();
    let mut idx: usize = 0;
    while idx < samples.len()
        invariant
            idx <= samples@.len(),
            views == sample_views(samples@),
            texts(samples_strs@) == sample_lines(views, idx as int),
        decreases samples@.len() - idx,
    {
        let sample = &samples[idx];
        assert(views[idx as int] == sample@);
        if sample.length > 0 {
            let mut line = hex_padded_string(idx as u64 + 1, 2);
            line.append(" ");
            line.append(right_aligned_string(sample.name.as_str(), 22).as_str());
            line.append(", ft: ");
            line.append(decimal_aligned_string(sample.finetune, 2).as_str());
            line.append(", len: ");
            line.append(hex_padded_string(sample.length as u64, 4).as_str());
            line.append(", vol: ");
            line.append(hex_padded_string(sample.volume as u64, 2).as_str());
            line.append(", roff: ");
            line.append(hex_padded_string(sample.repeat_offset as u64, 4).as_str());
            line.append(", rlen:");
            line.append(hex_padded_string(sample.repeat_length as u64, 4).as_str());
            assert(line@ == sample_line((idx + 1) as nat, sample@));
            samples_strs.push(line);
        }
        idx = idx + 1;
    }
    join(&samples_strs, "\n")
}

/// Writes the play order in up to eight lines. The entries run down the
/// lines first: line `k` holds the entries `k`, `k + 8`, `k + 16` and so on.
pub fn info_sequence(sequence: &[u8]) -> (r: String)
    ensures
        r@ == sequence_text(sequence@),
{
    let len = sequence.len();
    let rows: usize = if len < 8 {
        len
    } else {
        8
    };
    let mut row_strs: Vec<String> = Vec::new();
    let mut k: usize = 0;
    while k < rows
        invariant
            k <= rows <= 8,
            rows <= len,
            len == sequence@.len(),
            row_strs@.len() == k,
            forall|i: int| 0 <= i < k ==> (#[trigger] row_strs@[i])@ == sequence_row(sequence@, i),
        decreases rows - k,
    {
        let mut row_vec: Vec<String> = Vec::new();
        let entries: usize = (len - k - 1) / 8 + 1;
        let ghost count = sequence_row_len(len as int, k as int);
        let mut j: usize = 0;
        while j < entries
            invariant
                k < 8,
                k < len,
                len == sequence@.len(),
                j <= entries,
                entries == count,
                count == sequence_row_len(len as int, k as int),
                row_vec@.len() == j,
                forall|i: int|
                    0 <= i < j ==> (#[trigger] row_vec@[i])@ == sequence_entry(
                        (k + 8 * i) as nat,
                        sequence@[k + 8 * i],
                    ),
            decreases entries - j,
        {
            let pos: usize = k + 8 * j;
            let mut entry = hex_padded_string(pos as u64, 2);
            entry.append(" ");
            entry.append(hex_padded_string(sequence[pos] as u64, 2).as_str());
            row_vec.push(entry);
            j = j + 1;
        }
        assert(texts(row_vec@) =~= Seq::new(
            count as nat,
            |j: int| sequence_entry((k + 8 * j) as nat, sequence@[k + 8 * j]),
        ));
        row_strs.push(join(&row_vec, "   "));
        k = k + 1;
    }
    assert(texts(row_strs@) =~= Seq::new(rows as nat, |k: int| sequence_row(sequence@, k)));
    join(&row_strs, "\n")
}

/// Writes a module: title, samples, play order and patterns.
///
/// Every cell with a sample must name a sample of the module, with a
/// finetune from -8 to 7: `is_describable` tells.
pub fn info_mod(pt_mod: &ProtrackerMod) -> (r: String)
    requires
        describable(pt_mod@),
    ensures
        r@ == module_text(pt_mod@),
{
    let ghost m = pt_mod@;
    let samples = pt_mod.samples.as_slice();
    let mut ret = String::from_str("Title: ");
    ret.append(pt_mod.title.as_str());
    ret.append("\n");

    ret.append("\nSamples:\n");
    ret.append(info_samples(samples).as_str());

    ret.append("\n\nSequence:\n");
    ret.append(info_sequence(pt_mod.sequence.as_slice()).as_str());

    ret.append("\n\n");

    let mut idx: usize = 0;
    while idx < pt_mod.patterns.len()
        invariant
            idx <= pt_mod.patterns@.len(),
            m == pt_mod@,
            m.patterns.len() == pt_mod.patterns@.len(),
            describable(m),
            sample_views(samples@) == m.samples,
            ret@ == "Title: "@ + m.title + "\n"@ + "\nSamples:\n"@ + samples_text(m.samples)
                + "\n\nSequence:\n"@ + sequence_text(m.sequence) + "\n\n"@ + patterns_text(
                m,
                idx as int,
            ),
        decreases pt_mod.patterns@.len() - idx,
    {
        let pattern = &pt_mod.patterns[idx];
        assert(m.patterns[idx as int] == pattern@);
        let ghost head = "Title: "@ + m.title + "\n"@ + "\nSamples:\n"@ + samples_text(m.samples)
            + "\n\nSequence:\n"@ + sequence_text(m.sequence) + "\n\n"@;
        let ghost before = patterns_text(m, idx as int);
        ret.append("Pattern ");
        ret.append(hex_padded_string(idx as u64, 2).as_str());
        ret.append(":\n");
        ret.append(info_pattern(pattern, samples).as_str());
        ret.append("\n");
        assert(ret@ =~= head + patterns_text(m, idx + 1)) by {
            assert(patterns_text(m, idx + 1) == before + "Pattern "@ + hex_padded(idx as nat, 2)
                + ":\n"@ + rows_text(pattern@, m.samples, pattern@.len() as int) + "\n"@);
        }
        idx = idx + 1;
    }
    ret
}

impl ProtrackerMod {
    /// Whether the module can be written out: what `info_mod` asks of it.
    pub fn is_describable(&self) -> (r: bool)
        ensures
            r == describable(self@),
    {
        let ghost m = self@;
        let mut p: usize = 0;
        while p < self.patterns.len()
            invariant
                p <= self.patterns@.len(),
                m == self@,
                m.patterns.len() == self.patterns@.len(),
                forall|k: int| 0 <= k < p ==> pattern_describable(#[trigger] m.patterns[k], m.samples),
            decreases self.patterns@.len() - p,
        {
            let pattern = &self.patterns[p];
            let mut d: usize = 0;
            while d < pattern.divisions.len()
                invariant
                    d <= pattern.divisions@.len(),
                    p < self.patterns@.len(),
                    m == self@,
                    *pattern == self.patterns@[p as int],
                    m.patterns[p as int] == pattern@,
                    pattern@.len() == pattern.divisions@.len(),
                    forall|k: int, c: int|
                        0 <= k < d && 0 <= c < pattern@[k].len() ==> cell_describable(
                            #[trigger] pattern@[k][c],
                            m.samples,
                        ),
                decreases pattern.divisions@.len() - d,
            {
                let division = &pattern.divisions[d];
                let mut c: usize = 0;
                while c < division.channel_data.len()
                    invariant
                        c <= division.channel_data@.len(),
                        d < pattern@.len(),
                        p < self.patterns@.len(),
                        m == self@,
                        m.patterns[p as int] == pattern@,
                        pattern@[d as int] == division.channel_data@,
                        forall|j: int|
                            0 <= j < c ==> cell_describable(
                                #[trigger] division.channel_data@[j],
                                m.samples,
                            ),
                    decreases division.channel_data@.len() - c,
                {
                    let cd = division.channel_data[c];
                    if cd.sample > 0 {
                        if cd.sample as usize > self.samples.len() {
                            return false;
                        }
                        let finetune = self.samples[cd.sample as usize - 1].finetune;
                        if finetune < -8 || finetune > 7 {
                            return false;
                        }
                    }
                    c = c + 1;
                }
                d = d + 1;
            }
            p = p + 1;
        }
        true
    }
}

} // verus!
