//! Mapping of hardware periods to note names.
//!
//! Every finetune value selects one table of 36 periods: three octaves of
//! twelve semitones, falling from the lowest note to the highest.

use vstd::prelude::*;

verus! {

/// The period tables, one row per finetune value from -8 up to 7.
pub const NOTES: [[u16; 36]; 16] = [
    [
        // finetune -8
        907, 856, 808, 762, 720, 678, 640, 604, 570, 538, 508, 480,
        453, 428, 404, 381, 360, 339, 320, 302, 285, 269, 254, 240,
        226, 214, 202, 190, 180, 170, 160, 151, 143, 135, 127, 120,
    ],
    [
        // finetune -7
        900, 850, 802, 757, 715, 675, 636, 601, 567, 535, 505, 477,
        450, 425, 401, 379, 357, 337, 318, 300, 284, 268, 253, 238,
        225, 212, 200, 189, 179, 169, 159, 150, 142, 134, 126, 119,
    ],
    [
        // finetune -6
        894, 844, 796, 752, 709, 670, 632, 597, 563, 532, 502, 474,
        447, 422, 398, 376, 355, 335, 316, 298, 282, 266, 251, 237,
        223, 211, 199, 188, 177, 167, 158, 149, 141, 133, 125, 118,
    ],
    [
        // finetune -5
        887, 838, 791, 746, 704, 665, 628, 592, 559, 528, 498, 470,
        444, 419, 395, 373, 352, 332, 314, 296, 280, 264, 249, 235,
        222, 209, 198, 187, 176, 166, 157, 148, 140, 132, 125, 118,
    ],
    [
        // finetune -4
        881, 832, 785, 741, 699, 660, 623, 588, 555, 524, 494, 467,
        441, 416, 392, 370, 350, 330, 312, 294, 278, 262, 247, 233,
        220, 208, 196, 185, 175, 165, 156, 147, 139, 131, 123, 117,
    ],
    [
        // finetune -3
        875, 826, 779, 736, 694, 655, 619, 584, 551, 520, 491, 463,
        437, 413, 390, 368, 347, 328, 309, 292, 276, 260, 245, 232,
        219, 206, 195, 184, 174, 164, 155, 146, 138, 130, 123, 116,
    ],
    [
        // finetune -2
        868, 820, 774, 730, 689, 651, 614, 580, 547, 516, 487, 460,
        434, 410, 387, 365, 345, 325, 307, 290, 274, 258, 244, 230,
        217, 205, 193, 183, 172, 163, 154, 145, 137, 129, 122, 115,
    ],
    [
        // finetune -1
        862, 814, 768, 725, 684, 646, 610, 575, 543, 513, 484, 457,
        431, 407, 384, 363, 342, 323, 305, 288, 272, 256, 242, 228,
        216, 203, 192, 181, 171, 161, 152, 144, 136, 128, 121, 114,
    ],
    [
        // finetune 0
        856, 808, 762, 720, 678, 640, 604, 570, 538, 508, 480, 453,
        428, 404, 381, 360, 339, 320, 302, 285, 269, 254, 240, 226,
        214, 202, 190, 180, 170, 160, 151, 143, 135, 127, 120, 113,
    ],
    [
        // finetune 1
        850, 802, 757, 715, 674, 637, 601, 567, 535, 505, 477, 450,
        425, 401, 379, 357, 337, 318, 300, 284, 268, 253, 239, 225,
        213, 201, 189, 179, 169, 159, 150, 142, 134, 126, 119, 113,
    ],
    [
        // finetune 2
        844, 796, 752, 709, 670, 632, 597, 563, 532, 502, 474, 447,
        422, 398, 376, 355, 335, 316, 298, 282, 266, 251, 237, 224,
        211, 199, 188, 177, 167, 158, 149, 141, 133, 125, 118, 112,
    ],
    [
        // finetune 3
        838, 791, 746, 704, 665, 628, 592, 559, 528, 498, 470, 444,
        419, 395, 373, 352, 332, 314, 296, 280, 264, 249, 235, 222,
        209, 198, 187, 176, 166, 157, 148, 140, 132, 125, 118, 111,
    ],
    [
        // finetune 4
        832, 785, 741, 699, 660, 623, 588, 555, 524, 495, 467, 441,
        416, 392, 370, 350, 330, 312, 294, 278, 262, 247, 233, 220,
        208, 196, 185, 175, 165, 156, 147, 139, 131, 124, 117, 110,
    ],
    [
        // finetune 5
        826, 779, 736, 694, 655, 619, 584, 551, 520, 491, 463, 437,
        413, 390, 368, 347, 328, 309, 292, 276, 260, 245, 232, 219,
        206, 195, 184, 174, 164, 155, 146, 138, 130, 123, 116, 109,
    ],
    [
        // finetune 6
        820, 774, 730, 689, 651, 614, 580, 547, 516, 487, 460, 434,
        410, 387, 365, 345, 325, 307, 290, 274, 258, 244, 230, 217,
        205, 193, 183, 172, 163, 154, 145, 137, 129, 122, 115, 109,
    ],
    [
        // finetune 7
        814, 768, 725, 684, 646, 610, 575, 543, 513, 484, 457, 431,
        407, 384, 363, 342, 323, 305, 288, 272, 256, 242, 228, 216,
        204, 192, 181, 171, 161, 152, 144, 136, 128, 121, 114, 108,
    ],
];

/// The period table that belongs to `finetune`.
pub open spec fn period_table(finetune: int) -> Seq<u16> {
    NOTES[finetune + 8]@
}

/// Every entry of `s` is larger than all entries behind it.
pub open spec fn strictly_descending(s: Seq<u16>) -> bool {
    forall|i: int, j: int| 0 <= i < j < s.len() ==> s[i] > s[j]
}

proof fn lemma_neighbours_descend(s: Seq<u16>, i: int, j: int)
    requires
        forall|k: int| 0 <= k < s.len() - 1 ==> #[trigger] s[k] > s[k + 1],
        0 <= i < j < s.len(),
    ensures
        s[i] > s[j],
    decreases j - i,
{
    if i + 1 < j {
        lemma_neighbours_descend(s, i, j - 1);
    }
}

proof fn lemma_row_descends(row: int)
    requires
        0 <= row < 16,
    ensures
        strictly_descending(NOTES[row]@),
{
    let s = NOTES[row]@;
    assert forall|k: int| 0 <= k < s.len() - 1 implies #[trigger] s[k] > s[k + 1] by {
        assert(row == 0 || row == 1 || row == 2 || row == 3 || row == 4 || row == 5 || row == 6
            || row == 7 || row == 8 || row == 9 || row == 10 || row == 11 || row == 12 || row == 13
            || row == 14 || row == 15);
        assert(k == 0 || k == 1 || k == 2 || k == 3 || k == 4 || k == 5 || k == 6 || k == 7 || k
            == 8 || k == 9 || k == 10 || k == 11 || k == 12 || k == 13 || k == 14 || k == 15 || k
            == 16 || k == 17 || k == 18 || k == 19 || k == 20 || k == 21 || k == 22 || k == 23 || k
            == 24 || k == 25 || k == 26 || k == 27 || k == 28 || k == 29 || k == 30 || k == 31 || k
            == 32 || k == 33 || k == 34);
    }
    assert forall|i: int, j: int| 0 <= i < j < s.len() implies s[i] > s[j] by {
        lemma_neighbours_descend(s, i, j);
    }
}

/// Each of the sixteen period tables falls strictly from its first entry to
/// its last, so a period occurs in a table at most once.
pub proof fn lemma_tables_descend(finetune: int)
    requires
        -8 <= finetune <= 7,
    ensures
        period_table(finetune).len() == 36,
        strictly_descending(period_table(finetune)),
{
    lemma_row_descends(finetune + 8);
}

/// How many of the first `n` entries of `table` are larger than `period`.
pub open spec fn entries_above(table: Seq<u16>, period: u16, n: int) -> int
    decreases n,
{
    if n <= 0 {
        0
    } else if table[n - 1] > period {
        entries_above(table, period, n - 1) + 1
    } else {
        entries_above(table, period, n - 1)
    }
}

/// The place in its period table of the note that `period` sounds: the
/// number of entries, the last one left aside, that are larger than
/// `period`. That is the place of `period` itself where the table holds it,
/// else that of the nearest lower entry, or the last place.
pub open spec fn note_position(finetune: int, period: u16) -> int {
    entries_above(period_table(finetune), period, 35)
}

/// The display name of the note at a place of a period table.
pub open spec fn note_name(position: int) -> Seq<char> {
    tone_name(position % 12) + octave_name(position / 12)
}

proof fn lemma_entries_above(table: Seq<u16>, period: u16, k: int, n: int)
    requires
        table.len() == 36,
        strictly_descending(table),
        0 <= k <= 35,
        forall|i: int| 0 <= i < k ==> table[i] > period,
        k < 35 ==> table[k] <= period,
        0 <= n <= 35,
    ensures
        entries_above(table, period, n) == (if n <= k {
            n
        } else {
            k
        }),
    decreases n,
{
    if n > 0 {
        lemma_entries_above(table, period, k, n - 1);
    }
}

/// A note of the three-octave range, as found for a period.
#[derive(Clone, Copy, Debug)]
pub struct Note {
    octave: u8,
    tone: u8,
    exact: bool,
}

/// The two-character name of a semitone, counted from C.
pub open spec fn tone_name(tone: int) -> Seq<char> {
    if tone == 0 {
        "C-"@
    } else if tone == 1 {
        "C#"@
    } else if tone == 2 {
        "D-"@
    } else if tone == 3 {
        "D#"@
    } else if tone == 4 {
        "E-"@
    } else if tone == 5 {
        "F-"@
    } else if tone == 6 {
        "F#"@
    } else if tone == 7 {
        "G-"@
    } else if tone == 8 {
        "G#"@
    } else if tone == 9 {
        "A-"@
    } else if tone == 10 {
        "A#"@
    } else {
        "B-"@
    }
}

/// The one-character number under which an octave is displayed.
pub open spec fn octave_name(octave: int) -> Seq<char> {
    if octave == 0 {
        "1"@
    } else if octave == 1 {
        "2"@
    } else {
        "3"@
    }
}

impl Note {
    #[verifier::type_invariant]
    spec fn inv(self) -> bool {
        self.octave < 3 && self.tone < 12
    }

    /// The octave, counted from 0.
    pub closed spec fn spec_octave(self) -> int {
        self.octave as int
    }

    /// The semitone within the octave, counted from 0 (C).
    pub closed spec fn spec_tone(self) -> int {
        self.tone as int
    }

    /// Whether the period was found in the table.
    pub closed spec fn spec_exact(self) -> bool {
        self.exact
    }

    /// The position of the note in its period table.
    pub open spec fn position(self) -> int {
        self.spec_octave() * 12 + self.spec_tone()
    }

    /// The octave, 0 to 2.
    pub fn octave(&self) -> (r: u8)
        ensures
            r == self.spec_octave(),
            r < 3,
    {
        proof {
            use_type_invariant(self);
        }
        self.octave
    }

    /// The semitone within the octave, 0 (C) to 11 (B).
    pub fn tone(&self) -> (r: u8)
        ensures
            r == self.spec_tone(),
            r < 12,
    {
        proof {
            use_type_invariant(self);
        }
        self.tone
    }

    /// Whether the note's period is exactly the one that was looked up.
    pub fn is_exact(&self) -> (r: bool)
        ensures
            r == self.spec_exact(),
    {
        self.exact
    }

    /// The display name: the semitone's two characters, then the octave
    /// counted from 1, as in `C-1` or `D#3`.
    pub fn name(&self) -> (r: String)
        ensures
            r@ == tone_name(self.spec_tone()) + octave_name(self.spec_octave()),
            r@ == note_name(self.position()),
    {
        proof {
            use_type_invariant(self);
        }
        let tone: &str = if self.tone == 0 {
            "C-"
        } else if self.tone == 1 {
            "C#"
        } else if self.tone == 2 {
            "D-"
        } else if self.tone == 3 {
            "D#"
        } else if self.tone == 4 {
            "E-"
        } else if self.tone == 5 {
            "F-"
        } else if self.tone == 6 {
            "F#"
        } else if self.tone == 7 {
            "G-"
        } else if self.tone == 8 {
            "G#"
        } else if self.tone == 9 {
            "A-"
        } else if self.tone == 10 {
            "A#"
        } else {
            "B-"
        };
        let octave: &str = if self.octave == 0 {
            "1"
        } else if self.octave == 1 {
            "2"
        } else {
            "3"
        };
        let mut r = String::new();
        r.append(tone);
        r.append(octave);
        r
    }
}

/// Finds the note that `period` sounds with the given finetune.
///
/// The table is searched by bisection. A period that the table holds gives
/// that entry, marked exact. Any other period gives the nearest entry with a
/// lower period (the next higher pitch), or the last entry where the period
/// lies below the whole table, and is not exact.
pub fn get_note(finetune: i8, period: u16) -> (r: Note)
    requires
        -8 <= finetune <= 7,
    ensures
        0 <= r.position() < 36,
        forall|i: int| 0 <= i < r.position() ==> period_table(finetune as int)[i] > period,
        r.position() < 35 ==> period_table(finetune as int)[r.position()] <= period,
        r.spec_exact() <==> period_table(finetune as int)[r.position()] == period,
        r.position() == note_position(finetune as int, period),
        0 <= r.spec_tone() < 12,
        0 <= r.spec_octave() < 3,
{
    let ft_idx: usize = (8 + finetune) as usize;
    let ghost table = NOTES[ft_idx as int]@;
    proof {
        lemma_row_descends(ft_idx as int);
    }
    let mut lo: usize = 0;
    let mut hi: usize = 35;
    while lo < hi
        invariant
            ft_idx < 16,
            table == NOTES[ft_idx as int]@,
            strictly_descending(table),
            lo <= hi <= 35,
            forall|i: int| 0 <= i < lo ==> table[i] > period,
            hi < 35 ==> table[hi as int] <= period,
        decreases hi - lo,
    {
        let mid: usize = lo + (hi - lo) / 2;
        if NOTES[ft_idx][mid] > period {
            lo = mid + 1;
        } else {
            hi = mid;
        }
    }
    proof {
        lemma_entries_above(table, period, lo as int, 35);
    }
    let exact = NOTES[ft_idx][lo] == period;
    let octave: u8 = (lo / 12) as u8;
    let tone: u8 = (lo % 12) as u8;
    Note { octave, tone, exact }
}

} // verus!
