//! The 8x8 LED matrix: eight 32-bit row words, each holding eight 4-bit
//! intensity fields, and the two per-frame update rules that animate it.

use vstd::prelude::*;

verus! {

/// Number of row words in the register bank.
pub const ROWS: usize = 8;

/// Number of intensity fields in one row word.
pub const COLUMNS: u32 = 8;

/// Brightest intensity a field can show.
pub const MAX_LEVEL: u32 = 7;

/// The intensity of column `col` in a row word: the low three bits of nibble `col`.
pub open spec fn level_of(word: u32, col: u32) -> u32 {
    (word >> (4 * col) as u32) & 7u32
}

/// The decay-with-rearm rule on one intensity: off stays off, one re-arms to
/// full brightness, anything brighter dims by one.
pub open spec fn decayed(level: u32) -> u32 {
    if level == 0 {
        0
    } else if level == 1 {
        7
    } else {
        (level - 1) as u32
    }
}

/// Applies the decay-with-rearm rule to one intensity.
pub fn decay_level(level: u32) -> (next: u32)
    ensures
        next == decayed(level),
        level == 0 ==> next == 0,
        level == 1 ==> next == 7,
        2 <= level <= 7 ==> next == level - 1,
{
    if level == 0 {
        0
    } else if level == 1 {
        MAX_LEVEL
    } else {
        level - 1
    }
}

/// The word that holds the decayed intensities of the first `n` columns of
/// `word` and nothing above them.
pub open spec fn decay_prefix(word: u32, n: u32) -> u32
    decreases n,
{
    if n == 0 {
        0
    } else {
        let col = (n - 1) as u32;
        decay_prefix(word, col) | (decayed(level_of(word, col)) << (4 * col) as u32)
    }
}

/// A row word after one frame of decay-with-rearm.
pub open spec fn decayed_word(word: u32) -> u32 {
    decay_prefix(word, 8)
}

/// Packing eight intensities, none above seven, into a word keeps each of them
/// readable in its own column and leaves the fourth bit of every nibble clear.
proof fn lemma_packed_fields(a: u32, b: u32, c: u32, d: u32, e: u32, f: u32, g: u32, h: u32)
    by (bit_vector)
    requires
        a <= 7,
        b <= 7,
        c <= 7,
        d <= 7,
        e <= 7,
        f <= 7,
        g <= 7,
        h <= 7,
    ensures
        ({
            let w = 0u32 | (a << 0u32) | (b << 4u32) | (c << 8u32) | (d << 12u32) | (e << 16u32)
                | (f << 20u32) | (g << 24u32) | (h << 28u32);
            &&& (w >> 0u32) & 7u32 == a
            &&& (w >> 4u32) & 7u32 == b
            &&& (w >> 8u32) & 7u32 == c
            &&& (w >> 12u32) & 7u32 == d
            &&& (w >> 16u32) & 7u32 == e
            &&& (w >> 20u32) & 7u32 == f
            &&& (w >> 24u32) & 7u32 == g
            &&& (w >> 28u32) & 7u32 == h
            &&& w & 0x8888_8888u32 == 0
        }),
{
}

/// An intensity read from a word never exceeds seven, and neither does its
/// decayed value.
pub proof fn lemma_level_bounds(word: u32, col: u32)
    ensures
        level_of(word, col) <= 7,
        decayed(level_of(word, col)) <= 7,
{
    let shifted = word >> (4 * col) as u32;
    assert(shifted & 7u32 <= 7) by (bit_vector);
}

/// Every column of a decayed word holds the decayed intensity of the same
/// column of the word it came from, and no other bit is set.
pub proof fn lemma_decayed_word_fields(word: u32)
    ensures
        forall|col: u32| col < 8 ==> #[trigger] level_of(decayed_word(word), col) == decayed(level_of(word, col)),
        decayed_word(word) & 0x8888_8888 == 0,
{
    reveal_with_fuel(decay_prefix, 9);
    lemma_level_bounds(word, 0);
    lemma_level_bounds(word, 1);
    lemma_level_bounds(word, 2);
    lemma_level_bounds(word, 3);
    lemma_level_bounds(word, 4);
    lemma_level_bounds(word, 5);
    lemma_level_bounds(word, 6);
    lemma_level_bounds(word, 7);
    lemma_packed_fields(
        decayed(level_of(word, 0)),
        decayed(level_of(word, 1)),
        decayed(level_of(word, 2)),
        decayed(level_of(word, 3)),
        decayed(level_of(word, 4)),
        decayed(level_of(word, 5)),
        decayed(level_of(word, 6)),
        decayed(level_of(word, 7)),
    );
    assert forall|col: u32| col < 8 implies #[trigger] level_of(decayed_word(word), col) == decayed(
        level_of(word, col),
    ) by {
        assert(col == 0 || col == 1 || col == 2 || col == 3 || col == 4 || col == 5 || col == 6 || col == 7);
    }
}

/// Applies decay-with-rearm to each of the eight intensities of a row word.
pub fn decay_row(word: u32) -> (next: u32)
    ensures
        next == decayed_word(word),
        forall|col: u32| col < 8 ==> #[trigger] level_of(next, col) == decayed(level_of(word, col)),
        next & 0x8888_8888 == 0,
{
    let mut next: u32 = 0;
    let mut col: u32 = 0;
    while col < COLUMNS
        invariant
            col <= 8,
            next == decay_prefix(word, col),
        decreases 8 - col,
    {
        let level: u32 = (word >> (4 * col)) & 7;
        let lit: u32 = decay_level(level);
        next = next | (lit << (4 * col));
        col = col + 1;
    }
    proof {
        lemma_decayed_word_fields(word);
    }
    next
}

/// The decay rule applied `n` times in a row to one intensity.
pub open spec fn decayed_times(level: u32, n: nat) -> u32
    decreases n,
{
    if n == 0 {
        level
    } else {
        decayed(decayed_times(level, (n - 1) as nat))
    }
}

/// Starting from intensity one, eight frames of decay show 7, 6, 5, 4, 3, 2, 1
/// and then 7 again.
pub proof fn lemma_decay_trace_from_one()
    ensures
        decayed_times(1, 1) == 7,
        decayed_times(1, 2) == 6,
        decayed_times(1, 3) == 5,
        decayed_times(1, 4) == 4,
        decayed_times(1, 5) == 3,
        decayed_times(1, 6) == 2,
        decayed_times(1, 7) == 1,
        decayed_times(1, 8) == 7,
{
    reveal_with_fuel(decayed_times, 9);
}

/// A lit intensity never goes dark: decay maps 1..=7 onto 1..=7, and an
/// intensity that is off stays off.
pub proof fn lemma_decay_keeps_lit(level: u32)
    requires
        level <= 7,
    ensures
        decayed(level) <= 7,
        level == 0 <==> decayed(level) == 0,
{
}

/// Seven frames of decay bring every lit intensity back to where it was.
pub proof fn lemma_decay_period(level: u32)
    requires
        1 <= level <= 7,
    ensures
        decayed_times(level, 7) == level,
{
    reveal_with_fuel(decayed_times, 8);
}

/// The row that the marquee lights at frame `frame`.
pub open spec fn marquee_row(frame: u32) -> int {
    (frame as int / 8) % 8
}

/// The word that the marquee writes to its lit row at frame `frame`: three
/// adjacent bits, moved up by the frame number modulo eight.
pub open spec fn marquee_window(frame: u32) -> u32 {
    7u32 << (frame % 8u32)
}

/// The marquee window is never empty and never reaches above bit nine.
pub proof fn lemma_marquee_window_bounds(frame: u32)
    ensures
        marquee_window(frame) != 0,
        marquee_window(frame) & !0x3ffu32 == 0,
        marquee_window(frame) <= 0x380,
        frame % 8 == 7 ==> marquee_window(frame) == 0x380,
        frame % 8 == 0 ==> marquee_window(frame) == 7,
{
    let w = marquee_window(frame);
    assert(7u32 << (frame % 8u32) != 0) by (bit_vector);
    assert((7u32 << (frame % 8u32)) & !0x3ffu32 == 0) by (bit_vector);
    assert(7u32 << (frame % 8u32) <= 0x380) by (bit_vector);
    assert(frame % 8u32 == 7 ==> 7u32 << (frame % 8u32) == 0x380) by (bit_vector);
    assert(frame % 8u32 == 0 ==> 7u32 << (frame % 8u32) == 7) by (bit_vector);
}

/// Index of the row that the marquee lights at frame `frame`.
pub fn marquee_row_index(frame: u32) -> (row: usize)
    ensures
        row == marquee_row(frame),
        row < 8,
{
    let row: u32 = (frame / 8) % 8;
    row as usize
}

/// The word written to the lit row at frame `frame`.
pub fn marquee_row_word(frame: u32) -> (word: u32)
    ensures
        word == marquee_window(frame),
        word != 0,
        word <= 0x380,
{
    proof {
        lemma_marquee_window_bounds(frame);
    }
    7u32 << (frame % 8)
}

/// The eight rows that the marquee shows at frame `frame`: the window in the
/// lit row, zero in the seven others.
pub open spec fn marquee_rows(frame: u32) -> Seq<u32> {
    Seq::new(
        8,
        |r: int|
            if r == marquee_row(frame) {
                marquee_window(frame)
            } else {
                0u32
            },
    )
}

/// The eight rows one frame of decay-with-rearm after `rows`.
pub open spec fn decayed_rows(rows: Seq<u32>) -> Seq<u32> {
    Seq::new(rows.len(), |r: int| decayed_word(rows[r]))
}

/// At every frame the marquee lights exactly one row, the one numbered
/// `floor(frame / 8) mod 8`, and that row shows the window.
pub proof fn lemma_marquee_single_row(frame: u32)
    ensures
        marquee_rows(frame).len() == 8,
        0 <= marquee_row(frame) < 8,
        forall|r: int| 0 <= r < 8 ==> (#[trigger] marquee_rows(frame)[r] != 0 <==> r == marquee_row(frame)),
        marquee_rows(frame)[marquee_row(frame)] == marquee_window(frame),
{
    lemma_marquee_window_bounds(frame);
}

/// The per-frame update rule of the matrix, fixed when the firmware is built.
#[derive(Clone, Copy, Debug, PartialEq, Eq)]
pub enum AnimationMode {
    /// Every intensity counts down and re-arms from one to seven.
    Decay,
    /// One row at a time shows a three-bit window that sweeps upward.
    Marquee,
}

/// The register bank of the matrix as a value: eight row words.
#[derive(Clone, Copy, Debug, PartialEq, Eq)]
pub struct MatrixGrid {
    pub rows: [u32; 8],
}

impl View for MatrixGrid {
    type V = Seq<u32>;

    open spec fn view(&self) -> Seq<u32> {
        self.rows@
    }
}

impl MatrixGrid {
    /// A grid holding the given row words.
    pub fn new(rows: [u32; 8]) -> (grid: MatrixGrid)
        ensures
            grid@ == rows@,
    {
        MatrixGrid { rows }
    }

    /// The pattern shown at power-up, before the first frame of animation.
    pub fn emblem() -> (grid: MatrixGrid)
        ensures
            grid@ == seq![
                0x0550_0550u32,
                0x5445_5445u32,
                0x5444_4445u32,
                0x5444_4445u32,
                0x5444_4445u32,
                0x0544_4450u32,
                0x0054_4500u32,
                0x0005_5000u32,
            ],
    {
        let grid = MatrixGrid {
            rows: [
                0x0550_0550,
                0x5445_5445,
                0x5444_4445,
                0x5444_4445,
                0x5444_4445,
                0x0544_4450,
                0x0054_4500,
                0x0005_5000,
            ],
        };
        assert(grid@ =~= seq![
            0x0550_0550u32,
            0x5445_5445u32,
            0x5444_4445u32,
            0x5444_4445u32,
            0x5444_4445u32,
            0x0544_4450u32,
            0x0054_4500u32,
            0x0005_5000u32,
        ]);
        grid
    }

    /// A grid with every intensity off.
    pub fn blank() -> (grid: MatrixGrid)
        ensures
            grid@ == Seq::new(8, |r: int| 0u32),
    {
        let grid = MatrixGrid { rows: [0u32; 8] };
        assert(grid@ =~= Seq::new(8, |r: int| 0u32));
        grid
    }

    /// The word of row `row`, or nothing where `row` is outside the bank.
    pub fn read(&self, row: usize) -> (word: Option<u32>)
        ensures
            row < 8 ==> word == Some(self@[row as int]),
            row >= 8 ==> word.is_none(),
    {
        if row < ROWS {
            Some(self.rows[row])
        } else {
            None
        }
    }

    /// Replaces the whole word of row `row`. Returns whether `row` is inside
    /// the bank; outside it nothing is written.
    pub fn write(&mut self, row: usize, word: u32) -> (written: bool)
        ensures
            written == (row < 8),
            row < 8 ==> final(self)@ == old(self)@.update(row as int, word),
            row >= 8 ==> final(self)@ == old(self)@,
    {
        if row < ROWS {
            self.rows[row] = word;
            assert(self@ =~= old(self)@.update(row as int, word));
            true
        } else {
            false
        }
    }

    /// The intensity of one cell, or nothing where the cell is outside the grid.
    pub fn level_at(&self, row: usize, col: u32) -> (level: Option<u32>)
        ensures
            row < 8 && col < 8 ==> level == Some(level_of(self@[row as int], col)),
            row >= 8 || col >= 8 ==> level.is_none(),
    {
        if row < ROWS && col < COLUMNS {
            Some((self.rows[row] >> (4 * col)) & 7)
        } else {
            None
        }
    }

    /// The first row word, widened: the value a generator is seeded from.
    pub fn seed(&self) -> (seed: u64)
        ensures
            seed == self@[0],
    {
        self.rows[0] as u64
    }

    /// One frame of decay-with-rearm on every cell.
    pub fn decay(&mut self)
        ensures
            final(self)@ == decayed_rows(old(self)@),
            forall|r: int, col: u32|
                0 <= r < 8 && col < 8 ==> #[trigger] level_of(final(self)@[r], col) == decayed(
                    level_of(old(self)@[r], col),
                ),
    {
        let mut row: usize = 0;
        while row < ROWS
            invariant
                row <= 8,
                forall|r: int| 0 <= r < row ==> self@[r] == decayed_word(#[trigger] old(self)@[r]),
                forall|r: int| row <= r < 8 ==> self@[r] == #[trigger] old(self)@[r],
            decreases 8 - row,
        {
            let next: u32 = decay_row(self.rows[row]);
            self.rows[row] = next;
            row = row + 1;
        }
        assert(self@ =~= decayed_rows(old(self)@));
        assert forall|r: int, col: u32| 0 <= r < 8 && col < 8 implies #[trigger] level_of(
            self@[r],
            col,
        ) == decayed(level_of(old(self)@[r], col)) by {
            lemma_decayed_word_fields(old(self)@[r]);
        }
    }

    /// One frame of the marquee: every row is overwritten, the lit row with
    /// the window and the others with zero.
    pub fn marquee(&mut self, frame: u32)
        ensures
            final(self)@ == marquee_rows(frame),
    {
        let lit: usize = marquee_row_index(frame);
        let window: u32 = marquee_row_word(frame);
        let mut row: usize = 0;
        while row < ROWS
            invariant
                row <= 8,
                lit == marquee_row(frame),
                window == marquee_window(frame),
                forall|r: int| 0 <= r < row ==> #[trigger] self@[r] == marquee_rows(frame)[r],
            decreases 8 - row,
        {
            let ghost before = self@;
            let word: u32 = if row == lit {
                window
            } else {
                0
            };
            self.rows[row] = word;
            assert(self@ =~= before.update(row as int, word));
            row = row + 1;
        }
        assert(self@ =~= marquee_rows(frame));
    }

    /// Advances the grid by one frame under the given rule.
    pub fn advance(&mut self, mode: AnimationMode, frame: u32)
        ensures
            mode == AnimationMode::Decay ==> final(self)@ == decayed_rows(old(self)@),
            mode == AnimationMode::Marquee ==> final(self)@ == marquee_rows(frame),
    {
        match mode {
            AnimationMode::Decay => self.decay(),
            AnimationMode::Marquee => self.marquee(frame),
        }
    }
}

} // verus!
