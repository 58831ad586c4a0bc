//! Random initial contents for the matrix, drawn from a generator that is
//! seeded once at start-up.

use crate::matrix::{level_of, MatrixGrid};
use oorandom::Rand32;
use vstd::prelude::*;

verus! {

/// The state in which a generator starts for a given seed.
pub uninterp spec fn seeded_state(seed: u64) -> (u64, u64);

/// The word that a generator in the given state hands out next, and the state
/// it is in afterward.
pub uninterp spec fn drawn(state: (u64, u64)) -> (u32, (u64, u64));

/// `Rand32::new`, read back with `Rand32::state`: the state of a generator
/// made from `seed` with the default increment. It depends on the seed alone.
#[verifier::external_body]
fn seed_generator(seed: u64) -> (state: (u64, u64))
    ensures
        state == seeded_state(seed),
{
    Rand32::new(seed).state()
}

/// `Rand32::rand_u32` on the generator that `Rand32::from_state` rebuilds:
/// the next word and the state that follows. Both depend on the state alone.
#[verifier::external_body]
fn draw_word(state: (u64, u64)) -> (out: (u32, (u64, u64)))
    ensures
        out == drawn(state),
{
    let mut generator: Rand32 = Rand32::from_state(state);
    let word: u32 = generator.rand_u32();
    (word, generator.state())
}

/// The bits of a row word that hold intensities: three in every nibble.
pub const LEVEL_BITS: u32 = 0x7777_7777;

/// The state of a generator made from `seed` after `n` words were drawn.
pub open spec fn state_after(seed: u64, n: nat) -> (u64, u64)
    decreases n,
{
    if n == 0 {
        seeded_state(seed)
    } else {
        drawn(state_after(seed, (n - 1) as nat)).1
    }
}

/// The first eight words that a generator made from `seed` hands out.
pub open spec fn drawn_words(seed: u64) -> Seq<u32> {
    Seq::new(8, |r: int| drawn(state_after(seed, r as nat)).0)
}

/// Row words made from arbitrary words by keeping the intensity bits only.
pub open spec fn masked_rows(words: Seq<u32>) -> Seq<u32> {
    Seq::new(words.len(), |r: int| words[r] & LEVEL_BITS)
}

/// Clearing the fourth bit of every nibble leaves each intensity as it was.
pub proof fn lemma_mask_keeps_levels(word: u32, col: u32)
    requires
        col < 8,
    ensures
        level_of(word & LEVEL_BITS, col) == level_of(word, col),
        (word & LEVEL_BITS) & 0x8888_8888 == 0,
{
    let shift = (4 * col) as u32;
    assert(shift < 32 && shift % 4 == 0 ==> ((word & 0x7777_7777u32) >> shift) & 7u32 == (word >> shift)
        & 7u32) by (bit_vector);
    assert((word & 0x7777_7777u32) & 0x8888_8888u32 == 0) by (bit_vector);
}

/// A grid whose rows are the given words with everything but the intensity
/// bits cleared, so that every cell holds an intensity from 0 to 7.
pub fn grid_from_words(words: [u32; 8]) -> (grid: MatrixGrid)
    ensures
        grid@ == masked_rows(words@),
        forall|r: int, col: u32|
            0 <= r < 8 && col < 8 ==> #[trigger] level_of(grid@[r], col) == level_of(words@[r], col),
{
    let mut rows: [u32; 8] = [0u32; 8];
    let mut row: usize = 0;
    while row < 8
        invariant
            row <= 8,
            forall|r: int| 0 <= r < row ==> rows@[r] == #[trigger] words@[r] & LEVEL_BITS,
        decreases 8 - row,
    {
        let ghost before = rows@;
        let word: u32 = words[row] & LEVEL_BITS;
        rows[row] = word;
        assert(rows@ =~= before.update(row as int, word));
        row = row + 1;
    }
    let grid = MatrixGrid::new(rows);
    assert(grid@ =~= masked_rows(words@));
    assert forall|r: int, col: u32| 0 <= r < 8 && col < 8 implies #[trigger] level_of(grid@[r], col)
        == level_of(words@[r], col) by {
        lemma_mask_keeps_levels(words@[r], col);
    }
    grid
}

/// A grid with random contents: the first eight words of the generator made
/// from `seed`, one for each row, reduced to their intensity bits.
pub fn randomized_grid(seed: u64) -> (grid: MatrixGrid)
    ensures
        grid@ == masked_rows(drawn_words(seed)),
{
    let mut state: (u64, u64) = seed_generator(seed);
    let mut words: [u32; 8] = [0u32; 8];
    let mut row: usize = 0;
    while row < 8
        invariant
            row <= 8,
            state == state_after(seed, row as nat),
            forall|r: int| 0 <= r < row ==> words@[r] == #[trigger] drawn_words(seed)[r],
        decreases 8 - row,
    {
        let ghost before = words@;
        let out: (u32, (u64, u64)) = draw_word(state);
        words[row] = out.0;
        assert(words@ =~= before.update(row as int, out.0));
        state = out.1;
        row = row + 1;
    }
    assert(words@ =~= drawn_words(seed));
    grid_from_words(words)
}

} // verus!
