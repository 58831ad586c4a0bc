use litex_panel::matrix::MatrixGrid;
use litex_panel::seeding::{grid_from_words, randomized_grid, LEVEL_BITS};
use oorandom::Rand32;

#[test]
fn words_are_reduced_to_their_intensity_bits() {
    let grid = grid_from_words([0xffff_ffff, 0x8888_8888, 0x7777_7777, 0, 0x89ab_cdef, 1, 8, 0xf000_000f]);
    assert_eq!(
        grid.rows,
        [0x7777_7777, 0, 0x7777_7777, 0, 0x0123_4567, 1, 0, 0x7000_0007]
    );
    assert_eq!(LEVEL_BITS, 0x7777_7777);
}

#[test]
fn a_randomized_grid_holds_the_generators_first_eight_words() {
    for seed in [0u64, 1, 0x0550_0550, u64::MAX] {
        let mut generator = Rand32::new(seed);
        let mut expected = [0u32; 8];
        for row in expected.iter_mut() {
            *row = generator.rand_u32() & 0x7777_7777;
        }
        assert_eq!(randomized_grid(seed).rows, expected);
    }
}

#[test]
fn the_same_seed_gives_the_same_grid() {
    let seed = MatrixGrid::emblem().seed();
    assert_eq!(randomized_grid(seed), randomized_grid(seed));
    assert_ne!(randomized_grid(seed), randomized_grid(seed + 1));
}

#[test]
fn every_cell_of_a_randomized_grid_is_an_intensity() {
    let grid = randomized_grid(12345);
    assert_ne!(grid.rows, [0u32; 8]);
    assert_ne!(grid.rows[0], grid.rows[1]);
    for row in 0..8 {
        for col in 0u32..8 {
            assert!(grid.level_at(row, col).unwrap() <= 7);
        }
        assert_eq!(grid.rows[row] & 0x8888_8888, 0);
    }
}

#[test]
fn decay_keeps_a_randomized_grid_within_range() {
    let mut grid = randomized_grid(7);
    let start = grid;
    for _ in 0..7 {
        grid.decay();
    }
    assert_eq!(grid, start);
}
