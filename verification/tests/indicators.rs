use litex_panel::indicators::{indicator_level, indicator_levels};

#[test]
fn indicators_mirror_the_low_byte() {
    for counter in [0u32, 255, 0b1010_1010] {
        let levels = indicator_levels(counter);
        for line in 0u32..8 {
            let bit = ((counter % 256) >> line) & 1 == 1;
            assert_eq!(levels[line as usize], bit);
            assert_eq!(indicator_level(counter, line), bit);
        }
    }
}

#[test]
fn indicator_patterns_for_the_named_counters() {
    assert_eq!(indicator_levels(0), [false; 8]);
    assert_eq!(indicator_levels(255), [true; 8]);
    assert_eq!(
        indicator_levels(0b1010_1010),
        [false, true, false, true, false, true, false, true]
    );
}

#[test]
fn indicators_ignore_everything_above_the_low_byte() {
    assert_eq!(indicator_levels(256), [false; 8]);
    assert_eq!(indicator_levels(0x1ff), [true; 8]);
    assert_eq!(indicator_levels(0xffff_ff01), indicator_levels(1));
    assert_eq!(indicator_levels(u32::MAX), [true; 8]);
}

#[test]
fn there_is_no_ninth_indicator() {
    assert!(!indicator_level(u32::MAX, 8));
    assert!(!indicator_level(u32::MAX, 31));
    assert!(!indicator_level(u32::MAX, 32));
    assert!(!indicator_level(u32::MAX, u32::MAX));
}
