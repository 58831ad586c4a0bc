//! The eight indicator lines, which mirror the low byte of the frame counter.

use vstd::prelude::*;

verus! {

/// Number of indicator lines.
pub const LINES: u32 = 8;

/// Whether line `line` is driven high for the counter value `counter`: the
/// line exists and bit `line` of the counter's low byte is set.
pub open spec fn indicator_high(counter: u32, line: u32) -> bool {
    line < 8 && (counter & 0xffu32) & (1u32 << line) != 0
}

/// Bit `line` of the low byte is the parity of the counter modulo 256
/// divided by two to the power `line`.
pub proof fn lemma_indicator_is_bit_of_low_byte(counter: u32, line: u32)
    requires
        line < 8,
    ensures
        indicator_high(counter, line) <==> (((counter % 256) as u32 >> line) % 2 == 1),
        indicator_high(counter, line) == indicator_high((counter % 256) as u32, line),
{
    assert(line < 8 ==> (((counter & 0xffu32) & (1u32 << line) != 0) <==> (((counter % 256u32) >> line)
        % 2u32 == 1))) by (bit_vector);
    assert((counter % 256u32) & 0xffu32 == counter & 0xffu32) by (bit_vector);
}

/// Level of indicator line `line` for the counter value `counter`.
pub fn indicator_level(counter: u32, line: u32) -> (high: bool)
    ensures
        high == indicator_high(counter, line),
{
    if line < LINES {
        (counter & 0xff) & (1u32 << line) != 0
    } else {
        false
    }
}

/// Levels of all eight indicator lines for the counter value `counter`.
pub fn indicator_levels(counter: u32) -> (levels: [bool; 8])
    ensures
        forall|line: u32| line < 8 ==> levels@[line as int] == #[trigger] indicator_high(counter, line),
{
    let mut levels: [bool; 8] = [false; 8];
    let mut line: u32 = 0;
    while line < LINES
        invariant
            line <= 8,
            forall|j: u32| j < line ==> levels@[j as int] == #[trigger] indicator_high(counter, j),
        decreases 8 - line,
    {
        let ghost before = levels@;
        let high: bool = indicator_level(counter, line);
        levels[line as usize] = high;
        assert(levels@ =~= before.update(line as int, high));
        line = line + 1;
    }
    levels
}

} // verus!
