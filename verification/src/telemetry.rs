//! Telemetry text: a bounded scratch buffer that is refilled every frame, and
//! the lines that are written into it.

use crate::matrix::MatrixGrid;
use arrayvec::ArrayString;
use numtoa::NumToA;
use vstd::prelude::*;
use vstd::string::StringSliceAdditionalSpecFns;

verus! {

/// Bytes that the scratch buffer can hold.
pub const CAPACITY: usize = 1024;

/// `arrayvec::ArrayString`, a string in a fixed array. Nothing inside it is
/// visible here; what it holds is spoken of through `held_bytes`.
#[verifier::external_type_specification]
#[verifier::external_body]
pub struct ExArrayString<const CAP: usize>(ArrayString<CAP>);

/// The bytes that a fixed-capacity string holds, first to last.
pub uninterp spec fn held_bytes(text: ArrayString<1024>) -> Seq<u8>;

/// `ArrayString::new`: a fixed-capacity string that holds nothing.
#[verifier::external_body]
fn empty_text() -> (text: ArrayString<1024>)
    ensures
        held_bytes(text) == Seq::<u8>::empty(),
{
    ArrayString::new()
}

/// `ArrayString::clear`: afterward the string holds nothing.
#[verifier::external_body]
fn clear_text(text: &mut ArrayString<1024>)
    ensures
        held_bytes(*final(text)) == Seq::<u8>::empty(),
    no_unwind
{
    text.clear()
}

/// `ArrayString::try_push_str`: where the bytes of `piece` fit into what is
/// left of the capacity they are appended, and otherwise the string is left
/// as it was. Returns whether they were appended.
#[verifier::external_body]
fn push_text(text: &mut ArrayString<1024>, piece: &str) -> (pushed: bool)
    ensures
        pushed == (held_bytes(*old(text)).len() + piece.spec_bytes().len() <= 1024),
        pushed ==> held_bytes(*final(text)) == held_bytes(*old(text)) + piece.spec_bytes(),
        !pushed ==> held_bytes(*final(text)) == held_bytes(*old(text)),
    no_unwind
{
    text.try_push_str(piece).is_ok()
}

/// `ArrayString::as_str`: the held bytes as a string slice.
#[verifier::external_body]
fn text_as_str(text: &ArrayString<1024>) -> (slice: &str)
    ensures
        slice.spec_bytes() == held_bytes(*text),
{
    text.as_str()
}

/// The character that stands for the digit value `d`: `0` to `9`, then `A`
/// to `Z`.
pub open spec fn digit_char(d: nat) -> char {
    if d < 10 {
        ((48 + d) as u8) as char
    } else {
        ((55 + d) as u8) as char
    }
}

/// The digits of `n` in the given base, most significant first, without
/// leading zeros; zero is the single digit `0`.
pub open spec fn radix_digits(n: nat, base: nat) -> Seq<char>
    decreases n,
{
    if base < 2 || n < base {
        seq![digit_char(n)]
    } else {
        proof {
            assert(base >= 2 && n >= base ==> n / base < n) by (nonlinear_arith);
        }
        radix_digits(n / base, base).push(digit_char(n % base))
    }
}

/// Characters of the ASCII range as bytes, one for one.
pub open spec fn ascii_bytes(chars: Seq<char>) -> Seq<u8> {
    Seq::new(chars.len(), |i: int| chars[i] as u8)
}

/// `NumToA::numtoa_str` for `u32`: the digits of `value` in the given base,
/// most significant first, with upper-case letters for digit values above
/// nine. The bases that the conversion has digits for are 2 to 36, and the
/// 32 bytes it is given hold a `u32` in any of them.
#[verifier::external_body]
fn radix_text(value: u32, base: u32) -> (text: String)
    requires
        2 <= base <= 36,
    ensures
        text@ == radix_digits(value as nat, base as nat),
{
    let mut buffer: [u8; 32] = [0u8; 32];
    value.numtoa_str(base, &mut buffer).to_string()
}

/// Every digit of a number written in a base up to 36 is an ASCII character,
/// and a number below the base has one digit.
pub proof fn lemma_radix_digits_ascii(n: nat, base: nat)
    requires
        2 <= base <= 36,
    ensures
        vstd::utf8::is_ascii_chars(radix_digits(n, base)),
        radix_digits(n, base).len() >= 1,
        n < base ==> radix_digits(n, base).len() == 1,
    decreases n,
{
    if n >= base {
        assert(n / base < n) by (nonlinear_arith)
            requires
                base >= 2,
                n >= base,
        ;
        assert(n % base < base) by (nonlinear_arith)
            requires
                base >= 2,
        ;
        lemma_radix_digits_ascii(n / base, base);
    }
}

/// The text was refused: it does not fit into what is left of the scratch
/// buffer.
#[derive(Clone, Copy, Debug, PartialEq, Eq, Structural)]
pub struct Overflow;

/// The scratch buffer for telemetry text: at most 1024 bytes, reused every
/// frame. Text that does not fit is refused whole, never cut short.
pub struct Scratch {
    text: ArrayString<1024>,
}

impl View for Scratch {
    type V = Seq<u8>;

    closed spec fn view(&self) -> Seq<u8> {
        held_bytes(self.text)
    }
}

impl Scratch {
    #[verifier::type_invariant]
    spec fn within_capacity(self) -> bool {
        held_bytes(self.text).len() <= 1024
    }

    /// An empty scratch buffer.
    pub fn new() -> (scratch: Scratch)
        ensures
            scratch@ == Seq::<u8>::empty(),
    {
        Scratch { text: empty_text() }
    }

    /// Empties the buffer.
    pub fn clear(&mut self)
        ensures
            final(self)@ == Seq::<u8>::empty(),
    {
        clear_text(&mut self.text);
    }

    /// Appends `piece` where it fits and refuses it, leaving the buffer as it
    /// was, where it does not.
    pub fn append(&mut self, piece: &str) -> (result: Result<(), Overflow>)
        ensures
            old(self)@.len() <= 1024,
            result.is_ok() == (old(self)@.len() + piece.spec_bytes().len() <= 1024),
            result.is_ok() ==> final(self)@ == old(self)@ + piece.spec_bytes(),
            result.is_err() ==> final(self)@ == old(self)@,
    {
        proof {
            use_type_invariant(&*self);
        }
        if push_text(&mut self.text, piece) {
            Ok(())
        } else {
            Err(Overflow)
        }
    }

    /// The text in the buffer.
    pub fn as_str(&self) -> (text: &str)
        ensures
            text.spec_bytes() == self@,
            self@.len() <= 1024,
    {
        proof {
            use_type_invariant(self);
        }
        text_as_str(&self.text)
    }

    /// The bytes in the buffer, as they go out on the serial line.
    pub fn as_bytes(&self) -> (bytes: &[u8])
        ensures
            bytes@ == self@,
            self@.len() <= 1024,
    {
        self.as_str().as_bytes()
    }
}

/// The bytes of a number written in the given base.
pub open spec fn radix_bytes(n: nat, base: nat) -> Seq<u8> {
    ascii_bytes(radix_digits(n, base))
}

/// The digits that the conversion hands back are ASCII, so as bytes they are
/// the digit characters one for one.
proof fn lemma_digit_text_bytes(text: &str, n: nat, base: nat)
    requires
        2 <= base <= 36,
        text@ == radix_digits(n, base),
    ensures
        text.spec_bytes() == radix_bytes(n, base),
        text.spec_bytes().len() == radix_digits(n, base).len(),
{
    lemma_radix_digits_ascii(n, base);
    vstd::string::is_ascii_spec_bytes(text);
    assert(text.spec_bytes() =~= radix_bytes(n, base));
}

impl Scratch {
    /// Appends `value` in decimal where it fits, and refuses it otherwise.
    pub fn append_decimal(&mut self, value: u32) -> (result: Result<(), Overflow>)
        ensures
            result.is_ok() == (old(self)@.len() + radix_bytes(value as nat, 10).len() <= 1024),
            result.is_ok() ==> final(self)@ == old(self)@ + radix_bytes(value as nat, 10),
            result.is_err() ==> final(self)@ == old(self)@,
    {
        let digits: String = radix_text(value, 10);
        let piece: &str = digits.as_str();
        proof {
            lemma_digit_text_bytes(piece, value as nat, 10);
        }
        self.append(piece)
    }

    /// Appends `value` in upper-case hexadecimal where it fits, and refuses it
    /// otherwise.
    pub fn append_hex(&mut self, value: u32) -> (result: Result<(), Overflow>)
        ensures
            result.is_ok() == (old(self)@.len() + radix_bytes(value as nat, 16).len() <= 1024),
            result.is_ok() ==> final(self)@ == old(self)@ + radix_bytes(value as nat, 16),
            result.is_err() ==> final(self)@ == old(self)@,
    {
        let digits: String = radix_text(value, 16);
        let piece: &str = digits.as_str();
        proof {
            lemma_digit_text_bytes(piece, value as nat, 16);
        }
        self.append(piece)
    }
}

/// The telemetry line of a frame: the title, the frame counter in decimal and
/// a line feed.
pub open spec fn frame_line(title: Seq<u8>, counter: u32) -> Seq<u8> {
    title + radix_bytes(counter as nat, 10) + seq![10u8]
}

/// The line that reports one matrix row: the row number in decimal, a space,
/// `0x`, the row word in hexadecimal and a line feed.
pub open spec fn row_line(row: nat, word: u32) -> Seq<u8> {
    radix_bytes(row, 10) + seq![32u8, 48u8, 120u8] + radix_bytes(word as nat, 16) + seq![10u8]
}

/// The lines that report the first `n` rows of a matrix, in order.
pub open spec fn matrix_lines(rows: Seq<u32>, n: nat) -> Seq<u8>
    decreases n,
{
    if n == 0 {
        Seq::empty()
    } else {
        matrix_lines(rows, (n - 1) as nat) + row_line((n - 1) as nat, rows[n - 1])
    }
}

/// A 32-bit word has at most eight hexadecimal digits.
pub proof fn lemma_hex_width(word: u32)
    ensures
        1 <= radix_digits(word as nat, 16).len() <= 8,
{
    reveal_with_fuel(radix_digits, 9);
}

/// A 32-bit number has at most ten decimal digits.
pub proof fn lemma_decimal_width(value: u32)
    ensures
        1 <= radix_digits(value as nat, 10).len() <= 10,
{
    reveal_with_fuel(radix_digits, 11);
}

/// The bytes of a line feed.
proof fn lemma_line_feed_bytes()
    ensures
        "\n".spec_bytes() == seq![10u8],
{
    reveal_strlit("\n");
    vstd::string::is_ascii_spec_bytes("\n");
    assert("\n".spec_bytes() =~= seq![10u8]);
}

/// The bytes of the text that stands between a row number and a row word.
proof fn lemma_hex_prefix_bytes()
    ensures
        " 0x".spec_bytes() == seq![32u8, 48u8, 120u8],
{
    reveal_strlit(" 0x");
    vstd::string::is_ascii_spec_bytes(" 0x");
    assert(" 0x".spec_bytes() =~= seq![32u8, 48u8, 120u8]);
}

impl Scratch {
    /// Refills the buffer with the telemetry line of a frame. Where the line
    /// does not fit it is refused and the buffer is left empty.
    pub fn write_frame_line(&mut self, title: &str, counter: u32) -> (result: Result<(), Overflow>)
        ensures
            result.is_ok() == (frame_line(title.spec_bytes(), counter).len() <= 1024),
            result.is_ok() ==> final(self)@ == frame_line(title.spec_bytes(), counter),
            result.is_err() ==> final(self)@ == Seq::<u8>::empty(),
    {
        proof {
            lemma_line_feed_bytes();
            lemma_decimal_width(counter);
        }
        self.clear();
        if self.append(title).is_err() {
            self.clear();
            return Err(Overflow);
        }
        if self.append_decimal(counter).is_err() {
            self.clear();
            return Err(Overflow);
        }
        if self.append("\n").is_err() {
            self.clear();
            return Err(Overflow);
        }
        Ok(())
    }

    /// Refills the buffer with one line for each row of the matrix. The eight
    /// lines always fit.
    pub fn write_matrix_dump(&mut self, grid: &MatrixGrid)
        ensures
            final(self)@ == matrix_lines(grid@, 8),
            final(self)@.len() <= 104,
    {
        self.clear();
        let mut row: usize = 0;
        while row < 8
            invariant
                row <= 8,
                self@ == matrix_lines(grid@, row as nat),
                self@.len() <= 13 * row,
            decreases 8 - row,
        {
            proof {
                lemma_line_feed_bytes();
                lemma_hex_prefix_bytes();
                lemma_hex_width(grid@[row as int]);
                lemma_radix_digits_ascii(row as nat, 10);
            }
            let word: u32 = grid.rows[row];
            let number = self.append_decimal(row as u32);
            assert(number.is_ok());
            let prefix = self.append(" 0x");
            assert(prefix.is_ok());
            let digits = self.append_hex(word);
            assert(digits.is_ok());
            let end = self.append("\n");
            assert(end.is_ok());
            row = row + 1;
        }
    }
}

} // verus!
