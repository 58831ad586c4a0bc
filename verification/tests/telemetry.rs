use litex_panel::matrix::MatrixGrid;
use litex_panel::telemetry::{Overflow, Scratch, CAPACITY};

#[test]
fn a_new_scratch_buffer_is_empty() {
    let scratch = Scratch::new();
    assert_eq!(scratch.as_str(), "");
    assert_eq!(scratch.as_bytes(), b"");
    assert_eq!(CAPACITY, 1024);
}

#[test]
fn append_adds_text_at_the_end() {
    let mut scratch = Scratch::new();
    assert_eq!(scratch.append("frame "), Ok(()));
    assert_eq!(scratch.append("one"), Ok(()));
    assert_eq!(scratch.as_str(), "frame one");
    scratch.clear();
    assert_eq!(scratch.as_str(), "");
}

#[test]
fn append_refuses_what_does_not_fit() {
    let mut scratch = Scratch::new();
    let filler = "x".repeat(1020);
    assert_eq!(scratch.append(&filler), Ok(()));
    assert_eq!(scratch.append("12345"), Err(Overflow));
    assert_eq!(scratch.as_str(), filler);
    assert_eq!(scratch.append("1234"), Ok(()));
    assert_eq!(scratch.as_bytes().len(), 1024);
    assert_eq!(scratch.append("1"), Err(Overflow));
    assert_eq!(scratch.append(""), Ok(()));
    assert_eq!(scratch.as_bytes().len(), 1024);
}

#[test]
fn capacity_counts_bytes_not_characters() {
    let mut scratch = Scratch::new();
    let filler = "x".repeat(1022);
    assert_eq!(scratch.append(&filler), Ok(()));
    assert_eq!(scratch.append("\u{20ac}"), Err(Overflow));
    assert_eq!(scratch.append("\u{e9}"), Ok(()));
    assert_eq!(scratch.as_bytes().len(), 1024);
}

#[test]
fn decimal_digits() {
    for (value, text) in [
        (0u32, "0"),
        (7, "7"),
        (10, "10"),
        (99, "99"),
        (100, "100"),
        (999, "999"),
        (1000, "1000"),
        (9999, "9999"),
        (10000, "10000"),
        (162392, "162392"),
        (4294967295, "4294967295"),
    ] {
        let mut scratch = Scratch::new();
        assert_eq!(scratch.append_decimal(value), Ok(()));
        assert_eq!(scratch.as_str(), text);
    }
}

#[test]
fn hexadecimal_digits_are_upper_case_without_padding() {
    for (value, text) in [
        (0u32, "0"),
        (9, "9"),
        (10, "A"),
        (15, "F"),
        (16, "10"),
        (0xdead_beef, "DEADBEEF"),
        (0x0550_0550, "5500550"),
        (0xffff_ffff, "FFFFFFFF"),
    ] {
        let mut scratch = Scratch::new();
        assert_eq!(scratch.append_hex(value), Ok(()));
        assert_eq!(scratch.as_str(), text);
    }
}

#[test]
fn numbers_are_refused_whole_when_they_do_not_fit() {
    let mut scratch = Scratch::new();
    let filler = "x".repeat(1021);
    assert_eq!(scratch.append(&filler), Ok(()));
    assert_eq!(scratch.append_decimal(1000), Err(Overflow));
    assert_eq!(scratch.append_hex(0x1000), Err(Overflow));
    assert_eq!(scratch.as_str(), filler);
    assert_eq!(scratch.append_decimal(999), Ok(()));
    assert!(scratch.as_str().ends_with("x999"));
}

#[test]
fn frame_line_is_title_counter_and_line_feed() {
    let mut scratch = Scratch::new();
    assert_eq!(scratch.append("left over"), Ok(()));
    assert_eq!(scratch.write_frame_line("Frame ", 42), Ok(()));
    assert_eq!(scratch.as_str(), "Frame 42\n");
    assert_eq!(scratch.as_bytes(), b"Frame 42\n");
    assert_eq!(scratch.write_frame_line("", 0), Ok(()));
    assert_eq!(scratch.as_str(), "0\n");
    assert_eq!(scratch.write_frame_line("n=", u32::MAX), Ok(()));
    assert_eq!(scratch.as_str(), "n=4294967295\n");
}

#[test]
fn frame_line_that_does_not_fit_leaves_the_buffer_empty() {
    let mut scratch = Scratch::new();
    let exact = "t".repeat(1024 - 3);
    assert_eq!(scratch.write_frame_line(&exact, 10), Ok(()));
    assert_eq!(scratch.as_bytes().len(), 1024);
    assert_eq!(scratch.write_frame_line(&exact, 100), Err(Overflow));
    assert_eq!(scratch.as_str(), "");
    let long = "t".repeat(1024);
    assert_eq!(scratch.write_frame_line(&long, 1), Err(Overflow));
    assert_eq!(scratch.as_str(), "");
    let longer = "t".repeat(5000);
    assert_eq!(scratch.write_frame_line(&longer, 1), Err(Overflow));
    assert_eq!(scratch.as_str(), "");
    let tight = "t".repeat(1023);
    assert_eq!(scratch.write_frame_line(&tight, 1), Err(Overflow));
    assert_eq!(scratch.as_str(), "");
}

#[test]
fn matrix_dump_has_a_line_for_each_row() {
    let mut scratch = Scratch::new();
    scratch.write_matrix_dump(&MatrixGrid::emblem());
    assert_eq!(
        scratch.as_str(),
        "0 0x5500550\n1 0x54455445\n2 0x54444445\n3 0x54444445\n4 0x54444445\n5 0x5444450\n6 0x544500\n7 0x55000\n"
    );
}

#[test]
fn matrix_dump_of_extreme_grids() {
    let mut scratch = Scratch::new();
    assert_eq!(scratch.append(&"x".repeat(1024)), Ok(()));
    scratch.write_matrix_dump(&MatrixGrid::blank());
    assert_eq!(scratch.as_str(), "0 0x0\n1 0x0\n2 0x0\n3 0x0\n4 0x0\n5 0x0\n6 0x0\n7 0x0\n");
    scratch.write_matrix_dump(&MatrixGrid::new([0xffff_ffff; 8]));
    assert_eq!(scratch.as_bytes().len(), 104);
    assert!(scratch.as_str().starts_with("0 0xFFFFFFFF\n1 0xFFFFFFFF\n"));
}
