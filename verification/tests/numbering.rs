use textutils::decimal::{decimal_digits, push_right_aligned};
use textutils::numbering::{emit_numbered, NumberMode, Numberer};

#[test]
fn number_nonblank_scenario() {
    let out = emit_numbered(b"a\n\nb\n", NumberMode::NumberNonBlank);
    assert_eq!(out, b"     1\ta\n\n     2\tb\n".to_vec());
}

#[test]
fn number_all_scenario() {
    let out = emit_numbered(b"a\n\nb\n", NumberMode::NumberAll);
    assert_eq!(out, b"     1\ta\n     2\t\n     3\tb\n".to_vec());
}

#[test]
fn plain_leaves_every_byte_as_it_is() {
    let inputs: Vec<Vec<u8>> = vec![
        b"".to_vec(),
        b"\n".to_vec(),
        b"a".to_vec(),
        b"a\n".to_vec(),
        b"a\n\nb\n".to_vec(),
        b"no newline at the end".to_vec(),
        b"\r\n\r\n".to_vec(),
        vec![0xff, 0xfe, 10, 0x80, 0, 10, 10, 0xc3],
        "h\u{e9}llo w\u{f6}rld \u{1f600}\n".as_bytes().to_vec(),
    ];
    for input in inputs {
        assert_eq!(emit_numbered(&input, NumberMode::Plain), input);
    }
}

#[test]
fn number_all_counts_from_one_whatever_the_lines_hold() {
    let mut input: Vec<u8> = Vec::new();
    let mut expected: Vec<u8> = Vec::new();
    for i in 1..=120u32 {
        let line: Vec<u8> = match i % 4 {
            0 => b"\n".to_vec(),
            1 => b"text\n".to_vec(),
            2 => vec![0xff, 10],
            _ => b"  \t\n".to_vec(),
        };
        input.extend_from_slice(&line);
        expected.extend_from_slice(format!("{:>6}\t", i).as_bytes());
        expected.extend_from_slice(&line);
    }
    assert_eq!(emit_numbered(&input, NumberMode::NumberAll), expected);
}

#[test]
fn number_nonblank_shows_the_count_of_lines_that_are_not_blank() {
    let out = emit_numbered(b"\n\nx\n\ny\n\n\nz", NumberMode::NumberNonBlank);
    assert_eq!(out, b"\n\n     1\tx\n\n     2\ty\n\n\n     3\tz".to_vec());
}

#[test]
fn a_line_of_blanks_is_not_blank() {
    let out = emit_numbered(b" \n\t\n\r\n", NumberMode::NumberNonBlank);
    assert_eq!(out, b"     1\t \n     2\t\t\n     3\t\r\n".to_vec());
}

#[test]
fn a_last_line_without_newline_is_a_line() {
    assert_eq!(emit_numbered(b"a\nb", NumberMode::NumberAll), b"     1\ta\n     2\tb".to_vec());
    assert_eq!(emit_numbered(b"b", NumberMode::NumberNonBlank), b"     1\tb".to_vec());
}

#[test]
fn numbering_an_empty_stream_gives_nothing() {
    assert_eq!(emit_numbered(b"", NumberMode::Plain), Vec::<u8>::new());
    assert_eq!(emit_numbered(b"", NumberMode::NumberAll), Vec::<u8>::new());
    assert_eq!(emit_numbered(b"", NumberMode::NumberNonBlank), Vec::<u8>::new());
}

#[test]
fn the_numbering_emitter_takes_a_stream_in_pieces() {
    let whole: Vec<u8> = b"one\n\ntwo\nthree\n\n\nfour".to_vec();
    for mode in [NumberMode::Plain, NumberMode::NumberAll, NumberMode::NumberNonBlank] {
        let expected = emit_numbered(&whole, mode);
        for cut in 0..=whole.len() {
            let mut emitter = Numberer::new(mode);
            let mut out = emitter.feed(&whole[..cut]);
            out.extend(emitter.feed(&whole[cut..]));
            assert_eq!(out, expected, "cut at {}", cut);
        }
        let mut emitter = Numberer::new(mode);
        let mut out: Vec<u8> = Vec::new();
        for b in &whole {
            out.extend(emitter.feed(&[*b]));
        }
        assert_eq!(out, expected);
    }
}

#[test]
fn the_emitter_knows_its_last_number() {
    let mut emitter = Numberer::new(NumberMode::NumberNonBlank);
    assert_eq!(emitter.last_number(), 0);
    emitter.feed(b"a\n\nb");
    assert_eq!(emitter.last_number(), 2);
    emitter.feed(b"c\n\n");
    assert_eq!(emitter.last_number(), 2);
    emitter.feed(b"d");
    assert_eq!(emitter.last_number(), 3);
}

#[test]
fn the_numbering_starts_again_for_each_stream() {
    let first = emit_numbered(b"a\nb\n", NumberMode::NumberAll);
    let second = emit_numbered(b"c\n", NumberMode::NumberAll);
    assert_eq!(first, b"     1\ta\n     2\tb\n".to_vec());
    assert_eq!(second, b"     1\tc\n".to_vec());
}

#[test]
fn decimal_digits_are_exact() {
    assert_eq!(decimal_digits(0), b"0".to_vec());
    assert_eq!(decimal_digits(7), b"7".to_vec());
    assert_eq!(decimal_digits(10), b"10".to_vec());
    assert_eq!(decimal_digits(1234567890), b"1234567890".to_vec());
    assert_eq!(decimal_digits(u64::MAX), b"18446744073709551615".to_vec());
}

#[test]
fn right_alignment_fills_the_field_and_never_cuts() {
    let mut out: Vec<u8> = b"x".to_vec();
    push_right_aligned(&mut out, 42, 6);
    assert_eq!(out, b"x    42".to_vec());
    let mut out: Vec<u8> = Vec::new();
    push_right_aligned(&mut out, 123456, 6);
    assert_eq!(out, b"123456".to_vec());
    let mut out: Vec<u8> = Vec::new();
    push_right_aligned(&mut out, 1234567, 6);
    assert_eq!(out, b"1234567".to_vec());
    let mut out: Vec<u8> = Vec::new();
    push_right_aligned(&mut out, 5, 0);
    assert_eq!(out, b"5".to_vec());
    for n in [0u64, 9, 10, 99, 100, 99999, 100000, 999999, 1000000, u64::MAX] {
        let mut out: Vec<u8> = Vec::new();
        push_right_aligned(&mut out, n, 8);
        assert_eq!(out, format!("{:>8}", n).into_bytes());
    }
}
