use textutils::bounded::{emit_bounded, Bounded, Limit};

fn lines_of(content: &[u8]) -> usize {
    let newlines = content.iter().filter(|b| **b == b'\n').count();
    if content.is_empty() || content.ends_with(b"\n") {
        newlines
    } else {
        newlines + 1
    }
}

#[test]
fn line_limit_keeps_the_first_lines_unchanged() {
    let content = b"one\ntwo\nthree\nfour\n";
    assert_eq!(emit_bounded(content, Limit::Lines(1)), b"one\n".to_vec());
    assert_eq!(emit_bounded(content, Limit::Lines(2)), b"one\ntwo\n".to_vec());
    assert_eq!(emit_bounded(content, Limit::Lines(4)), content.to_vec());
    assert_eq!(emit_bounded(content, Limit::Lines(10)), content.to_vec());
}

#[test]
fn line_limit_emits_the_smaller_of_limit_and_lines() {
    let streams: Vec<Vec<u8>> = vec![
        b"".to_vec(),
        b"\n".to_vec(),
        b"a".to_vec(),
        b"a\nb".to_vec(),
        b"a\nb\n".to_vec(),
        b"\n\n\n".to_vec(),
        b"1\n2\n3\n4\n5\n6\n7\n8\n9\n10\n11\n12".to_vec(),
        vec![0xff, 10, 0x80, 10, 0xc3],
    ];
    for stream in &streams {
        let lines = lines_of(stream);
        for limit in 0..=14usize {
            let out = emit_bounded(stream, Limit::Lines(limit));
            assert_eq!(lines_of(&out), limit.min(lines));
            assert!(stream.starts_with(&out));
            if limit < lines {
                assert!(out.is_empty() || out.ends_with(b"\n"));
            } else {
                assert_eq!(&out, stream);
            }
        }
    }
}

#[test]
fn a_last_line_without_newline_counts_as_a_line() {
    assert_eq!(emit_bounded(b"a\nb", Limit::Lines(2)), b"a\nb".to_vec());
    assert_eq!(emit_bounded(b"a\nb", Limit::Lines(1)), b"a\n".to_vec());
    assert_eq!(emit_bounded(b"b", Limit::Lines(1)), b"b".to_vec());
}

#[test]
fn the_default_of_ten_lines() {
    let content = b"1\n2\n3\n4\n5\n6\n7\n8\n9\n10\n11\n12\n";
    assert_eq!(emit_bounded(content, Limit::Lines(10)), b"1\n2\n3\n4\n5\n6\n7\n8\n9\n10\n".to_vec());
}

#[test]
fn byte_limit_emits_the_smaller_of_limit_and_length() {
    let stream = b"hello\nworld\n";
    for limit in 0..=20usize {
        let out = emit_bounded(stream, Limit::Bytes(limit));
        assert_eq!(out.len(), limit.min(stream.len()));
        assert_eq!(out, stream[..limit.min(stream.len())].to_vec());
    }
    assert_eq!(emit_bounded(b"", Limit::Bytes(4)), Vec::<u8>::new());
}

#[test]
fn byte_limit_may_cut_a_character() {
    let stream = "\u{e9}t\u{e9}".as_bytes();
    assert_eq!(emit_bounded(stream, Limit::Bytes(1)), vec![0xc3]);
    assert_eq!(emit_bounded(stream, Limit::Bytes(4)), vec![0xc3, 0xa9, b't', 0xc3]);
}

#[test]
fn a_limit_of_nothing_emits_nothing() {
    assert_eq!(emit_bounded(b"a\nb\n", Limit::Lines(0)), Vec::<u8>::new());
    assert_eq!(emit_bounded(b"a\nb\n", Limit::Bytes(0)), Vec::<u8>::new());
}

#[test]
fn the_bounded_emitter_takes_a_stream_in_pieces() {
    let whole: Vec<u8> = b"one\n\ntwo\nthree\n\n\nfour".to_vec();
    let limits = [
        Limit::Lines(0), Limit::Lines(1), Limit::Lines(2), Limit::Lines(3), Limit::Lines(7),
        Limit::Lines(100), Limit::Bytes(0), Limit::Bytes(1), Limit::Bytes(5), Limit::Bytes(100),
    ];
    for limit in limits {
        let expected = emit_bounded(&whole, limit);
        for cut in 0..=whole.len() {
            let mut emitter = Bounded::new(limit);
            let mut out: Vec<u8> = Vec::new();
            let keep = emitter.feed(&whole[..cut]);
            out.extend_from_slice(&whole[..cut][..keep]);
            let keep = emitter.feed(&whole[cut..]);
            out.extend_from_slice(&whole[cut..][..keep]);
            assert_eq!(out, expected, "{:?} cut at {}", limit, cut);
        }
    }
}

#[test]
fn the_emitter_says_when_the_limit_is_used_up() {
    let mut emitter = Bounded::new(Limit::Lines(2));
    assert!(!emitter.is_done());
    assert_eq!(emitter.feed(b"a\nb"), 3);
    assert!(!emitter.is_done());
    assert_eq!(emitter.feed(b"c\nd\ne\n"), 2);
    assert!(emitter.is_done());
    assert_eq!(emitter.feed(b"more\n"), 0);
    assert!(emitter.is_done());

    let mut emitter = Bounded::new(Limit::Bytes(4));
    assert!(!emitter.is_done());
    assert_eq!(emitter.feed(b"abc"), 3);
    assert!(!emitter.is_done());
    assert_eq!(emitter.feed(b"def"), 1);
    assert!(emitter.is_done());
    assert_eq!(emitter.feed(b"ghi"), 0);

    assert!(Bounded::new(Limit::Lines(0)).is_done());
    assert!(Bounded::new(Limit::Bytes(0)).is_done());
}
