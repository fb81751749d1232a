use console_backend::lines::{LineSplitter, Origin};

#[test]
fn splits_on_line_feed_and_strips_carriage_return() {
    let mut splitter = LineSplitter::new();
    let lines = splitter.feed(b"hello\r\nworld\n");
    assert_eq!(lines, vec![b"hello".to_vec(), b"world".to_vec()]);
}

#[test]
fn chunk_boundaries_do_not_change_the_lines() {
    let mut one = LineSplitter::new();
    let all = one.feed(b"first line\nsecond\r\nthird\n");

    let mut many = LineSplitter::new();
    let mut collected = Vec::new();
    collected.append(&mut many.feed(b"first li"));
    collected.append(&mut many.feed(b"ne\nsec"));
    collected.append(&mut many.feed(b"ond\r"));
    collected.append(&mut many.feed(b"\nthird\n"));

    assert_eq!(all, collected);
    assert_eq!(
        all,
        vec![b"first line".to_vec(), b"second".to_vec(), b"third".to_vec()]
    );
}

#[test]
fn feed_byte_emits_only_on_line_feed() {
    let mut splitter = LineSplitter::new();
    assert_eq!(splitter.feed_byte(b'h'), None);
    assert_eq!(splitter.feed_byte(b'i'), None);
    assert_eq!(splitter.feed_byte(b'\n'), Some(b"hi".to_vec()));
    assert_eq!(splitter.feed_byte(b'\n'), Some(Vec::new()));
}

#[test]
fn remainder_is_the_unterminated_tail() {
    let mut splitter = LineSplitter::new();
    assert!(splitter.feed(b"abc").is_empty());
    assert_eq!(splitter.take_remainder(), Some(b"abc".to_vec()));
    assert_eq!(splitter.take_remainder(), None);
}

#[test]
fn stdout_lines_pass_through_unchanged() {
    let rendered = console_backend::lines::render_line(Origin::Stdout, b"Server started".to_vec());
    assert_eq!(rendered.as_deref(), Some("Server started"));
}

#[test]
fn stderr_lines_carry_the_error_tag() {
    let rendered = console_backend::lines::render_line(Origin::Stderr, b"boom".to_vec());
    assert_eq!(rendered.as_deref(), Some("ERROR: boom"));
}

#[test]
fn undecodable_bytes_render_nothing() {
    let rendered = console_backend::lines::render_line(Origin::Stdout, vec![0xff, 0xfe]);
    assert_eq!(rendered, None);
}
