use llama_launch::ui::logs::{is_blank, poll_lines, split_segment, take_polled};
use std::sync::mpsc;

#[test]
fn blank_means_only_whitespace_or_control_bytes() {
    assert!(is_blank(b""));
    assert!(is_blank(b" \t\r\n\x0c"));
    assert!(is_blank(b"\x0b"));
    assert!(is_blank(b"\x1b\x00 \x7f"));
    assert!(!is_blank(b"\x1b[0m"));
    assert!(!is_blank(b"\x80"));
    assert!(!is_blank(b"  a "));
}

#[test]
fn carriage_returns_separate_lines() {
    assert_eq!(split_segment(b"loading 10%\rloading 50%\rdone"), vec!["loading 10%", "loading 50%", "done"]);
}

#[test]
fn crlf_segment_gives_one_line() {
    assert_eq!(split_segment(b"server listening\r"), vec!["server listening"]);
}

#[test]
fn blank_pieces_are_dropped() {
    assert_eq!(split_segment(b"\r  \r x \r\t"), vec![" x "]);
    assert!(split_segment(b"").is_empty());
    assert!(split_segment(b"   ").is_empty());
}

#[test]
fn invalid_utf8_is_replaced() {
    assert_eq!(split_segment(b"a\xffb"), vec!["a\u{fffd}b"]);
}

#[test]
fn valid_utf8_decodes_to_its_text() {
    assert_eq!(split_segment("модель\rok".as_bytes()), vec!["модель", "ok"]);
}

#[test]
fn lines_hold_no_carriage_return_and_are_not_blank() {
    for l in split_segment(b"a\r\r b\r\x0c\rc  \r") {
        assert!(!l.contains('\r'));
        assert!(!l.trim().is_empty());
    }
}

#[test]
fn poll_takes_at_most_the_limit_in_order() {
    let (tx, rx) = mpsc::sync_channel::<String>(16);
    for i in 0..5 {
        tx.send(format!("line {}", i)).unwrap();
    }
    assert_eq!(poll_lines(&rx, 3), vec!["line 0", "line 1", "line 2"]);
    assert_eq!(poll_lines(&rx, 10), vec!["line 3", "line 4"]);
    assert!(poll_lines(&rx, 10).is_empty());
    drop(tx);
    assert!(poll_lines(&rx, 10).is_empty());
}

#[test]
fn poll_with_zero_limit_takes_nothing() {
    let (tx, rx) = mpsc::sync_channel::<String>(4);
    tx.send("x".to_string()).unwrap();
    assert!(poll_lines(&rx, 0).is_empty());
    assert_eq!(poll_lines(&rx, 1), vec!["x"]);
}

#[test]
fn control_only_pieces_are_dropped() {
    assert_eq!(split_segment(b"\x1b\x07\rok\r\x00 \x7f"), vec!["ok"]);
}

#[test]
fn a_polled_line_is_kept_and_polling_goes_on() {
    let mut lines = vec!["a".to_string()];
    assert!(take_polled(&mut lines, Some("b".to_string())));
    assert_eq!(lines, vec!["a", "b"]);
    assert!(!take_polled(&mut lines, None));
    assert_eq!(lines, vec!["a", "b"]);
}
