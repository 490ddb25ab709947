use doneyet::logtail::{append_log, display_lines, log_tail_lines, LogCursor};
use doneyet::ports::{log_suffix, LogChunk};

fn chunk(bytes: &str, next_offset: u64) -> LogChunk {
    LogChunk {
        bytes: bytes.as_bytes().to_vec(),
        next_offset,
    }
}

#[test]
fn holds_a_partial_line_until_newline() {
    let mut cursor = LogCursor::default();
    append_log(&mut cursor, &chunk("hel", 3), 20);
    assert!(cursor.lines.is_empty());
    assert_eq!(display_lines(&cursor, 20), vec!["hel".to_string()]);

    append_log(&mut cursor, &chunk("lo\nwor", 10), 20);
    assert_eq!(cursor.lines, vec!["hello".to_string()]);
    assert_eq!(cursor.pending, "wor");

    append_log(&mut cursor, &chunk("ld\n", 13), 20);
    assert_eq!(cursor.lines, vec!["hello".to_string(), "world".to_string()]);
    assert!(cursor.pending.is_empty());
}

#[test]
fn keeps_only_the_last_n_complete_lines() {
    let mut cursor = LogCursor::default();
    append_log(&mut cursor, &chunk("one\ntwo\nthree\n", 14), 2);
    assert_eq!(cursor.lines, vec!["two".to_string(), "three".to_string()]);
}

#[test]
fn replaced_log_resets_the_cursor() {
    let mut cursor = LogCursor {
        offset: 10,
        pending: "old".to_string(),
        lines: vec!["stale".to_string()],
    };
    append_log(&mut cursor, &chunk("new\n", 4), 20);
    assert_eq!(cursor.offset, 4);
    assert_eq!(cursor.lines, vec!["new".to_string()]);
    assert!(cursor.pending.is_empty());
}

#[test]
fn carriage_returns_before_newlines_are_dropped() {
    let mut cursor = LogCursor::default();
    append_log(&mut cursor, &chunk("a\r\nb\r\r\nc\r", 9), 20);
    assert_eq!(cursor.lines, vec!["a".to_string(), "b\r".to_string()]);
    assert_eq!(cursor.pending, "c\r");
}

#[test]
fn reading_in_pieces_equals_reading_at_once() {
    let mut whole = LogCursor::default();
    append_log(&mut whole, &chunk("alpha\nbeta\ngam", 14), 2);
    let mut pieces = LogCursor::default();
    append_log(&mut pieces, &chunk("alp", 3), 2);
    append_log(&mut pieces, &chunk("ha\nbeta\ngam", 14), 2);
    assert_eq!(whole, pieces);
    assert_eq!(pieces.lines, vec!["alpha".to_string(), "beta".to_string()]);
}

#[test]
fn display_is_bounded_and_ends_with_pending() {
    let cursor = LogCursor {
        offset: 0,
        pending: "p".to_string(),
        lines: vec!["a".to_string(), "b".to_string()],
    };
    assert_eq!(
        display_lines(&cursor, 2),
        vec!["b".to_string(), "p".to_string()]
    );
    assert_eq!(display_lines(&cursor, 0), Vec::<String>::new());
}

#[test]
fn invalid_utf8_becomes_replacement_characters() {
    let mut cursor = LogCursor::default();
    let c = LogChunk {
        bytes: vec![b'o', b'k', 0xff, b'\n'],
        next_offset: 4,
    };
    append_log(&mut cursor, &c, 5);
    assert_eq!(cursor.lines, vec!["ok\u{FFFD}".to_string()]);
}

#[test]
fn log_suffix_returns_the_unseen_bytes() {
    let c = log_suffix(b"hello world".to_vec(), 6);
    assert_eq!(c.bytes, b"world".to_vec());
    assert_eq!(c.next_offset, 11);
    let past = log_suffix(b"abc".to_vec(), 99);
    assert!(past.bytes.is_empty());
    assert_eq!(past.next_offset, 3);
}

#[test]
fn tail_lines_of_a_whole_log() {
    let lines = log_tail_lines(&b"one\ntwo\r\nthree".to_vec(), 2);
    assert_eq!(lines, vec!["two".to_string(), "three".to_string()]);
    let lines = log_tail_lines(&b"x\ny\n".to_vec(), 5);
    assert_eq!(lines, vec!["x".to_string(), "y".to_string()]);
}
