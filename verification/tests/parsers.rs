use descr::common::parsers::{ident, quoted_str, special_chars, ParseResult};

#[test]
fn ident_reads_letters_digits_and_underscores() {
    match ident(b"foo_1 bar") {
        ParseResult::Done(rest, s) => {
            assert_eq!(s, "foo_1");
            assert_eq!(rest, b" bar");
        }
        other => panic!("unexpected {:?}", other),
    }
}

#[test]
fn ident_may_start_with_underscore() {
    match ident(b"_x") {
        ParseResult::Done(rest, s) => {
            assert_eq!(s, "_x");
            assert_eq!(rest, b"");
        }
        other => panic!("unexpected {:?}", other),
    }
}

#[test]
fn ident_rejects_a_leading_digit() {
    assert!(matches!(ident(b"1abc"), ParseResult::Error(42)));
}

#[test]
fn ident_on_empty_input_needs_a_byte() {
    assert!(matches!(ident(b""), ParseResult::Incomplete(1)));
}

#[test]
fn special_chars_reads_a_run() {
    match special_chars(b"->x") {
        ParseResult::Done(rest, s) => {
            assert_eq!(s, "->");
            assert_eq!(rest, b"x");
        }
        other => panic!("unexpected {:?}", other),
    }
}

#[test]
fn special_chars_stops_at_quotes_and_closing_paren() {
    match special_chars(b"!\"") {
        ParseResult::Done(rest, s) => {
            assert_eq!(s, "!");
            assert_eq!(rest, b"\"");
        }
        other => panic!("unexpected {:?}", other),
    }
    match special_chars(b"()") {
        ParseResult::Done(rest, s) => {
            assert_eq!(s, "(");
            assert_eq!(rest, b")");
        }
        other => panic!("unexpected {:?}", other),
    }
}

#[test]
fn special_chars_rejects_letters() {
    assert!(matches!(special_chars(b"abc"), ParseResult::Error(41)));
    assert!(matches!(special_chars(b""), ParseResult::Incomplete(1)));
}

#[test]
fn quoted_str_keeps_escapes_as_written() {
    match quoted_str(b"\"a\\\"b\\n\" rest") {
        ParseResult::Done(rest, s) => {
            assert_eq!(s, "a\\\"b\\n");
            assert_eq!(rest, b" rest");
        }
        other => panic!("unexpected {:?}", other),
    }
}

#[test]
fn quoted_str_takes_single_quotes() {
    match quoted_str(b"'it\\'s \"x\"'") {
        ParseResult::Done(rest, s) => {
            assert_eq!(s, "it\\'s \"x\"");
            assert_eq!(rest, b"");
        }
        other => panic!("unexpected {:?}", other),
    }
}

#[test]
fn quoted_str_rejects_unclosed_and_bad_escapes() {
    assert!(matches!(quoted_str(b"abc"), ParseResult::Error(4)));
    assert!(matches!(quoted_str(b"\"abc"), ParseResult::Error(4)));
    assert!(matches!(quoted_str(b"\"a\\x\""), ParseResult::Error(4)));
    assert!(matches!(quoted_str(b""), ParseResult::Error(4)));
    assert!(matches!(quoted_str(b"\"\xff\""), ParseResult::Error(2)));
}
