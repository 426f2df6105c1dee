use ginger_code::frames::{
    content_length, header_complete, parse_unsigned_checked, read_frame, IntParseError,
};

fn chars(s: &str) -> Vec<char> {
    s.chars().collect()
}

#[test]
fn parses_multiple_frames_and_utf8_bytes() {
    let body = "{\"text\":\"世界\"}";
    let input = format!(
        "Content-Length: {}\r\nContent-Type: application/vscode-jsonrpc; charset=utf-8\r\n\r\n{}Content-Length: 2\r\n\r\n{{}}",
        body.len(),
        body
    );
    let bytes = input.as_bytes();
    let (first, used) = read_frame(bytes);
    assert_eq!(first, Ok(Some(body.to_string())));
    let rest = &bytes[used..];
    let (second, used2) = read_frame(rest);
    assert_eq!(second, Ok(Some("{}".to_string())));
    let (third, used3) = read_frame(&rest[used2..]);
    assert_eq!(third, Ok(None));
    assert_eq!(used3, 0);
}

#[test]
fn rejects_bad_and_unbounded_frames() {
    for input in [
        "Content-Length: 999999999\r\n\r\n",
        "Wrong: 2\r\n\r\n{}",
        "Content-Length: 2\r\nContent-Length: 3\r\n\r\n{}",
        "Content-Length: 4\r\n\r\n{}",
    ] {
        assert!(read_frame(input.as_bytes()).0.is_err(), "{input:?}");
    }
}

#[test]
fn frame_errors_carry_their_reason() {
    assert_eq!(read_frame(b"Content-Length: 4\r\n\r\n{}").0, Err("early eof".to_string()));
    assert_eq!(read_frame(b"Content-Len").0, Err("unexpected end of file".to_string()));
    assert_eq!(
        read_frame(b"Content-Length: 2\r\nContent-Length: 3\r\n\r\n{}").0,
        Err("Duplicate Content-Length".to_string())
    );
    assert_eq!(read_frame(b"Wrong: 2\r\n\r\n{}").0, Err("Missing Content-Length".to_string()));
    assert_eq!(
        read_frame(b"Content-Length: 999999999\r\n\r\n").0,
        Err("Language server message too large".to_string())
    );
    let long = vec![b'a'; 9000];
    let (r, used) = read_frame(&long);
    assert_eq!(r, Err("Language server header too large".to_string()));
    assert_eq!(used, 8192);
}

#[test]
fn content_length_reads_the_header() {
    assert_eq!(content_length(b"content-length:  12 \r\n\r\n"), Ok(12));
    assert_eq!(content_length(b"Content-Length: +5\r\n\r\n"), Ok(5));
    assert_eq!(
        content_length(b"Content-Length: \r\n\r\n"),
        Err("cannot parse integer from empty string".to_string())
    );
    assert_eq!(
        content_length(b"Content-Length: 1x\r\n\r\n"),
        Err("invalid digit found in string".to_string())
    );
    assert_eq!(
        content_length(b"Content-Length: 99999999999999999999999x\r\n\r\n"),
        Err("number too large to fit in target type".to_string())
    );
    let bad_utf8 = content_length(b"Content-Length: 1\xff\r\n\r\n");
    assert!(bad_utf8.unwrap_err().contains("utf-8"));
}

#[test]
fn integer_errors_follow_str_parse() {
    assert_eq!(parse_unsigned_checked(&chars(""), 100), Err(IntParseError::Empty));
    assert_eq!(parse_unsigned_checked(&chars("+"), 100), Err(IntParseError::InvalidDigit));
    assert_eq!(parse_unsigned_checked(&chars("101"), 100), Err(IntParseError::PosOverflow));
    assert_eq!(parse_unsigned_checked(&chars("1z"), 100), Err(IntParseError::InvalidDigit));
    assert_eq!(parse_unsigned_checked(&chars("+100"), 100), Ok(100));
    for s in ["0", "17", "+9", "", "-3", "12a", "18446744073709551615", "18446744073709551616"] {
        let expected = s.parse::<u64>().ok();
        assert_eq!(parse_unsigned_checked(&chars(s), u64::MAX).ok(), expected, "{s}");
    }
}

#[test]
fn header_completion_needs_the_blank_line() {
    assert!(header_complete(b"A: 1\r\n\r\n"));
    assert!(!header_complete(b"A: 1\r\n"));
    assert!(!header_complete(b"\r\n"));
}
