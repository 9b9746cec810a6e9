use redis_starter_rust::codec::ParseError;
use redis_starter_rust::redis_type::RedisType;
use redis_starter_rust::RedisWritable;

fn assert_type_equals(input: &str, expected: RedisType) {
    let parsed = RedisType::parse(input.as_bytes(), 0).unwrap();

    assert_eq!(Some((expected, input.len())), parsed);
}

#[test]
fn test_parse_simple_string() {
    let input = "+PING\r\n";
    let expected = RedisType::simple_string("PING");

    assert_type_equals(input, expected)
}

#[test]
fn test_parse_bulk_string() {
    let input = "$11\r\nHello\nWorld\r\n";
    let expected = RedisType::bulk_string("Hello\nWorld");

    assert_type_equals(input, expected)
}

#[test]
fn test_parse_null_bulk_string() {
    let input = "$-1\r\n";
    let expected = RedisType::NullBulkString;

    assert_type_equals(input, expected)
}

#[test]
fn test_parse_list() {
    let input = "*2\r\n$3\r\nfoo\r\n$4\r\nbarr\r\n";
    let expected = RedisType::list(vec![
        RedisType::bulk_string("foo"),
        RedisType::bulk_string("barr"),
    ]);

    assert_type_equals(input, expected)
}

#[test]
fn parse_of_no_bytes_is_end_of_stream() {
    assert_eq!(RedisType::parse(b"", 0), Ok(None));
    assert_eq!(RedisType::parse(b"+OK\r\n", 5), Ok(None));
}

#[test]
fn parse_nested_and_empty_lists() {
    let input = b"*2\r\n*0\r\n*1\r\n+a\r\n";
    let expected = RedisType::list(vec![
        RedisType::list(vec![]),
        RedisType::list(vec![RedisType::simple_string("a")]),
    ]);
    assert_eq!(
        RedisType::parse(input, 0),
        Ok(Some((expected, input.len())))
    );
}

#[test]
fn parse_reports_truncated_frames() {
    assert_eq!(RedisType::parse(b"+PIN", 0), Err(ParseError::Truncated));
    assert_eq!(RedisType::parse(b"$5\r\nhel", 0), Err(ParseError::Truncated));
    assert_eq!(
        RedisType::parse(b"$5\r\nhello", 0),
        Err(ParseError::Truncated)
    );
    assert_eq!(
        RedisType::parse(b"*2\r\n+a\r\n", 0),
        Err(ParseError::Truncated)
    );
    assert_eq!(RedisType::parse(b"*2", 0), Err(ParseError::Truncated));
}

#[test]
fn parse_reports_malformed_lengths() {
    assert_eq!(
        RedisType::parse(b"$abc\r\n", 0),
        Err(ParseError::MalformedLength)
    );
    assert_eq!(
        RedisType::parse(b"*-1\r\n", 0),
        Err(ParseError::MalformedLength)
    );
    assert_eq!(
        RedisType::parse(b"*\r\n", 0),
        Err(ParseError::MalformedLength)
    );
    assert_eq!(
        RedisType::parse(b"*99999999999999999999\r\n", 0),
        Err(ParseError::MalformedLength)
    );
    assert_eq!(
        RedisType::parse(b"$-5\r\n", 0),
        Err(ParseError::InvalidBulkLength { len: -5 })
    );
}

#[test]
fn parse_reports_text_that_is_not_utf8() {
    assert_eq!(
        RedisType::parse(b"+\xff\xfe\r\n", 0),
        Err(ParseError::InvalidUtf8)
    );
    assert_eq!(
        RedisType::parse(b"$2\r\n\xc3\x28\r\n", 0),
        Err(ParseError::InvalidUtf8)
    );
}

#[test]
fn parse_turns_an_unknown_tag_into_an_error_frame() {
    assert_eq!(
        RedisType::parse(b"?rest", 0),
        Ok(Some((RedisType::simple_error("Unknown command ?"), 1)))
    );
    assert_eq!(
        RedisType::parse(b":1\r\n", 0),
        Ok(Some((RedisType::simple_error("Unknown command :"), 1)))
    );
    assert_eq!(
        RedisType::parse(b"\xff", 0),
        Ok(Some((RedisType::simple_error("Unknown command \u{ff}"), 1)))
    );
}

#[test]
fn parse_reads_a_simple_error_up_to_its_line_end() {
    let input = b"-ERR x\r\n";
    assert_eq!(
        RedisType::parse(input, 0),
        Ok(Some((RedisType::simple_error("ERR x"), 8)))
    );
    assert_eq!(RedisType::parse(input, 8), Ok(None));
    assert_eq!(
        RedisType::parse(b"-\r\n+OK\r\n", 0),
        Ok(Some((RedisType::simple_error(""), 3)))
    );
    assert_eq!(RedisType::parse(b"-ERR x", 0), Err(ParseError::Truncated));
    assert_eq!(RedisType::parse(b"-ERR x\r", 0), Err(ParseError::Truncated));
    assert_eq!(
        RedisType::parse(b"-\xff\r\n", 0),
        Err(ParseError::InvalidUtf8)
    );
    assert_eq!(
        RedisType::parse(b"*2\r\n-a\r\n-b\r\n", 0),
        Ok(Some((
            RedisType::list(vec![
                RedisType::simple_error("a"),
                RedisType::simple_error("b")
            ]),
            12
        )))
    );
}

#[test]
fn simple_error_round_trips() {
    let frame = RedisType::simple_error("Unknown arg for INFO: anything");
    let bytes = frame.write_as_protocol();
    assert_eq!(
        RedisType::parse(&bytes, 0),
        Ok(Some((frame, bytes.len())))
    );
    assert_eq!(RedisType::parse(&bytes, bytes.len()), Ok(None));
}

#[test]
fn bulk_string_must_end_with_a_line_end() {
    assert_eq!(
        RedisType::parse(b"$3\r\nfooXY", 0),
        Err(ParseError::MissingLineEnd)
    );
    assert_eq!(
        RedisType::parse(b"$3\r\nfoo\rX", 0),
        Err(ParseError::MissingLineEnd)
    );
    assert_eq!(
        RedisType::parse(b"$3\r\nfoo\n\r", 0),
        Err(ParseError::MissingLineEnd)
    );
    assert_eq!(
        RedisType::parse(b"$0\r\nab", 0),
        Err(ParseError::MissingLineEnd)
    );
    // the payload may hold line ends of its own
    assert_eq!(
        RedisType::parse(b"$4\r\n\r\n\r\n\r\n", 0),
        Ok(Some((RedisType::bulk_string("\r\n\r\n"), 10)))
    );
    // the bytes must be there before they are looked at
    assert_eq!(RedisType::parse(b"$3\r\nfooX", 0), Err(ParseError::Truncated));
    // the line end is looked at before the text
    assert_eq!(
        RedisType::parse(b"$1\r\n\xffXY", 0),
        Err(ParseError::MissingLineEnd)
    );
}

#[test]
fn parse_takes_the_text_up_to_the_first_line_end() {
    assert_eq!(
        RedisType::parse(b"+a\nb\r\n+c\r\n", 0),
        Ok(Some((RedisType::simple_string("a\nb"), 6)))
    );
}

#[test]
fn empty_bulk_string_round_trips() {
    let frame = RedisType::bulk_string("");
    let bytes = frame.write_as_protocol();
    assert_eq!(bytes, b"$0\r\n\r\n".to_vec());
    assert_eq!(RedisType::parse(&bytes, 0), Ok(Some((frame, 6))));
}

#[test]
fn serialize_each_shape() {
    assert_eq!(
        RedisType::simple_string("OK").write_as_protocol(),
        b"+OK\r\n".to_vec()
    );
    assert_eq!(
        RedisType::simple_error("ERR x").write_as_protocol(),
        b"-ERR x\r\n".to_vec()
    );
    assert_eq!(
        RedisType::bulk_string("hello").write_as_protocol(),
        b"$5\r\nhello\r\n".to_vec()
    );
    assert_eq!(
        RedisType::NullBulkString.write_as_protocol(),
        b"$-1\r\n".to_vec()
    );
    assert_eq!(
        RedisType::list(vec![
            RedisType::bulk_string("foo"),
            RedisType::NullBulkString
        ])
        .write_as_protocol(),
        b"*2\r\n$3\r\nfoo\r\n$-1\r\n".to_vec()
    );
    assert_eq!(
        RedisType::RDBFile {
            file: b"REDIS".to_vec()
        }
        .write_as_protocol(),
        b"$5\r\nREDIS".to_vec()
    );
    assert_eq!(
        RedisType::multiple(vec![
            RedisType::simple_string("a"),
            RedisType::simple_string("b")
        ])
        .write_as_protocol(),
        b"+a\r\n+b\r\n".to_vec()
    );
}

#[test]
fn bulk_length_counts_bytes_not_characters() {
    assert_eq!(
        RedisType::bulk_string("h\u{e9}").write_as_protocol(),
        b"$3\r\nh\xc3\xa9\r\n".to_vec()
    );
    assert_eq!(
        RedisType::parse(b"$3\r\nh\xc3\xa9\r\n", 0),
        Ok(Some((RedisType::bulk_string("h\u{e9}"), 9)))
    );
}

#[test]
fn round_trip_of_a_nested_frame_ends_at_end_of_stream() {
    let frame = RedisType::list(vec![
        RedisType::bulk_string("SET"),
        RedisType::list(vec![
            RedisType::simple_string("inner"),
            RedisType::NullBulkString,
        ]),
        RedisType::bulk_string("with\r\nline end"),
        RedisType::simple_error("ERR inner"),
        RedisType::list(vec![]),
    ]);
    let bytes = frame.write_as_protocol();
    let (parsed, next) = RedisType::parse(&bytes, 0).unwrap().unwrap();
    assert_eq!(parsed, frame);
    assert_eq!(next, bytes.len());
    assert_eq!(RedisType::parse(&bytes, next), Ok(None));
}

#[test]
fn two_frames_in_a_row_are_read_without_over_read() {
    let first = RedisType::list(vec![RedisType::bulk_string("a")]);
    let second = RedisType::bulk_string("second");
    let mut bytes = first.write_as_protocol();
    let mid = bytes.len();
    bytes.extend(second.write_as_protocol());
    assert_eq!(RedisType::parse(&bytes, 0), Ok(Some((first, mid))));
    assert_eq!(RedisType::parse(&bytes, mid), Ok(Some((second, bytes.len()))));
    assert_eq!(RedisType::parse(&bytes, bytes.len()), Ok(None));
}

#[test]
fn snapshot_is_read_without_a_line_end_behind_it() {
    let input = b"$5\r\nREDIS+OK\r\n";
    assert_eq!(
        RedisType::read_snapshot_blob(input, 0),
        Ok(Some((
            RedisType::RDBFile {
                file: b"REDIS".to_vec()
            },
            9
        )))
    );
    assert_eq!(
        RedisType::parse(input, 9),
        Ok(Some((RedisType::simple_string("OK"), 14)))
    );
}

#[test]
fn snapshot_errors() {
    assert_eq!(RedisType::read_snapshot_blob(b"", 0), Ok(None));
    assert_eq!(
        RedisType::read_snapshot_blob(b"+OK\r\n", 0),
        Err(ParseError::UnexpectedTag { tag: b'+' })
    );
    assert_eq!(
        RedisType::read_snapshot_blob(b"$5\r\nRED", 0),
        Err(ParseError::Truncated)
    );
    assert_eq!(
        RedisType::read_snapshot_blob(b"$x\r\n", 0),
        Err(ParseError::MalformedLength)
    );
    assert_eq!(
        RedisType::read_snapshot_blob(b"$5", 0),
        Err(ParseError::Truncated)
    );
}

#[test]
fn extract_string_gives_text_of_strings_only() {
    assert_eq!(RedisType::bulk_string("a").extract_string(), Some("a"));
    assert_eq!(RedisType::simple_string("b").extract_string(), Some("b"));
    assert_eq!(RedisType::simple_error("c").extract_string(), None);
    assert_eq!(RedisType::NullBulkString.extract_string(), None);
    assert_eq!(RedisType::list(vec![]).extract_string(), None);
}

#[test]
fn expect_string_ignores_case() {
    let pong = RedisType::simple_string("PoNg");
    assert_eq!(pong.expect_string("pong", "start"), Ok("PoNg"));
    assert_eq!(
        RedisType::simple_string("\u{c9}T\u{c9}").expect_string("\u{e9}t\u{e9}", "start"),
        Ok("\u{c9}T\u{c9}")
    );
    // lowercase is the one of Unicode: the Kelvin sign is a capital `k`
    assert_eq!(
        RedisType::simple_string("O\u{212a}").expect_string("ok", "start"),
        Ok("O\u{212a}")
    );
    let err = pong.expect_string("ok", "start").unwrap_err();
    assert_eq!(err.message_start, "start");
    assert_eq!(err.expected, "ok");
    assert_eq!(err.received, pong);
    assert!(RedisType::NullBulkString.expect_string("ok", "s").is_err());
}

#[test]
fn clone_keeps_the_frame() {
    let frame = RedisType::list(vec![
        RedisType::bulk_string("a"),
        RedisType::multiple(vec![RedisType::RDBFile { file: vec![1, 2] }]),
    ]);
    assert_eq!(frame.clone(), frame);
}

#[test]
fn parse_error_messages() {
    assert_eq!(
        ParseError::InvalidBulkLength { len: -5 }.message(),
        "Invalid bulk string len (-5)!"
    );
    assert_eq!(ParseError::Truncated.message(), "Truncated frame");
    assert_eq!(ParseError::MalformedLength.message(), "Malformed length");
    assert_eq!(ParseError::InvalidUtf8.message(), "Text is not valid UTF-8");
    assert_eq!(
        ParseError::MissingLineEnd.message(),
        "Bulk string does not end with a line end"
    );
    assert_eq!(
        ParseError::UnexpectedTag { tag: 1 }.message(),
        "Expected first byte of RDB encoding to be '$'"
    );
}
