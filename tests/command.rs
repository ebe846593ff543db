use meilies::{Command, ParseStreamError, RespCommandConvertError, RespValue, Stream, StreamName, StreamNameError};

fn array(items: &[&[u8]]) -> RespValue {
    RespValue::Array(items.iter().map(|b| RespValue::bulk_string(b.to_vec())).collect())
}

fn decode(items: &[&[u8]]) -> Result<Command, RespCommandConvertError> {
    Command::from_resp(array(items))
}

fn encode(command: Command) -> Vec<Vec<u8>> {
    command.into_resp().into_bulk_strings().expect("an array of bulk strings")
}

fn publish_parts(command: &Command) -> (String, Vec<u8>) {
    match command {
        Command::Publish { stream, event } => (stream.as_str().to_string(), event.clone()),
        Command::Subscribe { .. } => panic!("expected a publish command"),
    }
}

fn subscribe_texts(command: &Command) -> Vec<String> {
    match command {
        Command::Subscribe { streams } => streams.iter().map(|s| s.to_text()).collect(),
        Command::Publish { .. } => panic!("expected a subscribe command"),
    }
}

#[test]
fn uppercase_publish_decodes_and_reencodes_lowercase() {
    let command = decode(&[b"PUBLISH", b"mystream", b"hello"]).unwrap();
    assert_eq!(publish_parts(&command), ("mystream".to_string(), b"hello".to_vec()));
    assert_eq!(encode(command), vec![b"publish".to_vec(), b"mystream".to_vec(), b"hello".to_vec()]);
}

#[test]
fn subscribe_two_streams_decodes_and_reencodes() {
    let command = decode(&[b"subscribe", b"a", b"b"]).unwrap();
    assert_eq!(subscribe_texts(&command), vec!["a".to_string(), "b".to_string()]);
    assert_eq!(encode(command), vec![b"subscribe".to_vec(), b"a".to_vec(), b"b".to_vec()]);
}

#[test]
fn empty_array_is_missing_command_name() {
    assert!(matches!(decode(&[]), Err(RespCommandConvertError::MissingCommandName)));
}

#[test]
fn single_bulk_string_is_invalid_resp_type() {
    let value = RespValue::bulk_string(b"publish".to_vec());
    assert!(matches!(Command::from_resp(value), Err(RespCommandConvertError::InvalidRespType)));
}

#[test]
fn array_holding_other_values_is_invalid_resp_type() {
    let value = RespValue::Array(vec![RespValue::bulk_string(b"subscribe".to_vec()), RespValue::Integer(3)]);
    assert!(matches!(Command::from_resp(value), Err(RespCommandConvertError::InvalidRespType)));
    assert!(matches!(Command::from_resp(RespValue::Nil), Err(RespCommandConvertError::InvalidRespType)));
}

#[test]
fn publish_round_trip_keeps_binary_event() {
    let stream = StreamName::parse("events").unwrap();
    let event = vec![0xff, 0x00, 0xfe, 0x80];
    let written = Command::Publish { stream, event: event.clone() }.into_resp();
    let command = Command::from_resp(written).unwrap();
    assert_eq!(publish_parts(&command), ("events".to_string(), event));
}

#[test]
fn publish_round_trip_keeps_empty_event() {
    let stream = StreamName::parse("é-stream").unwrap();
    let written = Command::Publish { stream, event: Vec::new() }.into_resp();
    let command = Command::from_resp(written).unwrap();
    assert_eq!(publish_parts(&command), ("é-stream".to_string(), Vec::new()));
}

#[test]
fn subscribe_round_trip_keeps_order_and_positions() {
    let streams = vec![
        Stream::parse("b:42").unwrap(),
        Stream::parse("a").unwrap(),
        Stream::parse("c:0").unwrap(),
    ];
    let command = Command::from_resp(Command::Subscribe { streams }.into_resp()).unwrap();
    assert_eq!(subscribe_texts(&command), vec!["b:42".to_string(), "a".to_string(), "c:0".to_string()]);
    match command {
        Command::Subscribe { streams } => {
            assert_eq!(streams[0].from, Some(42));
            assert_eq!(streams[1].from, None);
            assert_eq!(streams[2].from, Some(0));
        }
        Command::Publish { .. } => panic!("expected a subscribe command"),
    }
}

#[test]
fn subscribe_round_trip_of_empty_list() {
    let written = Command::Subscribe { streams: Vec::new() }.into_resp();
    assert_eq!(written.into_bulk_strings().unwrap(), vec![b"subscribe".to_vec()]);
    let command = Command::from_resp(Command::Subscribe { streams: Vec::new() }.into_resp()).unwrap();
    assert!(subscribe_texts(&command).is_empty());
}

#[test]
fn command_name_matching_ignores_case() {
    let mixed = decode(&[b"PuBLish", b"s", b"x"]).unwrap();
    let lower = decode(&[b"publish", b"s", b"x"]).unwrap();
    assert_eq!(publish_parts(&mixed), publish_parts(&lower));
    let sub = decode(&[b"SubScribe", b"s"]).unwrap();
    assert_eq!(subscribe_texts(&sub), vec!["s".to_string()]);
}

#[test]
fn publish_with_wrong_argument_count() {
    let cases: Vec<Vec<&[u8]>> = vec![
        vec![b"publish"],
        vec![b"publish", b"s"],
        vec![b"publish", b"s", b"e", b"extra"],
        vec![b"PUBLISH", b"s", b"e", b"f", b"g"],
    ];
    for case in cases {
        assert!(matches!(
            decode(&case),
            Err(RespCommandConvertError::InvalidNumberOfArguments { expected: 2 })
        ));
    }
}

#[test]
fn unknown_command_carries_lowercased_name() {
    match decode(&[b"FooBAR", b"x"]) {
        Err(RespCommandConvertError::UnknownCommand(name)) => assert_eq!(name, "foobar"),
        _ => panic!("expected an unknown command"),
    }
    match decode(&[b"\xc3\x89TAT"]) {
        Err(RespCommandConvertError::UnknownCommand(name)) => assert_eq!(name, "\u{c9}tat"),
        _ => panic!("expected an unknown command"),
    }
}

#[test]
fn invalid_utf8_in_command_name() {
    assert!(matches!(decode(&[b"pub\xfflish", b"s", b"e"]), Err(RespCommandConvertError::InvalidUtf8String(_))));
}

#[test]
fn invalid_utf8_in_publish_stream() {
    assert!(matches!(decode(&[b"publish", b"\xc3", b"e"]), Err(RespCommandConvertError::InvalidUtf8String(_))));
}

#[test]
fn invalid_utf8_in_subscribe_stream() {
    assert!(matches!(
        decode(&[b"subscribe", b"ok", b"\xff\xfe", b"also-ok"]),
        Err(RespCommandConvertError::InvalidUtf8String(_))
    ));
}

#[test]
fn publish_event_is_not_checked_for_utf8() {
    let command = decode(&[b"publish", b"s", b"\xff\xc3"]).unwrap();
    assert_eq!(publish_parts(&command), ("s".to_string(), vec![0xff, 0xc3]));
}

#[test]
fn subscribe_alone_yields_no_streams() {
    let command = decode(&[b"subscribe"]).unwrap();
    assert!(subscribe_texts(&command).is_empty());
}

#[test]
fn malformed_publish_stream_wraps_name_error() {
    assert!(matches!(
        decode(&[b"publish", b"a:b", b"e"]),
        Err(RespCommandConvertError::InvalidStream(ParseStreamError::StreamNameError(StreamNameError::ContainsColon)))
    ));
    assert!(matches!(
        decode(&[b"publish", b"", b"e"]),
        Err(RespCommandConvertError::InvalidStream(ParseStreamError::StreamNameError(StreamNameError::EmptyName)))
    ));
}

#[test]
fn malformed_subscribe_stream_wraps_parse_error() {
    assert!(matches!(
        decode(&[b"subscribe", b"a", b"b:x"]),
        Err(RespCommandConvertError::InvalidStream(ParseStreamError::InvalidEventNumber))
    ));
    assert!(matches!(
        decode(&[b"subscribe", b":5"]),
        Err(RespCommandConvertError::InvalidStream(ParseStreamError::StreamNameError(StreamNameError::EmptyName)))
    ));
    assert!(matches!(
        decode(&[b"subscribe", b""]),
        Err(RespCommandConvertError::InvalidStream(ParseStreamError::StreamNameError(StreamNameError::EmptyName)))
    ));
}

#[test]
fn first_failure_wins_in_subscribe() {
    assert!(matches!(
        decode(&[b"subscribe", b"a:", b"\xff"]),
        Err(RespCommandConvertError::InvalidStream(ParseStreamError::InvalidEventNumber))
    ));
    assert!(matches!(
        decode(&[b"subscribe", b"\xff", b"a:"]),
        Err(RespCommandConvertError::InvalidUtf8String(_))
    ));
}

#[test]
fn stream_specifier_parsing() {
    let s = Stream::parse("b:007").unwrap();
    assert_eq!(s.name.as_str(), "b");
    assert_eq!(s.from, Some(7));
    assert_eq!(s.to_text(), "b:7");
    assert_eq!(s.to_bytes(), b"b:7".to_vec());
    let max = Stream::parse("m:18446744073709551615").unwrap();
    assert_eq!(max.from, Some(u64::MAX));
    assert_eq!(max.to_bytes(), b"m:18446744073709551615".to_vec());
    assert!(matches!(Stream::parse("m:18446744073709551616"), Err(ParseStreamError::InvalidEventNumber)));
    assert!(matches!(Stream::parse("m:+1"), Err(ParseStreamError::InvalidEventNumber)));
    assert!(matches!(Stream::parse("m:1:2"), Err(ParseStreamError::InvalidEventNumber)));
    assert!(matches!(Stream::parse("m:٣"), Err(ParseStreamError::InvalidEventNumber)));
    assert!(matches!(StreamName::parse("x:y"), Err(StreamNameError::ContainsColon)));
    assert!(matches!(StreamName::parse(""), Err(StreamNameError::EmptyName)));
    assert_eq!(StreamName::parse("ünïcode").unwrap().to_bytes(), "ünïcode".as_bytes().to_vec());
}

#[test]
fn error_messages() {
    assert_eq!(RespCommandConvertError::InvalidRespType.message(), "invalid RESP type, expected array of bulk string");
    assert_eq!(RespCommandConvertError::MissingCommandName.message(), "missing command name");
    assert_eq!(RespCommandConvertError::UnknownCommand("foo".to_string()).message(), "command \"foo\" not found");
    assert_eq!(
        RespCommandConvertError::InvalidNumberOfArguments { expected: 2 }.message(),
        "invalid number of arguments (expected 2)"
    );
    assert_eq!(
        RespCommandConvertError::InvalidStream(ParseStreamError::StreamNameError(StreamNameError::ContainsColon)).message(),
        "invalid stream; stream name contains a colon"
    );
    assert_eq!(
        RespCommandConvertError::InvalidStream(ParseStreamError::InvalidEventNumber).message(),
        "invalid stream; invalid event number"
    );
    let err = decode(&[b"\xff"]).unwrap_err();
    assert!(err.message().starts_with("invalid utf8 string: "));
    assert!(err.message().len() > "invalid utf8 string: ".len());
}

#[test]
fn error_conversions() {
    assert!(matches!(
        RespCommandConvertError::from(ParseStreamError::InvalidEventNumber),
        RespCommandConvertError::InvalidStream(ParseStreamError::InvalidEventNumber)
    ));
    assert!(matches!(
        RespCommandConvertError::from(StreamNameError::EmptyName),
        RespCommandConvertError::InvalidStream(ParseStreamError::StreamNameError(StreamNameError::EmptyName))
    ));
    let utf8 = std::str::from_utf8(&[0xff]).unwrap_err();
    assert!(matches!(RespCommandConvertError::from(utf8), RespCommandConvertError::InvalidUtf8String(_)));
}

#[test]
fn diagnostic_text() {
    let text = decode(&[b"publish", b"mystream", b"hello"]).unwrap().debug_text();
    assert_eq!(text, "Publish { stream: \"mystream\", event: \"hello\" }");
    let binary = decode(&[b"publish", b"s", b"\xff\x00"]).unwrap().debug_text();
    assert_eq!(binary, "Publish { stream: \"s\", event: [255, 0] }");
    let sub = decode(&[b"subscribe", b"a", b"b:3"]).unwrap().debug_text();
    assert_eq!(sub, "Subscribe { streams: [\"a\", \"b:3\"] }");
    let none = decode(&[b"subscribe"]).unwrap().debug_text();
    assert_eq!(none, "Subscribe { streams: [] }");
}
