use a2a_rs::errors::{StdioError, INTERNAL_ERROR};
use a2a_rs::framing::{decode_frame, encode_frame, FrameHeader, HeaderStep, MAX_FRAME_SIZE};
use a2a_rs::handshake::{
    check_ack, client_ack, read_handshake, read_handshake_ack, server_handshake, Handshake,
    HandshakeAck, ParsedFrame,
};
use a2a_rs::rpc::{parse_stdio_url, spawn_error};

fn header_failure(input: &[u8]) -> String {
    match decode_frame(input).0 {
        Err(StdioError::InvalidHeader(m)) => m,
        other => panic!("expected an invalid header, got {:?}", other),
    }
}

#[test]
fn test_parse_stdio_url_with_scheme() {
    let (prog, args) = parse_stdio_url("stdio:///usr/bin/agent").unwrap();
    assert_eq!(prog, "/usr/bin/agent");
    assert!(args.is_empty());
}

#[test]
fn test_parse_stdio_url_with_args() {
    let (prog, args) = parse_stdio_url("stdio:///usr/bin/agent?--port&8080").unwrap();
    assert_eq!(prog, "/usr/bin/agent");
    assert_eq!(args, vec!["--port", "8080"]);
}

#[test]
fn test_parse_stdio_url_plain_command() {
    let (prog, args) = parse_stdio_url("/usr/bin/agent --port 8080").unwrap();
    assert_eq!(prog, "/usr/bin/agent");
    assert_eq!(args, vec!["--port", "8080"]);
}

#[test]
fn test_parse_stdio_url_empty() {
    let err = parse_stdio_url("").unwrap_err();
    assert!(err.message.contains("empty"));
}

#[test]
fn parse_stdio_url_blank_command_is_empty() {
    let err = parse_stdio_url("  \t ").unwrap_err();
    assert_eq!(err.code, INTERNAL_ERROR);
    assert_eq!(err.message, "empty stdio command");
}

#[test]
fn parse_stdio_url_trailing_question_mark_has_no_args() {
    let (prog, args) = parse_stdio_url("stdio://agent?").unwrap();
    assert_eq!(prog, "agent");
    assert!(args.is_empty());
}

#[test]
fn parse_stdio_url_keeps_empty_query_args() {
    let (prog, args) = parse_stdio_url("stdio://agent?a&&b").unwrap();
    assert_eq!(prog, "agent");
    assert_eq!(args, vec!["a", "", "b"]);
}

#[test]
fn test_handshake_ack_reject_serde() {
    let ack = HandshakeAck::reject();
    assert!(!ack.accept);
}

#[test]
fn handshake_constructors() {
    let hs = Handshake::new("sess-1".to_string(), vec!["a2a/v1".to_string()]);
    assert_eq!(hs.msg_type, "handshake");
    assert_eq!(hs.session_id, "sess-1");
    assert!(hs.pid.is_none());
    let ack = HandshakeAck::accept("a2a/v1".to_string());
    assert!(ack.accept);
    assert_eq!(ack.msg_type, "handshakeAck");
    assert_eq!(ack.selected_variant, "a2a/v1");
    let rej = HandshakeAck::reject();
    assert_eq!(rej.msg_type, "handshakeAck");
    assert_eq!(rej.selected_variant, "");
}

#[test]
fn frame_roundtrip() {
    let body = br#"{"jsonrpc":"2.0","id":1,"method":"test"}"#;
    let wire = encode_frame(body);
    let (res, used) = decode_frame(&wire);
    assert_eq!(res.unwrap().unwrap(), body.to_vec());
    assert_eq!(used, wire.len());
}

#[test]
fn frame_header_is_exact() {
    let wire = encode_frame(b"{}");
    assert_eq!(
        wire,
        b"Content-Length: 2\r\nContent-Type: application/json\r\n\r\n{}".to_vec()
    );
}

#[test]
fn frame_empty_input_is_end_of_stream() {
    let (res, used) = decode_frame(b"");
    assert!(res.unwrap().is_none());
    assert_eq!(used, 0);
}

#[test]
fn frame_missing_content_length() {
    let msg = header_failure(b"Content-Type: application/json\r\n\r\n{}");
    assert_eq!(msg, "missing Content-Length header");
}

#[test]
fn frame_invalid_content_length() {
    let msg = header_failure(b"Content-Length: abc\r\n\r\n");
    assert_eq!(msg, "invalid Content-Length value: abc");
}

#[test]
fn frame_two_frames_in_sequence() {
    let mut wire = encode_frame(b"{\"a\":1}");
    wire.extend(encode_frame(b"{\"b\":2}"));
    let (first, used) = decode_frame(&wire);
    assert_eq!(first.unwrap().unwrap(), b"{\"a\":1}".to_vec());
    let (second, used2) = decode_frame(&wire[used..]);
    assert_eq!(second.unwrap().unwrap(), b"{\"b\":2}".to_vec());
    assert_eq!(used + used2, wire.len());
    let (third, _) = decode_frame(&wire[used + used2..]);
    assert!(third.unwrap().is_none());
}

#[test]
fn frame_unknown_headers_are_skipped() {
    let input = b"X-Custom: foo\r\nContent-Length: 2\r\n\r\n{}";
    let (res, used) = decode_frame(input);
    assert_eq!(res.unwrap().unwrap(), b"{}".to_vec());
    assert_eq!(used, input.len());
}

#[test]
fn frame_oversized_content_length() {
    let msg = header_failure(b"Content-Length: 999999999\r\n\r\n");
    assert!(msg.contains("exceeds maximum"));
    assert_eq!(
        msg,
        format!("Content-Length 999999999 exceeds maximum frame size {}", MAX_FRAME_SIZE)
    );
}

#[test]
fn frame_body_cut_short() {
    match decode_frame(b"Content-Length: 10\r\n\r\n{}").0 {
        Err(StdioError::Io(m)) => assert_eq!(m, "failed to fill whole buffer"),
        other => panic!("unexpected {:?}", other),
    }
}

#[test]
fn frame_header_not_utf8() {
    match decode_frame(b"\xff\xfe\r\n").0 {
        Err(StdioError::Io(m)) => assert_eq!(m, "stream did not contain valid UTF-8"),
        other => panic!("unexpected {:?}", other),
    }
}

#[test]
fn frame_header_feed_line_steps() {
    let mut h = FrameHeader::new();
    assert!(matches!(h.feed_line(b"Content-Length: 12\r\n"), HeaderStep::Continue));
    assert_eq!(h.content_length, Some(12));
    assert!(matches!(h.feed_line(b"Content-Type: application/json\r\n"), HeaderStep::Continue));
    assert!(matches!(h.feed_line(b"\r\n"), HeaderStep::Body(12)));
    let mut h2 = FrameHeader::new();
    assert!(matches!(h2.feed_line(b""), HeaderStep::EndOfStream));
}

#[test]
fn handshake_read_accepts_offered_variants() {
    let hs = Handshake::new("s".to_string(), vec!["a2a/v1".to_string()]);
    let got = read_handshake(ParsedFrame::Parsed {
        msg_type: "handshake".to_string(),
        decoded: Ok(hs),
    })
    .unwrap();
    assert_eq!(got.session_id, "s");
}

#[test]
fn handshake_read_rejects_wrong_type() {
    let err = read_handshake(ParsedFrame::Parsed {
        msg_type: "notHandshake".to_string(),
        decoded: Err("ignored".to_string()),
    })
    .unwrap_err();
    assert_eq!(
        err.to_message(),
        "handshake failed: expected type \"handshake\", got \"notHandshake\""
    );
}

#[test]
fn handshake_read_rejects_empty_variants() {
    let hs = Handshake::new("s".to_string(), vec![]);
    let err = read_handshake(ParsedFrame::Parsed {
        msg_type: "handshake".to_string(),
        decoded: Ok(hs),
    })
    .unwrap_err();
    assert!(err.to_message().contains("no supported variants"));
}

#[test]
fn handshake_read_eof_and_invalid_json() {
    let err = read_handshake(ParsedFrame::EndOfStream).unwrap_err();
    assert_eq!(err.to_message(), "handshake failed: EOF before handshake");
    let err = read_handshake(ParsedFrame::InvalidJson("bad".to_string())).unwrap_err();
    assert_eq!(err.to_message(), "handshake failed: invalid JSON: bad");
    let err = read_handshake(ParsedFrame::Parsed {
        msg_type: "handshake".to_string(),
        decoded: Err("missing field `session_id`".to_string()),
    })
    .unwrap_err();
    assert!(err.to_message().contains("invalid handshake"));
}

#[test]
fn handshake_ack_read_outcomes() {
    let err = read_handshake_ack(ParsedFrame::EndOfStream).unwrap_err();
    assert_eq!(err.to_message(), "handshake failed: EOF before handshake ack");
    let err = read_handshake_ack(ParsedFrame::Parsed {
        msg_type: "handshake".to_string(),
        decoded: Err("x".to_string()),
    })
    .unwrap_err();
    assert!(err.to_message().contains("expected type \"handshakeAck\""));
    let err = read_handshake_ack(ParsedFrame::Parsed {
        msg_type: "handshakeAck".to_string(),
        decoded: Err("missing field `accept`".to_string()),
    })
    .unwrap_err();
    assert!(err.to_message().contains("invalid handshake ack"));
    let ok = read_handshake_ack(ParsedFrame::Parsed {
        msg_type: "handshakeAck".to_string(),
        decoded: Ok(HandshakeAck::accept("a2a/v1".to_string())),
    })
    .unwrap();
    assert!(ok.accept);
    let err = read_handshake_ack(ParsedFrame::ReadFailed(StdioError::Closed)).unwrap_err();
    assert!(matches!(err, StdioError::Closed));
}

#[test]
fn server_and_client_agree_on_variant() {
    let hs = server_handshake("sess".to_string(), 42);
    assert_eq!(hs.supported_variants, vec!["a2a/v1"]);
    assert_eq!(hs.pid, Some(42));
    let ack = client_ack(&hs);
    assert!(ack.accept);
    assert_eq!(ack.selected_variant, "a2a/v1");
    assert!(check_ack(&ack).is_ok());
    let err = check_ack(&HandshakeAck::reject()).unwrap_err();
    assert_eq!(err.to_message(), "handshake failed: client rejected handshake");
}

#[test]
fn spawn_error_wraps_the_cause() {
    let e = spawn_error(&StdioError::HandshakeFailed("EOF before handshake".to_string()));
    assert_eq!(e.code, INTERNAL_ERROR);
    assert_eq!(
        e.message,
        "failed to spawn stdio transport: handshake failed: EOF before handshake"
    );
}

#[test]
fn stdio_url_forms_round_trip() {
    let (prog, args) = parse_stdio_url("stdio:///opt/agent?-v&--name=x").unwrap();
    assert_eq!(prog, "/opt/agent");
    assert_eq!(args, vec!["-v", "--name=x"]);
    let (prog, args) = parse_stdio_url("stdio://agent?only").unwrap();
    assert_eq!(prog, "agent");
    assert_eq!(args, vec!["only"]);
    let (prog, args) = parse_stdio_url("agent  -v\t--x").unwrap();
    assert_eq!(prog, "agent");
    assert_eq!(args, vec!["-v", "--x"]);
}

#[test]
fn stdio_error_texts() {
    assert_eq!(StdioError::Io("broken pipe".to_string()).to_message(), "IO error: broken pipe");
    assert_eq!(
        StdioError::Json("eof".to_string()).to_message(),
        "JSON serialization error: eof"
    );
    assert_eq!(
        StdioError::InvalidHeader("missing Content-Length header".to_string()).to_message(),
        "invalid frame header: missing Content-Length header"
    );
    assert_eq!(
        StdioError::HandshakeFailed("x".to_string()).to_message(),
        "handshake failed: x"
    );
    assert_eq!(StdioError::Closed.to_message(), "transport closed");
}

#[test]
fn handshake_read_checks_the_decoded_type() {
    let mut hs = Handshake::new("s".to_string(), vec!["a2a/v1".to_string()]);
    hs.msg_type = "other".to_string();
    let err = read_handshake(ParsedFrame::Parsed {
        msg_type: "handshake".to_string(),
        decoded: Ok(hs),
    })
    .unwrap_err();
    assert_eq!(
        err.to_message(),
        "handshake failed: expected type \"handshake\", got \"other\""
    );
    let mut ack = HandshakeAck::accept("a2a/v1".to_string());
    ack.msg_type = "other".to_string();
    let err = read_handshake_ack(ParsedFrame::Parsed {
        msg_type: "handshakeAck".to_string(),
        decoded: Ok(ack),
    })
    .unwrap_err();
    assert!(err.to_message().contains("got \"other\""));
}
