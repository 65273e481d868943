use seat_sync::json::Member;
use seat_sync::protocol::{ManifestEntry, ProtocolError, Reply, Request};

fn parse(text: &str) -> serde_json::Value {
    serde_json::from_str(text).expect("the reply is JSON")
}

#[test]
fn decode_ping() {
    assert!(matches!(Request::decode(r#"{"type":"ping"}"#), Ok(Request::Ping)));
    assert!(matches!(Request::decode(r#" { "type" : "ping", "extra": [1, 2] } "#), Ok(Request::Ping)));
}

#[test]
fn decode_rejects_what_is_not_json() {
    for text in ["", "{", "{type:\"bogus\"}", "ping", "{\"type\":\"ping\"} trailing", "{'type':'ping'}"] {
        assert!(
            matches!(Request::decode(text), Err(ProtocolError::InvalidJson)),
            "input {:?}",
            text
        );
    }
}

#[test]
fn decode_rejects_unknown_types() {
    for text in [
        r#"{"type":"bogus"}"#,
        r#"{"type":""}"#,
        r#"{}"#,
        r#"{"type":5}"#,
        r#"{"type":null}"#,
        r#"{"type":["ping"]}"#,
        r#"{"Type":"ping"}"#,
        r#"{"type":"PING"}"#,
        r#"{"type":"ping "}"#,
        r#"[1,2,3]"#,
        r#""ping""#,
        r#"42"#,
        r#"null"#,
    ] {
        assert!(
            matches!(Request::decode(text), Err(ProtocolError::UnknownMessageType)),
            "input {:?}",
            text
        );
    }
}

#[test]
fn decode_join_takes_text_and_integer_seats() {
    let seat_of = |text: &str| match Request::decode(text) {
        Ok(Request::Join { seat }) => seat,
        other => panic!("expected a join, got {:?}", other),
    };
    assert_eq!(seat_of(r#"{"type":"j","seat":"3"}"#), "3");
    assert_eq!(seat_of(r#"{"type":"j","seat":3}"#), "3");
    assert_eq!(seat_of(r#"{"type":"j","seat":-12}"#), "-12");
    assert_eq!(seat_of(r#"{"type":"j","seat":0}"#), "0");
    assert_eq!(seat_of(r#"{"type":"j","seat":9223372036854775807}"#), "9223372036854775807");
    assert_eq!(seat_of(r#"{"type":"j","seat":-9223372036854775808}"#), "-9223372036854775808");
    assert_eq!(seat_of(r#"{"type":"j","seat":"front row"}"#), "front row");
    assert_eq!(seat_of(r#"{"type":"j","seat":""}"#), "");
    assert_eq!(seat_of(r#"{"type":"j"}"#), "");
    assert_eq!(seat_of(r#"{"type":"j","seat":1.5}"#), "");
    assert_eq!(seat_of(r#"{"type":"j","seat":18446744073709551615}"#), "");
    assert_eq!(seat_of(r#"{"type":"j","seat":null}"#), "");
    assert_eq!(seat_of(r#"{"type":"j","seat":[3]}"#), "");
    assert_eq!(seat_of(r#"{"type":"j","seat":true}"#), "");
}

#[test]
fn decode_rejoin_and_ready_read_the_id() {
    assert!(matches!(
        Request::decode(r#"{"type":"rj","id":"abc"}"#),
        Ok(Request::Rejoin { id }) if id == "abc"
    ));
    assert!(matches!(
        Request::decode(r#"{"type":"rj"}"#),
        Ok(Request::Rejoin { id }) if id.is_empty()
    ));
    assert!(matches!(
        Request::decode(r#"{"type":"rj","id":17}"#),
        Ok(Request::Rejoin { id }) if id.is_empty()
    ));
    assert!(matches!(
        Request::decode(r#"{"type":"ready","id":"x-y"}"#),
        Ok(Request::Ready { id }) if id == "x-y"
    ));
    assert!(matches!(
        Request::decode(r#"{"type":"ready","id":null}"#),
        Ok(Request::Ready { id }) if id.is_empty()
    ));
}

#[test]
fn decode_time_request_reads_the_client_time() {
    let time_of = |text: &str| match Request::decode(text) {
        Ok(Request::TimeRequest { client_time }) => client_time,
        other => panic!("expected a time request, got {:?}", other),
    };
    assert_eq!(time_of(r#"{"type":"time_request","client_time":1700000000123}"#), 1_700_000_000_123);
    assert_eq!(time_of(r#"{"type":"time_request","client_time":-5}"#), -5);
    assert_eq!(time_of(r#"{"type":"time_request"}"#), 0);
    assert_eq!(time_of(r#"{"type":"time_request","client_time":"12"}"#), 0);
    assert_eq!(time_of(r#"{"type":"time_request","client_time":1.25}"#), 0);
}

#[test]
fn decode_file_request_keeps_missing_members_apart() {
    match Request::decode(r#"{"type":"file_request","id":"r1","fileType":"patch"}"#) {
        Ok(Request::FileRequest { id, file_type }) => {
            assert_eq!(id.as_deref(), Some("r1"));
            assert_eq!(file_type.as_deref(), Some("patch"));
        }
        other => panic!("expected a file request, got {:?}", other),
    }
    match Request::decode(r#"{"type":"file_request","fileType":7}"#) {
        Ok(Request::FileRequest { id, file_type }) => {
            assert_eq!(id, None);
            assert_eq!(file_type, None);
        }
        other => panic!("expected a file request, got {:?}", other),
    }
    match Request::decode(r#"{"type":"file_request","id":""}"#) {
        Ok(Request::FileRequest { id, file_type }) => {
            assert_eq!(id.as_deref(), Some(""));
            assert_eq!(file_type, None);
        }
        other => panic!("expected a file request, got {:?}", other),
    }
}

#[test]
fn decode_takes_the_last_of_repeated_members() {
    assert!(matches!(
        Request::decode(r#"{"type":"bogus","type":"ping"}"#),
        Ok(Request::Ping)
    ));
}

#[test]
fn pong_on_the_wire() {
    assert_eq!(Reply::Pong.to_json(), r#"{"type":"pong"}"#);
}

#[test]
fn every_error_on_the_wire() {
    let cases = [
        (ProtocolError::InvalidJson, "Invalid JSON"),
        (ProtocolError::UnknownMessageType, "Unknown message type"),
        (ProtocolError::InvalidSeat, "Invalid seat format"),
        (ProtocolError::SeatTaken, "Seat is already taken"),
        (ProtocolError::IdUnavailable, "Could not allocate client id"),
        (ProtocolError::RejoinMissingId, "Rejoin failed: missing id"),
        (ProtocolError::SessionNotFound, "Rejoin failed: session not found"),
        (ProtocolError::ReadyMissingId, "missing id"),
        (ProtocolError::ClientInvalid, "Client ID is no longer valid"),
        (ProtocolError::SeatNotNumeric, "Seat must be a valid number"),
        (ProtocolError::MissingFileId, "missing file id"),
        (ProtocolError::MissingFileType, "missing fileType"),
        (ProtocolError::UnknownFileType, "unknown fileType"),
        (ProtocolError::FileNotFound, "file not found"),
    ];
    for (error, message) in cases {
        assert_eq!(error.message_text(), message);
        let text = Reply::Error(error).to_json();
        assert_eq!(text, format!("{{\"type\":\"error\",\"message\":\"{}\"}}", message));
        assert_eq!(text, error.to_json());
        let value = parse(&text);
        assert_eq!(value["type"], "error");
        assert_eq!(value["message"], message);
    }
}

#[test]
fn unknown_type_reply_is_exact() {
    assert_eq!(
        Reply::Error(ProtocolError::UnknownMessageType).to_json(),
        r#"{"type":"error","message":"Unknown message type"}"#
    );
    assert_eq!(
        Reply::Error(ProtocolError::InvalidJson).to_json(),
        r#"{"type":"error","message":"Invalid JSON"}"#
    );
}

#[test]
fn joined_on_the_wire() {
    let reply = Reply::Joined {
        id: "936da01f-9abd-4d9d-80c7-02af85c822a8".to_string(),
        seat: "3".to_string(),
        expires_at: 1_700_000_030_000,
    };
    assert_eq!(
        reply.to_json(),
        r#"{"type":"joined","id":"936da01f-9abd-4d9d-80c7-02af85c822a8","seat":"3","expiresAt":1700000030000}"#
    );
}

#[test]
fn joined_escapes_the_seat_as_serde_json_does() {
    let seat = "row \"A\"\\1\n\tü\u{1}\u{7f}";
    let reply = Reply::Joined { id: "i".to_string(), seat: seat.to_string(), expires_at: u64::MAX };
    let text = reply.to_json();
    let quoted = serde_json::Value::String(seat.to_string()).to_string();
    assert_ne!(quoted, seat);
    assert_eq!(
        text,
        format!("{{\"type\":\"joined\",\"id\":\"i\",\"seat\":{},\"expiresAt\":18446744073709551615}}", quoted)
    );
    let value = parse(&text);
    assert_eq!(value["type"], "joined");
    assert_eq!(value["id"], "i");
    assert_eq!(value["seat"], seat);
    assert_eq!(value["expiresAt"].as_u64(), Some(u64::MAX));
}

#[test]
fn time_result_on_the_wire() {
    let reply = Reply::TimeResult { client_time: -42, server_time: 1_700_000_000_000 };
    assert_eq!(
        reply.to_json(),
        r#"{"type":"tq_result","client_time":-42,"server_time":1700000000000}"#
    );
    let reply = Reply::TimeResult { client_time: i64::MIN, server_time: i64::MAX };
    let value = parse(&reply.to_json());
    assert_eq!(value["client_time"].as_i64(), Some(i64::MIN));
    assert_eq!(value["server_time"].as_i64(), Some(i64::MAX));
}

#[test]
fn file_manifest_on_the_wire() {
    let empty = Reply::FileManifest { patch_files: vec![], sheet_files: vec![] };
    assert_eq!(empty.to_json(), r#"{"type":"file_manifest","patch_files":[],"sheet_files":[]}"#);
    let reply = Reply::FileManifest {
        patch_files: vec![
            ManifestEntry { name: "r1".to_string(), hash: "00ff".to_string() },
            ManifestEntry { name: "r\"2".to_string(), hash: "ab".to_string() },
        ],
        sheet_files: vec![ManifestEntry { name: "s1".to_string(), hash: "cd".to_string() }],
    };
    let text = reply.to_json();
    assert_eq!(
        text,
        r#"{"type":"file_manifest","patch_files":[{"name":"r1","hash":"00ff"},{"name":"r\"2","hash":"ab"}],"sheet_files":[{"name":"s1","hash":"cd"}]}"#
    );
    let value = parse(&text);
    assert_eq!(value["patch_files"].as_array().unwrap().len(), 2);
    assert_eq!(value["patch_files"][1]["name"], "r\"2");
    assert_eq!(value["sheet_files"][0]["hash"], "cd");
}

fn text(s: &str) -> Member {
    Member::Text(s.to_string())
}

#[test]
fn members_without_a_tag_are_not_json() {
    let decoded = Request::of_members(None, text("3"), text("id"), Member::Integer(1), text("patch"));
    assert!(matches!(decoded, Err(ProtocolError::InvalidJson)));
}

#[test]
fn members_with_an_unknown_tag_ask_for_nothing() {
    for tag in [text("bogus"), text(""), text("Ping"), Member::Absent, Member::Integer(3), Member::Other] {
        let decoded =
            Request::of_members(Some(tag), text("3"), text("id"), Member::Integer(1), text("patch"));
        assert!(matches!(decoded, Err(ProtocolError::UnknownMessageType)));
    }
}

#[test]
fn members_of_each_known_tag() {
    let of = |tag: &str, seat: Member, id: Member, time: Member, kind: Member| {
        Request::of_members(Some(text(tag)), seat, id, time, kind).expect("a known tag")
    };
    assert!(matches!(
        of("ping", Member::Other, Member::Other, Member::Other, Member::Other),
        Request::Ping
    ));
    assert!(matches!(
        of("j", text("front"), text("x"), Member::Absent, Member::Absent),
        Request::Join { seat } if seat == "front"
    ));
    assert!(matches!(
        of("j", Member::Integer(-7), Member::Absent, Member::Absent, Member::Absent),
        Request::Join { seat } if seat == "-7"
    ));
    assert!(matches!(
        of("j", Member::Other, text("x"), Member::Absent, Member::Absent),
        Request::Join { seat } if seat.is_empty()
    ));
    assert!(matches!(
        of("rj", text("seat"), text("abc"), Member::Absent, Member::Absent),
        Request::Rejoin { id } if id == "abc"
    ));
    assert!(matches!(
        of("rj", Member::Absent, Member::Integer(5), Member::Absent, Member::Absent),
        Request::Rejoin { id } if id.is_empty()
    ));
    assert!(matches!(
        of("time_request", Member::Absent, Member::Absent, Member::Integer(99), Member::Absent),
        Request::TimeRequest { client_time: 99 }
    ));
    assert!(matches!(
        of("time_request", Member::Absent, Member::Absent, text("99"), Member::Absent),
        Request::TimeRequest { client_time: 0 }
    ));
    assert!(matches!(
        of("ready", Member::Absent, text("abc"), Member::Absent, Member::Absent),
        Request::Ready { id } if id == "abc"
    ));
    match of("file_request", Member::Absent, text("r1"), Member::Absent, text("sheet")) {
        Request::FileRequest { id, file_type } => {
            assert_eq!(id.as_deref(), Some("r1"));
            assert_eq!(file_type.as_deref(), Some("sheet"));
        }
        other => panic!("expected a file request, got {:?}", other),
    }
    match of("file_request", Member::Absent, Member::Integer(1), Member::Absent, Member::Other) {
        Request::FileRequest { id, file_type } => {
            assert_eq!(id, None);
            assert_eq!(file_type, None);
        }
        other => panic!("expected a file request, got {:?}", other),
    }
}
