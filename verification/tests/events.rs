use better_reporter_agent::chat;
use better_reporter_agent::connection;
use better_reporter_agent::connection::Reason;
use better_reporter_agent::general;
use better_reporter_agent::json::ParseError;

#[test]
fn it_parse_console_text() {
    let text = r#"{"event_type":"chat","tick":831674,"text":"message"}"#;

    let message: chat::Message = chat::Message::parse(text).unwrap();

    match message {
        chat::Message::Chat(event) => {
            assert_eq!(event.text, "message");
        }
    }
}

#[test]
fn it_parse_chat_text() {
    let text = r#"{"event_type":"chat","tick":831674,"text":"message", "player_name": "whoopi"}"#;

    let message: chat::Message = chat::Message::parse(text).unwrap();

    match message {
        chat::Message::Chat(event) => {
            assert_eq!(event.text, "message");
            assert_eq!(event.player_name, Some("whoopi".into()));
        }
    }
}

#[test]
fn connection_it_parse_join_text() {
    let text = r#"{"event_type":"player-joined-game","tick":831674,"player_name":"whoopi"}"#;

    let message: connection::Message = connection::Message::parse(text).unwrap();

    match message {
        connection::Message::Join(event) => {
            assert_eq!(event.player_name, "whoopi");
        }
        _ => panic!("can't parse join message"),
    }
}

#[test]
fn it_parse_left_text() {
    let text =
        r#"{"event_type":"player-left-game","tick":831674,"player_name":"whoopi","reason":6}"#;

    let message: connection::Message = connection::Message::parse(text).unwrap();

    match message {
        connection::Message::Left(event) => {
            assert_eq!(event.player_name, "whoopi");
            assert_eq!(event.reason, Reason::Afk);
        }
        _ => panic!("can't parse join message"),
    }
}

#[test]
fn it_converts_join_to_string() {
    let event = connection::Join {
        player_name: "whoopi".into(),
    };
    assert_eq!(event.to_display(), "whoopiが出勤しました。");
}

#[test]
fn it_converts_left_to_string() {
    let event = connection::Left {
        player_name: "whoopi".into(),
        reason: Reason::Quit,
    };
    assert_eq!(event.to_display(), "whoopiが退勤しました。");

    let event = connection::Left {
        player_name: "whoopi".into(),
        reason: Reason::Afk,
    };
    assert_eq!(event.to_display(), "whoopiが退勤しました。(AFK)");
}

#[test]
fn general_it_parse_join_text() {
    let text = r#"{"event_type":"player-died","tick":831674,"player_name":"whoopi"}"#;

    let message: general::Message = general::Message::parse(text).unwrap();

    match message {
        general::Message::PlayerDied(event) => {
            assert_eq!(event.player_name, "whoopi");
        }
    }
}

fn all_reasons() -> Vec<Reason> {
    vec![
        Reason::Quit,
        Reason::Dropped,
        Reason::Reconnect,
        Reason::WrongInput,
        Reason::DesyncLimitReached,
        Reason::CannotKeepUp,
        Reason::Afk,
        Reason::Kicked,
        Reason::KickedAndDeleted,
        Reason::Banned,
        Reason::SwitchingServers,
        Reason::Unknown,
    ]
}

#[test]
fn reason_codes_zero_to_ten_decode_to_named_reasons() {
    let named = all_reasons();
    for c in 0..=10i64 {
        assert_eq!(Reason::from_code(c), named[c as usize]);
        assert_ne!(Reason::from_code(c), Reason::Unknown);
    }
}

#[test]
fn reason_codes_out_of_range_decode_to_unknown() {
    for c in [-1i64, 11, 12, 100, 831674, i64::MIN, i64::MAX] {
        assert_eq!(Reason::from_code(c), Reason::Unknown);
    }
}

#[test]
fn reason_labels_are_distinct_and_parenthesized() {
    let reasons = all_reasons();
    assert_eq!(Reason::Quit.label(), "");
    for r in &reasons {
        if *r != Reason::Quit {
            assert!(!r.label().is_empty());
            assert!(r.label().starts_with('('));
        }
    }
    for a in &reasons {
        for b in &reasons {
            if a != b {
                assert_ne!(a.label(), b.label());
            }
        }
    }
}

#[test]
fn chat_round_trip_through_json() {
    let original = chat::Message::Chat(chat::Chat {
        text: "hi there".into(),
        player_name: Some("ann".into()),
    });
    let line = original.to_json();
    assert_eq!(
        line,
        r#"{"event_type":"chat","text":"hi there","player_name":"ann"}"#
    );
    assert_eq!(chat::Message::parse(&line).unwrap(), original);
}

#[test]
fn anonymous_chat_round_trip_through_json() {
    let original = chat::Message::Chat(chat::Chat {
        text: "hi".into(),
        player_name: None,
    });
    let line = original.to_json();
    assert_eq!(line, r#"{"event_type":"chat","text":"hi","player_name":null}"#);
    assert_eq!(chat::Message::parse(&line).unwrap(), original);
}

#[test]
fn chat_round_trip_escapes_quotes_and_backslashes() {
    let original = chat::Message::Chat(chat::Chat {
        text: "say \"hi\" \\ now".into(),
        player_name: Some("a\"b".into()),
    });
    let line = original.to_json();
    assert_eq!(chat::Message::parse(&line).unwrap(), original);
}

#[test]
fn join_round_trip_through_json() {
    let original = connection::Message::Join(connection::Join {
        player_name: "whoopi".into(),
    });
    let line = original.to_json();
    assert_eq!(
        line,
        r#"{"event_type":"player-joined-game","player_name":"whoopi"}"#
    );
    assert_eq!(connection::Message::parse(&line).unwrap(), original);
}

#[test]
fn left_round_trip_through_json_for_every_reason() {
    for r in all_reasons() {
        let original = connection::Message::Left(connection::Left {
            player_name: "whoopi".into(),
            reason: r,
        });
        let line = original.to_json();
        assert_eq!(connection::Message::parse(&line).unwrap(), original);
    }
}

#[test]
fn left_to_json_writes_the_wire_code() {
    let event = connection::Message::Left(connection::Left {
        player_name: "bob".into(),
        reason: Reason::Afk,
    });
    assert_eq!(
        event.to_json(),
        r#"{"event_type":"player-left-game","player_name":"bob","reason":6}"#
    );
}

#[test]
fn died_round_trip_through_json() {
    let original = general::Message::PlayerDied(general::PlayerDied {
        player_name: "cid".into(),
    });
    let line = original.to_json();
    assert_eq!(
        line,
        r#"{"event_type":"player-died","player_name":"cid"}"#
    );
    assert_eq!(general::Message::parse(&line).unwrap(), original);
}

#[test]
fn malformed_json_is_a_parse_failure() {
    for line in ["", "not json", "{", "{\"a\":}", "[1,2]", "{\"a\":1,}", "{\"a\":01}"] {
        assert_eq!(chat::Message::parse(line), Err(ParseError::Syntax));
        assert_eq!(connection::Message::parse(line), Err(ParseError::Syntax));
        assert_eq!(general::Message::parse(line), Err(ParseError::Syntax));
    }
}

#[test]
fn unrecognized_event_type_is_a_parse_failure() {
    let line = r#"{"event_type":"meteor","text":"x","player_name":"a"}"#;
    assert_eq!(chat::Message::parse(line), Err(ParseError::UnknownTag));
    assert_eq!(connection::Message::parse(line), Err(ParseError::UnknownTag));
    assert_eq!(general::Message::parse(line), Err(ParseError::UnknownTag));
}

#[test]
fn missing_required_field_is_a_parse_failure() {
    assert_eq!(
        chat::Message::parse(r#"{"event_type":"chat","tick":1}"#),
        Err(ParseError::MissingField)
    );
    assert_eq!(
        connection::Message::parse(r#"{"event_type":"player-left-game","player_name":"b"}"#),
        Err(ParseError::MissingField)
    );
    assert_eq!(
        general::Message::parse(r#"{"event_type":"player-died"}"#),
        Err(ParseError::MissingField)
    );
}

#[test]
fn wrong_field_type_is_a_parse_failure() {
    assert_eq!(
        chat::Message::parse(r#"{"event_type":"chat","text":7}"#),
        Err(ParseError::WrongType)
    );
    assert_eq!(
        connection::Message::parse(
            r#"{"event_type":"player-left-game","player_name":"b","reason":"6"}"#
        ),
        Err(ParseError::WrongType)
    );
    assert_eq!(
        connection::Message::parse(
            r#"{"event_type":"player-left-game","player_name":"b","reason":6.5}"#
        ),
        Err(ParseError::WrongType)
    );
}

#[test]
fn extra_fields_and_whitespace_are_tolerated() {
    let line = r#" { "event_type" : "chat" , "tick" : 831674 , "flag" : true ,
        "ratio" : -1.5e3 , "note" : null , "text" : "ok" } "#;
    match chat::Message::parse(line).unwrap() {
        chat::Message::Chat(event) => assert_eq!(event.text, "ok"),
    }
}

#[test]
fn string_escapes_decode() {
    let line = r#"{"event_type":"chat","text":"a\"b\\c\/d\ne\tf"}"#;
    match chat::Message::parse(line).unwrap() {
        chat::Message::Chat(event) => assert_eq!(event.text, "a\"b\\c/d\ne\tf"),
    }
}

#[test]
fn an_integer_reason_too_big_for_the_wire_is_not_an_integer() {
    let line =
        r#"{"event_type":"player-left-game","player_name":"b","reason":99999999999999999999}"#;
    assert_eq!(connection::Message::parse(line), Err(ParseError::WrongType));
}

#[test]
fn chat_formats_with_and_without_player_name() {
    let named = chat::Chat {
        text: "hi".into(),
        player_name: Some("ann".into()),
    };
    assert_eq!(named.to_display(), "ann: hi");
    let anon = chat::Chat {
        text: "hi".into(),
        player_name: None,
    };
    assert_eq!(anon.to_display(), ": hi");
}

#[test]
fn died_formats_with_player_name() {
    let event = general::PlayerDied {
        player_name: "cid".into(),
    };
    assert_eq!(event.to_display(), "cidが登遐されました。");
}
