use better_reporter_agent::dispatch::{
    basename, content_payload, handle_line, last_line, route_of_path, HandleOutcome, Route,
};
use better_reporter_agent::json::ParseError;

const CHAT_PATH: &str = "./factorio/script-output/better-reporter/chat.txt";
const CONNECTION_PATH: &str = "./factorio/script-output/better-reporter/connection.txt";
const GENERAL_PATH: &str = "./factorio/script-output/better-reporter/general.txt";

#[test]
fn paths_route_by_basename() {
    assert_eq!(route_of_path(CHAT_PATH), Route::Chat);
    assert_eq!(route_of_path(GENERAL_PATH), Route::General);
    assert_eq!(route_of_path(CONNECTION_PATH), Route::Connection);
    assert_eq!(route_of_path("chat.txt"), Route::Chat);
    assert_eq!(route_of_path("general.txt"), Route::General);
    assert_eq!(route_of_path("/some/other/file.log"), Route::Connection);
}

#[test]
fn basename_takes_the_part_after_the_last_slash() {
    assert_eq!(basename("a/b/chat.txt"), "chat.txt");
    assert_eq!(basename("chat.txt"), "chat.txt");
    assert_eq!(basename("a/b/"), "");
}

#[test]
fn routing_is_by_filename_not_content() {
    // The line satisfies the connection schema, but on chat.txt the chat
    // schema judges it, and rejects its tag.
    let line = r#"{"event_type":"player-joined-game","player_name":"ann"}"#;
    match handle_line(CHAT_PATH, line) {
        HandleOutcome::Rejected(Route::Chat, ParseError::UnknownTag) => {}
        other => panic!("unexpected outcome: {:?}", other),
    }
}

#[test]
fn scenario_anonymous_chat_line_is_delivered() {
    let line = r#"{"event_type":"chat","tick":1,"text":"hi"}"#;
    match handle_line(CHAT_PATH, line) {
        HandleOutcome::Deliver(t) => assert_eq!(t, ": hi"),
        other => panic!("unexpected outcome: {:?}", other),
    }
}

#[test]
fn scenario_named_chat_line_is_delivered() {
    let line = r#"{"event_type":"chat","tick":1,"text":"hi","player_name":"ann"}"#;
    match handle_line(CHAT_PATH, line) {
        HandleOutcome::Deliver(t) => assert_eq!(t, "ann: hi"),
        other => panic!("unexpected outcome: {:?}", other),
    }
}

#[test]
fn scenario_left_line_is_delivered_with_afk_label() {
    let line = r#"{"event_type":"player-left-game","tick":1,"player_name":"bob","reason":6}"#;
    match handle_line(CONNECTION_PATH, line) {
        HandleOutcome::Deliver(t) => assert_eq!(t, "bobが退勤しました。(AFK)"),
        other => panic!("unexpected outcome: {:?}", other),
    }
}

#[test]
fn scenario_died_line_is_delivered() {
    let line = r#"{"event_type":"player-died","tick":1,"player_name":"cid"}"#;
    match handle_line(GENERAL_PATH, line) {
        HandleOutcome::Deliver(t) => assert_eq!(t, "cidが登遐されました。"),
        other => panic!("unexpected outcome: {:?}", other),
    }
}

#[test]
fn scenario_unparsable_line_is_never_delivered() {
    for path in [CHAT_PATH, CONNECTION_PATH, GENERAL_PATH] {
        match handle_line(path, "this is not json") {
            HandleOutcome::Rejected(route, err) => {
                assert_eq!(route, route_of_path(path));
                assert_eq!(err, ParseError::Syntax);
            }
            other => panic!("unexpected outcome: {:?}", other),
        }
    }
}

#[test]
fn join_line_is_delivered() {
    let line = r#"{"event_type":"player-joined-game","tick":1,"player_name":"ann"}"#;
    match handle_line(CONNECTION_PATH, line) {
        HandleOutcome::Deliver(t) => assert_eq!(t, "annが出勤しました。"),
        other => panic!("unexpected outcome: {:?}", other),
    }
}

#[test]
fn last_line_takes_the_newest_appended_line() {
    assert_eq!(last_line(""), None);
    assert_eq!(last_line("one\n"), Some("one".to_string()));
    assert_eq!(last_line("one\ntwo\n"), Some("two".to_string()));
    assert_eq!(last_line("one\ntwo"), Some("two".to_string()));
    assert_eq!(last_line("one\r\ntwo\r\n"), Some("two".to_string()));
    assert_eq!(last_line("\n"), Some("".to_string()));
}

#[test]
fn payload_wraps_and_escapes_the_text() {
    assert_eq!(content_payload("hi"), r#"{"content":"hi"}"#);
    assert_eq!(
        content_payload("say \"hi\" \\ now"),
        r#"{"content":"say \"hi\" \\ now"}"#
    );
    assert_eq!(
        content_payload("annが出勤しました。"),
        "{\"content\":\"annが出勤しました。\"}"
    );
}
