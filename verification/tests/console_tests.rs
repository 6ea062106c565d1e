use mdns_rr::console::{
    benchmark_response, broadcast_message, parse_console_line, reply_message, split_words, web_client_reply,
    welcome_message, ConsoleCommand, Request,
};

#[test]
fn words_split_like_split_whitespace() {
    for line in ["", "   ", "a", " a  b\tc\n", "/broadcast hello   world", "x\u{3000}y\u{a0}z", "é ü"] {
        let expected: Vec<String> = line.split_whitespace().map(String::from).collect();
        assert_eq!(split_words(line), expected, "line {:?}", line);
    }
}

#[test]
fn console_commands() {
    match parse_console_line("  /broadcast hello   world ") {
        ConsoleCommand::Broadcast { content, message } => {
            assert_eq!(content, "hello world");
            assert_eq!(message, r#"{"from":"server","message":"hello world","type":"broadcast"}"#)
        }
        _ => panic!("a broadcast with words"),
    }
    assert!(matches!(parse_console_line("/broadcast"), ConsoleCommand::EmptyBroadcast));
    assert!(matches!(parse_console_line("/broadcast   "), ConsoleCommand::EmptyBroadcast));
    assert!(matches!(parse_console_line("/clients"), ConsoleCommand::ListClients));
    assert!(matches!(parse_console_line("/clients extra"), ConsoleCommand::ListClients));
    assert!(matches!(parse_console_line(""), ConsoleCommand::Unknown));
    assert!(matches!(parse_console_line("/peers"), ConsoleCommand::Unknown));
}

#[test]
fn bridge_messages() {
    assert_eq!(
        welcome_message("abc"),
        r#"{"client_id":"abc","message":"Connected to libp2p WebSocket bridge","type":"welcome"}"#
    );
    assert_eq!(
        reply_message("say \"hi\""),
        r#"{"from":"server","message":"Server received: say \"hi\"","type":"message_received"}"#
    );
    assert_eq!(broadcast_message("a\nb"), r#"{"from":"server","message":"a\nb","type":"broadcast"}"#);
    assert_eq!(benchmark_response(&Request { c: 5 }, 1700000000), r#"{"c":5,"ts":1700000000}"#);
    assert_eq!(benchmark_response(&Request { c: -1 }, 0), r#"{"c":-1,"ts":0}"#);
}

#[test]
fn bridge_messages_read_back_as_json() {
    let v: serde_json::Value = serde_json::from_str(&welcome_message("id-\"1")).unwrap();
    assert_eq!(v["client_id"], "id-\"1");
    assert_eq!(v["type"], "welcome");
    let v: serde_json::Value = serde_json::from_str(&benchmark_response(&Request { c: 42 }, 17)).unwrap();
    assert_eq!(v["c"], 42);
    assert_eq!(v["ts"], 17);
}

#[test]
fn web_client_frames() {
    let answered = web_client_reply(r#"{"message":"hi \"there\"","x":1}"#).expect("a message member");
    assert_eq!(answered.message, "hi \"there\"");
    assert_eq!(answered.reply, reply_message("hi \"there\""));
    assert_eq!(
        answered.reply,
        r#"{"from":"server","message":"Server received: hi \"there\"","type":"message_received"}"#
    );
    assert!(web_client_reply("not json").is_none());
    assert!(web_client_reply(r#"{"message":7}"#).is_none());
    assert!(web_client_reply(r#"{"text":"hi"}"#).is_none());
    assert!(web_client_reply(r#"["message"]"#).is_none());
}

#[test]
fn control_characters_are_escaped() {
    assert_eq!(
        reply_message("a\u{1}\n\t\\\u{1f}\u{7f}é"),
        "{\"from\":\"server\",\"message\":\"Server received: a\\u0001\\n\\t\\\\\\u001f\u{7f}é\",\"type\":\"message_received\"}"
    );
}
