//! Tests of the wire encoding, framing and parsing.

use env_tcp_logger::Level;
use env_tcp_logger::WireMessage;
use env_tcp_logger::frame;
use env_tcp_logger::parse;
use env_tcp_logger::parse_frame;

fn message(hostname: &str, level: &str, message: &str, module: &str) -> WireMessage {
    WireMessage {
        hostname: hostname.to_string(),
        level: level.to_string(),
        message: message.to_string(),
        module: module.to_string(),
    }
}

#[test]
fn encode_scenario_connected_collector() {
    let m = message("host1", "INFO", "login ok", "auth");
    let encoded = m.encode();
    assert_eq!(
        encoded,
        "{\"hostname\":\"host1\",\"level\":\"INFO\",\"message\":\"login ok\",\"module\":\"auth\"}"
    );
    let framed = frame(&encoded);
    let mut expected = String::from(
        "{\"hostname\":\"host1\",\"level\":\"INFO\",\"message\":\"login ok\",\"module\":\"auth\"}",
    );
    expected.push('\u{0}');
    assert_eq!(framed.as_bytes(), expected.as_bytes());
    assert_eq!(*framed.as_bytes().last().unwrap(), 0u8);
}

#[test]
fn encode_empty_fields() {
    let m = message("", "", "", "");
    assert_eq!(
        m.encode(),
        "{\"hostname\":\"\",\"level\":\"\",\"message\":\"\",\"module\":\"\"}"
    );
}

#[test]
fn encode_escapes_specials() {
    let m = message("h", "INFO", "say \"hi\" \\ now", "mod");
    assert_eq!(
        m.encode(),
        "{\"hostname\":\"h\",\"level\":\"INFO\",\"message\":\"say \\\"hi\\\" \\\\ now\",\"module\":\"mod\"}"
    );
}

#[test]
fn encode_escapes_control_characters() {
    let m = message("h", "INFO", "a\u{8}\t\n\u{c}\r\u{1}\u{1f}b", "mod");
    assert_eq!(
        m.encode(),
        "{\"hostname\":\"h\",\"level\":\"INFO\",\"message\":\"a\\b\\t\\n\\f\\r\\u0001\\u001fb\",\"module\":\"mod\"}"
    );
}

#[test]
fn encode_never_emits_nul() {
    let m = message("h\u{0}x", "INFO", "\u{0}\u{0}", "m\u{0}");
    let encoded = m.encode();
    assert!(!encoded.as_bytes().contains(&0u8));
    let framed = frame(&encoded);
    let nuls = framed.as_bytes().iter().filter(|b| **b == 0u8).count();
    assert_eq!(nuls, 1);
    assert_eq!(*framed.as_bytes().last().unwrap(), 0u8);
}

#[test]
fn encode_matches_reference_serializer() {
    let mut object = std::collections::BTreeMap::new();
    object.insert("hostname", "host1");
    object.insert("level", "WARN");
    object.insert("message", "quote \" slash \\ tab \t ctl \u{1}");
    object.insert("module", "net::tcp");
    let reference = serde_json::to_string(&object).unwrap();
    let m = message("host1", "WARN", "quote \" slash \\ tab \t ctl \u{1}", "net::tcp");
    assert_eq!(m.encode(), reference);
}

#[test]
fn round_trip_plain() {
    let m = message("host1", "INFO", "login ok", "auth");
    let framed = frame(&m.encode());
    let back = parse_frame(&framed).unwrap();
    assert_eq!(back.hostname, "host1");
    assert_eq!(back.level, "INFO");
    assert_eq!(back.message, "login ok");
    assert_eq!(back.module, "auth");
}

#[test]
fn round_trip_exotic_content() {
    let m = message(
        "host-\u{e9}\u{4e16}\u{754c}",
        "ERROR",
        "mixed \"quotes\" \\ and\nnewlines\t\u{0}\u{1f}\u{7f}",
        "a::b::c",
    );
    let framed = frame(&m.encode());
    let back = parse_frame(&framed).unwrap();
    assert_eq!(back.hostname, m.hostname);
    assert_eq!(back.level, m.level);
    assert_eq!(back.message, m.message);
    assert_eq!(back.module, m.module);
}

#[test]
fn parse_rejects_malformed_frames() {
    // no trailing NUL
    assert!(parse_frame("{\"hostname\":\"h\",\"level\":\"I\",\"message\":\"m\",\"module\":\"d\"}").is_none());
    // empty
    assert!(parse_frame("").is_none());
    // wrong member order
    assert!(parse("{\"level\":\"I\",\"hostname\":\"h\",\"message\":\"m\",\"module\":\"d\"}").is_none());
    // unterminated value
    assert!(parse("{\"hostname\":\"h").is_none());
    // unknown escape
    assert!(parse("{\"hostname\":\"\\x\",\"level\":\"I\",\"message\":\"m\",\"module\":\"d\"}").is_none());
    // raw control character inside a value
    assert!(parse("{\"hostname\":\"h\u{1}\",\"level\":\"I\",\"message\":\"m\",\"module\":\"d\"}").is_none());
    // trailing garbage after the closing brace
    assert!(parse("{\"hostname\":\"h\",\"level\":\"I\",\"message\":\"m\",\"module\":\"d\"}x").is_none());
}

#[test]
fn collector_splits_stream_on_nul() {
    // two frames back to back, as a connected collector sees them
    let first = message("host1", "INFO", "one \"quoted\"\nline", "auth");
    let second = message("host1", "ERROR", "two", "net");
    let mut stream = String::new();
    stream.push_str(&frame(&first.encode()));
    stream.push_str(&frame(&second.encode()));
    let parts: Vec<&str> = stream.split('\u{0}').collect();
    assert_eq!(parts.len(), 3);
    assert_eq!(parts[2], "");
    let back1 = parse(parts[0]).unwrap();
    assert_eq!(back1.message, "one \"quoted\"\nline");
    assert_eq!(back1.level, "INFO");
    let back2 = parse(parts[1]).unwrap();
    assert_eq!(back2.message, "two");
    assert_eq!(back2.module, "net");
}

#[test]
fn level_names() {
    assert_eq!(Level::Trace.as_str(), "TRACE");
    assert_eq!(Level::Debug.as_str(), "DEBUG");
    assert_eq!(Level::Info.as_str(), "INFO");
    assert_eq!(Level::Warn.as_str(), "WARN");
    assert_eq!(Level::Error.as_str(), "ERROR");
}

#[test]
fn level_order() {
    assert!(Level::Error.at_least(Level::Trace));
    assert!(Level::Warn.at_least(Level::Warn));
    assert!(!Level::Debug.at_least(Level::Info));
    assert!(Level::Info.at_least(Level::Debug));
}
