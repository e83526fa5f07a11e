use xtalk::json::{quoted_json, JsonDoc, JsonNode};
use xtalk::protocol::{crate_name, inbound_from_doc, outbound_action, parse_inbound_text, str_object, InboundMessage};

fn number(text: &Option<String>) -> f64 {
    text.as_ref().map(|t| t.parse::<f64>().unwrap()).unwrap_or(0.0)
}

#[test]
fn parse_vad_start_fixture() {
    let raw = "{\n  \"action\": \"vad_speech_start\"\n}\n";
    let msg = parse_inbound_text(raw).unwrap();
    assert!(matches!(msg, InboundMessage::VadSpeechStart));
}

#[test]
fn parse_ping_fixture() {
    let raw = "{\n  \"action\": \"ping\",\n  \"timestamp\": 1.5\n}\n";
    let msg = parse_inbound_text(raw).unwrap();
    assert!(matches!(
        msg,
        InboundMessage::Ping { ref timestamp } if (number(timestamp) - 1.5).abs() < f64::EPSILON
    ));
}

#[test]
fn parse_session_config_fixture() {
    let raw = "{\n  \"action\": \"session_config\",\n  \"recording_path\": \"logs/session_audio/demo.wav\"\n}\n";
    let msg = parse_inbound_text(raw).unwrap();
    match msg {
        InboundMessage::SessionConfig(text) => {
            let value: serde_json::Value = serde_json::from_str(&text).unwrap();
            assert_eq!(value["action"], "session_config");
            assert_eq!(value["recording_path"], "logs/session_audio/demo.wav");
        }
        other => panic!("expected SessionConfig, got {other:?}"),
    }
}

#[test]
fn outbound_shape() {
    let data = str_object("text", "hi");
    let s = outbound_action("update_asr", &data);
    let v: serde_json::Value = serde_json::from_str(&s).unwrap();
    assert_eq!(v["action"], "update_asr");
    assert_eq!(v["data"]["text"], "hi");
}

#[test]
fn parse_ping() {
    let msg = parse_inbound_text(r#"{"action":"ping","timestamp":1.5}"#).unwrap();
    assert!(matches!(
        msg,
        InboundMessage::Ping { ref timestamp } if number(timestamp) == 1.5
    ));
}

#[test]
fn parse_known_control_actions() {
    assert!(matches!(
        parse_inbound_text(r#"{"action":"vad_speech_end"}"#).unwrap(),
        InboundMessage::VadSpeechEnd
    ));
    assert!(matches!(
        parse_inbound_text(r#"{"action":"tts_playback_finished"}"#).unwrap(),
        InboundMessage::TtsPlaybackFinished
    ));
    assert!(matches!(
        parse_inbound_text(r#"{"action":"tts_chunk_played"}"#).unwrap(),
        InboundMessage::TtsChunkPlayed { .. }
    ));
    assert!(matches!(
        parse_inbound_text(r#"{"action":"session_config","recording_path":"/tmp"}"#).unwrap(),
        InboundMessage::SessionConfig(_)
    ));
    assert!(matches!(
        parse_inbound_text(
            r#"{"action":"clock_sync","client_send_ts":1.0,"server_recv_ts":2.0,"client_recv_ts":3.0}"#
        )
        .unwrap(),
        InboundMessage::ClockSync { .. }
    ));
    assert!(matches!(
        parse_inbound_text(r#"{"action":"change_voice","voice_name":"a"}"#).unwrap(),
        InboundMessage::ChangeVoice { .. }
    ));
    assert!(matches!(
        parse_inbound_text(r#"{"action":"change_emotion","emotion_name":"happy"}"#).unwrap(),
        InboundMessage::ChangeEmotion { .. }
    ));
    assert!(matches!(
        parse_inbound_text(r#"{"action":"change_tts_speed","speed":1.2}"#).unwrap(),
        InboundMessage::ChangeTtsSpeed { .. }
    ));
}

#[test]
fn unknown_action_is_unknown_not_error() {
    let msg = parse_inbound_text(r#"{"action":"not_a_real_action"}"#).unwrap();
    assert!(matches!(msg, InboundMessage::Unknown));
}

#[test]
fn invalid_json_is_error() {
    let err = parse_inbound_text("not-json").unwrap_err();
    let text = err.to_text();
    assert!(text.starts_with("invalid JSON: "), "{text}");
}

#[test]
fn type_member_is_fallback_for_action() {
    assert!(matches!(
        parse_inbound_text(r#"{"type":"vad_speech_start"}"#).unwrap(),
        InboundMessage::VadSpeechStart
    ));
    // A non-string `action` does not fall back to `type`.
    assert!(matches!(
        parse_inbound_text(r#"{"action":3,"type":"vad_speech_start"}"#).unwrap(),
        InboundMessage::Unknown
    ));
    // Not an object, or no action at all.
    assert!(matches!(parse_inbound_text("[1,2]").unwrap(), InboundMessage::Unknown));
    assert!(matches!(parse_inbound_text("{}").unwrap(), InboundMessage::Unknown));
}

#[test]
fn field_values_and_defaults() {
    match parse_inbound_text(r#"{"action":"change_emotion","emotion_name":"happy","emotion_vector":[0.5, 1]}"#).unwrap() {
        InboundMessage::ChangeEmotion { emotion_name, emotion_vector } => {
            assert_eq!(emotion_name, "happy");
            assert_eq!(emotion_vector, "[0.5,1]");
        }
        other => panic!("{other:?}"),
    }
    match parse_inbound_text(r#"{"action":"change_emotion"}"#).unwrap() {
        InboundMessage::ChangeEmotion { emotion_name, emotion_vector } => {
            assert_eq!(emotion_name, "");
            assert_eq!(emotion_vector, "[]");
        }
        other => panic!("{other:?}"),
    }
    match parse_inbound_text(r#"{"action":"change_voice","voice_name":7}"#).unwrap() {
        InboundMessage::ChangeVoice { voice_name } => assert_eq!(voice_name, ""),
        other => panic!("{other:?}"),
    }
    match parse_inbound_text(r#"{"action":"ping","timestamp":"soon"}"#).unwrap() {
        InboundMessage::Ping { timestamp } => assert_eq!(timestamp, None),
        other => panic!("{other:?}"),
    }
    match parse_inbound_text(r#"{"action":"clock_sync","client_send_ts":1,"server_recv_ts":2.5}"#).unwrap() {
        InboundMessage::ClockSync { client_send_ts, server_recv_ts, client_recv_ts } => {
            assert_eq!(client_send_ts.as_deref(), Some("1"));
            assert_eq!(server_recv_ts.as_deref(), Some("2.5"));
            assert_eq!(client_recv_ts, None);
        }
        other => panic!("{other:?}"),
    }
}

#[test]
fn outbound_escapes_text() {
    let data = str_object("text", "a\"b\\c\n");
    let s = outbound_action("finish_resp", &data);
    assert_eq!(s, r#"{"action":"finish_resp","data":{"text":"a\"b\\c\n"}}"#);
}

#[test]
fn protocol_crate_name() {
    assert_eq!(crate_name(), "xtalk-protocol");
}

#[test]
fn strings_are_escaped_like_serde_json() {
    let s = "a\u{1}\u{1f}\"\\\n\t\u{8}\u{c}\r\u{7f}é/";
    let quoted = quoted_json(s);
    assert_eq!(quoted, "\"a\\u0001\\u001f\\\"\\\\\\n\\t\\b\\f\\r\u{7f}é/\"");
    assert_eq!(quoted, serde_json::Value::String(s.to_string()).to_string());
}

#[test]
fn inbound_message_from_a_parsed_document() {
    let doc = JsonDoc {
        node: JsonNode::Object(vec![
            ("action".to_string(), "\"change_voice\"".to_string()),
            ("voice_name".to_string(), "\"alto\"".to_string()),
        ]),
        text: r#"{"action":"change_voice","voice_name":"alto"}"#.to_string(),
    };
    match inbound_from_doc(&doc) {
        InboundMessage::ChangeVoice { voice_name } => assert_eq!(voice_name, "alto"),
        other => panic!("{other:?}"),
    }
    let typed = JsonDoc {
        node: JsonNode::Object(vec![("type".to_string(), "\"vad_speech_end\"".to_string())]),
        text: r#"{"type":"vad_speech_end"}"#.to_string(),
    };
    assert!(matches!(inbound_from_doc(&typed), InboundMessage::VadSpeechEnd));
    let not_object = JsonDoc { node: JsonNode::Null, text: "null".to_string() };
    assert!(matches!(inbound_from_doc(&not_object), InboundMessage::Unknown));
}
