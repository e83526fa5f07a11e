//! Wire protocol with the browser client: inbound JSON control frames and
//! outbound `{"action", "data"}` frames.
use vstd::prelude::*;
use crate::json::{
    JsonDoc, JsonDocV, json_parse, json_quoted, doc_member, member_str, member_number, text_as_str,
    text_as_number,
    parse_json, get_str, get_number, json_error_text, object_json, object_text, quoted_json,
};
use crate::text::{string_of, text_eq};

verus! {

/// Crate identity helper used by smoke checks.
pub fn crate_name() -> (r: &'static str)
    ensures
        r@ == "xtalk-protocol"@,
{
    "xtalk-protocol"
}

/// Errors from protocol parsing.
#[derive(Debug)]
pub enum ProtocolError {
    InvalidJson(serde_json::Error),
}

impl ProtocolError {
    /// The text this error displays as: `invalid JSON: ` and the parser's message.
    pub fn to_text(&self) -> (r: String)
        ensures
            r@.len() >= 14,
            r@.subrange(0, 14) == "invalid JSON: "@,
    {
        match self {
            ProtocolError::InvalidJson(e) => {
                let mut s = string_of("invalid JSON: ");
                proof {
                    reveal_strlit("invalid JSON: ");
                }
                let d = json_error_text(e);
                s.append(d.as_str());
                assert(s@.subrange(0, 14) =~= "invalid JSON: "@);
                s
            },
        }
    }
}

/// Parsed inbound control message. Numeric fields hold `serde_json`'s text of
/// the number, or `None` when the field is missing or not a number (the
/// runtime then reads 0, or 1 for the speed); JSON values are kept as
/// compact JSON text.
#[derive(Debug)]
pub enum InboundMessage {
    Ping { timestamp: Option<String> },
    VadSpeechStart,
    VadSpeechEnd,
    TtsPlaybackFinished,
    TtsChunkPlayed {},
    SessionConfig(String),
    ClockSync { client_send_ts: Option<String>, server_recv_ts: Option<String>, client_recv_ts: Option<String> },
    ChangeVoice { voice_name: String },
    ChangeEmotion { emotion_name: String, emotion_vector: String },
    ChangeTtsSpeed { speed: Option<String> },
    Unknown,
}

/// Mathematical view of an [`InboundMessage`].
pub enum InboundView {
    Ping { timestamp: Option<Seq<char>> },
    VadSpeechStart,
    VadSpeechEnd,
    TtsPlaybackFinished,
    TtsChunkPlayed,
    SessionConfig(Seq<char>),
    ClockSync { client_send_ts: Option<Seq<char>>, server_recv_ts: Option<Seq<char>>, client_recv_ts: Option<Seq<char>> },
    ChangeVoice { voice_name: Seq<char> },
    ChangeEmotion { emotion_name: Seq<char>, emotion_vector: Seq<char> },
    ChangeTtsSpeed { speed: Option<Seq<char>> },
    Unknown,
}

pub open spec fn opt_view(o: Option<String>) -> Option<Seq<char>> {
    match o {
        Some(s) => Some(s@),
        None => None,
    }
}

impl View for InboundMessage {
    type V = InboundView;

    open spec fn view(&self) -> InboundView {
        match self {
            InboundMessage::Ping { timestamp } => InboundView::Ping { timestamp: opt_view(*timestamp) },
            InboundMessage::VadSpeechStart => InboundView::VadSpeechStart,
            InboundMessage::VadSpeechEnd => InboundView::VadSpeechEnd,
            InboundMessage::TtsPlaybackFinished => InboundView::TtsPlaybackFinished,
            InboundMessage::TtsChunkPlayed {} => InboundView::TtsChunkPlayed,
            InboundMessage::SessionConfig(v) => InboundView::SessionConfig(v@),
            InboundMessage::ClockSync { client_send_ts, server_recv_ts, client_recv_ts } => InboundView::ClockSync {
                client_send_ts: opt_view(*client_send_ts),
                server_recv_ts: opt_view(*server_recv_ts),
                client_recv_ts: opt_view(*client_recv_ts),
            },
            InboundMessage::ChangeVoice { voice_name } => InboundView::ChangeVoice { voice_name: voice_name@ },
            InboundMessage::ChangeEmotion { emotion_name, emotion_vector } => InboundView::ChangeEmotion {
                emotion_name: emotion_name@,
                emotion_vector: emotion_vector@,
            },
            InboundMessage::ChangeTtsSpeed { speed } => InboundView::ChangeTtsSpeed { speed: opt_view(*speed) },
            InboundMessage::Unknown => InboundView::Unknown,
        }
    }
}

/// The action name of a control frame: the string `action` member, or, when
/// there is no `action` member, the string `type` member.
pub open spec fn action_of(d: JsonDocV) -> Option<Seq<char>> {
    match doc_member(d, "action"@) {
        Some(t) => text_as_str(t),
        None => member_str(d, "type"@),
    }
}

/// A string member, or the empty string.
pub open spec fn str_or_empty(d: JsonDocV, key: Seq<char>) -> Seq<char> {
    match member_str(d, key) {
        Some(s) => s,
        None => Seq::empty(),
    }
}

/// The message a parsed control frame stands for.
pub open spec fn inbound_of(d: JsonDocV) -> InboundView {
    match action_of(d) {
        Some(a) => if a == "ping"@ {
            InboundView::Ping { timestamp: member_number(d, "timestamp"@) }
        } else if a == "vad_speech_start"@ {
            InboundView::VadSpeechStart
        } else if a == "vad_speech_end"@ {
            InboundView::VadSpeechEnd
        } else if a == "tts_playback_finished"@ {
            InboundView::TtsPlaybackFinished
        } else if a == "tts_chunk_played"@ {
            InboundView::TtsChunkPlayed
        } else if a == "session_config"@ {
            InboundView::SessionConfig(d.text)
        } else if a == "clock_sync"@ {
            InboundView::ClockSync {
                client_send_ts: member_number(d, "client_send_ts"@),
                server_recv_ts: member_number(d, "server_recv_ts"@),
                client_recv_ts: member_number(d, "client_recv_ts"@),
            }
        } else if a == "change_voice"@ {
            InboundView::ChangeVoice { voice_name: str_or_empty(d, "voice_name"@) }
        } else if a == "change_emotion"@ {
            InboundView::ChangeEmotion {
                emotion_name: str_or_empty(d, "emotion_name"@),
                emotion_vector: match doc_member(d, "emotion_vector"@) {
                    Some(t) => t,
                    None => "[]"@,
                },
            }
        } else if a == "change_tts_speed"@ {
            InboundView::ChangeTtsSpeed { speed: member_number(d, "speed"@) }
        } else {
            InboundView::Unknown
        },
        None => InboundView::Unknown,
    }
}

/// Each known action's name, told apart from the others.
proof fn lemma_action_names_differ()
    ensures
        "ping"@ != "change_tts_speed"@,
        "vad_speech_start"@ != "change_tts_speed"@,
        "vad_speech_end"@ != "change_tts_speed"@,
        "tts_playback_finished"@ != "change_tts_speed"@,
        "tts_chunk_played"@ != "change_tts_speed"@,
        "session_config"@ != "change_tts_speed"@,
        "clock_sync"@ != "change_tts_speed"@,
        "change_voice"@ != "change_tts_speed"@,
        "change_emotion"@ != "change_tts_speed"@,
        "ping"@ != "clock_sync"@,
        "vad_speech_start"@ != "clock_sync"@,
        "vad_speech_end"@ != "clock_sync"@,
        "tts_playback_finished"@ != "clock_sync"@,
        "tts_chunk_played"@ != "clock_sync"@,
        "session_config"@ != "clock_sync"@,
{
    reveal_strlit("ping");
    reveal_strlit("vad_speech_start");
    reveal_strlit("vad_speech_end");
    reveal_strlit("tts_playback_finished");
    reveal_strlit("tts_chunk_played");
    reveal_strlit("session_config");
    reveal_strlit("clock_sync");
    reveal_strlit("change_voice");
    reveal_strlit("change_emotion");
    reveal_strlit("change_tts_speed");
    assert("ping"@.len() != "change_tts_speed"@.len());
    assert("vad_speech_start"@[0] != "change_tts_speed"@[0]);
    assert("vad_speech_end"@.len() != "change_tts_speed"@.len());
    assert("tts_playback_finished"@.len() != "change_tts_speed"@.len());
    assert("tts_chunk_played"@[0] != "change_tts_speed"@[0]);
    assert("session_config"@.len() != "change_tts_speed"@.len());
    assert("clock_sync"@.len() != "change_tts_speed"@.len());
    assert("change_voice"@.len() != "change_tts_speed"@.len());
    assert("change_emotion"@.len() != "change_tts_speed"@.len());
    assert("ping"@.len() != "clock_sync"@.len());
    assert("vad_speech_start"@.len() != "clock_sync"@.len());
    assert("vad_speech_end"@.len() != "clock_sync"@.len());
    assert("tts_playback_finished"@.len() != "clock_sync"@.len());
    assert("tts_chunk_played"@.len() != "clock_sync"@.len());
    assert("session_config"@.len() != "clock_sync"@.len());
}

/// A numeric field of a control frame keeps the number the client sent:
/// the speed of `change_tts_speed` and the timestamps of `clock_sync` and
/// `ping` are the text of the JSON number found there.
pub proof fn law_numeric_fields_keep_the_number(d: JsonDocV, key: Seq<char>, t: Seq<char>, n: Seq<char>)
    requires
        doc_member(d, key) == Some(t),
        text_as_number(t) == Some(n),
    ensures
        action_of(d) == Some("change_tts_speed"@) && key == "speed"@ ==> (inbound_of(d) matches InboundView::ChangeTtsSpeed {
            speed: Some(x),
        } && x == n),
        action_of(d) == Some("ping"@) && key == "timestamp"@ ==> (inbound_of(d) matches InboundView::Ping {
            timestamp: Some(x),
        } && x == n),
        action_of(d) == Some("clock_sync"@) && key == "client_send_ts"@ ==> (inbound_of(d) matches InboundView::ClockSync {
            client_send_ts: Some(x),
            ..
        } && x == n),
{
    lemma_action_names_differ();
}

/// The names of the actions that carry strings, told apart from the
/// actions tested before them.
proof fn lemma_string_action_names_differ()
    ensures
        "ping"@ != "change_voice"@,
        "vad_speech_start"@ != "change_voice"@,
        "vad_speech_end"@ != "change_voice"@,
        "tts_playback_finished"@ != "change_voice"@,
        "tts_chunk_played"@ != "change_voice"@,
        "session_config"@ != "change_voice"@,
        "clock_sync"@ != "change_voice"@,
        "ping"@ != "change_emotion"@,
        "vad_speech_start"@ != "change_emotion"@,
        "vad_speech_end"@ != "change_emotion"@,
        "tts_playback_finished"@ != "change_emotion"@,
        "tts_chunk_played"@ != "change_emotion"@,
        "session_config"@ != "change_emotion"@,
        "clock_sync"@ != "change_emotion"@,
        "change_voice"@ != "change_emotion"@,
        "ping"@ != "session_config"@,
        "vad_speech_start"@ != "session_config"@,
        "vad_speech_end"@ != "session_config"@,
        "tts_playback_finished"@ != "session_config"@,
        "tts_chunk_played"@ != "session_config"@,
{
    reveal_strlit("ping");
    reveal_strlit("vad_speech_start");
    reveal_strlit("vad_speech_end");
    reveal_strlit("tts_playback_finished");
    reveal_strlit("tts_chunk_played");
    reveal_strlit("session_config");
    reveal_strlit("clock_sync");
    reveal_strlit("change_voice");
    reveal_strlit("change_emotion");
    assert("ping"@.len() != "change_voice"@.len());
    assert("vad_speech_start"@.len() != "change_voice"@.len());
    assert("vad_speech_end"@.len() != "change_voice"@.len());
    assert("tts_playback_finished"@.len() != "change_voice"@.len());
    assert("tts_chunk_played"@.len() != "change_voice"@.len());
    assert("session_config"@.len() != "change_voice"@.len());
    assert("clock_sync"@.len() != "change_voice"@.len());
    assert("ping"@.len() != "change_emotion"@.len());
    assert("vad_speech_start"@.len() != "change_emotion"@.len());
    assert("vad_speech_end"@[0] != "change_emotion"@[0]);
    assert("tts_playback_finished"@.len() != "change_emotion"@.len());
    assert("tts_chunk_played"@.len() != "change_emotion"@.len());
    assert("session_config"@[0] != "change_emotion"@[0]);
    assert("clock_sync"@.len() != "change_emotion"@.len());
    assert("change_voice"@.len() != "change_emotion"@.len());
    assert("ping"@.len() != "session_config"@.len());
    assert("vad_speech_start"@.len() != "session_config"@.len());
    assert("vad_speech_end"@[0] != "session_config"@[0]);
    assert("tts_playback_finished"@.len() != "session_config"@.len());
    assert("tts_chunk_played"@.len() != "session_config"@.len());
}

/// A string field of a control frame keeps the text the client sent: the
/// voice of `change_voice` and the emotion of `change_emotion` are the string
/// found there, and a `session_config` frame hands on its whole text.
pub proof fn law_string_fields_keep_the_text(d: JsonDocV, key: Seq<char>, s: Seq<char>)
    requires
        member_str(d, key) == Some(s),
    ensures
        action_of(d) == Some("change_voice"@) && key == "voice_name"@ ==> (inbound_of(d) matches InboundView::ChangeVoice {
            voice_name: x,
        } && x == s),
        action_of(d) == Some("change_emotion"@) && key == "emotion_name"@ ==> (inbound_of(d) matches InboundView::ChangeEmotion {
            emotion_name: x,
            ..
        } && x == s),
        action_of(d) == Some("session_config"@) ==> inbound_of(d) == InboundView::SessionConfig(d.text),
{
    lemma_string_action_names_differ();
}

fn string_or_empty(d: &JsonDoc, key: &str) -> (r: String)
    ensures
        r@ == str_or_empty(d@, key@),
{
    match get_str(d, key) {
        Some(s) => s,
        None => String::new(),
    }
}

/// Parse a frontend text frame. Unknown actions give `Unknown`; only text
/// that is not JSON is an error.
pub fn parse_inbound_text(text: &str) -> (r: Result<InboundMessage, ProtocolError>)
    ensures
        r is Err <==> json_parse(text@) is None,
        r matches Ok(m) ==> json_parse(text@) matches Some(d) && m@ == inbound_of(d),
{
    let d = match parse_json(text) {
        Ok(d) => d,
        Err(e) => return Err(ProtocolError::InvalidJson(e)),
    };
    Ok(inbound_from_doc(&d))
}

/// The message a parsed control frame stands for.
pub fn inbound_from_doc(d: &JsonDoc) -> (r: InboundMessage)
    ensures
        r@ == inbound_of(d@),
{
    let action = match d.member("action") {
        Some(t) => crate::json::str_of_text(t.as_str()),
        None => get_str(d, "type"),
    };
    let a = match action {
        Some(a) => a,
        None => return InboundMessage::Unknown,
    };
    let a = a.as_str();
    let m = if text_eq(a, "ping") {
        InboundMessage::Ping { timestamp: get_number(d, "timestamp") }
    } else if text_eq(a, "vad_speech_start") {
        InboundMessage::VadSpeechStart
    } else if text_eq(a, "vad_speech_end") {
        InboundMessage::VadSpeechEnd
    } else if text_eq(a, "tts_playback_finished") {
        InboundMessage::TtsPlaybackFinished
    } else if text_eq(a, "tts_chunk_played") {
        InboundMessage::TtsChunkPlayed {}
    } else if text_eq(a, "session_config") {
        InboundMessage::SessionConfig(d.text.clone())
    } else if text_eq(a, "clock_sync") {
        InboundMessage::ClockSync {
            client_send_ts: get_number(d, "client_send_ts"),
            server_recv_ts: get_number(d, "server_recv_ts"),
            client_recv_ts: get_number(d, "client_recv_ts"),
        }
    } else if text_eq(a, "change_voice") {
        InboundMessage::ChangeVoice { voice_name: string_or_empty(d, "voice_name") }
    } else if text_eq(a, "change_emotion") {
        let emotion_vector = match d.member("emotion_vector") {
            Some(t) => t,
            None => string_of("[]"),
        };
        InboundMessage::ChangeEmotion { emotion_name: string_or_empty(d, "emotion_name"), emotion_vector }
    } else if text_eq(a, "change_tts_speed") {
        InboundMessage::ChangeTtsSpeed { speed: get_number(d, "speed") }
    } else {
        InboundMessage::Unknown
    };
    m
}

/// Outbound action names (the browser client's vocabulary).
pub const SESSION_ATTACHED: &'static str = "session_attached";
pub const UPDATE_ASR: &'static str = "update_asr";
pub const FINISH_ASR: &'static str = "finish_asr";
pub const UPDATE_RESP: &'static str = "update_resp";
pub const FINISH_RESP: &'static str = "finish_resp";
pub const START_TTS: &'static str = "start_tts";
pub const STOP_TTS: &'static str = "stop_tts";
pub const TTS_FINISHED: &'static str = "tts_finished";
pub const ERROR: &'static str = "error";
pub const PONG: &'static str = "pong";

/// Text of an outbound frame: `{"action": action, "data": data}`, with `data`
/// given as JSON text.
pub open spec fn outbound_text(action: Seq<char>, data: Seq<char>) -> Seq<char> {
    object_text(seq![("action"@, json_quoted(action)), ("data"@, data)])
}

/// Encode an outbound control frame whose data is the JSON text `data`.
pub fn outbound_action(action: &str, data: &str) -> (r: String)
    ensures
        r@ == outbound_text(action@, data@),
{
    let mut ms: Vec<(String, String)> = Vec::new();
    ms.push((string_of("action"), quoted_json(action)));
    ms.push((string_of("data"), string_of(data)));
    assert(ms@.map_values(|m: (String, String)| (m.0@, m.1@)) =~= seq![
        ("action"@, json_quoted(action@)),
        ("data"@, data@),
    ]);
    object_json(&ms)
}

/// JSON text of an object with the single member `key` holding the string `value`.
pub open spec fn str_object_text(key: Seq<char>, value: Seq<char>) -> Seq<char> {
    object_text(seq![(key, json_quoted(value))])
}

/// `{key: value}` as JSON text, for a string `value`.
pub fn str_object(key: &str, value: &str) -> (r: String)
    ensures
        r@ == str_object_text(key@, value@),
{
    let mut ms: Vec<(String, String)> = Vec::new();
    ms.push((string_of(key), quoted_json(value)));
    assert(ms@.map_values(|m: (String, String)| (m.0@, m.1@)) =~= seq![(key@, json_quoted(value@))]);
    object_json(&ms)
}

} // verus!
