//! WebSocket gateways: inbound frames to bus events, bus events to outbound frames.
use vstd::prelude::*;
use crate::events::{Event, EventMeta, event_type_of};
use crate::json::{json_parse, json_quoted, object_text, quoted_json, object_json, JsonDocV, member_number};
use crate::protocol::{
    InboundView, ProtocolError, inbound_of, parse_inbound_text, InboundMessage, outbound_action,
    outbound_text, str_object, str_object_text, opt_view, action_of,
};
use crate::serving::{Manager, subscriptions_are};
use crate::text::string_of;

verus! {

/// What the runtime does with an inbound text frame.
#[derive(Debug)]
pub enum InputAction {
    /// Publish this event on the session bus.
    Publish(Event),
    /// Reply with a `pong` frame echoing the client's timestamp (number text;
    /// 0 when absent).
    Pong { client_timestamp: Option<String> },
    /// Accepted; nothing to do.
    Ignore,
}

/// Maps client WebSocket frames onto session bus events.
pub struct InputGateway {
    pub session_id: String,
}

/// The input action for an inbound message of session `sid` at time `now`.
pub open spec fn input_action_ok(a: InputAction, sid: Seq<char>, now: u64, m: InboundView) -> bool {
    match m {
        InboundView::Ping { timestamp } => a matches InputAction::Pong { client_timestamp } && opt_view(
            client_timestamp,
        ) == timestamp,
        InboundView::VadSpeechStart => a matches InputAction::Publish(Event::VadSpeechStart { meta, origin })
            && meta.session_id@ == sid && meta.timestamp == now && origin@ == "client"@,
        InboundView::VadSpeechEnd => a matches InputAction::Publish(Event::VadSpeechEnd { meta, origin })
            && meta.session_id@ == sid && meta.timestamp == now && origin@ == "client"@,
        InboundView::TtsPlaybackFinished => a matches InputAction::Publish(Event::TtsPlaybackFinished { meta })
            && meta.session_id@ == sid && meta.timestamp == now,
        _ => a is Ignore,
    }
}

impl InputGateway {
    pub fn new(session_id: String) -> (r: InputGateway)
        ensures
            r.session_id@ == session_id@,
    {
        InputGateway { session_id }
    }

    fn meta(&self, now: u64) -> (r: EventMeta)
        ensures
            r.session_id@ == self.session_id@,
            r.timestamp == now,
    {
        EventMeta::new(self.session_id.clone(), now)
    }

    /// Handle a text control frame received at `now`.
    pub fn handle_text(&self, text: &str, now: u64) -> (r: Result<InputAction, ProtocolError>)
        ensures
            r is Err <==> json_parse(text@) is None,
            r matches Ok(a) ==> json_parse(text@) matches Some(d) && input_action_ok(
                a,
                self.session_id@,
                now,
                inbound_of(d),
            ),
    {
        let m = parse_inbound_text(text)?;
        let a = match m {
            InboundMessage::Ping { timestamp } => InputAction::Pong { client_timestamp: timestamp },
            InboundMessage::VadSpeechStart => InputAction::Publish(
                Event::VadSpeechStart { meta: self.meta(now), origin: string_of("client") },
            ),
            InboundMessage::VadSpeechEnd => InputAction::Publish(
                Event::VadSpeechEnd { meta: self.meta(now), origin: string_of("client") },
            ),
            InboundMessage::TtsPlaybackFinished => InputAction::Publish(
                Event::TtsPlaybackFinished { meta: self.meta(now) },
            ),
            _ => InputAction::Ignore,
        };
        Ok(a)
    }

    /// Raw PCM received at `now` becomes an `audio.frame_received` event.
    pub fn handle_binary(&self, data: Vec<u8>, sample_rate: u32, now: u64) -> (r: Event)
        ensures
            r matches Event::AudioFrameReceived { meta, audio_data, sample_rate: rate } && meta.session_id@
                == self.session_id@ && meta.timestamp == now && audio_data@ == data@ && rate == sample_rate,
    {
        Event::AudioFrameReceived { meta: self.meta(now), audio_data: data, sample_rate }
    }
}

impl Manager for InputGateway {
    fn name(&self) -> (r: &'static str)
        ensures
            r@ == "input_gateway"@,
    {
        "input_gateway"
    }

    /// The input gateway only publishes.
    fn subscriptions(&self) -> (r: Vec<(&'static str, i32)>)
        ensures
            subscriptions_are(r@, Seq::<(Seq<char>, i32)>::empty()),
    {
        Vec::new()
    }
}

/// A frame to send to the client.
#[derive(Debug)]
pub enum OutboundFrame {
    Text(String),
    Binary(Vec<u8>),
}

/// Forwards selected session events to the client.
pub struct OutputGateway {
    pub session_id: String,
}

/// Text shown for an ASR result: the display text, or the raw text when the
/// display text is empty.
pub open spec fn shown_text(text: Seq<char>, display_text: Seq<char>) -> Seq<char> {
    if display_text.len() == 0 { text } else { display_text }
}

/// The frame an event becomes, if any.
pub open spec fn outbound_frame_ok(f: Option<OutboundFrame>, e: Event) -> bool {
    match e {
        Event::AsrResultPartial { text, display_text, .. } => f matches Some(OutboundFrame::Text(t))
            && t@ == outbound_text("update_asr"@, str_object_text("text"@, shown_text(text@, display_text@))),
        Event::AsrResultFinal { text, display_text, .. } => f matches Some(OutboundFrame::Text(t))
            && t@ == outbound_text("finish_asr"@, str_object_text("text"@, shown_text(text@, display_text@))),
        Event::ResponseUpdate { text, .. } => f matches Some(OutboundFrame::Text(t)) && t@ == outbound_text(
            "update_resp"@,
            str_object_text("text"@, text@),
        ),
        Event::ResponseFinish { text, .. } => f matches Some(OutboundFrame::Text(t)) && t@ == outbound_text(
            "finish_resp"@,
            str_object_text("text"@, text@),
        ),
        Event::TtsStarted { .. } => f matches Some(OutboundFrame::Text(t)) && t@ == outbound_text(
            "start_tts"@,
            json_quoted(Seq::empty()),
        ),
        Event::TtsStopped { .. } => f matches Some(OutboundFrame::Text(t)) && t@ == outbound_text(
            "stop_tts"@,
            json_quoted(Seq::empty()),
        ),
        Event::TtsFinished { .. } => f matches Some(OutboundFrame::Text(t)) && t@ == outbound_text(
            "tts_finished"@,
            object_text(Seq::empty()),
        ),
        Event::TtsChunkReady { audio_chunk, .. } => if audio_chunk@.len() > 0 {
            f matches Some(OutboundFrame::Binary(b)) && b@ == audio_chunk@
        } else {
            f is None
        },
        Event::ErrorOccurred { error_message, .. } => f matches Some(OutboundFrame::Text(t)) && t@
            == outbound_text("error"@, json_quoted(error_message@)),
        _ => f is None,
    }
}

/// Actions of the frames the output gateway sends for bus events.
pub open spec fn output_actions() -> Seq<Seq<char>> {
    seq![
        "update_asr"@,
        "finish_asr"@,
        "update_resp"@,
        "finish_resp"@,
        "start_tts"@,
        "stop_tts"@,
        "tts_finished"@,
        "error"@,
    ]
}

/// Every text frame an event becomes is a `{"action", "data"}` frame whose
/// action is one of the output actions, and none of them is
/// `latency_metrics`; events of any other kind, extensions among them, send
/// nothing.
pub proof fn law_only_output_actions(f: Option<OutboundFrame>, e: Event)
    requires
        outbound_frame_ok(f, e),
    ensures
        f matches Some(OutboundFrame::Text(t)) ==> exists|a: Seq<char>, d: Seq<char>|
            output_actions().contains(a) && t@ == #[trigger] outbound_text(a, d),
        !output_actions().contains("latency_metrics"@),
        e is Extension ==> f is None,
{
    reveal_strlit("latency_metrics");
    reveal_strlit("update_asr");
    reveal_strlit("finish_asr");
    reveal_strlit("update_resp");
    reveal_strlit("finish_resp");
    reveal_strlit("start_tts");
    reveal_strlit("stop_tts");
    reveal_strlit("tts_finished");
    reveal_strlit("error");
    let acts = output_actions();
    assert(acts[0] == "update_asr"@ && acts[1] == "finish_asr"@ && acts[2] == "update_resp"@);
    assert(acts[3] == "finish_resp"@ && acts[4] == "start_tts"@ && acts[5] == "stop_tts"@);
    assert(acts[6] == "tts_finished"@ && acts[7] == "error"@);
    assert(!acts.contains("latency_metrics"@)) by {
        assert forall|i: int| 0 <= i < acts.len() implies acts[i] != "latency_metrics"@ by {
            assert(acts[i].len() != "latency_metrics"@.len());
        }
    }
    match e {
        Event::AsrResultPartial { text, display_text, .. } => {
            assert(acts.contains("update_asr"@));
            let d = str_object_text("text"@, shown_text(text@, display_text@));
            assert(outbound_text("update_asr"@, d) == outbound_text("update_asr"@, d));
        },
        Event::AsrResultFinal { text, display_text, .. } => {
            assert(acts.contains("finish_asr"@));
            let d = str_object_text("text"@, shown_text(text@, display_text@));
            assert(outbound_text("finish_asr"@, d) == outbound_text("finish_asr"@, d));
        },
        Event::ResponseUpdate { text, .. } => {
            assert(acts.contains("update_resp"@));
            let d = str_object_text("text"@, text@);
            assert(outbound_text("update_resp"@, d) == outbound_text("update_resp"@, d));
        },
        Event::ResponseFinish { text, .. } => {
            assert(acts.contains("finish_resp"@));
            let d = str_object_text("text"@, text@);
            assert(outbound_text("finish_resp"@, d) == outbound_text("finish_resp"@, d));
        },
        Event::TtsStarted { .. } => {
            assert(acts.contains("start_tts"@));
            let d = json_quoted(Seq::empty());
            assert(outbound_text("start_tts"@, d) == outbound_text("start_tts"@, d));
        },
        Event::TtsStopped { .. } => {
            assert(acts.contains("stop_tts"@));
            let d = json_quoted(Seq::empty());
            assert(outbound_text("stop_tts"@, d) == outbound_text("stop_tts"@, d));
        },
        Event::TtsFinished { .. } => {
            assert(acts.contains("tts_finished"@));
            let d = object_text(Seq::empty());
            assert(outbound_text("tts_finished"@, d) == outbound_text("tts_finished"@, d));
        },
        Event::ErrorOccurred { error_message, .. } => {
            assert(acts.contains("error"@));
            let d = json_quoted(error_message@);
            assert(outbound_text("error"@, d) == outbound_text("error"@, d));
        },
        _ => {},
    }
}

/// Every frame that carries a text (an ASR result or a reply, partial or
/// final) sends it as the object with the single member `text`: the shown
/// text of an ASR result, the text of a reply.
pub proof fn law_text_frames_hold_a_text_object(f: Option<OutboundFrame>, e: Event)
    requires
        outbound_frame_ok(f, e),
    ensures
        e matches Event::ResponseUpdate { text, .. } ==> (f matches Some(OutboundFrame::Text(x)) && x@
            == outbound_text("update_resp"@, object_text(seq![("text"@, json_quoted(text@))]))),
        e matches Event::ResponseFinish { text, .. } ==> (f matches Some(OutboundFrame::Text(x)) && x@
            == outbound_text("finish_resp"@, object_text(seq![("text"@, json_quoted(text@))]))),
        e matches Event::AsrResultPartial { text, display_text, .. } ==> (f matches Some(OutboundFrame::Text(x))
            && x@ == outbound_text(
            "update_asr"@,
            object_text(seq![("text"@, json_quoted(if display_text@.len() == 0 { text@ } else { display_text@ }))]),
        )),
        e matches Event::AsrResultFinal { text, display_text, .. } ==> (f matches Some(OutboundFrame::Text(x))
            && x@ == outbound_text(
            "finish_asr"@,
            object_text(seq![("text"@, json_quoted(if display_text@.len() == 0 { text@ } else { display_text@ }))]),
        )),
{
}

/// Playback control goes to the client as its own frames: `start_tts` and
/// `stop_tts` with an empty string as data, `tts_finished` with an empty
/// object, an error as `error` with the message as a string; an audio chunk
/// goes as a binary frame of exactly its bytes, and an empty one sends nothing.
pub proof fn law_control_frames(f: Option<OutboundFrame>, e: Event)
    requires
        outbound_frame_ok(f, e),
    ensures
        e is TtsStarted ==> (f matches Some(OutboundFrame::Text(x)) && x@ == outbound_text(
            "start_tts"@,
            json_quoted(Seq::empty()),
        )),
        e is TtsStopped ==> (f matches Some(OutboundFrame::Text(x)) && x@ == outbound_text(
            "stop_tts"@,
            json_quoted(Seq::empty()),
        )),
        e is TtsFinished ==> (f matches Some(OutboundFrame::Text(x)) && x@ == outbound_text(
            "tts_finished"@,
            object_text(Seq::empty()),
        )),
        e matches Event::ErrorOccurred { error_message, .. } ==> (f matches Some(OutboundFrame::Text(x)) && x@
            == outbound_text("error"@, json_quoted(error_message@))),
        e matches Event::TtsChunkReady { audio_chunk, .. } ==> (if audio_chunk@.len() > 0 {
            f matches Some(OutboundFrame::Binary(b)) && b@ == audio_chunk@
        } else {
            f is None
        }),
{
}

/// The output gateway is subscribed to every kind of event it sends a frame
/// for: each such event's wire type is in its subscription list.
pub proof fn law_forwarded_events_are_subscribed(f: Option<OutboundFrame>, e: Event)
    requires
        outbound_frame_ok(f, e),
        f is Some,
    ensures
        forwarded_types().contains(event_type_of(e)),
{
    let ts = forwarded_types();
    match e {
        Event::AsrResultPartial { .. } => assert(ts[0] == event_type_of(e)),
        Event::AsrResultFinal { .. } => assert(ts[1] == event_type_of(e)),
        Event::ResponseUpdate { .. } => assert(ts[2] == event_type_of(e)),
        Event::ResponseFinish { .. } => assert(ts[3] == event_type_of(e)),
        Event::TtsStarted { .. } => assert(ts[4] == event_type_of(e)),
        Event::TtsStopped { .. } => assert(ts[5] == event_type_of(e)),
        Event::TtsFinished { .. } => assert(ts[6] == event_type_of(e)),
        Event::TtsChunkReady { .. } => assert(ts[7] == event_type_of(e)),
        Event::ErrorOccurred { .. } => assert(ts[8] == event_type_of(e)),
        _ => {},
    }
}

/// The control frames the client sends about its speech and playback become
/// bus events of the gateway's session at the given time (speech from the
/// client), a ping gets a pong echoing its timestamp, and every other frame
/// is accepted and ignored.
pub proof fn law_client_frames_become_events(d: JsonDocV, a: InputAction, sid: Seq<char>, now: u64)
    requires
        input_action_ok(a, sid, now, inbound_of(d)),
    ensures
        action_of(d) == Some("vad_speech_start"@) ==> (a matches InputAction::Publish(
            Event::VadSpeechStart { meta, origin },
        ) && meta.session_id@ == sid && meta.timestamp == now && origin@ == "client"@),
        action_of(d) == Some("vad_speech_end"@) ==> (a matches InputAction::Publish(Event::VadSpeechEnd { meta, origin })
            && meta.session_id@ == sid && meta.timestamp == now && origin@ == "client"@),
        action_of(d) == Some("tts_playback_finished"@) ==> (a matches InputAction::Publish(
            Event::TtsPlaybackFinished { meta },
        ) && meta.session_id@ == sid && meta.timestamp == now),
        action_of(d) == Some("ping"@) ==> (a matches InputAction::Pong { client_timestamp } && opt_view(
            client_timestamp,
        ) == member_number(d, "timestamp"@)),
        action_of(d) is None ==> a is Ignore,
        action_of(d) matches Some(x) && x != "ping"@ && x != "vad_speech_start"@ && x != "vad_speech_end"@ && x
            != "tts_playback_finished"@ ==> a is Ignore,
{
    reveal_strlit("ping");
    reveal_strlit("vad_speech_start");
    reveal_strlit("vad_speech_end");
    reveal_strlit("tts_playback_finished");
    assert("ping"@.len() != "vad_speech_start"@.len());
    assert("ping"@.len() != "vad_speech_end"@.len());
    assert("ping"@.len() != "tts_playback_finished"@.len());
    assert("vad_speech_start"@.len() != "vad_speech_end"@.len());
    assert("vad_speech_start"@.len() != "tts_playback_finished"@.len());
    assert("vad_speech_end"@.len() != "tts_playback_finished"@.len());
}

/// Event types the output gateway forwards (all at priority 5).
pub open spec fn forwarded_types() -> Seq<Seq<char>> {
    seq![
        "asr.result_partial"@,
        "asr.result_final"@,
        "response.update"@,
        "response.finish"@,
        "tts.started"@,
        "tts.stopped"@,
        "tts.finished"@,
        "tts.chunk_ready"@,
        "error.occurred"@,
    ]
}

impl OutputGateway {
    pub fn new(session_id: String) -> (r: OutputGateway)
        ensures
            r.session_id@ == session_id@,
    {
        OutputGateway { session_id }
    }

    /// The `session_attached` frame announcing this session to the client.
    pub fn send_session_attached(&self) -> (r: String)
        ensures
            r@ == outbound_text("session_attached"@, str_object_text("session_id"@, self.session_id@)),
    {
        let data = str_object("session_id", self.session_id.as_str());
        outbound_action("session_attached", data.as_str())
    }

    fn text_frame(action: &str, key: &str, value: &str) -> (r: Option<OutboundFrame>)
        ensures
            r matches Some(OutboundFrame::Text(t)) && t@ == outbound_text(action@, str_object_text(key@, value@)),
    {
        let data = str_object(key, value);
        Some(OutboundFrame::Text(outbound_action(action, data.as_str())))
    }

    /// The frame `event` becomes, if the client is told of it.
    pub fn forward_event(&self, event: &Event) -> (r: Option<OutboundFrame>)
        ensures
            outbound_frame_ok(r, *event),
    {
        match event {
            Event::AsrResultPartial { text, display_text, .. } => {
                let shown = if display_text.as_str().unicode_len() == 0 { text } else { display_text };
                assert(shown@ == shown_text(text@, display_text@));
                Self::text_frame("update_asr", "text", shown.as_str())
            },
            Event::AsrResultFinal { text, display_text, .. } => {
                let shown = if display_text.as_str().unicode_len() == 0 { text } else { display_text };
                assert(shown@ == shown_text(text@, display_text@));
                Self::text_frame("finish_asr", "text", shown.as_str())
            },
            Event::ResponseUpdate { text, .. } => Self::text_frame("update_resp", "text", text.as_str()),
            Event::ResponseFinish { text, .. } => Self::text_frame("finish_resp", "text", text.as_str()),
            Event::TtsStarted { .. } => {
                let data = quoted_json("");
                proof {
                    reveal_strlit("");
                    assert(""@ =~= Seq::<char>::empty());
                }
                Some(OutboundFrame::Text(outbound_action("start_tts", data.as_str())))
            },
            Event::TtsStopped { .. } => {
                let data = quoted_json("");
                proof {
                    reveal_strlit("");
                    assert(""@ =~= Seq::<char>::empty());
                }
                Some(OutboundFrame::Text(outbound_action("stop_tts", data.as_str())))
            },
            Event::TtsFinished { .. } => {
                let empty: Vec<(String, String)> = Vec::new();
                let data = object_json(&empty);
                assert(empty@.map_values(|m: (String, String)| (m.0@, m.1@)) =~= Seq::<(Seq<char>, Seq<char>)>::empty());
                Some(OutboundFrame::Text(outbound_action("tts_finished", data.as_str())))
            },
            Event::TtsChunkReady { audio_chunk, .. } => {
                if audio_chunk.len() > 0 {
                    let b = audio_chunk.clone();
                    assert(b@ =~= audio_chunk@);
                    Some(OutboundFrame::Binary(b))
                } else {
                    None
                }
            },
            Event::ErrorOccurred { error_message, .. } => {
                let data = quoted_json(error_message.as_str());
                Some(OutboundFrame::Text(outbound_action("error", data.as_str())))
            },
            _ => None,
        }
    }
}

impl Manager for OutputGateway {
    fn name(&self) -> (r: &'static str)
        ensures
            r@ == "output_gateway"@,
    {
        "output_gateway"
    }

    fn subscriptions(&self) -> (r: Vec<(&'static str, i32)>)
        ensures
            subscriptions_are(r@, forwarded_types().map_values(|t: Seq<char>| (t, 5i32))),
    {
        let mut v: Vec<(&'static str, i32)> = Vec::new();
        v.push(("asr.result_partial", 5));
        v.push(("asr.result_final", 5));
        v.push(("response.update", 5));
        v.push(("response.finish", 5));
        v.push(("tts.started", 5));
        v.push(("tts.stopped", 5));
        v.push(("tts.finished", 5));
        v.push(("tts.chunk_ready", 5));
        v.push(("error.occurred", 5));
        assert(forwarded_types().map_values(|t: Seq<char>| (t, 5i32)) =~= seq![
            ("asr.result_partial"@, 5i32),
            ("asr.result_final"@, 5i32),
            ("response.update"@, 5i32),
            ("response.finish"@, 5i32),
            ("tts.started"@, 5i32),
            ("tts.stopped"@, 5i32),
            ("tts.finished"@, 5i32),
            ("tts.chunk_ready"@, 5i32),
            ("error.occurred"@, 5i32),
        ]);
        v
    }
}

} // verus!
