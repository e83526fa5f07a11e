//! Session events exchanged on the bus, with their wire type names.
use vstd::prelude::*;

verus! {

/// Session id and creation time (microseconds since the Unix epoch) of an event.
#[derive(Clone, Debug)]
pub struct EventMeta {
    pub session_id: String,
    pub timestamp: u64,
}

impl EventMeta {
    /// Metadata for an event of session `session_id` created at `timestamp`.
    pub fn new(session_id: String, timestamp: u64) -> (r: EventMeta)
        ensures
            r.session_id@ == session_id@,
            r.timestamp == timestamp,
    {
        EventMeta { session_id, timestamp }
    }
}

/// An event of a dialogue session. JSON payloads travel as compact JSON text.
#[derive(Clone, Debug)]
pub enum Event {
    AudioFrameReceived { meta: EventMeta, audio_data: Vec<u8>, sample_rate: u32 },
    VadSpeechStart { meta: EventMeta, origin: String },
    VadSpeechEnd { meta: EventMeta, origin: String },
    AsrResultPartial { meta: EventMeta, text: String, display_text: String, speech_pause: bool },
    AsrResultFinal { meta: EventMeta, text: String, display_text: String, speech_pause: bool },
    ResponseUpdate { meta: EventMeta, text: String },
    ResponseFinish { meta: EventMeta, text: String },
    TtsStarted { meta: EventMeta },
    TtsStopped { meta: EventMeta },
    TtsFinished { meta: EventMeta },
    TtsChunkReady { meta: EventMeta, audio_chunk: Vec<u8>, sample_rate: u32 },
    TtsPlaybackFinished { meta: EventMeta },
    TurnTtsStopRequested { meta: EventMeta },
    TurnLlmAgentStopRequested { meta: EventMeta },
    TurnAsrStartRequested { meta: EventMeta },
    TurnAsrEndRequested { meta: EventMeta },
    LlmAgentConsumeGenerationRequested { meta: EventMeta, context_type: String, text: String },
    ErrorOccurred { meta: EventMeta, error_message: String },
    SessionConfigReceived { meta: EventMeta, config: String },
    Extension { meta: EventMeta, event_type: String, payload: String },
}

/// The wire type name of an event.
pub open spec fn event_type_of(e: Event) -> Seq<char> {
    match e {
        Event::AudioFrameReceived { .. } => "audio.frame_received"@,
        Event::VadSpeechStart { .. } => "vad.speech_start"@,
        Event::VadSpeechEnd { .. } => "vad.speech_end"@,
        Event::AsrResultPartial { .. } => "asr.result_partial"@,
        Event::AsrResultFinal { .. } => "asr.result_final"@,
        Event::ResponseUpdate { .. } => "response.update"@,
        Event::ResponseFinish { .. } => "response.finish"@,
        Event::TtsStarted { .. } => "tts.started"@,
        Event::TtsStopped { .. } => "tts.stopped"@,
        Event::TtsFinished { .. } => "tts.finished"@,
        Event::TtsChunkReady { .. } => "tts.chunk_ready"@,
        Event::TtsPlaybackFinished { .. } => "tts.playback_finished"@,
        Event::TurnTtsStopRequested { .. } => "turn.tts_stop_requested"@,
        Event::TurnLlmAgentStopRequested { .. } => "turn.llm_agent_stop_requested"@,
        Event::TurnAsrStartRequested { .. } => "turn.asr_start_requested"@,
        Event::TurnAsrEndRequested { .. } => "turn.asr_end_requested"@,
        Event::LlmAgentConsumeGenerationRequested {
            ..
        } => "llm_agent.consume_generation_requested"@,
        Event::ErrorOccurred { .. } => "error.occurred"@,
        Event::SessionConfigReceived { .. } => "session.config_received"@,
        Event::Extension { event_type, .. } => event_type@,
    }
}

/// The metadata an event carries.
pub open spec fn meta_of(e: Event) -> EventMeta {
    match e {
        Event::AudioFrameReceived { meta, .. } => meta,
        Event::VadSpeechStart { meta, .. } => meta,
        Event::VadSpeechEnd { meta, .. } => meta,
        Event::AsrResultPartial { meta, .. } => meta,
        Event::AsrResultFinal { meta, .. } => meta,
        Event::ResponseUpdate { meta, .. } => meta,
        Event::ResponseFinish { meta, .. } => meta,
        Event::TtsStarted { meta } => meta,
        Event::TtsStopped { meta } => meta,
        Event::TtsFinished { meta } => meta,
        Event::TtsChunkReady { meta, .. } => meta,
        Event::TtsPlaybackFinished { meta } => meta,
        Event::TurnTtsStopRequested { meta } => meta,
        Event::TurnLlmAgentStopRequested { meta } => meta,
        Event::TurnAsrStartRequested { meta } => meta,
        Event::TurnAsrEndRequested { meta } => meta,
        Event::LlmAgentConsumeGenerationRequested { meta, .. } => meta,
        Event::ErrorOccurred { meta, .. } => meta,
        Event::SessionConfigReceived { meta, .. } => meta,
        Event::Extension { meta, .. } => meta,
    }
}

impl Event {
    /// The wire type name of this event.
    pub fn event_type(&self) -> (r: &str)
        ensures
            r@ == event_type_of(*self),
    {
        match self {
            Event::AudioFrameReceived { .. } => "audio.frame_received",
            Event::VadSpeechStart { .. } => "vad.speech_start",
            Event::VadSpeechEnd { .. } => "vad.speech_end",
            Event::AsrResultPartial { .. } => "asr.result_partial",
            Event::AsrResultFinal { .. } => "asr.result_final",
            Event::ResponseUpdate { .. } => "response.update",
            Event::ResponseFinish { .. } => "response.finish",
            Event::TtsStarted { .. } => "tts.started",
            Event::TtsStopped { .. } => "tts.stopped",
            Event::TtsFinished { .. } => "tts.finished",
            Event::TtsChunkReady { .. } => "tts.chunk_ready",
            Event::TtsPlaybackFinished { .. } => "tts.playback_finished",
            Event::TurnTtsStopRequested { .. } => "turn.tts_stop_requested",
            Event::TurnLlmAgentStopRequested { .. } => "turn.llm_agent_stop_requested",
            Event::TurnAsrStartRequested { .. } => "turn.asr_start_requested",
            Event::TurnAsrEndRequested { .. } => "turn.asr_end_requested",
            Event::LlmAgentConsumeGenerationRequested {
                ..
            } => "llm_agent.consume_generation_requested",
            Event::ErrorOccurred { .. } => "error.occurred",
            Event::SessionConfigReceived { .. } => "session.config_received",
            Event::Extension { event_type, .. } => event_type.as_str(),
        }
    }

    /// The metadata this event carries.
    pub fn meta(&self) -> (r: &EventMeta)
        ensures
            *r == meta_of(*self),
    {
        match self {
            Event::AudioFrameReceived { meta, .. }
            | Event::VadSpeechStart { meta, .. }
            | Event::VadSpeechEnd { meta, .. }
            | Event::AsrResultPartial { meta, .. }
            | Event::AsrResultFinal { meta, .. }
            | Event::ResponseUpdate { meta, .. }
            | Event::ResponseFinish { meta, .. }
            | Event::TtsStarted { meta }
            | Event::TtsStopped { meta }
            | Event::TtsFinished { meta }
            | Event::TtsChunkReady { meta, .. }
            | Event::TtsPlaybackFinished { meta }
            | Event::TurnTtsStopRequested { meta }
            | Event::TurnLlmAgentStopRequested { meta }
            | Event::TurnAsrStartRequested { meta }
            | Event::TurnAsrEndRequested { meta }
            | Event::LlmAgentConsumeGenerationRequested { meta, .. }
            | Event::ErrorOccurred { meta, .. }
            | Event::SessionConfigReceived { meta, .. }
            | Event::Extension { meta, .. } => meta,
        }
    }

    /// Whether this is an `error.occurred` event.
    pub fn is_error_event(&self) -> (r: bool)
        ensures
            r == (*self is ErrorOccurred),
    {
        match self {
            Event::ErrorOccurred { .. } => true,
            _ => false,
        }
    }
}

} // verus!
