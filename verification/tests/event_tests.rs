use xtalk::events::{Event, EventMeta};

#[test]
fn asr_final_type_matches_python() {
    let ev = Event::AsrResultFinal {
        meta: EventMeta::new("s1".into(), 0),
        text: "hi".into(),
        display_text: "hi".into(),
        speech_pause: false,
    };
    assert_eq!(ev.event_type(), "asr.result_final");
}

#[test]
fn extension_preserves_custom_type() {
    let ev = Event::Extension {
        meta: EventMeta::new("s1".into(), 0),
        event_type: "custom.foo".into(),
        payload: r#"{"x":1}"#.into(),
    };
    assert_eq!(ev.event_type(), "custom.foo");
}

#[test]
fn event_type_names_and_meta() {
    let meta = EventMeta::new("s9".into(), 42);
    let cases: Vec<(Event, &str)> = vec![
        (
            Event::AudioFrameReceived { meta: meta.clone(), audio_data: vec![1], sample_rate: 16000 },
            "audio.frame_received",
        ),
        (Event::VadSpeechStart { meta: meta.clone(), origin: "client".into() }, "vad.speech_start"),
        (Event::VadSpeechEnd { meta: meta.clone(), origin: "client".into() }, "vad.speech_end"),
        (Event::ResponseUpdate { meta: meta.clone(), text: "x".into() }, "response.update"),
        (Event::TtsChunkReady { meta: meta.clone(), audio_chunk: vec![], sample_rate: 1 }, "tts.chunk_ready"),
        (Event::TurnLlmAgentStopRequested { meta: meta.clone() }, "turn.llm_agent_stop_requested"),
        (
            Event::LlmAgentConsumeGenerationRequested {
                meta: meta.clone(),
                context_type: "asr_final".into(),
                text: "t".into(),
            },
            "llm_agent.consume_generation_requested",
        ),
        (Event::ErrorOccurred { meta: meta.clone(), error_message: "e".into() }, "error.occurred"),
        (Event::SessionConfigReceived { meta: meta.clone(), config: "{}".into() }, "session.config_received"),
    ];
    for (ev, name) in cases {
        assert_eq!(ev.event_type(), name);
        assert_eq!(ev.meta().session_id, "s9");
        assert_eq!(ev.meta().timestamp, 42);
        assert_eq!(ev.is_error_event(), name == "error.occurred");
    }
}
