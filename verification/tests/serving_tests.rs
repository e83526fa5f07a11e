use serde_json::Value;
use tokio_util::sync::CancellationToken;
use xtalk::bus::EventBus;
use xtalk::events::{Event, EventMeta};
use xtalk::models::{Agent, Asr, DummyAgent, DummyAsr, DummyTts, DummyVad, ModelError, Tts};
use xtalk::serving::gateways::{InputAction, InputGateway, OutboundFrame, OutputGateway};
use xtalk::serving::managers::{
    AsrManager, LlmAgentContextManager, LlmAgentGenerationManager, ResponseRun, SynthesisRun, TtsManager,
    TurnTakingManager, VadManager, PRE_ROLL_FRAMES, GenerationAction, TtsAction,
};
use xtalk::serving::sessions::{LimitError, ServiceManager, SessionLimiter};
use xtalk::server::app::build_session_managers;
use xtalk::serving::{crate_name, Manager};

fn meta(sid: &str) -> EventMeta {
    EventMeta::new(sid.into(), 0)
}

fn texts(frames: &[Option<OutboundFrame>]) -> Vec<String> {
    frames
        .iter()
        .filter_map(|f| match f {
            Some(OutboundFrame::Text(t)) => Some(t.clone()),
            _ => None,
        })
        .collect()
}

fn find_action<'a>(msgs: &'a [Value], action: &str) -> &'a Value {
    msgs.iter()
        .find(|v| v["action"] == action)
        .unwrap_or_else(|| panic!("missing action {action} in {msgs:?}"))
}

#[test]
fn rejects_when_full() {
    let mut limiter = SessionLimiter::new(1);
    let _p = limiter.acquire().unwrap();
    assert!(limiter.try_acquire().is_err());
}

#[test]
fn dropping_permit_frees_slot() {
    let mut limiter = SessionLimiter::new(1);
    {
        let p = limiter.acquire().unwrap();
        assert!(limiter.try_acquire().is_err());
        limiter.release(p);
    }
    assert!(limiter.try_acquire().is_ok());
}

#[test]
fn unlimited_limiter_never_refuses() {
    let mut limiter = SessionLimiter::new(0);
    for _ in 0..100 {
        assert!(limiter.try_acquire().is_ok());
    }
    assert_eq!(limiter.active_sessions(), 100);
}

#[test]
fn service_manager_connect_tracks_and_disconnect_releases() {
    let mut manager: ServiceManager<String> = ServiceManager::new(2);

    let s1 = manager.connect(|id| format!("service {id}")).unwrap();
    assert!(!s1.is_empty());
    assert_eq!(manager.session_count(), 1);
    assert_eq!(manager.get(&s1).unwrap(), &format!("service {s1}"));

    let s2 = manager.connect(|id| format!("service {id}")).unwrap();
    assert_ne!(s1, s2);
    assert_eq!(manager.session_count(), 2);

    let err = match manager.connect(|id| id) {
        Ok(_) => panic!("expected LimitError::Full when at capacity"),
        Err(e) => e,
    };
    assert!(matches!(err, LimitError::Full));
    assert_eq!(err.to_text(), "session limit reached");

    assert!(manager.disconnect(&s1).is_some());
    assert_eq!(manager.session_count(), 1);
    assert!(manager.get(&s1).is_none());
    assert!(manager.disconnect(&s1).is_none());

    let s3 = manager.connect(|id| id).unwrap();
    assert_eq!(manager.session_count(), 2);
    assert_ne!(s3, s2);
    assert_eq!(s3.len(), 36);

    manager.disconnect(&s2);
    manager.disconnect(&s3);
    assert_eq!(manager.session_count(), 0);
}

#[test]
fn input_vad_start_publishes_event() {
    let gw = InputGateway::new("s1".into());
    match gw.handle_text(r#"{"action":"vad_speech_start"}"#, 5).unwrap() {
        InputAction::Publish(Event::VadSpeechStart { meta, origin }) => {
            assert_eq!(origin, "client");
            assert_eq!(meta.session_id, "s1");
            assert_eq!(meta.timestamp, 5);
        }
        other => panic!("{other:?}"),
    }
}

#[test]
fn input_ping_sends_pong() {
    let gw = InputGateway::new("s1".into());
    match gw.handle_text(r#"{"action":"ping","timestamp":1.5}"#, 0).unwrap() {
        InputAction::Pong { client_timestamp } => assert_eq!(client_timestamp.as_deref(), Some("1.5")),
        other => panic!("expected pong, got {other:?}"),
    }
}

#[test]
fn input_other_frames() {
    let gw = InputGateway::new("s1".into());
    assert!(matches!(
        gw.handle_text(r#"{"action":"tts_playback_finished"}"#, 0).unwrap(),
        InputAction::Publish(Event::TtsPlaybackFinished { .. })
    ));
    assert!(matches!(gw.handle_text(r#"{"action":"change_voice"}"#, 0).unwrap(), InputAction::Ignore));
    assert!(gw.handle_text("nope", 0).is_err());
}

#[test]
fn input_binary_publishes_audio_frame() {
    let gw = InputGateway::new("s1".into());
    match gw.handle_binary(vec![1, 2], 16000, 3) {
        Event::AudioFrameReceived { audio_data, sample_rate, .. } => {
            assert_eq!(audio_data, vec![1, 2]);
            assert_eq!(sample_rate, 16000);
        }
        other => panic!("{other:?}"),
    }
}

#[test]
fn output_forwards_asr_final() {
    let out = OutputGateway::new("s1".into());
    let frame = out.forward_event(&Event::AsrResultFinal {
        meta: meta("s1"),
        text: "hi".into(),
        display_text: "hi".into(),
        speech_pause: false,
    });
    let t = texts(&[frame]);
    assert!(t.iter().any(|t| t.contains("finish_asr") && t.contains("hi")));
}

#[test]
fn output_send_session_attached() {
    let out = OutputGateway::new("s1".into());
    let t = out.send_session_attached();
    assert!(t.contains("session_attached") && t.contains("s1"), "expected session_attached in {t:?}");
}

#[test]
fn output_forwards_tts_chunk_as_bytes() {
    let out = OutputGateway::new("s1".into());
    let frame = out.forward_event(&Event::TtsChunkReady {
        meta: meta("s1"),
        audio_chunk: vec![9, 8, 7],
        sample_rate: 48000,
    });
    match frame {
        Some(OutboundFrame::Binary(b)) => assert_eq!(b, vec![9, 8, 7]),
        other => panic!("{other:?}"),
    }
    assert!(out
        .forward_event(&Event::TtsChunkReady { meta: meta("s1"), audio_chunk: vec![], sample_rate: 48000 })
        .is_none());
}

#[test]
fn finish_asr_data_contains_text() {
    let out = OutputGateway::new("s1".into());
    let frame = out.forward_event(&Event::AsrResultFinal {
        meta: meta("s1"),
        text: "hello".into(),
        display_text: String::new(),
        speech_pause: false,
    });
    let msgs: Vec<Value> = texts(&[frame]).iter().map(|t| serde_json::from_str(t).unwrap()).collect();
    let data = &find_action(&msgs, "finish_asr")["data"];
    assert!(data.is_object(), "finish_asr data must be an object");
    assert!(data.get("text").and_then(|v| v.as_str()).is_some(), "finish_asr data must contain text key, got {data}");
    assert_eq!(data["text"], "hello");
}

#[test]
fn update_resp_data_contains_text() {
    let out = OutputGateway::new("s1".into());
    let frame = out.forward_event(&Event::ResponseUpdate { meta: meta("s1"), text: "partial".into() });
    let msgs: Vec<Value> = texts(&[frame]).iter().map(|t| serde_json::from_str(t).unwrap()).collect();
    let data = &find_action(&msgs, "update_resp")["data"];
    assert!(data.is_object(), "update_resp data must be an object");
    assert!(data.get("text").and_then(|v| v.as_str()).is_some(), "update_resp data must contain text key, got {data}");
    assert_eq!(data["text"], "partial");
}

#[test]
fn session_attached_data_contains_session_id() {
    let out = OutputGateway::new("sess-42".into());
    let msgs: Vec<Value> = vec![serde_json::from_str(&out.send_session_attached()).unwrap()];
    let data = &find_action(&msgs, "session_attached")["data"];
    assert!(data.is_object(), "session_attached data must be an object");
    assert!(data.get("session_id").and_then(|v| v.as_str()).is_some(), "session_attached data must contain session_id, got {data}");
    assert_eq!(data["session_id"], "sess-42");
}

#[test]
fn does_not_send_incomplete_latency_metrics() {
    let out = OutputGateway::new("s1".into());
    let events = vec![
        Event::AsrResultFinal { meta: meta("s1"), text: "hi".into(), display_text: "hi".into(), speech_pause: false },
        Event::ResponseUpdate { meta: meta("s1"), text: "yo".into() },
        Event::ResponseFinish { meta: meta("s1"), text: "yo".into() },
        Event::TtsStarted { meta: meta("s1") },
        Event::TtsFinished { meta: meta("s1") },
        Event::Extension {
            meta: meta("s1"),
            event_type: "latency.metrics_updated".into(),
            payload: r#"{"asr_latency_ms":1}"#.into(),
        },
    ];
    let frames: Vec<Option<OutboundFrame>> = events.iter().map(|e| out.forward_event(e)).collect();
    let msgs: Vec<Value> = texts(&frames).iter().map(|t| serde_json::from_str(t).unwrap()).collect();
    let leaked: Vec<_> = msgs.iter().filter(|v| v["action"] == "latency_metrics").collect();
    assert!(leaked.is_empty(), "must not send incomplete latency_metrics, got {leaked:?}");
    assert!(frames[5].is_none());
}

#[test]
fn output_control_frames() {
    let out = OutputGateway::new("s1".into());
    let one = |e: Event| match out.forward_event(&e) {
        Some(OutboundFrame::Text(t)) => t,
        other => panic!("{other:?}"),
    };
    assert_eq!(one(Event::TtsStarted { meta: meta("s1") }), r#"{"action":"start_tts","data":""}"#);
    assert_eq!(one(Event::TtsStopped { meta: meta("s1") }), r#"{"action":"stop_tts","data":""}"#);
    assert_eq!(one(Event::TtsFinished { meta: meta("s1") }), r#"{"action":"tts_finished","data":{}}"#);
    assert_eq!(
        one(Event::ErrorOccurred { meta: meta("s1"), error_message: "bad".into() }),
        r#"{"action":"error","data":"bad"}"#
    );
    assert_eq!(
        one(Event::AsrResultPartial { meta: meta("s1"), text: "raw".into(), display_text: "shown".into(), speech_pause: false }),
        r#"{"action":"update_asr","data":{"text":"shown"}}"#
    );
    assert!(out.forward_event(&Event::VadSpeechStart { meta: meta("s1"), origin: "client".into() }).is_none());
}

fn drive_asr(mgr: &mut AsrManager, events: &[Event]) -> Vec<String> {
    let mut finals = Vec::new();
    for e in events {
        for out in mgr.handle(e, 1) {
            if let Event::AsrResultFinal { text, .. } = out {
                finals.push(text);
            }
        }
    }
    finals
}

#[test]
fn asr_final_after_speech_end() {
    let mut mgr = AsrManager::new("s1".into(), Box::new(DummyAsr::new("hello".into())));
    let mut events = Vec::new();
    for i in 0u8..5 {
        events.push(Event::AudioFrameReceived { meta: meta("s1"), audio_data: vec![i; 320], sample_rate: 16000 });
    }
    events.push(Event::VadSpeechStart { meta: meta("s1"), origin: "client".into() });
    for i in 5u8..8 {
        events.push(Event::AudioFrameReceived { meta: meta("s1"), audio_data: vec![i; 320], sample_rate: 16000 });
    }
    events.push(Event::VadSpeechEnd { meta: meta("s1"), origin: "client".into() });
    assert_eq!(drive_asr(&mut mgr, &events), vec!["hello".to_string()]);
}

#[test]
fn asr_start_end_via_turn_events() {
    let mut mgr = AsrManager::new("s1".into(), Box::new(DummyAsr::new("turn-ok".into())));
    let events = vec![
        Event::AudioFrameReceived { meta: meta("s1"), audio_data: vec![1; 320], sample_rate: 16000 },
        Event::TurnAsrStartRequested { meta: meta("s1") },
        Event::AudioFrameReceived { meta: meta("s1"), audio_data: vec![2; 320], sample_rate: 16000 },
        Event::TurnAsrEndRequested { meta: meta("s1") },
    ];
    assert_eq!(drive_asr(&mut mgr, &events), vec!["turn-ok".to_string()]);
}

#[test]
fn asr_preroll_keeps_last_frames_and_feeds_them_on_start() {
    let mut mgr = AsrManager::new("s1".into(), Box::new(DummyAsr::new("x".into())));
    for i in 0..(PRE_ROLL_FRAMES as u8 + 5) {
        assert!(mgr.on_audio_frame(vec![i]).is_none());
    }
    assert_eq!(mgr.preroll.len(), PRE_ROLL_FRAMES);
    let fed = mgr.on_start().unwrap();
    let expected: Vec<u8> = (5..(PRE_ROLL_FRAMES as u8 + 5)).collect();
    assert_eq!(fed, expected);
    assert!(mgr.on_start().is_none());
    assert_eq!(mgr.on_audio_frame(vec![99]), Some(vec![99]));
    assert!(mgr.on_end());
    assert!(!mgr.on_end());
}

#[test]
fn asr_end_without_start_gives_no_final() {
    let mut mgr = AsrManager::new("s1".into(), Box::new(DummyAsr::new("x".into())));
    let events = vec![Event::VadSpeechEnd { meta: meta("s1"), origin: "client".into() }];
    assert!(drive_asr(&mut mgr, &events).is_empty());
    let blank = mgr.result_event(Ok(" \t".into()), true, 0);
    assert!(blank.is_none());
    assert!(mgr.result_event(Err(ModelError::Cancelled), false, 0).is_none());
}

#[test]
fn vad_manager_disabled_by_default() {
    let mut mgr = VadManager::new("s1".into(), None);
    assert!(mgr.subscriptions().is_empty());
    assert!(mgr.on_audio_frame(&[0; 320], 0).is_none());
}

#[test]
fn vad_manager_reports_edges() {
    let mut mgr = VadManager::new("s1".into(), Some(Box::new(DummyVad::new())));
    assert_eq!(mgr.subscriptions(), vec![("audio.frame_received", 100)]);
    assert!(matches!(mgr.on_audio_frame(&[0; 320], 1), Some(Event::VadSpeechStart { ref origin, .. }) if origin == "server"));
    assert!(mgr.on_audio_frame(&[0; 400], 2).is_none());
    assert!(mgr.on_audio_frame(&[], 3).is_none());
    assert!(matches!(mgr.on_audio_frame(&[0; 10], 4), Some(Event::VadSpeechEnd { .. })));
    assert!(mgr.on_audio_frame(&[0; 10], 5).is_none());
}

fn types(events: &[Event]) -> Vec<String> {
    events.iter().map(|e| e.event_type().to_string()).collect()
}

/// A synthesis handed off to run after the publish that started it.
struct Deferred {
    text: String,
    token: CancellationToken,
}

/// Publish with a synchronous dispatcher over the verified bus, running the
/// managers' handlers in priority order; the agent runs inside its handler,
/// while synthesis is queued and runs after the publish that started it.
struct Session {
    bus: EventBus,
    asr: AsrManager,
    ctx: LlmAgentContextManager,
    generation: LlmAgentGenerationManager,
    agent: DummyAgent,
    tts: TtsManager,
    tts_model: DummyTts,
    turn: TurnTakingManager,
    routes: Vec<(u64, &'static str)>,
    log: Vec<String>,
    pending: std::collections::VecDeque<Deferred>,
}

impl Session {
    fn new() -> Session {
        let mut s = Session {
            bus: EventBus::new(),
            asr: AsrManager::new("s1".into(), Box::new(DummyAsr::new("hello".into()))),
            ctx: LlmAgentContextManager::new("s1".into()),
            generation: LlmAgentGenerationManager::new("s1".into()),
            agent: DummyAgent::new("reply text".into()),
            tts: TtsManager::new("s1".into()),
            tts_model: DummyTts::new(48_000),
            turn: TurnTakingManager::new("s1".into()),
            routes: Vec::new(),
            log: Vec::new(),
            pending: std::collections::VecDeque::new(),
        };
        let subs: Vec<(&'static str, Vec<(&'static str, i32)>)> = vec![
            ("asr", s.asr.subscriptions()),
            ("ctx", s.ctx.subscriptions()),
            ("gen", s.generation.subscriptions()),
            ("tts", s.tts.subscriptions()),
            ("turn", s.turn.subscriptions()),
        ];
        for (who, list) in subs {
            for (t, p) in list {
                let id = s.bus.subscribe(t, p);
                s.routes.push((id, who));
            }
        }
        s
    }

    fn publish(&mut self, e: Event) {
        self.dispatch(e);
        while let Some(job) = self.pending.pop_front() {
            self.run(job);
        }
    }

    fn run(&mut self, job: Deferred) {
        let started = self.tts.started_event(0);
        self.dispatch(started);
        let result = self.tts_model.synthesize_stream(&job.text);
        let mut run = SynthesisRun::new("s1".into(), self.tts_model.sample_rate(), result);
        while let Some(ev) = run.next_event(job.token.is_cancelled(), 0) {
            self.dispatch(ev);
        }
    }

    fn dispatch(&mut self, e: Event) {
        self.log.push(e.event_type().to_string());
        let ids = match self.bus.publish(&e, 0) {
            Some(ids) => ids,
            None => return,
        };
        for id in ids {
            let who = self.routes.iter().find(|(i, _)| *i == id).unwrap().1;
            let out: Vec<Event> = match who {
                "asr" => self.asr.handle(&e, 0),
                "ctx" => self.ctx.on_asr_final(&e, 0).into_iter().collect(),
                "turn" => self.turn.handle(&e, 0),
                "gen" => {
                    if let GenerationAction::Generate { ctx, work } = self.generation.handle(&e) {
                        let token = work.token;
                        let parts = self.agent.accept(ctx, token.clone()).unwrap();
                        let mut run = ResponseRun::new("s1".into(), parts);
                        while let Some(ev) = run.next_event(token.is_cancelled(), 0) {
                            self.dispatch(ev);
                        }
                    }
                    Vec::new()
                }
                "tts" => {
                    if let TtsAction::Synthesize { text, work } = self.tts.handle(&e) {
                        self.pending.push_back(Deferred { text, token: work.token });
                    }
                    Vec::new()
                }
                _ => Vec::new(),
            };
            for o in out {
                self.dispatch(o);
            }
        }
        self.bus.end_publish(&e);
    }
}

fn assert_subsequence(haystack: &[String], needle: &[&str]) {
    let mut from = 0;
    for expected in needle {
        let pos = haystack[from..]
            .iter()
            .position(|t| t == expected)
            .unwrap_or_else(|| panic!("missing `{expected}` after index {from} in sequence:\n  {haystack:?}"));
        from += pos + 1;
    }
}

#[test]
fn asr_to_agent_to_tts_event_order() {
    let mut s = Session::new();
    s.publish(Event::VadSpeechStart { meta: meta("s1"), origin: "client".into() });
    s.publish(Event::AudioFrameReceived { meta: meta("s1"), audio_data: vec![1; 320], sample_rate: 16_000 });
    s.publish(Event::VadSpeechEnd { meta: meta("s1"), origin: "client".into() });
    assert_subsequence(
        &s.log,
        &["asr.result_final", "response.update", "response.finish", "tts.started", "tts.chunk_ready", "tts.finished"],
    );
}

#[test]
fn speech_start_cancels_tts() {
    let mut turn = TurnTakingManager::new("s1".into());
    let mut tts = TtsManager::new("s1".into());
    let token = tts.on_response_update("long reply").unwrap().token;
    let started = tts.started_event(0);
    assert!(turn.handle(&started, 0).is_empty());
    // Barge-in while TTS is synthesizing.
    let stops = turn.handle(&Event::VadSpeechStart { meta: meta("s1"), origin: "client".into() }, 0);
    let got = types(&stops);
    assert_eq!(got, vec!["turn.tts_stop_requested", "turn.llm_agent_stop_requested"]);
    tts.on_stop();
    assert!(token.is_cancelled());
    let synth = DummyTts::new(48_000).synthesize_stream("long reply");
    let mut run = SynthesisRun::new("s1".into(), 48_000, synth);
    let mut rest = Vec::new();
    while let Some(e) = run.next_event(token.is_cancelled(), 0) {
        rest.push(e);
    }
    let got = types(&rest);
    assert!(got.iter().any(|t| t == "tts.stopped"), "expected tts.stopped; got {got:?}");
    assert!(!got.iter().any(|t| t == "tts.finished"), "interrupted TTS should not emit tts.finished; got {got:?}");
    // Server-origin speech or idle TTS does not barge in.
    assert!(turn.handle(&Event::VadSpeechStart { meta: meta("s1"), origin: "server".into() }, 0).is_empty());
    assert!(turn.handle(&Event::TtsStopped { meta: meta("s1") }, 0).is_empty());
    assert!(turn.handle(&Event::VadSpeechStart { meta: meta("s1"), origin: "client".into() }, 0).is_empty());
}

#[test]
fn superseded_tts_stop_keeps_barge_in_armed() {
    let mut turn = TurnTakingManager::new("s1".into());
    turn.handle(&Event::TtsStarted { meta: meta("s1") }, 0);
    turn.handle(&Event::TtsStarted { meta: meta("s1") }, 0);
    turn.handle(&Event::TtsStopped { meta: meta("s1") }, 0);
    assert!(turn.tts_active());
    turn.handle(&Event::TtsFinished { meta: meta("s1") }, 0);
    assert!(!turn.tts_active());
    turn.on_tts_ended();
    assert_eq!(turn.tts_active_depth, 0);
}

#[test]
fn cancel_preserves_post_stop_enqueued_text() {
    let mut tts = TtsManager::new("s1".into());
    let model = DummyTts::new(48_000);
    let first = tts.on_response_update("first").unwrap().token;
    let mut names = vec![tts.started_event(0).event_type().to_string()];
    tts.on_stop();
    let mut run = SynthesisRun::new("s1".into(), 48_000, model.synthesize_stream("first"));
    while let Some(e) = run.next_event(first.is_cancelled(), 0) {
        names.push(e.event_type().to_string());
    }
    let second = tts.on_response_update("after-stop").unwrap().token;
    names.push(tts.started_event(0).event_type().to_string());
    let mut run = SynthesisRun::new("s1".into(), 48_000, model.synthesize_stream("after-stop"));
    while let Some(e) = run.next_event(second.is_cancelled(), 0) {
        names.push(e.event_type().to_string());
    }
    assert_subsequence(&names, &["tts.started", "tts.stopped", "tts.started", "tts.finished"]);
    assert!(tts.on_response_update("   ").is_none());
}

#[test]
fn synthesis_failure_becomes_error_event() {
    let mut run = SynthesisRun::new("s1".into(), 48_000, Err(ModelError::message("boom".into())));
    match run.next_event(false, 9) {
        Some(Event::ErrorOccurred { error_message, meta }) => {
            assert_eq!(error_message, "model error: boom");
            assert_eq!(meta.timestamp, 9);
        }
        other => panic!("{other:?}"),
    }
    assert!(run.next_event(false, 9).is_none());
}

#[test]
fn response_run_joins_parts() {
    let mut run = ResponseRun::new("s1".into(), vec!["Hello".into(), " world".into()]);
    let mut got = Vec::new();
    while let Some(e) = run.next_event(false, 0) {
        got.push(e);
    }
    assert_eq!(types(&got), vec!["response.update", "response.update", "response.finish"]);
    match &got[2] {
        Event::ResponseFinish { text, .. } => assert_eq!(text, "Hello world"),
        other => panic!("{other:?}"),
    }
    let mut cancelled = ResponseRun::new("s1".into(), vec!["a".into()]);
    assert!(cancelled.next_event(true, 0).is_none());
    assert!(cancelled.next_event(false, 0).is_none());
}

#[test]
fn generation_failure_event() {
    let generation = LlmAgentGenerationManager::new("s1".into());
    assert!(generation.failure_event(&ModelError::Cancelled, 0).is_none());
    match generation.failure_event(&ModelError::message("x".into()), 0) {
        Some(Event::ErrorOccurred { error_message, .. }) => assert_eq!(error_message, "model error: x"),
        other => panic!("{other:?}"),
    }
}

#[test]
fn generation_stop_cancels_token() {
    let mut generation = LlmAgentGenerationManager::new("s1".into());
    let first = generation.begin_generation();
    assert!(first.superseded.is_none());
    let t1 = first.token;
    let second = generation.begin_generation();
    assert!(second.superseded.is_some());
    let t2 = second.token;
    assert!(t1.is_cancelled());
    assert!(!t2.is_cancelled());
    assert_eq!(generation.cancel.as_ref(), Some(&t2));
    assert!(generation.on_stop().is_some());
    assert!(t2.is_cancelled());
    assert!(generation.cancel.is_none());
    assert!(generation.on_stop().is_none());
    let _unused: CancellationToken = t2;
}

#[test]
fn context_manager_forwards_asr_final() {
    let ctx = LlmAgentContextManager::new("s1".into());
    let e = ctx.on_asr_final(
        &Event::AsrResultFinal { meta: meta("s1"), text: "hi".into(), display_text: "hi".into(), speech_pause: false },
        4,
    );
    match e {
        Some(Event::LlmAgentConsumeGenerationRequested { context_type, text, meta }) => {
            assert_eq!(context_type, "asr_final");
            assert_eq!(text, "hi");
            assert_eq!(meta.timestamp, 4);
        }
        other => panic!("{other:?}"),
    }
    assert!(ctx.on_asr_final(&Event::TtsStarted { meta: meta("s1") }, 0).is_none());
}

#[test]
fn serving_crate_name() {
    assert_eq!(crate_name(), "xtalk-serving");
}

#[test]
fn session_manager_stack_follows_pipeline_slots() {
    let b = build_session_managers("s9", Some(Box::new(DummyVad::new())), None, true, false);
    assert_eq!(b.input_gateway.session_id, "s9");
    assert_eq!(b.output_gateway.session_id, "s9");
    assert_eq!(b.context.session_id, "s9");
    assert!(b.vad.vad.is_some());
    assert!(!b.vad.in_speech);
    assert!(b.asr.is_none());
    assert!(b.generation.as_ref().map(|g| g.session_id.as_str()) == Some("s9"));
    assert!(b.tts.is_none());
    assert_eq!(b.turn_taking.tts_active_depth, 0);

    let other = build_session_managers("s10", None, Some(Box::new(DummyAsr::new("x".into()))), false, true);
    assert!(other.vad.vad.is_none());
    let asr = other.asr.as_ref().unwrap();
    assert_eq!(asr.session_id, "s10");
    assert!(!asr.listening && asr.preroll.is_empty());
    assert!(other.generation.is_none());
    assert!(other.tts.is_some());
}

#[test]
fn session_ids_are_hyphenated_v4_uuids() {
    let mut manager: ServiceManager<u8> = ServiceManager::new(0);
    let id = manager.connect(|_| 7).unwrap();
    let cs: Vec<char> = id.chars().collect();
    assert_eq!(cs.len(), 36);
    for (i, c) in cs.iter().enumerate() {
        if i == 8 || i == 13 || i == 18 || i == 23 {
            assert_eq!(*c, '-');
        } else {
            assert!(c.is_ascii_digit() || ('a'..='f').contains(c), "{id}");
        }
    }
    assert_eq!(cs[14], '4');
    assert!(matches!(cs[19], '8' | '9' | 'a' | 'b'));
}

#[test]
fn disconnect_keeps_other_sessions_and_ignores_unknown_ids() {
    let mut manager: ServiceManager<String> = ServiceManager::new(3);
    let a = manager.connect(|id| format!("A {id}")).unwrap();
    let b = manager.connect(|id| format!("B {id}")).unwrap();
    let c = manager.connect(|id| format!("C {id}")).unwrap();
    assert!(manager.disconnect("no-such-session").is_none());
    assert_eq!(manager.session_count(), 3);
    assert_eq!(manager.disconnect(&b), Some(format!("B {b}")));
    assert_eq!(manager.get(&a), Some(&format!("A {a}")));
    assert_eq!(manager.get(&c), Some(&format!("C {c}")));
    assert_eq!(manager.session_count(), 2);
    assert_eq!(manager.limiter.active_sessions(), 2);
    let d = manager.connect(|id| format!("D {id}")).unwrap();
    assert_eq!(manager.get(&d), Some(&format!("D {d}")));
    assert_eq!(manager.get(&a), Some(&format!("A {a}")));
}

#[test]
fn server_speech_or_idle_tts_does_not_barge_in() {
    let mut turn = TurnTakingManager::new("s1".into());
    assert!(turn.handle(&Event::VadSpeechStart { meta: meta("s1"), origin: "client".into() }, 0).is_empty());
    turn.handle(&Event::TtsStarted { meta: meta("s1") }, 0);
    assert!(turn.handle(&Event::VadSpeechStart { meta: meta("s1"), origin: "server".into() }, 0).is_empty());
    assert!(turn.handle(&Event::ResponseUpdate { meta: meta("s1"), text: "x".into() }, 0).is_empty());
    assert_eq!(turn.tts_active_depth, 1);
}

#[test]
fn every_chunk_carries_the_sample_rate() {
    let mut run = SynthesisRun::new("s1".into(), 24_000, Ok(vec![vec![1], vec![2], vec![3]]));
    let mut rates = Vec::new();
    while let Some(e) = run.next_event(false, 0) {
        if let Event::TtsChunkReady { sample_rate, .. } = e {
            rates.push(sample_rate);
        }
    }
    assert_eq!(rates, vec![24_000, 24_000, 24_000]);
}

#[test]
fn managers_route_only_their_events() {
    let mut tts = TtsManager::new("s1".into());
    let ext = Event::Extension { meta: meta("s1"), event_type: "response.update".into(), payload: "{}".into() };
    assert!(matches!(tts.handle(&ext), TtsAction::Ignore));
    let work = match tts.handle(&Event::ResponseUpdate { meta: meta("s1"), text: "hi".into() }) {
        TtsAction::Synthesize { text, work } => {
            assert_eq!(text, "hi");
            work
        }
        _ => panic!("expected a synthesis"),
    };
    assert!(matches!(tts.handle(&ext), TtsAction::Ignore));
    assert!(!work.token.is_cancelled());
    assert!(matches!(tts.handle(&Event::TurnTtsStopRequested { meta: meta("s1") }), TtsAction::Stopped(Some(_))));
    assert!(work.token.is_cancelled());
    assert!(matches!(tts.handle(&Event::TurnTtsStopRequested { meta: meta("s1") }), TtsAction::Stopped(None)));

    let mut generation = LlmAgentGenerationManager::new("s1".into());
    assert!(matches!(generation.handle(&Event::TtsStarted { meta: meta("s1") }), GenerationAction::Ignore));
    let req = Event::LlmAgentConsumeGenerationRequested {
        meta: meta("s1"),
        context_type: "asr_final".into(),
        text: "q".into(),
    };
    let first = match generation.handle(&req) {
        GenerationAction::Generate { ctx, work } => {
            assert_eq!(ctx.text, "q");
            work.token
        }
        _ => panic!("expected a generation"),
    };
    assert!(matches!(generation.handle(&req), GenerationAction::Generate { .. }));
    assert!(first.is_cancelled());
}

#[test]
fn new_work_gets_a_fresh_token() {
    let mut tts = TtsManager::new("s1".into());
    let first = tts.on_response_update("one").unwrap();
    let second = tts.on_response_update("two").unwrap();
    assert_ne!(first.token, second.token);
    assert!(first.token.is_cancelled());
    assert!(!second.token.is_cancelled());
    let mut generation = LlmAgentGenerationManager::new("s1".into());
    let a = generation.begin_generation();
    let b = generation.begin_generation();
    assert_ne!(a.token, b.token);
    assert!(!b.token.is_cancelled());
}
