use tokio_util::sync::CancellationToken;
use xtalk::chat::{parse_sse_data_line, HttpChatAgent, SseDecoder};
use xtalk::models::{Agent, AgentContext, Asr, DummyAgent, DummyAsr, DummyTts, DummyVad, ModelError, Tts, Vad};

#[test]
fn dummy_asr_returns_default_on_final() {
    let mut asr = DummyAsr::new("hello".into());
    let text = asr.recognize_stream(&[], true).unwrap();
    assert_eq!(text, "hello");
}

#[test]
fn dummy_tts_returns_pcm_at_48k() {
    let tts = DummyTts::new(48_000);
    assert_eq!(tts.sample_rate(), 48_000);
    let chunks = tts.synthesize_stream("hi").unwrap();
    assert!(!chunks.is_empty());
    // 100ms silence @ 48k s16le mono = 9600 bytes
    assert_eq!(chunks[0].len(), 48_000 / 10 * 2);
}

#[test]
fn dummy_agent_only_answers_asr_final() {
    let agent = DummyAgent::new("ok".into());
    let cancel = CancellationToken::new();
    let out = agent
        .accept(
            AgentContext {
                context_type: "asr_final".into(),
                text: "x".into(),
            },
            cancel,
        )
        .unwrap();
    assert_eq!(out, vec!["ok".to_string()]);
}

#[test]
fn dummy_agent_ignores_other_contexts_and_honours_cancel() {
    let agent = DummyAgent::new("ok".into());
    let ctx = AgentContext { context_type: "other".into(), text: "x".into() };
    assert!(agent.accept(ctx.clone(), CancellationToken::new()).unwrap().is_empty());
    let emb = AgentContext { context_type: "embedding".into(), text: "x".into() };
    assert_eq!(agent.accept(emb.clone(), CancellationToken::new()).unwrap(), vec!["ok".to_string()]);
    let cancel = CancellationToken::new();
    cancel.cancel();
    assert!(matches!(agent.accept(emb, cancel), Err(ModelError::Cancelled)));
}

#[test]
fn dummy_vad_speech_threshold() {
    let vad = DummyVad::new();
    assert!(!vad.is_speech(&[]).unwrap());
    assert!(!vad.is_speech(&[0u8; 319]).unwrap());
    assert!(vad.is_speech(&[0u8; 320]).unwrap());
}

#[test]
fn clone_session_isolates_asr_state() {
    let p = DummyAsr::new("a".into());
    let mut c1 = p.fresh();
    let mut c2 = p.fresh();

    let t1 = c1.recognize_stream(&[], true).unwrap();
    assert_eq!(t1, "a");

    let t2 = c2.recognize_stream(&[], false).unwrap();
    assert_eq!(t2, "");

    c1.reset();
    let t1_after = c1.recognize_stream(&[], false).unwrap();
    assert_eq!(t1_after, "");

    let t2_final = c2.recognize_stream(&[], true).unwrap();
    assert_eq!(t2_final, "a");
}

#[test]
fn model_error_texts() {
    assert_eq!(ModelError::message("boom".into()).to_text(), "model error: boom");
    assert_eq!(ModelError::Cancelled.to_text(), "cancelled");
    assert_eq!(ModelError::Other("inner".into()).to_text(), "inner");
}

#[test]
fn streams_chat_completion_deltas() {
    let body = "data: {\"choices\":[{\"delta\":{\"content\":\"Hello\"}}]}\n\n\
data: {\"choices\":[{\"delta\":{\"content\":\" world\"}}]}\n\n\
data: [DONE]\n\n";
    let mut dec = SseDecoder::new();
    dec.push_chunk(body).expect("accept should succeed");
    let out = dec.finish().expect("accept should succeed");
    assert_eq!(out, vec!["Hello".to_string(), " world".to_string()]);
}

#[test]
fn sse_chunk_boundaries_do_not_matter() {
    let body = "data: {\"choices\":[{\"delta\":{\"content\":\"Hel\"}}]}\r\n: keep-alive\n\ndata: {\"choices\":[{\"delta\":{\"content\":\"lo\"}}]}";
    let mut whole = SseDecoder::new();
    whole.push_chunk(body).unwrap();
    let expected = whole.finish().unwrap();
    assert_eq!(expected, vec!["Hel".to_string(), "lo".to_string()]);
    for cut in 0..body.len() {
        if !body.is_char_boundary(cut) {
            continue;
        }
        let mut dec = SseDecoder::new();
        dec.push_chunk(&body[..cut]).unwrap();
        dec.push_chunk(&body[cut..]).unwrap();
        assert_eq!(dec.finish().unwrap(), expected, "cut at {cut}");
    }
}

#[test]
fn sse_lines() {
    assert_eq!(parse_sse_data_line("").unwrap(), None);
    assert_eq!(parse_sse_data_line(": ping").unwrap(), None);
    assert_eq!(parse_sse_data_line("event: x").unwrap(), None);
    assert_eq!(parse_sse_data_line("data: [DONE]").unwrap(), None);
    assert_eq!(parse_sse_data_line("data:").unwrap(), None);
    assert_eq!(parse_sse_data_line(r#"data: {"choices":[{"delta":{}}]}"#).unwrap(), None);
    assert_eq!(parse_sse_data_line(r#"data: {"choices":[{"delta":{"content":""}}]}"#).unwrap(), None);
    assert_eq!(
        parse_sse_data_line(r#"  data:{"choices":[{"delta":{"content":"x"}}]}  "#).unwrap(),
        Some("x".to_string())
    );
    match parse_sse_data_line("data: {oops") {
        Err(ModelError::Message(m)) => assert!(m.starts_with("invalid SSE JSON: "), "{m}"),
        other => panic!("{other:?}"),
    }
}

#[test]
fn bad_sse_line_fails_the_stream() {
    let mut dec = SseDecoder::new();
    assert!(dec.push_chunk("data: nope\n").is_err());
    let mut dec = SseDecoder::new();
    dec.push_chunk("data: nope").unwrap();
    assert!(dec.finish().is_err());
}

#[test]
fn chat_agent_request_shape() {
    let agent = HttpChatAgent::new("https://api.example.com/v1//", "k".into(), "gpt-test".into());
    assert_eq!(agent.base_url, "https://api.example.com/v1");
    assert_eq!(agent.completions_url(), "https://api.example.com/v1/chat/completions");
    let body = agent.request_body("hi \"there\"");
    assert_eq!(
        body,
        r#"{"messages":[{"content":"hi \"there\"","role":"user"}],"model":"gpt-test","stream":true}"#
    );
    let v: serde_json::Value = serde_json::from_str(&body).unwrap();
    // serde_json writes the same value back as the same text (sorted keys, compact).
    assert_eq!(v.to_string(), body);
    assert_eq!(v["messages"][0]["role"], "user");
    assert_eq!(v["stream"], true);
}

#[test]
fn chat_agent_request_for_context() {
    let agent = HttpChatAgent::new("http://localhost/v1", "k".into(), "m".into());
    let ctx = AgentContext { context_type: "asr_final".into(), text: "hello".into() };
    assert!(matches!(agent.request_for(&ctx, true), Err(ModelError::Cancelled)));
    let body = agent.request_for(&ctx, false).unwrap().unwrap();
    assert_eq!(body, r#"{"messages":[{"content":"hello","role":"user"}],"model":"m","stream":true}"#);
    let embedding = AgentContext { context_type: "embedding".into(), text: "x".into() };
    assert!(agent.request_for(&embedding, false).unwrap().is_some());
    let other = AgentContext { context_type: "other".into(), text: "hello".into() };
    assert_eq!(agent.request_for(&other, false).unwrap(), None);
}
