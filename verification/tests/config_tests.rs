use xtalk::server::config::{build_pipeline, default_listen, default_max_sessions, ConfigError, ModelSpec, ServerConfig};

fn spec(t: &str, params: &str) -> ModelSpec {
    ModelSpec { model_type: t.into(), params: params.into() }
}

fn dummy_config() -> ServerConfig {
    ServerConfig {
        asr: spec("dummy", r#"{"default_text":"hello from asr"}"#),
        tts: spec("dummy", r#"{"sample_rate":48000}"#),
        llm_agent: spec("dummy", r#"{"default_response":"hi there"}"#),
        vad: Some(spec("dummy", "{}")),
        max_sessions: default_max_sessions(),
        listen: default_listen(),
    }
}

#[test]
fn builds_dummy_pipeline() {
    let cfg = dummy_config();
    let pipeline = build_pipeline(&cfg).expect("build pipeline");
    assert_eq!(pipeline.asr.default_text, "hello from asr");
    assert_eq!(pipeline.tts.sample_rate, 48000);
    assert_eq!(pipeline.agent.default_response, "hi there");
    assert!(pipeline.vad.is_some());
}

#[test]
fn rejects_unknown_type() {
    let cfg = ServerConfig {
        asr: spec("nope", "{}"),
        tts: spec("dummy", "{}"),
        llm_agent: spec("dummy", "{}"),
        vad: None,
        max_sessions: 32,
        listen: "0.0.0.0:11995".into(),
    };
    match build_pipeline(&cfg) {
        Ok(_) => panic!("expected unsupported type error"),
        Err(err) => {
            let msg = err.to_text();
            assert!(msg.contains("nope"), "{msg}");
            assert_eq!(msg, "unsupported asr model type `nope` (Phase 1 supports `dummy`)");
        }
    }
}

#[test]
fn defaults_apply_without_params() {
    let cfg = ServerConfig {
        asr: spec("dummy", "null"),
        tts: spec("dummy", "null"),
        llm_agent: spec("dummy", r#"{"default_response":5}"#),
        vad: None,
        max_sessions: 1,
        listen: "x".into(),
    };
    let p = build_pipeline(&cfg).unwrap();
    assert_eq!(p.asr.default_text, "This is a dummy ASR test text");
    assert_eq!(p.tts.sample_rate, 48000);
    assert_eq!(p.agent.default_response, "Dummy agent reply.");
    assert!(p.vad.is_none());
    assert_eq!(default_max_sessions(), 32);
    assert_eq!(default_listen(), "0.0.0.0:11995");
}

#[test]
fn invalid_sample_rate_is_rejected() {
    for bad in [r#"{"sample_rate":"fast"}"#, r#"{"sample_rate":-1}"#, r#"{"sample_rate":1.5}"#] {
        let mut cfg = dummy_config();
        cfg.tts = spec("dummy", bad);
        match build_pipeline(&cfg) {
            Err(ConfigError::InvalidParam { slot, param }) => {
                assert_eq!(slot, "tts");
                assert_eq!(param, "sample_rate");
            }
            other => panic!("{bad}: {:?}", other.map(|_| ())),
        }
    }
    let mut cfg = dummy_config();
    cfg.tts = spec("dummy", r#"{"sample_rate":4294983296}"#);
    assert_eq!(build_pipeline(&cfg).unwrap().tts.sample_rate, 16000);
}

#[test]
fn slots_are_checked_in_order() {
    let mut cfg = dummy_config();
    cfg.tts = spec("other", "{}");
    cfg.vad = Some(spec("x", "{}"));
    match build_pipeline(&cfg) {
        Err(ConfigError::UnsupportedType { slot, model_type }) => {
            assert_eq!(slot, "tts");
            assert_eq!(model_type, "other");
        }
        other => panic!("{:?}", other.map(|_| ())),
    }
    let mut cfg = dummy_config();
    cfg.vad = Some(spec("x", "{}"));
    assert!(matches!(build_pipeline(&cfg), Err(ConfigError::UnsupportedType { .. })));
}
