//! Server configuration and the dummy model set it selects.
use vstd::prelude::*;
use crate::json::{JsonDoc, JsonNode, json_parse, doc_member, member_str, text_as_number, number_u64, parse_json, get_str, number_of_text, number_as_u64};
use crate::models::{DummyAsr, DummyTts, DummyAgent, DummyVad};
use crate::text::{string_of, text_eq, has_prefix};

verus! {

#[verifier::external_type_specification]
#[verifier::external_body]
pub struct ExIoError(std::io::Error);

/// The message `std::io::Error`'s `Display` gives. Nothing is claimed of it.
#[verifier::external_body]
fn io_error_text(e: &std::io::Error) -> String {
    e.to_string()
}

/// One model slot: its model type and its parameters (compact JSON text; `null`
/// when absent).
#[derive(Debug, Clone, PartialEq, Eq)]
pub struct ModelSpec {
    pub model_type: String,
    pub params: String,
}

/// Top-level server configuration.
#[derive(Debug, Clone, PartialEq, Eq)]
pub struct ServerConfig {
    pub asr: ModelSpec,
    pub tts: ModelSpec,
    pub llm_agent: ModelSpec,
    pub vad: Option<ModelSpec>,
    pub max_sessions: usize,
    pub listen: String,
}

/// Default session limit.
pub fn default_max_sessions() -> (r: usize)
    ensures
        r == 32,
{
    32
}

/// Default listen address.
pub fn default_listen() -> (r: String)
    ensures
        r@ == "0.0.0.0:11995"@,
{
    string_of("0.0.0.0:11995")
}

/// Errors while loading a configuration or building its models.
#[derive(Debug)]
pub enum ConfigError {
    InvalidJson(serde_json::Error),
    Io { path: String, source: std::io::Error },
    UnsupportedType { slot: String, model_type: String },
    InvalidParam { slot: String, param: String },
}

impl ConfigError {
    /// The text this error displays as. For the model errors it is
    /// `` unsupported <slot> model type `<type>` (Phase 1 supports `dummy`) ``
    /// and `` missing or invalid param `<param>` for <slot> ``.
    pub fn to_text(&self) -> (r: String)
        ensures
            match *self {
                ConfigError::UnsupportedType { slot, model_type } => r@ == "unsupported "@ + slot@
                    + " model type `"@ + model_type@ + "` (Phase 1 supports `dummy`)"@,
                ConfigError::InvalidParam { slot, param } => r@ == "missing or invalid param `"@ + param@
                    + "` for "@ + slot@,
                ConfigError::InvalidJson(_) => has_prefix(r@, "invalid JSON config: "@),
                ConfigError::Io { path, .. } => has_prefix(r@, "failed to read config `"@ + path@ + "`: "@),
            },
    {
        match self {
            ConfigError::InvalidJson(e) => {
                let mut s = string_of("invalid JSON config: ");
                let ghost head = s@;
                s.append(crate::json::json_error_text(e).as_str());
                assert(s@.subrange(0, head.len() as int) =~= head);
                s
            },
            ConfigError::Io { path, source } => {
                let mut s = string_of("failed to read config `");
                s.append(path.as_str());
                s.append("`: ");
                let ghost head = s@;
                s.append(io_error_text(source).as_str());
                assert(s@.subrange(0, head.len() as int) =~= head);
                s
            },
            ConfigError::UnsupportedType { slot, model_type } => {
                let mut s = string_of("unsupported ");
                s.append(slot.as_str());
                s.append(" model type `");
                s.append(model_type.as_str());
                s.append("` (Phase 1 supports `dummy`)");
                s
            },
            ConfigError::InvalidParam { slot, param } => {
                let mut s = string_of("missing or invalid param `");
                s.append(param.as_str());
                s.append("` for ");
                s.append(slot.as_str());
                s
            },
        }
    }
}

/// What goes wrong with a slot, as plain values.
pub enum ConfigFault {
    UnsupportedType { slot: Seq<char>, model_type: Seq<char> },
    InvalidParam { slot: Seq<char>, param: Seq<char> },
}

/// `e` is the error for `f`.
pub open spec fn error_is(e: ConfigError, f: ConfigFault) -> bool {
    match f {
        ConfigFault::UnsupportedType { slot, model_type } => e matches ConfigError::UnsupportedType {
            slot: s,
            model_type: t,
        } && s@ == slot && t@ == model_type,
        ConfigFault::InvalidParam { slot, param } => e matches ConfigError::InvalidParam { slot: s, param: p }
            && s@ == slot && p@ == param,
    }
}

/// A slot other than `dummy` is unsupported.
pub open spec fn slot_fault(slot: Seq<char>, spec: ModelSpec) -> Option<ConfigFault> {
    if spec.model_type@ == "dummy"@ {
        None
    } else {
        Some(ConfigFault::UnsupportedType { slot, model_type: spec.model_type@ })
    }
}

/// The string parameter `key` of a slot's parameters.
pub open spec fn param_str(params: Seq<char>, key: Seq<char>) -> Option<Seq<char>> {
    match json_parse(params) {
        Some(d) => member_str(d, key),
        None => None,
    }
}

/// A string parameter, or `default` when it is missing or not a string.
pub open spec fn param_str_or(params: Seq<char>, key: Seq<char>, default: Seq<char>) -> Seq<char> {
    match param_str(params, key) {
        Some(s) => s,
        None => default,
    }
}

/// The TTS sample rate a slot's parameters give: 48000 when absent; an
/// unsigned integer, cut to its low 32 bits; anything else is invalid.
pub open spec fn tts_sample_rate(params: Seq<char>) -> Result<u32, ()> {
    let member = match json_parse(params) {
        Some(d) => doc_member(d, "sample_rate"@),
        None => None,
    };
    match member {
        None => Ok(48000),
        Some(t) => match text_as_number(t) {
            Some(n) => match number_u64(n) {
                Some(v) => Ok(v as u32),
                None => Err(()),
            },
            None => Err(()),
        },
    }
}

fn param_string(params: &str, key: &str) -> (r: Option<String>)
    ensures
        match r {
            Some(s) => param_str(params@, key@) == Some(s@),
            None => param_str(params@, key@) is None,
        },
{
    match parse_json(params) {
        Ok(d) => get_str(&d, key),
        Err(_) => None,
    }
}

fn require_dummy(slot: &str, spec: &ModelSpec) -> (r: Result<(), ConfigError>)
    ensures
        match slot_fault(slot@, *spec) {
            Some(f) => r matches Err(e) && error_is(e, f),
            None => r is Ok,
        },
{
    if text_eq(spec.model_type.as_str(), "dummy") {
        Ok(())
    } else {
        Err(ConfigError::UnsupportedType { slot: string_of(slot), model_type: spec.model_type.clone() })
    }
}

/// The dummy ASR of a slot.
pub fn build_dummy_asr(spec: &ModelSpec) -> (r: Result<DummyAsr, ConfigError>)
    ensures
        match slot_fault("asr"@, *spec) {
            Some(f) => r matches Err(e) && error_is(e, f),
            None => r matches Ok(a) && a.default_text@ == param_str_or(
                spec.params@,
                "default_text"@,
                "This is a dummy ASR test text"@,
            ) && a.stream_text@.len() == 0,
        },
{
    require_dummy("asr", spec)?;
    let text = match param_string(spec.params.as_str(), "default_text") {
        Some(t) => t,
        None => string_of("This is a dummy ASR test text"),
    };
    Ok(DummyAsr::new(text))
}

/// The dummy TTS of a slot.
pub fn build_dummy_tts(spec: &ModelSpec) -> (r: Result<DummyTts, ConfigError>)
    ensures
        match slot_fault("tts"@, *spec) {
            Some(f) => r matches Err(e) && error_is(e, f),
            None => match tts_sample_rate(spec.params@) {
                Ok(rate) => r matches Ok(t) && t.sample_rate == rate,
                Err(_) => r matches Err(e) && error_is(
                    e,
                    ConfigFault::InvalidParam { slot: "tts"@, param: "sample_rate"@ },
                ),
            },
        },
{
    require_dummy("tts", spec)?;
    let member = match parse_json(spec.params.as_str()) {
        Ok(d) => d.member("sample_rate"),
        Err(_) => None,
    };
    let sample_rate: u32 = match member {
        None => 48000,
        Some(t) => match number_of_text(t.as_str()) {
            Some(n) => match number_as_u64(n.as_str()) {
                Some(v) => v as u32,
                None => return Err(ConfigError::InvalidParam { slot: string_of("tts"), param: string_of("sample_rate") }),
            },
            None => return Err(ConfigError::InvalidParam { slot: string_of("tts"), param: string_of("sample_rate") }),
        },
    };
    Ok(DummyTts::new(sample_rate))
}

/// The dummy agent of a slot.
pub fn build_dummy_agent(spec: &ModelSpec) -> (r: Result<DummyAgent, ConfigError>)
    ensures
        match slot_fault("llm_agent"@, *spec) {
            Some(f) => r matches Err(e) && error_is(e, f),
            None => r matches Ok(a) && a.default_response@ == param_str_or(
                spec.params@,
                "default_response"@,
                "Dummy agent reply."@,
            ),
        },
{
    require_dummy("llm_agent", spec)?;
    let text = match param_string(spec.params.as_str(), "default_response") {
        Some(t) => t,
        None => string_of("Dummy agent reply."),
    };
    Ok(DummyAgent::new(text))
}

/// The dummy VAD of a slot.
pub fn build_dummy_vad(spec: &ModelSpec) -> (r: Result<DummyVad, ConfigError>)
    ensures
        match slot_fault("vad"@, *spec) {
            Some(f) => r matches Err(e) && error_is(e, f),
            None => r is Ok,
        },
{
    require_dummy("vad", spec)?;
    Ok(DummyVad::new())
}

/// The models a configuration selects.
pub struct PipelineModels {
    pub asr: DummyAsr,
    pub tts: DummyTts,
    pub agent: DummyAgent,
    pub vad: Option<DummyVad>,
}

/// The first thing wrong with a configuration, checking the ASR, TTS, agent
/// and VAD slots in that order.
pub open spec fn pipeline_fault(cfg: ServerConfig) -> Option<ConfigFault> {
    if slot_fault("asr"@, cfg.asr) is Some {
        slot_fault("asr"@, cfg.asr)
    } else if slot_fault("tts"@, cfg.tts) is Some {
        slot_fault("tts"@, cfg.tts)
    } else if tts_sample_rate(cfg.tts.params@) is Err {
        Some(ConfigFault::InvalidParam { slot: "tts"@, param: "sample_rate"@ })
    } else if slot_fault("llm_agent"@, cfg.llm_agent) is Some {
        slot_fault("llm_agent"@, cfg.llm_agent)
    } else {
        match cfg.vad {
            Some(v) => slot_fault("vad"@, v),
            None => None,
        }
    }
}

/// Build the models of a configuration (`dummy` only for now).
pub fn build_pipeline(cfg: &ServerConfig) -> (r: Result<PipelineModels, ConfigError>)
    ensures
        match pipeline_fault(*cfg) {
            Some(f) => r matches Err(e) && error_is(e, f),
            None => r matches Ok(p) && p.asr.default_text@ == param_str_or(
                cfg.asr.params@,
                "default_text"@,
                "This is a dummy ASR test text"@,
            ) && p.asr.stream_text@.len() == 0 && Ok::<u32, ()>(p.tts.sample_rate) == tts_sample_rate(
                cfg.tts.params@,
            ) && p.agent.default_response@ == param_str_or(
                cfg.llm_agent.params@,
                "default_response"@,
                "Dummy agent reply."@,
            ) && (p.vad is Some <==> cfg.vad is Some),
        },
{
    let asr = build_dummy_asr(&cfg.asr)?;
    let tts = build_dummy_tts(&cfg.tts)?;
    let agent = build_dummy_agent(&cfg.llm_agent)?;
    let vad = match &cfg.vad {
        Some(spec) => Some(build_dummy_vad(spec)?),
        None => None,
    };
    Ok(PipelineModels { asr, tts, agent, vad })
}

} // verus!
