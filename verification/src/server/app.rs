//! The manager stack a WebSocket session gets.
use vstd::prelude::*;
use crate::models::{Asr, Vad};
use crate::serving::gateways::{InputGateway, OutputGateway};
use crate::serving::managers::{
    AsrManager, LlmAgentContextManager, LlmAgentGenerationManager, TtsManager, TurnTakingManager, VadManager,
};
use crate::text::string_of;

verus! {

/// The gateways and managers of one session, in the order they register on
/// its bus.
pub struct ManagerBundle {
    pub input_gateway: InputGateway,
    pub output_gateway: OutputGateway,
    pub vad: VadManager,
    pub asr: Option<AsrManager>,
    pub context: LlmAgentContextManager,
    pub generation: Option<LlmAgentGenerationManager>,
    pub tts: Option<TtsManager>,
    pub turn_taking: TurnTakingManager,
}

/// Every part of `b` belongs to session `sid` and starts idle.
pub open spec fn bundle_fresh(b: ManagerBundle, sid: Seq<char>) -> bool {
    &&& b.input_gateway.session_id@ == sid
    &&& b.output_gateway.session_id@ == sid
    &&& b.vad.session_id@ == sid && !b.vad.in_speech
    &&& (b.asr matches Some(a) ==> a.session_id@ == sid && !a.listening && a.preroll@.len() == 0 && a.wf())
    &&& b.context.session_id@ == sid
    &&& (b.generation matches Some(g) ==> g.session_id@ == sid && g.cancel is None)
    &&& (b.tts matches Some(t) ==> t.session_id@ == sid && t.cancel is None)
    &&& b.turn_taking.session_id@ == sid && b.turn_taking.tts_active_depth == 0
}

/// The default manager stack of session `session_id` for a pipeline whose
/// slots hold `vad` and `asr` (each session gets its own instance) and, when
/// `has_agent` / `has_tts`, an agent and a synthesizer. The gateways, the VAD
/// manager (idle without a model), the context manager and turn taking are
/// always there; the ASR, generation and TTS managers only with their model.
pub fn build_session_managers(
    session_id: &str,
    vad: Option<Box<dyn Vad>>,
    asr: Option<Box<dyn Asr>>,
    has_agent: bool,
    has_tts: bool,
) -> (r: ManagerBundle)
    ensures
        bundle_fresh(r, session_id@),
        r.vad.vad is Some <==> vad is Some,
        r.asr is Some <==> asr is Some,
        r.generation is Some <==> has_agent,
        r.tts is Some <==> has_tts,
{
    let asr_manager = match asr {
        Some(model) => Some(AsrManager::new(string_of(session_id), model)),
        None => None,
    };
    let generation = if has_agent {
        Some(LlmAgentGenerationManager::new(string_of(session_id)))
    } else {
        None
    };
    let tts = if has_tts {
        Some(TtsManager::new(string_of(session_id)))
    } else {
        None
    };
    ManagerBundle {
        input_gateway: InputGateway::new(string_of(session_id)),
        output_gateway: OutputGateway::new(string_of(session_id)),
        vad: VadManager::new(string_of(session_id), vad),
        asr: asr_manager,
        context: LlmAgentContextManager::new(string_of(session_id)),
        generation,
        tts,
        turn_taking: TurnTakingManager::new(string_of(session_id)),
    }
}

} // verus!
