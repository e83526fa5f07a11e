//! Per-session managers as state machines: each handles an event and says
//! which events to publish next. Model calls that take real time (agent
//! replies, speech synthesis) are carried out by the runtime, which feeds
//! their outcome back in.
use vstd::prelude::*;
use crate::events::{Event, EventMeta, event_type_of};
use crate::models::{Asr, Vad, ModelError, text_outcome, model_error_text, AgentContext, CancelReceipt, cancel_token, cancels, fresh_token};
use crate::serving::{Manager, subscriptions_are};
use crate::serving::gateways::forwarded_types;
use crate::text::{string_of, text_eq, is_blank, blank};
use tokio_util::sync::CancellationToken;

verus! {

// ---------------------------------------------------------------- VAD

/// Optional server-side VAD: turns per-frame speech decisions into
/// `vad.speech_start` / `vad.speech_end` edges.
pub struct VadManager {
    pub session_id: String,
    pub vad: Option<Box<dyn Vad>>,
    pub in_speech: bool,
}

/// The speech edge a frame decision causes: `Some(true)` for a start,
/// `Some(false)` for an end, `None` when the state does not change.
pub open spec fn speech_edge(in_speech: bool, is_speech: bool) -> Option<bool> {
    if is_speech && !in_speech {
        Some(true)
    } else if !is_speech && in_speech {
        Some(false)
    } else {
        None
    }
}

/// `r` is the event for `edge` in session `sid` at `now`, with origin `server`.
pub open spec fn edge_event_ok(r: Option<Event>, edge: Option<bool>, sid: Seq<char>, now: u64) -> bool {
    match edge {
        Some(true) => r matches Some(Event::VadSpeechStart { meta, origin }) && meta.session_id@ == sid
            && meta.timestamp == now && origin@ == "server"@,
        Some(false) => r matches Some(Event::VadSpeechEnd { meta, origin }) && meta.session_id@ == sid
            && meta.timestamp == now && origin@ == "server"@,
        None => r is None,
    }
}

impl VadManager {
    pub fn new(session_id: String, vad: Option<Box<dyn Vad>>) -> (r: VadManager)
        ensures
            r.session_id@ == session_id@,
            !r.in_speech,
            r.vad is Some == vad is Some,
    {
        VadManager { session_id, vad, in_speech: false }
    }

    /// Apply one frame decision made at `now`.
    pub fn on_vad_result(&mut self, is_speech: bool, now: u64) -> (r: Option<Event>)
        ensures
            final(self).session_id == old(self).session_id,
            final(self).vad == old(self).vad,
            final(self).in_speech == is_speech,
            edge_event_ok(r, speech_edge(old(self).in_speech, is_speech), old(self).session_id@, now),
    {
        if is_speech && !self.in_speech {
            self.in_speech = true;
            Some(Event::VadSpeechStart {
                meta: EventMeta::new(self.session_id.clone(), now),
                origin: string_of("server"),
            })
        } else if !is_speech && self.in_speech {
            self.in_speech = false;
            Some(Event::VadSpeechEnd {
                meta: EventMeta::new(self.session_id.clone(), now),
                origin: string_of("server"),
            })
        } else {
            None
        }
    }

    /// An audio frame arrived at `now`. Without a VAD model, or for an empty
    /// frame, nothing happens; a model error counts as silence.
    pub fn on_audio_frame(&mut self, audio: &[u8], now: u64) -> (r: Option<Event>)
        ensures
            final(self).session_id == old(self).session_id,
            old(self).vad is None || audio@.len() == 0 ==> r is None && final(self).in_speech == old(
                self,
            ).in_speech,
            old(self).vad is Some && audio@.len() > 0 ==> edge_event_ok(
                r,
                speech_edge(old(self).in_speech, final(self).in_speech),
                old(self).session_id@,
                now,
            ),
            old(self).vad matches Some(v) ==> (audio@.len() > 0 ==> final(self).in_speech == v.speech(audio@)),
            final(self).vad == old(self).vad,
    {
        if audio.len() == 0 {
            return None;
        }
        let is_speech = match &self.vad {
            None => return None,
            Some(vad) => match vad.is_speech(audio) {
                Ok(b) => b,
                Err(_) => false,
            },
        };
        self.on_vad_result(is_speech, now)
    }
}

impl Manager for VadManager {
    fn name(&self) -> (r: &'static str)
        ensures
            r@ == "vad_manager"@,
    {
        "vad_manager"
    }

    /// Audio frames, at priority 100, and only when a VAD model is configured.
    fn subscriptions(&self) -> (r: Vec<(&'static str, i32)>)
        ensures
            self.vad is None ==> r@.len() == 0,
            self.vad is Some ==> r@.len() == 1 && r@[0].0@ == "audio.frame_received"@ && r@[0].1 == 100,
    {
        let mut v: Vec<(&'static str, i32)> = Vec::new();
        if self.vad.is_some() {
            v.push(("audio.frame_received", 100));
        }
        v
    }
}

// ---------------------------------------------------------------- ASR

/// Number of recent audio frames kept as pre-roll before ASR starts.
pub const PRE_ROLL_FRAMES: usize = 20;

/// Event types that start ASR listening.
pub open spec fn asr_start_type(t: Seq<char>) -> bool {
    t == "vad.speech_start"@ || t == "turn.asr_start_requested"@
}

/// Event types that end ASR listening.
pub open spec fn asr_end_type(t: Seq<char>) -> bool {
    t == "vad.speech_end"@ || t == "turn.asr_end_requested"@
}

/// Pre-roll after one more frame: the last `PRE_ROLL_FRAMES` frames received.
pub open spec fn preroll_after(preroll: Seq<Seq<u8>>, frame: Seq<u8>) -> Seq<Seq<u8>> {
    let s = preroll.push(frame);
    if s.len() > PRE_ROLL_FRAMES { s.skip(s.len() - PRE_ROLL_FRAMES) } else { s }
}

/// Pre-roll after `frames` arrived in order, starting from none.
pub open spec fn preroll_of(frames: Seq<Seq<u8>>) -> Seq<Seq<u8>>
    decreases frames.len(),
{
    if frames.len() == 0 {
        Seq::empty()
    } else {
        preroll_after(preroll_of(frames.drop_last()), frames.last())
    }
}

/// After any frames, the pre-roll holds the last `PRE_ROLL_FRAMES` of them
/// (all of them when fewer arrived), in arrival order.
pub proof fn law_preroll_keeps_last_frames(frames: Seq<Seq<u8>>)
    ensures
        preroll_of(frames) == frames.skip(
            if frames.len() > PRE_ROLL_FRAMES { frames.len() - PRE_ROLL_FRAMES } else { 0 },
        ),
        preroll_of(frames).len() <= PRE_ROLL_FRAMES,
    decreases frames.len(),
{
    if frames.len() == 0 {
        assert(frames.skip(0) =~= Seq::<Seq<u8>>::empty());
    } else {
        let prev = frames.drop_last();
        law_preroll_keeps_last_frames(prev);
        let m: int = if prev.len() > PRE_ROLL_FRAMES { prev.len() - PRE_ROLL_FRAMES } else { 0 };
        let s = prev.skip(m).push(frames.last());
        assert(s =~= frames.skip(m));
        if s.len() > PRE_ROLL_FRAMES {
            assert(s.skip(s.len() - PRE_ROLL_FRAMES) =~= frames.skip(frames.len() - PRE_ROLL_FRAMES));
        } else {
            assert(frames.len() <= PRE_ROLL_FRAMES);
            assert(m == 0);
        }
    }
}

/// Frames concatenated in order.
pub open spec fn concat_frames(s: Seq<Seq<u8>>) -> Seq<u8>
    decreases s.len(),
{
    if s.len() == 0 {
        Seq::empty()
    } else {
        concat_frames(s.drop_last()) + s.last()
    }
}

/// The ASR event for a recognition outcome: a partial or final result for a
/// non-blank text, nothing otherwise.
pub open spec fn asr_event_ok(r: Option<Event>, outcome: Result<Seq<char>, ()>, is_final: bool, sid: Seq<char>, now: u64) -> bool {
    match outcome {
        Ok(t) => if blank(t) {
            r is None
        } else if is_final {
            r matches Some(Event::AsrResultFinal { meta, text, display_text, speech_pause })
                && meta.session_id@ == sid && meta.timestamp == now && text@ == t && display_text@ == t
                && !speech_pause
        } else {
            r matches Some(Event::AsrResultPartial { meta, text, display_text, speech_pause })
                && meta.session_id@ == sid && meta.timestamp == now && text@ == t && display_text@ == t
                && !speech_pause
        },
        Err(_) => r is None,
    }
}

/// `r` holds exactly the ASR event for a recognition outcome: one event for a
/// non-blank text, none otherwise.
pub open spec fn asr_events_ok(r: Seq<Event>, outcome: Result<Seq<char>, ()>, is_final: bool, sid: Seq<char>, now: u64) -> bool {
    ||| r.len() == 0 && asr_event_ok(None, outcome, is_final, sid, now)
    ||| r.len() == 1 && asr_event_ok(Some(r[0]), outcome, is_final, sid, now)
}

/// `e` is a partial (or, with `is_final`, a final) ASR result of a non-blank
/// text for session `sid` at `now`.
pub open spec fn asr_result_of(e: Event, is_final: bool, sid: Seq<char>, now: u64) -> bool {
    if is_final {
        e matches Event::AsrResultFinal { meta, text, display_text, speech_pause } && meta.session_id@ == sid
            && meta.timestamp == now && !blank(text@) && display_text@ == text@ && !speech_pause
    } else {
        e matches Event::AsrResultPartial { meta, text, display_text, speech_pause } && meta.session_id@ == sid
            && meta.timestamp == now && !blank(text@) && display_text@ == text@ && !speech_pause
    }
}

/// The ASR results the manager publishes reach their subscribers: both kinds
/// are among the types the output gateway subscribes to, and a final result
/// carries the type the context manager subscribes to.
pub proof fn law_asr_results_reach_subscribers(e: Event, is_final: bool, sid: Seq<char>, now: u64)
    requires
        asr_result_of(e, is_final, sid, now),
    ensures
        forwarded_types().contains(event_type_of(e)),
        is_final ==> event_type_of(e) == "asr.result_final"@,
        !is_final ==> event_type_of(e) == "asr.result_partial"@,
{
    let ts = forwarded_types();
    if is_final {
        assert(ts[1] == event_type_of(e));
    } else {
        assert(ts[0] == event_type_of(e));
    }
}

/// The ASR manager's subscriptions: audio frames and the start and end of
/// speech, from the VAD or from turn taking.
pub open spec fn asr_subscriptions() -> Seq<(Seq<char>, i32)> {
    seq![
        ("audio.frame_received"@, 10),
        ("vad.speech_start"@, 10),
        ("turn.asr_start_requested"@, 10),
        ("vad.speech_end"@, 10),
        ("turn.asr_end_requested"@, 10),
    ]
}

/// The context manager's subscriptions: final ASR results.
pub open spec fn context_subscriptions() -> Seq<(Seq<char>, i32)> {
    seq![("asr.result_final"@, 20)]
}

/// The generation manager's subscriptions: generation requests, and stop
/// requests at a higher priority.
pub open spec fn generation_subscriptions() -> Seq<(Seq<char>, i32)> {
    seq![("llm_agent.consume_generation_requested"@, 20), ("turn.llm_agent_stop_requested"@, 95)]
}

/// The TTS manager's subscriptions: reply text, and stop requests at a higher
/// priority.
pub open spec fn tts_subscriptions() -> Seq<(Seq<char>, i32)> {
    seq![("response.update"@, 20), ("turn.tts_stop_requested"@, 95)]
}

/// The turn-taking manager's subscriptions: the start of speech, and the
/// start and end of playback.
pub open spec fn turn_subscriptions() -> Seq<(Seq<char>, i32)> {
    seq![("vad.speech_start"@, 90), ("tts.started"@, 50), ("tts.finished"@, 50), ("tts.stopped"@, 50)]
}

/// `subs` holds a subscription to the event type `t`.
pub open spec fn subscribes_to(subs: Seq<(Seq<char>, i32)>, t: Seq<char>) -> bool {
    exists|i: int| 0 <= i < subs.len() && (#[trigger] subs[i]).0 == t
}

/// Each event a manager acts on reaches it: its wire type is in that
/// manager's subscriptions. So the pipeline is wired end to end: audio and
/// speech events reach the ASR manager, final results the context manager,
/// generation requests (which the context manager publishes) and stop
/// requests (which turn taking publishes) the generation and TTS managers, and
/// speech and playback events the turn-taking manager.
pub proof fn law_handled_events_are_subscribed(e: Event)
    ensures
        e is AudioFrameReceived ==> subscribes_to(asr_subscriptions(), event_type_of(e)),
        e is VadSpeechStart ==> subscribes_to(asr_subscriptions(), event_type_of(e)) && subscribes_to(
            turn_subscriptions(),
            event_type_of(e),
        ),
        e is VadSpeechEnd ==> subscribes_to(asr_subscriptions(), event_type_of(e)),
        e is TurnAsrStartRequested ==> subscribes_to(asr_subscriptions(), event_type_of(e)),
        e is TurnAsrEndRequested ==> subscribes_to(asr_subscriptions(), event_type_of(e)),
        e is AsrResultFinal ==> subscribes_to(context_subscriptions(), event_type_of(e)),
        e is LlmAgentConsumeGenerationRequested ==> subscribes_to(generation_subscriptions(), event_type_of(e)),
        e is TurnLlmAgentStopRequested ==> subscribes_to(generation_subscriptions(), event_type_of(e)),
        e is ResponseUpdate ==> subscribes_to(tts_subscriptions(), event_type_of(e)),
        e is TurnTtsStopRequested ==> subscribes_to(tts_subscriptions(), event_type_of(e)),
        e is TtsStarted || e is TtsFinished || e is TtsStopped ==> subscribes_to(
            turn_subscriptions(),
            event_type_of(e),
        ),
{
    let a = asr_subscriptions();
    let c = context_subscriptions();
    let g = generation_subscriptions();
    let t = tts_subscriptions();
    let k = turn_subscriptions();
    match e {
        Event::AudioFrameReceived { .. } => assert(a[0].0 == event_type_of(e)),
        Event::VadSpeechStart { .. } => {
            assert(a[1].0 == event_type_of(e));
            assert(k[0].0 == event_type_of(e));
        },
        Event::TurnAsrStartRequested { .. } => assert(a[2].0 == event_type_of(e)),
        Event::VadSpeechEnd { .. } => assert(a[3].0 == event_type_of(e)),
        Event::TurnAsrEndRequested { .. } => assert(a[4].0 == event_type_of(e)),
        Event::AsrResultFinal { .. } => assert(c[0].0 == event_type_of(e)),
        Event::LlmAgentConsumeGenerationRequested { .. } => assert(g[0].0 == event_type_of(e)),
        Event::TurnLlmAgentStopRequested { .. } => assert(g[1].0 == event_type_of(e)),
        Event::ResponseUpdate { .. } => assert(t[0].0 == event_type_of(e)),
        Event::TurnTtsStopRequested { .. } => assert(t[1].0 == event_type_of(e)),
        Event::TtsStarted { .. } => assert(k[1].0 == event_type_of(e)),
        Event::TtsFinished { .. } => assert(k[2].0 == event_type_of(e)),
        Event::TtsStopped { .. } => assert(k[3].0 == event_type_of(e)),
        _ => {},
    }
}

/// Pre-roll-buffered streaming ASR driven by VAD and turn events.
pub struct AsrManager {
    pub session_id: String,
    pub asr: Box<dyn Asr>,
    pub listening: bool,
    pub preroll: Vec<Vec<u8>>,
}

impl AsrManager {
    pub open spec fn preroll_view(&self) -> Seq<Seq<u8>> {
        self.preroll@.map_values(|f: Vec<u8>| f@)
    }

    pub open spec fn wf(&self) -> bool {
        self.preroll@.len() <= PRE_ROLL_FRAMES
    }

    pub fn new(session_id: String, asr: Box<dyn Asr>) -> (r: AsrManager)
        ensures
            r.session_id@ == session_id@,
            !r.listening,
            r.preroll@.len() == 0,
            r.wf(),
    {
        AsrManager { session_id, asr, listening: false, preroll: Vec::new() }
    }

    /// Record a frame in the pre-roll; while listening, return it for
    /// recognition.
    pub fn on_audio_frame(&mut self, audio: Vec<u8>) -> (r: Option<Vec<u8>>)
        requires
            old(self).wf(),
        ensures
            final(self).wf(),
            final(self).session_id == old(self).session_id,
            final(self).asr == old(self).asr,
            final(self).listening == old(self).listening,
            final(self).preroll_view() == preroll_after(old(self).preroll_view(), audio@),
            forall|frames: Seq<Seq<u8>>|
                old(self).preroll_view() == preroll_of(frames) ==> final(self).preroll_view() == #[trigger] preroll_of(
                    frames.push(audio@),
                ),
            old(self).listening ==> (r matches Some(a) && a@ == audio@),
            !old(self).listening ==> r is None,
    {
        let ghost old_view = self.preroll_view();
        let copy = audio.clone();
        assert(copy@ =~= audio@);
        self.preroll.push(copy);
        assert(self.preroll_view() =~= old_view.push(audio@));
        if self.preroll.len() > PRE_ROLL_FRAMES {
            let ghost s = self.preroll_view();
            let _ = self.preroll.remove(0);
            assert(self.preroll_view() =~= s.skip(s.len() - PRE_ROLL_FRAMES));
        }
        proof {
            assert forall|frames: Seq<Seq<u8>>| old_view == preroll_of(frames) implies self.preroll_view()
                == #[trigger] preroll_of(frames.push(audio@)) by {
                assert(frames.push(audio@).drop_last() =~= frames);
            }
        }
        if self.listening {
            Some(audio)
        } else {
            None
        }
    }

    /// Start listening: returns the pre-roll audio to recognize first, unless
    /// already listening or there is none.
    pub fn on_start(&mut self) -> (r: Option<Vec<u8>>)
        requires
            old(self).wf(),
        ensures
            final(self).wf(),
            final(self).session_id == old(self).session_id,
            final(self).asr == old(self).asr,
            final(self).preroll == old(self).preroll,
            final(self).listening,
            old(self).listening ==> r is None,
            !old(self).listening && concat_frames(old(self).preroll_view()).len() > 0 ==> (r matches Some(a)
                && a@ == concat_frames(old(self).preroll_view())),
            !old(self).listening && concat_frames(old(self).preroll_view()).len() == 0 ==> r is None,
    {
        if self.listening {
            return None;
        }
        self.listening = true;
        let mut all: Vec<u8> = Vec::new();
        let mut i: usize = 0;
        let ghost pv = self.preroll_view();
        while i < self.preroll.len()
            invariant
                i <= self.preroll@.len(),
                pv == self.preroll_view(),
                all@ == concat_frames(pv.take(i as int)),
            decreases self.preroll@.len() - i,
        {
            let frame = &self.preroll[i];
            let mut k: usize = 0;
            let ghost before = all@;
            while k < frame.len()
                invariant
                    k <= frame@.len(),
                    all@ == before + frame@.take(k as int),
                decreases frame@.len() - k,
            {
                all.push(frame[k]);
                k = k + 1;
                assert(all@ =~= before + frame@.take(k as int));
            }
            proof {
                assert(frame@.take(frame@.len() as int) =~= frame@);
                assert(pv.take(i + 1).drop_last() =~= pv.take(i as int));
                assert(pv.take(i + 1).last() == frame@);
            }
            i = i + 1;
        }
        assert(pv.take(pv.len() as int) =~= pv);
        if all.len() > 0 {
            Some(all)
        } else {
            None
        }
    }

    /// Stop listening; returns whether the utterance is to be finalized.
    pub fn on_end(&mut self) -> (r: bool)
        ensures
            final(self).session_id == old(self).session_id,
            final(self).asr == old(self).asr,
            final(self).preroll == old(self).preroll,
            !final(self).listening,
            r == old(self).listening,
    {
        if !self.listening {
            return false;
        }
        self.listening = false;
        true
    }

    /// The event for a recognition outcome at `now`.
    pub fn result_event(&self, outcome: Result<String, ModelError>, is_final: bool, now: u64) -> (r: Option<Event>)
        ensures
            asr_event_ok(r, text_outcome(outcome), is_final, self.session_id@, now),
    {
        match outcome {
            Ok(text) => {
                if is_blank(text.as_str()) {
                    return None;
                }
                let meta = EventMeta::new(self.session_id.clone(), now);
                let display_text = text.clone();
                if is_final {
                    Some(Event::AsrResultFinal { meta, text, display_text, speech_pause: false })
                } else {
                    Some(Event::AsrResultPartial { meta, text, display_text, speech_pause: false })
                }
            },
            Err(_) => None,
        }
    }

    /// Feed `audio` to the recognizer; a non-blank result becomes a partial.
    pub fn recognize_partial(&mut self, audio: &[u8], now: u64) -> (r: Option<Event>)
        ensures
            final(self).session_id == old(self).session_id,
            final(self).listening == old(self).listening,
            final(self).preroll == old(self).preroll,
            final(self).asr.fed() == old(self).asr.fed().push((audio@, false)),
            asr_event_ok(r, old(self).asr.transcript(final(self).asr.fed()), false, old(self).session_id@, now),
            r matches Some(e) ==> asr_result_of(e, false, old(self).session_id@, now),
    {
        let outcome = self.asr.recognize_stream(audio, false);
        self.result_event(outcome, false, now)
    }

    /// Close the utterance: a non-blank final text becomes a final result; the
    /// recognizer is reset either way.
    pub fn finalize(&mut self, now: u64) -> (r: Option<Event>)
        ensures
            final(self).session_id == old(self).session_id,
            final(self).listening == old(self).listening,
            final(self).preroll == old(self).preroll,
            final(self).asr.fed() == Seq::<(Seq<u8>, bool)>::empty(),
            asr_event_ok(
                r,
                old(self).asr.transcript(old(self).asr.fed().push((Seq::<u8>::empty(), true))),
                true,
                old(self).session_id@,
                now,
            ),
            r matches Some(e) ==> asr_result_of(e, true, old(self).session_id@, now),
    {
        let empty: Vec<u8> = Vec::new();
        assert(empty@ =~= Seq::<u8>::empty());
        let outcome = self.asr.recognize_stream(empty.as_slice(), true);
        let r = self.result_event(outcome, true, now);
        self.asr.reset();
        r
    }

    /// Handle one bus event at `now`; returns the events to publish.
    pub fn handle(&mut self, event: &Event, now: u64) -> (r: Vec<Event>)
        requires
            old(self).wf(),
        ensures
            final(self).wf(),
            final(self).session_id == old(self).session_id,
            r@.len() <= 1,
            match *event {
                Event::AudioFrameReceived { audio_data, .. } => final(self).preroll_view() == preroll_after(
                    old(self).preroll_view(),
                    audio_data@,
                ) && final(self).listening == old(self).listening && (!old(self).listening ==> r@.len() == 0)
                    && (r@.len() == 1 ==> asr_result_of(r@[0], false, old(self).session_id@, now)),
                _ => true,
            },
            asr_start_type(event_type_of(*event)) ==> final(self).listening && final(self).preroll == old(
                self,
            ).preroll && (old(self).listening || concat_frames(old(self).preroll_view()).len() == 0 ==> r@.len()
                == 0) && (r@.len() == 1 ==> asr_result_of(r@[0], false, old(self).session_id@, now)),
            asr_end_type(event_type_of(*event)) ==> !final(self).listening && final(self).preroll == old(
                self,
            ).preroll && (!old(self).listening ==> r@.len() == 0) && (r@.len() == 1 ==> asr_result_of(
                r@[0],
                true,
                old(self).session_id@,
                now,
            )),
            !(*event is AudioFrameReceived) && !asr_start_type(event_type_of(*event)) && !asr_end_type(
                event_type_of(*event),
            ) ==> final(self).listening == old(self).listening && final(self).preroll == old(self).preroll
                && r@.len() == 0,
            match *event {
                Event::AudioFrameReceived { audio_data, .. } => if old(self).listening {
                    final(self).asr.fed() == old(self).asr.fed().push((audio_data@, false)) && asr_events_ok(
                        r@,
                        old(self).asr.transcript(final(self).asr.fed()),
                        false,
                        old(self).session_id@,
                        now,
                    )
                } else {
                    final(self).asr.fed() == old(self).asr.fed()
                },
                _ => true,
            },
            asr_start_type(event_type_of(*event)) ==> if !old(self).listening && concat_frames(
                old(self).preroll_view(),
            ).len() > 0 {
                final(self).asr.fed() == old(self).asr.fed().push((concat_frames(old(self).preroll_view()), false))
                    && asr_events_ok(
                    r@,
                    old(self).asr.transcript(final(self).asr.fed()),
                    false,
                    old(self).session_id@,
                    now,
                )
            } else {
                final(self).asr.fed() == old(self).asr.fed()
            },
            asr_end_type(event_type_of(*event)) ==> if old(self).listening {
                final(self).asr.fed() == Seq::<(Seq<u8>, bool)>::empty() && asr_events_ok(
                    r@,
                    old(self).asr.transcript(old(self).asr.fed().push((Seq::<u8>::empty(), true))),
                    true,
                    old(self).session_id@,
                    now,
                )
            } else {
                final(self).asr.fed() == old(self).asr.fed()
            },
            !(*event is AudioFrameReceived) && !asr_start_type(event_type_of(*event)) && !asr_end_type(
                event_type_of(*event),
            ) ==> final(self).asr.fed() == old(self).asr.fed(),
    {
        proof {
            reveal_strlit("audio.frame_received");
            reveal_strlit("vad.speech_start");
            reveal_strlit("turn.asr_start_requested");
            reveal_strlit("vad.speech_end");
            reveal_strlit("turn.asr_end_requested");
            assert("audio.frame_received"@.len() == 20);
            assert("vad.speech_start"@.len() == 16);
            assert("turn.asr_start_requested"@.len() == 24);
            assert("vad.speech_end"@.len() == 14);
            assert("turn.asr_end_requested"@.len() == 22);
        }
        let t = event.event_type();
        let mut out: Vec<Event> = Vec::new();
        if text_eq(t, "audio.frame_received") {
            match event {
                Event::AudioFrameReceived { audio_data, .. } => {
                    let copy = audio_data.clone();
                    if let Some(audio) = self.on_audio_frame(copy) {
                        if let Some(e) = self.recognize_partial(audio.as_slice(), now) {
                            out.push(e);
                        }
                    }
                },
                _ => {},
            }
        } else if text_eq(t, "vad.speech_start") || text_eq(t, "turn.asr_start_requested") {
            if let Some(audio) = self.on_start() {
                if let Some(e) = self.recognize_partial(audio.as_slice(), now) {
                    out.push(e);
                }
            }
        } else if text_eq(t, "vad.speech_end") || text_eq(t, "turn.asr_end_requested") {
            if self.on_end() {
                if let Some(e) = self.finalize(now) {
                    out.push(e);
                }
            }
        }
        out
    }
}

impl Manager for AsrManager {
    fn name(&self) -> (r: &'static str)
        ensures
            r@ == "asr_manager"@,
    {
        "asr_manager"
    }

    fn subscriptions(&self) -> (r: Vec<(&'static str, i32)>)
        ensures
            subscriptions_are(r@, asr_subscriptions()),
    {
        let mut v: Vec<(&'static str, i32)> = Vec::new();
        v.push(("audio.frame_received", 10));
        v.push(("vad.speech_start", 10));
        v.push(("turn.asr_start_requested", 10));
        v.push(("vad.speech_end", 10));
        v.push(("turn.asr_end_requested", 10));
        v
    }
}

// ---------------------------------------------------------------- LLM context

/// Forwards final ASR results to the agent as `asr_final` contexts.
pub struct LlmAgentContextManager {
    pub session_id: String,
}

impl LlmAgentContextManager {
    pub fn new(session_id: String) -> (r: LlmAgentContextManager)
        ensures
            r.session_id@ == session_id@,
    {
        LlmAgentContextManager { session_id }
    }

    /// The generation request a final ASR result at `now` leads to.
    pub fn on_asr_final(&self, event: &Event, now: u64) -> (r: Option<Event>)
        ensures
            match *event {
                Event::AsrResultFinal { text, .. } => r matches Some(
                    Event::LlmAgentConsumeGenerationRequested { meta, context_type, text: t },
                ) && meta.session_id@ == self.session_id@ && meta.timestamp == now && context_type@
                    == "asr_final"@ && t@ == text@,
                _ => r is None,
            },
    {
        match event {
            Event::AsrResultFinal { text, .. } => Some(Event::LlmAgentConsumeGenerationRequested {
                meta: EventMeta::new(self.session_id.clone(), now),
                context_type: string_of("asr_final"),
                text: text.clone(),
            }),
            _ => None,
        }
    }
}

impl Manager for LlmAgentContextManager {
    fn name(&self) -> (r: &'static str)
        ensures
            r@ == "llm_agent_context_manager"@,
    {
        "llm_agent_context_manager"
    }

    fn subscriptions(&self) -> (r: Vec<(&'static str, i32)>)
        ensures
            subscriptions_are(r@, context_subscriptions()),
    {
        let mut v: Vec<(&'static str, i32)> = Vec::new();
        v.push(("asr.result_final", 20));
        v
    }
}

// ---------------------------------------------------------------- LLM generation

/// Texts concatenated in order.
pub open spec fn concat_texts(s: Seq<Seq<char>>) -> Seq<char>
    decreases s.len(),
{
    if s.len() == 0 {
        Seq::empty()
    } else {
        concat_texts(s.drop_last()) + s.last()
    }
}

/// One step of a reply run from `a` to `b` at `now`: `r` is what it publishes.
pub open spec fn response_step(a: ResponseRun, b: ResponseRun, cancelled: bool, now: u64, r: Option<Event>) -> bool {
    &&& b.session_id == a.session_id
    &&& b.parts == a.parts
    &&& a.done ==> r is None && b.done
    &&& !a.done && cancelled ==> r is None && b.done
    &&& !a.done && !cancelled && a.next < a.parts@.len() ==> (r matches Some(Event::ResponseUpdate { meta, text })
        && meta.session_id@ == a.session_id@ && meta.timestamp == now && text@ == a.parts_view()[a.next as int]
        && b.next == a.next + 1 && !b.done)
    &&& !a.done && !cancelled && a.next == a.parts@.len() ==> (r matches Some(Event::ResponseFinish { meta, text })
        && meta.session_id@ == a.session_id@ && meta.timestamp == now && text@ == concat_texts(a.parts_view())
        && b.done)
}

/// Publishing an agent reply: one `response.update` per part, then a
/// `response.finish` with all parts joined; a cancellation seen before any
/// step ends the run silently.
pub struct ResponseRun {
    pub session_id: String,
    pub parts: Vec<String>,
    pub next: usize,
    pub accumulated: String,
    pub done: bool,
}

impl ResponseRun {
    pub open spec fn parts_view(&self) -> Seq<Seq<char>> {
        self.parts@.map_values(|s: String| s@)
    }

    pub open spec fn wf(&self) -> bool {
        &&& self.next <= self.parts@.len()
        &&& self.accumulated@ == concat_texts(self.parts_view().take(self.next as int))
    }

    pub fn new(session_id: String, parts: Vec<String>) -> (r: ResponseRun)
        ensures
            r.wf(),
            r.session_id@ == session_id@,
            r.parts@ == parts@,
            r.next == 0,
            !r.done,
    {
        let r = ResponseRun { session_id, parts, next: 0, accumulated: String::new(), done: false };
        assert(r.parts_view().take(0) =~= Seq::<Seq<char>>::empty());
        r
    }

    /// The next event to publish at `now`, given whether the generation was cancelled.
    pub fn next_event(&mut self, cancelled: bool, now: u64) -> (r: Option<Event>)
        requires
            old(self).wf(),
        ensures
            final(self).wf(),
            response_step(*old(self), *final(self), cancelled, now, r),
    {
        if self.done {
            return None;
        }
        if cancelled {
            self.done = true;
            return None;
        }
        let meta = EventMeta::new(self.session_id.clone(), now);
        if self.next < self.parts.len() {
            let part = self.parts[self.next].clone();
            let ghost k = self.next as int;
            self.accumulated.append(part.as_str());
            self.next = self.next + 1;
            proof {
                assert(self.parts_view().take(k + 1).drop_last() =~= self.parts_view().take(k));
                assert(self.parts_view()[k] == part@);
            }
            Some(Event::ResponseUpdate { meta, text: part })
        } else {
            self.done = true;
            assert(self.parts_view().take(self.next as int) =~= self.parts_view());
            Some(Event::ResponseFinish { meta, text: self.accumulated.clone() })
        }
    }
}

/// A new unit of work (a generation or a synthesis): its token, and the
/// receipt of cancelling the work it replaces, when some was in flight.
pub struct Started {
    pub token: CancellationToken,
    pub superseded: Option<CancelReceipt>,
}

/// What the runtime does for an event the generation manager handles.
pub enum GenerationAction {
    /// Run the agent on `ctx` under `work`'s token.
    Generate { ctx: AgentContext, work: Started },
    /// The generation in flight, if any, was cancelled.
    Stopped(Option<CancelReceipt>),
    Ignore,
}

/// Runs the agent for generation requests; a newer request or a stop request
/// cancels the one in flight.
pub struct LlmAgentGenerationManager {
    pub session_id: String,
    pub cancel: Option<CancellationToken>,
}

/// The event a failed generation publishes: none for a cancellation, an
/// `error.occurred` with the error's text otherwise.
pub open spec fn failure_event_ok(r: Option<Event>, err: ModelError, sid: Seq<char>, now: u64) -> bool {
    if err is Cancelled {
        r is None
    } else {
        r matches Some(Event::ErrorOccurred { meta, error_message }) && meta.session_id@ == sid
            && meta.timestamp == now && error_message@ == model_error_text(err)
    }
}

impl LlmAgentGenerationManager {
    pub fn new(session_id: String) -> (r: LlmAgentGenerationManager)
        ensures
            r.session_id@ == session_id@,
            r.cancel is None,
    {
        LlmAgentGenerationManager { session_id, cancel: None }
    }

    /// The agent context a generation request carries.
    pub fn context_of(event: &Event) -> (r: Option<AgentContext>)
        ensures
            match *event {
                Event::LlmAgentConsumeGenerationRequested { context_type, text, .. } => r matches Some(c)
                    && c.context_type@ == context_type@ && c.text@ == text@,
                _ => r is None,
            },
    {
        match event {
            Event::LlmAgentConsumeGenerationRequested { context_type, text, .. } => Some(
                AgentContext { context_type: context_type.clone(), text: text.clone() },
            ),
            _ => None,
        }
    }

    /// Start a generation: cancels the one in flight and returns the new
    /// generation's token, which is the one stored.
    pub fn begin_generation(&mut self) -> (r: Started)
        ensures
            final(self).session_id == old(self).session_id,
            final(self).cancel == Some(r.token),
            cancels(r.superseded, old(self).cancel),
            old(self).cancel matches Some(t) ==> r.token != t,
    {
        let token = fresh_token(self.cancel.as_ref());
        let superseded = match self.cancel.take() {
            Some(prev) => Some(cancel_token(prev)),
            None => None,
        };
        self.cancel = Some(token.clone());
        Started { token, superseded }
    }

    /// A stop request cancels the generation in flight, if any.
    pub fn on_stop(&mut self) -> (r: Option<CancelReceipt>)
        ensures
            final(self).session_id == old(self).session_id,
            final(self).cancel is None,
            cancels(r, old(self).cancel),
    {
        match self.cancel.take() {
            Some(token) => Some(cancel_token(token)),
            None => None,
        }
    }

    /// Handle one bus event: a generation request starts a generation (the
    /// one in flight is cancelled), a stop request cancels the one in flight;
    /// anything else, an extension named like a request among them, is ignored.
    pub fn handle(&mut self, event: &Event) -> (r: GenerationAction)
        ensures
            final(self).session_id == old(self).session_id,
            match *event {
                Event::LlmAgentConsumeGenerationRequested { context_type, text, .. } => r matches GenerationAction::Generate {
                    ctx,
                    work,
                } && ctx.context_type@ == context_type@ && ctx.text@ == text@ && final(self).cancel == Some(work.token)
                    && cancels(work.superseded, old(self).cancel) && (old(self).cancel matches Some(t) ==> work.token
                    != t),
                _ => if event_type_of(*event) == "turn.llm_agent_stop_requested"@ {
                    r matches GenerationAction::Stopped(c) && cancels(c, old(self).cancel) && final(self).cancel is None
                } else {
                    r is Ignore && final(self).cancel == old(self).cancel
                },
            },
    {
        match Self::context_of(event) {
            Some(ctx) => {
                let work = self.begin_generation();
                GenerationAction::Generate { ctx, work }
            },
            None => {
                if text_eq(event.event_type(), "turn.llm_agent_stop_requested") {
                    GenerationAction::Stopped(self.on_stop())
                } else {
                    GenerationAction::Ignore
                }
            },
        }
    }

    /// The event a failed generation at `now` publishes.
    pub fn failure_event(&self, err: &ModelError, now: u64) -> (r: Option<Event>)
        ensures
            failure_event_ok(r, *err, self.session_id@, now),
    {
        match err {
            ModelError::Cancelled => None,
            _ => Some(Event::ErrorOccurred {
                meta: EventMeta::new(self.session_id.clone(), now),
                error_message: err.to_text(),
            }),
        }
    }
}

impl Manager for LlmAgentGenerationManager {
    fn name(&self) -> (r: &'static str)
        ensures
            r@ == "llm_agent_generation_manager"@,
    {
        "llm_agent_generation_manager"
    }

    fn subscriptions(&self) -> (r: Vec<(&'static str, i32)>)
        ensures
            subscriptions_are(r@, generation_subscriptions()),
    {
        let mut v: Vec<(&'static str, i32)> = Vec::new();
        v.push(("llm_agent.consume_generation_requested", 20));
        v.push(("turn.llm_agent_stop_requested", 95));
        v
    }
}

// ---------------------------------------------------------------- TTS

/// What the runtime does for an event the TTS manager handles.
pub enum TtsAction {
    /// Synthesize `text` under `work`'s token.
    Synthesize { text: String, work: Started },
    /// The synthesis in flight, if any, was cancelled.
    Stopped(Option<CancelReceipt>),
    Ignore,
}

/// Synthesizes response text; a newer response or a stop request cancels the
/// synthesis in flight.
pub struct TtsManager {
    pub session_id: String,
    pub cancel: Option<CancellationToken>,
}

impl TtsManager {
    pub fn new(session_id: String) -> (r: TtsManager)
        ensures
            r.session_id@ == session_id@,
            r.cancel is None,
    {
        TtsManager { session_id, cancel: None }
    }

    /// A response update with `text`: blank text is ignored; otherwise the
    /// synthesis in flight is cancelled and the new one started, with the
    /// token that is stored.
    pub fn on_response_update(&mut self, text: &str) -> (r: Option<Started>)
        ensures
            final(self).session_id == old(self).session_id,
            blank(text@) ==> r is None && final(self).cancel == old(self).cancel,
            !blank(text@) ==> (r matches Some(w) && final(self).cancel == Some(w.token) && cancels(
                w.superseded,
                old(self).cancel,
            ) && (old(self).cancel matches Some(t) ==> w.token != t)),
    {
        if is_blank(text) {
            return None;
        }
        let token = fresh_token(self.cancel.as_ref());
        let superseded = match self.cancel.take() {
            Some(prev) => Some(cancel_token(prev)),
            None => None,
        };
        self.cancel = Some(token.clone());
        Some(Started { token, superseded })
    }

    /// A stop request cancels the synthesis in flight, if any.
    pub fn on_stop(&mut self) -> (r: Option<CancelReceipt>)
        ensures
            final(self).session_id == old(self).session_id,
            final(self).cancel is None,
            cancels(r, old(self).cancel),
    {
        match self.cancel.take() {
            Some(token) => Some(cancel_token(token)),
            None => None,
        }
    }

    /// Handle one bus event: non-blank response text starts a synthesis (the
    /// one in flight is cancelled), a stop request cancels the one in flight;
    /// anything else, an extension named like either among them, is ignored.
    pub fn handle(&mut self, event: &Event) -> (r: TtsAction)
        ensures
            final(self).session_id == old(self).session_id,
            match *event {
                Event::ResponseUpdate { text, .. } => if blank(text@) {
                    r is Ignore && final(self).cancel == old(self).cancel
                } else {
                    r matches TtsAction::Synthesize { text: t, work } && t@ == text@ && final(self).cancel == Some(
                        work.token,
                    ) && cancels(work.superseded, old(self).cancel) && (old(self).cancel matches Some(p) ==> work.token
                        != p)
                },
                _ => if event_type_of(*event) == "turn.tts_stop_requested"@ {
                    r matches TtsAction::Stopped(c) && cancels(c, old(self).cancel) && final(self).cancel is None
                } else {
                    r is Ignore && final(self).cancel == old(self).cancel
                },
            },
    {
        match event {
            Event::ResponseUpdate { text, .. } => match self.on_response_update(text.as_str()) {
                Some(work) => TtsAction::Synthesize { text: text.clone(), work },
                None => TtsAction::Ignore,
            },
            _ => {
                if text_eq(event.event_type(), "turn.tts_stop_requested") {
                    TtsAction::Stopped(self.on_stop())
                } else {
                    TtsAction::Ignore
                }
            },
        }
    }

    pub fn started_event(&self, now: u64) -> (r: Event)
        ensures
            r matches Event::TtsStarted { meta } && meta.session_id@ == self.session_id@ && meta.timestamp == now,
    {
        Event::TtsStarted { meta: EventMeta::new(self.session_id.clone(), now) }
    }

    pub fn stopped_event(&self, now: u64) -> (r: Event)
        ensures
            r matches Event::TtsStopped { meta } && meta.session_id@ == self.session_id@ && meta.timestamp == now,
    {
        Event::TtsStopped { meta: EventMeta::new(self.session_id.clone(), now) }
    }
}

impl Manager for TtsManager {
    fn name(&self) -> (r: &'static str)
        ensures
            r@ == "tts_manager"@,
    {
        "tts_manager"
    }

    fn subscriptions(&self) -> (r: Vec<(&'static str, i32)>)
        ensures
            subscriptions_are(r@, tts_subscriptions()),
    {
        let mut v: Vec<(&'static str, i32)> = Vec::new();
        v.push(("response.update", 20));
        v.push(("turn.tts_stop_requested", 95));
        v
    }
}

/// One step of a synthesis run from `a` to `b` at `now`: `r` is what it publishes.
pub open spec fn synthesis_step(a: SynthesisRun, b: SynthesisRun, cancelled: bool, now: u64, r: Option<Event>) -> bool {
    &&& b.session_id == a.session_id
    &&& b.sample_rate == a.sample_rate
    &&& b.chunks == a.chunks
    &&& b.failure == a.failure
    &&& a.done ==> r is None && b.done
    &&& !a.done && cancelled ==> (r matches Some(Event::TtsStopped { meta }) && meta.session_id@ == a.session_id@
        && meta.timestamp == now && b.done)
    &&& !a.done && !cancelled && a.failure is Some ==> (r matches Some(Event::ErrorOccurred { meta, error_message })
        && meta.session_id@ == a.session_id@ && meta.timestamp == now && Some(error_message) == a.failure && b.done)
    &&& !a.done && !cancelled && a.failure is None && a.next < a.chunks@.len() ==> (r matches Some(
        Event::TtsChunkReady { meta, audio_chunk, sample_rate },
    ) && meta.session_id@ == a.session_id@ && meta.timestamp == now && audio_chunk@ == a.chunks@[a.next as int]@
        && sample_rate == a.sample_rate && b.next == a.next + 1 && !b.done)
    &&& !a.done && !cancelled && a.failure is None && a.next == a.chunks@.len() ==> (r matches Some(
        Event::TtsFinished { meta },
    ) && meta.session_id@ == a.session_id@ && meta.timestamp == now && b.done)
}

/// The work a stop request or a newer request cancels is the work in flight:
/// the token stored when it started is the one its receipt names.
pub proof fn law_stop_cancels_work_in_flight(
    work: CancellationToken,
    held: Option<CancellationToken>,
    stop: Option<CancelReceipt>,
)
    requires
        held == Some(work),
        cancels(stop, held),
    ensures
        stop matches Some(c) && c.token() == work,
{
}

/// Once a reply run has seen its cancellation, it publishes nothing, then or
/// later: a stop or a newer request ends the reply in flight.
pub proof fn law_cancelled_reply_is_silent(
    a: ResponseRun,
    b: ResponseRun,
    c: ResponseRun,
    now1: u64,
    now2: u64,
    later_cancelled: bool,
    r1: Option<Event>,
    r2: Option<Event>,
)
    requires
        response_step(a, b, true, now1, r1),
        response_step(b, c, later_cancelled, now2, r2),
    ensures
        r1 is None,
        r2 is None,
        c.done,
{
}

/// Once a synthesis run has seen its cancellation, it publishes at most a
/// `tts.stopped` and then nothing: a stopped synthesis never finishes.
pub proof fn law_cancelled_synthesis_stops(
    a: SynthesisRun,
    b: SynthesisRun,
    c: SynthesisRun,
    now1: u64,
    now2: u64,
    later_cancelled: bool,
    r1: Option<Event>,
    r2: Option<Event>,
)
    requires
        synthesis_step(a, b, true, now1, r1),
        synthesis_step(b, c, later_cancelled, now2, r2),
    ensures
        r1 is None || r1 matches Some(Event::TtsStopped { .. }),
        r2 is None,
        c.done,
{
}

/// Publishing a finished synthesis: each chunk as `tts.chunk_ready`, then
/// `tts.finished`; a failure becomes `error.occurred`. A cancellation seen
/// before a step turns it into `tts.stopped` and ends the run.
pub struct SynthesisRun {
    pub session_id: String,
    pub sample_rate: u32,
    pub chunks: Vec<Vec<u8>>,
    pub failure: Option<String>,
    pub next: usize,
    pub done: bool,
}

impl SynthesisRun {
    pub open spec fn wf(&self) -> bool {
        &&& self.next <= self.chunks@.len()
        &&& self.failure is Some ==> self.next == 0
    }

    /// A run for the outcome of synthesizing in session `session_id`.
    pub fn new(session_id: String, sample_rate: u32, outcome: Result<Vec<Vec<u8>>, ModelError>) -> (r: SynthesisRun)
        ensures
            r.wf(),
            r.session_id@ == session_id@,
            r.sample_rate == sample_rate,
            r.next == 0,
            !r.done,
            match outcome {
                Ok(chunks) => r.chunks@ == chunks@ && r.failure is None,
                Err(e) => r.chunks@.len() == 0 && (r.failure matches Some(m) && m@ == model_error_text(e)),
            },
    {
        match outcome {
            Ok(chunks) => SynthesisRun { session_id, sample_rate, chunks, failure: None, next: 0, done: false },
            Err(e) => SynthesisRun {
                session_id,
                sample_rate,
                chunks: Vec::new(),
                failure: Some(e.to_text()),
                next: 0,
                done: false,
            },
        }
    }

    /// The next event to publish at `now`, given whether the synthesis was cancelled.
    pub fn next_event(&mut self, cancelled: bool, now: u64) -> (r: Option<Event>)
        requires
            old(self).wf(),
        ensures
            final(self).wf(),
            synthesis_step(*old(self), *final(self), cancelled, now, r),
    {
        if self.done {
            return None;
        }
        let meta = EventMeta::new(self.session_id.clone(), now);
        self.done = true;
        if cancelled {
            return Some(Event::TtsStopped { meta });
        }
        match &self.failure {
            Some(msg) => {
                return Some(Event::ErrorOccurred { meta, error_message: msg.clone() });
            },
            None => {},
        }
        if self.next < self.chunks.len() {
            let chunk = self.chunks[self.next].clone();
            assert(chunk@ =~= self.chunks@[self.next as int]@);
            self.next = self.next + 1;
            self.done = false;
            Some(Event::TtsChunkReady { meta, audio_chunk: chunk, sample_rate: self.sample_rate })
        } else {
            Some(Event::TtsFinished { meta })
        }
    }
}

// ---------------------------------------------------------------- turn taking

/// Barge-in: stops TTS and generation when the client starts speaking while
/// synthesized speech is active.
pub struct TurnTakingManager {
    pub session_id: String,
    /// Unmatched `tts.started` count, so that a superseded synthesis ending
    /// does not disarm barge-in while a newer one is active.
    pub tts_active_depth: u32,
}

/// Depth after a `tts.started`.
pub open spec fn depth_after_started(d: u32) -> u32 {
    (d + 1) as u32
}

/// Depth after a `tts.finished` or `tts.stopped`.
pub open spec fn depth_after_ended(d: u32) -> u32 {
    if d > 0 { (d - 1) as u32 } else { 0 }
}

/// `r` holds the stop requests for TTS and then the agent, for session `sid` at `now`.
pub open spec fn stop_requests_ok(r: Seq<Event>, sid: Seq<char>, now: u64) -> bool {
    &&& r.len() == 2
    &&& (r[0] matches Event::TurnTtsStopRequested { meta } && meta.session_id@ == sid && meta.timestamp == now)
    &&& (r[1] matches Event::TurnLlmAgentStopRequested { meta } && meta.session_id@ == sid && meta.timestamp == now)
}

impl TurnTakingManager {
    pub fn new(session_id: String) -> (r: TurnTakingManager)
        ensures
            r.session_id@ == session_id@,
            r.tts_active_depth == 0,
    {
        TurnTakingManager { session_id, tts_active_depth: 0 }
    }

    pub fn on_tts_started(&mut self)
        requires
            old(self).tts_active_depth < u32::MAX,
        ensures
            final(self).session_id == old(self).session_id,
            final(self).tts_active_depth == depth_after_started(old(self).tts_active_depth),
    {
        self.tts_active_depth = self.tts_active_depth + 1;
    }

    pub fn on_tts_ended(&mut self)
        ensures
            final(self).session_id == old(self).session_id,
            final(self).tts_active_depth == depth_after_ended(old(self).tts_active_depth),
    {
        if self.tts_active_depth > 0 {
            self.tts_active_depth = self.tts_active_depth - 1;
        }
    }

    pub fn tts_active(&self) -> (r: bool)
        ensures
            r == (self.tts_active_depth > 0),
    {
        self.tts_active_depth > 0
    }

    /// Speech started at `now` from `origin`: while TTS is active, client
    /// speech requests that TTS and then the agent stop.
    pub fn on_vad_speech_start(&self, origin: &str, now: u64) -> (r: Vec<Event>)
        ensures
            origin@ == "client"@ && self.tts_active_depth > 0 ==> stop_requests_ok(r@, self.session_id@, now),
            !(origin@ == "client"@ && self.tts_active_depth > 0) ==> r@.len() == 0,
    {
        let mut out: Vec<Event> = Vec::new();
        if !text_eq(origin, "client") {
            return out;
        }
        if !self.tts_active() {
            return out;
        }
        out.push(Event::TurnTtsStopRequested { meta: EventMeta::new(self.session_id.clone(), now) });
        out.push(Event::TurnLlmAgentStopRequested { meta: EventMeta::new(self.session_id.clone(), now) });
        out
    }

    /// Handle one bus event at `now`; returns the events to publish.
    pub fn handle(&mut self, event: &Event, now: u64) -> (r: Vec<Event>)
        requires
            old(self).tts_active_depth < u32::MAX,
        ensures
            final(self).session_id == old(self).session_id,
            event_type_of(*event) == "tts.started"@ ==> final(self).tts_active_depth == depth_after_started(
                old(self).tts_active_depth,
            ) && r@.len() == 0,
            event_type_of(*event) == "tts.finished"@ || event_type_of(*event) == "tts.stopped"@
                ==> final(self).tts_active_depth == depth_after_ended(old(self).tts_active_depth) && r@.len() == 0,
            (*event matches Event::VadSpeechStart { origin, .. } && origin@ == "client"@
                && old(self).tts_active_depth > 0) ==> stop_requests_ok(r@, old(self).session_id@, now)
                && final(self).tts_active_depth == old(self).tts_active_depth,
            (*event matches Event::VadSpeechStart { origin, .. } && !(origin@ == "client"@
                && old(self).tts_active_depth > 0)) ==> r@.len() == 0 && final(self).tts_active_depth == old(
                self,
            ).tts_active_depth,
            !(*event is VadSpeechStart) && event_type_of(*event) != "tts.started"@ && event_type_of(*event)
                != "tts.finished"@ && event_type_of(*event) != "tts.stopped"@ ==> r@.len() == 0
                && final(self).tts_active_depth == old(self).tts_active_depth,
    {
        let t = event.event_type();
        proof {
            reveal_strlit("tts.started");
            reveal_strlit("tts.finished");
            reveal_strlit("tts.stopped");
            reveal_strlit("vad.speech_start");
            assert("tts.started"@[6] != "tts.stopped"@[6]);
            assert("tts.started"@.len() != "tts.finished"@.len());
            assert("tts.stopped"@.len() != "tts.finished"@.len());
            assert("vad.speech_start"@.len() != "tts.started"@.len());
            assert("vad.speech_start"@.len() != "tts.finished"@.len());
        }
        if text_eq(t, "tts.started") {
            self.on_tts_started();
            Vec::new()
        } else if text_eq(t, "tts.finished") || text_eq(t, "tts.stopped") {
            self.on_tts_ended();
            Vec::new()
        } else {
            match event {
                Event::VadSpeechStart { origin, .. } => self.on_vad_speech_start(origin.as_str(), now),
                _ => Vec::new(),
            }
        }
    }
}

impl Manager for TurnTakingManager {
    fn name(&self) -> (r: &'static str)
        ensures
            r@ == "turn_taking_manager"@,
    {
        "turn_taking_manager"
    }

    fn subscriptions(&self) -> (r: Vec<(&'static str, i32)>)
        ensures
            subscriptions_are(r@, turn_subscriptions()),
    {
        let mut v: Vec<(&'static str, i32)> = Vec::new();
        v.push(("vad.speech_start", 90));
        v.push(("tts.started", 50));
        v.push(("tts.finished", 50));
        v.push(("tts.stopped", 50));
        v
    }
}

/// A superseded synthesis ending does not disarm barge-in: after two starts
/// and one end, TTS is still active.
pub proof fn law_barge_in_survives_superseded_stop(d: u32)
    requires
        d < u32::MAX - 1,
    ensures
        depth_after_ended(depth_after_started(depth_after_started(d))) > 0,
{
}

/// A synthesis that starts and then ends leaves the activity depth as it was.
pub proof fn law_tts_depth_balanced(d: u32)
    requires
        d < u32::MAX,
    ensures
        depth_after_ended(depth_after_started(d)) == d,
{
}

} // verus!
