//! Model interfaces (ASR, TTS, VAD, agent) and the dummy implementations the
//! default configuration uses.
use vstd::prelude::*;
use crate::text::{string_of, text_eq};
use tokio_util::sync::CancellationToken;

verus! {

#[verifier::external_type_specification]
#[verifier::external_body]
pub struct ExCancellationToken(CancellationToken);

/// Calls `CancellationToken::new`, which allocates a new cancellation node. A
/// token is equal only to handles on its own node (`PartialEq` is pointer
/// equality), so the new token differs from `other`, any token alive now.
#[verifier::external_body]
pub(crate) fn fresh_token(other: Option<&CancellationToken>) -> (r: CancellationToken)
    ensures
        other matches Some(t) ==> r != *t,
{
    let _ = other;
    CancellationToken::new()
}

/// `CancellationToken::is_cancelled`: whether this token or any clone of it was
/// cancelled. The answer depends on other holders of the token, so nothing is claimed.
pub assume_specification[ CancellationToken::is_cancelled ](t: &CancellationToken) -> bool;

/// `CancellationToken::clone`: another handle on the same cancellation state.
/// tokio-util's `PartialEq` calls two tokens equal exactly when cancelling one
/// cancels the other, which holds of a token and its clone; the clone is
/// claimed to be the same token.
pub assume_specification[ <CancellationToken as Clone>::clone ](t: &CancellationToken) -> (r: CancellationToken)
    ensures
        r == *t,
;

/// Evidence that a token was cancelled: only [`cancel_token`] makes one,
/// right after cancelling the token it names.
pub struct CancelReceipt {
    token: CancellationToken,
}

impl CancelReceipt {
    /// The token that was cancelled.
    pub closed spec fn token(&self) -> CancellationToken {
        self.token
    }
}

/// Calls `CancellationToken::cancel` on `t`, which cancels `t` and every clone
/// of it, and hands back a receipt naming `t`.
#[verifier::external_body]
pub(crate) fn cancel_token(t: CancellationToken) -> (r: CancelReceipt)
    ensures
        r.token() == t,
{
    t.cancel();
    CancelReceipt { token: t }
}

/// `r` is the receipt of cancelling `held`, the token of the work in flight,
/// or nothing when no work was in flight.
pub open spec fn cancels(r: Option<CancelReceipt>, held: Option<CancellationToken>) -> bool {
    match held {
        Some(t) => r matches Some(c) && c.token() == t,
        None => r is None,
    }
}

/// Errors returned by ASR / TTS / VAD / agent implementations.
#[derive(Debug)]
pub enum ModelError {
    Message(String),
    Cancelled,
    /// An error raised by a model's own dependencies, kept as its message.
    Other(String),
}

/// The text a model error displays as.
pub open spec fn model_error_text(e: ModelError) -> Seq<char> {
    match e {
        ModelError::Message(m) => "model error: "@ + m@,
        ModelError::Cancelled => "cancelled"@,
        ModelError::Other(m) => m@,
    }
}

impl ModelError {
    /// A plain message error.
    pub fn message(msg: String) -> (r: ModelError)
        ensures
            r matches ModelError::Message(m) && m@ == msg@,
    {
        ModelError::Message(msg)
    }

    /// The text this error displays as (`model error: ...`, `cancelled`, or the
    /// wrapped error's own message).
    pub fn to_text(&self) -> (r: String)
        ensures
            r@ == model_error_text(*self),
    {
        match self {
            ModelError::Message(m) => {
                let mut s = string_of("model error: ");
                s.append(m.as_str());
                s
            },
            ModelError::Cancelled => string_of("cancelled"),
            ModelError::Other(m) => m.clone(),
        }
    }
}

/// A model result's plain view: the text, or `Err` for a failure.
pub open spec fn text_outcome(r: Result<String, ModelError>) -> Result<Seq<char>, ()> {
    match r {
        Ok(t) => Ok(t@),
        Err(_) => Err(()),
    }
}

/// Streaming speech recognition.
pub trait Asr: Send + Sync {
    /// The audio handed to the recognizer since it was made or last reset,
    /// each piece with the `is_final` flag it came with.
    spec fn fed(&self) -> Seq<(Seq<u8>, bool)>;

    /// What the recognizer reports once it has been fed `fed`: the text so
    /// far, or `Err` for a failure.
    spec fn transcript(&self, fed: Seq<(Seq<u8>, bool)>) -> Result<Seq<char>, ()>;

    /// Feed `audio`; `is_final` closes the utterance. Returns the text so far.
    fn recognize_stream(&mut self, audio: &[u8], is_final: bool) -> (r: Result<String, ModelError>)
        ensures
            final(self).fed() == old(self).fed().push((audio@, is_final)),
            text_outcome(r) == old(self).transcript(final(self).fed()),
    ;

    /// Forget the current utterance.
    fn reset(&mut self)
        ensures
            final(self).fed() == Seq::<(Seq<u8>, bool)>::empty(),
    ;
}

/// Text-to-speech producing PCM chunks.
pub trait Tts: Send + Sync {
    fn synthesize_stream(&self, text: &str) -> Result<Vec<Vec<u8>>, ModelError>;

    fn sample_rate(&self) -> u32;
}

/// Voice activity detection.
pub trait Vad: Send + Sync {
    /// Whether the detector takes `frame` for speech; a failure counts as silence.
    spec fn speech(&self, frame: Seq<u8>) -> bool;

    /// Decide whether `frame` is speech: `Ok(true)` exactly when it is.
    fn is_speech(&self, frame: &[u8]) -> (r: Result<bool, ModelError>)
        ensures
            (r matches Ok(b) && b) == self.speech(frame@),
    ;
}

/// Context payload forwarded into an agent turn.
#[derive(Debug, Clone)]
pub struct AgentContext {
    pub context_type: String,
    pub text: String,
}

/// LLM / dialogue agent.
pub trait Agent: Send + Sync {
    fn accept(&self, ctx: AgentContext, cancel: CancellationToken) -> Result<Vec<String>, ModelError>;
}

/// Context types an agent answers: final ASR results and embeddings.
pub open spec fn answers_context(context_type: Seq<char>) -> bool {
    context_type == "asr_final"@ || context_type == "embedding"@
}

/// Whether an agent answers a context of this type.
pub fn is_answered_context(context_type: &str) -> (r: bool)
    ensures
        r == answers_context(context_type@),
{
    text_eq(context_type, "asr_final") || text_eq(context_type, "embedding")
}

/// Stub ASR: once audio arrives or the utterance is closed, the text is the
/// configured default text.
pub struct DummyAsr {
    pub default_text: String,
    pub stream_text: String,
    /// The audio fed since it was made or last reset.
    pub fed: Ghost<Seq<(Seq<u8>, bool)>>,
}

impl DummyAsr {
    pub fn new(default_text: String) -> (r: DummyAsr)
        ensures
            r.default_text@ == default_text@,
            r.stream_text@.len() == 0,
            r.fed@.len() == 0,
    {
        DummyAsr { default_text, stream_text: String::new(), fed: Ghost(Seq::empty()) }
    }

    /// A recognizer for a new session: same default text, no utterance state.
    pub fn fresh(&self) -> (r: DummyAsr)
        ensures
            r.default_text@ == self.default_text@,
            r.stream_text@.len() == 0,
            r.fed@.len() == 0,
    {
        DummyAsr::new(self.default_text.clone())
    }
}

/// A fed piece that makes the dummy recognizer report its text.
pub open spec fn dummy_hears(piece: (Seq<u8>, bool)) -> bool {
    piece.0.len() > 0 || piece.1
}

impl Asr for DummyAsr {
    open spec fn fed(&self) -> Seq<(Seq<u8>, bool)> {
        self.fed@
    }

    /// The default text once a piece with audio, or a closing one, arrives
    /// after what it has been fed so far; until then its current text.
    open spec fn transcript(&self, fed: Seq<(Seq<u8>, bool)>) -> Result<Seq<char>, ()> {
        if exists|i: int| self.fed@.len() <= i < fed.len() && dummy_hears(#[trigger] fed[i]) {
            Ok(self.default_text@)
        } else {
            Ok(self.stream_text@)
        }
    }

    fn recognize_stream(&mut self, audio: &[u8], is_final: bool) -> (r: Result<String, ModelError>)
        ensures
            final(self).default_text == old(self).default_text,
            final(self).stream_text@ == if audio@.len() > 0 || is_final {
                old(self).default_text@
            } else {
                old(self).stream_text@
            },
            r matches Ok(t) && t@ == final(self).stream_text@,
    {
        let ghost before = *self;
        self.fed = Ghost(self.fed@.push((audio@, is_final)));
        if audio.len() > 0 || is_final {
            self.stream_text = self.default_text.clone();
        }
        proof {
            let f = self.fed@;
            let k = before.fed@.len() as int;
            assert(f[k] == (audio@, is_final));
            if dummy_hears(f[k]) {
                assert(before.fed@.len() <= k < f.len() && dummy_hears(f[k]));
            } else {
                assert forall|i: int| before.fed@.len() <= i < f.len() implies !dummy_hears(#[trigger] f[i]) by {
                    assert(i == k);
                }
            }
        }
        Ok(self.stream_text.clone())
    }

    fn reset(&mut self)
        ensures
            final(self).default_text == old(self).default_text,
            final(self).stream_text@.len() == 0,
    {
        self.stream_text = String::new();
        self.fed = Ghost(Seq::empty());
    }
}

/// Number of bytes of 100 ms of 16-bit mono PCM at `sample_rate`.
pub open spec fn silence_len(sample_rate: u32) -> nat {
    ((sample_rate as nat) / 10 * 2) as nat
}

/// `n` zero bytes.
pub fn zeros(n: usize) -> (r: Vec<u8>)
    ensures
        r@.len() == n,
        forall|i: int| 0 <= i < n ==> r@[i] == 0,
{
    let mut r: Vec<u8> = Vec::new();
    let mut i: usize = 0;
    while i < n
        invariant
            i <= n,
            r@.len() == i,
            forall|k: int| 0 <= k < i ==> r@[k] == 0,
        decreases n - i,
    {
        r.push(0);
        i = i + 1;
    }
    r
}

/// Stub TTS: one chunk of 100 ms of silence (raw s16le mono PCM, no header).
pub struct DummyTts {
    pub sample_rate: u32,
}

impl DummyTts {
    pub fn new(sample_rate: u32) -> (r: DummyTts)
        ensures
            r.sample_rate == sample_rate,
    {
        DummyTts { sample_rate }
    }
}

impl Tts for DummyTts {
    fn synthesize_stream(&self, text: &str) -> (r: Result<Vec<Vec<u8>>, ModelError>)
        ensures
            r matches Ok(chunks) && chunks@.len() == 1 && chunks@[0]@.len() == silence_len(
                self.sample_rate,
            ) && forall|i: int| 0 <= i < chunks@[0]@.len() ==> chunks@[0]@[i] == 0,
    {
        let bytes = (self.sample_rate / 10) as usize * 2;
        let mut chunks: Vec<Vec<u8>> = Vec::new();
        chunks.push(zeros(bytes));
        Ok(chunks)
    }

    fn sample_rate(&self) -> (r: u32)
        ensures
            r == self.sample_rate,
    {
        self.sample_rate
    }
}

/// Frames of at least this many bytes (10 ms at 16 kHz s16le mono) count as speech.
pub const DUMMY_VAD_MIN_SPEECH_BYTES: usize = 320;

/// Stub VAD: a frame is speech when it holds at least 320 bytes.
pub struct DummyVad;

impl DummyVad {
    pub fn new() -> (r: DummyVad) {
        DummyVad
    }
}

impl Vad for DummyVad {
    open spec fn speech(&self, frame: Seq<u8>) -> bool {
        frame.len() >= DUMMY_VAD_MIN_SPEECH_BYTES
    }

    fn is_speech(&self, frame: &[u8]) -> (r: Result<bool, ModelError>)
        ensures
            r matches Ok(b) && b == (frame@.len() >= DUMMY_VAD_MIN_SPEECH_BYTES),
    {
        Ok(frame.len() >= DUMMY_VAD_MIN_SPEECH_BYTES)
    }
}

/// Stub agent: replies with a fixed string to answered contexts.
pub struct DummyAgent {
    pub default_response: String,
}

/// What the dummy agent replies, given whether its token was cancelled.
pub open spec fn dummy_reply(default_response: Seq<char>, context_type: Seq<char>, cancelled: bool) -> Result<
    Seq<Seq<char>>,
    (),
> {
    if cancelled {
        Err(())
    } else if answers_context(context_type) {
        Ok(seq![default_response])
    } else {
        Ok(Seq::empty())
    }
}

/// A model result's plain view: the texts, or `Err` for a cancellation.
pub open spec fn reply_view(r: Result<Vec<String>, ModelError>) -> Result<Seq<Seq<char>>, ()> {
    match r {
        Ok(v) => Ok(v@.map_values(|s: String| s@)),
        Err(_) => Err(()),
    }
}

impl DummyAgent {
    pub fn new(default_response: String) -> (r: DummyAgent)
        ensures
            r.default_response@ == default_response@,
    {
        DummyAgent { default_response }
    }

    /// The reply to `ctx` once the token's state is known.
    pub fn reply(&self, ctx: &AgentContext, cancelled: bool) -> (r: Result<Vec<String>, ModelError>)
        ensures
            reply_view(r) == dummy_reply(self.default_response@, ctx.context_type@, cancelled),
            r matches Err(e) ==> e is Cancelled,
    {
        if cancelled {
            return Err(ModelError::Cancelled);
        }
        let mut out: Vec<String> = Vec::new();
        if is_answered_context(ctx.context_type.as_str()) {
            out.push(self.default_response.clone());
        }
        assert(out@.map_values(|s: String| s@) =~= (if answers_context(ctx.context_type@) {
            seq![self.default_response@]
        } else {
            Seq::empty()
        }));
        Ok(out)
    }
}

impl Agent for DummyAgent {
    fn accept(&self, ctx: AgentContext, cancel: CancellationToken) -> (r: Result<Vec<String>, ModelError>)
        ensures
            reply_view(r) == dummy_reply(self.default_response@, ctx.context_type@, true)
                || reply_view(r) == dummy_reply(self.default_response@, ctx.context_type@, false),
            r matches Err(e) ==> e is Cancelled,
    {
        let cancelled = cancel.is_cancelled();
        self.reply(&ctx, cancelled)
    }
}

} // verus!
