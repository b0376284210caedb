//! The fixed configuration of the voice pipeline and the values that one
//! question-and-answer turn reports.

use vstd::prelude::*;
use crate::text::{join_path, joined};

verus! {

/// Silero VAD and Parakeet operate on 16 kHz mono audio.
pub const VAD_SR: u32 = 16_000;

/// One VAD frame: 30 ms at 16 kHz.
pub const VAD_FRAME: usize = 480;

/// Kokoro emits 24 kHz mono audio.
pub const TTS_SR: u32 = 24_000;

/// Language tag handed to the speech synthesizer.
pub const TTS_LANG: &'static str = "en-us";

/// Model artifact file names, resolved under the models directory.
pub const KOKORO_MODEL: &'static str = "kokoro-v1.0.onnx";
pub const KOKORO_VOICES: &'static str = "voices-v1.0.bin";
pub const PARAKEET_DIR: &'static str = "parakeet-tdt-0.6b-v3-int8";
pub const SILERO_VAD: &'static str = "silero_vad_v4.onnx";

/// Endpointing configuration; each field may be overridden per question.
#[derive(Clone, Copy, Debug, PartialEq, Eq, Structural)]
pub struct ListenCfg {
    /// Trailing silence (ms) that ends a turn once speech has started.
    pub end_silence_ms: u64,
    /// Give up (no speech) if the user never starts speaking within this (ms).
    pub initial_silence_ms: u64,
    /// Hard cap (ms) on a single answer.
    pub max_answer_ms: u64,
}

impl ListenCfg {
    /// The default endpointing configuration: 800 ms, 8 s, 30 s.
    pub open spec fn spec_default() -> ListenCfg {
        ListenCfg { end_silence_ms: 800, initial_silence_ms: 8_000, max_answer_ms: 30_000 }
    }

    /// The configuration of one `ask`: the default trailing silence, with the
    /// initial-silence timeout and the answer cap taken from the request where given.
    pub open spec fn spec_with_overrides(
        silence_timeout_ms: Option<u64>,
        max_answer_ms: Option<u64>,
    ) -> ListenCfg {
        ListenCfg {
            end_silence_ms: Self::spec_default().end_silence_ms,
            initial_silence_ms: match silence_timeout_ms {
                Some(t) => t,
                None => Self::spec_default().initial_silence_ms,
            },
            max_answer_ms: match max_answer_ms {
                Some(m) => m,
                None => Self::spec_default().max_answer_ms,
            },
        }
    }

    pub fn with_overrides(silence_timeout_ms: Option<u64>, max_answer_ms: Option<u64>) -> (cfg:
        ListenCfg)
        ensures
            cfg == Self::spec_with_overrides(silence_timeout_ms, max_answer_ms),
    {
        let defaults = ListenCfg::default();
        ListenCfg {
            end_silence_ms: defaults.end_silence_ms,
            initial_silence_ms: match silence_timeout_ms {
                Some(t) => t,
                None => defaults.initial_silence_ms,
            },
            max_answer_ms: match max_answer_ms {
                Some(m) => m,
                None => defaults.max_answer_ms,
            },
        }
    }
}

impl Default for ListenCfg {
    fn default() -> (cfg: ListenCfg)
        ensures
            cfg == ListenCfg::spec_default(),
    {
        ListenCfg { end_silence_ms: 800, initial_silence_ms: 8_000, max_answer_ms: 30_000 }
    }
}

/// How one listening leg ended.
#[derive(Clone, Copy, Debug, PartialEq, Eq, Structural)]
pub enum TurnStatus {
    /// Speech was heard and then enough trailing silence.
    EndOfTurn,
    /// Nobody started speaking before the initial-silence timeout.
    NoSpeech,
    /// The answer ran into the hard cap.
    MaxAnswer,
}

/// Mechanical outcome of one `ask` turn. The library reports facts only;
/// the caller interprets all meaning.
#[derive(Clone, Copy, Debug, PartialEq, Eq, Structural)]
pub enum AnswerStatus {
    Answered,
    NoSpeech,
    Error,
}

impl AnswerStatus {
    /// The wire name of the status.
    pub open spec fn spec_name(self) -> Seq<char> {
        match self {
            AnswerStatus::Answered => "answered"@,
            AnswerStatus::NoSpeech => "no_speech"@,
            AnswerStatus::Error => "error"@,
        }
    }

    pub fn as_str(&self) -> (s: &'static str)
        ensures
            s@ == self.spec_name(),
    {
        match self {
            AnswerStatus::Answered => "answered",
            AnswerStatus::NoSpeech => "no_speech",
            AnswerStatus::Error => "error",
        }
    }
}

/// The wire names of the statuses are distinct, so a caller can tell them apart.
pub proof fn lemma_status_names_distinct(a: AnswerStatus, b: AnswerStatus)
    ensures
        a.spec_name() == b.spec_name() <==> a == b,
{
    reveal_strlit("answered");
    reveal_strlit("no_speech");
    reveal_strlit("error");
    if a != b {
        assert(a.spec_name().len() != b.spec_name().len() || a.spec_name()[0] != b.spec_name()[0]);
    }
}

/// What an `ask` listens with: the trailing silence is always 800 ms; a given
/// initial-silence timeout or answer cap is taken exactly as given (whether above or
/// below the default), and one left out is the default 8000 ms or 30000 ms.
pub proof fn lemma_overrides_taken_as_given(silence_timeout_ms: Option<u64>, max_answer_ms: Option<u64>)
    ensures
        ListenCfg::spec_with_overrides(silence_timeout_ms, max_answer_ms).end_silence_ms == 800,
        silence_timeout_ms matches Some(t) ==> ListenCfg::spec_with_overrides(
            silence_timeout_ms,
            max_answer_ms,
        ).initial_silence_ms == t,
        silence_timeout_ms is None ==> ListenCfg::spec_with_overrides(
            silence_timeout_ms,
            max_answer_ms,
        ).initial_silence_ms == 8000,
        max_answer_ms matches Some(m) ==> ListenCfg::spec_with_overrides(
            silence_timeout_ms,
            max_answer_ms,
        ).max_answer_ms == m,
        max_answer_ms is None ==> ListenCfg::spec_with_overrides(
            silence_timeout_ms,
            max_answer_ms,
        ).max_answer_ms == 30000,
{
}

/// An `ask` that overrides nothing listens with the default configuration.
pub proof fn lemma_no_override_is_default()
    ensures
        ListenCfg::spec_with_overrides(None, None) == ListenCfg::spec_default(),
{
}

/// The answer to one question.
#[derive(Debug, PartialEq, Eq)]
pub struct Answer {
    /// The finalized transcript (empty unless answered).
    pub transcript: String,
    pub status: AnswerStatus,
    /// Transcription confidence in percent. The recognizer surfaces no score,
    /// so an answered turn carries 100 as a placeholder and every other turn 0.
    pub confidence_pct: u8,
    /// Length of the captured answer audio, in ms.
    pub duration_ms: u64,
    /// Why the turn ended as it did, where that needs saying.
    pub detail: Option<String>,
}

impl Answer {
    /// The answer reported for a failed turn: no transcript, no duration, the error as detail.
    pub open spec fn is_error_with(self, message: Seq<char>) -> bool {
        &&& self.transcript@ == Seq::<char>::empty()
        &&& self.status == AnswerStatus::Error
        &&& self.confidence_pct == 0
        &&& self.duration_ms == 0
        &&& self.detail matches Some(d) && d@ == message
    }

    pub fn error(message: String) -> (a: Answer)
        ensures
            a.is_error_with(message@),
    {
        Answer {
            transcript: String::new(),
            status: AnswerStatus::Error,
            confidence_pct: 0,
            duration_ms: 0,
            detail: Some(message),
        }
    }
}

/// The candidate interview voices, in audition order.
pub open spec fn spec_candidate_voices() -> Seq<Seq<char>> {
    seq![
        "af_heart"@,
        "af_bella"@,
        "af_nicole"@,
        "af_aoede"@,
        "am_michael"@,
        "am_puck"@,
        "am_fenrir"@,
        "bf_emma"@,
        "bm_george"@,
    ]
}

/// Candidate interview voices to audition.
pub fn candidate_voices() -> (v: Vec<&'static str>)
    ensures
        v@.len() == spec_candidate_voices().len(),
        forall|i: int| 0 <= i < v@.len() ==> #[trigger] v@[i]@ == spec_candidate_voices()[i],
{
    let mut v: Vec<&'static str> = Vec::new();
    v.push("af_heart");
    v.push("af_bella");
    v.push("af_nicole");
    v.push("af_aoede");
    v.push("am_michael");
    v.push("am_puck");
    v.push("am_fenrir");
    v.push("bf_emma");
    v.push("bm_george");
    v
}

/// The voice used when none is configured.
pub open spec fn spec_fallback_voice() -> Seq<char> {
    "af_heart"@
}

/// The session voice: the configured one (`GRILL_VOICE`, read by the caller), else `af_heart`.
pub fn default_voice(configured: Option<String>) -> (v: String)
    ensures
        v@ == match configured {
            Some(c) => c@,
            None => spec_fallback_voice(),
        },
{
    match configured {
        Some(c) => c,
        None => String::from_str("af_heart"),
    }
}

/// The models directory used when none is configured, relative to the working directory.
pub open spec fn spec_fallback_models_dir() -> Seq<char> {
    "models"@
}

/// Base directory holding the model artifacts: the configured one
/// (`GRILL_MODELS_DIR`, read by the caller), else `models`.
pub fn models_dir(configured: Option<String>) -> (d: String)
    ensures
        d@ == match configured {
            Some(c) => c@,
            None => spec_fallback_models_dir(),
        },
{
    match configured {
        Some(c) => c,
        None => String::from_str("models"),
    }
}

/// The path of the artifact `name` under the models directory `dir`, joined with
/// Unix path rules (see `joined`).
pub fn model_path(dir: &str, name: &str) -> (p: String)
    ensures
        p@ == joined(dir@, name@),
{
    join_path(dir, name)
}

/// The file names of every model artifact the pipeline needs.
pub open spec fn spec_artifact_names() -> Seq<Seq<char>> {
    seq![KOKORO_MODEL@, KOKORO_VOICES@, PARAKEET_DIR@, SILERO_VAD@]
}

/// The paths of every model artifact under the models directory `dir`, in a fixed
/// order, joined with Unix path rules.
pub fn artifact_paths(dir: &str) -> (paths: Vec<String>)
    ensures
        paths@.len() == spec_artifact_names().len(),
        forall|i: int|
            0 <= i < paths@.len() ==> #[trigger] paths@[i]@ == joined(
                dir@,
                spec_artifact_names()[i],
            ),
{
    let mut paths: Vec<String> = Vec::new();
    paths.push(model_path(dir, KOKORO_MODEL));
    paths.push(model_path(dir, KOKORO_VOICES));
    paths.push(model_path(dir, PARAKEET_DIR));
    paths.push(model_path(dir, SILERO_VAD));
    paths
}

/// The message that reports a missing artifact at `path`.
pub open spec fn missing_artifact_message(path: Seq<char>) -> Seq<char> {
    "missing model artifact: "@ + path
        + " (set GRILL_MODELS_DIR or run the model download first)"@
}

/// Whether `i` is the first position at which `present` is false.
pub open spec fn is_first_missing(present: Seq<bool>, i: int) -> bool {
    &&& 0 <= i < present.len()
    &&& !present[i]
    &&& forall|j: int| 0 <= j < i ==> present[j]
}

/// The artifact reported missing is determined: exactly when some artifact is
/// missing there is one first missing position, it is missing, and every artifact
/// before it is present.
pub proof fn lemma_first_missing_is_determined(present: Seq<bool>, i: int, j: int)
    ensures
        (exists|k: int| is_first_missing(present, k)) <==> exists|k: int|
            0 <= k < present.len() && !present[k],
        is_first_missing(present, i) ==> 0 <= i < present.len() && !present[i] && forall|k: int|
            0 <= k < i ==> present[k],
        is_first_missing(present, i) && is_first_missing(present, j) ==> i == j,
{
    if exists|k: int| 0 <= k < present.len() && !present[k] {
        let k = choose|k: int| 0 <= k < present.len() && !present[k];
        lemma_some_first_missing(present, k);
    }
}

proof fn lemma_some_first_missing(present: Seq<bool>, k: int)
    requires
        0 <= k < present.len(),
        !present[k],
    ensures
        exists|f: int| is_first_missing(present, f),
    decreases k,
{
    if forall|j: int| 0 <= j < k ==> present[j] {
        assert(is_first_missing(present, k));
    } else {
        let j = choose|j: int| 0 <= j < k && !present[j];
        lemma_some_first_missing(present, j);
    }
}

/// Fails early, with a clear message, if any weight is missing: `present[i]`
/// tells whether `paths[i]` exists. The first missing artifact is reported.
pub fn check_artifacts(paths: &Vec<String>, present: &Vec<bool>) -> (r: Result<(), String>)
    requires
        paths@.len() == present@.len(),
    ensures
        r is Ok <==> forall|i: int| 0 <= i < present@.len() ==> present@[i],
        r matches Err(m) ==> exists|i: int|
            is_first_missing(present@, i) && m@ == missing_artifact_message(paths@[i]@),
{
    let n = paths.len();
    for i in 0..n
        invariant
            n == paths@.len(),
            n == present@.len(),
            forall|j: int| 0 <= j < i ==> present@[j],
    {
        if !present[i] {
            let mut m = String::from_str("missing model artifact: ");
            m.append(paths[i].as_str());
            m.append(" (set GRILL_MODELS_DIR or run the model download first)");
            assert(is_first_missing(present@, i as int));
            return Err(m);
        }
    }
    Ok(())
}

/// One capture configuration to try: sample rate (Hz) and channel count.
#[derive(Clone, Copy, Debug, PartialEq, Eq, Structural)]
pub struct StreamChoice {
    pub sample_rate: u32,
    pub channels: u16,
}

/// The capture configurations to try, in order; the first that opens is used.
pub open spec fn spec_stream_choices() -> Seq<StreamChoice> {
    seq![
        StreamChoice { sample_rate: 48_000, channels: 1 },
        StreamChoice { sample_rate: 48_000, channels: 2 },
        StreamChoice { sample_rate: 44_100, channels: 1 },
        StreamChoice { sample_rate: 44_100, channels: 2 },
        StreamChoice { sample_rate: 16_000, channels: 1 },
        StreamChoice { sample_rate: 16_000, channels: 2 },
    ]
}

/// The input-stream configurations to try when opening the microphone: each rate
/// of 48 kHz, 44.1 kHz and 16 kHz, first mono then stereo.
pub fn stream_choices() -> (v: Vec<StreamChoice>)
    ensures
        v@ == spec_stream_choices(),
{
    let rates: [u32; 3] = [48_000, 44_100, 16_000];
    let mut v: Vec<StreamChoice> = Vec::new();
    for k in 0..3usize
        invariant
            v@ == spec_stream_choices().take(2 * k as int),
            rates@ == seq![48_000u32, 44_100u32, 16_000u32],
    {
        v.push(StreamChoice { sample_rate: rates[k], channels: 1 });
        v.push(StreamChoice { sample_rate: rates[k], channels: 2 });
        assert(v@ =~= spec_stream_choices().take(2 * (k + 1) as int));
    }
    assert(spec_stream_choices().take(6) =~= spec_stream_choices());
    v
}

} // verus!
