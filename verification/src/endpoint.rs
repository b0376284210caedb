//! Trailing-silence endpointing: deciding, from the voice-activity verdicts of
//! consecutive 30 ms frames and the time spent listening, when an answer is over.
//!
//! The caller captures audio, hands each complete frame to the voice-activity
//! detector, reports the verdict here, and asks after every polling round
//! whether the turn has ended.

use vstd::prelude::*;
use crate::engine::{ListenCfg, TurnStatus, VAD_FRAME, VAD_SR};

verus! {

/// Whether a detector verdict counts as speech: a failed inference counts as silence.
pub open spec fn counts_as_speech(verdict: Option<bool>) -> bool {
    verdict == Some(true)
}

/// Whether any frame so far was speech.
pub open spec fn speech_heard(frames: Seq<bool>) -> bool {
    exists|i: int| 0 <= i < frames.len() && frames[i]
}

/// The number of consecutive non-speech frames at the end of `frames`.
pub open spec fn silent_suffix(frames: Seq<bool>) -> nat
    decreases frames.len(),
{
    if frames.len() == 0 || frames.last() {
        0
    } else {
        silent_suffix(frames.drop_last()) + 1
    }
}

/// Trailing silence: consecutive non-speech frames after the last speech frame
/// (nothing counts before speech has started).
pub open spec fn trailing_silence_of(frames: Seq<bool>) -> nat {
    if speech_heard(frames) {
        silent_suffix(frames)
    } else {
        0
    }
}

/// The number of silent frames that end a turn: the fewest whole frames whose
/// silence spans at least `end_silence_ms` (the samples of that span, rounded up
/// to whole frames).
pub open spec fn end_frames_for(end_silence_ms: nat) -> nat {
    let samples = end_silence_ms * (VAD_SR as nat) / 1000;
    (samples + ((VAD_FRAME - 1) as nat)) / (VAD_FRAME as nat)
}

/// The end-of-turn threshold is the full trailing silence: that many frames span at
/// least `end_silence_ms`, and one frame fewer spans less.
pub proof fn lemma_end_frames_span(end_silence_ms: nat)
    ensures
        end_frames_for(end_silence_ms) * 30 >= end_silence_ms,
        end_frames_for(end_silence_ms) > 0 ==> (end_frames_for(end_silence_ms) - 1) * 30
            < end_silence_ms,
{
    let e = end_silence_ms;
    let n = end_frames_for(e);
    assert(e * 16000 / 1000 == e * 16) by (nonlinear_arith);
    assert(n == (e * 16 + 479) / 480);
    assert(n * 30 >= e && (n > 0 ==> (n - 1) * 30 < e)) by (nonlinear_arith)
        requires
            n == (e * 16 + 479) / 480,
    ;
}

/// Whether the turn is over after `frames`, `elapsed_ms` into listening, and how:
/// enough trailing silence after speech ends the turn; otherwise, with no speech
/// at all, the initial-silence timeout gives up; otherwise the hard cap stops it.
pub open spec fn decision(cfg: ListenCfg, frames: Seq<bool>, elapsed_ms: u64) -> Option<
    TurnStatus,
> {
    if speech_heard(frames) && trailing_silence_of(frames) >= end_frames_for(
        cfg.end_silence_ms as nat,
    ) {
        Some(TurnStatus::EndOfTurn)
    } else if !speech_heard(frames) && elapsed_ms >= cfg.initial_silence_ms {
        Some(TurnStatus::NoSpeech)
    } else if elapsed_ms >= cfg.max_answer_ms {
        Some(TurnStatus::MaxAnswer)
    } else {
        None
    }
}

/// The trailing silence never exceeds the number of frames.
pub proof fn lemma_silent_suffix_bound(frames: Seq<bool>)
    ensures
        silent_suffix(frames) <= frames.len(),
    decreases frames.len(),
{
    if frames.len() > 0 && !frames.last() {
        lemma_silent_suffix_bound(frames.drop_last());
    }
}

/// One more frame: a speech frame starts (or continues) the answer and resets the
/// trailing silence; a silent frame adds one frame of trailing silence once speech
/// has started, and counts for nothing before.
pub proof fn lemma_frame_step(frames: Seq<bool>, speech: bool)
    ensures
        speech_heard(frames.push(speech)) == (speech_heard(frames) || speech),
        trailing_silence_of(frames.push(speech)) == if speech {
            0
        } else if speech_heard(frames) {
            trailing_silence_of(frames) + 1
        } else {
            0
        },
{
    let next = frames.push(speech);
    assert(next.drop_last() =~= frames);
    if speech_heard(frames) {
        let i = choose|i: int| 0 <= i < frames.len() && frames[i];
        assert(next[i]);
    }
    if speech {
        assert(next[frames.len() as int]);
    }
    if speech_heard(next) && !speech {
        let i = choose|i: int| 0 <= i < next.len() && next[i];
        assert(frames[i]);
    }
}

/// Once speech has been heard it stays heard, whatever frames follow, so such a
/// turn never ends as "no speech".
pub proof fn lemma_speech_is_kept(cfg: ListenCfg, frames: Seq<bool>, more: Seq<bool>, elapsed_ms: u64)
    requires
        speech_heard(frames),
    ensures
        speech_heard(frames + more),
        decision(cfg, frames + more, elapsed_ms) != Some(TurnStatus::NoSpeech),
{
    let i = choose|i: int| 0 <= i < frames.len() && frames[i];
    assert((frames + more)[i]);
}

/// `k` silent frames.
pub open spec fn silence(k: nat) -> Seq<bool> {
    Seq::new(k, |i: int| false)
}

proof fn lemma_silent_suffix_after_speech(frames: Seq<bool>, k: nat)
    requires
        frames.len() > 0,
        frames.last(),
    ensures
        silent_suffix(frames + silence(k)) == k,
    decreases k,
{
    if k == 0 {
        assert(frames + silence(0) =~= frames);
    } else {
        let longer = frames + silence(k);
        assert(longer.drop_last() =~= frames + silence((k - 1) as nat));
        lemma_silent_suffix_after_speech(frames, (k - 1) as nat);
    }
}

/// After a speech frame, the configured trailing silence ends the turn: once the
/// number of silent frames that follow reaches the end-of-turn threshold, the turn
/// is over as "end of turn" at any time; one frame fewer is not enough.
pub proof fn lemma_trailing_silence_ends_turn(
    cfg: ListenCfg,
    frames: Seq<bool>,
    k: nat,
    elapsed_ms: u64,
)
    requires
        frames.len() > 0,
        frames.last(),
    ensures
        k >= end_frames_for(cfg.end_silence_ms as nat) ==> decision(cfg, frames + silence(k), elapsed_ms)
            == Some(TurnStatus::EndOfTurn),
        k < end_frames_for(cfg.end_silence_ms as nat) ==> decision(
            cfg,
            frames + silence(k),
            elapsed_ms,
        ) != Some(TurnStatus::EndOfTurn),
{
    lemma_silent_suffix_after_speech(frames, k);
    assert((frames + silence(k))[frames.len() - 1]);
}

/// Silence gives up at the initial-silence timeout: however many frames were fed,
/// if none of them was speech (all silent, or failed inferences), the turn is over
/// as "no speech" from `initial_silence_ms` on, and not before (unless the hard cap
/// comes first).
pub proof fn lemma_silence_gives_no_speech(cfg: ListenCfg, frames: Seq<bool>, elapsed_ms: u64)
    requires
        forall|i: int| 0 <= i < frames.len() ==> !frames[i],
    ensures
        elapsed_ms >= cfg.initial_silence_ms ==> decision(cfg, frames, elapsed_ms) == Some(
            TurnStatus::NoSpeech,
        ),
        elapsed_ms < cfg.initial_silence_ms && elapsed_ms < cfg.max_answer_ms ==> decision(
            cfg,
            frames,
            elapsed_ms,
        ) is None,
        elapsed_ms < cfg.initial_silence_ms && elapsed_ms >= cfg.max_answer_ms ==> decision(
            cfg,
            frames,
            elapsed_ms,
        ) == Some(TurnStatus::MaxAnswer),
{
    assert(!speech_heard(frames));
}

/// Feeding silent frames (or failed inferences) from the start of a leg never
/// counts as speech, so such a leg ends as "no speech" once the timeout is reached.
pub proof fn lemma_silent_leg_gives_no_speech(cfg: ListenCfg, k: nat, elapsed_ms: u64)
    requires
        elapsed_ms >= cfg.initial_silence_ms,
    ensures
        decision(cfg, silence(k), elapsed_ms) == Some(TurnStatus::NoSpeech),
{
    lemma_silence_gives_no_speech(cfg, silence(k), elapsed_ms);
}

/// The hard cap ends every turn: from `max_answer_ms` on there is always a verdict.
pub proof fn lemma_cap_ends_every_turn(cfg: ListenCfg, frames: Seq<bool>, elapsed_ms: u64)
    requires
        elapsed_ms >= cfg.max_answer_ms,
    ensures
        decision(cfg, frames, elapsed_ms) is Some,
{
}

/// Waiting never reopens a turn: with the same frames, a turn that is over stays
/// over later on, and an end of turn stays an end of turn.
pub proof fn lemma_verdict_is_stable(cfg: ListenCfg, frames: Seq<bool>, earlier: u64, later: u64)
    requires
        earlier <= later,
        decision(cfg, frames, earlier) is Some,
    ensures
        decision(cfg, frames, later) is Some,
        decision(cfg, frames, earlier) == Some(TurnStatus::EndOfTurn) ==> decision(
            cfg,
            frames,
            later,
        ) == Some(TurnStatus::EndOfTurn),
{
}

/// The endpointing state of one listening leg.
pub struct Endpointer {
    cfg: ListenCfg,
    end_frames: u64,
    fed_frames: usize,
    speech_started: bool,
    trailing_silence: u64,
    frames: Ghost<Seq<bool>>,
}

impl Endpointer {
    #[verifier::type_invariant]
    spec fn consistent(self) -> bool {
        &&& self.end_frames == end_frames_for(self.cfg.end_silence_ms as nat)
        &&& self.fed_frames == self.frames@.len()
        &&& self.speech_started == speech_heard(self.frames@)
        &&& self.trailing_silence == trailing_silence_of(self.frames@)
    }

    /// The verdicts of the frames fed so far, in order (true for speech).
    pub closed spec fn history(self) -> Seq<bool> {
        self.frames@
    }

    /// The configuration this leg listens with.
    pub closed spec fn config(self) -> ListenCfg {
        self.cfg
    }

    /// Starts a listening leg: no frame fed yet.
    pub fn new(cfg: ListenCfg) -> (e: Endpointer)
        ensures
            e.config() == cfg,
            e.history() == Seq::<bool>::empty(),
    {
        let scaled: u128 = (cfg.end_silence_ms as u128) * (VAD_SR as u128);
        let samples: u128 = scaled / 1000;
        let frames: u128 = (samples + (VAD_FRAME as u128) - 1) / (VAD_FRAME as u128);
        assert(frames <= cfg.end_silence_ms) by (nonlinear_arith)
            requires
                scaled == cfg.end_silence_ms * 16000,
                samples == scaled / 1000,
                frames == (samples + 479) / 480,
        ;
        Endpointer {
            cfg,
            end_frames: frames as u64,
            fed_frames: 0,
            speech_started: false,
            trailing_silence: 0,
            frames: Ghost(Seq::empty()),
        }
    }

    /// Consecutive silent frames after speech that end the turn.
    pub fn end_frames(&self) -> (n: u64)
        ensures
            n == end_frames_for(self.config().end_silence_ms as nat),
    {
        proof { use_type_invariant(self); }
        self.end_frames
    }

    /// Frames fed to the detector so far.
    pub fn fed_frames(&self) -> (n: usize)
        ensures
            n == self.history().len(),
    {
        proof { use_type_invariant(self); }
        self.fed_frames
    }

    /// Whether any frame so far was speech.
    pub fn speech_started(&self) -> (b: bool)
        ensures
            b == speech_heard(self.history()),
    {
        proof { use_type_invariant(self); }
        self.speech_started
    }

    /// Consecutive non-speech frames since the last speech frame.
    pub fn trailing_silence(&self) -> (n: u64)
        ensures
            n == trailing_silence_of(self.history()),
    {
        proof { use_type_invariant(self); }
        self.trailing_silence
    }

    /// The sample range of the next frame to feed, if `available` 16 kHz samples
    /// hold it completely: frames are consecutive 480-sample windows from the start.
    pub fn next_frame(&self, available: usize) -> (r: Option<(usize, usize)>)
        ensures
            r is Some <==> (self.history().len() + 1) * (VAD_FRAME as int) <= available,
            r matches Some((start, end)) ==> start == self.history().len() * (VAD_FRAME as int)
                && end == start + VAD_FRAME,
    {
        proof { use_type_invariant(self); }
        let whole = available / VAD_FRAME;
        if self.fed_frames < whole {
            let start = self.fed_frames * VAD_FRAME;
            Some((start, start + VAD_FRAME))
        } else {
            None
        }
    }

    /// Records the detector's verdict on the next frame (a failed inference counts
    /// as silence). The frame must lie within the `available` samples.
    pub fn observe_frame(&mut self, available: usize, verdict: Option<bool>)
        requires
            (old(self).history().len() + 1) * (VAD_FRAME as int) <= available,
        ensures
            final(self).config() == old(self).config(),
            final(self).history() == old(self).history().push(counts_as_speech(verdict)),
    {
        proof { use_type_invariant(&*self); }
        let speech = match verdict {
            Some(b) => b,
            None => false,
        };
        let ghost next = self.frames@.push(speech);
        proof {
            lemma_frame_step(self.frames@, speech);
            lemma_silent_suffix_bound(self.frames@);
        }
        let trailing = if speech {
            0
        } else if self.speech_started {
            self.trailing_silence + 1
        } else {
            0
        };
        *self = Endpointer {
            cfg: self.cfg,
            end_frames: self.end_frames,
            fed_frames: self.fed_frames + 1,
            speech_started: self.speech_started || speech,
            trailing_silence: trailing,
            frames: Ghost(next),
        };
    }

    /// Whether the turn is over, `elapsed_ms` into listening, and how.
    pub fn decide(&self, elapsed_ms: u64) -> (r: Option<TurnStatus>)
        ensures
            r == decision(self.config(), self.history(), elapsed_ms),
    {
        proof { use_type_invariant(self); }
        if self.speech_started && self.trailing_silence >= self.end_frames {
            Some(TurnStatus::EndOfTurn)
        } else if !self.speech_started && elapsed_ms >= self.cfg.initial_silence_ms {
            Some(TurnStatus::NoSpeech)
        } else if elapsed_ms >= self.cfg.max_answer_ms {
            Some(TurnStatus::MaxAnswer)
        } else {
            None
        }
    }
}

} // verus!
