//! One question-and-answer turn: speak the question, listen for the answer,
//! transcribe it. The turn never fails: every failure comes back as an
//! answer with the error status, so the caller never hangs.
//!
//! The caller performs each action and reports its outcome as an event.

use vstd::prelude::*;
use crate::engine::{Answer, AnswerStatus, ListenCfg, TurnStatus};
use crate::text::{decimal, push_decimal};

verus! {

/// What the caller reports back after performing an action.
#[derive(Debug, PartialEq, Eq)]
pub enum Event {
    /// The voice models were loaded, or the error that stopped it.
    Loaded(Result<(), String>),
    /// A line was spoken, or the error that stopped it.
    Spoke(Result<(), String>),
    /// A listening leg ended: how, and the length of the captured audio in ms;
    /// or the error that stopped it.
    Listened(Result<(TurnStatus, u64), String>),
    /// The captured answer was transcribed to this text, or the error that stopped it.
    Transcribed(Result<String, String>),
}

/// What the caller is to do next.
#[derive(Debug, PartialEq, Eq)]
pub enum Action {
    /// Load the voice models.
    Load,
    /// Synthesize and play this text.
    Speak(String),
    /// Capture the microphone until the turn ends, with this configuration.
    Listen(ListenCfg),
    /// Transcribe the audio captured by the last listening leg.
    Transcribe,
    /// Answer a `begin` request: whether an opening line was spoken, or the error.
    ReplyBegin(Result<bool, String>),
    /// Answer an `ask` request.
    ReplyAsk(Answer),
    /// Acknowledge an `end` request.
    ReplyEnd,
}

/// The detail of an answer that never started: `no speech within N ms`.
pub open spec fn no_speech_detail(initial_silence_ms: u64) -> Seq<char> {
    "no speech within "@ + decimal(initial_silence_ms as nat) + " ms"@
}

/// The detail of an answer cut at the hard cap: `capped at max_answer_ms=N`.
pub open spec fn capped_detail(max_answer_ms: u64) -> Seq<char> {
    "capped at max_answer_ms="@ + decimal(max_answer_ms as nat)
}

/// The answer reported when nobody spoke: no transcript, the captured length, and why.
pub open spec fn is_no_speech_answer(a: Answer, duration_ms: u64, cfg: ListenCfg) -> bool {
    &&& a.transcript@ == Seq::<char>::empty()
    &&& a.status == AnswerStatus::NoSpeech
    &&& a.confidence_pct == 0
    &&& a.duration_ms == duration_ms
    &&& a.detail matches Some(d) && d@ == no_speech_detail(cfg.initial_silence_ms)
}

/// The answer reported for a transcribed turn: the transcript, the captured length,
/// and a detail only where the hard cap cut the answer.
pub open spec fn is_transcribed_answer(
    a: Answer,
    transcript: Seq<char>,
    ended: TurnStatus,
    duration_ms: u64,
    cfg: ListenCfg,
) -> bool {
    &&& a.transcript@ == transcript
    &&& a.status == AnswerStatus::Answered
    &&& a.confidence_pct == 100
    &&& a.duration_ms == duration_ms
    &&& if ended == TurnStatus::MaxAnswer {
        a.detail matches Some(d) && d@ == capped_detail(cfg.max_answer_ms)
    } else {
        a.detail is None
    }
}

/// Where a turn stands.
#[derive(Clone, Copy, Debug, PartialEq, Eq, Structural)]
pub enum TurnPhase {
    /// The question is being spoken.
    Speaking,
    /// The answer is being captured.
    Listening,
    /// The captured answer, which ended as `status` after `duration_ms`, is being transcribed.
    Transcribing { status: TurnStatus, duration_ms: u64 },
    /// The answer has been handed out.
    Finished,
}

/// Whether `phase` waits for the event `ev`.
pub open spec fn turn_expects(phase: TurnPhase, ev: Event) -> bool {
    match phase {
        TurnPhase::Speaking => ev is Spoke,
        TurnPhase::Listening => ev is Listened,
        TurnPhase::Transcribing { .. } => ev is Transcribed,
        TurnPhase::Finished => false,
    }
}

/// One step of a turn: from `before`, the event `ev` leads to `after` and the action `a`.
/// A failure at any step ends the turn with an error answer; nobody speaking ends it
/// with a no-speech answer; otherwise the captured answer is transcribed and handed out.
pub open spec fn turn_step(before: AskTurn, ev: Event, after: AskTurn, a: Action) -> bool {
    &&& after.config() == before.config()
    &&& match ev {
        Event::Spoke(Ok(_)) => {
            &&& after.phase() == TurnPhase::Listening
            &&& a == Action::Listen(before.config())
        },
        Event::Listened(Ok((status, duration_ms))) => if status == TurnStatus::NoSpeech {
            &&& after.phase() == TurnPhase::Finished
            &&& a matches Action::ReplyAsk(ans) && is_no_speech_answer(
                ans,
                duration_ms,
                before.config(),
            )
        } else {
            &&& after.phase() == TurnPhase::Transcribing { status, duration_ms }
            &&& a == Action::Transcribe
        },
        Event::Transcribed(Ok(text)) => {
            &&& after.phase() == TurnPhase::Finished
            &&& a matches Action::ReplyAsk(ans) && before.phase() matches TurnPhase::Transcribing { status, duration_ms }
                && is_transcribed_answer(ans, text@, status, duration_ms, before.config())
        },
        Event::Spoke(Err(e)) | Event::Listened(Err(e)) | Event::Transcribed(Err(e)) => {
            &&& after.phase() == TurnPhase::Finished
            &&& a matches Action::ReplyAsk(ans) && ans.is_error_with(e@)
        },
        Event::Loaded(_) => false,
    }
}

/// The number of outcomes a turn in `phase` still waits for, at most.
pub open spec fn steps_left(phase: TurnPhase) -> nat {
    match phase {
        TurnPhase::Speaking => 3,
        TurnPhase::Listening => 2,
        TurnPhase::Transcribing { .. } => 1,
        TurnPhase::Finished => 0,
    }
}

/// Every step brings a turn closer to its answer, and a turn that has handed out its
/// answer waits for nothing: an `ask` is answered after at most three outcomes,
/// so the caller never hangs on the turn itself.
pub proof fn lemma_turn_progresses(before: AskTurn, ev: Event, after: AskTurn, a: Action)
    requires
        turn_expects(before.phase(), ev),
        turn_step(before, ev, after, a),
    ensures
        steps_left(after.phase()) < steps_left(before.phase()),
        after.phase() == TurnPhase::Finished <==> a is ReplyAsk,
        steps_left(after.phase()) == 0 <==> after.phase() == TurnPhase::Finished,
{
}

/// What each step of a turn gives, stated outright: a failed step answers at once
/// with the error status, no transcript, no duration and the error as detail; a
/// spoken question is followed by listening with the turn's configuration; nobody
/// speaking answers "no speech" with the captured length and no transcript; any other
/// end of listening asks for a transcription and answers nothing yet; a transcription
/// answers "answered" with that text and the captured length, with a detail exactly
/// when the hard cap cut the answer.
pub proof fn lemma_turn_answers(before: AskTurn, ev: Event, after: AskTurn, a: Action)
    requires
        turn_expects(before.phase(), ev),
        turn_step(before, ev, after, a),
    ensures
        match ev {
            Event::Spoke(Err(e)) | Event::Listened(Err(e)) | Event::Transcribed(Err(e)) => {
                &&& a matches Action::ReplyAsk(ans)
                &&& ans.status == AnswerStatus::Error
                &&& ans.transcript@.len() == 0
                &&& ans.duration_ms == 0
                &&& ans.detail matches Some(d)
                &&& d@ == e@
            },
            Event::Spoke(Ok(_)) => a == Action::Listen(before.config()),
            Event::Listened(Ok((status, duration_ms))) => if status == TurnStatus::NoSpeech {
                &&& a matches Action::ReplyAsk(ans)
                &&& ans.status == AnswerStatus::NoSpeech
                &&& ans.transcript@.len() == 0
                &&& ans.duration_ms == duration_ms
                &&& ans.detail is Some
            } else {
                a == Action::Transcribe
            },
            Event::Transcribed(Ok(text)) => {
                &&& a matches Action::ReplyAsk(ans)
                &&& ans.status == AnswerStatus::Answered
                &&& ans.transcript@ == text@
                &&& before.phase() matches TurnPhase::Transcribing { status, duration_ms }
                &&& ans.duration_ms == duration_ms
                &&& (ans.detail is Some <==> status == TurnStatus::MaxAnswer)
            },
            Event::Loaded(_) => false,
        },
{
}

/// One `ask` turn in progress.
#[derive(Debug)]
pub struct AskTurn {
    cfg: ListenCfg,
    phase: TurnPhase,
}

fn no_speech_text(initial_silence_ms: u64) -> (s: String)
    ensures
        s@ == no_speech_detail(initial_silence_ms),
{
    let mut s = String::from_str("no speech within ");
    push_decimal(&mut s, initial_silence_ms);
    s.append(" ms");
    s
}

fn capped_text(max_answer_ms: u64) -> (s: String)
    ensures
        s@ == capped_detail(max_answer_ms),
{
    let mut s = String::from_str("capped at max_answer_ms=");
    push_decimal(&mut s, max_answer_ms);
    s
}

impl AskTurn {
    pub closed spec fn config(self) -> ListenCfg {
        self.cfg
    }

    pub closed spec fn phase(self) -> TurnPhase {
        self.phase
    }

    /// Starts a turn: the question is spoken first.
    pub fn start(question: String, cfg: ListenCfg) -> (r: (AskTurn, Action))
        ensures
            r.0.config() == cfg,
            r.0.phase() == TurnPhase::Speaking,
            r.1 matches Action::Speak(q) && q@ == question@,
    {
        (AskTurn { cfg, phase: TurnPhase::Speaking }, Action::Speak(question))
    }

    /// Where the turn stands.
    pub fn current_phase(&self) -> (p: TurnPhase)
        ensures
            p == self.phase(),
    {
        self.phase
    }

    /// Whether the answer has been handed out.
    pub fn is_finished(&self) -> (b: bool)
        ensures
            b == (self.phase() == TurnPhase::Finished),
    {
        match self.phase {
            TurnPhase::Finished => true,
            _ => false,
        }
    }

    /// Whether the turn waits for the event `ev`.
    pub fn expects(&self, ev: &Event) -> (b: bool)
        ensures
            b == turn_expects(self.phase(), *ev),
    {
        match (self.phase, ev) {
            (TurnPhase::Speaking, Event::Spoke(_)) => true,
            (TurnPhase::Listening, Event::Listened(_)) => true,
            (TurnPhase::Transcribing { .. }, Event::Transcribed(_)) => true,
            _ => false,
        }
    }

    /// Takes the outcome of the last action and says what to do next. A failure
    /// at any step ends the turn with an error answer; nobody speaking ends it with
    /// a no-speech answer; otherwise the captured answer is transcribed and handed out.
    pub fn resume(&mut self, ev: Event) -> (a: Action)
        requires
            turn_expects(old(self).phase(), ev),
        ensures
            turn_step(*old(self), ev, *final(self), a),
    {
        match ev {
            Event::Spoke(Ok(_)) => {
                self.phase = TurnPhase::Listening;
                Action::Listen(self.cfg)
            },
            Event::Listened(Ok((status, duration_ms))) => {
                match status {
                    TurnStatus::NoSpeech => {
                        self.phase = TurnPhase::Finished;
                        Action::ReplyAsk(
                            Answer {
                                transcript: String::new(),
                                status: AnswerStatus::NoSpeech,
                                confidence_pct: 0,
                                duration_ms,
                                detail: Some(no_speech_text(self.cfg.initial_silence_ms)),
                            },
                        )
                    },
                    _ => {
                        self.phase = TurnPhase::Transcribing { status, duration_ms };
                        Action::Transcribe
                    },
                }
            },
            Event::Transcribed(Ok(text)) => {
                let (status, duration_ms) = match self.phase {
                    TurnPhase::Transcribing { status, duration_ms } => (status, duration_ms),
                    _ => { proof { assert(false); } (TurnStatus::EndOfTurn, 0) },
                };
                let detail = match status {
                    TurnStatus::MaxAnswer => Some(capped_text(self.cfg.max_answer_ms)),
                    _ => None,
                };
                self.phase = TurnPhase::Finished;
                Action::ReplyAsk(
                    Answer {
                        transcript: text,
                        status: AnswerStatus::Answered,
                        confidence_pct: 100,
                        duration_ms,
                        detail,
                    },
                )
            },
            Event::Spoke(Err(e)) | Event::Listened(Err(e)) | Event::Transcribed(Err(e)) => {
                self.phase = TurnPhase::Finished;
                Action::ReplyAsk(Answer::error(e))
            },
            Event::Loaded(_) => {
                proof { assert(false); }
                Action::ReplyEnd
            },
        }
    }
}

} // verus!
