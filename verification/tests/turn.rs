use grill_mcp::engine::{AnswerStatus, ListenCfg, TurnStatus};
use grill_mcp::turn::{Action, AskTurn, Event, TurnPhase};

fn started(q: &str) -> AskTurn {
    let (turn, a) = AskTurn::start(q.to_string(), ListenCfg::default());
    assert_eq!(a, Action::Speak(q.to_string()));
    assert_eq!(turn.current_phase(), TurnPhase::Speaking);
    turn
}

fn reply(a: Action) -> grill_mcp::engine::Answer {
    match a {
        Action::ReplyAsk(ans) => ans,
        other => panic!("expected an answer, got {:?}", other),
    }
}

#[test]
fn answered_turn() {
    let mut t = started("What does success look like?");
    assert_eq!(t.resume(Event::Spoke(Ok(()))), Action::Listen(ListenCfg::default()));
    assert_eq!(t.resume(Event::Listened(Ok((TurnStatus::EndOfTurn, 2_345)))), Action::Transcribe);
    assert_eq!(t.current_phase(), TurnPhase::Transcribing { status: TurnStatus::EndOfTurn, duration_ms: 2_345 });
    let a = reply(t.resume(Event::Transcribed(Ok("shipping on time".to_string()))));
    assert!(t.is_finished());
    assert_eq!(a.transcript, "shipping on time");
    assert_eq!(a.status, AnswerStatus::Answered);
    assert_eq!(a.confidence_pct, 100);
    assert_eq!(a.duration_ms, 2_345);
    assert_eq!(a.detail, None);
}

#[test]
fn capped_answer_says_so() {
    let cfg = ListenCfg::with_overrides(None, Some(12_000));
    let (mut t, _) = AskTurn::start("q".to_string(), cfg);
    assert_eq!(t.resume(Event::Spoke(Ok(()))), Action::Listen(cfg));
    assert_eq!(t.resume(Event::Listened(Ok((TurnStatus::MaxAnswer, 12_030)))), Action::Transcribe);
    let a = reply(t.resume(Event::Transcribed(Ok("long answer".to_string()))));
    assert_eq!(a.status, AnswerStatus::Answered);
    assert_eq!(a.duration_ms, 12_030);
    assert_eq!(a.detail, Some("capped at max_answer_ms=12000".to_string()));
}

#[test]
fn no_speech_answer() {
    let mut t = started("q");
    t.resume(Event::Spoke(Ok(())));
    let a = reply(t.resume(Event::Listened(Ok((TurnStatus::NoSpeech, 8_010)))));
    assert!(t.is_finished());
    assert_eq!(a.transcript, "");
    assert_eq!(a.status, AnswerStatus::NoSpeech);
    assert_eq!(a.confidence_pct, 0);
    assert_eq!(a.duration_ms, 8_010);
    assert_eq!(a.detail, Some("no speech within 8000 ms".to_string()));
}

fn assert_error(a: grill_mcp::engine::Answer, msg: &str) {
    assert_eq!(a.transcript, "");
    assert_eq!(a.status, AnswerStatus::Error);
    assert_eq!(a.confidence_pct, 0);
    assert_eq!(a.duration_ms, 0);
    assert_eq!(a.detail, Some(msg.to_string()));
}

#[test]
fn speaking_failure_is_an_error_answer() {
    let mut t = started("q");
    assert_error(reply(t.resume(Event::Spoke(Err("synth failed: x".to_string())))), "synth failed: x");
    assert!(t.is_finished());
}

#[test]
fn listening_failure_is_an_error_answer() {
    let mut t = started("q");
    t.resume(Event::Spoke(Ok(())));
    assert_error(reply(t.resume(Event::Listened(Err("no input device".to_string())))), "no input device");
}

#[test]
fn transcription_failure_is_an_error_answer() {
    let mut t = started("q");
    t.resume(Event::Spoke(Ok(())));
    t.resume(Event::Listened(Ok((TurnStatus::EndOfTurn, 900))));
    assert_error(reply(t.resume(Event::Transcribed(Err("stt".to_string())))), "stt");
}

#[test]
fn turn_accepts_only_the_awaited_event() {
    let mut t = started("q");
    assert!(t.expects(&Event::Spoke(Ok(()))));
    assert!(!t.expects(&Event::Listened(Ok((TurnStatus::EndOfTurn, 1)))));
    assert!(!t.expects(&Event::Loaded(Ok(()))));
    t.resume(Event::Spoke(Ok(())));
    assert!(t.expects(&Event::Listened(Err(String::new()))));
    assert!(!t.expects(&Event::Transcribed(Ok(String::new()))));
}
