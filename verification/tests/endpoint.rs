use grill_mcp::endpoint::Endpointer;
use grill_mcp::engine::{ListenCfg, TurnStatus};

fn cfg() -> ListenCfg {
    ListenCfg::default()
}

/// Feeds one frame, the way the capture loop does.
fn feed(e: &mut Endpointer, verdict: Option<bool>) {
    let available = (e.fed_frames() + 1) * 480;
    assert!(e.next_frame(available).is_some());
    e.observe_frame(available, verdict);
}

#[test]
fn end_frames_from_trailing_silence() {
    // 800 ms of silence takes 27 frames of 30 ms (26 frames are only 780 ms).
    assert_eq!(Endpointer::new(cfg()).end_frames(), 27);
    let at = |ms| Endpointer::new(ListenCfg { end_silence_ms: ms, ..cfg() }).end_frames();
    assert_eq!(at(0), 0);
    assert_eq!(at(1), 1);
    assert_eq!(at(29), 1);
    assert_eq!(at(30), 1);
    assert_eq!(at(31), 2);
    assert_eq!(at(300), 10);
    assert_eq!(at(u64::MAX), u64::MAX / 30 + 1);
    for ms in 0..2_000u64 {
        let n = at(ms);
        assert!(n * 30 >= ms);
        assert!(n == 0 || (n - 1) * 30 < ms);
    }
}

#[test]
fn frames_are_consecutive_windows() {
    let mut e = Endpointer::new(cfg());
    assert_eq!(e.next_frame(0), None);
    assert_eq!(e.next_frame(479), None);
    assert_eq!(e.next_frame(480), Some((0, 480)));
    assert_eq!(e.next_frame(5000), Some((0, 480)));
    e.observe_frame(5000, Some(false));
    assert_eq!(e.next_frame(5000), Some((480, 960)));
    assert_eq!(e.next_frame(959), None);
    assert_eq!(e.fed_frames(), 1);
}

#[test]
fn silence_before_speech_is_not_counted() {
    let mut e = Endpointer::new(cfg());
    for _ in 0..40 {
        feed(&mut e, Some(false));
    }
    assert!(!e.speech_started());
    assert_eq!(e.trailing_silence(), 0);
    assert_eq!(e.decide(1_000), None);
}

#[test]
fn speech_resets_trailing_silence() {
    let mut e = Endpointer::new(cfg());
    feed(&mut e, Some(true));
    feed(&mut e, Some(false));
    feed(&mut e, Some(false));
    assert!(e.speech_started());
    assert_eq!(e.trailing_silence(), 2);
    feed(&mut e, Some(true));
    assert_eq!(e.trailing_silence(), 0);
}

#[test]
fn failed_inference_counts_as_silence() {
    let mut e = Endpointer::new(cfg());
    feed(&mut e, None);
    assert!(!e.speech_started());
    feed(&mut e, Some(true));
    feed(&mut e, None);
    assert_eq!(e.trailing_silence(), 1);
}

#[test]
fn no_speech_after_initial_silence() {
    let e = Endpointer::new(cfg());
    assert_eq!(e.decide(7_999), None);
    assert_eq!(e.decide(8_000), Some(TurnStatus::NoSpeech));
}

#[test]
fn trailing_silence_ends_the_turn() {
    let mut e = Endpointer::new(cfg());
    feed(&mut e, Some(true));
    for _ in 0..26 {
        feed(&mut e, Some(false));
    }
    // 26 silent frames are 780 ms: not yet the configured 800 ms.
    assert_eq!(e.decide(500), None);
    feed(&mut e, Some(false));
    assert_eq!(e.decide(500), Some(TurnStatus::EndOfTurn));
    // Waiting longer keeps the verdict.
    assert_eq!(e.decide(40_000), Some(TurnStatus::EndOfTurn));
}

#[test]
fn speech_rules_out_no_speech() {
    let mut e = Endpointer::new(cfg());
    feed(&mut e, Some(true));
    assert_eq!(e.decide(9_000), None);
    for _ in 0..10 {
        feed(&mut e, Some(false));
    }
    assert_eq!(e.decide(20_000), None);
}

#[test]
fn hard_cap_ends_every_turn() {
    let mut e = Endpointer::new(cfg());
    feed(&mut e, Some(true));
    assert_eq!(e.decide(29_999), None);
    assert_eq!(e.decide(30_000), Some(TurnStatus::MaxAnswer));
    // With a cap below the initial timeout, silence also ends at the cap.
    let short = Endpointer::new(ListenCfg { end_silence_ms: 800, initial_silence_ms: 10_000, max_answer_ms: 5_000 });
    assert_eq!(short.decide(5_000), Some(TurnStatus::MaxAnswer));
    assert_eq!(short.decide(10_000), Some(TurnStatus::NoSpeech));
}

#[test]
fn short_trailing_silence_still_needs_a_silent_frame() {
    let mut e = Endpointer::new(ListenCfg { end_silence_ms: 20, ..cfg() });
    feed(&mut e, Some(true));
    assert_eq!(e.decide(0), None);
    feed(&mut e, Some(false));
    assert_eq!(e.decide(0), Some(TurnStatus::EndOfTurn));
}

#[test]
fn zero_trailing_silence_ends_on_speech() {
    let mut e = Endpointer::new(ListenCfg { end_silence_ms: 0, ..cfg() });
    assert_eq!(e.decide(0), None);
    feed(&mut e, Some(true));
    assert_eq!(e.decide(0), Some(TurnStatus::EndOfTurn));
}
