use grill_mcp::engine::{
    artifact_paths, candidate_voices, check_artifacts, default_voice, model_path, models_dir,
    stream_choices, Answer, AnswerStatus, ListenCfg, StreamChoice, KOKORO_MODEL, PARAKEET_DIR,
};
use grill_mcp::text::push_decimal;

#[test]
fn answer_status_wire_names() {
    assert_eq!(AnswerStatus::Answered.as_str(), "answered");
    assert_eq!(AnswerStatus::NoSpeech.as_str(), "no_speech");
    assert_eq!(AnswerStatus::Error.as_str(), "error");
}

#[test]
fn answer_status_names_are_distinct() {
    let all = [AnswerStatus::Answered, AnswerStatus::NoSpeech, AnswerStatus::Error];
    for a in all.iter() {
        for b in all.iter() {
            assert_eq!(a.as_str() == b.as_str(), a == b);
        }
    }
}

#[test]
fn listen_cfg_defaults() {
    let cfg = ListenCfg::default();
    assert_eq!(cfg.end_silence_ms, 800);
    assert_eq!(cfg.initial_silence_ms, 8_000);
    assert_eq!(cfg.max_answer_ms, 30_000);
}

#[test]
fn overrides_replace_only_what_is_given() {
    assert_eq!(ListenCfg::with_overrides(None, None), ListenCfg::default());
    let cfg = ListenCfg::with_overrides(Some(2_000), None);
    assert_eq!(cfg, ListenCfg { end_silence_ms: 800, initial_silence_ms: 2_000, max_answer_ms: 30_000 });
    let cfg = ListenCfg::with_overrides(None, Some(5_000));
    assert_eq!(cfg, ListenCfg { end_silence_ms: 800, initial_silence_ms: 8_000, max_answer_ms: 5_000 });
    let cfg = ListenCfg::with_overrides(Some(0), Some(1));
    assert_eq!(cfg, ListenCfg { end_silence_ms: 800, initial_silence_ms: 0, max_answer_ms: 1 });
}

#[test]
fn candidate_voice_list() {
    assert_eq!(
        candidate_voices(),
        vec![
            "af_heart", "af_bella", "af_nicole", "af_aoede", "am_michael", "am_puck", "am_fenrir",
            "bf_emma", "bm_george",
        ]
    );
}

#[test]
fn voice_falls_back_to_af_heart() {
    assert_eq!(default_voice(None), "af_heart");
    assert_eq!(default_voice(Some("bm_george".to_string())), "bm_george");
}

#[test]
fn models_dir_falls_back_to_models() {
    assert_eq!(models_dir(None), "models");
    assert_eq!(models_dir(Some("/opt/weights".to_string())), "/opt/weights");
}

#[test]
fn model_paths_join_like_the_file_system() {
    assert_eq!(model_path("models", KOKORO_MODEL), "models/kokoro-v1.0.onnx");
    assert_eq!(model_path("/opt/w/", PARAKEET_DIR), "/opt/w/parakeet-tdt-0.6b-v3-int8");
    assert_eq!(model_path("", "a.bin"), "a.bin");
    assert_eq!(model_path("models", "/abs/a.bin"), "/abs/a.bin");
    let expected: std::path::PathBuf = std::path::Path::new("some/dir").join("x.onnx");
    assert_eq!(model_path("some/dir", "x.onnx"), expected.to_str().unwrap());
}

#[test]
fn artifact_paths_cover_every_model() {
    assert_eq!(
        artifact_paths("m"),
        vec![
            "m/kokoro-v1.0.onnx".to_string(),
            "m/voices-v1.0.bin".to_string(),
            "m/parakeet-tdt-0.6b-v3-int8".to_string(),
            "m/silero_vad_v4.onnx".to_string(),
        ]
    );
}

#[test]
fn artifacts_present_pass_the_check() {
    let paths = artifact_paths("models");
    assert_eq!(check_artifacts(&paths, &vec![true, true, true, true]), Ok(()));
}

#[test]
fn first_missing_artifact_is_reported() {
    let paths = artifact_paths("models");
    assert_eq!(
        check_artifacts(&paths, &vec![true, false, true, false]),
        Err("missing model artifact: models/voices-v1.0.bin (set GRILL_MODELS_DIR or run the model download first)"
            .to_string())
    );
    assert_eq!(
        check_artifacts(&paths, &vec![false, false, false, false]),
        Err("missing model artifact: models/kokoro-v1.0.onnx (set GRILL_MODELS_DIR or run the model download first)"
            .to_string())
    );
}

#[test]
fn capture_configurations_in_order() {
    let mut expected: Vec<StreamChoice> = Vec::new();
    for r in [48_000u32, 44_100, 16_000] {
        for c in [1u16, 2] {
            expected.push(StreamChoice { sample_rate: r, channels: c });
        }
    }
    assert_eq!(stream_choices(), expected);
}

#[test]
fn error_answer_shape() {
    let a = Answer::error("boom".to_string());
    assert_eq!(a.transcript, "");
    assert_eq!(a.status, AnswerStatus::Error);
    assert_eq!(a.confidence_pct, 0);
    assert_eq!(a.duration_ms, 0);
    assert_eq!(a.detail, Some("boom".to_string()));
}

#[test]
fn decimal_rendering() {
    for n in [0u64, 7, 10, 800, 8_000, 30_000, 1_234_567, u64::MAX] {
        let mut s = String::from("x=");
        push_decimal(&mut s, n);
        assert_eq!(s, format!("x={}", n));
    }
}
