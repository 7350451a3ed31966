use recodeck_audio::analysis::{key_frame_start, plan_key, plan_tempo, tempo_hop_start, AnalysisError};

#[test]
fn test_bpm_detection_empty_audio() {
    let result = plan_tempo(0);
    assert!(result.is_err(), "Empty audio should return an error");
}

#[test]
fn test_key_detection_empty_audio() {
    let result = plan_key(0);
    assert!(result.is_err(), "Empty audio should return an error");
}

#[test]
fn test_key_detection_too_short_audio() {
    let result = plan_key(100);
    assert!(result.is_err(), "Too-short audio should return an error");
}

#[test]
fn empty_input_is_insufficient_data() {
    assert!(matches!(plan_tempo(0), Err(AnalysisError::InsufficientData { samples: 0, required: 1 })));
    assert!(matches!(
        plan_key(0),
        Err(AnalysisError::InsufficientData { samples: 0, required: 4096 })
    ));
    assert!(matches!(
        plan_key(4095),
        Err(AnalysisError::InsufficientData { samples: 4095, required: 4096 })
    ));
}

#[test]
fn tempo_hops_cover_whole_hops() {
    assert_eq!(plan_tempo(1).unwrap(), 0);
    assert_eq!(plan_tempo(44100 * 30).unwrap(), 2583);
    assert_eq!(tempo_hop_start(2582, 44100 * 30), 2582 * 512);
}

#[test]
fn key_frames_fit_the_input() {
    assert_eq!(plan_key(4096).unwrap(), 1);
    assert_eq!(plan_key(6143).unwrap(), 1);
    assert_eq!(plan_key(6144).unwrap(), 2);
    assert_eq!(plan_key(441_000).unwrap(), 214);
    assert_eq!(key_frame_start(213, 441_000), 213 * 2048);
}
