use recodeck_audio::playback::{
    early_end_gap, next_generation, ChunkEvent, LoopAction, PlaybackLoop, PlaybackStatus,
};

#[test]
fn loop_stops_on_new_generation_or_pause() {
    let l = PlaybackLoop::new(7);
    assert!(l.should_continue(7, true));
    assert!(!l.should_continue(8, true));
    assert!(!l.should_continue(7, false));
}

#[test]
fn chunks_are_emitted_and_clear_errors() {
    let mut l = PlaybackLoop::new(0);
    assert_eq!(l.on_chunk(ChunkEvent::Failed), LoopAction::Retry { attempt: 1 });
    assert_eq!(
        l.on_chunk(ChunkEvent::Chunk { is_end: false, position_ms: 10, duration_ms: 100 }),
        LoopAction::Emit
    );
    assert_eq!(l.consecutive_errors, 0);
    assert_eq!(l.on_chunk(ChunkEvent::NoDecoder), LoopAction::Stop);
}

#[test]
fn twenty_failures_in_a_row_give_up() {
    let mut l = PlaybackLoop::new(0);
    for attempt in 1..20 {
        assert_eq!(l.on_chunk(ChunkEvent::Failed), LoopAction::Retry { attempt });
    }
    assert_eq!(l.on_chunk(ChunkEvent::Failed), LoopAction::GiveUp { attempt: 20 });
}

#[test]
fn end_of_track_reports_early_gap() {
    let mut l = PlaybackLoop::new(0);
    assert_eq!(
        l.on_chunk(ChunkEvent::Chunk { is_end: true, position_ms: 1_000, duration_ms: 60_000 }),
        LoopAction::Ended { early_gap_ms: Some(59_000) }
    );
    assert_eq!(
        l.on_chunk(ChunkEvent::Exhausted { position_ms: 59_000, duration_ms: 60_000 }),
        LoopAction::Ended { early_gap_ms: None }
    );
    assert_eq!(early_end_gap(0, 30_000), None);
    assert_eq!(early_end_gap(0, 30_001), Some(30_001));
    assert_eq!(early_end_gap(50, 10), None);
}

#[test]
fn generations_always_change() {
    assert_eq!(next_generation(0), 1);
    assert_eq!(next_generation(u64::MAX), 0);
}

#[test]
fn playback_status_holds_its_fields() {
    let s = PlaybackStatus { is_playing: true, track_id: Some(4), position_ms: 1, duration_ms: 2, sample_rate: 44100 };
    assert_eq!(s.clone(), s);
}
