use recodeck_audio::stream::{
    clamp_seek, decoded_duration_ms, header_duration_ms, interleave_stereo, stereo_sources,
    DecodeAction, DecodeEvent, PacketAction, PacketEvent, StreamPhase, StreamState,
};

#[test]
fn stereo_channel_policy() {
    assert_eq!(stereo_sources(0), None);
    assert_eq!(stereo_sources(1), Some((0, 0)));
    assert_eq!(stereo_sources(2), Some((0, 1)));
    assert_eq!(stereo_sources(6), Some((0, 1)));
}

#[test]
fn mono_is_duplicated_into_both_channels() {
    let mono = [0.25f32, -0.5, 1.0];
    assert_eq!(interleave_stereo(&mono, &mono, 3), vec![0.25, 0.25, -0.5, -0.5, 1.0, 1.0]);
}

#[test]
fn first_two_channels_are_interleaved() {
    let left = [1i16, 2, 3, 4];
    let right = [5i16, 6, 7, 8];
    assert_eq!(interleave_stereo(&left, &right, 3), vec![1, 5, 2, 6, 3, 7]);
    assert!(interleave_stereo(&left, &right, 0).is_empty());
}

#[test]
fn durations_from_frame_counts() {
    assert_eq!(header_duration_ms(Some(441_000), 44100), 10_000);
    assert_eq!(header_duration_ms(None, 44100), 0);
    assert_eq!(header_duration_ms(Some(100), 0), 0);
    assert_eq!(header_duration_ms(Some(u64::MAX), 1), u64::MAX);
    assert_eq!(decoded_duration_ms(48_000 * 3 + 47, 48_000, 99), 3000);
    assert_eq!(decoded_duration_ms(1234, 0, 99), 99);
}

#[test]
fn seeks_stay_clear_of_the_end() {
    let t = clamp_seek(5_000, 10_000);
    assert_eq!((t.position_ms, t.seconds, t.millis), (5_000, 5, 0));
    let t = clamp_seek(9_950, 10_000);
    assert_eq!((t.position_ms, t.seconds, t.millis), (9_900, 9, 900));
    assert_eq!(clamp_seek(70, 80).position_ms, 0);
    assert_eq!(clamp_seek(123_456, 0).position_ms, 123_456);
    assert_eq!(clamp_seek(123_456, 0).millis, 456);
}

#[test]
fn stream_state_through_a_track() {
    let mut s = StreamState::new(3, 44100, 10_000);
    assert_eq!(s.phase, StreamPhase::Ready);
    assert_eq!(s.on_packet(PacketEvent::Packet { track_id: 4 }), PacketAction::Skip);
    assert_eq!(s.on_packet(PacketEvent::Packet { track_id: 3 }), PacketAction::Decode);
    assert_eq!(s.on_decode(DecodeEvent::Corrupted), DecodeAction::ResetAndContinue);
    assert_eq!(s.phase, StreamPhase::Ready);
    assert_eq!(s.on_decode(DecodeEvent::Decoded { position_ms: Some(26) }), DecodeAction::Emit);
    assert_eq!(s.phase, StreamPhase::Streaming);
    assert_eq!(s.position_ms, 26);
    assert_eq!(s.on_decode(DecodeEvent::Decoded { position_ms: None }), DecodeAction::Emit);
    assert_eq!(s.position_ms, 26);
    assert_eq!(s.on_decode(DecodeEvent::Failed), DecodeAction::Fail);
    assert_eq!(s.on_packet(PacketEvent::ReadFailed), PacketAction::Fail);
    assert_eq!(s.on_packet(PacketEvent::EndOfStream), PacketAction::EmitEnd);
    assert_eq!(s.phase, StreamPhase::Ended);
}

#[test]
fn stream_state_seeks() {
    let mut s = StreamState::new(1, 48000, 10_000);
    let t = s.begin_seek(20_000);
    assert_eq!(t.position_ms, 9_900);
    assert_eq!(s.phase, StreamPhase::Seeking { target_ms: 9_900 });
    s.finish_seek(true);
    assert_eq!(s.phase, StreamPhase::Streaming);
    assert_eq!(s.position_ms, 9_900);
    s.begin_seek(1_000);
    s.finish_seek(false);
    assert_eq!(s.position_ms, 9_900);
    assert_eq!(s.phase, StreamPhase::Streaming);
}
