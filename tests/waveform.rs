use recodeck_audio::analysis::AnalysisError;
use recodeck_audio::waveform::{
    band_bins, fft_size_for_segment, plan_waveform, segment_bounds, BlobError, WaveformData,
    WaveformPoint,
};

fn point(peak: f32, low: u8, mid: u8, high: u8) -> WaveformPoint {
    WaveformPoint::new(peak.to_bits(), low, mid, high)
}

#[test]
fn test_waveform_serialization() {
    let data = WaveformData {
        points: vec![point(0.5, 100, 150, 200), point(0.8, 50, 100, 150)],
        sample_rate: 44100,
        duration_ms: 5000,
    };

    let blob = data.to_blob();
    let restored = WaveformData::from_blob(&blob).unwrap();

    assert_eq!(restored.sample_rate, 44100);
    assert_eq!(restored.duration_ms, 5000);
    assert_eq!(restored.points.len(), 2);
    assert_eq!(restored.points[0].low, 100);
    assert_eq!(restored.points[1].high, 150);
}

#[test]
fn blob_layout_is_bit_exact() {
    let data = WaveformData {
        points: vec![point(0.5, 1, 2, 3)],
        sample_rate: 44100,
        duration_ms: 0x0102030405060708,
    };
    let blob = data.to_blob();
    let mut expected = vec![1u8];
    expected.extend_from_slice(&44100u32.to_le_bytes());
    expected.extend_from_slice(&0x0102030405060708u64.to_le_bytes());
    expected.extend_from_slice(&1u32.to_le_bytes());
    expected.extend_from_slice(&0.5f32.to_le_bytes());
    expected.extend_from_slice(&[1, 2, 3]);
    assert_eq!(blob, expected);
    assert_eq!(blob.len(), 17 + 7);
}

#[test]
fn blob_round_trip_keeps_every_point() {
    let points: Vec<WaveformPoint> = (0..50u32)
        .map(|i| point(i as f32 / 50.0, i as u8, (i * 3) as u8, (255 - i) as u8))
        .collect();
    let data = WaveformData { points: points.clone(), sample_rate: 48000, duration_ms: 123_456 };
    let restored = WaveformData::from_blob(&data.to_blob()).unwrap();
    assert_eq!(restored.sample_rate, 48000);
    assert_eq!(restored.duration_ms, 123_456);
    assert_eq!(restored.points, points);
    assert_eq!(f32::from_bits(restored.points[25].peak_bits), 0.5);
}

#[test]
fn blob_without_points_round_trips() {
    let data = WaveformData { points: vec![], sample_rate: 8000, duration_ms: 1 };
    let blob = data.to_blob();
    assert_eq!(blob.len(), 17);
    let restored = WaveformData::from_blob(&blob).unwrap();
    assert!(restored.points.is_empty());
    assert_eq!(restored.sample_rate, 8000);
}

#[test]
fn blob_too_short_is_refused() {
    let r = WaveformData::from_blob(&[1u8, 2, 3]);
    assert_eq!(r.unwrap_err(), BlobError::TooShort { len: 3 });
    assert_eq!(WaveformData::from_blob(&[]).unwrap_err(), BlobError::TooShort { len: 0 });
}

#[test]
fn blob_unknown_version_is_refused() {
    let data = WaveformData { points: vec![point(0.1, 1, 1, 1)], sample_rate: 44100, duration_ms: 9 };
    let mut blob = data.to_blob();
    blob[0] = 2;
    assert_eq!(WaveformData::from_blob(&blob).unwrap_err(), BlobError::UnsupportedVersion { version: 2 });
}

#[test]
fn blob_with_wrong_length_is_refused() {
    let data = WaveformData { points: vec![point(0.1, 1, 1, 1)], sample_rate: 44100, duration_ms: 9 };
    let mut blob = data.to_blob();
    blob.push(0);
    assert_eq!(
        WaveformData::from_blob(&blob).unwrap_err(),
        BlobError::LengthMismatch { expected: 24, actual: 25 }
    );
    blob.truncate(23);
    assert_eq!(
        WaveformData::from_blob(&blob).unwrap_err(),
        BlobError::LengthMismatch { expected: 24, actual: 23 }
    );
}

#[test]
fn plan_shares_samples_over_points() {
    let l = plan_waveform(10_000, 100).unwrap();
    assert_eq!(l.samples_per_point, 100);
    assert_eq!(l.point_count, 100);
    assert_eq!(l.fft_size, 128);
    assert_eq!(segment_bounds(&l, 99, 10_000), (9_900, 10_000));
}

#[test]
fn plan_with_fewer_samples_than_points() {
    let l = plan_waveform(7, 10).unwrap();
    assert_eq!(l.samples_per_point, 1);
    assert_eq!(l.point_count, 7);
    assert_eq!(l.fft_size, 1);
}

#[test]
fn plan_drops_the_partial_tail() {
    let l = plan_waveform(1_000_003, 1000).unwrap();
    assert_eq!(l.samples_per_point, 1000);
    assert_eq!(l.point_count, 1000);
    assert_eq!(l.fft_size, 1024);
    assert_eq!(segment_bounds(&l, 3, 1_000_003), (3000, 4000));
}

#[test]
fn plan_of_empty_audio_is_refused() {
    assert!(matches!(
        plan_waveform(0, 2000),
        Err(AnalysisError::InsufficientData { samples: 0, required: 1 })
    ));
}

#[test]
fn plan_without_points_asked() {
    let l = plan_waveform(500, 0).unwrap();
    assert_eq!(l.point_count, 0);
}

#[test]
fn fft_size_is_capped() {
    assert_eq!(fft_size_for_segment(0), 1);
    assert_eq!(fft_size_for_segment(1), 1);
    assert_eq!(fft_size_for_segment(3), 4);
    assert_eq!(fft_size_for_segment(1024), 1024);
    assert_eq!(fft_size_for_segment(1025), 2048);
    assert_eq!(fft_size_for_segment(100_000), 2048);
}

#[test]
fn band_bins_at_cd_rate() {
    let b = band_bins(2048, 44100);
    assert_eq!(b.low_start, 0);
    assert_eq!(b.low_end, 11);
    assert_eq!(b.mid_end, 185);
    assert_eq!(b.high_end, 743);
}

#[test]
fn band_bins_are_cut_at_half_spectrum() {
    let b = band_bins(1024, 8000);
    assert_eq!(b.low_start, 2);
    assert_eq!(b.low_end, 32);
    assert_eq!(b.mid_end, 512);
    assert_eq!(b.high_end, 512);
    let z = band_bins(64, 0);
    assert_eq!((z.low_start, z.low_end, z.mid_end, z.high_end), (32, 32, 32, 32));
}
