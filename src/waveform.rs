//! The multi-band waveform: its points, its binary encoding, and the layout
//! of the segments and frequency bands that a waveform is computed over.
use vstd::prelude::*;
use crate::analysis::AnalysisError;
use crate::bytes::{
    u32_le, u64_le, read_u32_le, read_u64_le, push_u32_le, push_u64_le, get_u32_le, get_u64_le,
    lemma_u32_le_round_trip, lemma_u64_le_round_trip,
};

verus! {

/// Format version written in the first byte of an encoded waveform.
pub const BLOB_VERSION: u8 = 1;

/// Length of the fixed header of an encoded waveform.
pub const BLOB_HEADER_LEN: usize = 17;

/// Length of one encoded point.
pub const BLOB_POINT_LEN: usize = 7;

/// One point of a waveform: the peak amplitude of its segment and the
/// compressed energy of three frequency bands (bass, mid, treble).
///
/// The peak is an IEEE-754 single-precision value in [0, 1], held as its bit
/// pattern so that it is stored and restored exactly.
#[derive(Clone, Copy, Debug, PartialEq, Eq, Structural)]
pub struct WaveformPoint {
    pub peak_bits: u32,
    pub low: u8,
    pub mid: u8,
    pub high: u8,
}

impl WaveformPoint {
    pub fn new(peak_bits: u32, low: u8, mid: u8, high: u8) -> (r: WaveformPoint)
        ensures
            r == (WaveformPoint { peak_bits, low, mid, high }),
    {
        WaveformPoint { peak_bits, low, mid, high }
    }
}

/// A waveform: its points in track order, and the sample rate and duration of
/// the audio it was computed from.
#[derive(Clone, Debug)]
pub struct WaveformData {
    pub points: Vec<WaveformPoint>,
    pub sample_rate: u32,
    pub duration_ms: u64,
}

/// The mathematical value of a `WaveformData`.
pub struct WaveformModel {
    pub points: Seq<WaveformPoint>,
    pub sample_rate: u32,
    pub duration_ms: u64,
}

impl View for WaveformData {
    type V = WaveformModel;

    open spec fn view(&self) -> WaveformModel {
        WaveformModel {
            points: self.points@,
            sample_rate: self.sample_rate,
            duration_ms: self.duration_ms,
        }
    }
}

/// Why an encoded waveform was refused.
#[derive(Clone, Copy, Debug, PartialEq, Eq, Structural)]
pub enum BlobError {
    /// Shorter than the header.
    TooShort { len: usize },
    /// The first byte names a version other than `BLOB_VERSION`.
    UnsupportedVersion { version: u8 },
    /// The length is not the header plus seven bytes per announced point.
    LengthMismatch { expected: u64, actual: usize },
}

/// The seven bytes of one point: the peak's bits, little-endian, then the
/// three band values.
pub open spec fn point_bytes(p: WaveformPoint) -> Seq<u8> {
    u32_le(p.peak_bits) + seq![p.low, p.mid, p.high]
}

/// The bytes of a sequence of points, one after the other.
pub open spec fn points_bytes(ps: Seq<WaveformPoint>) -> Seq<u8>
    decreases ps.len(),
{
    if ps.len() == 0 {
        Seq::empty()
    } else {
        points_bytes(ps.drop_last()) + point_bytes(ps.last())
    }
}

/// The header: version, sample rate, duration, point count.
pub open spec fn blob_header(sample_rate: u32, duration_ms: u64, count: u32) -> Seq<u8> {
    seq![BLOB_VERSION] + u32_le(sample_rate) + u64_le(duration_ms) + u32_le(count)
}

/// The binary encoding of a waveform.
pub open spec fn encode_waveform(m: WaveformModel) -> Seq<u8> {
    blob_header(m.sample_rate, m.duration_ms, m.points.len() as u32) + points_bytes(m.points)
}

/// The point count announced by an encoded waveform's header.
pub open spec fn blob_point_count(b: Seq<u8>) -> u32 {
    read_u32_le(b, 13)
}

/// The point whose seven bytes start at `at`.
pub open spec fn point_at(b: Seq<u8>, at: int) -> WaveformPoint {
    WaveformPoint {
        peak_bits: read_u32_le(b, at),
        low: b[at + 4],
        mid: b[at + 5],
        high: b[at + 6],
    }
}

/// Whether `b` is a well-formed encoded waveform: a full header of the known
/// version, followed by exactly the announced number of points.
pub open spec fn blob_well_formed(b: Seq<u8>) -> bool {
    &&& b.len() >= 17
    &&& b[0] == BLOB_VERSION
    &&& b.len() == 17 + 7 * blob_point_count(b)
}

/// The waveform that the bytes `b` encode, if they encode one.
pub open spec fn decode_waveform(b: Seq<u8>) -> Option<WaveformModel> {
    if blob_well_formed(b) {
        Some(
            WaveformModel {
                points: Seq::new(blob_point_count(b) as nat, |i: int| point_at(b, 17 + 7 * i)),
                sample_rate: read_u32_le(b, 1),
                duration_ms: read_u64_le(b, 5),
            },
        )
    } else {
        None
    }
}

proof fn lemma_points_bytes_len(ps: Seq<WaveformPoint>)
    ensures
        points_bytes(ps).len() == 7 * ps.len(),
    decreases ps.len(),
{
    if ps.len() > 0 {
        lemma_points_bytes_len(ps.drop_last());
    }
}

proof fn lemma_points_bytes_at(ps: Seq<WaveformPoint>, i: int)
    requires
        0 <= i < ps.len(),
    ensures
        points_bytes(ps).subrange(7 * i, 7 * i + 7) == point_bytes(ps[i]),
    decreases ps.len(),
{
    let init = ps.drop_last();
    lemma_points_bytes_len(init);
    lemma_points_bytes_len(ps);
    if i < ps.len() - 1 {
        lemma_points_bytes_at(init, i);
        assert(points_bytes(ps).subrange(7 * i, 7 * i + 7) =~= points_bytes(init).subrange(
            7 * i,
            7 * i + 7,
        ));
    } else {
        assert(points_bytes(ps).subrange(7 * i, 7 * i + 7) =~= point_bytes(ps.last()));
    }
}

/// Decoding the encoding of a waveform gives back the same sample rate,
/// duration and points, for every waveform whose point count fits the
/// header's 32-bit field.
pub proof fn lemma_waveform_blob_round_trip(m: WaveformModel)
    requires
        m.points.len() <= u32::MAX,
    ensures
        decode_waveform(encode_waveform(m)) == Some(m),
{
    let b = encode_waveform(m);
    let n = m.points.len();
    lemma_points_bytes_len(m.points);
    assert(b.len() == 17 + 7 * n);
    assert(b.subrange(1, 5) =~= u32_le(m.sample_rate));
    lemma_u32_le_round_trip(m.sample_rate, b, 1);
    assert(b.subrange(5, 13) =~= u64_le(m.duration_ms));
    lemma_u64_le_round_trip(m.duration_ms, b, 5);
    assert(b.subrange(13, 17) =~= u32_le(n as u32));
    lemma_u32_le_round_trip(n as u32, b, 13);
    assert(blob_well_formed(b));
    let pts = Seq::new(n as nat, |i: int| point_at(b, 17 + 7 * i));
    assert forall|i: int| 0 <= i < n implies pts[i] == m.points[i] by {
        lemma_points_bytes_at(m.points, i);
        let p = m.points[i];
        let pb = points_bytes(m.points);
        assert(b.subrange(17 + 7 * i, 17 + 7 * i + 7) =~= pb.subrange(7 * i, 7 * i + 7));
        assert(b.subrange(17 + 7 * i, 17 + 7 * i + 4) =~= u32_le(p.peak_bits));
        lemma_u32_le_round_trip(p.peak_bits, b, 17 + 7 * i);
        assert(b[17 + 7 * i + 4] == point_bytes(p)[4]);
        assert(b[17 + 7 * i + 5] == point_bytes(p)[5]);
        assert(b[17 + 7 * i + 6] == point_bytes(p)[6]);
    }
    assert(pts =~= m.points);
}

impl WaveformData {
    /// Encodes the waveform: the version byte, the sample rate (4 bytes), the
    /// duration in milliseconds (8 bytes) and the point count (4 bytes), all
    /// little-endian, then seven bytes per point.
    pub fn to_blob(&self) -> (r: Vec<u8>)
        requires
            self.points@.len() <= u32::MAX,
        ensures
            r@ == encode_waveform(self@),
            r@.len() == 17 + 7 * self.points@.len(),
    {
        let n = self.points.len();
        let mut blob: Vec<u8> = Vec::new();
        blob.push(BLOB_VERSION);
        push_u32_le(&mut blob, self.sample_rate);
        push_u64_le(&mut blob, self.duration_ms);
        push_u32_le(&mut blob, n as u32);
        let ghost header = blob_header(self.sample_rate, self.duration_ms, n as u32);
        assert(blob@ =~= header + points_bytes(self.points@.take(0)));
        let mut i: usize = 0;
        while i < n
            invariant
                i <= n,
                n == self.points@.len(),
                blob@ == header + points_bytes(self.points@.take(i as int)),
            decreases n - i,
        {
            let p = self.points[i];
            let ghost before = blob@;
            push_u32_le(&mut blob, p.peak_bits);
            blob.push(p.low);
            blob.push(p.mid);
            blob.push(p.high);
            proof {
                let ps = self.points@.take(i as int + 1);
                assert(ps.drop_last() =~= self.points@.take(i as int));
                assert(ps.last() == p);
                assert(blob@ =~= header + points_bytes(ps));
            }
            i += 1;
        }
        proof {
            assert(self.points@.take(n as int) =~= self.points@);
            lemma_points_bytes_len(self.points@);
        }
        blob
    }

    /// Decodes an encoded waveform. It is refused when it is shorter than the
    /// header, names another version, or does not hold exactly the announced
    /// number of points.
    pub fn from_blob(blob: &[u8]) -> (r: Result<WaveformData, BlobError>)
        ensures
            r is Ok <==> blob_well_formed(blob@),
            match r {
                Ok(d) => decode_waveform(blob@) == Some(d@),
                Err(BlobError::TooShort { len }) => blob@.len() < 17 && len == blob@.len(),
                Err(BlobError::UnsupportedVersion { version }) => {
                    &&& blob@.len() >= 17
                    &&& blob@[0] != BLOB_VERSION
                    &&& version == blob@[0]
                },
                Err(BlobError::LengthMismatch { expected, actual }) => {
                    &&& blob@.len() >= 17
                    &&& blob@[0] == BLOB_VERSION
                    &&& expected == 17 + 7 * blob_point_count(blob@)
                    &&& actual == blob@.len()
                    &&& actual != expected
                },
            },
    {
        if blob.len() < BLOB_HEADER_LEN {
            return Err(BlobError::TooShort { len: blob.len() });
        }
        let version = blob[0];
        if version != BLOB_VERSION {
            return Err(BlobError::UnsupportedVersion { version });
        }
        let sample_rate = get_u32_le(blob, 1);
        let duration_ms = get_u64_le(blob, 5);
        let count = get_u32_le(blob, 13);
        let expected: u64 = 17 + 7 * (count as u64);
        if blob.len() as u64 != expected {
            return Err(BlobError::LengthMismatch { expected, actual: blob.len() });
        }
        assert(blob@.len() == 17 + 7 * count && blob@.len() == blob.len());
        let count = count as usize;
        let ghost pts = Seq::new(count as nat, |i: int| point_at(blob@, 17 + 7 * i));
        let mut points: Vec<WaveformPoint> = Vec::new();
        let mut i: usize = 0;
        let mut offset: usize = BLOB_HEADER_LEN;
        while i < count
            invariant
                i <= count,
                count == blob_point_count(blob@),
                blob@.len() == 17 + 7 * count,
                blob@.len() <= usize::MAX,
                offset == 17 + 7 * i,
                pts.len() == count,
                forall|j: int| 0 <= j < count ==> pts[j] == point_at(blob@, 17 + 7 * j),
                points@ == pts.take(i as int),
            decreases count - i,
        {
            let peak_bits = get_u32_le(blob, offset);
            let p = WaveformPoint {
                peak_bits,
                low: blob[offset + 4],
                mid: blob[offset + 5],
                high: blob[offset + 6],
            };
            assert(p == pts[i as int]);
            points.push(p);
            proof {
                assert(points@ =~= pts.take(i as int + 1));
            }
            i += 1;
            offset += BLOB_POINT_LEN;
        }
        proof {
            assert(pts.take(count as int) =~= pts);
        }
        Ok(WaveformData { points, sample_rate, duration_ms })
    }
}

/// Most samples that one point's spectrum is taken over.
pub const MAX_FFT_SIZE: usize = 2048;

/// Lower edge of the bass band, in Hz.
pub const LOW_BAND_START_HZ: u64 = 20;

/// Edge between the bass and mid bands, in Hz.
pub const LOW_BAND_END_HZ: u64 = 250;

/// Edge between the mid and treble bands, in Hz.
pub const MID_BAND_END_HZ: u64 = 4000;

/// Upper edge of the treble band, in Hz.
pub const HIGH_BAND_END_HZ: u64 = 16000;

/// How a buffer of samples is cut into waveform segments: each point covers
/// `samples_per_point` consecutive samples, and its spectrum is taken over
/// `fft_size` samples (the segment, zero-padded or cut).
#[derive(Clone, Copy, Debug, PartialEq, Eq, Structural)]
pub struct WaveformLayout {
    pub samples_per_point: usize,
    pub point_count: usize,
    pub fft_size: usize,
}

/// Whether `n` is a power of two no larger than `MAX_FFT_SIZE`.
pub open spec fn is_fft_size(n: nat) -> bool {
    ||| n == 1
    ||| n == 2
    ||| n == 4
    ||| n == 8
    ||| n == 16
    ||| n == 32
    ||| n == 64
    ||| n == 128
    ||| n == 256
    ||| n == 512
    ||| n == 1024
    ||| n == 2048
}

/// Samples per segment: the buffer shared out over the requested points, at
/// least one.
pub open spec fn samples_per_point(sample_count: nat, target_points: nat) -> nat {
    if target_points == 0 || sample_count / target_points == 0 {
        1
    } else {
        sample_count / target_points
    }
}

/// Number of segments: as many whole segments as the buffer holds, at most
/// the requested number.
pub open spec fn point_count(sample_count: nat, target_points: nat) -> nat {
    let per = samples_per_point(sample_count, target_points);
    if sample_count / per < target_points {
        sample_count / per
    } else {
        target_points
    }
}

/// The spectrum size for segments of `per` samples: the smallest power of
/// two that is not below `per`, but no more than `MAX_FFT_SIZE`.
pub open spec fn fft_size_for(per: nat, r: nat) -> bool {
    &&& is_fft_size(r)
    &&& (r >= per || r == MAX_FFT_SIZE)
    &&& (r == 1 || r / 2 < per)
}

impl WaveformLayout {
    /// The layout fits a buffer of `sample_count` samples.
    pub open spec fn fits(&self, sample_count: nat) -> bool {
        &&& self.samples_per_point >= 1
        &&& self.point_count * self.samples_per_point <= sample_count
        &&& 1 <= self.fft_size <= MAX_FFT_SIZE
    }
}

/// The smallest power of two not below `per`, capped at `MAX_FFT_SIZE`.
pub fn fft_size_for_segment(per: usize) -> (r: usize)
    ensures
        fft_size_for(per as nat, r as nat),
{
    let mut f: usize = 1;
    while f < per && f < MAX_FFT_SIZE
        invariant
            is_fft_size(f as nat),
            f == 1 || f / 2 < per,
        decreases MAX_FFT_SIZE - f,
    {
        f = f * 2;
    }
    f
}

/// Plans a waveform of (up to) `target_points` points over `sample_count`
/// samples. An empty buffer is refused; no points are asked for when
/// `target_points` is zero.
pub fn plan_waveform(sample_count: usize, target_points: usize) -> (r: Result<
    WaveformLayout,
    AnalysisError,
>)
    ensures
        sample_count == 0 <==> r is Err,
        match r {
            Ok(l) => {
                &&& l.samples_per_point == samples_per_point(
                    sample_count as nat,
                    target_points as nat,
                )
                &&& l.point_count == point_count(sample_count as nat, target_points as nat)
                &&& fft_size_for(l.samples_per_point as nat, l.fft_size as nat)
                &&& l.fits(sample_count as nat)
            },
            Err(e) => e == (AnalysisError::InsufficientData { samples: 0, required: 1 }),
        },
{
    if sample_count == 0 {
        return Err(AnalysisError::InsufficientData { samples: 0, required: 1 });
    }
    let per: usize = if target_points == 0 || sample_count / target_points == 0 {
        1
    } else {
        sample_count / target_points
    };
    let whole = sample_count / per;
    let count = if whole < target_points {
        whole
    } else {
        target_points
    };
    assert(count * per <= sample_count) by (nonlinear_arith)
        requires
            count <= whole,
            whole == sample_count / per,
            per >= 1,
    ;
    let fft_size = fft_size_for_segment(per);
    Ok(WaveformLayout { samples_per_point: per, point_count: count, fft_size })
}

/// The samples `[start, end)` of segment `i`.
pub fn segment_bounds(layout: &WaveformLayout, i: usize, sample_count: usize) -> (r: (
    usize,
    usize,
))
    requires
        layout.fits(sample_count as nat),
        i < layout.point_count,
    ensures
        r.0 == i * layout.samples_per_point,
        r.1 == r.0 + layout.samples_per_point,
        r.1 <= sample_count,
{
    let per = layout.samples_per_point;
    assert((i + 1) * per <= layout.point_count * per) by (nonlinear_arith)
        requires
            i < layout.point_count,
    ;
    assert((i + 1) * per == i * per + per) by (nonlinear_arith);
    let start = i * per;
    (start, start + per)
}

/// The spectrum bins of the three bands: bass `[low_start, low_end)`, mid
/// `[low_end, mid_end)`, treble `[mid_end, high_end)`.
#[derive(Clone, Copy, Debug, PartialEq, Eq, Structural)]
pub struct BandBins {
    pub low_start: usize,
    pub low_end: usize,
    pub mid_end: usize,
    pub high_end: usize,
}

/// The bin at which frequency `hz` falls in a spectrum of `fft_size` samples
/// at `sample_rate`, no further than the last bin of the half spectrum.
pub open spec fn band_edge(hz: nat, fft_size: nat, sample_rate: nat) -> nat {
    let half = fft_size / 2;
    if sample_rate == 0 || hz * fft_size / sample_rate > half {
        half
    } else {
        hz * fft_size / sample_rate
    }
}

fn band_edge_bin(hz: u64, fft_size: usize, sample_rate: u32) -> (r: usize)
    requires
        hz <= HIGH_BAND_END_HZ,
        fft_size <= MAX_FFT_SIZE,
    ensures
        r == band_edge(hz as nat, fft_size as nat, sample_rate as nat),
{
    let half = fft_size / 2;
    if sample_rate == 0 {
        return half;
    }
    assert(hz * fft_size <= 16000 * 2048) by (nonlinear_arith)
        requires
            hz <= 16000,
            fft_size <= 2048,
    ;
    let bin = hz * (fft_size as u64) / (sample_rate as u64);
    if bin > half as u64 {
        half
    } else {
        bin as usize
    }
}

proof fn lemma_band_edge_monotone(a: nat, b: nat, fft_size: nat, sample_rate: nat)
    requires
        a <= b,
    ensures
        band_edge(a, fft_size, sample_rate) <= band_edge(b, fft_size, sample_rate),
{
    if sample_rate > 0 {
        assert(a * fft_size <= b * fft_size) by (nonlinear_arith)
            requires
                a <= b,
        ;
        vstd::arithmetic::div_mod::lemma_div_is_ordered(
            (a * fft_size) as int,
            (b * fft_size) as int,
            sample_rate as int,
        );
    }
}

/// The bins of the bass (20-250 Hz), mid (250-4000 Hz) and treble
/// (4000-16000 Hz) bands, each edge the bin of its frequency, cut at the half
/// spectrum.
pub fn band_bins(fft_size: usize, sample_rate: u32) -> (r: BandBins)
    requires
        fft_size <= MAX_FFT_SIZE,
    ensures
        r.low_start == band_edge(LOW_BAND_START_HZ as nat, fft_size as nat, sample_rate as nat),
        r.low_end == band_edge(LOW_BAND_END_HZ as nat, fft_size as nat, sample_rate as nat),
        r.mid_end == band_edge(MID_BAND_END_HZ as nat, fft_size as nat, sample_rate as nat),
        r.high_end == band_edge(HIGH_BAND_END_HZ as nat, fft_size as nat, sample_rate as nat),
        r.low_start <= r.low_end <= r.mid_end <= r.high_end <= fft_size / 2,
{
    proof {
        lemma_band_edge_monotone(20, 250, fft_size as nat, sample_rate as nat);
        lemma_band_edge_monotone(250, 4000, fft_size as nat, sample_rate as nat);
        lemma_band_edge_monotone(4000, 16000, fft_size as nat, sample_rate as nat);
    }
    BandBins {
        low_start: band_edge_bin(LOW_BAND_START_HZ, fft_size, sample_rate),
        low_end: band_edge_bin(LOW_BAND_END_HZ, fft_size, sample_rate),
        mid_end: band_edge_bin(MID_BAND_END_HZ, fft_size, sample_rate),
        high_end: band_edge_bin(HIGH_BAND_END_HZ, fft_size, sample_rate),
    }
}

} // verus!
