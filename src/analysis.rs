//! Errors of the analyses, and how an input is cut into analysis frames.
use vstd::prelude::*;

verus! {

/// Samples per analysis frame of the tempo estimator.
pub const TEMPO_WINDOW: usize = 1024;

/// Samples between the starts of consecutive tempo frames.
pub const TEMPO_HOP: usize = 512;

/// Samples per spectrum of the key estimator.
pub const KEY_FFT_SIZE: usize = 4096;

/// Samples between the starts of consecutive key spectra.
pub const KEY_HOP: usize = 2048;

/// Why an analysis produced no result.
#[derive(Clone, Debug)]
pub enum AnalysisError {
    /// The file could not be opened or read.
    Io { message: String },
    /// No known container or codec, or no audio track.
    Format { message: String },
    /// An analysis detector could not be built.
    Detector { message: String },
    /// Fewer samples than one analysis window: `samples` were given,
    /// `required` are needed.
    InsufficientData { samples: usize, required: usize },
}

/// How many hops of `TEMPO_HOP` samples the tempo estimator is fed.
pub open spec fn tempo_hops(sample_count: nat) -> nat {
    sample_count / TEMPO_HOP as nat
}

/// Checks that there is something to estimate a tempo from, and gives the
/// number of hops the tempo estimator is fed. Empty input is refused.
pub fn plan_tempo(sample_count: usize) -> (r: Result<usize, AnalysisError>)
    ensures
        sample_count == 0 <==> r is Err,
        match r {
            Ok(hops) => hops == tempo_hops(sample_count as nat),
            Err(e) => e == (AnalysisError::InsufficientData { samples: 0, required: 1 }),
        },
{
    if sample_count == 0 {
        return Err(AnalysisError::InsufficientData { samples: 0, required: 1 });
    }
    Ok(sample_count / TEMPO_HOP)
}

/// The start of tempo hop `i`.
pub fn tempo_hop_start(i: usize, sample_count: usize) -> (r: usize)
    requires
        i < tempo_hops(sample_count as nat),
    ensures
        r == i * TEMPO_HOP,
        r + TEMPO_HOP <= sample_count,
{
    assert(i * 512 + 512 <= sample_count) by (nonlinear_arith)
        requires
            i < sample_count as nat / 512,
    ;
    i * TEMPO_HOP
}

/// How many full spectra of `KEY_FFT_SIZE` samples, `KEY_HOP` apart, fit in
/// `sample_count` samples.
pub open spec fn key_frames(sample_count: nat) -> nat {
    ((sample_count - KEY_FFT_SIZE) as nat) / KEY_HOP as nat + 1
}

/// Checks that the input holds at least one key spectrum, and gives the
/// number of spectra. Empty and too short input is refused.
pub fn plan_key(sample_count: usize) -> (r: Result<usize, AnalysisError>)
    ensures
        sample_count < KEY_FFT_SIZE <==> r is Err,
        match r {
            Ok(frames) => sample_count >= KEY_FFT_SIZE && frames == key_frames(
                sample_count as nat,
            ),
            Err(e) => e == (AnalysisError::InsufficientData {
                samples: sample_count,
                required: KEY_FFT_SIZE,
            }),
        },
{
    if sample_count < KEY_FFT_SIZE {
        return Err(AnalysisError::InsufficientData { samples: sample_count, required: KEY_FFT_SIZE });
    }
    Ok((sample_count - KEY_FFT_SIZE) / KEY_HOP + 1)
}

/// The start of key spectrum `i`; the spectrum ends before `sample_count`.
pub fn key_frame_start(i: usize, sample_count: usize) -> (r: usize)
    requires
        sample_count >= KEY_FFT_SIZE,
        i < key_frames(sample_count as nat),
    ensures
        r == i * KEY_HOP,
        r + KEY_FFT_SIZE <= sample_count,
{
    assert(i * 2048 + 4096 <= sample_count) by (nonlinear_arith)
        requires
            i < (sample_count - 4096) as nat / 2048 + 1,
            sample_count >= 4096,
    ;
    i * KEY_HOP
}

} // verus!
