//! Audio analysis core of a DJ music manager: the binary encoding of
//! multi-band waveforms, the Camelot, Open Key and conventional key tables,
//! how the tempo, key and waveform analyses cut their input, and the
//! decisions of the streaming decoder and of the playback loop. Beside them
//! stand the small pure helpers of the companion server: percent-decoding,
//! file extensions and MIME types, `Range` headers, stream tickets and
//! access tokens.
use vstd::prelude::*;

pub mod analysis;
pub mod bytes;
pub mod companion;
pub mod key;
pub mod models;
pub mod paths;
pub mod playback;
pub mod range;
pub mod stream;
pub mod waveform;

verus! {

} // verus!
