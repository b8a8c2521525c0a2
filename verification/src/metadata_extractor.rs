//! Metadata pulled out of a recording: the raw telemetry stream `ffmpeg`
//! copies out of an mp4.

use vstd::prelude::*;

verus! {

/// The raw bytes of a recording's telemetry stream.
#[derive(Debug, PartialEq, Eq)]
pub struct Metadata {
    pub bytes: Vec<u8>,
}

impl Metadata {
    /// The metadata `ffmpeg` wrote to its standard output. Whether ffmpeg
    /// reported success does not change what is kept.
    pub fn from_output(success: bool, stdout: Vec<u8>) -> (m: Metadata)
        ensures
            m.bytes == stdout,
    {
        Metadata { bytes: stdout }
    }

    /// The raw bytes.
    pub fn bytes(&self) -> (b: &[u8])
        ensures
            b@ == self.bytes@,
    {
        self.bytes.as_slice()
    }
}

} // verus!
