use crate::common::{ToFileError, WriteToFile};
use vstd::prelude::*;

verus! {

/// Errors of reading and writing audio buffers.
#[derive(Debug, Clone, Copy, PartialEq, Eq, Structural)]
pub enum BufferError {
    ErrorInReadingFile,
    ErrorInReadingChannelNumbers,
    NullOpenFileBufferEmpty,
    BufferLengthExceeded,
    ReadOffsetGratherThanAudioLength,
    SamplerDataDurationReached,
    WriteFormatNotValid,
    ErrorInWritingFile,
    SasmpleRateIsZeroHaveToSet,
}

/// The direction in which a buffer is read.
#[derive(Debug, Clone, Copy, PartialEq, Eq, Structural)]
pub enum ReadBufferDirection {
    Forward,
    Backward,
}

/// Errors of delay buffers.
#[derive(Debug, Clone, Copy, PartialEq, Eq, Structural)]
pub enum DelayBufferError {
    DelayBufferIndexError,
    TapLengthMustBeLessThanBufferLength,
}

/// Errors of table interpolation.
#[derive(Debug, Clone, Copy, PartialEq, Eq, Structural)]
pub enum InterpError {
    BufferEmpty,
    BufferOverSize,
}

/// Interpolation modes of table reads.
#[derive(Debug, Clone, Copy, PartialEq, Eq, Structural)]
pub enum Interp {
    NoInterp,
    Linear,
    Cosine,
    Cubic,
    Hermite,
}

/// Opens and writes audio data at one sample rate.
#[derive(Debug)]
pub struct AudioBuffer {
    sr: i32,
}

impl AudioBuffer {
    /// A buffer for the sample rate `sr`, which must be the streams' sample rate.
    pub fn new(sr: i32) -> (b: Self)
        ensures
            b.sample_rate() == sr,
    {
        AudioBuffer { sr }
    }

    /// The sample rate of the buffer.
    pub closed spec fn sample_rate(&self) -> i32 {
        self.sr
    }

    /// The sample rate of the buffer.
    pub fn sr(&self) -> (sr: i32)
        ensures
            sr == self.sample_rate(),
    {
        self.sr
    }

    /// Writes `signal` to the file `name`.
    pub fn write_to_file<'a, T: WriteToFile<'a>>(name: &'a str, signal: &'a T) -> Result<
        (),
        ToFileError,
    > {
        signal.to_file(name)
    }
}

} // verus!
