use vstd::prelude::*;

verus! {

/// Errors of the engine's facade.
#[derive(Debug, Clone, Copy, PartialEq, Eq, Structural)]
pub enum QubxExceptions {
    ParamsError,
    FuncArgsError,
}

impl QubxExceptions {
    /// The message reported for the error.
    pub fn message(&self) -> (m: &'static str)
        ensures
            *self == QubxExceptions::ParamsError ==> m@ == "[ERROR] Streaming parameters not found!"@,
            *self == QubxExceptions::FuncArgsError ==> m@ == "[ERROR] Missing function argument!"@,
    {
        proof {
            reveal_strlit("[ERROR] Streaming parameters not found!");
            reveal_strlit("[ERROR] Missing function argument!");
        }
        match self {
            QubxExceptions::ParamsError => "[ERROR] Streaming parameters not found!",
            QubxExceptions::FuncArgsError => "[ERROR] Missing function argument!",
        }
    }
}

/// Errors of the external ffmpeg collaborator that decodes and encodes audio files.
#[derive(Debug, Clone, Copy, PartialEq, Eq, Structural)]
pub enum QubxFfmpegError {
    NotInstalled,
    GenericError,
    InstallationAutoNotAllowed,
    SystemNotSupported,
}

/// Configuration of one stream.
///
/// `chunk`: frames per hardware period; `sr`: sample rate; `outchannels` and
/// `inchannels`: channel counts of the output and input devices; `outdevice` and
/// `indevice`: device indexes, `None` for the platform's default device.
#[derive(Debug, Clone, Copy)]
pub struct StreamParameters {
    pub chunk: u32,
    pub sr: i32,
    pub outchannels: u32,
    pub outdevice: Option<u32>,
    pub inchannels: u32,
    pub indevice: Option<u32>,
}

impl Default for StreamParameters {
    fn default() -> (p: Self)
        ensures
            p.chunk == 1024,
            p.sr == 44100,
            p.outchannels == 1,
            p.outdevice is None,
            p.inchannels == 1,
            p.indevice is None,
    {
        StreamParameters {
            chunk: 1024,
            sr: 44100,
            outchannels: 1,
            outdevice: None,
            inchannels: 1,
            indevice: None,
        }
    }
}

impl StreamParameters {
    /// The number of samples in one output block: `chunk * outchannels`.
    pub open spec fn spec_output_block_len(&self) -> nat {
        (self.chunk * self.outchannels) as nat
    }

    /// The number of samples in one input block: `chunk * inchannels`.
    pub open spec fn spec_input_block_len(&self) -> nat {
        (self.chunk * self.inchannels) as nat
    }

    /// The number of samples in one output block, channel-interleaved; this is the
    /// frame length of the queue that feeds the output.
    pub fn output_block_len(&self) -> (n: u64)
        ensures
            n == self.spec_output_block_len(),
    {
        proof {
            vstd::arithmetic::mul::lemma_mul_upper_bound(
                self.chunk as int,
                u32::MAX as int,
                self.outchannels as int,
                u32::MAX as int,
            );
        }
        self.chunk as u64 * self.outchannels as u64
    }

    /// The number of samples in one input block, channel-interleaved.
    pub fn input_block_len(&self) -> (n: u64)
        ensures
            n == self.spec_input_block_len(),
    {
        proof {
            vstd::arithmetic::mul::lemma_mul_upper_bound(
                self.chunk as int,
                u32::MAX as int,
                self.inchannels as int,
                u32::MAX as int,
            );
        }
        self.chunk as u64 * self.inchannels as u64
    }

    /// Whether a block of `len` samples fills exactly one output period; a duplex
    /// patch must return such a block.
    pub fn fits_output_block(&self, len: usize) -> (ok: bool)
        ensures
            ok == (len == self.spec_output_block_len()),
    {
        len as u64 == self.output_block_len()
    }
}

/// Lifecycle state of a registered process: running, or finished and waiting to be
/// reaped.
#[derive(Debug, Clone, Copy, PartialEq, Eq, Structural)]
pub enum ProcessState {
    On,
    Off,
}

/// The argument of a stream's start: no patch, or a patch applied on each period.
pub enum ProcessArg<T> {
    NoArgs,
    PatchSpace(T),
}

/// The input of a worker: samples used as they are, a generator called once for the
/// samples, or samples with a transform applied to each frame.
pub enum DspProcessArg<S, F1, F2> {
    Source(Vec<S>),
    PatchSpace(F1),
    HybridSpace(Vec<S>, F2),
}

/// Errors of channel conversion.
#[derive(Debug, Clone, Copy, PartialEq, Eq, Structural)]
pub enum ChannelError {
    VectorIsEmpty,
    ChannelNumbersError,
}

/// A signal that can be spread over another number of channels.
pub trait Channels {
    fn to_nchannels(&mut self, out_channels: usize) -> Result<(), ChannelError>;
}

/// Errors of writing a signal to a file.
#[derive(Debug, Clone, Copy, PartialEq, Eq, Structural)]
pub enum ToFileError {
    WritingError,
    SignalIsEmpty,
}

/// A signal that can be written to a file.
pub trait WriteToFile<'a> {
    fn to_file(&self, name: &'a str) -> Result<(), ToFileError>;
}

/// Frequency-domain data with real-valued views of its bins.
pub trait FreqDomainToFloat {
    type FftType;

    fn get_mag(&self) -> Self::FftType;

    fn get_angle(&self) -> Self::FftType;

    fn get_db(&self) -> Self::FftType;
}

/// Frequency-domain data with a complex conjugate.
pub trait FreqDomainToComplex {
    type FftType;

    fn get_conj(&self) -> Self::FftType;
}

} // verus!
