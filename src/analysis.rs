use crate::common::{FreqDomainToComplex, FreqDomainToFloat};
use vstd::prelude::*;

verus! {

/// Errors of the short-time Fourier transform.
#[derive(Debug, Clone, Copy, PartialEq, Eq, Structural)]
pub enum StftError {
    WinSizeMustBeLessThanInput,
    HopSizeMustBeGratherThanZero,
}

/// Errors of analysis windows.
#[derive(Debug, Clone, Copy, PartialEq, Eq, Structural)]
pub enum WindowError {
    WindowLengthExceeded,
}

/// Analysis window shapes.
#[derive(Debug, Clone, Copy, PartialEq, Eq, Structural)]
pub enum QWindow {
    Rect,
    Hamming,
    Hanning,
    Blackman,
}

/// Views of frequency-domain data.
#[derive(Debug)]
pub struct FromComplexData {}

impl FromComplexData {
    /// The phase of each bin of `data`.
    pub fn get_angle<T: FreqDomainToFloat>(data: &T) -> T::FftType {
        data.get_angle()
    }

    /// The magnitude of each bin of `data`.
    pub fn get_mag<T: FreqDomainToFloat>(data: &T) -> T::FftType {
        data.get_mag()
    }

    /// The complex conjugate of each bin of `data`.
    pub fn get_conj<T: FreqDomainToComplex>(data: &T) -> T::FftType {
        data.get_conj()
    }

    /// The magnitude of each bin of `data` in decibels.
    pub fn get_db<T: FreqDomainToFloat>(data: &T) -> T::FftType {
        data.get_db()
    }
}

/// Descriptors of time-domain data.
#[derive(Debug)]
pub struct FromRealData {}

} // verus!
