use qubx::analysis::{FromComplexData, QWindow, StftError};
use qubx::buffers::{AudioBuffer, BufferError};
use qubx::common::{
    FreqDomainToComplex, FreqDomainToFloat, ProcessState, QubxExceptions, StreamParameters,
    ToFileError, WriteToFile,
};
use qubx::latency::LatencyAccumulator;
use qubx::monitor::{MonitorProcess, Process};

#[test]
fn default_stream_parameters() {
    let p = StreamParameters::default();
    assert_eq!(p.chunk, 1024);
    assert_eq!(p.sr, 44100);
    assert_eq!(p.outchannels, 1);
    assert_eq!(p.inchannels, 1);
    assert_eq!(p.outdevice, None);
    assert_eq!(p.indevice, None);
}

#[test]
fn block_lengths_are_chunk_times_channels() {
    let p = StreamParameters { chunk: 256, outchannels: 2, inchannels: 3, ..StreamParameters::default() };
    assert_eq!(p.output_block_len(), 512);
    assert_eq!(p.input_block_len(), 768);
    let big = StreamParameters { chunk: u32::MAX, outchannels: u32::MAX, ..StreamParameters::default() };
    assert_eq!(big.output_block_len(), (u32::MAX as u64) * (u32::MAX as u64));
}

#[test]
fn duplex_block_of_the_wrong_length_is_refused() {
    let p = StreamParameters { chunk: 4, outchannels: 2, ..StreamParameters::default() };
    assert!(p.fits_output_block(8));
    assert!(!p.fits_output_block(7));
    assert!(!p.fits_output_block(9));
    assert!(!p.fits_output_block(4));
}

#[test]
fn monitor_registers_and_reaps_finished_processes() {
    let mut m = MonitorProcess::new();
    m.add_process(Process::new(1, String::from("DSP"), ProcessState::On));
    m.add_process(Process::new(2, String::from("DSP"), ProcessState::On));
    m.add_process(Process::new(3, String::from("MONITOR"), ProcessState::On));
    assert_eq!(m.len(), 3);
    m.mark_finished(2);
    assert_eq!(m.state_of(2), Some(ProcessState::Off));
    let reaped = m.remove_inactive_processes();
    assert_eq!(reaped, vec![2]);
    assert_eq!(m.len(), 2);
    assert_eq!(m.state_of(2), None);
    assert_eq!(m.state_of(1), Some(ProcessState::On));
}

#[test]
fn monitor_ignores_unknown_ids() {
    let mut m = MonitorProcess::new();
    m.add_process(Process::new(5, String::from("A"), ProcessState::On));
    m.mark_finished(9);
    assert_eq!(m.remove_inactive_processes(), Vec::<u64>::new());
    assert_eq!(m.len(), 1);
}

#[test]
fn monitor_replaces_an_entry_with_the_same_id() {
    let mut m = MonitorProcess::new();
    m.add_process(Process::new(4, String::from("A"), ProcessState::Off));
    m.add_process(Process::new(4, String::from("B"), ProcessState::On));
    assert_eq!(m.len(), 1);
    assert_eq!(m.state_of(4), Some(ProcessState::On));
}

#[test]
fn join_and_remove_all_empties_the_registry() {
    let mut m = MonitorProcess::new();
    m.add_process(Process::new(10, String::from("STREAM"), ProcessState::On));
    m.add_process(Process::new(11, String::from("DSP"), ProcessState::Off));
    m.add_process(Process::new(12, String::from("DSP"), ProcessState::On));
    let mut all = m.join_and_remove_all();
    all.sort();
    assert_eq!(all, vec![10, 11, 12]);
    assert!(m.is_empty());
    assert_eq!(m.len(), 0);
}

#[test]
fn latency_average_guards_a_zero_count() {
    let a = LatencyAccumulator::new();
    assert_eq!(a.iterations(), 0);
    assert_eq!(a.average_nanos(), 0);
}

#[test]
fn latency_average_of_recorded_durations() {
    let mut a = LatencyAccumulator::new();
    a.record(100);
    a.record(300);
    a.record(200);
    assert_eq!(a.iterations(), 3);
    assert_eq!(a.total_nanos(), 600);
    assert_eq!(a.average_nanos(), 200);
}

#[test]
fn latency_sum_saturates() {
    let mut a = LatencyAccumulator::new();
    a.record(u64::MAX - 1);
    a.record(10);
    assert_eq!(a.total_nanos(), u64::MAX);
    assert_eq!(a.iterations(), 2);
}

#[test]
fn exception_messages() {
    assert_eq!(QubxExceptions::ParamsError.message(), "[ERROR] Streaming parameters not found!");
    assert_eq!(QubxExceptions::FuncArgsError.message(), "[ERROR] Missing function argument!");
}

struct Spectrum(Vec<i32>);

impl FreqDomainToFloat for Spectrum {
    type FftType = Vec<i32>;

    fn get_mag(&self) -> Vec<i32> {
        self.0.iter().map(|x| x.abs()).collect()
    }

    fn get_angle(&self) -> Vec<i32> {
        self.0.iter().map(|x| x.signum()).collect()
    }

    fn get_db(&self) -> Vec<i32> {
        self.0.iter().map(|x| x * 10).collect()
    }
}

impl FreqDomainToComplex for Spectrum {
    type FftType = Vec<i32>;

    fn get_conj(&self) -> Vec<i32> {
        self.0.iter().map(|x| -x).collect()
    }
}

#[test]
fn complex_data_views_dispatch_to_the_data() {
    let s = Spectrum(vec![-2, 3]);
    assert_eq!(FromComplexData::get_mag(&s), vec![2, 3]);
    assert_eq!(FromComplexData::get_angle(&s), vec![-1, 1]);
    assert_eq!(FromComplexData::get_db(&s), vec![-20, 30]);
    assert_eq!(FromComplexData::get_conj(&s), vec![2, -3]);
}

struct Silent;

impl<'a> WriteToFile<'a> for Silent {
    fn to_file(&self, name: &'a str) -> Result<(), ToFileError> {
        if name.is_empty() {
            Err(ToFileError::WritingError)
        } else {
            Ok(())
        }
    }
}

#[test]
fn audio_buffer_keeps_its_rate_and_writes_through_the_signal() {
    let b = AudioBuffer::new(48000);
    assert_eq!(b.sr(), 48000);
    assert_eq!(AudioBuffer::write_to_file("out.wav", &Silent), Ok(()));
    assert_eq!(AudioBuffer::write_to_file("", &Silent), Err(ToFileError::WritingError));
}

#[test]
fn error_kinds_compare() {
    assert_ne!(BufferError::ErrorInReadingFile, BufferError::NullOpenFileBufferEmpty);
    assert_eq!(StftError::WinSizeMustBeLessThanInput, StftError::WinSizeMustBeLessThanInput);
    assert_ne!(QWindow::Hamming, QWindow::Hanning);
}
