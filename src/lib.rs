//! A lane-based frame queue for realtime audio: background workers cut batches of
//! samples into frames and queue each batch in a lane of its own, and the output
//! callback takes one frame from every lane on each period. Around it: the registry
//! of background processes, latency accounting, stream parameters and lifecycle.

pub mod analysis;
pub mod buffers;
pub mod common;
pub mod frames;
pub mod lane;
pub mod latency;
pub mod monitor;
pub mod qlist;
pub mod stream;
pub mod worker;
pub mod mix;
