//! Pattern generation and bounded fan-out for a dual-core waveform firmware.

pub mod channel;
pub mod engine;
pub mod logsink;
pub mod pattern;
pub mod publisher;
pub mod relay;
pub mod scheduler;
pub mod system;
pub mod worker;
