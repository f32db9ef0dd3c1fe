//! Streaming technical indicators built on fixed-capacity ring buffers.

pub mod ring_buffer;
pub mod rsi;

pub use ring_buffer::RingBuffer;
pub use rsi::{RsiSchedule, RsiStep};
