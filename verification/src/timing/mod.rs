pub mod timestamp;
pub mod ringbuf;
pub mod pacing;
pub mod jitter;

pub use timestamp::{Timestamp, PreciseClock};
pub use ringbuf::LockFreeRingBuffer;
