//! A voice relay engine: audio heard in one voice channel is forwarded,
//! speaker by speaker, into other voice channels through a fixed pool of
//! connection slots, with a per-participant volume divisor.

pub mod channel;
pub mod error;
pub mod keyed;
pub mod pool;
pub mod report;
pub mod session;
pub mod source;
pub mod tracker;
pub mod volume;
