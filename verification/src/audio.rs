//! Bounded audio decode and output for timeline transport.
pub mod clock;
pub mod counters;
pub mod engine;
pub mod lock;
pub mod meter;
pub mod mixer;
pub mod scheduler;
pub mod session;
pub mod target;
