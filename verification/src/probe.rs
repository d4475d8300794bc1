//! Opt-in windowed measurement of scrubbing: what is injected, what counts as shown, and how the
//! measurement ends. It makes no claims about physical input or scanout.
pub mod configuration;
pub mod distribution;
pub mod input;
pub mod session;
