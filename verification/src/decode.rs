//! Latest-wins monitor decoding.
pub mod coordinator;
pub mod decoder;
pub mod diagnostics;
pub mod endpoint;
pub mod event_slot;
pub mod geometry;
pub mod lane;
pub mod monitor_cache;
pub mod packing;
pub mod request;
pub mod run;
pub mod scrub;
pub mod scrub_index;
pub mod session_pool;
pub mod source_actor;
pub mod stage_timing;
pub mod traversal;
