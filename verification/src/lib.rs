//! Playback, decode and cache logic of a non-linear video editor.
pub mod arith;
pub mod audio;
pub mod compositor;
pub mod decode;
pub mod frame_cache;
pub mod hardware;
pub mod model_preload;
pub mod probe;
pub mod source_path;
pub mod table;
pub mod text;
pub mod timestamps;
