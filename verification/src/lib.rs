pub mod audio;
pub mod client;
pub mod config;
pub mod int_repr;
pub mod net;
pub mod pcm;
pub mod stereo_core;
pub mod sync;
pub mod text;
