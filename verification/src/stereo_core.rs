pub mod alsa;
pub mod jitter_buffer;
pub mod master;
pub mod mixer;
pub mod protocol;
pub mod slave;
pub mod sync;
