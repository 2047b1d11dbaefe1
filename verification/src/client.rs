pub mod audio_config;
pub mod commands;
pub mod monitor;
pub mod record;
pub mod speaker;
pub mod wakeup;
