pub mod discovery;
pub mod peer;
pub mod protocol;
pub mod stream;
