pub mod config;
pub mod errors;
pub mod fingerprint;
pub mod models;
pub mod probes;
pub mod retry;
pub mod sender;
pub mod text;
pub mod vault;
