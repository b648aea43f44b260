//! The logic of a meeting recorder: its settings, its recording history,
//! the recording clock, the handling of transcriptions and the update
//! check, each with its contract.
pub mod config;
pub mod models;
pub mod numbers;
pub mod recordings;
pub mod session;
pub mod state;
pub mod strings;
pub mod transcription;
pub mod update;
pub mod version;
