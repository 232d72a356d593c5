//! Verified core of a local, offline speech-transcription sidecar: language
//! normalisation, model-asset discovery, request and WAV header checks, and the
//! decisions the service takes around the recogniser.

pub mod engine;
pub mod error;
pub mod language;
pub mod paths;
pub mod text;
pub mod wav;
