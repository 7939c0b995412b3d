//! Core logic of the Humla recording and model sidecars: the GGUF header
//! reader, the per-provider keychain mapping, the diarization model
//! catalogue, and the chunking state machines of the audio-capture sidecar.

pub mod text;
pub mod gguf;
pub mod keychain;
pub mod diarize;
pub mod capture;
