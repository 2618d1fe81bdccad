//! Mass transcription workspace: the domain logic of a desktop transcription
//! queue (uploads, jobs, batches, settings, transcript rendering) and the
//! decision logic of the AssemblyAI transcription protocol.
pub mod text;
pub mod paths;
pub mod models;
pub mod recency;
pub mod grouping;
pub mod markdown;
pub mod storage;
pub mod settings;
pub mod assemblyai;
pub mod jobs;
pub mod uploads;
