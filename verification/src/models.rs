//! The records that the workspace hands to its user interface.
use vstd::prelude::*;

verus! {

/// A copy of an optional text.
pub fn clone_opt_text(o: &Option<String>) -> (r: Option<String>)
    ensures
        r == *o,
{
    match o {
        Some(s) => Some(s.clone()),
        None => None,
    }
}

/// Workspace settings as shown to the user.
#[derive(Debug, Clone)]
pub struct AppSettings {
    pub workspace_name: String,
    pub default_provider: String,
    pub assemblyai_api_key: Option<String>,
    pub has_api_key: bool,
    pub language: String,
}

/// A settings change requested by the user.
#[derive(Debug, Clone)]
pub struct UpdateSettingsInput {
    pub workspace_name: String,
    pub default_provider: String,
    /// When omitted (`None`), keep the existing key. When blank, clear it.
    pub assemblyai_api_key: Option<String>,
    pub language: String,
}

/// One transcription job as listed.
#[derive(Debug)]
pub struct JobSummary {
    pub id: i64,
    pub status: String,
    pub provider_key: String,
    pub batch_id: Option<i64>,
    pub upload_id: i64,
    pub original_filename: String,
    pub error_message: Option<String>,
    pub created_at: String,
    pub retryable: bool,
}

impl Clone for JobSummary {
    fn clone(&self) -> (r: Self)
        ensures
            r == *self,
    {
        JobSummary {
            id: self.id,
            status: self.status.clone(),
            provider_key: self.provider_key.clone(),
            batch_id: self.batch_id,
            upload_id: self.upload_id,
            original_filename: self.original_filename.clone(),
            error_message: clone_opt_text(&self.error_message),
            created_at: self.created_at.clone(),
            retryable: self.retryable,
        }
    }
}

/// One transcription job with its result, as shown in detail.
#[derive(Debug, Clone)]
pub struct JobDetail {
    pub id: i64,
    pub status: String,
    pub provider_key: String,
    pub batch_id: Option<i64>,
    pub upload_id: i64,
    pub original_filename: String,
    pub error_message: Option<String>,
    pub markdown_path: Option<String>,
    pub transcript_text: Option<String>,
    pub created_at: String,
    pub started_at: Option<String>,
    pub completed_at: Option<String>,
    pub retryable: bool,
}

/// A batch of jobs uploaded together.
#[derive(Debug, Clone)]
pub struct BatchDetail {
    pub id: i64,
    pub created_at: String,
    pub jobs: Vec<JobDetail>,
}

/// A job just created from an upload.
#[derive(Debug, Clone)]
pub struct CreatedJob {
    pub id: i64,
    pub upload_id: i64,
    pub batch_id: Option<i64>,
    pub status: String,
    pub original_filename: String,
}

/// A media file offered for transcription.
#[derive(Debug, Clone)]
pub struct NewUploadFile {
    pub filename: String,
    pub mime_type: String,
    pub size_bytes: i64,
    pub source_path: String,
}

/// What the provider reports about a finished transcript.
#[derive(Debug, Clone)]
pub struct TranscriptMetadata {
    /// The provider's transcript id.
    pub id: String,
    /// The provider's `language_code` field, as JSON text, when the reply had one.
    pub language_code: Option<String>,
}

/// The text of a finished transcript and the provider's metadata about it.
#[derive(Debug, Clone)]
pub struct TranscriptionOutcome {
    pub text: String,
    pub metadata: TranscriptMetadata,
}

} // verus!
