//! The upload → job → batch lifecycle: which files are accepted, how a job
//! moves between statuses, and how jobs are shown.
use vstd::prelude::*;
use crate::assemblyai::{TranscribeOptions, duration_of_secs};
use crate::markdown::{render, rendered};
use crate::models::{
    BatchDetail, CreatedJob, JobDetail, JobSummary, NewUploadFile, TranscriptionOutcome,
    clone_opt_text,
};
use crate::paths::{extension_of, path_extension};
use crate::settings::{SettingsRecord, assemblyai_api_key, usable_key};
use crate::storage::StorageRoot;
use crate::text::{
    lowercase, to_lowercase, same_text, starts_with, owned, push_text, push_int, int_text,
};
use std::time::Duration;

verus! {

/// Audio file extensions accepted for transcription.
pub open spec fn audio_extensions() -> Seq<Seq<char>> {
    seq![
        "wav"@,
        "mp3"@,
        "ogg"@,
        "opus"@,
        "m4a"@,
        "flac"@,
        "webm"@,
        "aac"@,
        "wma"@,
        "mpga"@,
        "oga"@,
    ]
}

/// Video file extensions accepted for transcription.
pub open spec fn video_extensions() -> Seq<Seq<char>> {
    seq!["mp4"@, "mov"@, "mkv"@]
}

/// The lower-cased extension of a file name, empty when it has none.
pub open spec fn lowered_extension(filename: Seq<char>) -> Seq<char> {
    lowercase(
        match path_extension(filename) {
            Some(e) => e,
            None => Seq::empty(),
        },
    )
}

/// Whether a file of this name can be transcribed.
pub open spec fn supported_name(filename: Seq<char>) -> bool {
    audio_extensions().contains(lowered_extension(filename)) || video_extensions().contains(
        lowered_extension(filename),
    )
}

/// The lower-cased extension of `filename`, empty when it has none.
pub fn extension(filename: &str) -> (r: String)
    ensures
        r@ == lowered_extension(filename@),
{
    match extension_of(filename) {
        Some(e) => to_lowercase(e.as_str()),
        None => {
            let empty = String::new();
            to_lowercase(empty.as_str())
        },
    }
}

/// Whether `e`, an extension already lower-cased, is one of the audio
/// extensions accepted for transcription.
pub fn is_audio_extension(e: &str) -> (r: bool)
    ensures
        r == audio_extensions().contains(e@),
{
    let r = same_text(e, "wav") || same_text(e, "mp3") || same_text(e, "ogg") || same_text(e, "opus")
        || same_text(e, "m4a") || same_text(e, "flac") || same_text(e, "webm") || same_text(e, "aac")
        || same_text(e, "wma") || same_text(e, "mpga") || same_text(e, "oga");
    proof {
        let a = audio_extensions();
        assert(a[0] == "wav"@ && a[1] == "mp3"@ && a[2] == "ogg"@ && a[3] == "opus"@ && a[4]
            == "m4a"@ && a[5] == "flac"@ && a[6] == "webm"@ && a[7] == "aac"@ && a[8] == "wma"@
            && a[9] == "mpga"@ && a[10] == "oga"@);
        if a.contains(e@) {
            let i = choose|i: int| 0 <= i < a.len() && a[i] == e@;
        }
    }
    r
}

/// Whether `e`, an extension already lower-cased, is MP4, MOV or MKV.
pub fn is_video_extension(e: &str) -> (r: bool)
    ensures
        r == video_extensions().contains(e@),
{
    let r = same_text(e, "mp4") || same_text(e, "mov") || same_text(e, "mkv");
    proof {
        let a = video_extensions();
        assert(a[0] == "mp4"@ && a[1] == "mov"@ && a[2] == "mkv"@);
        if a.contains(e@) {
            let i = choose|i: int| 0 <= i < a.len() && a[i] == e@;
        }
    }
    r
}

/// Whether a file of this name can be transcribed: common audio formats,
/// or MP4/MOV/MKV video.
pub fn is_supported(filename: &str) -> (r: bool)
    ensures
        r == supported_name(filename@),
{
    let ext = extension(filename);
    is_audio_extension(ext.as_str()) || is_video_extension(ext.as_str())
}

/// Whether a file is a video, by its extension or its MIME type.
pub fn is_video(filename: &str, mime_type: &str) -> (r: bool)
    ensures
        r == (video_extensions().contains(lowered_extension(filename@)) || ("video/"@.len()
            <= mime_type@.len() && mime_type@.take("video/"@.len() as int) == "video/"@)),
{
    let ext = extension(filename);
    is_video_extension(ext.as_str()) || starts_with(mime_type, "video/")
}

/// Only a failed job can be retried.
pub fn is_retryable(status: &str) -> (r: bool)
    ensures
        r == (status@ == "failed"@),
{
    same_text(status, "failed")
}

} // verus!

verus! {

/// A stored transcription job.
#[derive(Debug)]
pub struct JobRecord {
    pub id: i64,
    pub upload_id: i64,
    pub batch_id: Option<i64>,
    pub provider_key: String,
    pub status: String,
    pub error_message: Option<String>,
    pub started_at: Option<String>,
    pub completed_at: Option<String>,
    pub created_at: String,
    pub updated_at: String,
}

/// The value of a stored job.
pub ghost struct JobView {
    pub id: i64,
    pub upload_id: i64,
    pub batch_id: Option<i64>,
    pub provider_key: Seq<char>,
    pub status: Seq<char>,
    pub error_message: Option<Seq<char>>,
    pub started_at: Option<Seq<char>>,
    pub completed_at: Option<Seq<char>>,
    pub created_at: Seq<char>,
    pub updated_at: Seq<char>,
}

impl View for JobRecord {
    type V = JobView;

    open spec fn view(&self) -> JobView {
        JobView {
            id: self.id,
            upload_id: self.upload_id,
            batch_id: self.batch_id,
            provider_key: self.provider_key@,
            status: self.status@,
            error_message: self.error_message.deep_view(),
            started_at: self.started_at.deep_view(),
            completed_at: self.completed_at.deep_view(),
            created_at: self.created_at@,
            updated_at: self.updated_at@,
        }
    }
}

/// The stored result of a completed job.
#[derive(Debug)]
pub struct ResultRecord {
    pub markdown_path: String,
    pub transcript_text: String,
}

/// The error text kept for a failed job: at most its first 500 characters.
pub open spec fn stored_error(message: Seq<char>) -> Seq<char> {
    if message.len() <= 500 {
        message
    } else {
        message.take(500)
    }
}

/// A new job, queued at `now`.
pub open spec fn queued_job(id: i64, upload_id: i64, batch_id: Option<i64>, provider_key: Seq<char>, now: Seq<char>) -> JobView {
    JobView {
        id,
        upload_id,
        batch_id,
        provider_key,
        status: "queued"@,
        error_message: None,
        started_at: None,
        completed_at: None,
        created_at: now,
        updated_at: now,
    }
}

/// A job once processing starts at `now`; a completed job is left as it is.
pub open spec fn processing_job(j: JobView, now: Seq<char>) -> JobView {
    if j.status == "completed"@ {
        j
    } else {
        JobView { status: "processing"@, started_at: Some(now), updated_at: now, error_message: None, ..j }
    }
}

/// A job once completed at `now`.
pub open spec fn completed_job(j: JobView, now: Seq<char>) -> JobView {
    JobView { status: "completed"@, completed_at: Some(now), updated_at: now, error_message: None, ..j }
}

/// A job once failed at `now` with `message`.
pub open spec fn failed_job(j: JobView, message: Seq<char>, now: Seq<char>) -> JobView {
    JobView {
        status: "failed"@,
        error_message: Some(stored_error(message)),
        completed_at: Some(now),
        updated_at: now,
        ..j
    }
}

/// A job queued again at `now`, with its error and times cleared.
pub open spec fn requeued_job(j: JobView, now: Seq<char>) -> JobView {
    JobView {
        status: "queued"@,
        error_message: None,
        started_at: None,
        completed_at: None,
        updated_at: now,
        ..j
    }
}

/// The message for a job that does not exist.
pub open spec fn not_found_message(job_id: i64) -> Seq<char> {
    "Job "@ + int_text(job_id as int) + " not found"@
}

/// The message for a job that cannot be retried.
pub open spec fn not_retryable_message() -> Seq<char> {
    "Job is not retryable"@
}

/// "Job <id> not found".
pub fn job_not_found(job_id: i64) -> (r: String)
    ensures
        r@ == not_found_message(job_id),
{
    let mut m = owned("Job ");
    push_int(&mut m, job_id);
    push_text(&mut m, " not found");
    m
}

impl JobRecord {
    /// A new job for upload `upload_id`, queued at `now`.
    pub fn queued(id: i64, upload_id: i64, batch_id: Option<i64>, provider_key: String, now: String) -> (r: JobRecord)
        ensures
            r@ == queued_job(id, upload_id, batch_id, provider_key@, now@),
    {
        JobRecord {
            id,
            upload_id,
            batch_id,
            provider_key,
            status: owned("queued"),
            error_message: None,
            started_at: None,
            completed_at: None,
            created_at: now.clone(),
            updated_at: now,
        }
    }
}

/// Marks a job as processing from `now` on, unless it is already completed.
pub fn mark_job_processing(job: JobRecord, now: String) -> (r: JobRecord)
    ensures
        r@ == processing_job(job@, now@),
{
    if same_text(job.status.as_str(), "completed") {
        return job;
    }
    JobRecord {
        status: owned("processing"),
        started_at: Some(now.clone()),
        updated_at: now,
        error_message: None,
        ..job
    }
}

/// The job record once completed at `now`.
fn complete_job(job: JobRecord, now: String) -> (r: JobRecord)
    ensures
        r@ == completed_job(job@, now@),
{
    JobRecord {
        status: owned("completed"),
        completed_at: Some(now.clone()),
        updated_at: now,
        error_message: None,
        ..job
    }
}

/// A completed job with its transcript: the document to write, and the
/// result to record, which names where the document goes.
#[derive(Debug)]
pub struct Completion {
    pub job: JobRecord,
    pub markdown: String,
    pub result: ResultRecord,
}

/// Completes job `job_id` at `now` with `outcome`, given the stored job (if
/// any) and its upload's file name: the transcript is rendered with that
/// file name and the job's provider, goes to the upload's transcript path
/// under `storage`, and is recorded with the transcript text. A job that
/// does not exist is reported and nothing is made.
pub fn mark_job_completed(
    storage: &StorageRoot,
    job_id: i64,
    job: Option<JobRecord>,
    original_filename: &str,
    outcome: &TranscriptionOutcome,
    now: String,
) -> (r: Result<Completion, String>)
    ensures
        match job {
            None => r matches Err(e) && e@ == not_found_message(job_id),
            Some(j) => r matches Ok(c) && c.job@ == completed_job(j@, now@) && c.markdown@ == rendered(
                outcome.text@,
                original_filename@,
                j.provider_key@,
            ) && c.result.markdown_path@ == storage.spec_markdown_path(j.upload_id)
                && c.result.transcript_text@ == outcome.text@,
        },
{
    let job = match job {
        None => {
            return Err(job_not_found(job_id));
        },
        Some(j) => j,
    };
    let markdown = render(outcome.text.as_str(), original_filename, job.provider_key.as_str());
    let markdown_path = storage.markdown_path(job.upload_id);
    let result = ResultRecord { markdown_path, transcript_text: outcome.text.clone() };
    let job = complete_job(job, now);
    Ok(Completion { job, markdown, result })
}

/// The first 500 characters of `message`.
fn error_excerpt(message: &str) -> (r: String)
    ensures
        r@ == stored_error(message@),
{
    let n = message.unicode_len();
    if n <= 500 {
        owned(message)
    } else {
        assert(message@.subrange(0, 500) =~= message@.take(500));
        owned(message.substring_char(0, 500))
    }
}

/// Marks a job as failed at `now`, keeping the first 500 characters of `message`.
pub fn mark_job_failed(job: JobRecord, message: &str, now: String) -> (r: JobRecord)
    ensures
        r@ == failed_job(job@, message@, now@),
{
    JobRecord {
        status: owned("failed"),
        error_message: Some(error_excerpt(message)),
        completed_at: Some(now.clone()),
        updated_at: now,
        ..job
    }
}

/// Queues job `job_id` again at `now`: only a failed job may be retried.
pub fn retry_job(job_id: i64, job: Option<JobRecord>, now: String) -> (r: Result<JobRecord, String>)
    ensures
        match job {
            None => r matches Err(e) && e@ == not_found_message(job_id),
            Some(j) => if j.status@ == "failed"@ {
                r matches Ok(out) && out@ == requeued_job(j@, now@)
            } else {
                r matches Err(e) && e@ == not_retryable_message()
            },
        },
{
    let job = match job {
        None => {
            return Err(job_not_found(job_id));
        },
        Some(j) => j,
    };
    if !is_retryable(job.status.as_str()) {
        return Err(owned("Job is not retryable"));
    }
    Ok(
        JobRecord {
            status: owned("queued"),
            error_message: None,
            started_at: None,
            completed_at: None,
            updated_at: now,
            ..job
        },
    )
}

/// The job just created, as reported to the user.
pub fn created_job(job: &JobRecord, original_filename: &str) -> (r: CreatedJob)
    ensures
        r.id == job.id,
        r.upload_id == job.upload_id,
        r.batch_id == job.batch_id,
        r.status@ == job.status@,
        r.original_filename@ == original_filename@,
{
    CreatedJob {
        id: job.id,
        upload_id: job.upload_id,
        batch_id: job.batch_id,
        status: job.status.clone(),
        original_filename: owned(original_filename),
    }
}

/// A job as listed: its fields, the upload's file name, and whether it can
/// be retried.
pub fn job_summary(job: &JobRecord, original_filename: &str) -> (r: JobSummary)
    ensures
        r.id == job.id,
        r.status@ == job.status@,
        r.provider_key@ == job.provider_key@,
        r.batch_id == job.batch_id,
        r.upload_id == job.upload_id,
        r.original_filename@ == original_filename@,
        r.error_message.deep_view() == job.error_message.deep_view(),
        r.created_at@ == job.created_at@,
        r.retryable == (job.status@ == "failed"@),
{
    JobSummary {
        id: job.id,
        status: job.status.clone(),
        provider_key: job.provider_key.clone(),
        batch_id: job.batch_id,
        upload_id: job.upload_id,
        original_filename: owned(original_filename),
        error_message: clone_opt_text(&job.error_message),
        created_at: job.created_at.clone(),
        retryable: is_retryable(job.status.as_str()),
    }
}

/// A job in detail: its fields, the upload's file name, its result if it
/// has one, and whether it can be retried.
pub fn job_detail(job: &JobRecord, original_filename: &str, result: Option<&ResultRecord>) -> (r: JobDetail)
    ensures
        r.id == job.id,
        r.status@ == job.status@,
        r.provider_key@ == job.provider_key@,
        r.batch_id == job.batch_id,
        r.upload_id == job.upload_id,
        r.original_filename@ == original_filename@,
        r.error_message.deep_view() == job.error_message.deep_view(),
        r.created_at@ == job.created_at@,
        r.started_at.deep_view() == job.started_at.deep_view(),
        r.completed_at.deep_view() == job.completed_at.deep_view(),
        r.markdown_path.deep_view() == (match result {
            Some(res) => Some(res.markdown_path@),
            None => None,
        }),
        r.transcript_text.deep_view() == (match result {
            Some(res) => Some(res.transcript_text@),
            None => None,
        }),
        r.retryable == (job.status@ == "failed"@),
{
    let (markdown_path, transcript_text) = match result {
        Some(res) => (Some(res.markdown_path.clone()), Some(res.transcript_text.clone())),
        None => (None, None),
    };
    JobDetail {
        id: job.id,
        status: job.status.clone(),
        provider_key: job.provider_key.clone(),
        batch_id: job.batch_id,
        upload_id: job.upload_id,
        original_filename: owned(original_filename),
        error_message: clone_opt_text(&job.error_message),
        markdown_path,
        transcript_text,
        created_at: job.created_at.clone(),
        started_at: clone_opt_text(&job.started_at),
        completed_at: clone_opt_text(&job.completed_at),
        retryable: is_retryable(job.status.as_str()),
    }
}

/// A batch with the details of its jobs that still exist, in the order given.
pub fn batch_detail(batch_id: i64, created_at: String, jobs: Vec<Option<JobDetail>>) -> (r: BatchDetail)
    ensures
        r.id == batch_id,
        r.created_at == created_at,
        r.jobs@ == jobs@.filter_map(|d: Option<JobDetail>| d),
{
    let ghost src = jobs@;
    let mut rest = jobs;
    let mut out: Vec<JobDetail> = Vec::new();
    let ghost mut k: int = 0;
    assert(src.take(0) =~= Seq::<Option<JobDetail>>::empty());
    assert(src.skip(0) =~= src);
    while rest.len() > 0
        invariant
            0 <= k <= src.len(),
            rest@ == src.skip(k),
            out@ == src.take(k).filter_map(|d: Option<JobDetail>| d),
        decreases rest.len(),
    {
        let d = rest.remove(0);
        proof {
            assert(src.take(k + 1).drop_last() =~= src.take(k));
            assert(src.take(k + 1).last() == d);
            assert(rest@ =~= src.skip(k + 1));
        }
        match d {
            Some(detail) => {
                out.push(detail);
            },
            None => {},
        }
        proof {
            k = k + 1;
        }
    }
    assert(src.take(k) =~= src);
    BatchDetail { id: batch_id, created_at, jobs: out }
}

/// Where the transcript of job `job_id` was written.
pub fn transcript_path(job_id: i64, detail: Option<&JobDetail>) -> (r: Result<String, String>)
    ensures
        match detail {
            None => r matches Err(e) && e@ == not_found_message(job_id),
            Some(d) => match d.markdown_path {
                Some(p) => r matches Ok(q) && q@ == p@,
                None => r matches Err(e) && e@ == "Transcript not available"@,
            },
        },
{
    match detail {
        None => Err(job_not_found(job_id)),
        Some(d) => match &d.markdown_path {
            Some(p) => Ok(p.clone()),
            None => Err(owned("Transcript not available")),
        },
    }
}

} // verus!

verus! {

/// The work of one transcription, loaded before any network traffic.
#[derive(Debug, Clone)]
pub struct PreparedTranscription {
    pub audio_path: String,
    pub opts: TranscribeOptions,
}

/// What preparing a job came to.
#[derive(Debug)]
pub enum Preparation {
    /// The job is already completed: there is nothing to do.
    AlreadyCompleted,
    /// The job, now processing, is ready to be transcribed.
    Ready { job: JobRecord, prepared: PreparedTranscription },
    /// The job cannot be transcribed: it is marked failed with `message`.
    Refused { job: JobRecord, message: String },
}

/// The message for a provider this version cannot run.
pub open spec fn provider_unavailable_message(provider_key: Seq<char>) -> Seq<char> {
    "Provider "@ + provider_key + " is not available in this version"@
}

/// The message for a workspace without an AssemblyAI key.
pub open spec fn missing_key_message() -> Seq<char> {
    "AssemblyAI requires an API key in Settings"@
}

/// The language to ask the provider for: none when the workspace says `auto`.
pub open spec fn requested_language_of(language: Seq<char>) -> Option<Seq<char>> {
    if language == "auto"@ {
        None
    } else {
        Some(language)
    }
}

fn provider_unavailable(provider_key: &str) -> (r: String)
    ensures
        r@ == provider_unavailable_message(provider_key@),
{
    let mut m = owned("Provider ");
    push_text(&mut m, provider_key);
    push_text(&mut m, " is not available in this version");
    m
}

/// Prepares job `job_id` for transcription at `now`, given the stored job
/// (if any), its upload's audio path and the workspace settings. A completed
/// job needs nothing; any other is marked processing, then refused (and
/// marked failed) when its provider is not AssemblyAI or no usable key is
/// stored; otherwise it is ready, with the key, the workspace language
/// (none for `auto`), a 3 second poll interval and at most 60 polls.
pub fn prepare_transcription(
    job_id: i64,
    job: Option<JobRecord>,
    audio_path: String,
    settings: &SettingsRecord,
    now: String,
) -> (r: Result<Preparation, String>)
    ensures
        match job {
            None => r matches Err(e) && e@ == not_found_message(job_id),
            Some(j) => if j.status@ == "completed"@ {
                r matches Ok(Preparation::AlreadyCompleted)
            } else if j.provider_key@ != "assemblyai"@ {
                r matches Ok(Preparation::Refused { job: out, message }) && message@
                    == provider_unavailable_message(j.provider_key@) && out@ == failed_job(
                    processing_job(j@, now@),
                    message@,
                    now@,
                )
            } else {
                match usable_key(settings.assemblyai_api_key.deep_view()) {
                    None => r matches Ok(Preparation::Refused { job: out, message }) && message@
                        == missing_key_message() && out@ == failed_job(
                        processing_job(j@, now@),
                        message@,
                        now@,
                    ),
                    Some(k) => r matches Ok(Preparation::Ready { job: out, prepared }) && out@
                        == processing_job(j@, now@) && prepared.audio_path@ == audio_path@
                        && prepared.opts.api_key@ == k && prepared.opts.language.deep_view()
                        == requested_language_of(settings.language@)
                        && prepared.opts.poll_interval == duration_of_secs(3)
                        && prepared.opts.max_polls == 60,
                }
            },
        },
        r matches Ok(Preparation::Refused { job: out, .. }) ==> out.status@ == "failed"@,
        r matches Ok(Preparation::Ready { job: out, prepared }) ==> out.status@ == "processing"@ && (
        settings.language@ == "auto"@ ==> prepared.opts.language is None) && (settings.language@ != "auto"@
            ==> prepared.opts.language.deep_view() == Some(settings.language@)),
{
    let job = match job {
        None => {
            return Err(job_not_found(job_id));
        },
        Some(j) => j,
    };
    if same_text(job.status.as_str(), "completed") {
        return Ok(Preparation::AlreadyCompleted);
    }
    let job = mark_job_processing(job, now.clone());
    if !same_text(job.provider_key.as_str(), "assemblyai") {
        let message = provider_unavailable(job.provider_key.as_str());
        let job = mark_job_failed(job, message.as_str(), now);
        return Ok(Preparation::Refused { job, message });
    }
    let api_key = match assemblyai_api_key(settings) {
        Some(k) => k,
        None => {
            let message = owned("AssemblyAI requires an API key in Settings");
            let job = mark_job_failed(job, message.as_str(), now);
            return Ok(Preparation::Refused { job, message });
        },
    };
    let language = if same_text(settings.language.as_str(), "auto") {
        None
    } else {
        Some(settings.language.clone())
    };
    let opts = TranscribeOptions {
        api_key,
        language,
        poll_interval: Duration::from_secs(3),
        max_polls: 60,
    };
    Ok(Preparation::Ready { job, prepared: PreparedTranscription { audio_path, opts } })
}

/// What finishing a transcription came to.
#[derive(Debug)]
pub enum Finish {
    /// The job is completed; `completion` holds the transcript to store.
    Completed { completion: Completion, outcome: TranscriptionOutcome },
    /// The transcription failed with `message`; the job is marked failed.
    Failed { job: JobRecord, message: String },
    /// The job no longer exists; `message` is the error to report.
    Missing { message: String },
}

/// Finishes job `job_id` at `now` with the transcription's result: a
/// success completes the job as `mark_job_completed` does; a failure marks
/// it failed and is reported with the same message.
pub fn finish_transcription(
    storage: &StorageRoot,
    job_id: i64,
    job: Option<JobRecord>,
    original_filename: &str,
    result: Result<TranscriptionOutcome, String>,
    now: String,
) -> (r: Finish)
    ensures
        match (job, result) {
            (Some(j), Ok(o)) => r matches Finish::Completed { completion: c, outcome } && c.job@
                == completed_job(j@, now@) && c.markdown@ == rendered(
                o.text@,
                original_filename@,
                j.provider_key@,
            ) && c.result.markdown_path@ == storage.spec_markdown_path(j.upload_id)
                && c.result.transcript_text@ == o.text@ && outcome == o,
            (Some(j), Err(e)) => r matches Finish::Failed { job: out, message } && out@ == failed_job(
                j@,
                e@,
                now@,
            ) && message@ == e@,
            (None, Ok(_)) => r matches Finish::Missing { message } && message@ == not_found_message(
                job_id,
            ),
            (None, Err(e)) => r matches Finish::Missing { message } && message@ == e@,
        },
{
    match result {
        Ok(outcome) => match mark_job_completed(storage, job_id, job, original_filename, &outcome, now) {
            Ok(completion) => Finish::Completed { completion, outcome },
            Err(message) => Finish::Missing { message },
        },
        Err(message) => match job {
            Some(j) => {
                let job = mark_job_failed(j, message.as_str(), now);
                Finish::Failed { job, message }
            },
            None => Finish::Missing { message },
        },
    }
}

/// The message for a file whose type cannot be transcribed.
pub open spec fn unsupported_message(filename: Seq<char>) -> Seq<char> {
    "Unsupported file type: "@ + filename + ". Use common audio formats or MP4/MOV/MKV."@
}

/// The message for a file that is not where it was said to be.
pub open spec fn missing_source_message(source_path: Seq<char>) -> Seq<char> {
    "Source file missing: "@ + source_path
}

/// The first objection to a list of files, checked in order, each file for
/// its type and then for its presence (`exists[i]` tells whether file `i`
/// is present).
pub open spec fn upload_refusal(files: Seq<NewUploadFile>, exists: Seq<bool>) -> Option<Seq<char>>
    decreases files.len(),
{
    if files.len() == 0 || exists.len() == 0 {
        None
    } else if !supported_name(files[0].filename@) {
        Some(unsupported_message(files[0].filename@))
    } else if !exists[0] {
        Some(missing_source_message(files[0].source_path@))
    } else {
        upload_refusal(files.drop_first(), exists.drop_first())
    }
}

/// Checks a list of files offered for transcription, `source_exists[i]`
/// telling whether file `i` is present. An empty list is refused, then the
/// first unsupported or missing file; an accepted list says whether its
/// jobs form a batch: they do when there is more than one file.
pub fn plan_uploads(files: &[NewUploadFile], source_exists: &[bool]) -> (r: Result<bool, String>)
    requires
        files@.len() == source_exists@.len(),
    ensures
        files@.len() == 0 ==> (r matches Err(e) && e@ == "No files provided"@),
        files@.len() > 0 ==> match r {
            Ok(batched) => upload_refusal(files@, source_exists@) is None && batched == (files@.len() > 1),
            Err(e) => upload_refusal(files@, source_exists@) == Some(e@),
        },
{
    let n = files.len();
    if n == 0 {
        return Err(owned("No files provided"));
    }
    let mut i: usize = 0;
    assert(files@.skip(0) =~= files@);
    assert(source_exists@.skip(0) =~= source_exists@);
    while i < n
        invariant
            n == files@.len(),
            n == source_exists@.len(),
            i <= n,
            upload_refusal(files@, source_exists@) == upload_refusal(files@.skip(i as int), source_exists@.skip(i as int)),
        decreases n - i,
    {
        let f = &files[i];
        let ghost fs = files@.skip(i as int);
        let ghost es = source_exists@.skip(i as int);
        assert(fs[0] == files@[i as int]);
        assert(es[0] == source_exists@[i as int]);
        if !is_supported(f.filename.as_str()) {
            let mut m = owned("Unsupported file type: ");
            push_text(&mut m, f.filename.as_str());
            push_text(&mut m, ". Use common audio formats or MP4/MOV/MKV.");
            return Err(m);
        }
        if !source_exists[i] {
            let mut m = owned("Source file missing: ");
            push_text(&mut m, f.source_path.as_str());
            return Err(m);
        }
        assert(fs.drop_first() =~= files@.skip(i + 1));
        assert(es.drop_first() =~= source_exists@.skip(i + 1));
        i = i + 1;
    }
    assert(files@.skip(n as int) =~= Seq::<NewUploadFile>::empty());
    Ok(n > 1)
}

} // verus!

verus! {

/// Processing never touches a completed job.
pub proof fn law_processing_keeps_completed(j: JobView, now: Seq<char>)
    requires
        j.status == "completed"@,
    ensures
        processing_job(j, now) == j,
{
}

/// A failed job can be retried: retrying queues it again with its error and
/// times cleared, and keeps what identifies it.
pub proof fn law_failed_job_requeues(j: JobView, message: Seq<char>, failed_at: Seq<char>, retried_at: Seq<char>)
    ensures
        failed_job(j, message, failed_at).status == "failed"@,
        requeued_job(failed_job(j, message, failed_at), retried_at) == queued_job(
            j.id,
            j.upload_id,
            j.batch_id,
            j.provider_key,
            j.created_at,
        ).with_updated_at(retried_at),
{
}

impl JobView {
    /// The same job, last updated at `t`.
    pub open spec fn with_updated_at(self, t: Seq<char>) -> JobView {
        JobView { updated_at: t, ..self }
    }
}

/// A completed job has no error and cannot be retried.
pub proof fn law_completed_not_retryable(j: JobView, now: Seq<char>)
    ensures
        completed_job(j, now).error_message is None,
        completed_job(j, now).status != "failed"@,
{
    reveal_strlit("completed");
    reveal_strlit("failed");
    assert("completed"@[0] != "failed"@[0]);
}

/// A job that processing starts is no longer retryable and has no error.
pub proof fn law_processing_clears_error(j: JobView, now: Seq<char>)
    requires
        j.status != "completed"@,
    ensures
        processing_job(j, now).error_message is None,
        processing_job(j, now).status != "failed"@,
        processing_job(j, now).started_at == Some(now),
{
    reveal_strlit("processing");
    reveal_strlit("failed");
    assert("processing"@[0] != "failed"@[0]);
}

/// A failed job keeps the message when it has at most 500 characters, and
/// otherwise its first 500 characters.
pub proof fn law_stored_error_is_prefix(message: Seq<char>)
    ensures
        stored_error(message).len() <= 500,
        stored_error(message) == message.take(stored_error(message).len() as int),
        message.len() <= 500 ==> stored_error(message) == message,
{
    if message.len() <= 500 {
        assert(message.take(message.len() as int) =~= message);
    }
}

} // verus!

verus! {

/// The audio extensions are exactly wav, mp3, ogg, opus, m4a, flac, webm,
/// aac, wma, mpga and oga.
pub proof fn law_audio_extensions(e: Seq<char>)
    ensures
        audio_extensions().contains(e) <==> (e == "wav"@ || e == "mp3"@ || e == "ogg"@ || e == "opus"@ || e
            == "m4a"@ || e == "flac"@ || e == "webm"@ || e == "aac"@ || e == "wma"@ || e == "mpga"@ || e
            == "oga"@),
{
    let a = audio_extensions();
    assert(a[0] == "wav"@ && a[1] == "mp3"@ && a[2] == "ogg"@ && a[3] == "opus"@ && a[4] == "m4a"@ && a[5]
        == "flac"@ && a[6] == "webm"@ && a[7] == "aac"@ && a[8] == "wma"@ && a[9] == "mpga"@ && a[10]
        == "oga"@);
    if a.contains(e) {
        let i = choose|i: int| 0 <= i < a.len() && a[i] == e;
    }
}

/// The video extensions are exactly mp4, mov and mkv.
pub proof fn law_video_extensions(e: Seq<char>)
    ensures
        video_extensions().contains(e) <==> (e == "mp4"@ || e == "mov"@ || e == "mkv"@),
{
    let a = video_extensions();
    assert(a[0] == "mp4"@ && a[1] == "mov"@ && a[2] == "mkv"@);
    if a.contains(e) {
        let i = choose|i: int| 0 <= i < a.len() && a[i] == e;
    }
}

/// A file can be transcribed exactly when its lower-cased extension is one
/// of the audio extensions (wav, mp3, ogg, opus, m4a, flac, webm, aac, wma,
/// mpga, oga) or one of the video extensions mp4, mov and mkv.
pub proof fn law_supported_names(filename: Seq<char>)
    ensures
        supported_name(filename) <==> ({
            let e = lowered_extension(filename);
            e == "wav"@ || e == "mp3"@ || e == "ogg"@ || e == "opus"@ || e == "m4a"@ || e == "flac"@ || e
                == "webm"@ || e == "aac"@ || e == "wma"@ || e == "mpga"@ || e == "oga"@ || e == "mp4"@ || e
                == "mov"@ || e == "mkv"@
        }),
{
    law_audio_extensions(lowered_extension(filename));
    law_video_extensions(lowered_extension(filename));
}

/// A file is a video when its lower-cased extension is mp4, mov or mkv,
/// whatever its MIME type says.
pub proof fn law_video_by_extension(filename: Seq<char>)
    ensures
        (lowered_extension(filename) == "mp4"@ || lowered_extension(filename) == "mov"@ || lowered_extension(
            filename,
        ) == "mkv"@) ==> video_extensions().contains(lowered_extension(filename)),
{
    law_video_extensions(lowered_extension(filename));
}

/// The language asked of the provider: none when the workspace language is
/// `auto` (the provider detects it), the workspace language otherwise.
pub proof fn law_prepared_language(language: Seq<char>)
    ensures
        language == "auto"@ ==> requested_language_of(language) is None,
        language != "auto"@ ==> requested_language_of(language) == Some(language),
{
}

/// An upload list that is not refused has every file of a supported type
/// and every source present.
pub proof fn law_accepted_uploads_present(files: Seq<NewUploadFile>, exists: Seq<bool>)
    requires
        files.len() == exists.len(),
        upload_refusal(files, exists) is None,
    ensures
        forall|i: int| 0 <= i < files.len() ==> #[trigger] exists[i] && supported_name(files[i].filename@),
    decreases files.len(),
{
    if files.len() > 0 {
        law_accepted_uploads_present(files.drop_first(), exists.drop_first());
        assert forall|i: int| 0 <= i < files.len() implies #[trigger] exists[i] && supported_name(
            files[i].filename@,
        ) by {
            if i > 0 {
                assert(exists[i] == exists.drop_first()[i - 1]);
                assert(files[i] == files.drop_first()[i - 1]);
            }
        }
    }
}

/// An upload list is refused at its first problem: where every file before
/// file `i` is supported and present, an unsupported file `i` is refused for
/// its type, and a supported file `i` whose source is missing is refused for
/// its source path.
pub proof fn law_first_problem_refused(files: Seq<NewUploadFile>, exists: Seq<bool>, i: int)
    requires
        files.len() == exists.len(),
        0 <= i < files.len(),
        forall|j: int| 0 <= j < i ==> #[trigger] exists[j] && supported_name(files[j].filename@),
    ensures
        !supported_name(files[i].filename@) ==> upload_refusal(files, exists) == Some(
            "Unsupported file type: "@ + files[i].filename@ + ". Use common audio formats or MP4/MOV/MKV."@,
        ),
        supported_name(files[i].filename@) && !exists[i] ==> upload_refusal(files, exists) == Some(
            "Source file missing: "@ + files[i].source_path@,
        ),
    decreases i,
{
    if i > 0 {
        assert(exists[0] && supported_name(files[0].filename@));
        let fs = files.drop_first();
        let es = exists.drop_first();
        assert forall|j: int| 0 <= j < i - 1 implies #[trigger] es[j] && supported_name(fs[j].filename@) by {
            assert(es[j] == exists[j + 1]);
            assert(fs[j] == files[j + 1]);
        }
        law_first_problem_refused(fs, es, i - 1);
        assert(fs[i - 1] == files[i]);
        assert(es[i - 1] == exists[i]);
    }
}

/// The statuses a job goes through: a new job is queued with no error or
/// times; processing starts it (a completed job excepted); completing it
/// clears its error and stamps its completion; failing it keeps the error
/// and stamps its completion; retrying queues it again with error and times
/// cleared. None of these changes what identifies the job.
pub proof fn law_job_statuses(j: JobView, message: Seq<char>, now: Seq<char>)
    ensures
        queued_job(j.id, j.upload_id, j.batch_id, j.provider_key, now).status == "queued"@,
        queued_job(j.id, j.upload_id, j.batch_id, j.provider_key, now).error_message is None,
        queued_job(j.id, j.upload_id, j.batch_id, j.provider_key, now).started_at is None,
        queued_job(j.id, j.upload_id, j.batch_id, j.provider_key, now).completed_at is None,
        j.status != "completed"@ ==> processing_job(j, now).status == "processing"@
            && processing_job(j, now).started_at == Some(now),
        completed_job(j, now).status == "completed"@ && completed_job(j, now).completed_at == Some(now)
            && completed_job(j, now).error_message is None,
        failed_job(j, message, now).status == "failed"@ && failed_job(j, message, now).completed_at == Some(now)
            && failed_job(j, message, now).error_message == Some(stored_error(message)),
        requeued_job(j, now).status == "queued"@ && requeued_job(j, now).error_message is None
            && requeued_job(j, now).started_at is None && requeued_job(j, now).completed_at is None,
        ({
            let same_job = |k: JobView|
                k.id == j.id && k.upload_id == j.upload_id && k.batch_id == j.batch_id && k.provider_key
                    == j.provider_key && k.created_at == j.created_at;
            same_job(processing_job(j, now)) && same_job(completed_job(j, now)) && same_job(
                failed_job(j, message, now),
            ) && same_job(requeued_job(j, now))
        }),
{
}

} // verus!
