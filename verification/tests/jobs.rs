use mass_transcriptor::assemblyai::{
    start_transcription, transcription_step, ReplyFields, TranscribeAction, TranscribeOptions,
};
use mass_transcriptor::grouping::{build_job_list_rows, JobListRow};
use mass_transcriptor::jobs::{
    batch_detail, created_job, extension, finish_transcription, is_retryable, is_supported,
    is_video, job_detail, job_summary, mark_job_completed, mark_job_failed, mark_job_processing,
    plan_uploads, prepare_transcription, retry_job, transcript_path, Finish, JobRecord,
    Preparation, is_audio_extension, is_video_extension,
};
use mass_transcriptor::markdown::render;
use mass_transcriptor::models::{NewUploadFile, TranscriptMetadata, TranscriptionOutcome};
use mass_transcriptor::settings::{update_settings, SettingsRecord};
use mass_transcriptor::storage::StorageRoot;
use mass_transcriptor::models::UpdateSettingsInput;
use std::time::Duration;

fn settings(key: Option<&str>, language: &str) -> SettingsRecord {
    let seeded = SettingsRecord::seeded("t0".into());
    update_settings(
        &seeded,
        UpdateSettingsInput {
            workspace_name: "Local".into(),
            default_provider: "assemblyai".into(),
            assemblyai_api_key: key.map(|k| k.to_string()),
            language: language.into(),
        },
        "t0".into(),
    )
    .unwrap()
}

fn file(name: &str) -> NewUploadFile {
    NewUploadFile {
        filename: name.into(),
        mime_type: "audio/wav".into(),
        size_bytes: 10,
        source_path: format!("/tmp/{name}"),
    }
}

fn outcome(text: &str) -> TranscriptionOutcome {
    TranscriptionOutcome {
        text: text.into(),
        metadata: TranscriptMetadata { id: "x".into(), language_code: None },
    }
}

fn reply() -> ReplyFields {
    ReplyFields { upload_url: None, id: None, status: None, text: None, error: None, language_code: None }
}

/// A scripted provider: the upload and request succeed; polls report
/// processing once, then completion, or an error when `fail`.
fn transcribe(opts: &TranscribeOptions, fail: bool) -> Result<TranscriptionOutcome, String> {
    let (mut state, mut action) = start_transcription(opts);
    let mut polls = 0;
    loop {
        let r = match &action {
            TranscribeAction::UploadAudio { .. } => {
                Ok(ReplyFields { upload_url: Some("https://cdn.example/a.wav".into()), ..reply() })
            }
            TranscribeAction::CreateTranscript { .. } => Ok(ReplyFields { id: Some("tr_1".into()), ..reply() }),
            TranscribeAction::PollTranscript { .. } => {
                polls += 1;
                if fail {
                    Ok(ReplyFields { status: Some("error".into()), error: Some("provider boom".into()), ..reply() })
                } else if polls == 1 {
                    Ok(ReplyFields { status: Some("processing".into()), ..reply() })
                } else {
                    Ok(ReplyFields {
                        status: Some("completed".into()),
                        text: Some("shipped domain transcript".into()),
                        id: Some("tr_1".into()),
                        ..reply()
                    })
                }
            }
            TranscribeAction::Finish { .. } => unreachable!(),
        };
        let (s, a) = transcription_step(opts, state, r);
        state = s;
        action = a;
        if let TranscribeAction::Finish { result } = action {
            return result;
        }
    }
}

#[test]
fn lifecycle_create_complete_list_retry() {
    let storage = StorageRoot::new("/data/storage".into());
    let files = vec![NewUploadFile {
        filename: "clip.wav".into(),
        mime_type: "audio/wav".into(),
        size_bytes: 16,
        source_path: "/tmp/clip.wav".into(),
    }];
    let batched = plan_uploads(&files, &[true]).unwrap();
    assert!(!batched);
    let job = JobRecord::queued(1, 1, None, "assemblyai".into(), "t1".into());
    let created = vec![created_job(&job, &files[0].filename)];
    assert_eq!(created.len(), 1);
    assert_eq!(created[0].status, "queued");
    assert!(created[0].batch_id.is_none());

    // complete (simulating success)
    let job = mark_job_processing(job, "t2".into());
    let completion = mark_job_completed(&storage, 1, Some(job), "clip.wav", &outcome("hello world"), "t3".into()).unwrap();
    assert!(completion.markdown.contains("hello world"));
    assert!(completion.markdown.contains("clip.wav"));
    assert_eq!(completion.result.transcript_text, "hello world");
    let job = completion.job;
    let result = completion.result;
    let detail = job_detail(&job, "clip.wav", Some(&result));
    assert_eq!(detail.status, "completed");
    assert_eq!(detail.transcript_text.as_deref(), Some("hello world"));
    assert!(detail.markdown_path.as_ref().unwrap().contains("transcript.md"));

    let list = vec![job_summary(&job, "clip.wav")];
    assert_eq!(list.len(), 1);
    assert_eq!(list[0].status, "completed");

    // fail + retry
    let job = mark_job_failed(job, "forced fail", "t4".into());
    let failed = job_detail(&job, "clip.wav", Some(&result));
    assert_eq!(failed.status, "failed");
    assert!(failed.retryable);

    let retried = retry_job(1, Some(job), "t5".into()).unwrap();
    let retried = job_detail(&retried, "clip.wav", None);
    assert_eq!(retried.status, "queued");
    assert!(retried.error_message.is_none());
}

#[test]
fn list_job_rows_groups_batch_and_single() {
    let a = JobRecord::queued(1, 1, Some(1), "assemblyai".into(), "2026-01-01T10:00:00Z".into());
    let b = JobRecord::queued(2, 2, Some(1), "assemblyai".into(), "2026-01-01T10:00:00Z".into());
    let solo = JobRecord::queued(3, 3, None, "assemblyai".into(), "2026-01-01T10:00:01Z".into());
    // listed by id, newest id first
    let jobs = vec![
        job_summary(&solo, "solo.wav"),
        job_summary(&b, "b.wav"),
        job_summary(&a, "a.wav"),
    ];
    let rows = build_job_list_rows(&jobs);
    assert_eq!(rows.len(), 2, "one batch row + one single row");
    let has_batch = rows.iter().any(|r| matches!(r, JobListRow::Batch { jobs, .. } if jobs.len() == 2));
    let has_single = rows
        .iter()
        .any(|r| matches!(r, JobListRow::Single { job } if job.original_filename == "solo.wav"));
    assert!(has_batch);
    assert!(has_single);
}

#[test]
fn rejects_unsupported_and_empty_uploads() {
    let err = plan_uploads(&[], &[]).unwrap_err();
    assert!(err.to_lowercase().contains("no files"));

    let err = plan_uploads(
        &[NewUploadFile {
            filename: "notes.txt".into(),
            mime_type: "text/plain".into(),
            size_bytes: 1,
            source_path: "/tmp/notes.txt".into(),
        }],
        &[true],
    )
    .unwrap_err();
    assert!(err.to_lowercase().contains("unsupported") || err.contains("notes.txt"));

    // missing source
    let err = plan_uploads(
        &[NewUploadFile {
            filename: "gone.wav".into(),
            mime_type: "audio/wav".into(),
            size_bytes: 1,
            source_path: "/tmp/does-not-exist-mt-test.wav".into(),
        }],
        &[false],
    )
    .unwrap_err();
    assert!(err.to_lowercase().contains("missing") || err.contains("gone.wav"));
}

#[test]
fn upload_refusals_come_in_file_order_with_exact_messages() {
    let files = vec![file("a.wav"), file("b.txt"), file("c.wav")];
    assert_eq!(
        plan_uploads(&files, &[true, true, false]).unwrap_err(),
        "Unsupported file type: b.txt. Use common audio formats or MP4/MOV/MKV."
    );
    assert_eq!(
        plan_uploads(&files[..1], &[false]).unwrap_err(),
        "Source file missing: /tmp/a.wav"
    );
    assert_eq!(plan_uploads(&[], &[]).unwrap_err(), "No files provided");
    assert_eq!(plan_uploads(&[file("A.MKV"), file("b.Opus")], &[true, true]), Ok(true));
}

#[test]
fn multi_file_creates_batch() {
    let files = vec![file("a.wav"), file("b.wav")];
    assert!(plan_uploads(&files, &[true, true]).unwrap());
    let batch_id = 7;
    let jobs: Vec<JobRecord> = files
        .iter()
        .enumerate()
        .map(|(i, _)| JobRecord::queued(i as i64 + 1, i as i64 + 1, Some(batch_id), "assemblyai".into(), "t".into()))
        .collect();
    let created: Vec<_> = jobs.iter().zip(&files).map(|(j, f)| created_job(j, &f.filename)).collect();
    assert_eq!(created.len(), 2);
    let batch_id = created[0].batch_id.unwrap();
    assert_eq!(created[1].batch_id, Some(batch_id));

    let details = jobs.iter().zip(&files).map(|(j, f)| Some(job_detail(j, &f.filename, None))).collect();
    let batch = batch_detail(batch_id, "t".into(), details);
    assert_eq!(batch.jobs.len(), 2);
    assert_eq!(batch.id, 7);
}

#[test]
fn batch_detail_skips_missing_jobs() {
    let j = JobRecord::queued(5, 5, Some(2), "assemblyai".into(), "t".into());
    let batch = batch_detail(2, "c".into(), vec![None, Some(job_detail(&j, "x.wav", None)), None]);
    assert_eq!(batch.jobs.len(), 1);
    assert_eq!(batch.jobs[0].id, 5);
    assert_eq!(batch.created_at, "c");
}

#[test]
fn process_job_success_and_failure_via_transport() {
    let settings = settings(Some("test-key"), "auto");
    let job = JobRecord::queued(1, 1, None, "assemblyai".into(), "t".into());
    let (job, mut prepared) = match prepare_transcription(1, Some(job), "/a/talk.wav".into(), &settings, "t1".into()).unwrap() {
        Preparation::Ready { job, prepared } => (job, prepared),
        other => panic!("expected ready, got {other:?}"),
    };
    assert_eq!(job.status, "processing");
    prepared.opts.poll_interval = Duration::ZERO;
    let result = transcribe(&prepared.opts, false);
    let storage = StorageRoot::new("/data/storage".into());
    let job = match finish_transcription(&storage, 1, Some(job), "talk.wav", result, "t2".into()) {
        Finish::Completed { completion, outcome } => {
            assert_eq!(completion.result.transcript_text, outcome.text);
            let job = completion.job;
            let detail = job_detail(&job, "talk.wav", Some(&completion.result));
            assert_eq!(detail.status, "completed");
            assert_eq!(detail.transcript_text.as_deref(), Some("shipped domain transcript"));
            job
        }
        other => panic!("expected completion, got {other:?}"),
    };
    assert_eq!(job.status, "completed");

    // failure path
    let job2 = JobRecord::queued(2, 2, None, "assemblyai".into(), "t".into());
    let (job2, prepared) = match prepare_transcription(2, Some(job2), "/a/bad.wav".into(), &settings, "t3".into()).unwrap() {
        Preparation::Ready { job, prepared } => (job, prepared),
        other => panic!("expected ready, got {other:?}"),
    };
    let err = transcribe(&prepared.opts, true);
    match finish_transcription(&storage, 2, Some(job2), "bad.wav", err, "t4".into()) {
        Finish::Failed { job, message } => {
            assert_eq!(message, "provider boom");
            let failed = job_detail(&job, "bad.wav", None);
            assert_eq!(failed.status, "failed");
            assert_eq!(failed.error_message.as_deref(), Some("provider boom"));
        }
        other => panic!("expected failure, got {other:?}"),
    }
}

#[test]
fn prepare_skips_completed_and_fails_without_api_key() {
    let with_key = settings(Some("test-key"), "auto");
    let job = JobRecord::queued(1, 1, None, "assemblyai".into(), "t".into());
    let job = mark_job_processing(job, "t1".into());
    let storage = StorageRoot::new("/data/storage".into());
    let job = mark_job_completed(&storage, 1, Some(job), "c.wav", &outcome("done"), "t2".into()).unwrap().job;
    assert!(matches!(
        prepare_transcription(1, Some(job), "/a/c.wav".into(), &with_key, "t3".into()).unwrap(),
        Preparation::AlreadyCompleted
    ));

    // clear api key, new job → prepare refuses and marks failed
    let cleared = update_settings(
        &with_key,
        UpdateSettingsInput {
            workspace_name: "Local".into(),
            default_provider: "assemblyai".into(),
            assemblyai_api_key: Some("".into()),
            language: "auto".into(),
        },
        "t4".into(),
    )
    .unwrap();
    let job2 = JobRecord::queued(2, 2, None, "assemblyai".into(), "t".into());
    match prepare_transcription(2, Some(job2), "/a/n.wav".into(), &cleared, "t5".into()).unwrap() {
        Preparation::Refused { job, message } => {
            assert!(message.to_lowercase().contains("api key"));
            assert_eq!(job.status, "failed");
            assert_eq!(job.started_at.as_deref(), Some("t5"));
        }
        other => panic!("expected refusal, got {other:?}"),
    }
}

#[test]
fn prepare_reports_missing_job_and_unavailable_provider() {
    let s = settings(Some("k"), "en");
    assert_eq!(
        prepare_transcription(42, None, String::new(), &s, "t".into()).unwrap_err(),
        "Job 42 not found"
    );
    let job = JobRecord::queued(3, 3, None, "whisper".into(), "t".into());
    match prepare_transcription(3, Some(job), "/a/w.wav".into(), &s, "t1".into()).unwrap() {
        Preparation::Refused { job, message } => {
            assert_eq!(message, "Provider whisper is not available in this version");
            assert_eq!(job.status, "failed");
            assert_eq!(job.error_message.as_deref(), Some("Provider whisper is not available in this version"));
        }
        other => panic!("expected refusal, got {other:?}"),
    }
    let job = JobRecord::queued(4, 4, None, "assemblyai".into(), "t".into());
    match prepare_transcription(4, Some(job), "/a/e.wav".into(), &s, "t1".into()).unwrap() {
        Preparation::Ready { prepared, .. } => {
            assert_eq!(prepared.audio_path, "/a/e.wav");
            assert_eq!(prepared.opts.api_key, "k");
            assert_eq!(prepared.opts.language.as_deref(), Some("en"));
            assert_eq!(prepared.opts.poll_interval, Duration::from_secs(3));
            assert_eq!(prepared.opts.max_polls, 60);
        }
        other => panic!("expected ready, got {other:?}"),
    }
}

#[test]
fn read_transcript_and_reject_non_retryable() {
    let storage = StorageRoot::new("/data/storage".into());
    let job = JobRecord::queued(1, 9, None, "assemblyai".into(), "t".into());
    let job = mark_job_processing(job, "t1".into());
    let (job, md, result) = match finish_transcription(&storage, 1, Some(job), "r.wav", Ok(outcome("read me")), "t2".into()) {
        Finish::Completed { completion, .. } => (completion.job, completion.markdown, completion.result),
        other => panic!("expected completion, got {other:?}"),
    };
    let detail = job_detail(&job, "r.wav", Some(&result));
    assert_eq!(
        transcript_path(1, Some(&detail)).unwrap(),
        "/data/storage/uploads/9/transcript/transcript.md"
    );
    assert!(md.contains("read me"));
    assert!(md.contains("r.wav"));

    let err = retry_job(1, Some(job), "t3".into()).unwrap_err();
    assert!(err.to_lowercase().contains("not retryable"));
}

#[test]
fn transcript_path_errors() {
    assert_eq!(transcript_path(-5, None).unwrap_err(), "Job -5 not found");
    let job = JobRecord::queued(1, 1, None, "assemblyai".into(), "t".into());
    let detail = job_detail(&job, "a.wav", None);
    assert_eq!(transcript_path(1, Some(&detail)).unwrap_err(), "Transcript not available");
    assert_eq!(retry_job(77, None, "t".into()).unwrap_err(), "Job 77 not found");
}

#[test]
fn status_transitions() {
    let job = JobRecord::queued(1, 1, Some(3), "assemblyai".into(), "t0".into());
    assert_eq!(job.status, "queued");
    assert_eq!(job.created_at, "t0");
    let p = mark_job_processing(job, "t1".into());
    assert_eq!(p.status, "processing");
    assert_eq!(p.started_at.as_deref(), Some("t1"));
    assert_eq!(p.updated_at, "t1");
    let storage = StorageRoot::new("/data/storage".into());
    let c = mark_job_completed(&storage, 1, Some(p), "a.wav", &outcome("x"), "t2".into()).unwrap().job;
    assert_eq!(c.status, "completed");
    assert_eq!(c.completed_at.as_deref(), Some("t2"));
    // processing never reopens a completed job
    let again = mark_job_processing(c, "t3".into());
    assert_eq!(again.status, "completed");
    assert_eq!(again.updated_at, "t2");

    let long: String = "é".repeat(600);
    let f = mark_job_failed(again, &long, "t4".into());
    assert_eq!(f.error_message.as_ref().unwrap().chars().count(), 500);
    assert!(is_retryable(&f.status));
    let r = retry_job(1, Some(f), "t5".into()).unwrap();
    assert_eq!(r.status, "queued");
    assert!(r.started_at.is_none() && r.completed_at.is_none() && r.error_message.is_none());
    assert_eq!(r.batch_id, Some(3));
}

#[test]
fn failure_reported_for_missing_job() {
    let storage = StorageRoot::new("/data/storage".into());
    match finish_transcription(&storage, 8, None, "a.wav", Err("boom".into()), "t".into()) {
        Finish::Missing { message } => assert_eq!(message, "boom"),
        other => panic!("expected missing, got {other:?}"),
    }
    match finish_transcription(&storage, 8, None, "a.wav", Ok(outcome("x")), "t".into()) {
        Finish::Missing { message } => assert_eq!(message, "Job 8 not found"),
        other => panic!("expected missing, got {other:?}"),
    }
}

#[test]
fn supported_types_and_extensions() {
    assert!(is_supported("clip.wav"));
    assert!(is_supported("CLIP.MP3"));
    assert!(is_supported("dir/movie.final.mkv"));
    assert!(!is_supported("notes.txt"));
    assert!(!is_supported(".wav"));
    assert!(!is_supported("wav"));
    assert_eq!(extension("Talk.M4A"), "m4a");
    assert_eq!(extension("noext"), "");
    assert!(is_video("a.MOV", "application/octet-stream"));
    assert!(is_video("a.bin", "video/webm"));
    assert!(!is_video("a.webm", "audio/webm"));
    assert!(!is_retryable("completed"));
    assert_eq!(render("x", "a", "b"), "# Transcript\n\n- Source: a\n- Provider: b\n\nx\n");
}

#[test]
fn completing_renders_and_records_transcript() {
    let storage = StorageRoot::new("/data".into());
    let job = JobRecord::queued(4, 7, None, "assemblyai".into(), "t0".into());
    let c = mark_job_completed(&storage, 4, Some(job), "clip.wav", &outcome("hello world"), "t1".into()).unwrap();
    assert_eq!(c.job.status, "completed");
    assert_eq!(c.job.completed_at.as_deref(), Some("t1"));
    assert!(c.job.error_message.is_none());
    assert_eq!(c.markdown, render("hello world", "clip.wav", "assemblyai"));
    assert_eq!(c.result.markdown_path, "/data/uploads/7/transcript/transcript.md");
    assert_eq!(c.result.transcript_text, "hello world");
    assert_eq!(
        mark_job_completed(&storage, 5, None, "clip.wav", &outcome("x"), "t1".into()).unwrap_err(),
        "Job 5 not found"
    );
}

#[test]
fn lowered_extension_checks() {
    for e in ["wav", "mp3", "ogg", "opus", "m4a", "flac", "webm", "aac", "wma", "mpga", "oga"] {
        assert!(is_audio_extension(e));
        assert!(!is_video_extension(e));
    }
    for e in ["mp4", "mov", "mkv"] {
        assert!(is_video_extension(e));
        assert!(!is_audio_extension(e));
    }
    assert!(!is_audio_extension("WAV"));
    assert!(!is_video_extension("MP4"));
    assert!(!is_audio_extension(""));
    assert!(!is_video_extension("txt"));
    assert!(is_supported("MOVIE.MP4"));
    assert!(is_video("MOVIE.MP4", "application/octet-stream"));
}
