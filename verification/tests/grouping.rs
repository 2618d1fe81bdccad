use mass_transcriptor::grouping::{build_job_list_rows, row_created_at, summarize_batch_status, JobListRow};
use mass_transcriptor::models::JobSummary;

fn job(id: i64, batch_id: Option<i64>, status: &str, created_at: &str) -> JobSummary {
    JobSummary {
        id,
        status: status.into(),
        provider_key: "assemblyai".into(),
        batch_id,
        upload_id: id,
        original_filename: format!("f{id}.wav"),
        error_message: None,
        created_at: created_at.into(),
        retryable: status == "failed",
    }
}

#[test]
fn singles_only_newest_first() {
    let jobs = vec![
        job(1, None, "completed", "2026-01-01T10:00:00Z"),
        job(2, None, "queued", "2026-01-02T10:00:00Z"),
    ];
    let rows = build_job_list_rows(&jobs);
    assert_eq!(rows.len(), 2);
    match &rows[0] {
        JobListRow::Single { job } => assert_eq!(job.id, 2),
        other => panic!("expected single, got {other:?}"),
    }
    match &rows[1] {
        JobListRow::Single { job } => assert_eq!(job.id, 1),
        other => panic!("expected single, got {other:?}"),
    }
}

#[test]
fn batches_collapse_into_one_row() {
    let jobs = vec![
        job(1, Some(9), "completed", "2026-01-01T12:00:00Z"),
        job(2, Some(9), "queued", "2026-01-01T11:00:00Z"),
        job(3, None, "failed", "2026-01-03T10:00:00Z"),
    ];
    let rows = build_job_list_rows(&jobs);
    assert_eq!(rows.len(), 2);
    // newest is the single failed job
    match &rows[0] {
        JobListRow::Single { job } => assert_eq!(job.id, 3),
        other => panic!("expected single first, got {other:?}"),
    }
    match &rows[1] {
        JobListRow::Batch {
            batch_id,
            jobs: batch_jobs,
            status,
            ..
        } => {
            assert_eq!(*batch_id, 9);
            assert_eq!(batch_jobs.len(), 2);
            assert_eq!(status, "queued"); // any queued beats completed
        }
        other => panic!("expected batch, got {other:?}"),
    }
}

#[test]
fn summarize_batch_status_priority() {
    assert_eq!(
        summarize_batch_status(&[
            job(1, Some(1), "completed", "t"),
            job(2, Some(1), "failed", "t"),
        ]),
        "failed"
    );
    assert_eq!(
        summarize_batch_status(&[
            job(1, Some(1), "queued", "t"),
            job(2, Some(1), "processing", "t"),
        ]),
        "processing"
    );
    assert_eq!(
        summarize_batch_status(&[
            job(1, Some(1), "completed", "t"),
            job(2, Some(1), "queued", "t"),
        ]),
        "queued"
    );
    assert_eq!(
        summarize_batch_status(&[
            job(1, Some(1), "completed", "t"),
            job(2, Some(1), "completed", "t"),
        ]),
        "completed"
    );
}

#[test]
fn batch_rows_list_their_jobs_newest_first_and_take_the_newest_date() {
    let jobs = vec![
        job(1, Some(4), "completed", "2026-01-01T09:00:00Z"),
        job(2, None, "queued", "2026-01-01T10:00:00Z"),
        job(3, Some(4), "processing", "2026-01-01T11:00:00Z"),
        job(4, Some(4), "completed", "2026-01-01T10:30:00Z"),
    ];
    let rows = build_job_list_rows(&jobs);
    assert_eq!(rows.len(), 2);
    match &rows[0] {
        JobListRow::Batch { batch_id, jobs, created_at, status } => {
            assert_eq!(*batch_id, 4);
            let ids: Vec<i64> = jobs.iter().map(|j| j.id).collect();
            assert_eq!(ids, vec![3, 4, 1]);
            assert_eq!(created_at, "2026-01-01T11:00:00Z");
            assert_eq!(status, "processing");
        }
        other => panic!("expected batch first, got {other:?}"),
    }
    assert_eq!(row_created_at(&rows[1]), "2026-01-01T10:00:00Z");
}

#[test]
fn equal_dates_keep_input_order() {
    let jobs = vec![
        job(1, None, "queued", "2026-01-01T10:00:00Z"),
        job(2, None, "queued", "2026-01-01T10:00:00Z"),
        job(3, None, "queued", "2026-01-01T10:00:00Z"),
    ];
    let rows = build_job_list_rows(&jobs);
    let ids: Vec<i64> = rows
        .iter()
        .map(|r| match r {
            JobListRow::Single { job } => job.id,
            other => panic!("expected single, got {other:?}"),
        })
        .collect();
    assert_eq!(ids, vec![1, 2, 3]);
}

#[test]
fn each_batch_gets_exactly_one_row_and_every_job_is_listed() {
    let jobs = vec![
        job(1, Some(1), "failed", "2026-02-01T00:00:00Z"),
        job(2, Some(2), "queued", "2026-02-02T00:00:00Z"),
        job(3, Some(1), "completed", "2026-02-03T00:00:00Z"),
        job(4, None, "completed", "2026-02-04T00:00:00Z"),
        job(5, Some(2), "completed", "2026-02-05T00:00:00Z"),
    ];
    let rows = build_job_list_rows(&jobs);
    assert_eq!(rows.len(), 3);
    let mut seen: Vec<i64> = Vec::new();
    let mut batches: Vec<i64> = Vec::new();
    for r in &rows {
        match r {
            JobListRow::Single { job } => seen.push(job.id),
            JobListRow::Batch { batch_id, jobs, .. } => {
                batches.push(*batch_id);
                for j in jobs {
                    assert_eq!(j.batch_id, Some(*batch_id));
                    seen.push(j.id);
                }
            }
        }
    }
    seen.sort();
    assert_eq!(seen, vec![1, 2, 3, 4, 5]);
    assert_eq!(batches, vec![2, 1]);
    match &rows[1] {
        JobListRow::Single { job } => assert_eq!(job.id, 4),
        other => panic!("expected single, got {other:?}"),
    }
    match &rows[2] {
        JobListRow::Batch { status, created_at, .. } => {
            assert_eq!(status, "failed");
            assert_eq!(created_at, "2026-02-03T00:00:00Z");
        }
        other => panic!("expected batch, got {other:?}"),
    }
}

#[test]
fn empty_job_list_has_no_rows() {
    assert!(build_job_list_rows(&[]).is_empty());
    assert_eq!(summarize_batch_status(&[]), "completed");
}
