use mass_transcriptor::assemblyai::{
    start_transcription, transcription_step, LanguageRequest, ReplyFields, TranscribeAction,
    TranscribeOptions, TranscribeState, BASE_URL,
};
use mass_transcriptor::models::TranscriptionOutcome;
use std::time::Duration;

fn reply() -> ReplyFields {
    ReplyFields {
        upload_url: None,
        id: None,
        status: None,
        text: None,
        error: None,
        language_code: None,
    }
}

fn upload(url: &str) -> Result<ReplyFields, String> {
    Ok(ReplyFields { upload_url: Some(url.into()), ..reply() })
}

fn created(id: &str) -> Result<ReplyFields, String> {
    Ok(ReplyFields { id: Some(id.into()), ..reply() })
}

fn status(s: &str) -> Result<ReplyFields, String> {
    Ok(ReplyFields { status: Some(s.into()), ..reply() })
}

/// Runs the protocol against scripted replies, recording each request as
/// "METHOD url" and whether a poll pauses first.
fn run(
    opts: &TranscribeOptions,
    replies: Vec<Result<ReplyFields, String>>,
) -> (Result<TranscriptionOutcome, String>, Vec<String>, Vec<TranscribeAction>) {
    let mut replies = replies.into_iter();
    let mut calls = Vec::new();
    let mut actions = Vec::new();
    let (mut state, mut action) = start_transcription(opts);
    loop {
        match &action {
            TranscribeAction::UploadAudio { url, .. } => calls.push(format!("POST_BYTES {url}")),
            TranscribeAction::CreateTranscript { url, .. } => calls.push(format!("POST_JSON {url}")),
            TranscribeAction::PollTranscript { url, pause_first, .. } => {
                calls.push(format!("GET {url} pause={pause_first}"))
            }
            TranscribeAction::Finish { .. } => {}
        }
        if let TranscribeAction::Finish { result } = action {
            return (result, calls, actions);
        }
        actions.push(action);
        let next = replies.next().expect("a reply for every request");
        let (s, a) = transcription_step(opts, state, next);
        state = s;
        action = a;
        assert!(!matches!(state, TranscribeState::Finished) || matches!(action, TranscribeAction::Finish { .. }));
    }
}

fn opts(language: Option<&str>, max_polls: u32) -> TranscribeOptions {
    TranscribeOptions {
        api_key: "key".into(),
        language: language.map(|l| l.to_string()),
        poll_interval: Duration::ZERO,
        max_polls,
    }
}

#[test]
fn success_path_writes_text_and_metadata() {
    let (result, calls, actions) = run(
        &opts(Some("en"), 5),
        vec![
            upload("https://cdn.example/a.wav"),
            created("tr_123"),
            status("processing"),
            Ok(ReplyFields {
                status: Some("completed".into()),
                text: Some("hello from assembly".into()),
                language_code: Some("\"en\"".into()),
                id: Some("tr_123".into()),
                ..reply()
            }),
        ],
    );
    let outcome = result.unwrap();
    assert_eq!(outcome.text, "hello from assembly");
    assert_eq!(outcome.metadata.id, "tr_123");
    assert_eq!(outcome.metadata.language_code.as_deref(), Some("\"en\""));
    assert!(calls[0].contains("/upload"));
    assert!(calls[1].contains("/transcript"));
    match &actions[1] {
        TranscribeAction::CreateTranscript { headers, body, .. } => {
            assert_eq!(body.audio_url, "https://cdn.example/a.wav");
            assert_eq!(body.speech_models, vec!["universal-3-pro".to_string(), "universal-2".to_string()]);
            assert!(matches!(&body.language, LanguageRequest::Code(c) if c == "en"));
            assert_eq!(
                headers,
                &vec![
                    ("authorization".to_string(), "key".to_string()),
                    ("content-type".to_string(), "application/json".to_string())
                ]
            );
        }
        other => panic!("expected transcript request, got {other:?}"),
    }
}

#[test]
fn failure_path_returns_provider_error() {
    let (result, _, _) = run(
        &opts(None, 3),
        vec![
            upload("https://cdn.example/a.wav"),
            created("tr_err"),
            Ok(ReplyFields { status: Some("error".into()), error: Some("bad audio".into()), ..reply() }),
        ],
    );
    assert_eq!(result.unwrap_err(), "bad audio");
}

#[test]
fn requests_go_to_the_api_with_the_key() {
    let (_, calls, actions) = run(
        &opts(Some("auto"), 2),
        vec![upload("u"), created("abc"), status("queued"), status("completed")],
    );
    assert_eq!(
        calls,
        vec![
            format!("POST_BYTES {BASE_URL}/upload"),
            format!("POST_JSON {BASE_URL}/transcript"),
            format!("GET {BASE_URL}/transcript/abc pause=false"),
            format!("GET {BASE_URL}/transcript/abc pause=true"),
        ]
    );
    assert_eq!(calls[0], "POST_BYTES https://api.assemblyai.com/v2/upload");
    match &actions[0] {
        TranscribeAction::UploadAudio { headers, .. } => {
            assert_eq!(headers, &vec![("authorization".to_string(), "key".to_string())])
        }
        other => panic!("expected upload, got {other:?}"),
    }
    match &actions[1] {
        TranscribeAction::CreateTranscript { body, .. } => {
            assert!(matches!(body.language, LanguageRequest::Detect))
        }
        other => panic!("expected transcript request, got {other:?}"),
    }
}

#[test]
fn polling_gives_up_after_max_polls() {
    let (result, calls, _) = run(
        &opts(None, 3),
        vec![upload("u"), created("t"), status("queued"), status("processing"), status("queued")],
    );
    assert_eq!(result.unwrap_err(), "AssemblyAI transcription timed out");
    assert_eq!(calls.iter().filter(|c| c.starts_with("GET")).count(), 3);
    assert_eq!(calls.iter().filter(|c| c.ends_with("pause=true")).count(), 2);
    assert!(calls[2].ends_with("pause=false"));

    let (result, calls, _) = run(&opts(None, 0), vec![upload("u"), created("t")]);
    assert_eq!(result.unwrap_err(), "AssemblyAI transcription timed out");
    assert_eq!(calls.len(), 2);
}

#[test]
fn malformed_replies_and_transport_errors() {
    let (result, _, _) = run(&opts(None, 3), vec![Ok(reply())]);
    assert_eq!(result.unwrap_err(), "AssemblyAI upload failed");

    let (result, _, _) = run(&opts(None, 3), vec![upload("u"), Ok(reply())]);
    assert_eq!(result.unwrap_err(), "AssemblyAI transcript request failed");

    let (result, _, _) = run(&opts(None, 3), vec![upload("u"), created("t"), status("weird")]);
    assert_eq!(result.unwrap_err(), "AssemblyAI transcription failed");

    let (result, _, _) = run(&opts(None, 3), vec![upload("u"), created("t"), Ok(reply())]);
    assert_eq!(result.unwrap_err(), "AssemblyAI transcription failed");

    let (result, _, _) = run(&opts(None, 3), vec![upload("u"), created("t"), status("error")]);
    assert_eq!(result.unwrap_err(), "AssemblyAI transcription failed");

    let (result, _, _) = run(&opts(None, 3), vec![upload("u"), Err("HTTP 401: nope".into())]);
    assert_eq!(result.unwrap_err(), "HTTP 401: nope");

    let (result, _, _) = run(&opts(None, 3), vec![upload("u"), created("t"), status("completed")]);
    let outcome = result.unwrap();
    assert_eq!(outcome.text, "");
    assert_eq!(outcome.metadata.id, "t");
    assert!(outcome.metadata.language_code.is_none());
}

#[test]
fn default_options() {
    let d = TranscribeOptions::default();
    assert_eq!(d.api_key, "");
    assert!(d.language.is_none());
    assert_eq!(d.poll_interval, Duration::from_secs(3));
    assert_eq!(d.max_polls, 60);
}
