//! The AssemblyAI transcription protocol as a state machine: upload the
//! audio, request a transcript, then poll until it is completed or failed.
//! Each step takes the reply to the previous request and says what to do
//! next; whoever runs the machine performs the requests.
use vstd::prelude::*;
use std::time::Duration;
use crate::models::{TranscriptionOutcome, TranscriptMetadata, clone_opt_text};
use crate::text::{owned, push_text, same_text};

verus! {

/// The AssemblyAI API root.
pub const BASE_URL: &'static str = "https://api.assemblyai.com/v2";

/// The duration that `Duration::from_secs` gives for `secs` seconds.
pub uninterp spec fn duration_of_secs(secs: u64) -> Duration;

/// `Duration::from_secs`: its result is named by `duration_of_secs`.
pub assume_specification[ Duration::from_secs ](secs: u64) -> (r: Duration)
    ensures
        r == duration_of_secs(secs),
;

/// `Duration::clone`: a `Duration` is `Copy`, so its clone is the same value.
pub assume_specification[ <Duration as Clone>::clone ](d: &Duration) -> (r: Duration)
    ensures
        r == *d,
;

/// How to run one transcription.
#[derive(Debug, Clone)]
pub struct TranscribeOptions {
    pub api_key: String,
    /// `None` (or `auto`) lets the provider detect the language.
    pub language: Option<String>,
    /// The pause between two polls.
    pub poll_interval: Duration,
    /// How many times the transcript is polled before giving up.
    pub max_polls: u32,
}

impl Default for TranscribeOptions {
    fn default() -> (r: Self)
        ensures
            r.api_key@ == Seq::<char>::empty(),
            r.language is None,
            r.poll_interval == duration_of_secs(3),
            r.max_polls == 60,
    {
        TranscribeOptions {
            api_key: String::new(),
            language: None,
            poll_interval: Duration::from_secs(3),
            max_polls: 60,
        }
    }
}

/// How the transcript request names the language.
#[derive(Debug)]
pub enum LanguageRequest {
    /// `language_detection: true`
    Detect,
    /// `language_code: <code>`
    Code(String),
}

/// The body of the transcript request.
#[derive(Debug)]
pub struct CreateTranscriptRequest {
    pub audio_url: String,
    pub speech_models: Vec<String>,
    pub language: LanguageRequest,
}

/// The fields of a JSON reply that the protocol reads; each is present
/// when the reply has it as a string, except `language_code`, which holds
/// the JSON text of that field whatever its kind.
#[derive(Debug)]
pub struct ReplyFields {
    pub upload_url: Option<String>,
    pub id: Option<String>,
    pub status: Option<String>,
    pub text: Option<String>,
    pub error: Option<String>,
    pub language_code: Option<String>,
}

/// What to do next.
#[derive(Debug)]
pub enum TranscribeAction {
    /// POST the audio bytes to `url` with `headers`.
    UploadAudio { url: String, headers: Vec<(String, String)> },
    /// POST `body` as JSON to `url` with `headers`.
    CreateTranscript { url: String, headers: Vec<(String, String)>, body: CreateTranscriptRequest },
    /// GET `url` with `headers`, after waiting the poll interval if `pause_first`.
    PollTranscript { url: String, headers: Vec<(String, String)>, pause_first: bool },
    /// The transcription is over.
    Finish { result: Result<TranscriptionOutcome, String> },
}

/// Where the protocol stands.
#[derive(Debug)]
pub enum TranscribeState {
    AwaitingUpload,
    AwaitingTranscript,
    /// The reply to poll number `attempt` (counting from 1) is awaited.
    Polling { transcript_id: String, attempt: u32 },
    Finished,
}

/// The value of a transcription outcome.
pub ghost struct OutcomeView {
    pub text: Seq<char>,
    pub transcript_id: Seq<char>,
    pub language_code: Option<Seq<char>>,
}

pub open spec fn outcome_view(o: TranscriptionOutcome) -> OutcomeView {
    OutcomeView {
        text: o.text@,
        transcript_id: o.metadata.id@,
        language_code: o.metadata.language_code.deep_view(),
    }
}

pub open spec fn result_view(r: Result<TranscriptionOutcome, String>) -> Result<OutcomeView, Seq<char>> {
    match r {
        Ok(o) => Ok(outcome_view(o)),
        Err(e) => Err(e@),
    }
}

/// The value of a language request.
pub ghost enum LanguageView {
    Detect,
    Code(Seq<char>),
}

/// The value of an action.
pub ghost enum ActionView {
    UploadAudio { url: Seq<char>, headers: Seq<(Seq<char>, Seq<char>)> },
    CreateTranscript {
        url: Seq<char>,
        headers: Seq<(Seq<char>, Seq<char>)>,
        audio_url: Seq<char>,
        speech_models: Seq<Seq<char>>,
        language: LanguageView,
    },
    PollTranscript { url: Seq<char>, headers: Seq<(Seq<char>, Seq<char>)>, pause_first: bool },
    Finish { result: Result<OutcomeView, Seq<char>> },
}

impl View for TranscribeAction {
    type V = ActionView;

    open spec fn view(&self) -> ActionView {
        match self {
            TranscribeAction::UploadAudio { url, headers } => ActionView::UploadAudio {
                url: url@,
                headers: headers.deep_view(),
            },
            TranscribeAction::CreateTranscript { url, headers, body } => ActionView::CreateTranscript {
                url: url@,
                headers: headers.deep_view(),
                audio_url: body.audio_url@,
                speech_models: body.speech_models.deep_view(),
                language: match body.language {
                    LanguageRequest::Detect => LanguageView::Detect,
                    LanguageRequest::Code(c) => LanguageView::Code(c@),
                },
            },
            TranscribeAction::PollTranscript { url, headers, pause_first } => ActionView::PollTranscript {
                url: url@,
                headers: headers.deep_view(),
                pause_first: *pause_first,
            },
            TranscribeAction::Finish { result } => ActionView::Finish { result: result_view(*result) },
        }
    }
}

/// The value of a protocol state.
pub ghost enum StateView {
    AwaitingUpload,
    AwaitingTranscript,
    Polling { transcript_id: Seq<char>, attempt: u32 },
    Finished,
}

impl View for TranscribeState {
    type V = StateView;

    open spec fn view(&self) -> StateView {
        match self {
            TranscribeState::AwaitingUpload => StateView::AwaitingUpload,
            TranscribeState::AwaitingTranscript => StateView::AwaitingTranscript,
            TranscribeState::Polling { transcript_id, attempt } => StateView::Polling {
                transcript_id: transcript_id@,
                attempt: *attempt,
            },
            TranscribeState::Finished => StateView::Finished,
        }
    }
}

/// The value of a reply.
pub ghost struct ReplyView {
    pub upload_url: Option<Seq<char>>,
    pub id: Option<Seq<char>>,
    pub status: Option<Seq<char>>,
    pub text: Option<Seq<char>>,
    pub error: Option<Seq<char>>,
    pub language_code: Option<Seq<char>>,
}

impl View for ReplyFields {
    type V = ReplyView;

    open spec fn view(&self) -> ReplyView {
        ReplyView {
            upload_url: self.upload_url.deep_view(),
            id: self.id.deep_view(),
            status: self.status.deep_view(),
            text: self.text.deep_view(),
            error: self.error.deep_view(),
            language_code: self.language_code.deep_view(),
        }
    }
}

/// A reply, or the transport's error message.
pub open spec fn reply_view(reply: Result<ReplyFields, String>) -> Result<ReplyView, Seq<char>> {
    match reply {
        Ok(f) => Ok(f@),
        Err(e) => Err(e@),
    }
}

pub open spec fn upload_endpoint() -> Seq<char> {
    BASE_URL@ + "/upload"@
}

pub open spec fn transcript_endpoint() -> Seq<char> {
    BASE_URL@ + "/transcript"@
}

pub open spec fn transcript_status_endpoint(transcript_id: Seq<char>) -> Seq<char> {
    BASE_URL@ + "/transcript/"@ + transcript_id
}

/// The headers of the upload and poll requests.
pub open spec fn auth_headers(api_key: Seq<char>) -> Seq<(Seq<char>, Seq<char>)> {
    seq![("authorization"@, api_key)]
}

/// The headers of the transcript request.
pub open spec fn json_headers(api_key: Seq<char>) -> Seq<(Seq<char>, Seq<char>)> {
    seq![("authorization"@, api_key), ("content-type"@, "application/json"@)]
}

/// The speech models asked for, best first.
pub open spec fn speech_models() -> Seq<Seq<char>> {
    seq!["universal-3-pro"@, "universal-2"@]
}

/// No language, or `auto`, asks for detection; any other asks for that code.
pub open spec fn language_request(language: Option<Seq<char>>) -> LanguageView {
    match language {
        Some(l) => if l == "auto"@ {
            LanguageView::Detect
        } else {
            LanguageView::Code(l)
        },
        None => LanguageView::Detect,
    }
}

pub open spec fn finish(result: Result<OutcomeView, Seq<char>>) -> (StateView, ActionView) {
    (StateView::Finished, ActionView::Finish { result })
}

/// The first request: upload the audio.
pub open spec fn start_spec(api_key: Seq<char>) -> (StateView, ActionView) {
    (StateView::AwaitingUpload, ActionView::UploadAudio { url: upload_endpoint(), headers: auth_headers(api_key) })
}

/// The protocol's transition: from `state`, given the reply to the request
/// in flight, the next state and what to do.
pub open spec fn step_spec(
    api_key: Seq<char>,
    language: Option<Seq<char>>,
    max_polls: u32,
    state: StateView,
    reply: Result<ReplyView, Seq<char>>,
) -> (StateView, ActionView) {
    match reply {
        Err(e) => finish(Err(e)),
        Ok(f) => match state {
            StateView::AwaitingUpload => match f.upload_url {
                None => finish(Err("AssemblyAI upload failed"@)),
                Some(u) => (
                    StateView::AwaitingTranscript,
                    ActionView::CreateTranscript {
                        url: transcript_endpoint(),
                        headers: json_headers(api_key),
                        audio_url: u,
                        speech_models: speech_models(),
                        language: language_request(language),
                    },
                ),
            },
            StateView::AwaitingTranscript => match f.id {
                None => finish(Err("AssemblyAI transcript request failed"@)),
                Some(id) => if max_polls == 0 {
                    finish(Err("AssemblyAI transcription timed out"@))
                } else {
                    (
                        StateView::Polling { transcript_id: id, attempt: 1 },
                        ActionView::PollTranscript {
                            url: transcript_status_endpoint(id),
                            headers: auth_headers(api_key),
                            pause_first: false,
                        },
                    )
                },
            },
            StateView::Polling { transcript_id, attempt } => {
                let status = match f.status {
                    Some(s) => s,
                    None => Seq::empty(),
                };
                if status == "completed"@ {
                    finish(
                        Ok(
                            OutcomeView {
                                text: match f.text {
                                    Some(t) => t,
                                    None => Seq::empty(),
                                },
                                transcript_id,
                                language_code: f.language_code,
                            },
                        ),
                    )
                } else if status == "error"@ {
                    finish(
                        Err(
                            match f.error {
                                Some(m) => m,
                                None => "AssemblyAI transcription failed"@,
                            },
                        ),
                    )
                } else if status == "queued"@ || status == "processing"@ {
                    if attempt < max_polls {
                        (
                            StateView::Polling { transcript_id, attempt: (attempt + 1) as u32 },
                            ActionView::PollTranscript {
                                url: transcript_status_endpoint(transcript_id),
                                headers: auth_headers(api_key),
                                pause_first: true,
                            },
                        )
                    } else {
                        finish(Err("AssemblyAI transcription timed out"@))
                    }
                } else {
                    finish(Err("AssemblyAI transcription failed"@))
                }
            },
            StateView::Finished => finish(Err("AssemblyAI transcription failed"@)),
        },
    }
}

fn text_or_empty(t: &Option<String>) -> (r: String)
    ensures
        r@ == (match t.deep_view() {
            Some(s) => s,
            None => Seq::<char>::empty(),
        }),
{
    match t {
        Some(s) => s.clone(),
        None => String::new(),
    }
}

fn auth(api_key: &String) -> (r: Vec<(String, String)>)
    ensures
        r.deep_view() == auth_headers(api_key@),
{
    let mut v: Vec<(String, String)> = Vec::new();
    v.push((owned("authorization"), api_key.clone()));
    assert(v.deep_view() =~= auth_headers(api_key@));
    v
}

fn json_auth(api_key: &String) -> (r: Vec<(String, String)>)
    ensures
        r.deep_view() == json_headers(api_key@),
{
    let mut v: Vec<(String, String)> = Vec::new();
    v.push((owned("authorization"), api_key.clone()));
    v.push((owned("content-type"), owned("application/json")));
    assert(v.deep_view() =~= json_headers(api_key@));
    v
}

fn endpoint(path: &str) -> (r: String)
    ensures
        r@ == BASE_URL@ + path@,
{
    let mut u = owned(BASE_URL);
    push_text(&mut u, path);
    u
}

fn status_endpoint(transcript_id: &str) -> (r: String)
    ensures
        r@ == transcript_status_endpoint(transcript_id@),
{
    let mut u = endpoint("/transcript/");
    push_text(&mut u, transcript_id);
    u
}

/// Starts a transcription: the audio is to be uploaded first.
pub fn start_transcription(opts: &TranscribeOptions) -> (r: (TranscribeState, TranscribeAction))
    ensures
        (r.0@, r.1@) == start_spec(opts.api_key@),
{
    (TranscribeState::AwaitingUpload, TranscribeAction::UploadAudio { url: endpoint("/upload"), headers: auth(&opts.api_key) })
}

fn finished(result: Result<TranscriptionOutcome, String>) -> (r: (TranscribeState, TranscribeAction))
    ensures
        (r.0@, r.1@) == finish(result_view(result)),
{
    (TranscribeState::Finished, TranscribeAction::Finish { result })
}

fn failed(message: &str) -> (r: (TranscribeState, TranscribeAction))
    ensures
        (r.0@, r.1@) == finish(Err(message@)),
{
    finished(Err(owned(message)))
}

/// One step of the protocol: given the reply to the request in flight (or
/// the transport's error), the next state and what to do next.
pub fn transcription_step(
    opts: &TranscribeOptions,
    state: TranscribeState,
    reply: Result<ReplyFields, String>,
) -> (r: (TranscribeState, TranscribeAction))
    requires
        !(state is Finished),
    ensures
        (r.0@, r.1@) == step_spec(
            opts.api_key@,
            opts.language.deep_view(),
            opts.max_polls,
            state@,
            reply_view(reply),
        ),
{
    let f = match reply {
        Err(e) => {
            return finished(Err(e));
        },
        Ok(f) => f,
    };
    match state {
        TranscribeState::AwaitingUpload => match f.upload_url {
            None => failed("AssemblyAI upload failed"),
            Some(u) => {
                let headers = json_auth(&opts.api_key);
                let mut models: Vec<String> = Vec::new();
                models.push(owned("universal-3-pro"));
                models.push(owned("universal-2"));
                assert(models.deep_view() =~= speech_models());
                let language = match &opts.language {
                    Some(l) => if same_text(l.as_str(), "auto") {
                        LanguageRequest::Detect
                    } else {
                        LanguageRequest::Code(l.clone())
                    },
                    None => LanguageRequest::Detect,
                };
                let body = CreateTranscriptRequest { audio_url: u, speech_models: models, language };
                (
                    TranscribeState::AwaitingTranscript,
                    TranscribeAction::CreateTranscript { url: endpoint("/transcript"), headers, body },
                )
            },
        },
        TranscribeState::AwaitingTranscript => match f.id {
            None => failed("AssemblyAI transcript request failed"),
            Some(id) => {
                if opts.max_polls == 0 {
                    failed("AssemblyAI transcription timed out")
                } else {
                    let url = status_endpoint(id.as_str());
                    (
                        TranscribeState::Polling { transcript_id: id, attempt: 1 },
                        TranscribeAction::PollTranscript { url, headers: auth(&opts.api_key), pause_first: false },
                    )
                }
            },
        },
        TranscribeState::Polling { transcript_id, attempt } => {
            let status = text_or_empty(&f.status);
            if same_text(status.as_str(), "completed") {
                let text = text_or_empty(&f.text);
                let metadata = TranscriptMetadata {
                    id: transcript_id,
                    language_code: clone_opt_text(&f.language_code),
                };
                finished(Ok(TranscriptionOutcome { text, metadata }))
            } else if same_text(status.as_str(), "error") {
                match f.error {
                    Some(m) => finished(Err(m)),
                    None => failed("AssemblyAI transcription failed"),
                }
            } else if same_text(status.as_str(), "queued") || same_text(status.as_str(), "processing") {
                if attempt < opts.max_polls {
                    let url = status_endpoint(transcript_id.as_str());
                    (
                        TranscribeState::Polling { transcript_id, attempt: attempt + 1 },
                        TranscribeAction::PollTranscript { url, headers: auth(&opts.api_key), pause_first: true },
                    )
                } else {
                    failed("AssemblyAI transcription timed out")
                }
            } else {
                failed("AssemblyAI transcription failed")
            }
        },
        TranscribeState::Finished => failed("AssemblyAI transcription failed"),
    }
}

} // verus!

verus! {

/// A state is within the options' limits: a poll in flight is numbered
/// from 1 to `max_polls`.
pub open spec fn within_limits(max_polls: u32, s: StateView) -> bool {
    match s {
        StateView::Polling { attempt, .. } => 1 <= attempt <= max_polls,
        _ => true,
    }
}

/// How many more replies the protocol can take from state `s`.
pub open spec fn replies_left(max_polls: u32, s: StateView) -> nat {
    match s {
        StateView::AwaitingUpload => (max_polls + 2) as nat,
        StateView::AwaitingTranscript => (max_polls + 1) as nat,
        StateView::Polling { attempt, .. } => (max_polls - attempt + 1) as nat,
        StateView::Finished => 0,
    }
}

/// A transcription starts within its limits, with at most `max_polls + 2`
/// replies to come.
pub proof fn law_start_bounded(api_key: Seq<char>, max_polls: u32)
    ensures
        within_limits(max_polls, start_spec(api_key).0),
        replies_left(max_polls, start_spec(api_key).0) == max_polls + 2,
{
}

/// Every step stays within the limits, uses up at least one of the replies
/// left, and finishes exactly when it says so: a transcription polls at most
/// `max_polls` times and ends after at most `max_polls + 2` replies.
pub proof fn law_step_bounded(
    api_key: Seq<char>,
    language: Option<Seq<char>>,
    max_polls: u32,
    s: StateView,
    reply: Result<ReplyView, Seq<char>>,
)
    requires
        within_limits(max_polls, s),
        !(s is Finished),
    ensures
        within_limits(max_polls, step_spec(api_key, language, max_polls, s, reply).0),
        replies_left(max_polls, step_spec(api_key, language, max_polls, s, reply).0) < replies_left(
            max_polls,
            s,
        ),
        (step_spec(api_key, language, max_polls, s, reply).1 is Finish) <==> (step_spec(
            api_key,
            language,
            max_polls,
            s,
            reply,
        ).0 is Finished),
{
}

/// A transport error ends the transcription with that very message.
pub proof fn law_transport_error_reported(
    api_key: Seq<char>,
    language: Option<Seq<char>>,
    max_polls: u32,
    s: StateView,
    e: Seq<char>,
)
    ensures
        step_spec(api_key, language, max_polls, s, Err(e)) == finish(Err(e)),
{
}

} // verus!

verus! {

/// The actions taken from state `s` as the replies come in, one per reply,
/// until the transcription finishes or the replies run out.
pub open spec fn actions_after(
    api_key: Seq<char>,
    language: Option<Seq<char>>,
    max_polls: u32,
    s: StateView,
    replies: Seq<Result<ReplyView, Seq<char>>>,
) -> Seq<ActionView>
    decreases replies.len(),
{
    if replies.len() == 0 || s is Finished {
        Seq::empty()
    } else {
        let next = step_spec(api_key, language, max_polls, s, replies[0]);
        seq![next.1] + actions_after(api_key, language, max_polls, next.0, replies.drop_first())
    }
}

/// Every action of a transcription run fed with `replies`: the first
/// request, then one action per reply.
pub open spec fn run_actions(
    api_key: Seq<char>,
    language: Option<Seq<char>>,
    max_polls: u32,
    replies: Seq<Result<ReplyView, Seq<char>>>,
) -> Seq<ActionView> {
    seq![start_spec(api_key).1] + actions_after(api_key, language, max_polls, start_spec(api_key).0, replies)
}

/// The upload request.
pub open spec fn upload_action(api_key: Seq<char>) -> ActionView {
    ActionView::UploadAudio { url: upload_endpoint(), headers: auth_headers(api_key) }
}

/// The transcript request for the audio uploaded to `audio_url`.
pub open spec fn create_action(api_key: Seq<char>, language: Option<Seq<char>>, audio_url: Seq<char>) -> ActionView {
    ActionView::CreateTranscript {
        url: transcript_endpoint(),
        headers: json_headers(api_key),
        audio_url,
        speech_models: speech_models(),
        language: language_request(language),
    }
}

/// A poll of transcript `transcript_id`.
pub open spec fn poll_action(api_key: Seq<char>, transcript_id: Seq<char>, pause_first: bool) -> ActionView {
    ActionView::PollTranscript {
        url: transcript_status_endpoint(transcript_id),
        headers: auth_headers(api_key),
        pause_first,
    }
}

/// A reply that says the transcript is still queued or processing.
pub open spec fn pending_reply(r: Result<ReplyView, Seq<char>>) -> bool {
    r matches Ok(f) && (f.status == Some("queued"@) || f.status == Some("processing"@))
}

proof fn lemma_finish_is_last(
    api_key: Seq<char>,
    language: Option<Seq<char>>,
    max_polls: u32,
    s: StateView,
    replies: Seq<Result<ReplyView, Seq<char>>>,
)
    ensures
        actions_after(api_key, language, max_polls, s, replies).len() <= replies.len(),
        forall|k: int|
            0 <= k < actions_after(api_key, language, max_polls, s, replies).len() - 1 ==> !(
            #[trigger] actions_after(api_key, language, max_polls, s, replies)[k] is Finish),
    decreases replies.len(),
{
    if replies.len() > 0 && !(s is Finished) {
        let next = step_spec(api_key, language, max_polls, s, replies[0]);
        let rest = actions_after(api_key, language, max_polls, next.0, replies.drop_first());
        lemma_finish_is_last(api_key, language, max_polls, next.0, replies.drop_first());
        let acts = actions_after(api_key, language, max_polls, s, replies);
        assert(acts == seq![next.1] + rest);
        assert forall|k: int| 0 <= k < acts.len() - 1 implies !(#[trigger] acts[k] is Finish) by {
            if k == 0 {
                if next.1 is Finish {
                    assert(next.0 is Finished);
                    assert(rest.len() == 0);
                }
            } else {
                assert(acts[k] == rest[k - 1]);
            }
        }
    }
}

proof fn lemma_poll_tail(
    api_key: Seq<char>,
    language: Option<Seq<char>>,
    max_polls: u32,
    transcript_id: Seq<char>,
    attempt: u32,
    replies: Seq<Result<ReplyView, Seq<char>>>,
)
    requires
        1 <= attempt <= max_polls,
    ensures
        forall|k: int|
            0 <= k < actions_after(
                api_key,
                language,
                max_polls,
                StateView::Polling { transcript_id, attempt },
                replies,
            ).len() && !(#[trigger] actions_after(
                api_key,
                language,
                max_polls,
                StateView::Polling { transcript_id, attempt },
                replies,
            )[k] is Finish) ==> actions_after(
                api_key,
                language,
                max_polls,
                StateView::Polling { transcript_id, attempt },
                replies,
            )[k] == poll_action(api_key, transcript_id, true) && k < max_polls - attempt,
    decreases replies.len(),
{
    let s = StateView::Polling { transcript_id, attempt };
    if replies.len() > 0 {
        let next = step_spec(api_key, language, max_polls, s, replies[0]);
        let rest = actions_after(api_key, language, max_polls, next.0, replies.drop_first());
        let acts = actions_after(api_key, language, max_polls, s, replies);
        assert(acts == seq![next.1] + rest);
        if !(next.0 is Finished) {
            assert(next.0 == StateView::Polling { transcript_id, attempt: (attempt + 1) as u32 });
            lemma_poll_tail(api_key, language, max_polls, transcript_id, (attempt + 1) as u32, replies.drop_first());
        } else {
            assert(rest.len() == 0);
        }
        assert forall|k: int| 0 <= k < acts.len() && !(#[trigger] acts[k] is Finish) implies acts[k]
            == poll_action(api_key, transcript_id, true) && k < max_polls - attempt by {
            if k > 0 {
                assert(acts[k] == rest[k - 1]);
            }
        }
    }
}

/// A run makes its requests in order and no others: first the upload; then,
/// once the upload reply names the audio's URL, the transcript request for
/// it; then, once that reply names the transcript, only polls of that
/// transcript, pausing before every poll but the first, at most `max_polls`
/// of them; a finish, if any, comes last.
pub proof fn law_run_requests(
    api_key: Seq<char>,
    language: Option<Seq<char>>,
    max_polls: u32,
    replies: Seq<Result<ReplyView, Seq<char>>>,
)
    ensures
        run_actions(api_key, language, max_polls, replies).len() >= 1,
        run_actions(api_key, language, max_polls, replies).len() <= replies.len() + 1,
        run_actions(api_key, language, max_polls, replies)[0] == upload_action(api_key),
        forall|k: int|
            0 <= k < run_actions(api_key, language, max_polls, replies).len() - 1 ==> !(
            #[trigger] run_actions(api_key, language, max_polls, replies)[k] is Finish),
        run_actions(api_key, language, max_polls, replies).len() >= 2 && !(run_actions(
            api_key,
            language,
            max_polls,
            replies,
        )[1] is Finish) ==> (replies[0] matches Ok(f) && f.upload_url is Some),
        replies.len() >= 1 && (replies[0] matches Ok(f) && f.upload_url is Some) ==> run_actions(
            api_key,
            language,
            max_polls,
            replies,
        )[1] == create_action(api_key, language, replies[0]->Ok_0.upload_url->Some_0),
        forall|k: int|
            2 <= k < run_actions(api_key, language, max_polls, replies).len() && !(
            #[trigger] run_actions(api_key, language, max_polls, replies)[k] is Finish) ==> (
            replies[1] matches Ok(g) && g.id is Some) && run_actions(
                api_key,
                language,
                max_polls,
                replies,
            )[k] == poll_action(api_key, replies[1]->Ok_0.id->Some_0, k > 2) && k < 2 + max_polls,
{
    let s0 = start_spec(api_key).0;
    let run = run_actions(api_key, language, max_polls, replies);
    let tail = actions_after(api_key, language, max_polls, s0, replies);
    lemma_finish_is_last(api_key, language, max_polls, s0, replies);
    assert(run == seq![upload_action(api_key)] + tail);
    assert forall|k: int| 0 <= k < run.len() - 1 implies !(#[trigger] run[k] is Finish) by {
        if k > 0 {
            assert(run[k] == tail[k - 1]);
        }
    }
    if replies.len() >= 1 {
        let n1 = step_spec(api_key, language, max_polls, s0, replies[0]);
        let tail1 = actions_after(api_key, language, max_polls, n1.0, replies.drop_first());
        assert(tail == seq![n1.1] + tail1);
        assert(run[1] == n1.1);
        if replies.len() >= 2 && n1.0 is AwaitingTranscript {
            let r1 = replies.drop_first();
            assert(r1[0] == replies[1]);
            let n2 = step_spec(api_key, language, max_polls, n1.0, r1[0]);
            let tail2 = actions_after(api_key, language, max_polls, n2.0, r1.drop_first());
            assert(tail1 == seq![n2.1] + tail2);
            assert(run[2] == n2.1);
            if n2.0 is Polling {
                let id = replies[1]->Ok_0.id->Some_0;
                lemma_poll_tail(api_key, language, max_polls, id, 1, r1.drop_first());
                assert forall|k: int| 2 <= k < run.len() && !(#[trigger] run[k] is Finish) implies (
                replies[1] matches Ok(g) && g.id is Some) && run[k] == poll_action(api_key, id, k > 2)
                    && k < 2 + max_polls by {
                    if k > 2 {
                        assert(run[k] == tail2[k - 3]);
                    }
                }
            } else {
                assert forall|k: int| 2 <= k < run.len() implies #[trigger] run[k] is Finish by {
                    lemma_finish_is_last(api_key, language, max_polls, n2.0, r1.drop_first());
                    assert(tail2.len() == 0);
                }
            }
        } else {
            assert forall|k: int| 2 <= k < run.len() implies #[trigger] run[k] is Finish by {
                if replies.len() >= 2 {
                    assert(tail1.len() == 0);
                } else {
                    assert(tail1.len() == 0);
                }
            }
        }
    }
}

} // verus!

verus! {

proof fn lemma_pending_step(
    api_key: Seq<char>,
    language: Option<Seq<char>>,
    max_polls: u32,
    transcript_id: Seq<char>,
    attempt: u32,
    r: Result<ReplyView, Seq<char>>,
)
    requires
        pending_reply(r),
    ensures
        step_spec(api_key, language, max_polls, StateView::Polling { transcript_id, attempt }, r) == (if attempt
            < max_polls {
            (
                StateView::Polling { transcript_id, attempt: (attempt + 1) as u32 },
                poll_action(api_key, transcript_id, true),
            )
        } else {
            finish(Err("AssemblyAI transcription timed out"@))
        }),
{
    reveal_strlit("queued");
    reveal_strlit("processing");
    reveal_strlit("completed");
    reveal_strlit("error");
    assert("queued"@ != "completed"@ && "queued"@ != "error"@) by {
        assert("queued"@[0] != "completed"@[0] && "queued"@[0] != "error"@[0]);
    }
    assert("processing"@ != "completed"@ && "processing"@ != "error"@) by {
        assert("processing"@[0] != "completed"@[0] && "processing"@[0] != "error"@[0]);
    }
}

proof fn lemma_timeout_tail(
    api_key: Seq<char>,
    language: Option<Seq<char>>,
    max_polls: u32,
    transcript_id: Seq<char>,
    attempt: u32,
    replies: Seq<Result<ReplyView, Seq<char>>>,
)
    requires
        1 <= attempt <= max_polls,
        replies.len() >= max_polls - attempt + 1,
        forall|j: int| 0 <= j <= max_polls - attempt ==> pending_reply(#[trigger] replies[j]),
    ensures
        ({
            let acts = actions_after(
                api_key,
                language,
                max_polls,
                StateView::Polling { transcript_id, attempt },
                replies,
            );
            &&& acts.len() == max_polls - attempt + 1
            &&& forall|k: int| 0 <= k < max_polls - attempt ==> #[trigger] acts[k] == poll_action(api_key, transcript_id, true)
            &&& acts[max_polls - attempt] == (ActionView::Finish { result: Err("AssemblyAI transcription timed out"@) })
        }),
    decreases max_polls - attempt,
{
    let s = StateView::Polling { transcript_id, attempt };
    let acts = actions_after(api_key, language, max_polls, s, replies);
    lemma_pending_step(api_key, language, max_polls, transcript_id, attempt, replies[0]);
    let next = step_spec(api_key, language, max_polls, s, replies[0]);
    let rest = actions_after(api_key, language, max_polls, next.0, replies.drop_first());
    assert(acts == seq![next.1] + rest);
    if attempt < max_polls {
        let r1 = replies.drop_first();
        assert forall|j: int| 0 <= j <= max_polls - (attempt + 1) implies pending_reply(#[trigger] r1[j]) by {
            assert(r1[j] == replies[j + 1]);
        }
        lemma_timeout_tail(api_key, language, max_polls, transcript_id, (attempt + 1) as u32, r1);
        assert forall|k: int| 0 <= k < max_polls - attempt implies #[trigger] acts[k] == poll_action(
            api_key,
            transcript_id,
            true,
        ) by {
            if k > 0 {
                assert(acts[k] == rest[k - 1]);
            }
        }
        assert(acts[max_polls - attempt] == rest[max_polls - attempt - 1]);
    } else {
        assert(rest.len() == 0);
    }
}

/// While the transcript stays queued or processing, a run times out after
/// exactly `max_polls` polls (none when `max_polls` is 0), pausing before
/// every poll but the first.
pub proof fn law_run_times_out(
    api_key: Seq<char>,
    language: Option<Seq<char>>,
    max_polls: u32,
    replies: Seq<Result<ReplyView, Seq<char>>>,
)
    requires
        replies.len() >= max_polls + 2,
        (replies[0] matches Ok(f) && f.upload_url is Some),
        (replies[1] matches Ok(g) && g.id is Some),
        forall|j: int| 2 <= j < max_polls + 2 ==> pending_reply(#[trigger] replies[j]),
    ensures
        run_actions(api_key, language, max_polls, replies).len() == max_polls + 3,
        forall|k: int|
            2 <= k < max_polls + 2 ==> #[trigger] run_actions(api_key, language, max_polls, replies)[k]
                == poll_action(api_key, replies[1]->Ok_0.id->Some_0, k > 2),
        run_actions(api_key, language, max_polls, replies)[max_polls + 2] == (ActionView::Finish {
            result: Err("AssemblyAI transcription timed out"@),
        }),
{
    let s0 = start_spec(api_key).0;
    let run = run_actions(api_key, language, max_polls, replies);
    let tail = actions_after(api_key, language, max_polls, s0, replies);
    assert(run == seq![upload_action(api_key)] + tail);
    let n1 = step_spec(api_key, language, max_polls, s0, replies[0]);
    let r1 = replies.drop_first();
    let tail1 = actions_after(api_key, language, max_polls, n1.0, r1);
    assert(tail == seq![n1.1] + tail1);
    assert(r1[0] == replies[1]);
    let n2 = step_spec(api_key, language, max_polls, n1.0, r1[0]);
    let r2 = r1.drop_first();
    let tail2 = actions_after(api_key, language, max_polls, n2.0, r2);
    assert(tail1 == seq![n2.1] + tail2);
    let id = replies[1]->Ok_0.id->Some_0;
    if max_polls == 0 {
        assert(tail2.len() == 0);
    } else {
        assert(n2.0 == StateView::Polling { transcript_id: id, attempt: 1 });
        assert forall|j: int| 0 <= j <= max_polls - 1 implies pending_reply(#[trigger] r2[j]) by {
            assert(r2[j] == replies[j + 2]);
        }
        lemma_timeout_tail(api_key, language, max_polls, id, 1, r2);
        assert forall|k: int| 2 <= k < max_polls + 2 implies #[trigger] run[k] == poll_action(api_key, id, k > 2) by {
            if k > 2 {
                assert(run[k] == tail2[k - 3]);
            }
        }
        assert(run[max_polls + 2] == tail2[max_polls - 1]);
    }
}

} // verus!

verus! {

/// Once the audio is uploaded, the transcript request is for the uploaded
/// audio's URL, and asks for language detection exactly when the options
/// name no language or `auto`; for any other language it asks for that
/// language's code.
pub proof fn law_transcript_request_language(
    api_key: Seq<char>,
    language: Option<Seq<char>>,
    max_polls: u32,
    reply: ReplyView,
)
    requires
        reply.upload_url is Some,
    ensures
        step_spec(api_key, language, max_polls, StateView::AwaitingUpload, Ok(reply)).1 matches ActionView::CreateTranscript {
            audio_url,
            language: requested,
            ..
        } && audio_url == reply.upload_url->Some_0 && (requested == LanguageView::Detect <==> (language is None
            || language == Some("auto"@))) && (language is Some && language->Some_0 != "auto"@ ==> requested
            == LanguageView::Code(language->Some_0)),
{
}

/// The requests go to AssemblyAI's v2 API: the upload to `/upload` and the
/// transcript request to `/transcript`, each with the key as
/// `authorization` (the transcript request also as JSON), and the polls to
/// `/transcript/<id>` with the key.
pub proof fn law_request_targets(api_key: Seq<char>, transcript_id: Seq<char>)
    ensures
        upload_endpoint() == "https://api.assemblyai.com/v2/upload"@,
        transcript_endpoint() == "https://api.assemblyai.com/v2/transcript"@,
        transcript_status_endpoint(transcript_id) == "https://api.assemblyai.com/v2/transcript/"@ + transcript_id,
        auth_headers(api_key) == seq![("authorization"@, api_key)],
        json_headers(api_key) == seq![("authorization"@, api_key), ("content-type"@, "application/json"@)],
        speech_models() == seq!["universal-3-pro"@, "universal-2"@],
{
    reveal_strlit("https://api.assemblyai.com/v2");
    reveal_strlit("/upload");
    reveal_strlit("/transcript");
    reveal_strlit("/transcript/");
    reveal_strlit("https://api.assemblyai.com/v2/upload");
    reveal_strlit("https://api.assemblyai.com/v2/transcript");
    reveal_strlit("https://api.assemblyai.com/v2/transcript/");
    assert(upload_endpoint() =~= "https://api.assemblyai.com/v2/upload"@);
    assert(transcript_endpoint() =~= "https://api.assemblyai.com/v2/transcript"@);
    assert("https://api.assemblyai.com/v2"@ + "/transcript/"@ =~= "https://api.assemblyai.com/v2/transcript/"@);
}

/// What a poll's reply leads to: `completed` finishes with the reply's text
/// (empty when it has none), the transcript's id and the detected language;
/// `error` fails with the reply's error, or a generic failure; `queued` or
/// `processing` polls the same transcript again, after a pause, while fewer
/// than `max_polls` polls were made, and times out after that; any other
/// status fails.
pub proof fn law_poll_reply(
    api_key: Seq<char>,
    language: Option<Seq<char>>,
    max_polls: u32,
    transcript_id: Seq<char>,
    attempt: u32,
    reply: ReplyView,
)
    ensures
        ({
            let next = step_spec(
                api_key,
                language,
                max_polls,
                StateView::Polling { transcript_id, attempt },
                Ok(reply),
            );
            &&& reply.status == Some("completed"@) ==> next.0 is Finished && next.1 == (ActionView::Finish {
                result: Ok(
                    OutcomeView {
                        text: if reply.text is Some {
                            reply.text->Some_0
                        } else {
                            Seq::empty()
                        },
                        transcript_id,
                        language_code: reply.language_code,
                    },
                ),
            })
            &&& reply.status == Some("error"@) ==> next.0 is Finished && next.1 == (ActionView::Finish {
                result: Err(
                    if reply.error is Some {
                        reply.error->Some_0
                    } else {
                        "AssemblyAI transcription failed"@
                    },
                ),
            })
            &&& (reply.status == Some("queued"@) || reply.status == Some("processing"@)) && attempt < max_polls
                ==> next.0 == StateView::Polling { transcript_id, attempt: (attempt + 1) as u32 } && next.1
                == ActionView::PollTranscript {
                url: "https://api.assemblyai.com/v2/transcript/"@ + transcript_id,
                headers: seq![("authorization"@, api_key)],
                pause_first: true,
            }
            &&& (reply.status == Some("queued"@) || reply.status == Some("processing"@)) && attempt >= max_polls
                ==> next.0 is Finished && next.1 == (ActionView::Finish {
                result: Err("AssemblyAI transcription timed out"@),
            })
            &&& !(reply.status == Some("completed"@) || reply.status == Some("error"@) || reply.status == Some(
                "queued"@,
            ) || reply.status == Some("processing"@)) ==> next.0 is Finished && next.1 == (ActionView::Finish {
                result: Err("AssemblyAI transcription failed"@),
            })
        }),
{
    law_request_targets(api_key, transcript_id);
    reveal_strlit("completed");
    reveal_strlit("error");
    reveal_strlit("queued");
    reveal_strlit("processing");
    assert("completed"@[0] != "error"@[0]);
    assert("completed"@[0] != "queued"@[0]);
    assert("completed"@[0] != "processing"@[0]);
    assert("error"@[0] != "queued"@[0]);
    assert("error"@[0] != "processing"@[0]);
    assert("queued"@[0] != "processing"@[0]);
    if reply.status is None {
        assert("completed"@.len() > 0);
        assert("error"@.len() > 0);
        assert("queued"@.len() > 0);
        assert("processing"@.len() > 0);
    }
}

} // verus!
