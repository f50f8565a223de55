//! The API's errors and how each is answered: a stable code, an HTTP status
//! and a message that is safe to show to the client.
use vstd::prelude::*;

use crate::provider::{provider_error_text, ProviderError, ProviderErrorView};
use crate::text::{decimal, joined, push_decimal};

verus! {

/// The `{ "error": { "code", "message" } }` envelope of an error answer.
#[derive(Debug, Clone, PartialEq, Eq)]
pub struct ErrorResponse {
    pub error: ErrorBody,
}

#[derive(Debug, Clone, PartialEq, Eq)]
pub struct ErrorBody {
    pub code: String,
    pub message: String,
}

/// Why a request failed. A database failure keeps the database's own
/// description of the error, for the server's log only.
#[derive(Debug, Clone, PartialEq, Eq)]
pub enum AppError {
    Validation(String),
    InvalidJson(String),
    BadRequest(String),
    NotFound(String),
    Provider(ProviderError),
    Database(String),
}

pub enum AppErrorView {
    Validation(Seq<char>),
    InvalidJson(Seq<char>),
    BadRequest(Seq<char>),
    NotFound(Seq<char>),
    Provider(ProviderErrorView),
    Database(Seq<char>),
}

impl View for AppError {
    type V = AppErrorView;

    open spec fn view(&self) -> AppErrorView {
        match self {
            AppError::Validation(m) => AppErrorView::Validation(m@),
            AppError::InvalidJson(m) => AppErrorView::InvalidJson(m@),
            AppError::BadRequest(m) => AppErrorView::BadRequest(m@),
            AppError::NotFound(m) => AppErrorView::NotFound(m@),
            AppError::Provider(e) => AppErrorView::Provider(e@),
            AppError::Database(m) => AppErrorView::Database(m@),
        }
    }
}

/// The code of a provider failure.
pub open spec fn provider_code_spec(e: ProviderErrorView) -> Seq<char> {
    match e {
        ProviderErrorView::MissingApiKey => "provider_not_configured"@,
        ProviderErrorView::RateLimited => "provider_rate_limited"@,
        ProviderErrorView::Timeout => "provider_timeout"@,
        ProviderErrorView::InvalidResponse(_) => "provider_invalid_response"@,
        ProviderErrorView::Interrupted(_) => "provider_stream_interrupted"@,
        ProviderErrorView::Transport(_) => "provider_error"@,
        ProviderErrorView::UpstreamStatus { .. } => "provider_error"@,
    }
}

/// The HTTP status answering a provider failure.
pub open spec fn provider_status_spec(e: ProviderErrorView) -> u16 {
    match e {
        ProviderErrorView::MissingApiKey => 503,
        ProviderErrorView::RateLimited => 429,
        ProviderErrorView::Timeout => 504,
        _ => 502,
    }
}

/// The message shown for a provider failure: a fixed text per kind, with
/// the upstream status number for an upstream failure, and never the
/// provider's own detail text.
pub open spec fn provider_message_spec(e: ProviderErrorView) -> Seq<char> {
    match e {
        ProviderErrorView::MissingApiKey => "OpenRouter is not configured"@,
        ProviderErrorView::RateLimited => "OpenRouter rate limit exceeded"@,
        ProviderErrorView::Timeout => "OpenRouter request timed out"@,
        ProviderErrorView::InvalidResponse(_) => "OpenRouter returned an invalid response"@,
        ProviderErrorView::Interrupted(_) => "OpenRouter stream was interrupted"@,
        ProviderErrorView::Transport(_) => "OpenRouter request failed"@,
        ProviderErrorView::UpstreamStatus { status, .. } => "OpenRouter returned HTTP status "@
            + decimal(status as nat),
    }
}

/// The code of an error.
pub open spec fn error_code(e: AppErrorView) -> Seq<char> {
    match e {
        AppErrorView::Validation(_) => "validation_failed"@,
        AppErrorView::InvalidJson(_) => "invalid_json"@,
        AppErrorView::BadRequest(_) => "bad_request"@,
        AppErrorView::NotFound(_) => "not_found"@,
        AppErrorView::Provider(p) => provider_code_spec(p),
        AppErrorView::Database(_) => "database_error"@,
    }
}

/// The HTTP status answering an error.
pub open spec fn error_status(e: AppErrorView) -> u16 {
    match e {
        AppErrorView::Validation(_) => 422,
        AppErrorView::InvalidJson(_) => 400,
        AppErrorView::BadRequest(_) => 400,
        AppErrorView::NotFound(_) => 404,
        AppErrorView::Provider(p) => provider_status_spec(p),
        AppErrorView::Database(_) => 500,
    }
}

/// The message shown to the client: the request errors' own message, the
/// provider's fixed text, and a fixed text for database failures.
pub open spec fn error_client_message(e: AppErrorView) -> Seq<char> {
    match e {
        AppErrorView::Validation(m) => m,
        AppErrorView::InvalidJson(m) => m,
        AppErrorView::BadRequest(m) => m,
        AppErrorView::NotFound(m) => m,
        AppErrorView::Provider(p) => provider_message_spec(p),
        AppErrorView::Database(_) => "A database error occurred"@,
    }
}

/// The text describing an error (for logs): the kind of request error with
/// its message, and a provider or database failure's own text.
pub open spec fn error_text(e: AppErrorView) -> Seq<char> {
    match e {
        AppErrorView::Validation(m) => "validation failed: "@ + m,
        AppErrorView::InvalidJson(m) => "invalid request body: "@ + m,
        AppErrorView::BadRequest(m) => "bad request: "@ + m,
        AppErrorView::NotFound(m) => "not found: "@ + m,
        AppErrorView::Provider(p) => provider_error_text(p),
        AppErrorView::Database(m) => m,
    }
}

/// The code of a provider failure.
pub fn provider_error_code(error: &ProviderError) -> (code: &'static str)
    ensures
        code@ == provider_code_spec(error@),
{
    match error {
        ProviderError::MissingApiKey => "provider_not_configured",
        ProviderError::RateLimited => "provider_rate_limited",
        ProviderError::Timeout => "provider_timeout",
        ProviderError::InvalidResponse(_) => "provider_invalid_response",
        ProviderError::Interrupted(_) => "provider_stream_interrupted",
        ProviderError::Transport(_) | ProviderError::UpstreamStatus { .. } => "provider_error",
    }
}

/// The HTTP status answering a provider failure.
pub fn provider_error_status(error: &ProviderError) -> (status: u16)
    ensures
        status == provider_status_spec(error@),
{
    match error {
        ProviderError::MissingApiKey => 503,
        ProviderError::RateLimited => 429,
        ProviderError::Timeout => 504,
        ProviderError::InvalidResponse(_)
        | ProviderError::Interrupted(_)
        | ProviderError::Transport(_)
        | ProviderError::UpstreamStatus { .. } => 502,
    }
}

/// The message shown for a provider failure.
pub fn provider_error_message(error: &ProviderError) -> (message: String)
    ensures
        message@ == provider_message_spec(error@),
{
    match error {
        ProviderError::MissingApiKey => "OpenRouter is not configured".to_owned(),
        ProviderError::RateLimited => "OpenRouter rate limit exceeded".to_owned(),
        ProviderError::Timeout => "OpenRouter request timed out".to_owned(),
        ProviderError::InvalidResponse(_) => "OpenRouter returned an invalid response".to_owned(),
        ProviderError::Interrupted(_) => "OpenRouter stream was interrupted".to_owned(),
        ProviderError::Transport(_) => "OpenRouter request failed".to_owned(),
        ProviderError::UpstreamStatus { status, .. } => {
            let mut message = "OpenRouter returned HTTP status ".to_owned();
            push_decimal(&mut message, *status as u64);
            message
        },
    }
}

impl AppError {
    /// A request whose content breaks a rule.
    pub fn validation(message: String) -> (e: AppError)
        ensures
            e@ == AppErrorView::Validation(message@),
    {
        AppError::Validation(message)
    }

    /// A malformed request.
    pub fn bad_request(message: String) -> (e: AppError)
        ensures
            e@ == AppErrorView::BadRequest(message@),
    {
        AppError::BadRequest(message)
    }

    /// A request for something that does not exist.
    pub fn not_found(message: String) -> (e: AppError)
        ensures
            e@ == AppErrorView::NotFound(message@),
    {
        AppError::NotFound(message)
    }

    /// The error's code.
    pub fn code(&self) -> (code: &'static str)
        ensures
            code@ == error_code(self@),
    {
        match self {
            AppError::Validation(_) => "validation_failed",
            AppError::InvalidJson(_) => "invalid_json",
            AppError::BadRequest(_) => "bad_request",
            AppError::NotFound(_) => "not_found",
            AppError::Provider(error) => provider_error_code(error),
            AppError::Database(_) => "database_error",
        }
    }

    /// The HTTP status of the answer.
    pub fn status(&self) -> (status: u16)
        ensures
            status == error_status(self@),
    {
        match self {
            AppError::Validation(_) => 422,
            AppError::InvalidJson(_) | AppError::BadRequest(_) => 400,
            AppError::NotFound(_) => 404,
            AppError::Provider(error) => provider_error_status(error),
            AppError::Database(_) => 500,
        }
    }

    /// The message shown to the client.
    pub fn client_message(&self) -> (message: String)
        ensures
            message@ == error_client_message(self@),
    {
        match self {
            AppError::Validation(message)
            | AppError::InvalidJson(message)
            | AppError::BadRequest(message)
            | AppError::NotFound(message) => message.clone(),
            AppError::Provider(error) => provider_error_message(error),
            AppError::Database(_) => "A database error occurred".to_owned(),
        }
    }

    /// The text describing the error (see `error_text`).
    pub fn describe(&self) -> (text: String)
        ensures
            text@ == error_text(self@),
    {
        match self {
            AppError::Validation(m) => joined("validation failed: ", m.as_str()),
            AppError::InvalidJson(m) => joined("invalid request body: ", m.as_str()),
            AppError::BadRequest(m) => joined("bad request: ", m.as_str()),
            AppError::NotFound(m) => joined("not found: ", m.as_str()),
            AppError::Provider(e) => e.describe(),
            AppError::Database(m) => m.clone(),
        }
    }

    /// The body of the error answer.
    pub fn response_body(&self) -> (body: ErrorResponse)
        ensures
            body.error.code@ == error_code(self@),
            body.error.message@ == error_client_message(self@),
    {
        ErrorResponse { error: ErrorBody { code: self.code().to_owned(), message: self.client_message() } }
    }
}

impl From<ProviderError> for AppError {
    fn from(error: ProviderError) -> (e: AppError) {
        AppError::Provider(error)
    }
}

impl vstd::std_specs::convert::FromSpecImpl<ProviderError> for AppError {
    open spec fn obeys_from_spec() -> bool {
        true
    }

    open spec fn from_spec(v: ProviderError) -> AppError {
        AppError::Provider(v)
    }
}

/// Every provider failure is shown to the client with a message that
/// names OpenRouter at its start.
pub proof fn lemma_provider_messages_name_openrouter(e: ProviderErrorView)
    ensures
        error_client_message(AppErrorView::Provider(e)).len() >= "OpenRouter"@.len(),
        error_client_message(AppErrorView::Provider(e)).take("OpenRouter"@.len() as int)
            == "OpenRouter"@,
{
    reveal_strlit("OpenRouter");
    reveal_strlit("OpenRouter is not configured");
    reveal_strlit("OpenRouter rate limit exceeded");
    reveal_strlit("OpenRouter request timed out");
    reveal_strlit("OpenRouter returned an invalid response");
    reveal_strlit("OpenRouter stream was interrupted");
    reveal_strlit("OpenRouter request failed");
    reveal_strlit("OpenRouter returned HTTP status ");
    let m = error_client_message(AppErrorView::Provider(e));
    assert(m.take(10) =~= "OpenRouter"@);
}

/// A provider failure with its detail texts emptied.
pub open spec fn without_details(e: ProviderErrorView) -> ProviderErrorView {
    match e {
        ProviderErrorView::InvalidResponse(_) => ProviderErrorView::InvalidResponse(seq![]),
        ProviderErrorView::Interrupted(_) => ProviderErrorView::Interrupted(seq![]),
        ProviderErrorView::Transport(_) => ProviderErrorView::Transport(seq![]),
        ProviderErrorView::UpstreamStatus { status, .. } => ProviderErrorView::UpstreamStatus {
            status,
            message: seq![],
        },
        _ => e,
    }
}

/// A provider failure's answer never depends on the provider's own detail
/// texts: code, status and message are those of the same failure with its
/// texts emptied.
pub proof fn lemma_provider_answers_hide_details(e: ProviderErrorView)
    ensures
        error_client_message(AppErrorView::Provider(e)) == error_client_message(
            AppErrorView::Provider(without_details(e)),
        ),
        error_code(AppErrorView::Provider(e)) == error_code(AppErrorView::Provider(without_details(e))),
        error_status(AppErrorView::Provider(e)) == error_status(
            AppErrorView::Provider(without_details(e)),
        ),
{
}

} // verus!
