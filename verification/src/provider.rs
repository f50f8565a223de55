//! The chat provider's data: the messages and requests sent to OpenRouter,
//! its errors, and the decisions taken on what it answers (headers,
//! request body, status handling, completion content, transport failures).
use vstd::prelude::*;

use crate::text::{all_whitespace, blank, decimal, is_blank, joined, lemma_blank_iff_all_whitespace, push_decimal, push_str};

verus! {

/// The largest number of tokens asked of OpenRouter for one reply.
pub const OPENROUTER_MAX_TOKENS: u32 = 2048;

/// One message of the conversation history sent to the provider.
#[derive(Debug, Clone, PartialEq, Eq)]
pub struct ProviderMessage {
    pub role: String,
    pub content: String,
}

/// What is asked of the provider: a model and the conversation history.
#[derive(Debug, Clone, PartialEq, Eq)]
pub struct ChatProviderRequest {
    pub model: String,
    pub messages: Vec<ProviderMessage>,
}

/// A complete (non-streamed) reply of the provider.
#[derive(Debug, Clone, PartialEq, Eq)]
pub struct ChatProviderResponse {
    pub content: String,
}

/// Why a provider call failed.
#[derive(Debug, Clone, PartialEq, Eq)]
pub enum ProviderError {
    MissingApiKey,
    RateLimited,
    Timeout,
    InvalidResponse(String),
    Interrupted(String),
    Transport(String),
    UpstreamStatus { status: u16, message: String },
}

/// A `ProviderError` with its texts as character sequences.
pub enum ProviderErrorView {
    MissingApiKey,
    RateLimited,
    Timeout,
    InvalidResponse(Seq<char>),
    Interrupted(Seq<char>),
    Transport(Seq<char>),
    UpstreamStatus { status: u16, message: Seq<char> },
}

impl View for ProviderError {
    type V = ProviderErrorView;

    open spec fn view(&self) -> ProviderErrorView {
        match self {
            ProviderError::MissingApiKey => ProviderErrorView::MissingApiKey,
            ProviderError::RateLimited => ProviderErrorView::RateLimited,
            ProviderError::Timeout => ProviderErrorView::Timeout,
            ProviderError::InvalidResponse(m) => ProviderErrorView::InvalidResponse(m@),
            ProviderError::Interrupted(m) => ProviderErrorView::Interrupted(m@),
            ProviderError::Transport(m) => ProviderErrorView::Transport(m@),
            ProviderError::UpstreamStatus { status, message } => ProviderErrorView::UpstreamStatus {
                status: *status,
                message: message@,
            },
        }
    }
}

/// The text describing a provider failure (for logs and operators).
pub open spec fn provider_error_text(e: ProviderErrorView) -> Seq<char> {
    match e {
        ProviderErrorView::MissingApiKey => "OpenRouter API key is missing"@,
        ProviderErrorView::RateLimited => "OpenRouter rate limit exceeded"@,
        ProviderErrorView::Timeout => "OpenRouter request timed out"@,
        ProviderErrorView::InvalidResponse(m) => "OpenRouter returned an invalid response: "@ + m,
        ProviderErrorView::Interrupted(m) => "OpenRouter stream was interrupted: "@ + m,
        ProviderErrorView::Transport(m) => "OpenRouter transport error: "@ + m,
        ProviderErrorView::UpstreamStatus { status, message } => "OpenRouter returned HTTP status "@
            + decimal(status as nat) + ": "@ + message,
    }
}

impl ProviderError {
    /// The text describing the failure (see `provider_error_text`).
    pub fn describe(&self) -> (text: String)
        ensures
            text@ == provider_error_text(self@),
    {
        match self {
            ProviderError::MissingApiKey => "OpenRouter API key is missing".to_owned(),
            ProviderError::RateLimited => "OpenRouter rate limit exceeded".to_owned(),
            ProviderError::Timeout => "OpenRouter request timed out".to_owned(),
            ProviderError::InvalidResponse(m) => joined("OpenRouter returned an invalid response: ", m.as_str()),
            ProviderError::Interrupted(m) => joined("OpenRouter stream was interrupted: ", m.as_str()),
            ProviderError::Transport(m) => joined("OpenRouter transport error: ", m.as_str()),
            ProviderError::UpstreamStatus { status, message } => {
                let mut text = "OpenRouter returned HTTP status ".to_owned();
                push_decimal(&mut text, *status as u64);
                push_str(&mut text, ": ");
                push_str(&mut text, message.as_str());
                text
            },
        }
    }
}

/// What one line of an OpenRouter event stream amounts to.
#[derive(Debug, Clone, PartialEq, Eq)]
pub enum OpenRouterStreamLine {
    Content(String),
    Done,
    Skip,
}

pub enum StreamLineView {
    Content(Seq<char>),
    Done,
    Skip,
}

impl View for OpenRouterStreamLine {
    type V = StreamLineView;

    open spec fn view(&self) -> StreamLineView {
        match self {
            OpenRouterStreamLine::Content(c) => StreamLineView::Content(c@),
            OpenRouterStreamLine::Done => StreamLineView::Done,
            OpenRouterStreamLine::Skip => StreamLineView::Skip,
        }
    }
}

/// The JSON body posted to the chat completions endpoint.
#[derive(Debug, Clone, PartialEq, Eq)]
pub struct OpenRouterRequest {
    pub model: String,
    pub messages: Vec<ProviderMessage>,
    pub stream: bool,
    pub max_tokens: u32,
}

/// The body for `request`, streamed or not, with the token limit.
pub fn openrouter_request_body(request: ChatProviderRequest, stream: bool) -> (body: OpenRouterRequest)
    ensures
        body.model == request.model,
        body.messages == request.messages,
        body.stream == stream,
        body.max_tokens == OPENROUTER_MAX_TOKENS,
{
    OpenRouterRequest {
        model: request.model,
        messages: request.messages,
        stream,
        max_tokens: OPENROUTER_MAX_TOKENS,
    }
}

/// One HTTP header: name and value.
#[derive(Debug, Clone, PartialEq, Eq)]
pub struct Header {
    pub name: String,
    pub value: String,
}

pub open spec fn header_is(h: Header, name: Seq<char>, value: Seq<char>) -> bool {
    h.name@ == name && h.value@ == value
}

fn header(name: &str, value: &str) -> (h: Header)
    ensures
        header_is(h, name@, value@),
{
    Header { name: name.to_owned(), value: value.to_owned() }
}

/// The headers of a chat completions request: the bearer token, the title
/// twice (`X-Title`, `X-OpenRouter-Title`) and, when one is configured, the
/// referer. Without an API key nothing is sent: `MissingApiKey`.
pub fn openrouter_request_headers(
    api_key: &Option<String>,
    http_referer: &Option<String>,
    title: &String,
) -> (r: Result<Vec<Header>, ProviderError>)
    ensures
        api_key is None <==> r == Err::<Vec<Header>, ProviderError>(ProviderError::MissingApiKey),
        api_key is Some <==> r is Ok,
        r matches Ok(headers) ==> {
            &&& headers@.len() == (if http_referer is Some { 4int } else { 3int })
            &&& header_is(headers@[0], "Authorization"@, "Bearer "@ + api_key->0@)
            &&& header_is(headers@[1], "X-Title"@, title@)
            &&& header_is(headers@[2], "X-OpenRouter-Title"@, title@)
            &&& http_referer matches Some(referer) ==> header_is(
                headers@[3],
                "HTTP-Referer"@,
                referer@,
            )
        },
{
    match api_key {
        None => Err(ProviderError::MissingApiKey),
        Some(key) => {
            let mut headers: Vec<Header> = Vec::new();
            let bearer = joined("Bearer ", key.as_str());
            headers.push(header("Authorization", bearer.as_str()));
            headers.push(header("X-Title", title.as_str()));
            headers.push(header("X-OpenRouter-Title", title.as_str()));
            match http_referer {
                Some(referer) => {
                    headers.push(header("HTTP-Referer", referer.as_str()));
                },
                None => {},
            }
            Ok(headers)
        },
    }
}

/// `StatusCode::is_success`: a status in `200..=299`.
pub open spec fn is_success_status(status: u16) -> bool {
    200 <= status <= 299
}

/// What the HTTP status of a chat completions answer means: `429` is a rate
/// limit, any other status outside `200..=299` an upstream failure carrying
/// the status and `failure_message`, and a success lets the body be read.
pub fn check_upstream_status(status: u16, failure_message: &str) -> (r: Result<(), ProviderError>)
    ensures
        status == 429 ==> r == Err::<(), ProviderError>(ProviderError::RateLimited),
        status != 429 && !is_success_status(status) ==> (r matches Err(e) && e@
            == ProviderErrorView::UpstreamStatus { status, message: failure_message@ }),
        status != 429 && is_success_status(status) ==> r is Ok,
{
    if status == 429 {
        Err(ProviderError::RateLimited)
    } else if !(200 <= status && status <= 299) {
        Err(ProviderError::UpstreamStatus { status, message: failure_message.to_owned() })
    } else {
        Ok(())
    }
}

pub open spec fn missing_content_error() -> ProviderErrorView {
    ProviderErrorView::InvalidResponse("missing assistant content"@)
}

/// The first choice's content, when it is there and not blank.
pub open spec fn usable_first_content(choices: Seq<Option<String>>) -> Option<Seq<char>> {
    if choices.len() > 0 && choices[0] is Some && !is_blank(choices[0]->0@) {
        Some(choices[0]->0@)
    } else {
        None
    }
}

/// The first choice's content is the reply exactly as the provider sent
/// it, untrimmed, whenever it has a character that is not whitespace;
/// missing, absent or whitespace-only content gives no reply.
pub proof fn lemma_first_choice_kept_unchanged(choices: Seq<Option<String>>)
    ensures
        choices.len() > 0 && choices[0] is Some && !all_whitespace(choices[0]->0@) ==> usable_first_content(
            choices,
        ) == Some(choices[0]->0@),
        choices.len() == 0 || choices[0] is None || all_whitespace(choices[0]->0@) ==> usable_first_content(
            choices,
        ) is None,
{
    if choices.len() > 0 && choices[0] is Some {
        lemma_blank_iff_all_whitespace(choices[0]->0@);
    }
}

/// The reply held by a completion answer, whose choices' message contents
/// are `choices` in order: the first choice's content when it is there and
/// not blank, and `InvalidResponse("missing assistant content")` otherwise.
pub fn completion_content(choices: Vec<Option<String>>) -> (r: Result<ChatProviderResponse, ProviderError>)
    ensures
        match usable_first_content(choices@) {
            Some(c) => (r matches Ok(response) && response.content@ == c),
            None => (r matches Err(e) && e@ == missing_content_error()),
        },
{
    let mut choices = choices;
    if choices.len() == 0 {
        return Err(ProviderError::InvalidResponse("missing assistant content".to_owned()));
    }
    let first = choices.swap_remove(0);
    match first {
        Some(content) => {
            if blank(content.as_str()) {
                Err(ProviderError::InvalidResponse("missing assistant content".to_owned()))
            } else {
                Ok(ChatProviderResponse { content })
            }
        },
        None => Err(ProviderError::InvalidResponse("missing assistant content".to_owned())),
    }
}

/// What the HTTP client reports of a failed request: whether it timed out,
/// whether decoding the body failed, and its message.
#[derive(Debug, Clone, PartialEq, Eq)]
pub struct TransportFailure {
    pub is_timeout: bool,
    pub is_decode: bool,
    pub message: String,
}

/// A failed request as a provider error: a timeout first, then a body that
/// could not be decoded (`InvalidResponse`), and otherwise `Transport`.
pub fn map_transport_failure(failure: TransportFailure) -> (e: ProviderError)
    ensures
        failure.is_timeout ==> e@ == ProviderErrorView::Timeout,
        !failure.is_timeout && failure.is_decode ==> e@ == ProviderErrorView::InvalidResponse(
            failure.message@,
        ),
        !failure.is_timeout && !failure.is_decode ==> e@ == ProviderErrorView::Transport(
            failure.message@,
        ),
{
    if failure.is_timeout {
        ProviderError::Timeout
    } else if failure.is_decode {
        ProviderError::InvalidResponse(failure.message)
    } else {
        ProviderError::Transport(failure.message)
    }
}

} // verus!
