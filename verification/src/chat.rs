//! The rules of the chat endpoints: what a user message and a title may
//! be, what is sent to the provider, and what makes a provider reply
//! (complete or streamed) acceptable.
use vstd::prelude::*;

use crate::error::{AppError, AppErrorView};
use crate::models::Message;
use crate::provider::{ChatProviderRequest, ChatProviderResponse, ProviderError, ProviderErrorView, ProviderMessage};
use crate::text::{
    all_whitespace, blank, char_count, decimal, is_blank, lemma_blank_iff_all_whitespace, is_unicode_whitespace, lemma_trim_keeps_inner_text, lemma_trim_removes_only_edge_whitespace, lemma_trim_idempotent, push_decimal,
    push_str, trim, trim_end, trim_start, trimmed,
};

verus! {

/// The most characters a user message may have.
pub const MAX_MESSAGE_LEN: usize = 16000;

/// The most characters an assistant reply may have.
pub const MAX_ASSISTANT_LEN: usize = 64000;

/// The most characters a conversation title may have.
pub const MAX_TITLE_LEN: usize = 120;

/// `"<subject> must be <limit> characters or fewer"`.
pub open spec fn too_long_text(subject: Seq<char>, limit: nat) -> Seq<char> {
    subject + " must be "@ + decimal(limit) + " characters or fewer"@
}

/// `"assistant content exceeded <limit> characters"`.
pub open spec fn reply_too_long_text() -> Seq<char> {
    "assistant content exceeded "@ + decimal(MAX_ASSISTANT_LEN as nat) + " characters"@
}

fn too_long_message(subject: &str, limit: usize) -> (m: String)
    ensures
        m@ == too_long_text(subject@, limit as nat),
{
    let mut m = subject.to_owned();
    push_str(&mut m, " must be ");
    push_decimal(&mut m, limit as u64);
    push_str(&mut m, " characters or fewer");
    m
}

fn reply_too_long() -> (e: AppError)
    ensures
        e@ == AppErrorView::Provider(ProviderErrorView::InvalidResponse(reply_too_long_text())),
{
    let mut m = "assistant content exceeded ".to_owned();
    push_decimal(&mut m, MAX_ASSISTANT_LEN as u64);
    push_str(&mut m, " characters");
    AppError::Provider(ProviderError::InvalidResponse(m))
}

/// What is kept of a user message: the trimmed text, which must not be
/// empty and may have at most `MAX_MESSAGE_LEN` characters.
pub open spec fn message_content_spec(content: Seq<char>) -> Result<Seq<char>, AppErrorView> {
    let t = trim(content);
    if t.len() == 0 {
        Err(AppErrorView::Validation("content must not be empty"@))
    } else if t.len() > MAX_MESSAGE_LEN {
        Err(AppErrorView::Validation(too_long_text("content"@, MAX_MESSAGE_LEN as nat)))
    } else {
        Ok(t)
    }
}

pub open spec fn string_result_view(r: Result<String, AppError>) -> Result<Seq<char>, AppErrorView> {
    match r {
        Ok(s) => Ok(s@),
        Err(e) => Err(e@),
    }
}

/// Checks and trims the content of a user message (see `message_content_spec`).
pub fn normalize_message_content(content: String) -> (r: Result<String, AppError>)
    ensures
        string_result_view(r) == message_content_spec(content@),
{
    let content = trimmed(content.as_str());
    if char_count(content.as_str()) == 0 {
        return Err(AppError::validation("content must not be empty".to_owned()));
    }
    if char_count(content.as_str()) > MAX_MESSAGE_LEN {
        return Err(AppError::validation(too_long_message("content", MAX_MESSAGE_LEN)));
    }
    Ok(content)
}

/// The title of a new conversation: the default title when none is given,
/// and otherwise the trimmed title, which must not be empty and may have
/// at most `MAX_TITLE_LEN` characters.
pub open spec fn title_spec(title: Option<Seq<char>>) -> Result<Seq<char>, AppErrorView> {
    match title {
        None => Ok("New conversation"@),
        Some(title) => {
            let t = trim(title);
            if t.len() == 0 {
                Err(AppErrorView::Validation("title must not be empty"@))
            } else if t.len() > MAX_TITLE_LEN {
                Err(AppErrorView::Validation(too_long_text("title"@, MAX_TITLE_LEN as nat)))
            } else {
                Ok(t)
            }
        },
    }
}

pub open spec fn option_view(s: Option<String>) -> Option<Seq<char>> {
    match s {
        Some(s) => Some(s@),
        None => None,
    }
}

/// Checks and trims the title of a new conversation (see `title_spec`).
pub fn normalize_title(title: Option<String>) -> (r: Result<String, AppError>)
    ensures
        string_result_view(r) == title_spec(option_view(title)),
{
    match title {
        Some(title) => {
            let title = trimmed(title.as_str());
            if char_count(title.as_str()) == 0 {
                return Err(AppError::validation("title must not be empty".to_owned()));
            }
            if char_count(title.as_str()) > MAX_TITLE_LEN {
                return Err(AppError::validation(too_long_message("title", MAX_TITLE_LEN)));
            }
            Ok(title)
        },
        None => Ok("New conversation".to_owned()),
    }
}

/// An acceptable assistant reply is not blank and has at most
/// `MAX_ASSISTANT_LEN` characters; it is kept as it is (untrimmed).
pub open spec fn reply_spec(content: Seq<char>) -> Result<Seq<char>, AppErrorView> {
    if is_blank(content) {
        Err(AppErrorView::Provider(ProviderErrorView::InvalidResponse("empty assistant content"@)))
    } else if content.len() > MAX_ASSISTANT_LEN {
        Err(AppErrorView::Provider(ProviderErrorView::InvalidResponse(reply_too_long_text())))
    } else {
        Ok(content)
    }
}

/// Checks a complete provider reply (see `reply_spec`).
pub fn validate_provider_response(response: ChatProviderResponse) -> (r: Result<String, AppError>)
    ensures
        string_result_view(r) == reply_spec(response.content@),
{
    if blank(response.content.as_str()) {
        return Err(
            AppError::Provider(ProviderError::InvalidResponse("empty assistant content".to_owned())),
        );
    }
    if char_count(response.content.as_str()) > MAX_ASSISTANT_LEN {
        return Err(reply_too_long());
    }
    Ok(response.content)
}

/// The messages of the history that go to the provider: the completed
/// ones, in order, as role and content.
pub open spec fn prompt_messages(history: Seq<Message>) -> Seq<(Seq<char>, Seq<char>)>
    decreases history.len(),
{
    if history.len() == 0 {
        seq![]
    } else {
        let rest = prompt_messages(history.drop_last());
        let m = history.last();
        if m.status@ == "completed"@ {
            rest.push((m.role@, m.content@))
        } else {
            rest
        }
    }
}

pub open spec fn provider_messages_view(messages: Seq<ProviderMessage>) -> Seq<(Seq<char>, Seq<char>)> {
    messages.map_values(|m: ProviderMessage| (m.role@, m.content@))
}

/// The request for the provider: the configured model and the completed
/// messages of the conversation history, in order.
pub fn provider_request_for_conversation(model: &String, history: Vec<Message>) -> (request: ChatProviderRequest)
    ensures
        request.model@ == model@,
        provider_messages_view(request.messages@) == prompt_messages(history@),
{
    let mut messages: Vec<ProviderMessage> = Vec::new();
    let mut i: usize = 0;
    while i < history.len()
        invariant
            i <= history.len(),
            provider_messages_view(messages@) == prompt_messages(history@.take(i as int)),
        decreases history.len() - i,
    {
        let m = &history[i];
        assert(history@.take(i + 1).drop_last() =~= history@.take(i as int));
        if m.status == "completed".to_owned() {
            let ghost before = provider_messages_view(messages@);
            messages.push(ProviderMessage { role: m.role.clone(), content: m.content.clone() });
            assert(provider_messages_view(messages@) =~= before.push((m.role@, m.content@)));
        }
        i += 1;
    }
    assert(history@.take(history.len() as int) =~= history@);
    ChatProviderRequest { model: model.clone(), messages }
}

/// Checking a user message is idempotent: content that was accepted is
/// accepted again unchanged.
pub proof fn lemma_message_content_idempotent(content: Seq<char>)
    requires
        message_content_spec(content) is Ok,
    ensures
        message_content_spec(message_content_spec(content)->Ok_0) == message_content_spec(content),
{
    lemma_trim_idempotent(content);
}

/// Checking a title is idempotent: a title that was accepted is accepted
/// again unchanged.
pub proof fn lemma_title_idempotent(title: Option<Seq<char>>)
    requires
        title_spec(title) is Ok,
    ensures
        title_spec(Some(title_spec(title)->Ok_0)) == title_spec(title),
{
    match title {
        Some(t) => lemma_trim_idempotent(t),
        None => {
            reveal_strlit("New conversation");
            let d = "New conversation"@;
            assert(!is_unicode_whitespace(d[0]));
            assert(!is_unicode_whitespace(d.last()));
            assert(trim_start(d) == d);
            assert(trim_end(d) == d);
        },
    }
}

/// A user message is kept as sent, but for whitespace at its ends: what is
/// accepted is the message with some whitespace removed before and after,
/// has no whitespace left at either end, and has from one to
/// `MAX_MESSAGE_LEN` characters. A message of whitespace only is refused
/// as empty, and one without whitespace at its ends and of an allowed
/// length is accepted unchanged.
pub proof fn lemma_message_content_keeps_the_text(content: Seq<char>)
    ensures
        message_content_spec(content) matches Ok(t) ==> {
            &&& 0 < t.len() <= MAX_MESSAGE_LEN
            &&& !is_unicode_whitespace(t[0]) && !is_unicode_whitespace(t.last())
            &&& exists|l: Seq<char>, r: Seq<char>| all_whitespace(l) && all_whitespace(r) && content == l + t + r
        },
        all_whitespace(content) ==> message_content_spec(content) == Err::<Seq<char>, AppErrorView>(
            AppErrorView::Validation("content must not be empty"@),
        ),
        0 < content.len() <= MAX_MESSAGE_LEN && !is_unicode_whitespace(content[0]) && !is_unicode_whitespace(
            content.last(),
        ) ==> message_content_spec(content) == Ok::<Seq<char>, AppErrorView>(content),
{
    lemma_trim_removes_only_edge_whitespace(content);
    lemma_blank_iff_all_whitespace(content);
    if 0 < content.len() && !is_unicode_whitespace(content[0]) && !is_unicode_whitespace(content.last()) {
        lemma_trim_keeps_inner_text(content);
    }
}

/// A title is kept as given, but for whitespace at its ends, in the same
/// way, with at most `MAX_TITLE_LEN` characters; no title at all gives the
/// default title.
pub proof fn lemma_title_keeps_the_text(title: Seq<char>)
    ensures
        title_spec(Some(title)) matches Ok(t) ==> {
            &&& 0 < t.len() <= MAX_TITLE_LEN
            &&& !is_unicode_whitespace(t[0]) && !is_unicode_whitespace(t.last())
            &&& exists|l: Seq<char>, r: Seq<char>| all_whitespace(l) && all_whitespace(r) && title == l + t + r
        },
        all_whitespace(title) ==> title_spec(Some(title)) == Err::<Seq<char>, AppErrorView>(
            AppErrorView::Validation("title must not be empty"@),
        ),
        0 < title.len() <= MAX_TITLE_LEN && !is_unicode_whitespace(title[0]) && !is_unicode_whitespace(
            title.last(),
        ) ==> title_spec(Some(title)) == Ok::<Seq<char>, AppErrorView>(title),
        title_spec(None) == Ok::<Seq<char>, AppErrorView>("New conversation"@),
{
    lemma_trim_removes_only_edge_whitespace(title);
    lemma_blank_iff_all_whitespace(title);
    if 0 < title.len() && !is_unicode_whitespace(title[0]) && !is_unicode_whitespace(title.last()) {
        lemma_trim_keeps_inner_text(title);
    }
}

/// A complete provider reply is kept exactly as sent, whitespace included,
/// when it has a character that is not whitespace and at most
/// `MAX_ASSISTANT_LEN` characters; a reply of whitespace only is refused as
/// empty, and a longer one as too long.
pub proof fn lemma_reply_kept_as_sent(content: Seq<char>)
    ensures
        !all_whitespace(content) && content.len() <= MAX_ASSISTANT_LEN ==> reply_spec(content) == Ok::<
            Seq<char>,
            AppErrorView,
        >(content),
        all_whitespace(content) ==> reply_spec(content) == Err::<Seq<char>, AppErrorView>(
            AppErrorView::Provider(ProviderErrorView::InvalidResponse("empty assistant content"@)),
        ),
        !all_whitespace(content) && content.len() > MAX_ASSISTANT_LEN ==> reply_spec(content) == Err::<
            Seq<char>,
            AppErrorView,
        >(AppErrorView::Provider(ProviderErrorView::InvalidResponse(reply_too_long_text()))),
{
    lemma_blank_iff_all_whitespace(content);
}

/// A message that is not completed (one still streaming, or one that
/// failed) never reaches the provider: adding it to the history leaves
/// the prompt as it was.
pub proof fn lemma_incomplete_message_not_sent(history: Seq<Message>, m: Message)
    requires
        m.status@ != "completed"@,
    ensures
        prompt_messages(history.push(m)) == prompt_messages(history),
{
    assert(history.push(m).drop_last() =~= history);
}

/// A completed message is sent after all earlier ones: adding it to the
/// history appends its role and content to the prompt.
pub proof fn lemma_completed_message_sent_last(history: Seq<Message>, m: Message)
    requires
        m.status@ == "completed"@,
    ensures
        prompt_messages(history.push(m)) == prompt_messages(history).push((m.role@, m.content@)),
{
    assert(history.push(m).drop_last() =~= history);
}

/// What the server does after a step of a streamed reply.
#[derive(Debug, PartialEq, Eq)]
pub enum StreamAction {
    /// Send this chunk on as a `delta` event; the reply goes on.
    Delta(String),
    /// The reply failed: the assistant message keeps `content` with status
    /// `failed`, the chat request is marked failed with `error`'s code, and
    /// `error` is sent as the `error` event. Nothing follows.
    Fail { content: String, error: AppError },
    /// The reply is complete: the assistant message gets `content` with
    /// status `completed`, the chat request succeeds and the message is sent
    /// as `message_complete`. Nothing follows.
    Complete(String),
}

pub enum StreamActionView {
    Delta(Seq<char>),
    Fail { content: Seq<char>, error: AppErrorView },
    Complete(Seq<char>),
}

impl View for StreamAction {
    type V = StreamActionView;

    open spec fn view(&self) -> StreamActionView {
        match self {
            StreamAction::Delta(c) => StreamActionView::Delta(c@),
            StreamAction::Fail { content, error } => StreamActionView::Fail {
                content: content@,
                error: error@,
            },
            StreamAction::Complete(c) => StreamActionView::Complete(c@),
        }
    }
}

/// The status the assistant message is stored with after an action that
/// ends the reply.
pub open spec fn action_status(a: StreamActionView) -> Option<Seq<char>> {
    match a {
        StreamActionView::Delta(_) => None,
        StreamActionView::Fail { .. } => Some("failed"@),
        StreamActionView::Complete(_) => Some("completed"@),
    }
}

impl StreamAction {
    /// The status the assistant message is stored with (see `action_status`).
    pub fn message_status(&self) -> (s: Option<&'static str>)
        ensures
            match s {
                Some(t) => action_status(self@) == Some(t@),
                None => action_status(self@) is None,
            },
    {
        match self {
            StreamAction::Delta(_) => None,
            StreamAction::Fail { .. } => Some("failed"),
            StreamAction::Complete(_) => Some("completed"),
        }
    }
}

pub open spec fn chunk_view(chunk: Result<String, ProviderError>) -> Result<Seq<char>, ProviderErrorView> {
    match chunk {
        Ok(c) => Ok(c@),
        Err(e) => Err(e@),
    }
}

/// What one event of the provider stream leads to, after the reply `text`
/// received so far: a chunk is sent on unless the reply with it exceeds
/// `MAX_ASSISTANT_LEN` characters, which fails it with the text including
/// the chunk; a provider failure fails it with the text so far.
pub open spec fn chunk_action(text: Seq<char>, chunk: Result<Seq<char>, ProviderErrorView>) -> StreamActionView {
    match chunk {
        Err(e) => StreamActionView::Fail { content: text, error: AppErrorView::Provider(e) },
        Ok(c) => if (text + c).len() > MAX_ASSISTANT_LEN {
            StreamActionView::Fail {
                content: text + c,
                error: AppErrorView::Provider(ProviderErrorView::InvalidResponse(reply_too_long_text())),
            }
        } else {
            StreamActionView::Delta(c)
        },
    }
}

/// What the end of the provider stream leads to: a blank reply fails,
/// any other is complete.
pub open spec fn end_action(text: Seq<char>) -> StreamActionView {
    if is_blank(text) {
        StreamActionView::Fail {
            content: text,
            error: AppErrorView::Provider(ProviderErrorView::InvalidResponse("empty streamed assistant content"@)),
        }
    } else {
        StreamActionView::Complete(text)
    }
}

/// A provider error never completes a reply: whatever the error and the
/// text so far, the reply fails, keeping exactly that text and answering
/// with that error; the message is stored as failed.
pub proof fn lemma_provider_error_fails_reply(text: Seq<char>, e: ProviderErrorView)
    ensures
        chunk_action(text, Err(e)) == (StreamActionView::Fail { content: text, error: AppErrorView::Provider(e) }),
        action_status(chunk_action(text, Err(e))) == Some("failed"@),
{
}

/// A chunk is sent on unchanged while the reply with it has at most
/// `MAX_ASSISTANT_LEN` characters; past that the reply fails, keeping the
/// text with the chunk.
pub proof fn lemma_chunk_within_limit_is_sent(text: Seq<char>, c: Seq<char>)
    ensures
        text.len() + c.len() <= MAX_ASSISTANT_LEN ==> chunk_action(text, Ok(c)) == StreamActionView::Delta(c),
        text.len() + c.len() > MAX_ASSISTANT_LEN ==> (chunk_action(text, Ok(c)) matches StreamActionView::Fail {
            content,
            ..
        } && content == text + c),
{
}

/// At the end of the stream a reply with any character that is not
/// whitespace is complete and stored exactly as received; a reply of
/// whitespace only (or nothing) fails, keeping what was received.
pub proof fn lemma_end_completes_unless_blank(text: Seq<char>)
    ensures
        !all_whitespace(text) ==> end_action(text) == StreamActionView::Complete(text),
        all_whitespace(text) ==> (end_action(text) matches StreamActionView::Fail { content, .. } && content
            == text),
        action_status(end_action(text)) is Some,
{
    lemma_blank_iff_all_whitespace(text);
}

/// The actions of a whole streamed reply, after `text`, for the provider
/// events `chunks` followed by the end of the stream: each event is taken
/// in turn until one ends the reply, and the end of the stream is taken
/// only when none did.
pub open spec fn stream_actions(text: Seq<char>, chunks: Seq<Result<Seq<char>, ProviderErrorView>>) -> Seq<StreamActionView>
    decreases chunks.len(),
{
    if chunks.len() == 0 {
        seq![end_action(text)]
    } else {
        match chunk_action(text, chunks[0]) {
            StreamActionView::Delta(c) => seq![StreamActionView::Delta(c)] + stream_actions(
                text + c,
                chunks.drop_first(),
            ),
            a => seq![a],
        }
    }
}

/// The text sent on by the `Delta` actions of `actions`, in order.
pub open spec fn delta_text(actions: Seq<StreamActionView>) -> Seq<char>
    decreases actions.len(),
{
    if actions.len() == 0 {
        seq![]
    } else {
        let head = match actions[0] {
            StreamActionView::Delta(c) => c,
            _ => seq![],
        };
        head + delta_text(actions.drop_first())
    }
}

/// A streamed reply ends exactly once: its actions are deltas followed by
/// one action that ends it (so `message_start` is followed by the deltas
/// and exactly one final event). A completed reply stores exactly the text
/// received before it followed by what the deltas sent on, and a failed
/// one stores that text, followed, when the reply grew too long, by the
/// chunk that made it so.
pub proof fn lemma_stream_ends_once(text: Seq<char>, chunks: Seq<Result<Seq<char>, ProviderErrorView>>)
    ensures
        ({
            let acts = stream_actions(text, chunks);
            let sent = text + delta_text(acts.drop_last());
            &&& acts.len() >= 1
            &&& forall|i: int| 0 <= i < acts.len() - 1 ==> acts[i] is Delta
            &&& !(acts.last() is Delta)
            &&& action_status(acts.last()) is Some
            &&& acts.last() matches StreamActionView::Complete(c) ==> c == sent
            &&& acts.last() matches StreamActionView::Fail { content, .. } ==> sent.is_prefix_of(content)
        }),
    decreases chunks.len(),
{
    let acts = stream_actions(text, chunks);
    if chunks.len() == 0 {
        assert(acts.drop_last() =~= Seq::<StreamActionView>::empty());
        assert(text + Seq::<char>::empty() =~= text);
        assert(text.is_prefix_of(text));
    } else {
        match chunk_action(text, chunks[0]) {
            StreamActionView::Delta(c) => {
                let rest = stream_actions(text + c, chunks.drop_first());
                lemma_stream_ends_once(text + c, chunks.drop_first());
                assert(acts == seq![StreamActionView::Delta(c)] + rest);
                let d = acts.drop_last();
                assert(d.drop_first() =~= rest.drop_last());
                assert(d[0] == StreamActionView::Delta(c));
                assert(delta_text(d) == c + delta_text(rest.drop_last()));
                assert(text + (c + delta_text(rest.drop_last())) =~= (text + c) + delta_text(
                    rest.drop_last(),
                ));
                assert forall|i: int| 0 <= i < acts.len() - 1 implies acts[i] is Delta by {
                    if i > 0 {
                        assert(acts[i] == rest[i - 1]);
                    }
                }
            },
            _ => {
                assert(acts.drop_last() =~= Seq::<StreamActionView>::empty());
                assert(text + Seq::<char>::empty() =~= text);
                assert(text.is_prefix_of(text));
                assert(text.is_prefix_of(text + chunks[0]->Ok_0)) by {
                    assert forall|i: int| 0 <= i < text.len() implies (text + chunks[0]->Ok_0)[i]
                        == text[i] by {}
                }
            },
        }
    }
}

/// The assistant reply as it streams in: the chunks received so far, and
/// whether an action already ended it.
pub struct AssistantDraft {
    content: String,
    chars: usize,
    ended: bool,
}

impl AssistantDraft {
    /// The text received so far.
    pub closed spec fn text(&self) -> Seq<char> {
        self.content@
    }

    /// Whether an action ended the reply; nothing more is taken then.
    pub closed spec fn is_ended(&self) -> bool {
        self.ended
    }

    pub closed spec fn wf(&self) -> bool {
        self.chars == self.content@.len() && self.chars <= MAX_ASSISTANT_LEN
    }

    pub fn new() -> (d: AssistantDraft)
        ensures
            d.wf(),
            !d.is_ended(),
            d.text() == Seq::<char>::empty(),
    {
        AssistantDraft { content: String::new(), chars: 0, ended: false }
    }

    /// The text received so far.
    pub fn content(&self) -> (s: &String)
        ensures
            s@ == self.text(),
    {
        &self.content
    }

    /// Takes the next event of the provider stream (see `chunk_action`).
    /// The reply goes on after a `Delta` and has ended otherwise.
    pub fn on_chunk(&mut self, chunk: Result<String, ProviderError>) -> (r: StreamAction)
        requires
            old(self).wf(),
            !old(self).is_ended(),
        ensures
            r@ == chunk_action(old(self).text(), chunk_view(chunk)),
            final(self).is_ended() == !(r is Delta),
            r is Delta ==> final(self).wf() && final(self).text() == old(self).text() + r->Delta_0@,
    {
        match chunk {
            Err(e) => {
                self.ended = true;
                StreamAction::Fail { content: self.content.clone(), error: AppError::Provider(e) }
            },
            Ok(c) => {
                let n = char_count(c.as_str());
                match self.chars.checked_add(n) {
                    Some(total) if total <= MAX_ASSISTANT_LEN => {
                        push_str(&mut self.content, c.as_str());
                        self.chars = total;
                        StreamAction::Delta(c)
                    },
                    _ => {
                        push_str(&mut self.content, c.as_str());
                        self.ended = true;
                        StreamAction::Fail { content: self.content.clone(), error: reply_too_long() }
                    },
                }
            },
        }
    }

    /// The end of the provider stream (see `end_action`).
    pub fn finish(self) -> (r: StreamAction)
        requires
            self.wf(),
            !self.is_ended(),
        ensures
            r@ == end_action(self.text()),
    {
        if blank(self.content.as_str()) {
            let content = self.content;
            StreamAction::Fail {
                content,
                error: AppError::Provider(
                    ProviderError::InvalidResponse("empty streamed assistant content".to_owned()),
                ),
            }
        } else {
            StreamAction::Complete(self.content)
        }
    }
}

} // verus!
