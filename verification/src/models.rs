//! The records the API stores and answers with.
use vstd::prelude::*;

verus! {

/// A conversation; its timestamps are ISO-8601 UTC texts.
#[derive(Debug, Clone, PartialEq, Eq)]
pub struct Conversation {
    pub id: String,
    pub title: String,
    pub created_at: String,
    pub updated_at: String,
}

/// One message of a conversation. `status` is `completed`, `streaming`
/// or `failed`; `completed_at` is set once it is completed or failed.
#[derive(Debug, Clone, PartialEq, Eq)]
pub struct Message {
    pub id: String,
    pub conversation_id: String,
    pub role: String,
    pub content: String,
    pub status: String,
    pub created_at: String,
    pub completed_at: Option<String>,
}

/// The record of one request to the provider: `pending`, then `succeeded`
/// (with the assistant message) or `failed` (with an error code).
#[derive(Debug, Clone, PartialEq, Eq)]
pub struct ChatRequest {
    pub id: String,
    pub conversation_id: String,
    pub user_message_id: String,
    pub assistant_message_id: Option<String>,
    pub status: String,
    pub error_code: Option<String>,
    pub created_at: String,
    pub completed_at: Option<String>,
}

#[derive(Debug, Clone, PartialEq, Eq)]
pub struct CreateConversationRequest {
    pub title: Option<String>,
}

#[derive(Debug, Clone, PartialEq, Eq)]
pub struct ConversationResponse {
    pub conversation: Conversation,
}

#[derive(Debug, Clone, PartialEq, Eq)]
pub struct ListConversationsResponse {
    pub conversations: Vec<Conversation>,
}

#[derive(Debug, Clone, PartialEq, Eq)]
pub struct MessagesResponse {
    pub messages: Vec<Message>,
}

#[derive(Debug, Clone, PartialEq, Eq)]
pub struct SendMessageRequest {
    pub content: String,
}

#[derive(Debug, Clone, PartialEq, Eq)]
pub struct SendMessageResponse {
    pub user_message: Message,
    pub assistant_message: Message,
}

} // verus!
