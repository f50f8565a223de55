use backend::chat::{
    normalize_message_content, normalize_title, provider_request_for_conversation,
    validate_provider_response, AssistantDraft, StreamAction,
};
use backend::error::AppError;
use backend::models::Message;
use backend::provider::{ChatProviderResponse, ProviderError};

fn message(role: &str, content: &str, status: &str) -> Message {
    Message {
        id: format!("{role}-{content}"),
        conversation_id: "c".to_owned(),
        role: role.to_owned(),
        content: content.to_owned(),
        status: status.to_owned(),
        created_at: "2026-01-01T00:00:00.000Z".to_owned(),
        completed_at: None,
    }
}

#[test]
fn message_content_is_trimmed() {
    assert_eq!(
        normalize_message_content("  Hello provider  ".to_owned()).unwrap(),
        "Hello provider"
    );
}

#[test]
fn blank_message_content_is_rejected() {
    let error = normalize_message_content("   ".to_owned()).unwrap_err();
    assert_eq!(error.code(), "validation_failed");
    assert_eq!(error.status(), 422);
    assert_eq!(error.client_message(), "content must not be empty");
}

#[test]
fn oversized_message_content_is_rejected() {
    let error = normalize_message_content("x".repeat(16_001)).unwrap_err();
    assert_eq!(error, AppError::Validation("content must be 16000 characters or fewer".to_owned()));
    assert_eq!(normalize_message_content("x".repeat(16_000)).unwrap().len(), 16_000);
    // Characters, not bytes, are counted, and only after trimming.
    assert!(normalize_message_content("é".repeat(16_000)).is_ok());
    assert!(normalize_message_content(format!("  {}  ", "x".repeat(16_000))).is_ok());
}

#[test]
fn titles_default_trim_and_are_limited() {
    assert_eq!(normalize_title(None).unwrap(), "New conversation");
    assert_eq!(normalize_title(Some("  Planning chat  ".to_owned())).unwrap(), "Planning chat");
    assert_eq!(
        normalize_title(Some("   ".to_owned())).unwrap_err(),
        AppError::Validation("title must not be empty".to_owned())
    );
    assert_eq!(
        normalize_title(Some("a".repeat(121))).unwrap_err(),
        AppError::Validation("title must be 120 characters or fewer".to_owned())
    );
    assert_eq!(normalize_title(Some("a".repeat(120))).unwrap().len(), 120);
}

#[test]
fn provider_replies_must_not_be_blank_or_too_long() {
    let reply = |content: String| validate_provider_response(ChatProviderResponse { content });
    assert_eq!(reply(" answer ".to_owned()).unwrap(), " answer ");
    assert_eq!(
        reply(" \n ".to_owned()).unwrap_err(),
        AppError::Provider(ProviderError::InvalidResponse("empty assistant content".to_owned()))
    );
    let error = reply("y".repeat(64_001)).unwrap_err();
    assert_eq!(
        error,
        AppError::Provider(ProviderError::InvalidResponse(
            "assistant content exceeded 64000 characters".to_owned()
        ))
    );
    assert_eq!(error.code(), "provider_invalid_response");
    assert!(reply("y".repeat(64_000)).is_ok());
}

#[test]
fn only_completed_messages_reach_the_provider_in_order() {
    let history = vec![
        message("user", "fail once", "completed"),
        message("assistant", "partial", "failed"),
        message("assistant", "", "streaming"),
        message("user", "try again", "completed"),
    ];
    let request = provider_request_for_conversation(&"model-x".to_owned(), history);
    assert_eq!(request.model, "model-x");
    let sent: Vec<(&str, &str)> =
        request.messages.iter().map(|m| (m.role.as_str(), m.content.as_str())).collect();
    assert_eq!(sent, vec![("user", "fail once"), ("user", "try again")]);
}

#[test]
fn streamed_reply_collects_chunks() {
    let mut draft = AssistantDraft::new();
    assert_eq!(draft.on_chunk(Ok("hello".to_owned())), StreamAction::Delta("hello".to_owned()));
    assert_eq!(draft.on_chunk(Ok(" ".to_owned())), StreamAction::Delta(" ".to_owned()));
    assert_eq!(draft.on_chunk(Ok("stream".to_owned())), StreamAction::Delta("stream".to_owned()));
    assert_eq!(draft.content(), "hello stream");
    let end = draft.finish();
    assert_eq!(end.message_status(), Some("completed"));
    assert_eq!(end, StreamAction::Complete("hello stream".to_owned()));
    assert_eq!(StreamAction::Delta("x".to_owned()).message_status(), None);
}

#[test]
fn streamed_reply_fails_on_provider_error_and_keeps_partial_text() {
    let mut draft = AssistantDraft::new();
    draft.on_chunk(Ok("partial".to_owned()));
    let action = draft.on_chunk(Err(ProviderError::Interrupted("connection closed".to_owned())));
    assert_eq!(action.message_status(), Some("failed"));
    match action {
        StreamAction::Fail { content, error } => {
            assert_eq!(content, "partial");
            assert_eq!(error.code(), "provider_stream_interrupted");
        }
        other => panic!("expected a failure, got {other:?}"),
    }
}

#[test]
fn streamed_reply_fails_when_too_long_or_blank() {
    let mut draft = AssistantDraft::new();
    assert!(matches!(draft.on_chunk(Ok("z".repeat(64_000))), StreamAction::Delta(_)));
    match draft.on_chunk(Ok("z".to_owned())) {
        StreamAction::Fail { content, error } => {
            assert_eq!(content.chars().count(), 64_001);
            assert_eq!(
                error,
                AppError::Provider(ProviderError::InvalidResponse(
                    "assistant content exceeded 64000 characters".to_owned()
                ))
            );
        }
        other => panic!("expected a failure, got {other:?}"),
    }

    let mut blank = AssistantDraft::new();
    blank.on_chunk(Ok("  ".to_owned()));
    assert_eq!(
        blank.finish(),
        StreamAction::Fail {
            content: "  ".to_owned(),
            error: AppError::Provider(ProviderError::InvalidResponse(
                "empty streamed assistant content".to_owned()
            )),
        }
    );
    assert!(matches!(AssistantDraft::new().finish(), StreamAction::Fail { .. }));
}

#[test]
fn a_streamed_reply_ends_exactly_once() {
    let run = |chunks: Vec<Result<String, ProviderError>>| {
        let mut draft = AssistantDraft::new();
        let mut actions = Vec::new();
        for chunk in chunks {
            let action = draft.on_chunk(chunk);
            let ends = !matches!(action, StreamAction::Delta(_));
            actions.push(action);
            if ends {
                return actions;
            }
        }
        actions.push(draft.finish());
        actions
    };
    let actions = run(vec![Ok("a".to_owned()), Ok("b".to_owned())]);
    assert_eq!(
        actions,
        vec![
            StreamAction::Delta("a".to_owned()),
            StreamAction::Delta("b".to_owned()),
            StreamAction::Complete("ab".to_owned()),
        ]
    );
    let actions = run(vec![
        Ok("a".to_owned()),
        Err(ProviderError::Timeout),
        Ok("never".to_owned()),
    ]);
    assert_eq!(actions.len(), 2);
    assert_eq!(
        actions[1],
        StreamAction::Fail {
            content: "a".to_owned(),
            error: AppError::Provider(ProviderError::Timeout),
        }
    );
}

#[test]
fn accepted_content_and_titles_are_accepted_again_unchanged() {
    let once = normalize_message_content(" \u{3000}hi there\n".to_owned()).unwrap();
    assert_eq!(normalize_message_content(once.clone()).unwrap(), once);
    let title = normalize_title(Some("  Plan \t".to_owned())).unwrap();
    assert_eq!(normalize_title(Some(title.clone())).unwrap(), title);
    let default = normalize_title(None).unwrap();
    assert_eq!(normalize_title(Some(default.clone())).unwrap(), default);
}
