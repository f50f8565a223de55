use backend::provider::{
    check_upstream_status, completion_content, map_transport_failure, openrouter_request_body,
    openrouter_request_headers, ChatProviderRequest, OpenRouterStreamLine, ProviderError,
    ProviderMessage, TransportFailure,
};
use backend::sse::{parse_openrouter_sse_line, parse_u64};

#[test]
fn openrouter_stream_parser_skips_comments_and_reports_provider_error_chunks() {
    assert_eq!(
        parse_openrouter_sse_line(": keep-alive").unwrap(),
        OpenRouterStreamLine::Skip
    );
    assert_eq!(
        parse_openrouter_sse_line("data: [DONE]").unwrap(),
        OpenRouterStreamLine::Done
    );
    assert_eq!(
        parse_openrouter_sse_line(r#"data: {"choices":[{"delta":{"content":"hi"}}]}"#).unwrap(),
        OpenRouterStreamLine::Content("hi".to_owned())
    );

    let error =
        parse_openrouter_sse_line(r#"data: {"error":{"message":"rate limited","code":429}}"#)
            .unwrap_err();
    assert!(matches!(error, ProviderError::RateLimited));
}

#[test]
fn sse_lines_that_are_not_data_are_skipped() {
    assert_eq!(parse_openrouter_sse_line("").unwrap(), OpenRouterStreamLine::Skip);
    assert_eq!(parse_openrouter_sse_line("   \r\n").unwrap(), OpenRouterStreamLine::Skip);
    assert_eq!(parse_openrouter_sse_line("event: message").unwrap(), OpenRouterStreamLine::Skip);
    assert_eq!(parse_openrouter_sse_line("  data:[DONE]  \n").unwrap(), OpenRouterStreamLine::Done);
}

#[test]
fn sse_message_content_is_used_without_delta_and_empty_content_is_skipped() {
    assert_eq!(
        parse_openrouter_sse_line(r#"data: {"choices":[{"message":{"content":"full"}}]}"#).unwrap(),
        OpenRouterStreamLine::Content("full".to_owned())
    );
    assert_eq!(
        parse_openrouter_sse_line(r#"data: {"choices":[{"delta":{"content":""}}]}"#).unwrap(),
        OpenRouterStreamLine::Skip
    );
    assert_eq!(
        parse_openrouter_sse_line(r#"data: {"choices":[]}"#).unwrap(),
        OpenRouterStreamLine::Skip
    );
    // A `delta` member hides `message`, even when it holds no content.
    assert_eq!(
        parse_openrouter_sse_line(
            r#"data: {"choices":[{"delta":{},"message":{"content":"x"}}]}"#
        )
        .unwrap(),
        OpenRouterStreamLine::Skip
    );
    // Content keeps its whitespace.
    assert_eq!(
        parse_openrouter_sse_line(r#"data: {"choices":[{"delta":{"content":" a "}}]}"#).unwrap(),
        OpenRouterStreamLine::Content(" a ".to_owned())
    );
}

#[test]
fn sse_error_chunks_carry_status_and_message() {
    assert_eq!(
        parse_openrouter_sse_line(r#"data: {"error":{"message":"boom","code":500}}"#).unwrap_err(),
        ProviderError::UpstreamStatus { status: 500, message: "boom".to_owned() }
    );
    assert_eq!(
        parse_openrouter_sse_line(r#"data: {"error":{"message":"slow","code":"429"}}"#).unwrap_err(),
        ProviderError::RateLimited
    );
    assert_eq!(
        parse_openrouter_sse_line(r#"data: {"error":{"code":70000}}"#).unwrap_err(),
        ProviderError::UpstreamStatus {
            status: 502,
            message: "provider returned an error".to_owned()
        }
    );
    assert_eq!(
        parse_openrouter_sse_line(r#"data: {"error":{"code":-1,"message":7}}"#).unwrap_err(),
        ProviderError::UpstreamStatus {
            status: 502,
            message: "provider returned an error".to_owned()
        }
    );
    assert_eq!(
        parse_openrouter_sse_line(r#"data: {"error":null}"#).unwrap_err(),
        ProviderError::UpstreamStatus {
            status: 502,
            message: "provider returned an error".to_owned()
        }
    );
}

#[test]
fn sse_data_that_is_not_json_is_an_invalid_response() {
    let error = parse_openrouter_sse_line("data: {not json").unwrap_err();
    match error {
        ProviderError::InvalidResponse(message) => assert!(!message.is_empty()),
        other => panic!("unexpected error {other:?}"),
    }
}

#[test]
fn parse_u64_follows_std() {
    assert_eq!(parse_u64("429"), Some(429));
    assert_eq!(parse_u64("+7"), Some(7));
    assert_eq!(parse_u64("18446744073709551615"), Some(u64::MAX));
    assert_eq!(parse_u64("18446744073709551616"), None);
    assert_eq!(parse_u64(""), None);
    assert_eq!(parse_u64("+"), None);
    assert_eq!(parse_u64("-1"), None);
    assert_eq!(parse_u64(" 1"), None);
    assert_eq!(parse_u64("12a"), None);
}

#[test]
fn request_headers_need_an_api_key() {
    assert_eq!(
        openrouter_request_headers(&None, &None, &"t".to_owned()),
        Err(ProviderError::MissingApiKey)
    );
}

#[test]
fn request_headers_carry_bearer_title_and_referer() {
    let headers = openrouter_request_headers(
        &Some("test-api-key".to_owned()),
        &Some("http://localhost:3000".to_owned()),
        &"gpt-copy-v6".to_owned(),
    )
    .unwrap();
    let pairs: Vec<(&str, &str)> =
        headers.iter().map(|h| (h.name.as_str(), h.value.as_str())).collect();
    assert_eq!(
        pairs,
        vec![
            ("Authorization", "Bearer test-api-key"),
            ("X-Title", "gpt-copy-v6"),
            ("X-OpenRouter-Title", "gpt-copy-v6"),
            ("HTTP-Referer", "http://localhost:3000"),
        ]
    );
    let without_referer =
        openrouter_request_headers(&Some("k".to_owned()), &None, &"x".to_owned()).unwrap();
    assert_eq!(without_referer.len(), 3);
}

#[test]
fn request_body_limits_tokens_and_sets_stream_flag() {
    let request = ChatProviderRequest {
        model: "test-model".to_owned(),
        messages: vec![ProviderMessage { role: "user".to_owned(), content: "hello".to_owned() }],
    };
    let body = openrouter_request_body(request.clone(), false);
    assert_eq!(body.model, "test-model");
    assert_eq!(body.messages, request.messages);
    assert!(!body.stream);
    assert_eq!(body.max_tokens, 2048);
    assert!(openrouter_request_body(request, true).stream);
}

#[test]
fn upstream_status_decides_rate_limit_and_failure() {
    assert_eq!(check_upstream_status(200, "x"), Ok(()));
    assert_eq!(check_upstream_status(299, "x"), Ok(()));
    assert_eq!(check_upstream_status(429, "x"), Err(ProviderError::RateLimited));
    assert_eq!(
        check_upstream_status(500, "chat completion request failed"),
        Err(ProviderError::UpstreamStatus {
            status: 500,
            message: "chat completion request failed".to_owned()
        })
    );
    assert_eq!(
        check_upstream_status(302, "m"),
        Err(ProviderError::UpstreamStatus { status: 302, message: "m".to_owned() })
    );
}

#[test]
fn completion_content_takes_the_first_non_blank_choice() {
    assert_eq!(
        completion_content(vec![Some("adapter response".to_owned()), Some("b".to_owned())])
            .unwrap()
            .content,
        "adapter response"
    );
    let missing = ProviderError::InvalidResponse("missing assistant content".to_owned());
    assert_eq!(completion_content(vec![]), Err(missing.clone()));
    assert_eq!(completion_content(vec![None, Some("b".to_owned())]), Err(missing.clone()));
    assert_eq!(completion_content(vec![Some(" \n".to_owned())]), Err(missing));
}

#[test]
fn transport_failures_map_to_provider_errors() {
    let failure = |is_timeout, is_decode| TransportFailure {
        is_timeout,
        is_decode,
        message: "oops".to_owned(),
    };
    assert_eq!(map_transport_failure(failure(true, true)), ProviderError::Timeout);
    assert_eq!(
        map_transport_failure(failure(false, true)),
        ProviderError::InvalidResponse("oops".to_owned())
    );
    assert_eq!(
        map_transport_failure(failure(false, false)),
        ProviderError::Transport("oops".to_owned())
    );
}
