use backend::error::{provider_error_code, provider_error_message, AppError};
use backend::provider::ProviderError;

#[test]
fn request_errors_keep_their_message() {
    let cases = vec![
        (AppError::validation("bad".to_owned()), "validation_failed", 422),
        (AppError::InvalidJson("Failed to parse".to_owned()), "invalid_json", 400),
        (AppError::bad_request("bad".to_owned()), "bad_request", 400),
        (AppError::not_found("bad".to_owned()), "not_found", 404),
    ];
    for (error, code, status) in cases {
        assert_eq!(error.code(), code);
        assert_eq!(error.status(), status);
        let body = error.response_body();
        assert_eq!(body.error.code, code);
        assert_eq!(body.error.message, error.client_message());
    }
    assert_eq!(AppError::validation("bad".to_owned()).client_message(), "bad");
}

#[test]
fn database_errors_hide_their_cause() {
    let error = AppError::Database("no such table: messages".to_owned());
    assert_eq!(error.code(), "database_error");
    assert_eq!(error.status(), 500);
    assert_eq!(error.client_message(), "A database error occurred");
}

#[test]
fn provider_errors_map_to_codes_statuses_and_messages() {
    let cases = vec![
        (ProviderError::MissingApiKey, "provider_not_configured", 503, "OpenRouter is not configured"),
        (ProviderError::RateLimited, "provider_rate_limited", 429, "OpenRouter rate limit exceeded"),
        (ProviderError::Timeout, "provider_timeout", 504, "OpenRouter request timed out"),
        (
            ProviderError::InvalidResponse("missing content".to_owned()),
            "provider_invalid_response",
            502,
            "OpenRouter returned an invalid response",
        ),
        (
            ProviderError::Interrupted("connection closed".to_owned()),
            "provider_stream_interrupted",
            502,
            "OpenRouter stream was interrupted",
        ),
        (
            ProviderError::Transport("dns".to_owned()),
            "provider_error",
            502,
            "OpenRouter request failed",
        ),
        (
            ProviderError::UpstreamStatus { status: 500, message: "secret".to_owned() },
            "provider_error",
            502,
            "OpenRouter returned HTTP status 500",
        ),
    ];
    for (provider_error, code, status, message) in cases {
        assert_eq!(provider_error_code(&provider_error), code);
        assert_eq!(provider_error_message(&provider_error), message);
        let error = AppError::from(provider_error);
        assert_eq!(error.code(), code);
        assert_eq!(error.status(), status);
        assert_eq!(error.client_message(), message);
        assert!(error.client_message().starts_with("OpenRouter"));
    }
}

#[test]
fn upstream_status_message_renders_the_number() {
    let message = |status| {
        provider_error_message(&ProviderError::UpstreamStatus { status, message: String::new() })
    };
    assert_eq!(message(0), "OpenRouter returned HTTP status 0");
    assert_eq!(message(7), "OpenRouter returned HTTP status 7");
    assert_eq!(message(404), "OpenRouter returned HTTP status 404");
    assert_eq!(message(65535), "OpenRouter returned HTTP status 65535");
}

#[test]
fn provider_details_never_reach_the_client() {
    let a = AppError::from(ProviderError::InvalidResponse("test-api-key".to_owned()));
    let b = AppError::from(ProviderError::InvalidResponse(String::new()));
    assert_eq!(a.response_body(), b.response_body());
    let c = AppError::from(ProviderError::UpstreamStatus { status: 401, message: "key test-api-key".to_owned() });
    assert!(!c.client_message().contains("test-api-key"));
    assert_eq!(c.client_message(), "OpenRouter returned HTTP status 401");
}

#[test]
fn errors_describe_themselves() {
    assert_eq!(ProviderError::MissingApiKey.describe(), "OpenRouter API key is missing");
    assert_eq!(ProviderError::Timeout.describe(), "OpenRouter request timed out");
    assert_eq!(
        ProviderError::Interrupted("eof".to_owned()).describe(),
        "OpenRouter stream was interrupted: eof"
    );
    assert_eq!(
        ProviderError::UpstreamStatus { status: 429, message: "slow down".to_owned() }.describe(),
        "OpenRouter returned HTTP status 429: slow down"
    );
    assert_eq!(AppError::validation("x".to_owned()).describe(), "validation failed: x");
    assert_eq!(AppError::InvalidJson("y".to_owned()).describe(), "invalid request body: y");
    assert_eq!(AppError::bad_request("z".to_owned()).describe(), "bad request: z");
    assert_eq!(AppError::not_found("w".to_owned()).describe(), "not found: w");
    assert_eq!(
        AppError::from(ProviderError::Transport("dns".to_owned())).describe(),
        "OpenRouter transport error: dns"
    );
    assert_eq!(AppError::Database("locked".to_owned()).describe(), "locked");
}
