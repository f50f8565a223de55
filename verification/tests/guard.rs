use backend::guard::{
    is_loopback_host, is_trusted_frontend_origin, method_has_side_effect, validate_local_request,
    HeaderText, HttpMethod,
};

fn text(s: &str) -> HeaderText {
    HeaderText::Text(s.to_owned())
}

#[test]
fn loopback_hosts_are_recognized() {
    for host in ["localhost", "localhost:8080", "127.0.0.1", "127.0.0.1:8080", "[::1]", "[::1]:8080"] {
        assert!(is_loopback_host(host), "{host}");
    }
    for host in ["evil.example", "evil.example:8080", "127.0.0.2", "::1", "[::2]:80", "[::1", "0.0.0.0"] {
        assert!(!is_loopback_host(host), "{host}");
    }
}

#[test]
fn only_the_frontend_origin_is_trusted() {
    assert!(is_trusted_frontend_origin("http://localhost:3000"));
    assert!(is_trusted_frontend_origin("http://127.0.0.1:3000"));
    assert!(!is_trusted_frontend_origin("http://evil.example"));
    assert!(!is_trusted_frontend_origin("http://localhost:3001"));
}

#[test]
fn state_changing_methods() {
    assert!(method_has_side_effect(&HttpMethod::Post));
    assert!(method_has_side_effect(&HttpMethod::Put));
    assert!(method_has_side_effect(&HttpMethod::Patch));
    assert!(method_has_side_effect(&HttpMethod::Delete));
    assert!(!method_has_side_effect(&HttpMethod::Get));
    assert!(!method_has_side_effect(&HttpMethod::Options));
    assert!(!method_has_side_effect(&HttpMethod::Extension("PURGE".to_owned())));
}

#[test]
fn rejects_non_loopback_host_headers() {
    let error = validate_local_request(&text("evil.example"), &HttpMethod::Get, &HeaderText::Absent)
        .unwrap_err();
    assert_eq!(error.status(), 400);
    assert_eq!(error.code(), "bad_request");
    assert_eq!(error.client_message(), "invalid host header");
}

#[test]
fn rejects_state_changing_requests_from_untrusted_origins() {
    let error = validate_local_request(
        &text("localhost:8080"),
        &HttpMethod::Post,
        &text("http://evil.example"),
    )
    .unwrap_err();
    assert_eq!(error.code(), "bad_request");
    assert_eq!(error.client_message(), "invalid origin header");
    assert!(validate_local_request(&text("localhost:8080"), &HttpMethod::Post, &HeaderText::Unreadable)
        .is_err());
}

#[test]
fn accepts_state_changing_requests_from_trusted_frontend_origin() {
    assert!(validate_local_request(
        &text("localhost:8080"),
        &HttpMethod::Post,
        &text("http://localhost:3000")
    )
    .is_ok());
    assert!(validate_local_request(&text("localhost:8080"), &HttpMethod::Post, &HeaderText::Absent)
        .is_ok());
    // Reads are served whatever their origin; a missing or unreadable host is accepted.
    assert!(validate_local_request(&HeaderText::Absent, &HttpMethod::Get, &text("http://evil.example"))
        .is_ok());
    assert!(validate_local_request(&HeaderText::Unreadable, &HttpMethod::Get, &HeaderText::Absent)
        .is_ok());
    assert!(validate_local_request(&text(""), &HttpMethod::Get, &HeaderText::Absent).is_ok());
}
