use gemini_fastapi_rs::http::{
    request_base_url, trace_id_from_headers, verify_auth, ApiError, RequestHeader,
};

fn header(name: &str, value: Option<&str>) -> RequestHeader {
    RequestHeader {
        name: name.to_string(),
        value: value.map(|v| v.to_string()),
    }
}

#[test]
fn only_the_bearer_of_the_key_passes() {
    let key = Some("secret");
    assert!(verify_auth(None, &[]).is_ok());
    assert!(verify_auth(Some(""), &[]).is_ok());
    assert!(verify_auth(key, &[header("authorization", Some("Bearer secret"))]).is_ok());
    let error = verify_auth(key, &[]).unwrap_err();
    assert_eq!(error.status, 401);
    assert_eq!(error.detail, "missing authorization header");
    let error = verify_auth(key, &[header("authorization", None)]).unwrap_err();
    assert_eq!(error.detail, "missing authorization header");
    for sent in ["bearer secret", "Bearer secret ", "secret", "Bearer  secret"] {
        let error = verify_auth(key, &[header("authorization", Some(sent))]).unwrap_err();
        assert_eq!(error.status, 401);
        assert_eq!(error.detail, "invalid api key");
    }
    let twice = [
        header("authorization", Some("no")),
        header("authorization", Some("Bearer secret")),
    ];
    assert!(verify_auth(key, &twice).is_err());
}

#[test]
fn refusals_have_a_status_and_a_body() {
    assert_eq!(ApiError::bad_request("x").status, 400);
    assert_eq!(ApiError::unauthorized("x").status, 401);
    assert_eq!(ApiError::not_found("x").status, 404);
    assert_eq!(ApiError::bad_gateway("x").status, 502);
    assert_eq!(
        ApiError::not_found("no \"x\"").body().to_text(),
        "{\"detail\":\"no \\\"x\\\"\"}"
    );
}

#[test]
fn requests_are_traced_by_their_headers() {
    assert_eq!(trace_id_from_headers(&[]), "-");
    assert_eq!(
        trace_id_from_headers(&[header("x-request-id", Some(" 7 "))]),
        "7"
    );
    assert_eq!(
        trace_id_from_headers(&[
            header("x-request-id", Some("7")),
            header("x-obp-request-id", Some("8")),
        ]),
        "8"
    );
    assert_eq!(
        trace_id_from_headers(&[
            header("x-request-id", Some("7")),
            header("x-obp-request-id", Some("  ")),
        ]),
        "-"
    );
}

#[test]
fn address_is_read_from_the_headers() {
    assert_eq!(request_base_url(&[]), None);
    assert_eq!(request_base_url(&[header("host", Some(" "))]), None);
    assert_eq!(
        request_base_url(&[header("host", Some("h:1"))]).unwrap(),
        "http://h:1"
    );
    assert_eq!(
        request_base_url(&[
            header("x-forwarded-proto", Some("https")),
            header("host", Some(" h ")),
        ])
        .unwrap(),
        "https://h"
    );
}
