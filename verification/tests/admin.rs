use gemini_fastapi_rs::admin::{
    extract_cookie_header_from_text, extract_web_tool_nonce_from_text, health, plan_reload,
    read_reload, reloaded, runtime_file_status, session_status, FileFacts, ReloadRequest,
    VerifyResult,
};
use gemini_fastapi_rs::digest::short_fingerprint;
use gemini_fastapi_rs::json::{self, Json};

#[test]
fn gateway_tells_that_it_runs() {
    assert_eq!(
        health(&vec!["a".to_string(), "b".to_string()]).to_text(),
        "{\"clients\":[\"a\",\"b\"],\"implementation\":\"rust\",\"ok\":true,\"status\":\"ok\"}"
    );
}

#[test]
fn files_are_told_of_without_what_they_hold() {
    assert_eq!(
        runtime_file_status(None, None, None).to_text(),
        "{\"configured\":false}"
    );
    assert_eq!(
        runtime_file_status(Some("/c"), None, None).to_text(),
        "{\"configured\":true,\"exists\":false,\"len\":null,\"modified_unix\":null,\"path\":\"/c\",\"sha256\":null}"
    );
    let facts = FileFacts {
        len: 6,
        modified_unix: Some(9),
    };
    let told = runtime_file_status(Some("/c"), Some(facts), Some("secret")).to_text();
    assert_eq!(
        told,
        format!("{{\"configured\":true,\"exists\":true,\"len\":6,\"modified_unix\":9,\"path\":\"/c\",\"sha256\":\"{}\"}}", short_fingerprint("secret"))
    );
    assert!(!told.contains("secret"));
    assert_eq!(
        session_status(Json::Null, json::string("c"), json::string("n")).to_text(),
        "{\"clients\":null,\"files\":{\"cookie\":\"c\",\"web_tool_nonce\":\"n\"},\"ok\":true}"
    );
}

#[test]
fn cookies_and_nonces_are_told_apart() {
    assert_eq!(
        extract_cookie_header_from_text(" Cookie: a=1; __Secure-1PSID=x ").unwrap(),
        "a=1; __Secure-1PSID=x"
    );
    assert_eq!(
        extract_cookie_header_from_text("__Secure-1PSID=x").unwrap(),
        "__Secure-1PSID=x"
    );
    assert_eq!(extract_cookie_header_from_text("a=1"), None);
    assert_eq!(extract_web_tool_nonce_from_text(" abc\n").unwrap(), "abc");
    assert_eq!(extract_web_tool_nonce_from_text("a b"), None);
    assert_eq!(extract_web_tool_nonce_from_text("a=b"), None);
    assert_eq!(extract_web_tool_nonce_from_text(" "), None);
}

fn read(payload: &str) -> ReloadRequest {
    read_reload(&json::parse(payload).unwrap())
}

#[test]
fn requests_to_reload_are_read() {
    let request = read("{\"cookie\":\"__Secure-1PSID=x\",\"tool_nonce\":\"n\",\"verify\":false}");
    assert_eq!(request.cookie.as_deref(), Some("__Secure-1PSID=x"));
    assert_eq!(request.web_tool_nonce.as_deref(), Some("n"));
    assert!(!request.verify);
    let request = read("{\"cookie\":\"bad\",\"text\":\"__Secure-1PSID=t\"}");
    assert_eq!(request.cookie.as_deref(), Some("__Secure-1PSID=t"));
    assert_eq!(request.web_tool_nonce, None);
    assert!(request.verify);
    let request = read("{\"web_tool_nonce\":5,\"tool_nonce\":\"n\",\"verify\":\"no\"}");
    assert_eq!(request.web_tool_nonce, None);
    assert!(request.verify);
    let request = read("{\"text\":\"n\"}");
    assert_eq!(request.web_tool_nonce.as_deref(), Some("n"));
    assert_eq!(read("[]").cookie, None);
}

fn reload(cookie: Option<&str>, nonce: Option<&str>) -> ReloadRequest {
    ReloadRequest {
        cookie: cookie.map(|c| c.to_string()),
        web_tool_nonce: nonce.map(|n| n.to_string()),
        verify: true,
    }
}

#[test]
fn new_cookies_are_written_to_their_files() {
    let plan = plan_reload(&reload(Some("c"), Some("n")), Some("/c"), Some("/n"));
    assert!(plan.refusal.is_none());
    assert_eq!(plan.writes.len(), 2);
    assert_eq!(plan.writes[0].path, "/c");
    assert_eq!(plan.writes[0].content, "c\n");
    assert_eq!(plan.writes[1].path, "/n");
    assert_eq!(plan.writes[1].content, "n\n");
    let plan = plan_reload(&reload(Some("c"), Some("n")), None, Some("/n"));
    assert_eq!(plan.writes.len(), 0);
    assert_eq!(plan.refusal.as_ref().unwrap().status, 400);
    assert_eq!(
        plan.refusal.unwrap().detail,
        "GEMINI_COOKIE_FILE is not configured; cannot hot-update cookie"
    );
    let plan = plan_reload(&reload(Some("c"), Some("n")), Some("/c"), None);
    assert_eq!(plan.writes.len(), 1);
    assert_eq!(
        plan.refusal.unwrap().detail,
        "GEMINI_WEB_TOOL_NONCE_FILE is not configured; cannot hot-update web tool nonce"
    );
    let plan = plan_reload(&reload(None, None), Some("/c"), Some("/n"));
    assert_eq!(plan.writes.len(), 0);
    assert_eq!(
        plan.refusal.unwrap().detail,
        "no cookie or web_tool_nonce found in request payload"
    );
}

#[test]
fn new_cookies_are_told_of() {
    let tell = |request: &ReloadRequest, verified: &VerifyResult| {
        reloaded(
            request,
            Some("/c"),
            Some("/n"),
            verified,
            Json::Null,
            json::string("c"),
            json::string("n"),
        )
        .to_text()
    };
    let told = tell(&reload(Some("ké"), None), &VerifyResult::Works);
    assert_eq!(
        told,
        format!("{{\"clients\":null,\"files\":{{\"cookie\":\"c\",\"web_tool_nonce\":\"n\"}},\"ok\":true,\"session_verify\":{{\"ok\":true}},\"updated\":{{\"cookie\":{{\"len\":3,\"path\":\"/c\",\"sha256\":\"{}\"}}}}}}", short_fingerprint("ké"))
    );
    let told = tell(&reload(None, Some("n")), &VerifyResult::Fails("x".to_string()));
    assert!(told.contains("\"session_verify\":{\"error\":\"x\",\"ok\":false}"));
    assert!(told.contains("\"updated\":{\"web_tool_nonce\":{\"len\":1,"));
    let told = tell(&reload(None, Some("n")), &VerifyResult::Skipped);
    assert!(told.contains("\"session_verify\":{\"ok\":null,\"skipped\":true}"));
}
