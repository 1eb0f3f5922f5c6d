use gemini_fastapi_rs::config::{GeminiClientConfig, GeminiModelConfig};
use gemini_fastapi_rs::gemini::{
    builtin_models, generate_request, model, offered_models, open_session, read_session, GeminiClient, GeminiError,
    GenerateAction, GenerateEvent, GenerateRequest, GenerateRun, SessionAction, SessionEvent,
};
use gemini_fastapi_rs::http::{pair, HttpReply};
use gemini_fastapi_rs::json;

fn client(append_builtin: bool) -> GeminiClient {
    GeminiClient::new(
        GeminiClientConfig {
            id: "a".to_string(),
            secure_1psid: "one".to_string(),
            secure_1psidts: "two".to_string(),
            secure_1psidcc: None,
            cookie_header: None,
            proxy: Some(String::new()),
        },
        vec![GeminiModelConfig {
            model_name: "gemini-3.1-pro".to_string(),
            model_header: vec![pair("x-own", "1")],
        }],
        600,
        append_builtin,
    )
}

fn run(model_name: &str, prompt: &str) -> GenerateRun {
    GenerateRun {
        model_name: model_name.to_string(),
        prompt: prompt.to_string(),
        cookie_header: String::new(),
    }
}

fn reply(code: u16, status: &str, set: &[&str], body: &str) -> HttpReply {
    HttpReply {
        code,
        status: status.to_string(),
        set_cookies: set.iter().map(|s| Some(s.to_string())).collect(),
        body: body.to_string(),
    }
}

fn failure(action: GenerateAction) -> String {
    match action {
        GenerateAction::Finish(Err(e)) => e.message(),
        other => panic!("{:?}", other),
    }
}

fn posted(action: GenerateAction) -> GenerateRequest {
    match action {
        GenerateAction::Post(request) => request,
        other => panic!("{:?}", other),
    }
}

fn find(pairs: &[gemini_fastapi_rs::http::Pair], name: &str) -> String {
    pairs
        .iter()
        .find(|p| p.name == name)
        .map(|p| p.value.clone())
        .unwrap_or_default()
}

const PAGE: &str = r#"x "SNlM0e": "token","cfb2h":"label" "FdrFJe":"-77" "TuX5cc":"de" "#;

#[test]
fn models_are_offered_once() {
    let names: Vec<String> = client(true)
        .models()
        .iter()
        .map(|m| m.model_name.clone())
        .collect();
    assert_eq!(
        names,
        vec![
            "gemini-3.1-pro",
            "gemini-3.5-flash",
            "gemini-3.1-flash-lite",
            "gemini-3-flash",
            "gemini-3-pro"
        ]
    );
    assert_eq!(client(true).models()[0].owned_by, "custom");
    assert_eq!(client(true).models()[1].owned_by, "gemini-web");
    assert_eq!(client(false).models().len(), 1);
    assert_eq!(offered_models(&Vec::new(), false).len(), 0);
    assert_eq!(builtin_models().len(), 5);
    assert_eq!(
        model("n", "abc", "o").model_header[0].value,
        "[1,null,null,null,\"abc\",null,null,0,[4],null,null,1]"
    );
}

#[test]
fn clients_speak_as_a_browser() {
    let client = client(true);
    assert_eq!(client.proxy(), None);
    let headers = client.default_headers();
    assert_eq!(headers[1].value, "https://gemini.google.com");
    assert_eq!(headers[2].value, "https://gemini.google.com/");
    assert!(headers[0].value.starts_with("Mozilla/5.0"));
}

#[test]
fn prompts_are_checked_first() {
    let mut client = client(true);
    assert_eq!(
        failure(client.generate(&mut run("gemini-3.5-flash", " \n"), GenerateEvent::Start)),
        "prompt cannot be empty"
    );
    assert_eq!(
        failure(client.generate(&mut run("nope", "hi"), GenerateEvent::Start)),
        "unknown model: nope"
    );
}

#[test]
fn prompts_are_taken_to_an_answer() {
    let mut client = client(true);
    let mut prompt = run("gemini-3.5-flash", "say \"hi\"");
    match client.generate(&mut prompt, GenerateEvent::Start) {
        GenerateAction::FetchGoogle(cookie) => {
            assert_eq!(cookie, "__Secure-1PSID=one; __Secure-1PSIDTS=two")
        }
        other => panic!("{:?}", other),
    }
    let set = Some(vec![Some("NID=5; path=/".to_string())]);
    match client.generate(&mut prompt, GenerateEvent::GoogleReply(set)) {
        GenerateAction::FetchInit(cookie) => {
            assert_eq!(cookie, "__Secure-1PSID=one; __Secure-1PSIDTS=two; NID=5")
        }
        other => panic!("{:?}", other),
    }
    let page = reply(200, "200 OK", &["A=1"], PAGE);
    let request = posted(client.generate(&mut prompt, GenerateEvent::InitReply(page)));
    assert_eq!(
        request.cookie,
        "__Secure-1PSID=one; __Secure-1PSIDTS=two; NID=5; A=1"
    );
    assert_eq!(find(&request.params, "hl"), "de");
    assert_eq!(find(&request.params, "_reqid"), "10000");
    assert_eq!(find(&request.params, "rt"), "c");
    assert_eq!(find(&request.params, "bl"), "label");
    assert_eq!(find(&request.params, "f.sid"), "-77");
    assert_eq!(find(&request.form, "at"), "token");
    let form = json::parse(&find(&request.form, "f.req")).unwrap();
    let inner = json::parse(form.item(1).unwrap().as_str().unwrap()).unwrap();
    assert!(form.item(2).is_none());
    assert!(inner.item(69).is_none());
    assert_eq!(
        inner.item(0).unwrap().to_text(),
        "[\"say \\\"hi\\\"\",0,null,null,null,null,0]"
    );
    assert_eq!(inner.item(1).unwrap().to_text(), "[\"de\"]");
    assert_eq!(inner.item(17).unwrap().to_text(), "[[0]]");
    assert_eq!(inner.item(68).unwrap().to_text(), "2");
    assert_eq!(inner.item(3).unwrap().to_text(), "null");
    let uuid = inner.item(59).unwrap().as_str().unwrap().to_string();
    assert_eq!(uuid.len(), 36);
    assert_eq!(uuid, uuid.to_uppercase());
    assert_eq!(
        find(&request.headers, "x-goog-ext-525005358-jspb"),
        format!("[\"{}\",1]", uuid)
    );
    assert_eq!(find(&request.headers, "x-same-domain"), "1");
    assert!(find(&request.headers, "x-goog-ext-525001261-jspb").contains("56fdd199312815e2"));

    let inner = "[null,null,null,null,[[\"rc\",[\"hi\"]]]]";
    let frame = format!("\n[[\"wrb.fr\",null,{}]]\n", json::string(inner).to_text());
    let raw = format!(")]}}'\n{}{}", frame.len(), frame);
    match client.generate(&mut prompt, GenerateEvent::Reply(reply(200, "200 OK", &[], &raw))) {
        GenerateAction::Finish(Ok(said)) => assert_eq!(said, "hi"),
        other => panic!("{:?}", other),
    }
    let again = posted(client.generate(&mut prompt, GenerateEvent::Start));
    assert_eq!(find(&again.params, "_reqid"), "110000");
    let other = posted(client.generate(&mut run("gemini-3.1-pro", "x"), GenerateEvent::Start));
    assert_eq!(find(&other.headers, "x-own"), "1");
    assert_eq!(find(&other.params, "_reqid"), "210000");
}

#[test]
fn failures_say_what_went_wrong() {
    let mut client = client(true);
    let mut prompt = run("gemini-3.5-flash", "hi");
    client.generate(&mut prompt, GenerateEvent::Start);
    assert!(matches!(
        client.generate(&mut prompt, GenerateEvent::GoogleReply(None)),
        GenerateAction::FetchInit(_)
    ));
    let refused = reply(503, "503 Service Unavailable", &[], "");
    assert_eq!(
        failure(client.generate(&mut prompt, GenerateEvent::InitReply(refused))),
        "Gemini init failed with status 503 Service Unavailable"
    );
    let signed_out = reply(200, "200 OK", &[], "no token");
    assert_eq!(
        failure(client.generate(&mut prompt, GenerateEvent::InitReply(signed_out))),
        "SNlM0e access token not found"
    );
    posted(client.generate(
        &mut prompt,
        GenerateEvent::InitReply(reply(200, "200 OK", &[], PAGE)),
    ));
    assert!(client.session.is_some());
    let empty = reply(200, "200 OK", &[], ")]}'\n");
    assert_eq!(
        failure(client.generate(&mut prompt, GenerateEvent::Reply(empty))),
        "no Gemini text candidate found"
    );
    assert!(client.session.is_some());
    let long = "x".repeat(400);
    let broken = reply(500, "500 Internal Server Error", &[], &long);
    assert_eq!(
        failure(client.generate(&mut prompt, GenerateEvent::Reply(broken))),
        format!(
            "Gemini generate failed with status 500 Internal Server Error: {}",
            "x".repeat(300)
        )
    );
    assert!(client.session.is_none());
    assert_eq!(
        GeminiError::NoSession.message(),
        "Gemini session is not initialized"
    );
}

#[test]
fn sessions_are_read_from_the_page() {
    let session = read_session(PAGE, "c=1".to_string()).unwrap();
    assert_eq!(session.access_token, "token");
    assert_eq!(session.build_label.as_deref(), Some("label"));
    assert_eq!(session.session_id.as_deref(), Some("-77"));
    assert_eq!(session.language, "de");
    assert_eq!(session.cookie_header, "c=1");
    let bare = read_session("\"SNlM0e\":\"t\"", String::new()).unwrap();
    assert!(bare.build_label.is_none());
    assert!(bare.session_id.is_none());
    assert_eq!(bare.language, "en");
    assert!(open_session(None, None, None, None, String::new()).is_err());
}

#[test]
fn sessions_are_opened_without_a_prompt() {
    let mut client = client(false);
    let mut cookies = String::new();
    assert!(matches!(
        client.ensure_session(&mut cookies, SessionEvent::Start),
        SessionAction::FetchGoogle(_)
    ));
    let set = Some(vec![Some("NID=5".to_string()), None]);
    match client.ensure_session(&mut cookies, SessionEvent::GoogleReply(set)) {
        SessionAction::FetchInit(cookie) => assert!(cookie.ends_with("; NID=5")),
        other => panic!("{:?}", other),
    }
    let refused = SessionEvent::InitReply(reply(401, "401 Unauthorized", &["A=1"], ""));
    match client.ensure_session(&mut cookies, refused) {
        SessionAction::Failed(error) => assert_eq!(
            error.message(),
            "Gemini init failed with status 401 Unauthorized"
        ),
        other => panic!("{:?}", other),
    }
    assert!(client.session.is_none());
    let page = SessionEvent::InitReply(reply(200, "200 OK", &["A=1"], PAGE));
    assert!(matches!(
        client.ensure_session(&mut cookies, page),
        SessionAction::Open
    ));
    assert!(cookies.ends_with("; NID=5; A=1"));
    assert_eq!(client.session.as_ref().unwrap().access_token, "token");
    assert_eq!(client.reqid, 10_000);
    assert!(matches!(
        client.ensure_session(&mut cookies, SessionEvent::Start),
        SessionAction::Open
    ));
}

#[test]
fn selecting_headers_are_sent() {
    let session = read_session(PAGE, String::new()).unwrap();
    let mut wanted = model("n", "abc", "o");
    wanted.model_header.push(pair("x-own", "1"));
    let request = generate_request(&session, &wanted, "hi", 7, "U");
    let sent: Vec<(&str, &str)> = request
        .headers
        .iter()
        .map(|p| (p.name.as_str(), p.value.as_str()))
        .collect();
    assert_eq!(
        sent,
        vec![
            (
                "content-type",
                "application/x-www-form-urlencoded;charset=utf-8"
            ),
            ("x-same-domain", "1"),
            ("x-goog-ext-525005358-jspb", "[\"U\",1]"),
            (
                "x-goog-ext-525001261-jspb",
                "[1,null,null,null,\"abc\",null,null,0,[4],null,null,1]"
            ),
            ("x-own", "1"),
        ]
    );
}

#[test]
fn posted_identifiers_are_random_ones() {
    let mut client = client(true);
    client.session = Some(read_session(PAGE, String::new()).unwrap());
    let mut asked = run("gemini-3.1-pro", "hi");
    let request = posted(client.generate(&mut asked, GenerateEvent::Start));
    let quoted = find(&request.headers, "x-goog-ext-525005358-jspb");
    assert_eq!(quoted.len(), 42);
    assert_eq!(quoted.as_bytes()[2 + 14], b'4');
    assert!(b"89AB".contains(&quoted.as_bytes()[2 + 19]));
}
