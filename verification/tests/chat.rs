use gemini_fastapi_rs::chat::{
    answer_chat, append_text_only_image_guard, chat_completion, end_of_stream, heartbeat_secs, outcome_text,
    plan_chat, prepare_chat, stream_tail, ChatEvent, ChatPlan, ChatStream, Generated, SseEvent,
};
use gemini_fastapi_rs::config::{
    Config, GeminiConfig, ImageGenerationConfig, ServerConfig, StorageConfig, WarmGenerateConfig,
};
use gemini_fastapi_rs::http::RequestHeader;
use gemini_fastapi_rs::json;
use gemini_fastapi_rs::openai::{
    process_answer, ChatCompletionRequest, ChatMessage, ProcessedOutput,
};
use gemini_fastapi_rs::routing::GenerationRoute;

#[test]
fn text_only_image_guard_blocks_gemini_image_tool_language() {
    let mut prompt = "[user]\nplease draw a cat image".to_string();
    append_text_only_image_guard(false, false, &mut prompt);
    assert!(prompt.contains("text-only"));
    assert!(prompt.contains("Never call or mention image creation availability"));
}

#[test]
fn text_only_image_guard_is_skipped_when_image_backend_enabled() {
    let mut prompt = "[user]\nplease draw a cat image".to_string();
    append_text_only_image_guard(true, false, &mut prompt);
    assert!(!prompt.contains("text-only"));
}

#[test]
fn text_only_image_guard_is_skipped_for_input_attachments() {
    let mut prompt = "[user]\nplease describe this attached image".to_string();
    append_text_only_image_guard(false, true, &mut prompt);
    assert!(!prompt.contains("text-only"));
}

fn config(backend: &str, api_key: Option<&str>) -> Config {
    Config {
        server: ServerConfig {
            host: "h".to_string(),
            port: 1,
            api_key: api_key.map(|k| k.to_string()),
        },
        gemini: GeminiConfig {
            clients: Vec::new(),
            models: Vec::new(),
            model_strategy: "append".to_string(),
            timeout: 1,
            refresh_interval: 1,
            warm_generate: WarmGenerateConfig {
                enabled: false,
                interval: 1,
                initial_delay: 1,
                model: String::new(),
                prompt: String::new(),
                active_periods: Vec::new(),
            },
        },
        storage: StorageConfig::default(),
        image_generation: ImageGenerationConfig {
            backend: backend.to_string(),
            model: "im".to_string(),
            web_model: "wm".to_string(),
            public_base_url: None,
            worker_url: None,
            worker_token: None,
            worker_token_file: None,
            worker_timeout_ms: 1,
        },
    }
}

fn message(role: &str, content: &str) -> ChatMessage {
    ChatMessage {
        role: role.to_string(),
        content: Some(json::string(content)),
    }
}

fn request(messages: Vec<ChatMessage>) -> ChatCompletionRequest {
    ChatCompletionRequest {
        model: "gemini-3.5-flash".to_string(),
        messages,
        stream: None,
        tools: None,
        tool_choice: None,
        response_format: None,
    }
}

#[test]
fn requests_are_checked_before_they_are_planned() {
    let refused = prepare_chat(
        &config("auto", Some("k")),
        false,
        &[],
        &request(Vec::new()),
        false,
    )
    .unwrap_err();
    assert_eq!(refused.status, 401);
    let headers = [RequestHeader {
        name: "authorization".to_string(),
        value: Some("Bearer k".to_string()),
    }];
    let refused = prepare_chat(
        &config("auto", Some("k")),
        false,
        &headers,
        &request(Vec::new()),
        false,
    )
    .unwrap_err();
    assert_eq!(refused.status, 400);
    assert_eq!(refused.detail, "messages are required");
}

#[test]
fn plans_hold_the_prompt_and_the_route() {
    let mut wanted = request(vec![message("system", "be brief"), message("user", " hi ")]);
    wanted.response_format = json::parse("{\"type\":\"json_object\"}");
    wanted.stream = Some(true);
    let plan = prepare_chat(&config("auto", None), true, &[], &wanted, false).unwrap();
    assert_eq!(
        plan.prompt,
        "[system]\nbe brief\n\n[user]\nhi\n\n[system]\nReturn valid JSON only. Do not wrap it in Markdown."
    );
    assert_eq!(plan.latest_user_text, " hi ");
    assert_eq!(plan.route, GenerationRoute::GeminiWeb);
    assert!(plan.stream);
    assert!(plan.id.starts_with("chatcmpl-"));
    assert_eq!(plan.id.len(), 9 + 36);
    assert_eq!(plan.trace_id, "-");
    let plan = prepare_chat(&config("disabled", None), true, &[], &wanted, false).unwrap();
    assert!(plan.prompt.contains("text-only"));
    let drawn = request(vec![message("user", "create an image of a cat")]);
    let plan = prepare_chat(&config("auto", None), true, &[], &drawn, true).unwrap();
    assert_eq!(plan.route, GenerationRoute::ImageTool);
    let plan = prepare_chat(&config("disabled", None), true, &[], &drawn, true).unwrap();
    assert_eq!(plan.route, GenerationRoute::VisionWorker);
}

#[test]
fn plans_go_by_what_came_with_the_request() {
    let mut shown = message("user", "");
    shown.content = json::parse("[{\"type\":\"text\",\"text\":\"what?\"},{\"type\":\"image_url\",\"image_url\":{\"url\":\"https://x/y.png\"}}]");
    let job = plan_chat(&config("disabled", None), true, &[], &request(vec![shown])).unwrap();
    assert_eq!(job.attachments.len(), 1);
    assert_eq!(job.plan.route, GenerationRoute::VisionWorker);
    assert_eq!(job.plan.prompt, "[user]\nwhat?");
    let plain = request(vec![message("user", "what?")]);
    let job = plan_chat(&config("disabled", None), true, &[], &plain).unwrap();
    assert!(job.attachments.is_empty());
    assert_eq!(job.plan.route, GenerationRoute::GeminiWeb);
    assert!(job.plan.prompt.contains("text-only"));
    assert_eq!(
        plan_chat(&config("disabled", Some("k")), true, &[], &plain).unwrap_err().status,
        401
    );
}

#[test]
fn earlier_requests_for_pictures_do_not_count() {
    let talk = request(vec![
        message("user", "create an image of a cat"),
        message("assistant", "here"),
        message("user", "thanks"),
        message("assistant", "create an image"),
    ]);
    let plan = prepare_chat(&config("auto", None), false, &[], &talk, false).unwrap();
    assert_eq!(plan.latest_user_text, "thanks");
    assert_eq!(plan.route, GenerationRoute::GeminiWeb);
}

#[test]
fn tails_are_what_is_left() {
    assert_eq!(stream_tail("", ""), None);
    assert_eq!(stream_tail("", "ab"), Some("ab"));
    assert_eq!(stream_tail("图", "图x"), Some("x"));
    assert_eq!(stream_tail("ab", "ab"), None);
    assert_eq!(stream_tail("ab", "ax"), None);
    assert_eq!(stream_tail("abc", "ab"), None);
    assert_eq!(stream_tail("a", ""), None);
}

fn plan(route: GenerationRoute) -> ChatPlan {
    ChatPlan {
        id: "id".to_string(),
        created: 5,
        model: "m".to_string(),
        prompt: "12345".to_string(),
        latest_user_text: "draw".to_string(),
        trace_id: "-".to_string(),
        route,
        stream: true,
    }
}

fn data(events: &[SseEvent]) -> Vec<String> {
    events
        .iter()
        .map(|e| match e {
            SseEvent::Comment(text) => format!(": {}", text),
            other => other.data().unwrap(),
        })
        .collect()
}

fn content(events: &[SseEvent]) -> String {
    let mut out = String::new();
    for text in data(events) {
        if let Some(value) = json::parse(&text) {
            let delta = value.get("choices").unwrap().item(0).unwrap().get("delta").unwrap();
            out.push_str(delta.get_str("content").unwrap_or(""));
        }
    }
    out
}

#[test]
fn connections_are_kept_alive() {
    assert_eq!(heartbeat_secs(GenerationRoute::GeminiWeb), 3);
    assert_eq!(heartbeat_secs(GenerationRoute::VisionWorker), 5);
    assert_eq!(heartbeat_secs(GenerationRoute::ImageTool), 5);
}

#[test]
fn answers_are_told_piece_by_piece() {
    let mut stream = ChatStream::new(plan(GenerationRoute::GeminiWeb));
    let start = stream.step(&ChatEvent::Start);
    assert_eq!(
        data(&start.events),
        vec!["{\"id\":\"id\",\"object\":\"chat.completion.chunk\",\"created\":5,\"model\":\"m\",\"choices\":[{\"index\":0,\"delta\":{\"role\":\"assistant\"},\"finish_reason\":null}]}"]
    );
    assert!(start.history.is_none());
    let first = stream.step(&ChatEvent::Delta(Some("he".to_string())));
    assert_eq!(content(&first.events), "he");
    assert!(stream.step(&ChatEvent::Delta(Some(String::new()))).events.is_empty());
    assert!(stream.progress_open);
    assert!(stream.step(&ChatEvent::Delta(None)).events.is_empty());
    assert!(!stream.progress_open);
    assert_eq!(data(&stream.step(&ChatEvent::Tick).events), vec![": keepalive"]);
    assert_eq!(stream.streamed, "he");
    let end = stream.step(&ChatEvent::End(Generated::Text("hello".to_string())));
    assert_eq!(content(&end.events), "llo");
    let sent = data(&end.events);
    assert_eq!(sent.len(), 3);
    assert_eq!(
        sent[1],
        "{\"id\":\"id\",\"object\":\"chat.completion.chunk\",\"created\":5,\"model\":\"m\",\"choices\":[{\"index\":0,\"delta\":{},\"finish_reason\":\"stop\"}],\"usage\":{\"prompt_tokens\":2,\"completion_tokens\":2,\"total_tokens\":4,\"prompt_tokens_details\":{\"cached_tokens\":0},\"completion_tokens_details\":{\"reasoning_tokens\":0}}}"
    );
    assert_eq!(sent[2], "[DONE]");
    let kept = end.history.unwrap();
    assert_eq!(kept.kind, "chat.completions");
    assert_eq!(kept.prompt_chars, 5);
    assert_eq!(kept.output_chars, 5);
    assert!(kept.ok);
}

#[test]
fn failures_are_told_in_full() {
    let mut stream = ChatStream::new(plan(GenerationRoute::GeminiWeb));
    stream.step(&ChatEvent::Delta(Some("Gemini".to_string())));
    let end = stream.step(&ChatEvent::End(Generated::Failed("boom".to_string())));
    assert_eq!(content(&end.events), "Gemini request failed: boom");
    let kept = end.history.unwrap();
    assert!(!kept.ok);
    assert_eq!(kept.error.unwrap(), "boom");
    let cases = [
        (GenerationRoute::ImageTool, "Image generation failed: x", "Image generation failed: x"),
        (GenerationRoute::VisionWorker, "Gemini vision worker failed: x", "Gemini vision worker failed: x"),
        (GenerationRoute::GeminiWeb, "Gemini request failed: x", "Gemini response postprocess failed: x"),
    ];
    for (route, failed, unready) in cases {
        assert_eq!(outcome_text(route, &Generated::Failed("x".to_string())), failed);
        assert_eq!(
            outcome_text(route, &Generated::PostprocessFailed("x".to_string())),
            unready
        );
        assert_eq!(outcome_text(route, &Generated::Text("x".to_string())), "x");
    }
}

#[test]
fn image_tool_is_recorded_by_what_the_user_said() {
    let mut stream = ChatStream::new(plan(GenerationRoute::ImageTool));
    assert!(stream.step(&ChatEvent::Delta(Some("x".to_string()))).events.is_empty());
    let end = stream.step(&ChatEvent::End(Generated::Text("done".to_string())));
    assert_eq!(content(&end.events), "done");
    let kept = end.history.unwrap();
    assert_eq!(kept.kind, "chat.completions.image_tool");
    assert_eq!(kept.prompt_chars, 4);
}

fn calling() -> ProcessedOutput {
    let answer = json::parse("{\"tool_calls\":[{\"name\":\"f\",\"arguments\":{\"a\":1}},{\"x\":0},{\"name\":\"g\"}]}");
    process_answer("text", &answer)
}

#[test]
fn tool_calls_are_told_after_the_text() {
    let events = end_of_stream(
        &plan(GenerationRoute::GeminiWeb),
        "",
        &Generated::Text("text".to_string()),
        &calling(),
    );
    let sent = data(&events);
    assert_eq!(sent.len(), 3);
    assert!(sent[0].contains("\"delta\":{\"tool_calls\":[{\"function\":{\"arguments\":\"{\\\"a\\\":1}\",\"name\":\"f\"},\"id\":\"call_0\",\"index\":0,\"type\":\"function\"},{\"function\":{\"arguments\":\"{}\",\"name\":\"g\"},\"id\":\"call_2\",\"index\":1,\"type\":\"function\"}]}"));
    assert!(sent[1].contains("\"finish_reason\":\"tool_calls\""));
    let events = end_of_stream(
        &plan(GenerationRoute::VisionWorker),
        "",
        &Generated::Text("text".to_string()),
        &calling(),
    );
    assert_eq!(events.len(), 2);
}

#[test]
fn answers_are_told_in_one_piece() {
    let answer = answer_chat(
        plan(GenerationRoute::GeminiWeb),
        &Generated::Text("hello".to_string()),
    );
    assert_eq!(
        answer.result.unwrap().to_json().to_text(),
        "{\"id\":\"id\",\"object\":\"chat.completion\",\"created\":5,\"model\":\"m\",\"choices\":[{\"index\":0,\"message\":{\"role\":\"assistant\",\"content\":\"hello\"},\"finish_reason\":\"stop\"}],\"usage\":{\"prompt_tokens\":2,\"completion_tokens\":2,\"total_tokens\":4,\"prompt_tokens_details\":{\"cached_tokens\":0},\"completion_tokens_details\":{\"reasoning_tokens\":0}}}"
    );
    assert_eq!(answer.history.unwrap().kind, "chat.completions");
    let called = chat_completion(plan(GenerationRoute::GeminiWeb), calling())
        .to_json()
        .to_text();
    assert!(called.contains("\"message\":{\"role\":\"assistant\",\"content\":null,\"tool_calls\":[{\"id\":\"call_0\",\"type\":\"function\",\"function\":{\"arguments\":\"{\\\"a\\\":1}\",\"name\":\"f\"}},"));
    assert!(called.contains("\"finish_reason\":\"tool_calls\""));
}

#[test]
fn failures_are_refused_unless_the_image_tool_failed() {
    for route in [GenerationRoute::GeminiWeb, GenerationRoute::VisionWorker] {
        let answer = answer_chat(plan(route), &Generated::Failed("boom".to_string()));
        let error = answer.result.unwrap_err();
        assert_eq!(error.status, 502);
        assert_eq!(error.detail, "boom");
        assert!(!answer.history.unwrap().ok);
        let answer = answer_chat(plan(route), &Generated::PostprocessFailed("disk".to_string()));
        assert_eq!(answer.result.unwrap_err().detail, "disk");
        assert!(answer.history.is_none());
    }
    let answer = answer_chat(
        plan(GenerationRoute::ImageTool),
        &Generated::Failed("boom".to_string()),
    );
    let told = answer.result.unwrap();
    assert_eq!(
        told.choices[0].message.content.as_deref(),
        Some("Image generation failed: boom")
    );
    assert!(!answer.history.unwrap().ok);
}
