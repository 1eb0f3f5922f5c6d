use gemini_fastapi_rs::chat::Generated;
use gemini_fastapi_rs::config::{
    Config, GeminiConfig, ImageGenerationConfig, ServerConfig, StorageConfig, WarmGenerateConfig,
};
use gemini_fastapi_rs::json::{self, Json};
use gemini_fastapi_rs::openai::{process_answer, ResponseCreateRequest};
use gemini_fastapi_rs::responses::{
    answer_response, completed_payload, plan_response, prepare_response, response_body, response_payload,
    ResponseBody, ResponseEvent, ResponsePlan,
};
use gemini_fastapi_rs::routing::GenerationRoute;

fn config(backend: &str, api_key: Option<&str>) -> Config {
    Config {
        server: ServerConfig {
            host: "h".to_string(),
            port: 1,
            api_key: api_key.map(|k| k.to_string()),
        },
        gemini: GeminiConfig {
            clients: Vec::new(),
            models: Vec::new(),
            model_strategy: "append".to_string(),
            timeout: 1,
            refresh_interval: 1,
            warm_generate: WarmGenerateConfig {
                enabled: false,
                interval: 1,
                initial_delay: 1,
                model: String::new(),
                prompt: String::new(),
                active_periods: Vec::new(),
            },
        },
        storage: StorageConfig::default(),
        image_generation: ImageGenerationConfig {
            backend: backend.to_string(),
            model: "im".to_string(),
            web_model: "wm".to_string(),
            public_base_url: None,
            worker_url: None,
            worker_token: None,
            worker_token_file: None,
            worker_timeout_ms: 1,
        },
    }
}

fn request(input: Json) -> ResponseCreateRequest {
    ResponseCreateRequest {
        model: "gemini-3.5-flash".to_string(),
        input,
        instructions: None,
        stream: None,
        tools: None,
        tool_choice: None,
        response_format: None,
        metadata: None,
    }
}

#[test]
fn requests_need_an_input() {
    let refused = prepare_response(
        &config("auto", Some("k")),
        false,
        &[],
        &request(json::string("x")),
        false,
    )
    .unwrap_err();
    assert_eq!(refused.status, 401);
    let refused = prepare_response(
        &config("auto", None),
        false,
        &[],
        &request(json::string("  ")),
        false,
    )
    .unwrap_err();
    assert_eq!(refused.status, 400);
    assert_eq!(refused.detail, "input is required");
    let mut wanted = request(json::string("hi"));
    wanted.instructions = Some("short".to_string());
    wanted.metadata = json::parse("{\"a\":1}");
    let plan = prepare_response(&config("auto", None), false, &[], &wanted, false).unwrap();
    assert_eq!(plan.prompt, "[system]\nshort\n\n[user]\nhi");
    assert!(plan.id.starts_with("resp_"));
    assert!(!plan.stream);
    assert_eq!(plan.metadata.unwrap().to_text(), "{\"a\":1}");
}

#[test]
fn plans_go_by_what_came_with_the_input() {
    let input = json::parse("[{\"role\":\"user\",\"content\":[{\"type\":\"input_image\",\"image_url\":\"https://x/y.png\"}]}]").unwrap();
    let mut wanted = request(input);
    wanted.instructions = Some("look".to_string());
    let job = plan_response(&config("disabled", None), true, &[], &wanted).unwrap();
    assert_eq!(job.attachments.len(), 1);
    assert_eq!(job.plan.route, GenerationRoute::VisionWorker);
    assert_eq!(job.plan.prompt, "[system]\nlook");
    let job = plan_response(&config("disabled", None), true, &[], &request(json::string("x"))).unwrap();
    assert!(job.attachments.is_empty());
    assert_eq!(job.plan.route, GenerationRoute::GeminiWeb);
}

#[test]
fn latest_input_decides_the_route() {
    let talk = json::parse("[{\"role\":\"user\",\"content\":\"create an image of a cat\"},{\"role\":\"user\",\"content\":\"thanks\"}]").unwrap();
    let plan = prepare_response(&config("auto", None), true, &[], &request(talk), false).unwrap();
    assert_eq!(plan.route, GenerationRoute::GeminiWeb);
    let drawn = request(json::string("create an image of a cat"));
    let plan = prepare_response(&config("auto", None), true, &[], &drawn, true).unwrap();
    assert_eq!(plan.route, GenerationRoute::ImageTool);
}

fn plan(route: GenerationRoute, stream: bool) -> ResponsePlan {
    ResponsePlan {
        id: "resp_1".to_string(),
        created: 5,
        model: "m".to_string(),
        prompt: "12345".to_string(),
        route,
        stream,
        metadata: None,
        tools: None,
        tool_choice: None,
    }
}

const WHOLE: &str = "{\"completed_at\":6,\"created_at\":5,\"id\":\"resp_1\",\"metadata\":{},\"model\":\"m\",\"object\":\"response\",\"output\":[{\"content\":[{\"annotations\":[],\"text\":\"hello\",\"type\":\"output_text\"}],\"id\":\"msg_0\",\"role\":\"assistant\",\"status\":\"completed\",\"type\":\"message\"}],\"status\":\"completed\",\"text\":{\"format\":{\"type\":\"text\"}},\"tool_choice\":\"auto\",\"tools\":[],\"usage\":{\"input_tokens\":2,\"input_tokens_details\":{\"cached_tokens\":0},\"output_tokens\":2,\"output_tokens_details\":{\"reasoning_tokens\":0},\"total_tokens\":4}}";

#[test]
fn responses_are_told_whole() {
    let processed = process_answer("hello", &None);
    match response_body(&plan(GenerationRoute::GeminiWeb, false), &processed, 6) {
        ResponseBody::Whole(payload) => assert_eq!(payload.to_text(), WHOLE),
        other => panic!("{:?}", other),
    }
}

#[test]
fn responses_are_told_by_events() {
    let processed = process_answer("hello", &None);
    let events = match response_body(&plan(GenerationRoute::GeminiWeb, true), &processed, 6) {
        ResponseBody::Events(events) => events,
        other => panic!("{:?}", other),
    };
    let told: Vec<String> = events
        .iter()
        .map(|e| match e {
            ResponseEvent::Named { event, data } => format!("{} {}", event, data.to_text()),
            ResponseEvent::Done => "done".to_string(),
        })
        .collect();
    assert_eq!(
        told,
        vec![
            "response.created {\"response\":{\"created_at\":5,\"id\":\"resp_1\",\"metadata\":{},\"model\":\"m\",\"object\":\"response\",\"status\":\"in_progress\"},\"type\":\"response.created\"}".to_string(),
            "response.output_text.delta {\"content_index\":0,\"delta\":\"hello\",\"item_id\":\"msg_0\",\"output_index\":0,\"type\":\"response.output_text.delta\"}".to_string(),
            format!("response.completed {{\"response\":{},\"type\":\"response.completed\"}}", WHOLE),
            "done".to_string(),
        ]
    );
    let silent = process_answer("", &None);
    match response_body(&plan(GenerationRoute::GeminiWeb, true), &silent, 6) {
        ResponseBody::Events(events) => assert_eq!(events.len(), 3),
        other => panic!("{:?}", other),
    }
}

#[test]
fn payloads_hand_back_what_was_given() {
    let answer = json::parse("{\"tool_calls\":[{\"name\":\"f\"}]}");
    let processed = process_answer("x", &answer);
    let payload = completed_payload(
        "r",
        1,
        2,
        "m",
        "",
        3,
        4,
        &processed.tool_calls,
        &json::parse("{\"k\":\"v\"}"),
        &Some(vec![json::parse("{\"type\":\"function\"}").unwrap()]),
        &json::parse("\"none\""),
    );
    let text = payload.to_text();
    assert!(text.contains("\"metadata\":{\"k\":\"v\"}"));
    assert!(text.contains("\"tools\":[{\"type\":\"function\"}]"));
    assert!(text.contains("\"tool_choice\":\"none\""));
    assert!(text.contains("{\"function\":{\"arguments\":\"{}\",\"name\":\"f\"},\"id\":\"call_0\",\"status\":\"completed\",\"type\":\"tool_call\"}"));
    let now = response_payload("r", 1, "m", "", 3, 4, &Vec::new(), &None, &None, &None);
    assert!(now.get("completed_at").unwrap().to_text().parse::<i64>().unwrap() > 1_500_000_000);
    assert_eq!(now.get("usage").unwrap().get("total_tokens").unwrap().to_text(), "7");
}

#[test]
fn every_failure_is_refused() {
    for (route, kind) in [
        (GenerationRoute::GeminiWeb, "responses"),
        (GenerationRoute::VisionWorker, "responses.vision_worker"),
        (GenerationRoute::ImageTool, "responses.image_tool"),
    ] {
        let answer = answer_response(plan(route, false), &Generated::Failed("boom".to_string()));
        let error = answer.result.unwrap_err();
        assert_eq!(error.status, 502);
        assert_eq!(error.detail, "boom");
        let kept = answer.history.unwrap();
        assert_eq!(kept.kind, kind);
        assert!(!kept.ok);
        let answer = answer_response(plan(route, false), &Generated::Text("four".to_string()));
        assert!(answer.result.is_ok());
        let kept = answer.history.unwrap();
        assert_eq!(kept.kind, kind);
        assert_eq!(kept.prompt_chars, 5);
        assert_eq!(kept.output_chars, 4);
    }
    let unready = answer_response(
        plan(GenerationRoute::GeminiWeb, false),
        &Generated::PostprocessFailed("disk".to_string()),
    );
    assert_eq!(unready.result.unwrap_err().detail, "disk");
    assert!(unready.history.is_none());
}
