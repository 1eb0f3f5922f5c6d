use gemini_fastapi_rs::json;
use gemini_fastapi_rs::openai::{
    chat_extra_instructions, content_to_text, estimate_tokens, latest_input_text,
    latest_user_plain_text, messages_to_prompt, process_output, response_extra_instructions,
    response_input_to_prompt, usage_for, ChatCompletionRequest, ChatMessage,
    ResponseCreateRequest,
};

fn message(role: &str, content: Option<&str>) -> ChatMessage {
    ChatMessage {
        role: role.to_string(),
        content: content.map(|c| json::parse(c).unwrap()),
    }
}

#[test]
fn contents_are_read_as_text() {
    let text = |c: &str| content_to_text(Some(&json::parse(c).unwrap())).unwrap();
    assert_eq!(text("\"a b\""), "a b");
    assert_eq!(
        text("[{\"type\":\"text\",\"text\":\"a\"},{\"type\":\"image_url\"},{\"text\":\"b\"},{\"text\":5}]"),
        "a\nb"
    );
    assert_eq!(text("[]"), "");
    assert_eq!(text("{\"b\":1,\"a\":[true]}"), "{\"a\":[true],\"b\":1}");
    assert_eq!(text("12"), "12");
    assert!(content_to_text(None).is_none());
}

#[test]
fn messages_make_a_prompt() {
    let messages = vec![
        message("system", Some("\" be brief \"")),
        message("user", None),
        message("user", Some("\"  \"")),
        message("user", Some("[{\"text\":\"hi\"},{\"text\":\"there\"}]")),
    ];
    assert_eq!(
        messages_to_prompt(&messages),
        "[system]\nbe brief\n\n[user]\nhi\nthere"
    );
    assert_eq!(messages_to_prompt(&[]), "");
}

#[test]
fn latest_user_message_is_found() {
    let messages = vec![
        message("user", Some("\"one\"")),
        message("user", Some("\"two\"")),
        message("assistant", Some("\"three\"")),
    ];
    assert_eq!(latest_user_plain_text(&messages), "two");
    assert_eq!(latest_user_plain_text(&messages[2..]), "");
    assert_eq!(latest_user_plain_text(&[message("user", None)]), "");
}

#[test]
fn tokens_are_quarters_of_characters() {
    assert_eq!(estimate_tokens(""), 0);
    assert_eq!(estimate_tokens("a"), 1);
    assert_eq!(estimate_tokens("abcd"), 1);
    assert_eq!(estimate_tokens("abcde"), 2);
    assert_eq!(estimate_tokens("图图图图图"), 2);
    let usage = usage_for("abcde", "x");
    assert_eq!(usage.prompt_tokens, 2);
    assert_eq!(usage.completion_tokens, 1);
    assert_eq!(usage.total_tokens, 3);
}

fn chat(format: Option<&str>, tools: Option<&str>, choice: Option<&str>) -> String {
    let tools = tools.map(|t| vec![json::parse(t).unwrap()]);
    chat_extra_instructions(&ChatCompletionRequest {
        model: "m".to_string(),
        messages: Vec::new(),
        stream: None,
        tools,
        tool_choice: choice.map(|c| json::parse(c).unwrap()),
        response_format: format.map(|f| json::parse(f).unwrap()),
    })
}

#[test]
fn wishes_become_instructions() {
    let only_json = "Return valid JSON only. Do not wrap it in Markdown.";
    assert_eq!(chat(None, None, None), "");
    assert_eq!(chat(Some("{\"type\":\"text\"}"), None, Some("null")), "");
    assert_eq!(chat(Some("{\"type\":\"json_object\"}"), None, None), only_json);
    assert_eq!(chat(Some("{\"type\":\"json_schema\"}"), None, None), only_json);
    assert_eq!(
        chat(
            Some("{\"type\":\"json_object\"}"),
            Some("{\"name\":\"f\"}"),
            Some("\"auto\"")
        ),
        format!("{}\nTools are available. If a tool is needed, respond with a JSON object: {{\"tool_calls\":[{{\"name\":\"tool_name\",\"arguments\":{{}}}}]}}. Available tools: [{{\"name\":\"f\"}}]\nTool choice constraint: \"auto\"", only_json)
    );
}

#[test]
fn responses_carry_the_same_wishes() {
    let request = ResponseCreateRequest {
        model: "m".to_string(),
        input: json::string("x"),
        instructions: None,
        stream: None,
        tools: Some(Vec::new()),
        tool_choice: json::parse("{\"type\":\"function\"}"),
        response_format: None,
        metadata: None,
    };
    assert_eq!(
        response_extra_instructions(&request),
        "Tool choice constraint: {\"type\":\"function\"}"
    );
}

#[test]
fn inputs_make_a_prompt() {
    let prompt = |input: &str, told: Option<&str>| {
        response_input_to_prompt(
            &json::parse(input).unwrap(),
            &told.map(|t| t.to_string()),
        )
    };
    assert_eq!(prompt("\" hi \"", None), "[user]\nhi");
    assert_eq!(prompt("\"hi\"", Some("short")), "[system]\nshort\n\n[user]\nhi");
    assert_eq!(
        prompt("[{\"role\":\"assistant\",\"content\":\"a\"},{\"content\":[{\"text\":\"b\"}]},\"c\",{}]", None),
        "[assistant]\na\n\n[user]\nb\n\n[user]\nc"
    );
    assert_eq!(prompt("null", None), "");
    assert_eq!(prompt("7", None), "[user]\n7");
}

#[test]
fn latest_input_is_found() {
    let latest = |input: &str| latest_input_text(&json::parse(input).unwrap());
    assert_eq!(latest("\"hi\""), "hi");
    assert_eq!(
        latest("[{\"role\":\"user\",\"content\":\"a\"},\"b\",{\"role\":\"assistant\",\"content\":\"c\"}]"),
        "b"
    );
    assert_eq!(latest("[{\"role\":\"assistant\",\"content\":\"c\"}]"), "");
    assert_eq!(latest("5"), "5");
    assert_eq!(latest("null"), "");
}

#[test]
fn answers_that_ask_for_tools_are_read() {
    let plain = process_output("hello");
    assert_eq!(plain.visible_text.as_deref(), Some("hello"));
    assert_eq!(plain.finish_reason, "stop");
    assert!(plain.tool_calls.is_empty());
    let asked = process_output(" {\"tool_calls\":[{\"name\":\"f\",\"arguments\":\"{}\"}]}\n");
    assert!(asked.visible_text.is_none());
    assert_eq!(asked.finish_reason, "tool_calls");
    assert_eq!(asked.storage_text, " {\"tool_calls\":[{\"name\":\"f\",\"arguments\":\"{}\"}]}\n");
    assert_eq!(
        asked.tool_calls[0].to_json().to_text(),
        "{\"id\":\"call_0\",\"type\":\"function\",\"function\":{\"arguments\":\"{}\",\"name\":\"f\"}}"
    );
    assert!(process_output("{\"tool_calls\":[]}").tool_calls.is_empty());
    assert!(process_output("{\"tool_calls\":1}").tool_calls.is_empty());
}
