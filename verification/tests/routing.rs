use gemini_fastapi_rs::routing::{
    choose_generation_route, explicit_image_generation_prompt, image_tool_prompt,
    should_use_image_tool, GenerationRoute, RouteRequest,
};

#[test]
fn chooses_image_tool_only_for_latest_explicit_image_request() {
    let prompt = "<|im_start|>user\n\u{7ed9}\u{6211}\u{753b}\u{4e00}\u{5f20}\u{7ea2}\u{8272}\u{5706}\u{5f62}\u{56fe}\u{6807}\n<|im_end|>\n<|im_start|>assistant\nok\n<|im_end|>\n<|im_start|>user\n\u{751f}\u{56fe}\u{8fd8}\u{6709}\u{62a5}\u{9519}\u{ff0c}\u{770b}\u{770b}\u{600e}\u{4e48}\u{529e}\n<|im_end|>\n<|im_start|>assistant";
    let latest = image_tool_prompt(prompt);
    assert_eq!(
        latest,
        "\u{751f}\u{56fe}\u{8fd8}\u{6709}\u{62a5}\u{9519}\u{ff0c}\u{770b}\u{770b}\u{600e}\u{4e48}\u{529e}"
    );
    assert!(!explicit_image_generation_prompt(&latest));
}

#[test]
fn chooses_vision_worker_for_attachments_when_not_image_generation() {
    assert_eq!(
        choose_generation_route(RouteRequest {
            image_generation_enabled: true,
            vision_worker_enabled: true,
            has_attachments: true,
            model: "gemini-3.5-flash",
            latest_user_text: "\u{56fe}\u{91cc}\u{5199}\u{4e86}\u{4ec0}\u{4e48}\u{ff1f}",
        }),
        GenerationRoute::VisionWorker
    );
}

#[test]
fn explicit_image_generation_prompt_is_strict() {
    assert!(explicit_image_generation_prompt(
        "\u{7ed9}\u{6211}\u{753b}\u{4e00}\u{5f20}\u{7ea2}\u{8272}\u{5706}\u{5f62}\u{56fe}\u{6807}"
    ));
    assert!(explicit_image_generation_prompt(
        "create an image of a red circle"
    ));
    assert!(!explicit_image_generation_prompt(
        "\u{56fe}\u{91cc}\u{5199}\u{4e86}\u{4ec0}\u{4e48}\u{ff1f}"
    ));
    assert!(!explicit_image_generation_prompt(
        "\u{5e2e}\u{6211}\u{770b}\u{770b}\u{8fd9}\u{5f20}\u{56fe}\u{7247}"
    ));
    assert!(!explicit_image_generation_prompt(
        "\u{8fd9}\u{4e2a}\u{9875}\u{9762}\u{753b}\u{9762}\u{5f88}\u{602a}"
    ));
    assert!(!explicit_image_generation_prompt(
        "\u{4e0d}\u{8981}\u{753b}\u{56fe}\u{ff0c}\u{7ed9}\u{6211}\u{6587}\u{5b57}\u{65b9}\u{6848}"
    ));
    assert!(!explicit_image_generation_prompt(
        "\u{751f}\u{56fe}\u{8fd8}\u{6709}\u{62a5}\u{9519}\u{ff0c}\u{770b}\u{770b}\u{600e}\u{4e48}\u{529e}"
    ));
}

fn route(enabled: bool, worker: bool, attachments: bool, model: &str, said: &str) -> GenerationRoute {
    choose_generation_route(RouteRequest {
        image_generation_enabled: enabled,
        vision_worker_enabled: worker,
        has_attachments: attachments,
        model,
        latest_user_text: said,
    })
}

#[test]
fn disabled_images_go_elsewhere() {
    assert_eq!(
        route(false, false, false, "imagen-4", "draw a picture of a cat"),
        GenerationRoute::GeminiWeb
    );
    assert_eq!(
        route(true, false, false, "gemini-3.5-flash", "Draw A Picture of a cat"),
        GenerationRoute::ImageTool
    );
    assert_eq!(
        route(true, true, true, "gemini-3.1-flash-image-preview", "图里写了什么？"),
        GenerationRoute::VisionWorker
    );
    assert_eq!(
        route(true, true, false, "imagen-4.0-generate-001", "hello"),
        GenerationRoute::GeminiWeb
    );
}

#[test]
fn worker_needs_something_to_look_at() {
    assert_eq!(
        route(true, true, false, "gemini-3.5-flash", "hello"),
        GenerationRoute::GeminiWeb
    );
    assert_eq!(
        route(true, false, true, "gemini-3.5-flash", "hello"),
        GenerationRoute::GeminiWeb
    );
}

#[test]
fn talk_of_pictures_is_no_request() {
    for said in [
        "画面很怪",
        "画 UI 很烦",
        "生图报错",
        "this picture is broken",
        "don't draw an image",
        "",
        "   ",
    ] {
        assert!(!explicit_image_generation_prompt(said), "{}", said);
    }
    assert!(explicit_image_generation_prompt("帮我画一张猫"));
    assert!(should_use_image_tool(true, "gemini-3.5-flash", "  帮我画一张猫 "));
    assert!(!should_use_image_tool(false, "gemini-3.5-flash", "帮我画一张猫"));
}

#[test]
fn latest_turn_is_cut_out_of_a_transcript() {
    assert_eq!(image_tool_prompt("  plain  "), "plain");
    assert_eq!(
        image_tool_prompt("<|im_start|>user\na<|im_end|><|im_start|>user\n b <|im_end|>"),
        "b"
    );
    assert_eq!(
        image_tool_prompt("x <|im_start|>user\n b <|im_end|>\n<|im_start|>assistant\n"),
        "b"
    );
    assert_eq!(image_tool_prompt("<|im_start|>user x"), "x");
    assert_eq!(
        image_tool_prompt("<|im_start|>user\n <|im_end|>"),
        "<|im_start|>user\n <|im_end|>"
    );
}
