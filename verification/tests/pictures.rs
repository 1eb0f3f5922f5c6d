use gemini_fastapi_rs::config::{
    Config, GeminiConfig, ImageGenerationConfig, ServerConfig, StorageConfig, WarmGenerateConfig,
};
use gemini_fastapi_rs::digest::short_digest;
use gemini_fastapi_rs::http::ApiError;
use gemini_fastapi_rs::images::{check_image, image_content_type, image_token};
use gemini_fastapi_rs::pictures::{
    answer_pictures, generate_image_tool_output, generate_pictures, generated_filename,
    image_backend, image_ext, images_data, no_images_message, web_image_prompt, Backend, ImageData,
    ImageEvent, ImageGenerationRequest, ImageRun, PictureAction, SavedImage, ToolAction,
    WebOutput,
};

fn config(public_base_url: Option<&str>, api_key: Option<&str>) -> Config {
    Config {
        server: ServerConfig {
            host: "h".to_string(),
            port: 1,
            api_key: api_key.map(|k| k.to_string()),
        },
        gemini: GeminiConfig {
            clients: Vec::new(),
            models: Vec::new(),
            model_strategy: "append".to_string(),
            timeout: 1,
            refresh_interval: 1,
            warm_generate: WarmGenerateConfig {
                enabled: false,
                interval: 1,
                initial_delay: 1,
                model: String::new(),
                prompt: String::new(),
                active_periods: Vec::new(),
            },
        },
        storage: StorageConfig::default(),
        image_generation: ImageGenerationConfig {
            backend: "auto".to_string(),
            model: "im".to_string(),
            web_model: "wm".to_string(),
            public_base_url: public_base_url.map(|u| u.to_string()),
            worker_url: None,
            worker_token: None,
            worker_token_file: None,
            worker_timeout_ms: 1,
        },
    }
}

fn request(prompt: &str, n: Option<u64>) -> ImageGenerationRequest {
    ImageGenerationRequest {
        model: None,
        prompt: prompt.to_string(),
        n,
        size: None,
        quality: None,
        response_format: None,
        output_format: None,
        user: None,
    }
}

fn saved(filename: &str) -> SavedImage {
    SavedImage {
        filename: filename.to_string(),
        b64_json: "Zg==".to_string(),
        revised_prompt: None,
    }
}

fn output(text: &str, images: usize) -> ImageEvent {
    ImageEvent::WebAnswered(Ok(WebOutput {
        text: text.to_string(),
        images,
    }))
}

fn refused(action: PictureAction) -> String {
    match action {
        PictureAction::Finish(Err(e)) => {
            assert_eq!(e.status, 502);
            e.detail
        }
        other => panic!("{:?}", other),
    }
}

fn tool_refused(action: ToolAction) -> String {
    match action {
        ToolAction::Finish(Err(e)) => {
            assert_eq!(e.status, 502);
            e.detail
        }
        other => panic!("{:?}", other),
    }
}

fn told(action: ToolAction) -> String {
    match action {
        ToolAction::Finish(Ok(text)) => text,
        other => panic!("{:?}", other),
    }
}

#[test]
fn services_go_by_their_names() {
    for name in ["gemini_web", "web", "free_web"] {
        assert_eq!(image_backend(name), Backend::Web);
    }
    assert_eq!(image_backend("auto"), Backend::Auto);
    for name in ["gemini_worker", "gemini_api", "imagen_api", "", "Auto"] {
        assert_eq!(image_backend(name), Backend::Configured);
    }
}

#[test]
fn prompts_say_how_many_pictures() {
    assert_eq!(web_image_prompt(" cat ", None), "cat");
    assert_eq!(web_image_prompt(" cat ", Some(0)), "cat");
    assert_eq!(web_image_prompt(" cat ", Some(1)), "cat");
    assert_eq!(web_image_prompt(" cat ", Some(3)), "请生成 3 张图片：cat");
    assert_eq!(web_image_prompt("cat", Some(99)), "请生成 4 张图片：cat");
    assert_eq!(no_images_message(" "), "Gemini Web returned no generated images");
    assert_eq!(
        no_images_message(" sorry "),
        "Gemini Web returned no generated images: sorry"
    );
}

#[test]
fn same_picture_has_the_same_name() {
    assert_eq!(
        generated_filename(b"abc", "png"),
        "generated_ba7816bf8f01cfea414140de.png"
    );
    assert_eq!(
        generated_filename(b"x", "jpg"),
        format!("generated_{}.jpg", short_digest(b"x", 24))
    );
}

#[test]
fn pictures_keep_their_kind() {
    for mime in ["image/jpeg", "image/webp", "image/gif", "image/png"] {
        let filename = generated_filename(b"x", image_ext(mime));
        assert_eq!(image_content_type(&filename), mime);
    }
    assert_eq!(image_ext("image/jpg"), "jpg");
    assert_eq!(image_ext("other"), "png");
}

#[test]
fn pictures_come_by_link_or_by_data() {
    let list = vec![saved("a.png")];
    let by_data = &images_data(None, Some("key"), &list)[0];
    assert_eq!(by_data.b64_json.as_deref(), Some("Zg=="));
    assert_eq!(by_data.url, None);
    let by_link = &images_data(Some("https://x"), Some("key"), &list)[0];
    assert_eq!(by_link.b64_json, None);
    let token = image_token("a.png", Some("key")).unwrap();
    assert_eq!(
        by_link.url.as_deref().unwrap(),
        format!("https://x/images/a.png?token={}", token)
    );
    assert!(check_image("a.png", Some("key"), Some(&token)).is_ok());
}

#[test]
fn gemini_web_makes_pictures() {
    let settings = config(None, None);
    let wanted = request(" cat ", Some(2));
    let mut run = ImageRun::new("web");
    match generate_pictures(&mut run, &settings, &wanted, ImageEvent::Start) {
        PictureAction::AskWeb(asked) => {
            assert_eq!(asked.model, "wm");
            assert_eq!(asked.prompt, "请生成 2 张图片：cat");
        }
        other => panic!("{:?}", other),
    }
    assert!(matches!(
        generate_pictures(&mut run, &settings, &wanted, output("", 1)),
        PictureAction::SaveWebImages
    ));
    let action = generate_pictures(
        &mut run,
        &settings,
        &wanted,
        ImageEvent::WebSaved(Ok(vec![saved("a.png")])),
    );
    match action {
        PictureAction::Finish(Ok(data)) => {
            assert_eq!(data[0].revised_prompt.as_deref(), Some(" cat "));
            assert_eq!(data[0].b64_json.as_deref(), Some("Zg=="));
        }
        other => panic!("{:?}", other),
    }
    let empty = ImageEvent::WebSaved(Ok(Vec::new()));
    assert_eq!(
        refused(generate_pictures(&mut run, &settings, &wanted, empty)),
        "Gemini Web generated images but they could not be downloaded"
    );
    assert_eq!(
        refused(generate_pictures(&mut run, &settings, &wanted, output(" no ", 0))),
        "Gemini Web returned no generated images: no"
    );
    let failed = ImageEvent::WebAnswered(Err("down".to_string()));
    assert_eq!(
        refused(generate_pictures(&mut run, &settings, &wanted, failed)),
        "down"
    );
}

#[test]
fn second_service_is_asked_where_the_first_fails() {
    let settings = config(None, None);
    let wanted = request("cat", None);
    let mut run = ImageRun::new("auto");
    generate_pictures(&mut run, &settings, &wanted, ImageEvent::Start);
    let failed = ImageEvent::WebAnswered(Err("down".to_string()));
    assert!(matches!(
        generate_pictures(&mut run, &settings, &wanted, failed),
        PictureAction::Make
    ));
    assert_eq!(run.web_error.as_deref(), Some("down"));
    let both = ImageEvent::Made(Err("quota".to_string()));
    assert_eq!(
        refused(generate_pictures(&mut run, &settings, &wanted, both)),
        "Gemini Web failed first: down; official API fallback failed: quota"
    );
    assert!(matches!(
        generate_pictures(&mut run, &settings, &wanted, ImageEvent::Made(Ok(0))),
        PictureAction::SaveMadeImages
    ));
    let disk = ImageEvent::MadeSaved(Err("disk".to_string()));
    assert_eq!(
        refused(generate_pictures(&mut run, &settings, &wanted, disk)),
        "disk"
    );
    let mut image = saved("b.png");
    image.revised_prompt = Some("better".to_string());
    match generate_pictures(
        &mut run,
        &settings,
        &wanted,
        ImageEvent::MadeSaved(Ok(vec![image])),
    ) {
        PictureAction::Finish(Ok(data)) => {
            assert_eq!(data[0].revised_prompt.as_deref(), Some("better"))
        }
        other => panic!("{:?}", other),
    }
}

#[test]
fn configured_service_is_asked_alone() {
    let settings = config(None, None);
    let wanted = request("cat", None);
    let mut run = ImageRun::new("gemini_api");
    assert!(matches!(
        generate_pictures(&mut run, &settings, &wanted, ImageEvent::Start),
        PictureAction::Make
    ));
    let failed = ImageEvent::Made(Err("quota".to_string()));
    assert_eq!(
        refused(generate_pictures(&mut run, &settings, &wanted, failed)),
        "quota"
    );
}

#[test]
fn image_tool_tells_of_its_pictures() {
    let settings = config(Some("https://x/"), None);
    let prompt = "<|im_start|>user\na cat<|im_end|>";
    let mut run = ImageRun::new("auto");
    match generate_image_tool_output(&mut run, &settings, &[], prompt, ImageEvent::Start) {
        ToolAction::AskWeb(asked) => {
            assert_eq!(asked.model, "wm");
            assert_eq!(asked.prompt, prompt);
        }
        other => panic!("{:?}", other),
    }
    assert!(matches!(
        generate_image_tool_output(&mut run, &settings, &[], prompt, output("Here", 1)),
        ToolAction::SaveWebImages
    ));
    assert_eq!(
        told(generate_image_tool_output(
            &mut run,
            &settings,
            &[],
            prompt,
            ImageEvent::WebSaved(Ok(vec![saved("a.png")]))
        )),
        "Here\n\n![a.png](https://x/images/a.png)\n\n[Open image](https://x/images/a.png)"
    );
    match generate_image_tool_output(&mut run, &settings, &[], prompt, output("no", 0)) {
        ToolAction::Make(asked) => {
            assert_eq!(asked.prompt, "a cat");
            assert_eq!(asked.n, Some(1));
            assert_eq!(asked.model.as_deref(), Some("im"));
        }
        other => panic!("{:?}", other),
    }
    assert_eq!(
        tool_refused(generate_image_tool_output(
            &mut run,
            &settings,
            &[],
            prompt,
            ImageEvent::Made(Err("quota".to_string()))
        )),
        "Gemini Web failed first: Gemini Web returned no generated images: no; configured image backend failed: quota"
    );
    assert_eq!(
        tool_refused(generate_image_tool_output(
            &mut run,
            &settings,
            &[],
            prompt,
            ImageEvent::MadeSaved(Err("disk".to_string()))
        )),
        "Gemini Web failed first: Gemini Web returned no generated images: no; configured image backend failed: disk"
    );
    assert_eq!(
        told(generate_image_tool_output(
            &mut run,
            &settings,
            &[],
            prompt,
            ImageEvent::Made(Ok(0))
        )),
        "Image generated."
    );
    assert_eq!(
        told(generate_image_tool_output(
            &mut run,
            &settings,
            &[],
            prompt,
            ImageEvent::MadeSaved(Ok(vec![saved("b.png")]))
        )),
        "Image generated.\n\n![b.png](https://x/images/b.png)\n\n[Open image](https://x/images/b.png)"
    );
    let mut web = ImageRun::new("web");
    assert_eq!(
        tool_refused(generate_image_tool_output(
            &mut web,
            &settings,
            &[],
            prompt,
            ImageEvent::WebSaved(Err("disk".to_string()))
        )),
        "disk"
    );
    let mut own = ImageRun::new("imagen_api");
    assert!(matches!(
        generate_image_tool_output(&mut own, &settings, &[], prompt, ImageEvent::Start),
        ToolAction::Make(_)
    ));
}

#[test]
fn requests_for_pictures_are_answered() {
    let settings = config(None, None);
    let data = vec![ImageData {
        b64_json: Some("Zg==".to_string()),
        url: None,
        revised_prompt: Some("cat".to_string()),
    }];
    let answer = answer_pictures(&settings, &request("cat", None), Ok(data));
    let mut response = answer.result.unwrap();
    response.created = 7;
    assert_eq!(
        response.to_json().to_text(),
        "{\"created\":7,\"data\":[{\"b64_json\":\"Zg==\",\"revised_prompt\":\"cat\"}]}"
    );
    assert_eq!(answer.history.kind, "images.generations");
    assert_eq!(answer.history.model, "im");
    assert_eq!(answer.history.prompt_chars, 3);
    assert_eq!(answer.history.output_chars, 1);
    let mut named = request("cat", None);
    named.model = Some("own".to_string());
    let answer = answer_pictures(&settings, &named, Err(ApiError::bad_gateway("x")));
    assert_eq!(answer.result.unwrap_err().detail, "x");
    assert_eq!(answer.history.model, "own");
    assert_eq!(answer.history.error.as_deref(), Some("x"));
}
