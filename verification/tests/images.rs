use gemini_fastapi_rs::config::ImageGenerationConfig;
use gemini_fastapi_rs::digest::{short_digest, short_fingerprint};
use gemini_fastapi_rs::http::RequestHeader;
use gemini_fastapi_rs::images::{
    append_generated_image_markdown, append_image_link, append_image_markdown, check_image,
    configured_image_base_url, guess_attachment_content_type, image_base_url_for_chat,
    image_content_type, image_token, image_tool_failure_message,
    strip_generated_image_placeholders,
};

fn config(public_base_url: Option<&str>) -> ImageGenerationConfig {
    ImageGenerationConfig {
        backend: "auto".to_string(),
        model: String::new(),
        web_model: String::new(),
        public_base_url: public_base_url.map(|s| s.to_string()),
        worker_url: None,
        worker_token: None,
        worker_token_file: None,
        worker_timeout_ms: 0,
    }
}

#[test]
fn digests_are_those_of_sha256() {
    assert_eq!(
        short_digest(b"abc", 64),
        "ba7816bf8f01cfea414140de5dae2223b00361a396177a9cb410ff61f20015ad"
    );
    assert_eq!(short_digest(b"", 8), "e3b0c442");
    assert_eq!(short_fingerprint("abc"), "ba7816bf8f01");
}

#[test]
fn tokens_bind_a_name_to_the_key() {
    assert_eq!(image_token("a.png", None), None);
    assert_eq!(image_token("a.png", Some("")), None);
    let token = image_token("a.png", Some("key")).unwrap();
    assert_eq!(token, short_digest(b"a.png:key", 24));
    assert_ne!(token, image_token("b.png", Some("key")).unwrap());
    assert_ne!(token, image_token("a.png", Some("other")).unwrap());
}

#[test]
fn pictures_are_shown_to_those_with_the_token() {
    let token = image_token("a.png", Some("key")).unwrap();
    assert!(check_image("a.png", None, None).is_ok());
    assert!(check_image("a.png", Some("key"), Some(&token)).is_ok());
    for wrong in [None, Some(""), Some("x"), Some(&token[1..])] {
        let error = check_image("a.png", Some("key"), wrong).unwrap_err();
        assert_eq!(error.status, 401);
        assert_eq!(error.detail, "invalid image token");
    }
    for name in ["../a.png", "a/b", "a\\b", "a..png", "/"] {
        let error = check_image(name, None, None).unwrap_err();
        assert_eq!(error.status, 400);
        assert_eq!(error.detail, "invalid image filename");
    }
}

#[test]
fn kinds_follow_the_extension() {
    assert_eq!(image_content_type("a.JPG"), "image/jpeg");
    assert_eq!(image_content_type("a.b.jpeg"), "image/jpeg");
    assert_eq!(image_content_type("a.gif"), "image/gif");
    assert_eq!(image_content_type("a.webp"), "image/webp");
    assert_eq!(image_content_type("a.png"), "image/png");
    assert_eq!(image_content_type("gif"), "image/png");
    assert_eq!(image_content_type(".gif"), "image/png");
    assert_eq!(image_content_type("a."), "image/png");
}

#[test]
fn kinds_of_attachments_are_guessed() {
    assert_eq!(guess_attachment_content_type("a.gif", Some(" image/x ")), "image/x");
    assert_eq!(guess_attachment_content_type("a.GIF", Some(" ")), "image/gif");
    assert_eq!(guess_attachment_content_type("a.jpeg", None), "image/jpeg");
    assert_eq!(guess_attachment_content_type("a.jpg", None), "image/jpeg");
    assert_eq!(guess_attachment_content_type(".webp", None), "image/webp");
    assert_eq!(guess_attachment_content_type("webp", None), "image/png");
}

#[test]
fn addresses_are_cleaned() {
    assert_eq!(configured_image_base_url(&config(None)), None);
    assert_eq!(configured_image_base_url(&config(Some("  "))), None);
    assert_eq!(
        configured_image_base_url(&config(Some(" https://x/y// "))).unwrap(),
        "https://x/y"
    );
    let headers = [RequestHeader {
        name: "host".to_string(),
        value: Some("h".to_string()),
    }];
    assert_eq!(image_base_url_for_chat(&config(None), &headers).unwrap(), "http://h");
    assert_eq!(
        image_base_url_for_chat(&config(Some("https://x")), &headers).unwrap(),
        "https://x"
    );
    assert_eq!(image_base_url_for_chat(&config(None), &[]), None);
}

#[test]
fn links_carry_the_token() {
    let mut out = "text".to_string();
    append_image_link(&mut out, Some("https://x"), "a.png", None);
    assert_eq!(
        out,
        "text\n\n![a.png](https://x/images/a.png)\n\n[Open image](https://x/images/a.png)"
    );
    let token = image_token("a.png", Some("key")).unwrap();
    let mut out = String::new();
    append_image_link(&mut out, None, "a.png", Some("key"));
    let url = format!("/images/a.png?token={}", token);
    assert_eq!(
        out,
        format!("\n\n![a.png]({})\n\n[Open image]({})", url, url)
    );
}

#[test]
fn placeholders_are_taken_out() {
    assert_eq!(
        strip_generated_image_placeholders(
            "Here:\n  http://googleusercontent.com/image_generation_content/0\nbye\r\nhttps://googleusercontent.com/image_generation_content/1"
        ),
        "Here:\nbye"
    );
    assert_eq!(
        strip_generated_image_placeholders("see http://googleusercontent.com/image_generation_content/0"),
        "see http://googleusercontent.com/image_generation_content/0"
    );
}

#[test]
fn answers_get_links_to_their_pictures() {
    let saved = vec!["a.png".to_string(), "b.png".to_string()];
    assert_eq!(
        append_image_markdown(" x ".to_string(), None, &Vec::new(), None),
        " x "
    );
    let links = "\n\n![a.png](/images/a.png)\n\n[Open image](/images/a.png)\n\n![b.png](/images/b.png)\n\n[Open image](/images/b.png)";
    assert_eq!(
        append_image_markdown(
            "http://googleusercontent.com/image_generation_content/0".to_string(),
            None,
            &saved,
            None
        ),
        format!("Image generated.{}", links)
    );
    assert_eq!(
        append_image_markdown(" done ".to_string(), None, &saved, None),
        format!("done{}", links)
    );
    assert_eq!(
        append_generated_image_markdown(" done ".to_string(), None, &saved, None),
        format!(" done {}", links)
    );
    assert_eq!(
        append_generated_image_markdown(" ".to_string(), None, &saved, None),
        format!("Image generated.{}", links)
    );
    assert_eq!(
        append_generated_image_markdown(" ".to_string(), None, &Vec::new(), None),
        " "
    );
}

#[test]
fn failures_of_the_image_tool_are_explained() {
    assert_eq!(
        image_tool_failure_message("Operation Timed Out"),
        "\u{751f}\u{56fe}\u{5931}\u{8d25}\u{ff1a}Gemini Web \u{5728} 120 \u{79d2}\u{5185}\u{6ca1}\u{6709}\u{751f}\u{6210}\u{56fe}\u{7247}\u{ff0c}\u{53ef}\u{80fd}\u{662f}\u{8d26}\u{53f7}/\u{5730}\u{533a}\u{9650}\u{5236}\u{6216}\u{5f53}\u{524d}\u{670d}\u{52a1}\u{5361}\u{4f4f}\u{3002}\u{6211}\u{5df2}\u{7ecf}\u{505c}\u{6b62}\u{7b49}\u{5f85}\u{ff0c}\u{907f}\u{514d}\u{62d6}\u{6162}\u{804a}\u{5929}\u{3002}"
    );
    assert_eq!(
        image_tool_failure_message("no generated image found before timeout"),
        image_tool_failure_message("request timed out")
    );
    assert_eq!(
        image_tool_failure_message("the worker busy"),
        "\u{751f}\u{56fe}\u{5931}\u{8d25}\u{ff1a}\u{751f}\u{56fe} worker \u{6b63}\u{5fd9}\u{ff0c}\u{7a0d}\u{540e}\u{518d}\u{8bd5}\u{3002}"
    );
    assert_eq!(
        image_tool_failure_message("boom"),
        "Image generation failed: boom"
    );
}
