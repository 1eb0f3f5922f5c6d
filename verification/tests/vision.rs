use base64::Engine;
use gemini_fastapi_rs::attachments::{
    decode_image, encode_image, AttachmentSource, InputAttachment,
};
use gemini_fastapi_rs::config::ImageGenerationConfig;
use gemini_fastapi_rs::json;
use gemini_fastapi_rs::vision::{
    fetch_timeout_ms, resolved_worker_token, vision_answer, vision_reply, vision_request,
    vision_worker, vision_worker_enabled, worker_endpoint, worker_image_payload,
};

fn config(worker_url: Option<&str>, timeout: u64) -> ImageGenerationConfig {
    ImageGenerationConfig {
        backend: "auto".to_string(),
        model: String::new(),
        web_model: String::new(),
        public_base_url: None,
        worker_url: worker_url.map(|s| s.to_string()),
        worker_token: None,
        worker_token_file: None,
        worker_timeout_ms: timeout,
    }
}

#[test]
fn pictures_are_encoded_in_base64() {
    assert_eq!(encode_image(b""), "");
    assert_eq!(encode_image(b"f"), "Zg==");
    assert_eq!(encode_image(b"fo"), "Zm8=");
    assert_eq!(encode_image(b"foo"), "Zm9v");
    assert_eq!(encode_image(&[0xfb, 0xff, 0xfe]), "+//+");
    let all: Vec<u8> = (0..=255).collect();
    assert_eq!(
        encode_image(&all),
        base64::engine::general_purpose::STANDARD.encode(&all)
    );
}

#[test]
fn workers_are_reached_where_they_are_configured() {
    assert_eq!(worker_endpoint(&config(Some(" http://w/ "), 0)).unwrap(), "http://w");
    assert_eq!(worker_endpoint(&config(Some(" "), 0)), None);
    let token = Some("t".to_string());
    assert!(vision_worker_enabled(&config(Some("http://w"), 0), &token));
    assert!(!vision_worker_enabled(&config(Some("http://w"), 0), &None));
    assert!(!vision_worker_enabled(&config(None, 0), &token));
    let mut own = config(None, 0);
    assert_eq!(resolved_worker_token(&own, &None), None);
    assert_eq!(resolved_worker_token(&own, &Some("file\n".to_string())).unwrap(), "file");
    own.worker_token = Some(" own ".to_string());
    assert_eq!(resolved_worker_token(&own, &Some("file".to_string())).unwrap(), "own");
    assert_eq!(
        vision_worker(&config(None, 0), None).unwrap_err(),
        "Gemini vision worker_url is not configured"
    );
    assert_eq!(
        vision_worker(&config(Some("http://w"), 0), None).unwrap_err(),
        "Gemini vision worker token is not configured"
    );
}

#[test]
fn attachments_are_sent_with_their_kind() {
    let mut attachment = InputAttachment {
        filename: "a.gif".to_string(),
        content_type: None,
        source: AttachmentSource::Data(b"foo".to_vec()),
    };
    assert_eq!(
        worker_image_payload(&attachment, &Vec::new(), &Some("image/x".to_string())).to_text(),
        "{\"data_base64\":\"Zm9v\",\"filename\":\"a.gif\",\"mime\":\"image/gif\"}"
    );
    attachment.source = AttachmentSource::Url("http://x".to_string());
    assert_eq!(
        worker_image_payload(&attachment, &b"f".to_vec(), &Some("image/x".to_string())).to_text(),
        "{\"data_base64\":\"Zg==\",\"filename\":\"a.gif\",\"mime\":\"image/x\"}"
    );
    attachment.content_type = Some("image/webp".to_string());
    assert_eq!(
        worker_image_payload(&attachment, &b"f".to_vec(), &None).to_text(),
        "{\"data_base64\":\"Zg==\",\"filename\":\"a.gif\",\"mime\":\"image/webp\"}"
    );
    assert_eq!(fetch_timeout_ms(&config(None, 5)), 5);
    assert_eq!(fetch_timeout_ms(&config(None, 300_000)), 60_000);
}

#[test]
fn workers_are_asked_about_pictures() {
    let settings = config(Some("http://w/"), 1000);
    let worker = vision_worker(&settings, Some("t".to_string())).unwrap();
    assert_eq!(
        vision_request(worker, &settings, "what?", Vec::new()).unwrap_err(),
        "Gemini vision worker requires at least one image"
    );
    let worker = vision_worker(&settings, Some("t".to_string())).unwrap();
    let request = vision_request(worker, &settings, "what?", vec![json::string("p")]).unwrap();
    assert_eq!(request.url, "http://w/vision");
    assert_eq!(request.token, "t");
    assert_eq!(request.timeout_ms, 31_000);
    assert_eq!(
        request.body.to_text(),
        "{\"images\":[\"p\"],\"prompt\":\"what?\",\"timeout_ms\":1000}"
    );
    let settings = config(Some("http://w/"), u64::MAX);
    let worker = vision_worker(&settings, Some("t".to_string())).unwrap();
    let request = vision_request(worker, &settings, "", vec![json::string("p")]).unwrap();
    assert_eq!(request.timeout_ms, u64::MAX);
}

#[test]
fn replies_of_the_worker_are_read() {
    let read = |code: u16, body: &str| vision_reply(code, "S", &json::parse(body));
    assert_eq!(read(200, "{\"text\":\" a cat \"}").unwrap(), "a cat");
    assert_eq!(vision_answer(200, "S", "{\"text\":\" a cat \"}").unwrap(), "a cat");
    assert_eq!(
        vision_answer(500, "S", "not json").unwrap_err(),
        "Gemini vision worker failed with status S: unknown error"
    );
    assert_eq!(read(200, "{\"ok\":true,\"text\":\"x\"}").unwrap(), "x");
    assert_eq!(
        read(200, "{\"ok\":false,\"error\":\"no\",\"text\":\"x\"}").unwrap_err(),
        "Gemini vision worker failed with status S: no"
    );
    assert_eq!(
        read(500, "not json").unwrap_err(),
        "Gemini vision worker failed with status S: unknown error"
    );
    for body in ["{}", "not json", "{\"text\":\" \"}", "{\"text\":5}"] {
        assert_eq!(
            read(204, body).unwrap_err(),
            "Gemini vision worker returned empty text"
        );
    }
}
