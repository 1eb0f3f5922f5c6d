use gemini_fastapi_rs::catalog::{goes_before, image_model_ids, list_models, model_listing};
use gemini_fastapi_rs::config::ImageGenerationConfig;
use gemini_fastapi_rs::gemini::{builtin_models, model};

fn config(backend: &str, image_model: &str) -> ImageGenerationConfig {
    ImageGenerationConfig {
        backend: backend.to_string(),
        model: image_model.to_string(),
        web_model: String::new(),
        public_base_url: None,
        worker_url: None,
        worker_token: None,
        worker_token_file: None,
        worker_timeout_ms: 0,
    }
}

#[test]
fn image_models_are_in_order_and_once() {
    let known = vec![
        "gemini-2.5-flash-image",
        "gemini-3-pro-image-preview",
        "gemini-3.1-flash-image-preview",
        "imagen-4.0-fast-generate-001",
        "imagen-4.0-generate-001",
        "imagen-4.0-ultra-generate-001",
    ];
    assert_eq!(image_model_ids("  "), known);
    assert_eq!(image_model_ids("imagen-4.0-generate-001"), known);
    let mut own = known.clone();
    own.insert(0, "Own");
    assert_eq!(image_model_ids("Own"), own);
    let mut last = known.clone();
    last.push("模型");
    assert_eq!(image_model_ids("模型"), last);
}

#[test]
fn order_is_that_of_strings() {
    let texts = ["", "a", "ab", "b", "Z", "é", "图", "\u{1f600}", "\u{ffff}"];
    for a in texts {
        for b in texts {
            assert_eq!(goes_before(a, b), a < b, "{} {}", a, b);
        }
    }
}

#[test]
fn models_are_listed() {
    let listing = model_listing(&builtin_models(), &config("disabled", "x"), 9);
    assert_eq!(listing.data.len(), 5);
    assert_eq!(listing.data[0].id, "gemini-3.5-flash");
    let models = vec![model("imagen-4.0-generate-001", "1", "custom")];
    let listing = model_listing(&models, &config("auto", "x"), 9);
    assert_eq!(listing.data.len(), 7);
    assert_eq!(listing.data[0].owned_by, "custom");
    assert_eq!(listing.data[6].id, "x");
    assert_eq!(listing.data[6].owned_by, "image-generation");
    let single = model_listing(&models, &config("disabled", "x"), 9);
    assert_eq!(
        single.to_json().to_text(),
        "{\"object\":\"list\",\"data\":[{\"id\":\"imagen-4.0-generate-001\",\"object\":\"model\",\"created\":9,\"owned_by\":\"custom\"}]}"
    );
}

#[test]
fn models_are_listed_for_callers_with_the_key() {
    let refused = list_models(Some("k"), &[], &Vec::new(), &config("auto", "x")).unwrap_err();
    assert_eq!(refused.status, 401);
    let listing = list_models(None, &[], &Vec::new(), &config("auto", "x")).unwrap();
    assert_eq!(listing.data.len(), 7);
    assert!(listing.data[0].created > 1_500_000_000);
}
