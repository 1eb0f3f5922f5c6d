use gemini_fastapi_rs::config::GeminiClientConfig;
use gemini_fastapi_rs::cookies::{cookie_header, merge_set_cookie};

fn client() -> GeminiClientConfig {
    GeminiClientConfig {
        id: "a".to_string(),
        secure_1psid: "one".to_string(),
        secure_1psidts: "two".to_string(),
        secure_1psidcc: None,
        cookie_header: None,
        proxy: None,
    }
}

#[test]
fn single_cookies_make_a_header() {
    let mut config = client();
    assert_eq!(
        cookie_header(&config),
        "__Secure-1PSID=one; __Secure-1PSIDTS=two"
    );
    config.secure_1psidcc = Some(String::new());
    assert_eq!(
        cookie_header(&config),
        "__Secure-1PSID=one; __Secure-1PSIDTS=two"
    );
    config.secure_1psidcc = Some("three".to_string());
    assert_eq!(
        cookie_header(&config),
        "__Secure-1PSID=one; __Secure-1PSIDTS=two; __Secure-1PSIDCC=three"
    );
}

#[test]
fn whole_header_goes_before_single_cookies() {
    let mut config = client();
    config.cookie_header = Some("a=1; b=2".to_string());
    assert_eq!(cookie_header(&config), "a=1; b=2");
    config.cookie_header = Some(String::new());
    assert_eq!(
        cookie_header(&config),
        "__Secure-1PSID=one; __Secure-1PSIDTS=two"
    );
}

fn raws(values: &[&str]) -> Vec<Option<String>> {
    values.iter().map(|v| Some(v.to_string())).collect()
}

#[test]
fn new_cookies_are_added_and_old_ones_kept() {
    let mut header = "a=1; b=2".to_string();
    let mut set = raws(&["b=9; Path=/", " c=3 ; Secure", "nothing", "", "; x=1", "c=4"]);
    set.push(None);
    merge_set_cookie(&mut header, &set);
    assert_eq!(header, "a=1; b=2; c=3");
    merge_set_cookie(&mut header, &set);
    assert_eq!(header, "a=1; b=2; c=3");
}
