use gemini_fastapi_rs::ids::{completion_id, now, response_id};

#[test]
fn names_are_given_once() {
    let first = completion_id();
    assert!(first.starts_with("chatcmpl-"));
    assert_eq!(first.len(), 45);
    assert_eq!(first.as_bytes()[9 + 8], b'-');
    assert_eq!(first.as_bytes()[9 + 14], b'4');
    assert!(b"89ab".contains(&first.as_bytes()[9 + 19]));
    assert_eq!(first, first.to_lowercase());
    assert_ne!(first, completion_id());
    let second = response_id();
    assert!(second.starts_with("resp_"));
    assert_eq!(second.len(), 41);
    assert_eq!(second.as_bytes()[5 + 14], b'4');
    assert!(b"89ab".contains(&second.as_bytes()[5 + 19]));
}

#[test]
fn time_goes_by_the_clock() {
    assert!(now() > 1_500_000_000);
}
