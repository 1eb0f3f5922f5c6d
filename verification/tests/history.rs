use gemini_fastapi_rs::history::{failure, record_line, success, HISTORY_FILE};

#[test]
fn records_take_one_line() {
    let entry = success("chat.completions", "m", 3, 4);
    assert_eq!(
        record_line(&entry, 7, 12),
        "{\"ts\":7,\"kind\":\"chat.completions\",\"model\":\"m\",\"prompt_chars\":3,\"output_chars\":4,\"latency_ms\":12,\"ok\":true,\"error\":null}\n"
    );
    let entry = failure("responses", "m\n", 3, "a\nb");
    let line = record_line(&entry, -7, 0);
    assert_eq!(line.matches('\n').count(), 1);
    assert!(line.ends_with("\"ok\":false,\"error\":\"a\\nb\"}\n"));
}

#[test]
fn records_go_to_one_file() {
    assert_eq!(HISTORY_FILE, "rust-history.jsonl");
}
