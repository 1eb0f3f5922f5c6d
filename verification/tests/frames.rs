use gemini_fastapi_rs::frames::{
    collect_frames, extract_text_from_response, get_path, parse_frames, pick_text, split_frames,
};
use gemini_fastapi_rs::json;

fn framed(texts: &[&str]) -> String {
    let mut out = String::from(")]}'\n\n");
    for text in texts {
        let body = format!("\n{}\n", text);
        out.push_str(&body.encode_utf16().count().to_string());
        out.push_str(&body);
    }
    out
}

#[test]
fn frames_are_read_back_by_their_utf16_length() {
    let texts = ["[[\"wrb.fr\",null,\"x\"]]", "[\"\u{1f600}\u{1f600} 图\"]", "{\"a\":1}"];
    assert_eq!(split_frames(&framed(&texts)), texts.to_vec());
    let frames = parse_frames(&framed(&texts));
    let written: Vec<String> = frames.iter().map(|f| f.to_text()).collect();
    assert_eq!(
        written,
        vec![
            "[\"wrb.fr\",null,\"x\"]",
            "\"\u{1f600}\u{1f600} 图\"",
            "{\"a\":1}"
        ]
    );
}

#[test]
fn reading_stops_where_no_frame_stands() {
    assert!(split_frames("").is_empty());
    assert!(split_frames("oops").is_empty());
    assert!(split_frames("10\n[1]").is_empty());
    assert_eq!(split_frames("4\n[1]x5\n[2]"), vec!["[1]"]);
    assert_eq!(split_frames("2\n 4\n[1]"), vec!["[1]"]);
    assert_eq!(split_frames("99999999999999999999999[1]"), Vec::<String>::new());
    assert_eq!(split_frames("4\n[1] 3\n[2"), vec!["[1]", "[2"]);
    assert_eq!(parse_frames("4\n[1] 3\n[2").len(), 1);
}

fn answer(candidates: &str) -> String {
    let inner = format!("[null,null,null,null,{}]", candidates);
    format!(
        "[[\"wrb.fr\",null,{}]]",
        json::string(&inner).to_text()
    )
}

#[test]
fn latest_candidate_that_says_something_is_the_answer() {
    let raw = framed(&[
        &answer("[[\"rc\",[\"first\"]]]"),
        "[[\"di\",5]]",
        &answer("[[\"rc\",[\"second\"]],[\"rc\",[\"  \"]],[\"rc\"]]"),
        "[[\"wrb.fr\",null,\"no json\"]]",
    ]);
    assert_eq!(extract_text_from_response(&raw).unwrap(), "second");
    assert!(extract_text_from_response(&framed(&["[[\"di\",5]]"])).is_none());
    assert!(extract_text_from_response("").is_none());
}

#[test]
fn answers_are_picked_from_what_was_read() {
    let answers = vec![
        json::parse("[0,0,0,0,[[0,[\"a\"]]]]"),
        None,
        json::parse("[0,0,0,0,[[0,[\" b \"]]]]"),
        json::parse("[0,0,0,0,7]"),
    ];
    assert_eq!(pick_text(&answers), " b ");
    assert_eq!(pick_text(&Vec::new()), "");
}

#[test]
fn frames_are_unpacked_from_lists() {
    let frames = collect_frames(vec![json::parse("[1,2]"), None, json::parse("3")]);
    let written: Vec<String> = frames.iter().map(|f| f.to_text()).collect();
    assert_eq!(written, vec!["1", "2", "3"]);
}

#[test]
fn paths_lead_through_lists() {
    let value = json::parse("[0,[\"x\",[5]]]").unwrap();
    assert_eq!(get_path(&value, &[1, 1, 0]).unwrap().to_text(), "5");
    assert_eq!(get_path(&value, &[]).unwrap().to_text(), value.to_text());
    assert!(get_path(&value, &[2]).is_none());
    assert!(get_path(&value, &[0, 0]).is_none());
}
