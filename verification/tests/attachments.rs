use gemini_fastapi_rs::attachments::{
    decode_image, encode_image, input_attachments, message_attachments, AttachmentSource,
    InputAttachment,
};
use gemini_fastapi_rs::json;
use gemini_fastapi_rs::openai::ChatMessage;

fn message(content: &str) -> ChatMessage {
    ChatMessage {
        role: "user".to_string(),
        content: json::parse(content),
    }
}

fn data(attachment: &InputAttachment) -> Vec<u8> {
    match &attachment.source {
        AttachmentSource::Data(data) => data.clone(),
        other => panic!("{:?}", other),
    }
}

#[test]
fn base64_is_read_as_it_was_written() {
    for length in 0..20u8 {
        let bytes: Vec<u8> = (0..length).map(|i| i.wrapping_mul(37) ^ 0xa5).collect();
        assert_eq!(decode_image(&encode_image(&bytes)).unwrap(), bytes);
    }
    for text in ["Zg=", "Zg", "Zh==", "Z===", "Zg==\n", "====", "Zm9-", "Zm9vZ"] {
        assert!(decode_image(text).is_none(), "{}", text);
    }
}

#[test]
fn pictures_come_with_messages() {
    let found = message_attachments(&[
        message("\"just text\""),
        message("[{\"type\":\"text\",\"text\":\"x\"},{\"type\":\"image_url\",\"image_url\":{\"url\":\"data:image/gif;base64,Zm9v\"}}]"),
        message("[{\"type\":\"image_url\",\"image_url\":\"https://x/y.png\"},{\"image_url\":\"ftp://x\"},{\"image_url\":{\"url\":\"data:image/gif,Zm9v\"}},{\"image_url\":\"data:image/gif;base64,!\"},{\"image_url\":\"data:\"}]"),
    ]);
    assert_eq!(found.len(), 2);
    assert_eq!(found[0].filename, "image_0");
    assert_eq!(found[0].content_type.as_deref(), Some("image/gif"));
    assert_eq!(data(&found[0]), b"foo");
    assert_eq!(found[1].filename, "image_1");
    assert!(found[1].content_type.is_none());
    assert!(matches!(&found[1].source, AttachmentSource::Url(url) if url == "https://x/y.png"));
}

#[test]
fn files_come_with_inputs() {
    let input = json::parse("[{\"role\":\"user\",\"content\":[{\"type\":\"input_file\",\"filename\":\"a.webp\",\"file_data\":\"data:;base64,Zg==\"},{\"type\":\"file\",\"file\":{\"filename\":\"b.jpg\",\"file_data\":\"data:image/jpeg;base64,\"}}]},\"text\"]").unwrap();
    let found = input_attachments(&input);
    assert_eq!(found.len(), 2);
    assert_eq!(found[0].filename, "a.webp");
    assert_eq!(found[0].content_type.as_deref(), Some(""));
    assert_eq!(data(&found[0]), b"f");
    assert_eq!(found[1].filename, "b.jpg");
    assert_eq!(data(&found[1]), b"");
    assert!(input_attachments(&json::string("x")).is_empty());
}
