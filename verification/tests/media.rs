use wa_api_rs::{normalize_mime_type, SendMessageResponse, SentMessageRef};

#[test]
fn send_response_maps_first_message_id_and_quality_hold() {
    let response = SendMessageResponse {
        messages: vec![SentMessageRef {
            id: "wamid.1".to_string(),
            message_status: Some("held_for_quality_assessment".to_string()),
        }],
    };

    assert_eq!(response.first_message_id(), Some("wamid.1"));
    assert!(response.held_for_quality_assessment());
}

#[test]
fn mime_normalization_matches_dart_sdk_safe_defaults() {
    assert_eq!(normalize_mime_type("   "), "application/octet-stream");
    assert_eq!(normalize_mime_type("text"), "text/octet-stream");
    assert_eq!(normalize_mime_type("image/png"), "image/png");
    assert_eq!(normalize_mime_type("image/png/extra"), "image/png");
    assert_eq!(normalize_mime_type("/png"), "application/octet-stream");
}

#[test]
fn mime_normalization_trims_parts() {
    assert_eq!(normalize_mime_type(" image / jpeg ; q=1"), "image/jpeg ; q=1");
    assert_eq!(normalize_mime_type("audio/"), "audio/octet-stream");
    assert_eq!(normalize_mime_type("video/ /mp4"), "video/octet-stream");
    assert_eq!(normalize_mime_type(""), "application/octet-stream");
}

#[test]
fn normalized_mime_is_kind_slash_subtype() {
    for input in ["", "x", "/", "//", " a / b / c ", "a/", "/b", "text/plain"] {
        let out = normalize_mime_type(input);
        let parts: Vec<&str> = out.split('/').collect();
        assert_eq!(parts.len(), 2, "{out}");
        assert!(!parts[0].is_empty() && !parts[1].is_empty());
    }
}

#[test]
fn send_response_without_messages() {
    let empty = SendMessageResponse { messages: vec![] };
    assert_eq!(empty.first_message_id(), None);
    assert!(!empty.held_for_quality_assessment());
    let accepted = SendMessageResponse {
        messages: vec![SentMessageRef { id: "m".to_string(), message_status: Some("accepted".to_string()) }],
    };
    assert!(!accepted.held_for_quality_assessment());
    assert_eq!(accepted.first_message_id(), Some("m"));
}

#[test]
fn mime_normalization_trims_unicode_whitespace() {
    assert_eq!(normalize_mime_type("\u{3000}image/png\u{a0}"), "image/png");
    assert_eq!(normalize_mime_type("\u{2003}\u{85}"), "application/octet-stream");
    assert_eq!(normalize_mime_type("text\u{200b}"), "text\u{200b}/octet-stream");
}

#[test]
fn mime_normalization_is_idempotent() {
    for input in ["", " x ", "a / b / c", "/png", "image/", "video/ /mp4", "text/plain"] {
        let once = normalize_mime_type(input);
        assert_eq!(normalize_mime_type(&once), once);
    }
}
