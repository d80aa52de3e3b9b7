use wa_api_rs::{
    AudioMessage, DocumentMessage, ImageMessage, JsonValue, MediaReference, MessageContext,
    RecipientType, SendMessageRequest, TextMessage, VideoMessage, WhatsAppApiError, WhatsAppMessage,
};

fn to_serde(v: &JsonValue) -> serde_json::Value {
    match v {
        JsonValue::Null => serde_json::Value::Null,
        JsonValue::Bool(b) => serde_json::Value::Bool(*b),
        JsonValue::Number(n) => serde_json::from_str(n).unwrap(),
        JsonValue::String(s) => serde_json::Value::String(s.clone()),
        JsonValue::Array(items) => serde_json::Value::Array(items.iter().map(to_serde).collect()),
        JsonValue::Object(members) => serde_json::Value::Object(
            members.iter().map(|(k, v)| (k.clone(), to_serde(v))).collect(),
        ),
    }
}

fn expected(text: &str) -> serde_json::Value {
    serde_json::from_str(text).unwrap()
}

#[test]
fn text_message_serializes_to_cloud_api_shape() {
    assert_eq!(
        to_serde(&TextMessage::new("hello").unwrap().to_json()),
        expected(r#"{"body": "hello"}"#)
    );
    assert_eq!(
        to_serde(&TextMessage::new("hello").unwrap().with_preview_url(false).to_json()),
        expected(r#"{"body": "hello", "preview_url": false}"#)
    );
}

#[test]
fn media_message_serializes_by_id_or_link() {
    assert_eq!(
        to_serde(&ImageMessage::link("https://example.com/a.png").with_caption("A").to_json()),
        expected(r#"{"link": "https://example.com/a.png", "caption": "A"}"#)
    );
    assert_eq!(
        to_serde(&AudioMessage::id("media-1").with_voice(true).to_json()),
        expected(r#"{"id": "media-1", "voice": true}"#)
    );
    assert_eq!(
        to_serde(&DocumentMessage::id("media-2").with_caption("Doc").with_filename("doc.pdf").to_json()),
        expected(r#"{"id": "media-2", "caption": "Doc", "filename": "doc.pdf"}"#)
    );
}

#[test]
fn full_send_message_request_serializes_dynamic_message_key() {
    let request = SendMessageRequest::new(
        RecipientType::Individual,
        Some("456".to_string()),
        None,
        WhatsAppMessage::from(TextMessage::new("hello").unwrap()),
        Some(MessageContext { message_id: "wamid.original".to_string() }),
        Some("callback".to_string()),
    );

    assert_eq!(
        to_serde(&request.to_json().unwrap()),
        expected(
            r#"{
                "messaging_product": "whatsapp",
                "recipient_type": "individual",
                "to": "456",
                "type": "text",
                "text": {"body": "hello"},
                "context": {"message_id": "wamid.original"},
                "biz_opaque_callback_data": "callback"
            }"#
        )
    );
}

#[test]
fn text_body_matches_cloud_api_max_length() {
    assert!(TextMessage::new(&"x".repeat(4096)).is_ok());
    assert!(TextMessage::new(&"م".repeat(4096)).is_ok());
    assert!(matches!(
        TextMessage::new(&"x".repeat(4097)),
        Err(WhatsAppApiError::Validation { field: "text.body", .. })
    ));
}

#[test]
fn send_request_without_address_has_no_body() {
    let request = SendMessageRequest::new(
        RecipientType::Group,
        None,
        None,
        WhatsAppMessage::text("hi").unwrap(),
        None,
        None,
    );
    assert!(request.to_json().is_none());
    let by_id = SendMessageRequest::new(
        RecipientType::Group,
        None,
        Some("BS.9".to_string()),
        VideoMessage::id("v").into(),
        None,
        None,
    );
    assert_eq!(
        to_serde(&by_id.to_json().unwrap()),
        expected(
            r#"{"messaging_product": "whatsapp", "recipient_type": "group", "recipient": "BS.9",
                "type": "video", "video": {"id": "v"}}"#
        )
    );
}

#[test]
fn message_types_and_references() {
    assert_eq!(WhatsAppMessage::text("a").unwrap().message_type(), "text");
    assert_eq!(WhatsAppMessage::from(ImageMessage::id("i")).message_type(), "image");
    assert_eq!(WhatsAppMessage::from(VideoMessage::id("v")).message_type(), "video");
    assert_eq!(WhatsAppMessage::from(AudioMessage::id("a")).message_type(), "audio");
    assert_eq!(WhatsAppMessage::from(DocumentMessage::id("d")).message_type(), "document");
    assert_eq!(RecipientType::Individual.as_str(), "individual");
    assert_eq!(RecipientType::Group.as_str(), "group");
    assert_eq!(MediaReference::id("x"), MediaReference::Id("x".to_string()));
    assert_eq!(to_serde(&MediaReference::link("l").to_json()), expected(r#"{"link": "l"}"#));
    assert!(matches!(
        WhatsAppMessage::text(&"y".repeat(5000)),
        Err(WhatsAppApiError::Validation { field: "text.body", message: "must be 4096 characters or less" })
    ));
    assert_eq!(
        to_serde(&WhatsAppMessage::from(ImageMessage::id("i")).to_json()),
        expected(r#"{"id": "i"}"#)
    );
}
