use wa_api_rs::{MessageContext, RecipientType, SendMessageRequest};
use wa_api_rs::{
    AudioMessage, DocumentMessage, ImageMessage, JsonValue, Recipient, SendMessageOptions,
    TextMessage, VideoMessage, WhatsAppApiClient, WhatsAppApiConfig, WhatsAppApiError,
    WhatsAppMessage,
};

fn to_serde(v: &JsonValue) -> serde_json::Value {
    match v {
        JsonValue::Null => serde_json::Value::Null,
        JsonValue::Bool(b) => serde_json::Value::Bool(*b),
        JsonValue::Number(n) => serde_json::from_str(n).unwrap(),
        JsonValue::String(s) => serde_json::Value::String(s.clone()),
        JsonValue::Array(items) => serde_json::Value::Array(items.iter().map(to_serde).collect()),
        JsonValue::Object(members) => serde_json::Value::Object(
            members.iter().map(|(k, v)| (k.clone(), to_serde(v))).collect(),
        ),
    }
}

fn expected(text: &str) -> serde_json::Value {
    serde_json::from_str(text).unwrap()
}

fn client() -> WhatsAppApiClient {
    WhatsAppApiClient::new(WhatsAppApiConfig::new("v24.0", "123", "TOKEN").with_app_secret("SECRET"))
        .unwrap()
}

#[test]
fn text_send_request_matches_current_dart_sdk_shape() {
    let request = client().send_message_request(
        &Recipient::phone("456"),
        &TextMessage::new("Hi").unwrap().into(),
        SendMessageOptions::default(),
    );

    assert_eq!(request.method, "POST");
    assert_eq!(request.url, "https://graph.facebook.com/v24.0/123/messages");
    assert_eq!(request.authorization_header(), "Bearer TOKEN");
    assert_eq!(
        to_serde(&request.body),
        expected(
            r#"{
                "messaging_product": "whatsapp",
                "recipient_type": "individual",
                "to": "456",
                "type": "text",
                "text": {"body": "Hi"}
            }"#
        )
    );
}

#[test]
fn reply_context_matches_current_dart_sdk_shape() {
    let request = client().send_message_request(
        &Recipient::phone("456"),
        &TextMessage::new("Reply").unwrap().into(),
        SendMessageOptions::reply_to("wamid.original"),
    );

    assert_eq!(
        to_serde(request.body.get("context").unwrap()),
        expected(r#"{"message_id": "wamid.original"}"#)
    );
}

#[test]
fn media_send_request_shapes_match_gateway_mapping() {
    let cases: Vec<(WhatsAppMessage, serde_json::Value)> = vec![
        (
            ImageMessage::id("media-image").with_caption("caption").into(),
            expected(r#"{"type": "image", "image": {"id": "media-image", "caption": "caption"}}"#),
        ),
        (
            VideoMessage::id("media-video").with_caption("caption").into(),
            expected(r#"{"type": "video", "video": {"id": "media-video", "caption": "caption"}}"#),
        ),
        (
            AudioMessage::id("media-audio").with_voice(true).into(),
            expected(r#"{"type": "audio", "audio": {"id": "media-audio", "voice": true}}"#),
        ),
        (
            DocumentMessage::id("media-doc").with_caption("caption").with_filename("doc.pdf").into(),
            expected(
                r#"{"type": "document", "document": {"id": "media-doc", "caption": "caption", "filename": "doc.pdf"}}"#,
            ),
        ),
    ];

    for (message, expected) in cases {
        let request =
            client().send_message_request(&Recipient::phone("456"), &message, Default::default());
        let body = to_serde(&request.body);
        assert_eq!(body["type"], expected["type"]);
        assert_eq!(
            body[expected["type"].as_str().unwrap()],
            expected[expected["type"].as_str().unwrap()]
        );
    }
}

#[test]
fn media_upload_request_contains_current_dart_sdk_fields() {
    let request = client().upload_media_request(vec![1, 2, 3], "clipboard-image.png", "image/png");

    assert_eq!(request.method, "POST");
    assert_eq!(request.url, "https://graph.facebook.com/v24.0/123/media");
    assert_eq!(request.authorization_header(), "Bearer TOKEN");
    assert_eq!(request.messaging_product, "whatsapp");
    assert_eq!(request.media_type, "image/png");
    assert_eq!(request.filename, "clipboard-image.png");
    assert_eq!(request.bytes, vec![1, 2, 3]);
}

#[test]
fn media_metadata_request_uses_phone_number_query() {
    let request = client().retrieve_media_request("media-1");

    assert_eq!(request.method, "GET");
    assert_eq!(request.url, "https://graph.facebook.com/v24.0/media-1?phone_number_id=123");
    assert_eq!(request.authorization_header(), "Bearer TOKEN");
}

#[test]
fn request_debug_redacts_authorization() {
    let request = client().send_message_request(
        &Recipient::phone("456"),
        &TextMessage::new("Hi").unwrap().into(),
        SendMessageOptions::default(),
    );

    let debug = request.debug_string();
    assert!(debug.contains("[redacted]"));
    assert!(!debug.contains("TOKEN"));
}

#[test]
fn request_debug_body_is_serde_value_debug() {
    let request = client().send_message_request(
        &Recipient::phone("456"),
        &TextMessage::new("Hi").unwrap().into(),
        SendMessageOptions::reply_to("wamid.1"),
    );
    assert_eq!(
        request.debug_string(),
        format!(
            "GraphJsonRequest {{ method: {:?}, url: {:?}, authorization_header: \"[redacted]\", body: {:?} }}",
            request.method,
            request.url,
            to_serde(&request.body)
        )
    );
    assert!(request.debug_string().ends_with(
        "body: Object {\"context\": Object {\"message_id\": String(\"wamid.1\")}, \"messaging_product\": String(\"whatsapp\"), \"recipient_type\": String(\"individual\"), \"text\": Object {\"body\": String(\"Hi\")}, \"to\": String(\"456\"), \"type\": String(\"text\")} }"
    ));
}

#[test]
fn request_debug_text_shape() {
    let request = client().retrieve_media_request("media-1");
    assert_eq!(
        request.debug_string(),
        "GraphJsonRequest { method: \"GET\", url: \"https://graph.facebook.com/v24.0/media-1?phone_number_id=123\", authorization_header: \"[redacted]\", body: Null }"
    );
    let upload = client().upload_media_request(vec![9; 12], "a \"b\".png", " image/png ");
    assert_eq!(
        upload.debug_string(),
        "MediaUploadRequest { method: \"POST\", url: \"https://graph.facebook.com/v24.0/123/media\", authorization_header: \"[redacted]\", messaging_product: \"whatsapp\", media_type: \"image/png\", filename: \"a \\\"b\\\".png\", bytes_len: 12 }"
    );
}

#[test]
fn client_refuses_invalid_configuration() {
    assert_eq!(
        WhatsAppApiClient::new(WhatsAppApiConfig::new("v24.0", "123", "TOKEN")).err(),
        Some(WhatsAppApiError::MissingAppSecret)
    );
    assert_eq!(
        WhatsAppApiClient::new(WhatsAppApiConfig::new("v24.0", " ", "TOKEN").with_secure(false))
            .err(),
        Some(WhatsAppApiError::Validation { field: "phone_number_id", message: "must not be blank" })
    );
    let c = client();
    assert_eq!(c.config().phone_number_id, "123");
    assert!(c.config().validate().is_ok());
    assert_eq!(c.clone().config().access_token, "TOKEN");
}

#[test]
fn group_and_business_scoped_recipients_in_send_body() {
    let group = client().send_message_request(
        &Recipient::group("g-1"),
        &WhatsAppMessage::text("x").unwrap(),
        SendMessageOptions {
            context_message_id: None,
            biz_opaque_callback_data: Some("cb".to_string()),
        },
    );
    assert_eq!(
        to_serde(&group.body),
        expected(
            r#"{"messaging_product": "whatsapp", "recipient_type": "group", "to": "g-1",
                "type": "text", "text": {"body": "x"}, "biz_opaque_callback_data": "cb"}"#
        )
    );
    let bsuid = client().send_message_request(
        &Recipient::individual(Some("555"), Some("BS.1")),
        &WhatsAppMessage::text("y").unwrap(),
        SendMessageOptions::default(),
    );
    assert_eq!(
        to_serde(&bsuid.body),
        expected(
            r#"{"messaging_product": "whatsapp", "recipient_type": "individual", "to": "555",
                "recipient": "BS.1", "type": "text", "text": {"body": "y"}}"#
        )
    );
}

#[test]
fn graph_urls_trim_slashes() {
    let c = WhatsAppApiClient::new(
        WhatsAppApiConfig::new("/v25.0/", "77", "T")
            .with_secure(false)
            .with_graph_base_url("http://localhost:1//"),
    )
    .unwrap();
    assert_eq!(c.retrieve_media_request("//m").url, "http://localhost:1/v25.0/m?phone_number_id=77");
}

#[test]
fn send_body_equals_typed_request_json() {
    let message: WhatsAppMessage = DocumentMessage::id("d").with_filename("f.pdf").into();
    let request = client().send_message_request(
        &Recipient::phone("456"),
        &message,
        SendMessageOptions {
            context_message_id: Some("ctx".to_string()),
            biz_opaque_callback_data: Some("cb".to_string()),
        },
    );
    let typed = SendMessageRequest::new(
        RecipientType::Individual,
        Some("456".to_string()),
        None,
        message,
        Some(MessageContext { message_id: "ctx".to_string() }),
        Some("cb".to_string()),
    );
    assert_eq!(request.body, typed.to_json().unwrap());
}

#[test]
fn graph_url_slash_variants_agree() {
    let a = WhatsAppApiConfig::new("v1", "p", "t").with_graph_base_url("http://h/");
    let b = WhatsAppApiConfig::new("/v1", "p", "t").with_graph_base_url("http://h");
    assert_eq!(a.graph_url("/x"), b.graph_url("x"));
    assert_eq!(a.graph_url("x"), "http://h/v1/x");
}
