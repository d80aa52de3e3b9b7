use hmac::{Hmac, Mac};
use sha2::Sha256;
use wa_api_rs::{
    check_signature_digest, constant_time_equals, message_kind, parse_webhook_event,
    stored_media_type, verify_request_signature, verify_webhook_challenge, InboundMessageKind,
    JsonValue, WebhookChallengeParams, WebhookEvent, WhatsAppApiError,
};

type HmacSha256 = Hmac<Sha256>;

fn from_serde(v: &serde_json::Value) -> JsonValue {
    match v {
        serde_json::Value::Null => JsonValue::Null,
        serde_json::Value::Bool(b) => JsonValue::Bool(*b),
        serde_json::Value::Number(n) => JsonValue::Number(n.to_string()),
        serde_json::Value::String(s) => JsonValue::String(s.clone()),
        serde_json::Value::Array(items) => JsonValue::Array(items.iter().map(from_serde).collect()),
        serde_json::Value::Object(map) => {
            JsonValue::Object(map.iter().map(|(k, v)| (k.clone(), from_serde(v))).collect())
        }
    }
}

fn json(text: &str) -> JsonValue {
    from_serde(&serde_json::from_str::<serde_json::Value>(text).unwrap())
}

fn sign(secret: &str, body: &str) -> String {
    let mut mac = HmacSha256::new_from_slice(secret.as_bytes()).unwrap();
    mac.update(body.as_bytes());
    format!("sha256={}", hex::encode(mac.finalize().into_bytes()))
}

#[test]
fn webhook_challenge_matches_current_dart_sdk_behavior() {
    assert_eq!(
        verify_webhook_challenge(
            WebhookChallengeParams {
                mode: Some("subscribe"),
                verify_token: Some("VERIFY"),
                challenge: Some("CHALLENGE"),
            },
            Some("VERIFY"),
        ),
        Ok("CHALLENGE".to_string())
    );
}

#[test]
fn webhook_challenge_maps_missing_and_mismatch_errors() {
    assert_eq!(
        verify_webhook_challenge(
            WebhookChallengeParams { mode: None, verify_token: Some("VERIFY"), challenge: None },
            Some("VERIFY"),
        ),
        Err(WhatsAppApiError::MissingSearchParams)
    );
    assert_eq!(
        verify_webhook_challenge(
            WebhookChallengeParams {
                mode: Some("subscribe"),
                verify_token: Some("WRONG"),
                challenge: None,
            },
            Some("VERIFY"),
        ),
        Err(WhatsAppApiError::FailedToVerifyToken)
    );
}

#[test]
fn webhook_challenge_other_outcomes() {
    let params =
        WebhookChallengeParams { mode: Some("subscribe"), verify_token: Some("T"), challenge: None };
    assert_eq!(verify_webhook_challenge(params, None), Err(WhatsAppApiError::MissingVerifyToken));
    assert_eq!(verify_webhook_challenge(params, Some("T")), Ok(String::new()));
    assert_eq!(
        verify_webhook_challenge(
            WebhookChallengeParams { mode: Some("unsubscribe"), verify_token: Some("T"), challenge: Some("c") },
            Some("T"),
        ),
        Err(WhatsAppApiError::FailedToVerifyToken)
    );
    assert_eq!(
        verify_webhook_challenge(
            WebhookChallengeParams { mode: Some("subscribe"), verify_token: None, challenge: Some("c") },
            Some("T"),
        ),
        Err(WhatsAppApiError::MissingSearchParams)
    );
}

#[test]
fn signature_validation_matches_current_dart_sdk_behavior() {
    let body = r#"{"object":"whatsapp_business_account"}"#;
    let signature = sign("SECRET", body);

    assert_eq!(verify_request_signature(Some(body), Some(&signature), Some("SECRET")), Ok(()));
    assert_eq!(
        verify_request_signature(Some(body), Some("sha256=wrong"), Some("SECRET")),
        Err(WhatsAppApiError::FailedToVerifySignature)
    );
    assert_eq!(
        verify_request_signature(Some(body), None, Some("SECRET")),
        Err(WhatsAppApiError::MissingSignature)
    );
    assert_eq!(
        verify_request_signature(None, Some(&signature), Some("SECRET")),
        Err(WhatsAppApiError::MissingRawBody)
    );
}

#[test]
fn signature_validation_other_outcomes() {
    let body = "payload";
    let signature = sign("k", body);
    assert_eq!(
        verify_request_signature(Some(body), Some("  "), Some("k")),
        Err(WhatsAppApiError::MissingSignature)
    );
    assert_eq!(
        verify_request_signature(Some(body), Some(&signature), Some(" ")),
        Err(WhatsAppApiError::MissingAppSecret)
    );
    assert_eq!(
        verify_request_signature(Some(body), Some(&signature), None),
        Err(WhatsAppApiError::MissingAppSecret)
    );
    assert_eq!(
        verify_request_signature(Some(body), Some(&signature[7..]), Some("k")),
        Err(WhatsAppApiError::FailedToVerifySignature)
    );
    assert_eq!(
        verify_request_signature(Some(body), Some("sha256="), Some("k")),
        Err(WhatsAppApiError::FailedToVerifySignature)
    );
    assert_eq!(
        verify_request_signature(Some(body), Some(&signature.to_uppercase().replace("SHA256=", "sha256=")), Some("k")),
        Err(WhatsAppApiError::FailedToVerifySignature)
    );
    assert_eq!(
        verify_request_signature(Some("payload2"), Some(&signature), Some("k")),
        Err(WhatsAppApiError::FailedToVerifySignature)
    );
    assert_eq!(verify_request_signature(Some(""), Some(&sign("k", "")), Some("k")), Ok(()));
}

#[test]
fn digest_check_uses_hex_of_tag() {
    assert_eq!(check_signature_digest(&[0x0f, 0xa0], "0fa0"), Ok(()));
    assert_eq!(
        check_signature_digest(&[0x0f, 0xa0], "0FA0"),
        Err(WhatsAppApiError::FailedToVerifySignature)
    );
    assert_eq!(
        check_signature_digest(&[0x30, 0x31], "01"),
        Err(WhatsAppApiError::FailedToVerifySignature)
    );
    assert!(constant_time_equals(b"abc", b"abc"));
    assert!(!constant_time_equals(b"abc", b"abd"));
    assert!(!constant_time_equals(b"abc", b"ab"));
}

#[test]
fn parses_inbound_text_message() {
    let event = parse_webhook_event(&json(
        r#"{
            "object": "whatsapp_business_account",
            "entry": [{
                "changes": [{
                    "field": "messages",
                    "value": {
                        "metadata": {"phone_number_id": "123"},
                        "contacts": [{
                            "profile": {"name": "Test Customer"},
                            "wa_id": "456"
                        }],
                        "messages": [{
                            "id": "wamid.1",
                            "from": "456",
                            "timestamp": "1710000000",
                            "type": "text",
                            "text": {"body": "Hello"}
                        }]
                    }
                }]
            }]
        }"#,
    ))
    .unwrap();

    let WebhookEvent::Message(message) = event else {
        panic!("expected message event");
    };
    assert_eq!(message.phone_number_id, "123");
    assert_eq!(message.from, "456");
    assert_eq!(message.message_id.as_deref(), Some("wamid.1"));
    assert_eq!(message.kind, InboundMessageKind::Text);
    assert_eq!(message.content.as_deref(), Some("Hello"));
    assert_eq!(message.preview, "Hello");
    assert_eq!(message.contact_name.as_deref(), Some("Test Customer"));
}

#[test]
fn parses_media_message_with_ad_referral() {
    let event = parse_webhook_event(&json(
        r#"{
            "object": "whatsapp_business_account",
            "entry": [{
                "changes": [{
                    "field": "messages",
                    "value": {
                        "metadata": {"phone_number_id": "123"},
                        "messages": [{
                            "id": "wamid.image",
                            "from": "456",
                            "type": "image",
                            "image": {
                                "id": "media-1",
                                "mime_type": "image/jpeg",
                                "caption": "A nice thing"
                            },
                            "referral": {
                                "source_type": "ad",
                                "source_id": "source-1",
                                "source_url": "https://example.com/ad",
                                "headline": "Headline",
                                "body": "Body",
                                "media_type": "image",
                                "image_url": "https://example.com/image.jpg",
                                "thumbnail_url": "https://example.com/thumb.jpg",
                                "ctwa_clid": "clid",
                                "welcome_message": {"text": "hi"},
                                "ref": "campaign"
                            }
                        }]
                    }
                }]
            }]
        }"#,
    ))
    .unwrap();

    let WebhookEvent::Message(message) = event else {
        panic!("expected message event");
    };
    assert_eq!(message.kind, InboundMessageKind::Image);
    assert_eq!(message.preview, "A nice thing");
    let media = message.media.unwrap();
    assert_eq!(media.media_type, "image");
    assert_eq!(media.media_id, "media-1");
    assert_eq!(media.filename, "image.jpg");
    assert_eq!(media.mime_type.as_deref(), Some("image/jpeg"));

    let referral = message.referral.unwrap();
    assert_eq!(referral.parser_version, 1);
    assert_eq!(referral.source_type.as_deref(), Some("ad"));
    assert_eq!(referral.ctwa_clid.as_deref(), Some("clid"));
    assert_eq!(referral.ref_value.as_deref(), Some("campaign"));
    assert_eq!(referral.welcome_message, Some(json(r#"{"text": "hi"}"#)));
}

#[test]
fn parses_reaction_message() {
    let event = parse_webhook_event(&json(
        r#"{
            "object": "whatsapp_business_account",
            "entry": [{
                "changes": [{
                    "field": "messages",
                    "value": {
                        "metadata": {"phone_number_id": "123"},
                        "messages": [{
                            "id": "wamid.reaction",
                            "from": "456",
                            "type": "reaction",
                            "reaction": {
                                "message_id": "wamid.target",
                                "emoji": "👍"
                            }
                        }]
                    }
                }]
            }]
        }"#,
    ))
    .unwrap();

    let WebhookEvent::Message(message) = event else {
        panic!("expected message event");
    };
    assert_eq!(message.kind, InboundMessageKind::Reaction);
    let reaction = message.reaction.unwrap();
    assert_eq!(reaction.target_message_id, "wamid.target");
    assert_eq!(reaction.emoji.as_deref(), Some("👍"));
}

#[test]
fn parses_status_update() {
    let event = parse_webhook_event(&json(
        r#"{
            "object": "whatsapp_business_account",
            "entry": [{
                "changes": [{
                    "field": "messages",
                    "value": {
                        "metadata": {"phone_number_id": "123"},
                        "statuses": [{
                            "id": "wamid.1",
                            "status": "delivered",
                            "timestamp": "1710000001",
                            "recipient_type": "individual",
                            "recipient_id": "456",
                            "conversation": {"id": "conv"},
                            "pricing": {"billable": true},
                            "biz_opaque_callback_data": "opaque"
                        }]
                    }
                }]
            }]
        }"#,
    ))
    .unwrap();

    let WebhookEvent::Status(status) = event else {
        panic!("expected status event");
    };
    assert_eq!(status.phone_number_id, "123");
    assert_eq!(status.message_id, "wamid.1");
    assert_eq!(status.status, "delivered");
    assert_eq!(status.recipient_id.as_deref(), Some("456"));
    assert_eq!(status.biz_opaque_callback_data.as_deref(), Some("opaque"));
    assert_eq!(status.conversation, Some(json(r#"{"id": "conv"}"#)));
}

#[test]
fn rejects_unexpected_payload_shapes() {
    assert_eq!(
        parse_webhook_event(&json("{}")),
        Err(WhatsAppApiError::UnexpectedWebhookPayload {
            message: "Invalid payload",
            http_status: 400,
        })
    );
    assert!(matches!(
        parse_webhook_event(&json(
            r#"{
                "object": "whatsapp_business_account",
                "entry": [{"changes": [{"field": "messages", "value": {}}]}]
            }"#
        )),
        Err(WhatsAppApiError::UnexpectedWebhookPayload { .. })
    ));
}

#[test]
fn scalar_fields_from_non_string_values() {
    let event = parse_webhook_event(&json(
        r#"{
            "object": 1,
            "entry": [{"changes": [{"field": " messages ", "value": {
                "metadata": {"phone_number_id": 123},
                "messages": [{
                    "from": 456,
                    "id": null,
                    "timestamp": true,
                    "type": "location",
                    "context": {"id": "  ", "message_id": {"b": [1, "x\"y"], "a": null}},
                    "location": {"caption": "  "}
                }]
            }}]}]
        }"#,
    ))
    .unwrap();
    let WebhookEvent::Message(message) = event else {
        panic!("expected message event");
    };
    assert_eq!(message.phone_number_id, "123");
    assert_eq!(message.from, "456");
    assert_eq!(message.message_id, None);
    assert_eq!(message.timestamp.as_deref(), Some("true"));
    assert_eq!(message.kind, InboundMessageKind::Unsupported("location".to_string()));
    assert_eq!(message.content, None);
    assert_eq!(message.preview, "[location message]");
    assert_eq!(message.context_message_id.as_deref(), Some(r#"{"a":null,"b":[1,"x\"y"]}"#));
    assert!(message.media.is_none() && message.reaction.is_none() && message.referral.is_none());
    assert_eq!(message.contact, None);
}

#[test]
fn document_and_untyped_previews() {
    let doc = parse_webhook_event(&json(
        r#"{"object": "x", "entry": [{"changes": [{"field": "messages", "value": {
            "messages": [{"type": "document", "document": {"id": "d-1", "mime_type": "application/pdf"}}],
            "contacts": [{"wa_id": "1"}]
        }}]}]}"#,
    ))
    .unwrap();
    let WebhookEvent::Message(m) = doc else { panic!("expected message event") };
    assert_eq!(m.phone_number_id, "");
    assert_eq!(m.from, "");
    assert_eq!(m.preview, "document.pdf");
    let media = m.media.unwrap();
    assert_eq!(media.media_type, "document");
    assert_eq!(media.filename, "document.pdf");
    assert_eq!(media.caption, None);
    assert_eq!(m.contact, Some(json(r#"{"wa_id": "1"}"#)));
    assert_eq!(m.contact_name, None);

    let sticker = parse_webhook_event(&json(
        r#"{"object": "x", "entry": [{"changes": [{"field": "messages", "value": {
            "messages": [{"type": "sticker", "sticker": {"id": "s-1", "mime_type": "image/webp", "filename": "s.webp"}}]
        }}]}]}"#,
    ))
    .unwrap();
    let WebhookEvent::Message(m) = sticker else { panic!("expected message event") };
    assert_eq!(m.kind, InboundMessageKind::Sticker);
    assert_eq!(m.preview, "[Image]");
    assert_eq!(m.media.unwrap().filename, "s.webp");

    let untyped = parse_webhook_event(&json(
        r#"{"object": "x", "entry": [{"changes": [{"field": "messages", "value": {
            "messages": [{"id": "m"}]
        }}]}]}"#,
    ))
    .unwrap();
    let WebhookEvent::Message(m) = untyped else { panic!("expected message event") };
    assert_eq!(m.kind, InboundMessageKind::Unsupported(String::new()));
    assert_eq!(m.preview, "[Unsupported message]");
}

#[test]
fn status_defaults_and_errors() {
    let event = parse_webhook_event(&json(
        r#"{"object": "x", "entry": [{"changes": [{"field": "messages", "value": {
            "statuses": [{"status": "failed", "errors": [{"code": 131047}]}],
            "messages": []
        }}]}]}"#,
    ))
    .unwrap();
    let WebhookEvent::Status(s) = event else { panic!("expected status event") };
    assert_eq!(s.message_id, "");
    assert_eq!(s.status, "failed");
    assert_eq!(s.recipient_type, "individual");
    assert_eq!(s.error, Some(json(r#"{"code": 131047}"#)));
    assert_eq!(s.pricing, None);
    assert_eq!(s.raw_status, json(r#"{"status": "failed", "errors": [{"code": 131047}]}"#));

    assert_eq!(
        parse_webhook_event(&json(
            r#"{"object": "x", "entry": [{"changes": [{"field": "statuses", "value": {
                "statuses": [{"id": "s"}]}}]}]}"#
        )),
        Err(WhatsAppApiError::UnexpectedWebhookPayload { message: "Unexpected payload", http_status: 200 })
    );
    assert_eq!(
        parse_webhook_event(&json(r#"{"object": "x", "entry": []}"#)),
        Err(WhatsAppApiError::UnexpectedWebhookPayload { message: "Unexpected payload", http_status: 200 })
    );
}

#[test]
fn reply_context_and_reaction_edge_cases() {
    let event = parse_webhook_event(&json(
        r#"{"object": "x", "entry": [{"changes": [{"field": "messages", "value": {
            "messages": [{"type": "reaction", "context": {"message_id": "orig"},
                          "reaction": {"message_id": " ", "emoji": "x"}}]
        }}]}]}"#,
    ))
    .unwrap();
    let WebhookEvent::Message(m) = event else { panic!("expected message event") };
    assert_eq!(m.context_message_id.as_deref(), Some("orig"));
    assert!(m.reaction.is_none());
    assert_eq!(m.preview, "[reaction message]");
}

#[test]
fn kinds_and_stored_media_types() {
    assert_eq!(message_kind(Some("video")), InboundMessageKind::Video);
    assert_eq!(message_kind(Some("audio")), InboundMessageKind::Audio);
    assert_eq!(message_kind(Some("document")), InboundMessageKind::Document);
    assert_eq!(message_kind(None), InboundMessageKind::Unsupported(String::new()));
    assert_eq!(stored_media_type(Some("sticker")), Some("image"));
    assert_eq!(stored_media_type(Some("audio")), Some("audio"));
    assert_eq!(stored_media_type(Some("text")), None);
    assert_eq!(stored_media_type(None), None);
}

#[test]
fn only_the_first_entry_change_and_event_are_parsed() {
    let single = json(
        r#"{"object": "whatsapp_business_account", "entry": [{"changes": [{"field": "messages", "value": {
            "metadata": {"phone_number_id": "1"},
            "contacts": [{"profile": {"name": "A"}}],
            "messages": [{"id": "m1", "from": "9", "type": "text", "text": {"body": "hi"}}]}}]}]}"#,
    );
    let many = json(
        r#"{"object": "whatsapp_business_account", "entry": [{"changes": [{"field": "messages", "value": {
            "metadata": {"phone_number_id": "1"},
            "contacts": [{"profile": {"name": "A"}}, {"profile": {"name": "B"}}],
            "messages": [{"id": "m1", "from": "9", "type": "text", "text": {"body": "hi"}},
                         {"id": "m2", "from": "8", "type": "text", "text": {"body": "other"}}],
            "statuses": [{"id": "s1", "status": "read"}]}},
            {"field": "messages", "value": {"messages": [{"id": "m3"}]}}]},
            {"changes": []}]}"#,
    );
    let WebhookEvent::Message(mut a) = parse_webhook_event(&single).unwrap() else {
        panic!("expected message event");
    };
    let WebhookEvent::Message(mut b) = parse_webhook_event(&many).unwrap() else {
        panic!("expected message event");
    };
    assert_eq!(a.raw, single);
    assert_eq!(b.raw, many);
    assert_eq!(b.message_id.as_deref(), Some("m1"));
    assert_eq!(b.contact_name.as_deref(), Some("A"));
    a.raw = JsonValue::Null;
    b.raw = JsonValue::Null;
    assert_eq!(a, b);
}

#[test]
fn genuine_signatures_are_accepted() {
    for (secret, body) in [("k", ""), ("a much longer secret than one block of sha-256 input, to be hashed first by hmac", "{\"x\":1}")] {
        let signature = sign(secret, body);
        assert_eq!(verify_request_signature(Some(body), Some(&signature), Some(secret)), Ok(()));
    }
}
