use wa_api_rs::{WhatsAppApiConfig, WhatsAppApiError, DEFAULT_GRAPH_API_VERSION};

#[test]
fn default_api_version_matches_current_backend_default() {
    assert_eq!(DEFAULT_GRAPH_API_VERSION, "v24.0");
    assert_eq!(
        WhatsAppApiConfig::for_phone_number("phone-id", "token").graph_api_version,
        "v24.0"
    );
}

#[test]
fn secure_mode_requires_app_secret() {
    assert_eq!(
        WhatsAppApiConfig::for_phone_number("phone-id", "token").validate(),
        Err(WhatsAppApiError::MissingAppSecret)
    );
    assert!(WhatsAppApiConfig::for_phone_number("phone-id", "token")
        .with_app_secret("secret")
        .validate()
        .is_ok());
    assert!(WhatsAppApiConfig::for_phone_number("phone-id", "token")
        .with_secure(false)
        .validate()
        .is_ok());
}

#[test]
fn debug_redacts_secrets() {
    let debug = WhatsAppApiConfig::for_phone_number("phone-id", "ACCESS_TOKEN_VALUE")
        .with_app_secret("APP_SECRET_VALUE")
        .with_webhook_verify_token("VERIFY_TOKEN_VALUE")
        .debug_string();
    assert!(debug.contains("[redacted]"));
    assert!(!debug.contains("ACCESS_TOKEN_VALUE"));
    assert!(!debug.contains("APP_SECRET_VALUE"));
    assert!(!debug.contains("VERIFY_TOKEN_VALUE"));
}

#[test]
fn graph_base_url_can_point_to_mock_graph_server() {
    let config = WhatsAppApiConfig::for_phone_number("phone-id", "token")
        .with_secure(false)
        .with_graph_base_url("http://127.0.0.1:9876");

    assert!(config.validate().is_ok());
    assert_eq!(
        config.graph_url("phone-id/messages"),
        "http://127.0.0.1:9876/v24.0/phone-id/messages"
    );
}

#[test]
fn debug_text_matches_derived_shape() {
    let config = WhatsAppApiConfig::for_phone_number("phone-id", "tok").with_webhook_verify_token("v");
    assert_eq!(
        config.debug_string(),
        "WhatsAppApiConfig { graph_api_version: \"v24.0\", phone_number_id: \"phone-id\", access_token: \"[redacted]\", app_secret: None, webhook_verify_token: Some(\"[redacted]\"), secure: true, graph_base_url: \"https://graph.facebook.com\" }"
    );
}

#[test]
fn debug_text_does_not_depend_on_secrets() {
    let a = WhatsAppApiConfig::for_phone_number("p", "token-one").with_app_secret("s1");
    let b = WhatsAppApiConfig::for_phone_number("p", "token-two").with_app_secret("another");
    assert_eq!(a.debug_string(), b.debug_string());
}

#[test]
fn validation_reports_each_blank_field() {
    let base = WhatsAppApiConfig::new("v1", "p", "t").with_secure(false);
    assert_eq!(
        WhatsAppApiConfig::new(" \t", "p", "t").with_secure(false).validate(),
        Err(WhatsAppApiError::Validation { field: "graph_api_version", message: "must not be blank" })
    );
    assert_eq!(
        WhatsAppApiConfig::new("v1", "p", "").with_secure(false).validate(),
        Err(WhatsAppApiError::Validation { field: "access_token", message: "must not be blank" })
    );
    assert_eq!(
        base.clone().with_graph_base_url("  ").validate(),
        Err(WhatsAppApiError::Validation { field: "graph_base_url", message: "must not be blank" })
    );
    assert_eq!(
        base.clone().with_secure(true).with_app_secret("   ").validate(),
        Err(WhatsAppApiError::MissingAppSecret)
    );
    assert!(base.validate().is_ok());
}

#[test]
fn builders_set_their_fields() {
    let c = WhatsAppApiConfig::new("v9", "id", "tok")
        .with_app_secret("s")
        .with_webhook_verify_token("w")
        .with_secure(false)
        .with_graph_base_url("http://x");
    assert_eq!(c.graph_api_version, "v9");
    assert_eq!(c.phone_number_id, "id");
    assert_eq!(c.access_token, "tok");
    assert_eq!(c.app_secret.as_deref(), Some("s"));
    assert_eq!(c.webhook_verify_token.as_deref(), Some("w"));
    assert!(!c.secure);
    assert_eq!(c.graph_base_url, "http://x");
    assert_eq!(c.authorization_header(), "Bearer tok");
    assert_eq!(WhatsAppApiConfig::new("a", "b", "c").graph_base_url, "https://graph.facebook.com");
}

#[test]
fn graph_url_joins_parts_with_single_slashes() {
    let plain = WhatsAppApiConfig::new("v24.0", "p", "t").with_graph_base_url("https://g.example");
    let slashed = WhatsAppApiConfig::new("/v24.0/", "p", "t").with_graph_base_url("https://g.example/");
    assert_eq!(plain.graph_url("p/messages"), "https://g.example/v24.0/p/messages");
    assert_eq!(slashed.graph_url("/p/messages"), plain.graph_url("p/messages"));
    assert_eq!(
        WhatsAppApiConfig::new("//v1//", "p", "t").with_graph_base_url("b//").graph_url("//x"),
        "b/v1/x"
    );
}
