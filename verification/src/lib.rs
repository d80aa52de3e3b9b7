//! Client-side building blocks for the WhatsApp Cloud API: typed configuration,
//! outbound message payloads, Graph API request descriptions, webhook challenge and
//! signature verification, and webhook event parsing.
mod client;
mod config;
mod crypto;
mod error;
mod events;
mod json;
mod media;
mod messages;
mod recipient;
mod text;
mod webhook;

pub use events::{
    InboundMedia, InboundMessage, InboundMessageKind, ParsedAdReferral, ReactionUpdate, StatusUpdate,
    WebhookEvent, message_kind, parse_webhook_event, stored_media_type,
};
pub use client::{GraphJsonRequest, MediaUploadRequest, SendMessageOptions, WhatsAppApiClient};
pub use config::{WhatsAppApiConfig, DEFAULT_GRAPH_API_VERSION};
pub use error::{MetaError, Result, WhatsAppApiError};
pub use json::{Json, JsonValue};
pub use media::{
    normalize_mime_type, MediaMetadataResponse, MediaUploadResponse, SendMessageResponse, SentMessageRef,
};
pub use messages::{
    AudioMessage, DocumentMessage, ImageMessage, MediaReference, MessageContext, RecipientType,
    SendMessageRequest, TextMessage, VideoMessage, WhatsAppMessage,
};
pub use recipient::Recipient;
pub use webhook::{
    check_signature_digest, constant_time_equals, verify_request_signature, verify_webhook_challenge,
    WebhookChallengeParams,
};
