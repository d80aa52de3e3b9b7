//! Webhook payload parsing: the first message or status event of the first change of the
//! first entry, as typed values.
use vstd::prelude::*;

use crate::error::WhatsAppApiError;
use crate::json::{
    as_object, entry_value, first_object, first_object_spec, get_in, get_spec, object_spec, opt_model,
    opt_owned_model, string_value, string_value_spec, Json, JsonValue,
};
use crate::text::{blank_spec, opt_text, str_eq, trim_spec};
use crate::text::opt_seq;

verus! {

/// A webhook event: an inbound message or a status update of a sent message.
#[derive(Debug, Clone, PartialEq)]
pub enum WebhookEvent {
    Message(Box<InboundMessage>),
    Status(Box<StatusUpdate>),
}

/// The kind of an inbound message, from its `type` field.
#[derive(Debug, Clone, PartialEq, Eq)]
pub enum InboundMessageKind {
    Text,
    Image,
    Video,
    Audio,
    Document,
    Sticker,
    Reaction,
    Unsupported(String),
}

/// An inbound message with the fields the backend stores.
#[derive(Debug, Clone, PartialEq)]
pub struct InboundMessage {
    pub phone_number_id: String,
    pub from: String,
    pub message_id: Option<String>,
    pub timestamp: Option<String>,
    pub kind: InboundMessageKind,
    pub content: Option<String>,
    pub preview: String,
    pub media: Option<InboundMedia>,
    pub reaction: Option<ReactionUpdate>,
    pub referral: Option<ParsedAdReferral>,
    pub context_message_id: Option<String>,
    pub contact_name: Option<String>,
    pub contact: Option<JsonValue>,
    pub raw_message: JsonValue,
    pub raw: JsonValue,
}

/// The media attached to an inbound message.
#[derive(Debug, Clone, PartialEq, Eq)]
pub struct InboundMedia {
    pub media_type: String,
    pub media_id: String,
    pub caption: Option<String>,
    pub filename: String,
    pub mime_type: Option<String>,
}

/// A reaction to an earlier message.
#[derive(Debug, Clone, PartialEq, Eq)]
pub struct ReactionUpdate {
    pub target_message_id: String,
    pub emoji: Option<String>,
}

/// The click-to-WhatsApp ad referral of an inbound message.
#[derive(Debug, Clone, PartialEq)]
pub struct ParsedAdReferral {
    pub raw_referral: JsonValue,
    pub parser_version: i32,
    pub source_type: Option<String>,
    pub source_id: Option<String>,
    pub source_url: Option<String>,
    pub headline: Option<String>,
    pub body: Option<String>,
    pub media_type: Option<String>,
    pub image_url: Option<String>,
    pub video_url: Option<String>,
    pub thumbnail_url: Option<String>,
    pub ctwa_clid: Option<String>,
    pub welcome_message: Option<JsonValue>,
    pub ref_value: Option<String>,
}

/// A delivery status update of a sent message.
#[derive(Debug, Clone, PartialEq)]
pub struct StatusUpdate {
    pub phone_number_id: String,
    pub message_id: String,
    pub status: String,
    pub timestamp: Option<String>,
    pub recipient_type: String,
    pub recipient_id: Option<String>,
    pub recipient_user_id: Option<String>,
    pub parent_recipient_user_id: Option<String>,
    pub contact: Option<JsonValue>,
    pub conversation: Option<JsonValue>,
    pub pricing: Option<JsonValue>,
    pub error: Option<JsonValue>,
    pub biz_opaque_callback_data: Option<String>,
    pub raw_status: JsonValue,
    pub raw: JsonValue,
}

/// The scalar text of member `key` of `obj`.
pub open spec fn field_text(obj: Option<Json>, key: Seq<char>) -> Option<Seq<char>> {
    string_value_spec(get_spec(obj, key))
}

pub open spec fn or_empty(o: Option<Seq<char>>) -> Seq<char> {
    match o {
        Some(t) => t,
        None => Seq::empty(),
    }
}

/// `k` is the kind named by the `type` text `kind`.
pub open spec fn kind_holds(k: InboundMessageKind, kind: Option<Seq<char>>) -> bool {
    match kind {
        Some(t) => if t == "text"@ {
            k is Text
        } else if t == "image"@ {
            k is Image
        } else if t == "video"@ {
            k is Video
        } else if t == "audio"@ {
            k is Audio
        } else if t == "document"@ {
            k is Document
        } else if t == "sticker"@ {
            k is Sticker
        } else if t == "reaction"@ {
            k is Reaction
        } else {
            k matches InboundMessageKind::Unsupported(u) && u@ == t
        },
        None => k matches InboundMessageKind::Unsupported(u) && u@ == Seq::<char>::empty(),
    }
}

/// The media type under which media of a message kind is stored.
pub open spec fn stored_media_type_spec(kind: Option<Seq<char>>) -> Option<Seq<char>> {
    match kind {
        Some(t) => if t == "image"@ || t == "sticker"@ {
            Some("image"@)
        } else if t == "video"@ {
            Some("video"@)
        } else if t == "audio"@ {
            Some("audio"@)
        } else if t == "document"@ {
            Some("document"@)
        } else {
            None
        },
        None => None,
    }
}

/// The text of a message: a text message's body, or the caption of the payload named by
/// its kind.
pub open spec fn caption_spec(msg: Json, kind: Option<Seq<char>>) -> Option<Seq<char>> {
    match kind {
        Some(t) => if t == "text"@ {
            field_text(object_spec(get_spec(Some(msg), "text"@)), "body"@)
        } else {
            field_text(object_spec(get_spec(Some(msg), t)), "caption"@)
        },
        None => None,
    }
}

/// The file extension that a known MIME type maps to.
pub open spec fn extension_spec(mime: Option<Seq<char>>) -> Seq<char> {
    match mime {
        Some(m) => if m == "image/jpeg"@ {
            ".jpg"@
        } else if m == "image/png"@ {
            ".png"@
        } else if m == "image/webp"@ {
            ".webp"@
        } else if m == "video/mp4"@ {
            ".mp4"@
        } else if m == "audio/ogg"@ {
            ".ogg"@
        } else if m == "audio/mpeg"@ {
            ".mp3"@
        } else if m == "application/pdf"@ {
            ".pdf"@
        } else {
            Seq::empty()
        },
        None => Seq::empty(),
    }
}

/// The file name of a media payload: its own `filename`, else a name made of the kind and
/// the extension of its MIME type. An absent payload counts as an empty object.
pub open spec fn filename_spec(payload: Option<Json>, kind: Seq<char>) -> Seq<char> {
    let f = field_text(payload, "filename"@);
    if f is Some && f->0.len() > 0 {
        f->0
    } else {
        let ext = extension_spec(field_text(payload, "mime_type"@));
        if kind == "image"@ || kind == "sticker"@ {
            "image"@ + ext
        } else if kind == "video"@ {
            "video"@ + ext
        } else if kind == "audio"@ {
            "audio"@ + ext
        } else {
            "document"@ + ext
        }
    }
}

/// The one-line preview of a message.
pub open spec fn preview_spec(msg: Json, kind: Option<Seq<char>>, caption: Option<Seq<char>>) -> Seq<
    char,
> {
    if caption is Some && caption->0.len() > 0 {
        caption->0
    } else {
        match kind {
            Some(t) => if t == "text"@ {
                or_empty(caption_spec(msg, kind))
            } else if t == "image"@ || t == "sticker"@ {
                "[Image]"@
            } else if t == "video"@ {
                "[Video]"@
            } else if t == "audio"@ {
                "[Audio]"@
            } else if t == "document"@ {
                filename_spec(object_spec(get_spec(Some(msg), "document"@)), "document"@)
            } else {
                "["@ + t + " message]"@
            },
            None => "[Unsupported message]"@,
        }
    }
}

/// `media` is the media of a message of the given kind and caption.
pub open spec fn media_holds(
    media: Option<InboundMedia>,
    msg: Json,
    kind: Option<Seq<char>>,
    caption: Option<Seq<char>>,
) -> bool {
    let stored = stored_media_type_spec(kind);
    let payload = match kind {
        Some(t) => object_spec(get_spec(Some(msg), t)),
        None => None,
    };
    let id = field_text(payload, "id"@);
    if stored is Some && payload is Some && id is Some {
        &&& media matches Some(m)
        &&& m.media_type@ == stored->0
        &&& m.media_id@ == id->0
        &&& opt_text(m.caption) == caption
        &&& m.filename@ == filename_spec(payload, kind->0)
        &&& opt_text(m.mime_type) == field_text(payload, "mime_type"@)
    } else {
        media is None
    }
}

/// `reaction` is the reaction that a message carries.
pub open spec fn reaction_holds(reaction: Option<ReactionUpdate>, msg: Json) -> bool {
    let obj = object_spec(get_spec(Some(msg), "reaction"@));
    let target = field_text(obj, "message_id"@);
    if obj is Some && target is Some {
        &&& reaction matches Some(x)
        &&& x.target_message_id@ == target->0
        &&& opt_text(x.emoji) == field_text(obj, "emoji"@)
    } else {
        reaction is None
    }
}

/// `referral` is the ad referral that a message carries.
pub open spec fn referral_holds(referral: Option<ParsedAdReferral>, msg: Json) -> bool {
    let obj = object_spec(get_spec(Some(msg), "referral"@));
    match obj {
        None => referral is None,
        Some(o) => {
            &&& referral matches Some(x)
            &&& x.raw_referral@ == o
            &&& x.parser_version == 1
            &&& opt_text(x.source_type) == field_text(obj, "source_type"@)
            &&& opt_text(x.source_id) == field_text(obj, "source_id"@)
            &&& opt_text(x.source_url) == field_text(obj, "source_url"@)
            &&& opt_text(x.headline) == field_text(obj, "headline"@)
            &&& opt_text(x.body) == field_text(obj, "body"@)
            &&& opt_text(x.media_type) == field_text(obj, "media_type"@)
            &&& opt_text(x.image_url) == field_text(obj, "image_url"@)
            &&& opt_text(x.video_url) == field_text(obj, "video_url"@)
            &&& opt_text(x.thumbnail_url) == field_text(obj, "thumbnail_url"@)
            &&& opt_text(x.ctwa_clid) == field_text(obj, "ctwa_clid"@)
            &&& opt_owned_model(x.welcome_message) == get_spec(obj, "welcome_message"@)
            &&& opt_text(x.ref_value) == field_text(obj, "ref"@)
        },
    }
}

/// The id of the message that a message replies to.
pub open spec fn context_id_spec(msg: Json) -> Option<Seq<char>> {
    let c = object_spec(get_spec(Some(msg), "context"@));
    match c {
        None => None,
        Some(_) => match field_text(c, "id"@) {
            Some(t) => Some(t),
            None => field_text(c, "message_id"@),
        },
    }
}

/// The first contact of a change value.
pub open spec fn contact_spec(value: Json) -> Option<Json> {
    first_object_spec(get_spec(Some(value), "contacts"@))
}

/// The profile name of the first contact of a change value.
pub open spec fn contact_name_spec(value: Json) -> Option<Seq<char>> {
    field_text(object_spec(get_spec(contact_spec(value), "profile"@)), "name"@)
}

/// `m` is the inbound message parsed from `msg` of change value `value` in payload `raw`.
pub open spec fn inbound_message_holds(
    m: InboundMessage,
    phone: Seq<char>,
    msg: Json,
    value: Json,
    raw: Json,
) -> bool {
    let kind = field_text(Some(msg), "type"@);
    let content = caption_spec(msg, kind);
    &&& m.phone_number_id@ == phone
    &&& m.from@ == or_empty(field_text(Some(msg), "from"@))
    &&& opt_text(m.message_id) == field_text(Some(msg), "id"@)
    &&& opt_text(m.timestamp) == field_text(Some(msg), "timestamp"@)
    &&& kind_holds(m.kind, kind)
    &&& opt_text(m.content) == content
    &&& m.preview@ == preview_spec(msg, kind, content)
    &&& media_holds(m.media, msg, kind, content)
    &&& reaction_holds(m.reaction, msg)
    &&& referral_holds(m.referral, msg)
    &&& opt_text(m.context_message_id) == context_id_spec(msg)
    &&& opt_text(m.contact_name) == contact_name_spec(value)
    &&& opt_owned_model(m.contact) == contact_spec(value)
    &&& m.raw_message@ == msg
    &&& m.raw@ == raw
}

/// `s` is the status update parsed from `status` of change value `value` in payload `raw`.
pub open spec fn status_update_holds(
    s: StatusUpdate,
    phone: Seq<char>,
    status: Json,
    value: Json,
    raw: Json,
) -> bool {
    let st = Some(status);
    &&& s.phone_number_id@ == phone
    &&& s.message_id@ == or_empty(field_text(st, "id"@))
    &&& s.status@ == or_empty(field_text(st, "status"@))
    &&& opt_text(s.timestamp) == field_text(st, "timestamp"@)
    &&& s.recipient_type@ == match field_text(st, "recipient_type"@) {
        Some(t) => t,
        None => "individual"@,
    }
    &&& opt_text(s.recipient_id) == field_text(st, "recipient_id"@)
    &&& opt_text(s.recipient_user_id) == field_text(st, "recipient_user_id"@)
    &&& opt_text(s.parent_recipient_user_id) == field_text(st, "parent_recipient_user_id"@)
    &&& opt_owned_model(s.contact) == contact_spec(value)
    &&& opt_owned_model(s.conversation) == get_spec(st, "conversation"@)
    &&& opt_owned_model(s.pricing) == get_spec(st, "pricing"@)
    &&& opt_owned_model(s.error) == first_object_spec(get_spec(st, "errors"@))
    &&& opt_text(s.biz_opaque_callback_data) == field_text(st, "biz_opaque_callback_data"@)
    &&& s.raw_status@ == status
    &&& s.raw@ == raw
}

/// Where a payload leads: to the message or status that it carries, or to a rejection with
/// a message and an HTTP status for the webhook's answer.
pub enum EventShape {
    Rejected(Seq<char>, u16),
    Message(Seq<char>, Json, Json),
    Status(Seq<char>, Json, Json),
}

/// The event that a payload carries: the first message, else the first status, of the first
/// change of the first entry, when that change's field is `messages`.
pub open spec fn event_shape(data: Json) -> EventShape {
    if get_spec(Some(data), "object"@) is None {
        EventShape::Rejected("Invalid payload"@, 400)
    } else {
        let entry = first_object_spec(get_spec(Some(data), "entry"@));
        let change = first_object_spec(get_spec(entry, "changes"@));
        let value = object_spec(get_spec(change, "value"@));
        if entry is None || change is None || value is None {
            EventShape::Rejected("Unexpected payload"@, 200)
        } else {
            let phone = or_empty(
                field_text(object_spec(get_spec(value, "metadata"@)), "phone_number_id"@),
            );
            let is_messages = field_text(change, "field"@) == Some("messages"@);
            let m = first_object_spec(get_spec(value, "messages"@));
            let st = first_object_spec(get_spec(value, "statuses"@));
            if is_messages && m is Some {
                EventShape::Message(phone, m->0, value->0)
            } else if is_messages && st is Some {
                EventShape::Status(phone, st->0, value->0)
            } else {
                EventShape::Rejected("Unexpected payload"@, 200)
            }
        }
    }
}

/// The outcome that `r` is for a payload whose event shape is `shape`.
pub open spec fn event_result_holds(
    r: Result<WebhookEvent, WhatsAppApiError>,
    shape: EventShape,
    raw: Json,
) -> bool {
    match shape {
        EventShape::Rejected(message, status) => r matches Err(
            WhatsAppApiError::UnexpectedWebhookPayload { message: m, http_status: h },
        ) && m@ == message && h == status,
        EventShape::Message(phone, msg, value) => r matches Ok(WebhookEvent::Message(b))
            && inbound_message_holds(*b, phone, msg, value, raw),
        EventShape::Status(phone, status, value) => r matches Ok(WebhookEvent::Status(b))
            && status_update_holds(*b, phone, status, value, raw),
    }
}

/// The scalar text of member `key` of `obj`.
fn field_text_of(obj: Option<&JsonValue>, key: &str) -> (r: Option<String>)
    ensures
        opt_text(r) == field_text(opt_model(obj), key@),
{
    string_value(get_in(obj, key))
}

fn as_str_opt(o: &Option<String>) -> (r: Option<&str>)
    ensures
        opt_seq(r) == opt_text(*o),
{
    match o {
        Some(t) => Some(t.as_str()),
        None => None,
    }
}

fn copy_opt(o: Option<&JsonValue>) -> (r: Option<JsonValue>)
    ensures
        opt_owned_model(r) == opt_model(o),
{
    match o {
        Some(v) => Some(v.duplicate()),
        None => None,
    }
}

/// The kind of an inbound message from its `type` text.
pub fn message_kind(kind: Option<&str>) -> (r: InboundMessageKind)
    ensures
        kind_holds(r, opt_seq(kind)),
{
    match kind {
        Some(t) => if str_eq(t, "text") {
            InboundMessageKind::Text
        } else if str_eq(t, "image") {
            InboundMessageKind::Image
        } else if str_eq(t, "video") {
            InboundMessageKind::Video
        } else if str_eq(t, "audio") {
            InboundMessageKind::Audio
        } else if str_eq(t, "document") {
            InboundMessageKind::Document
        } else if str_eq(t, "sticker") {
            InboundMessageKind::Sticker
        } else if str_eq(t, "reaction") {
            InboundMessageKind::Reaction
        } else {
            InboundMessageKind::Unsupported(String::from_str(t))
        },
        None => InboundMessageKind::Unsupported(String::new()),
    }
}

/// The media type under which media of a message kind is stored.
pub fn stored_media_type(kind: Option<&str>) -> (r: Option<&'static str>)
    ensures
        opt_seq(r) == stored_media_type_spec(opt_seq(kind)),
{
    match kind {
        Some(t) => if str_eq(t, "image") || str_eq(t, "sticker") {
            Some("image")
        } else if str_eq(t, "video") {
            Some("video")
        } else if str_eq(t, "audio") {
            Some("audio")
        } else if str_eq(t, "document") {
            Some("document")
        } else {
            None
        },
        None => None,
    }
}

fn caption_from_message(message: &JsonValue, kind: Option<&str>) -> (r: Option<String>)
    ensures
        opt_text(r) == caption_spec(message@, opt_seq(kind)),
{
    match kind {
        Some(t) => if str_eq(t, "text") {
            field_text_of(as_object(message.get("text")), "body")
        } else {
            field_text_of(as_object(message.get(t)), "caption")
        },
        None => None,
    }
}

fn extension_for(mime: Option<&str>) -> (r: &'static str)
    ensures
        r@ == extension_spec(opt_seq(mime)),
{
    proof {
        reveal_strlit("");
    }
    match mime {
        Some(m) => if str_eq(m, "image/jpeg") {
            ".jpg"
        } else if str_eq(m, "image/png") {
            ".png"
        } else if str_eq(m, "image/webp") {
            ".webp"
        } else if str_eq(m, "video/mp4") {
            ".mp4"
        } else if str_eq(m, "audio/ogg") {
            ".ogg"
        } else if str_eq(m, "audio/mpeg") {
            ".mp3"
        } else if str_eq(m, "application/pdf") {
            ".pdf"
        } else {
            ""
        },
        None => "",
    }
}

fn filename_from_webhook_payload(payload: Option<&JsonValue>, kind: &str) -> (r: String)
    ensures
        r@ == filename_spec(opt_model(payload), kind@),
{
    let f = field_text_of(payload, "filename");
    if let Some(name) = f {
        if name.unicode_len() > 0 {
            return name;
        }
    }
    let mime = field_text_of(payload, "mime_type");
    let ext = extension_for(as_str_opt(&mime));
    let base = if str_eq(kind, "image") || str_eq(kind, "sticker") {
        String::from_str("image")
    } else if str_eq(kind, "video") {
        String::from_str("video")
    } else if str_eq(kind, "audio") {
        String::from_str("audio")
    } else {
        String::from_str("document")
    };
    base.concat(ext)
}

fn preview_from_message(message: &JsonValue, kind: Option<&str>, caption: Option<&str>) -> (r:
    String)
    ensures
        r@ == preview_spec(message@, opt_seq(kind), opt_seq(caption)),
{
    if let Some(c) = caption {
        if c.unicode_len() > 0 {
            return String::from_str(c);
        }
    }
    match kind {
        Some(t) => if str_eq(t, "text") {
            match caption_from_message(message, kind) {
                Some(c) => c,
                None => String::new(),
            }
        } else if str_eq(t, "image") || str_eq(t, "sticker") {
            String::from_str("[Image]")
        } else if str_eq(t, "video") {
            String::from_str("[Video]")
        } else if str_eq(t, "audio") {
            String::from_str("[Audio]")
        } else if str_eq(t, "document") {
            filename_from_webhook_payload(as_object(message.get("document")), "document")
        } else {
            String::from_str("[").concat(t).concat(" message]")
        },
        None => String::from_str("[Unsupported message]"),
    }
}

fn inbound_media_from_message(message: &JsonValue, kind: Option<&str>, caption: Option<&str>) -> (r:
    Option<InboundMedia>)
    ensures
        media_holds(r, message@, opt_seq(kind), opt_seq(caption)),
{
    let stored = match stored_media_type(kind) {
        Some(s) => s,
        None => {
            return None;
        },
    };
    let k = match kind {
        Some(k) => k,
        None => {
            return None;
        },
    };
    let payload = match as_object(message.get(k)) {
        Some(p) => p,
        None => {
            return None;
        },
    };
    let media_id = match field_text_of(Some(payload), "id") {
        Some(id) => id,
        None => {
            return None;
        },
    };
    let mime_type = field_text_of(Some(payload), "mime_type");
    let caption_owned = match caption {
        Some(c) => Some(String::from_str(c)),
        None => None,
    };
    Some(
        InboundMedia {
            media_type: String::from_str(stored),
            media_id,
            caption: caption_owned,
            filename: filename_from_webhook_payload(Some(payload), k),
            mime_type,
        },
    )
}

fn reaction_from_message(message: &JsonValue) -> (r: Option<ReactionUpdate>)
    ensures
        reaction_holds(r, message@),
{
    let reaction = match as_object(message.get("reaction")) {
        Some(x) => x,
        None => {
            return None;
        },
    };
    let target_message_id = match field_text_of(Some(reaction), "message_id") {
        Some(t) => t,
        None => {
            return None;
        },
    };
    if target_message_id.unicode_len() == 0 {
        return None;
    }
    Some(
        ReactionUpdate { target_message_id, emoji: field_text_of(Some(reaction), "emoji") },
    )
}

fn parse_ad_referral_from_message(message: &JsonValue) -> (r: Option<ParsedAdReferral>)
    ensures
        referral_holds(r, message@),
{
    let referral = match as_object(message.get("referral")) {
        Some(x) => x,
        None => {
            return None;
        },
    };
    let o = Some(referral);
    Some(
        ParsedAdReferral {
            raw_referral: referral.duplicate(),
            parser_version: 1,
            source_type: field_text_of(o, "source_type"),
            source_id: field_text_of(o, "source_id"),
            source_url: field_text_of(o, "source_url"),
            headline: field_text_of(o, "headline"),
            body: field_text_of(o, "body"),
            media_type: field_text_of(o, "media_type"),
            image_url: field_text_of(o, "image_url"),
            video_url: field_text_of(o, "video_url"),
            thumbnail_url: field_text_of(o, "thumbnail_url"),
            ctwa_clid: field_text_of(o, "ctwa_clid"),
            welcome_message: copy_opt(referral.get("welcome_message")),
            ref_value: field_text_of(o, "ref"),
        },
    )
}

fn context_message_id(message: &JsonValue) -> (r: Option<String>)
    ensures
        opt_text(r) == context_id_spec(message@),
{
    let context = as_object(message.get("context"));
    match context {
        None => None,
        Some(_) => match field_text_of(context, "id") {
            Some(t) => Some(t),
            None => field_text_of(context, "message_id"),
        },
    }
}

fn parse_inbound_message(
    phone_number_id: &str,
    message: &JsonValue,
    value: &JsonValue,
    raw: &JsonValue,
) -> (r: InboundMessage)
    ensures
        inbound_message_holds(r, phone_number_id@, message@, value@, raw@),
{
    let kind_text = field_text_of(Some(message), "type");
    let kind_ref = as_str_opt(&kind_text);
    let kind = message_kind(kind_ref);
    let contact_ref = first_object(value.get("contacts"));
    let contact = copy_opt(contact_ref);
    let contact_name = field_text_of(as_object(get_in(contact_ref, "profile")), "name");
    let content = caption_from_message(message, kind_ref);
    let content_ref = as_str_opt(&content);
    let media = inbound_media_from_message(message, kind_ref, content_ref);
    let reaction = reaction_from_message(message);
    let referral = parse_ad_referral_from_message(message);
    let context_message_id = context_message_id(message);
    let preview = preview_from_message(message, kind_ref, content_ref);
    let from = match field_text_of(Some(message), "from") {
        Some(f) => f,
        None => String::new(),
    };
    InboundMessage {
        phone_number_id: String::from_str(phone_number_id),
        from,
        message_id: field_text_of(Some(message), "id"),
        timestamp: field_text_of(Some(message), "timestamp"),
        kind,
        content,
        preview,
        media,
        reaction,
        referral,
        context_message_id,
        contact_name,
        contact,
        raw_message: message.duplicate(),
        raw: raw.duplicate(),
    }
}

fn parse_status_update(
    phone_number_id: &str,
    status: &JsonValue,
    value: &JsonValue,
    raw: &JsonValue,
) -> (r: StatusUpdate)
    ensures
        status_update_holds(r, phone_number_id@, status@, value@, raw@),
{
    let st = Some(status);
    let message_id = match field_text_of(st, "id") {
        Some(t) => t,
        None => String::new(),
    };
    let status_text = match field_text_of(st, "status") {
        Some(t) => t,
        None => String::new(),
    };
    let recipient_type = match field_text_of(st, "recipient_type") {
        Some(t) => t,
        None => String::from_str("individual"),
    };
    StatusUpdate {
        phone_number_id: String::from_str(phone_number_id),
        message_id,
        status: status_text,
        timestamp: field_text_of(st, "timestamp"),
        recipient_type,
        recipient_id: field_text_of(st, "recipient_id"),
        recipient_user_id: field_text_of(st, "recipient_user_id"),
        parent_recipient_user_id: field_text_of(st, "parent_recipient_user_id"),
        contact: copy_opt(first_object(value.get("contacts"))),
        conversation: copy_opt(status.get("conversation")),
        pricing: copy_opt(status.get("pricing")),
        error: copy_opt(first_object(status.get("errors"))),
        biz_opaque_callback_data: field_text_of(st, "biz_opaque_callback_data"),
        raw_status: status.duplicate(),
        raw: raw.duplicate(),
    }
}

fn unexpected_payload(message: &'static str, http_status: u16) -> (r: WhatsAppApiError)
    ensures
        r == (WhatsAppApiError::UnexpectedWebhookPayload { message, http_status }),
{
    WhatsAppApiError::UnexpectedWebhookPayload { message, http_status }
}

/// Parses a webhook payload into its first message or status event.
pub fn parse_webhook_event(data: &JsonValue) -> (r: Result<WebhookEvent, WhatsAppApiError>)
    ensures
        event_result_holds(r, event_shape(data@), data@),
{
    if data.get("object").is_none() {
        return Err(unexpected_payload("Invalid payload", 400));
    }
    let entry = match first_object(data.get("entry")) {
        Some(e) => e,
        None => {
            return Err(unexpected_payload("Unexpected payload", 200));
        },
    };
    let change = match first_object(entry.get("changes")) {
        Some(c) => c,
        None => {
            return Err(unexpected_payload("Unexpected payload", 200));
        },
    };
    let field = field_text_of(Some(change), "field");
    let value = match as_object(change.get("value")) {
        Some(v) => v,
        None => {
            return Err(unexpected_payload("Unexpected payload", 200));
        },
    };
    let phone_number_id = match field_text_of(as_object(value.get("metadata")), "phone_number_id") {
        Some(p) => p,
        None => String::new(),
    };
    let is_messages = match &field {
        Some(f) => str_eq(f.as_str(), "messages"),
        None => false,
    };
    if is_messages {
        if let Some(message) = first_object(value.get("messages")) {
            return Ok(
                WebhookEvent::Message(
                    Box::new(parse_inbound_message(phone_number_id.as_str(), message, value, data)),
                ),
            );
        }
        if let Some(status) = first_object(value.get("statuses")) {
            return Ok(
                WebhookEvent::Status(
                    Box::new(parse_status_update(phone_number_id.as_str(), status, value, data)),
                ),
            );
        }
    }
    Err(unexpected_payload("Unexpected payload", 200))
}

/// `es` with the value of every member under `key` replaced by `v`.
pub open spec fn set_members(es: Seq<(Seq<char>, Json)>, key: Seq<char>, v: Json) -> Seq<(Seq<char>, Json)> {
    Seq::new(es.len(), |i: int| if es[i].0 == key { (key, v) } else { es[i] })
}

/// `obj` with member `key` set to `v` where it has one; other values are unchanged.
pub open spec fn with_member(obj: Json, key: Seq<char>, v: Json) -> Json {
    match obj {
        Json::Object(es) => Json::Object(set_members(es, key, v)),
        other => other,
    }
}

/// `obj` with the array under `key` cut to its first element, passed through `f`.
pub open spec fn cut_array(obj: Json, key: Seq<char>, f: spec_fn(Json) -> Json) -> Json {
    match get_spec(Some(obj), key) {
        Some(Json::Array(items)) => if items.len() > 0 {
            with_member(obj, key, Json::Array(seq![f(items[0])]))
        } else {
            obj
        },
        _ => obj,
    }
}

/// A change value with its contacts, messages and statuses cut to the first of each.
pub open spec fn first_of_value(value: Json) -> Json {
    let id = |j: Json| j;
    cut_array(cut_array(cut_array(value, "contacts"@, id), "messages"@, id), "statuses"@, id)
}

/// A change with its value cut as `first_of_value` does.
pub open spec fn first_of_change(change: Json) -> Json {
    match get_spec(Some(change), "value"@) {
        Some(v) => with_member(change, "value"@, first_of_value(v)),
        None => change,
    }
}

/// An entry with its changes cut to the first, itself cut.
pub open spec fn first_of_entry(entry: Json) -> Json {
    cut_array(entry, "changes"@, |c: Json| first_of_change(c))
}

/// A payload with its entries cut to the first, itself cut: what remains of it when only
/// the first entry, change, contact, message and status are kept.
pub open spec fn first_of_payload(data: Json) -> Json {
    cut_array(data, "entry"@, |e: Json| first_of_entry(e))
}

/// Two event shapes that give the same events apart from the raw payload: the same
/// rejection, or the same event with the same first contact.
pub open spec fn same_event(a: EventShape, b: EventShape) -> bool {
    match (a, b) {
        (EventShape::Rejected(m1, h1), EventShape::Rejected(m2, h2)) => m1 == m2 && h1 == h2,
        (EventShape::Message(p1, m1, v1), EventShape::Message(p2, m2, v2)) => p1 == p2 && m1 == m2
            && contact_spec(v1) == contact_spec(v2),
        (EventShape::Status(p1, s1, v1), EventShape::Status(p2, s2, v2)) => p1 == p2 && s1 == s2
            && contact_spec(v1) == contact_spec(v2),
        _ => false,
    }
}

proof fn lemma_entry_value_set(es: Seq<(Seq<char>, Json)>, key: Seq<char>, v: Json, k: Seq<char>)
    ensures
        entry_value(set_members(es, key, v), k) == if k == key {
            if entry_value(es, key) is Some {
                Some(v)
            } else {
                None
            }
        } else {
            entry_value(es, k)
        },
    decreases es.len(),
{
    if es.len() > 0 {
        assert(set_members(es, key, v).drop_last() =~= set_members(es.drop_last(), key, v));
        lemma_entry_value_set(es.drop_last(), key, v, k);
    }
}

proof fn lemma_get_with(obj: Json, key: Seq<char>, v: Json, k: Seq<char>)
    ensures
        get_spec(Some(with_member(obj, key, v)), k) == if k == key {
            if get_spec(Some(obj), key) is Some {
                Some(v)
            } else {
                None
            }
        } else {
            get_spec(Some(obj), k)
        },
        with_member(obj, key, v) is Object == obj is Object,
{
    if let Json::Object(es) = obj {
        lemma_entry_value_set(es, key, v, k);
    }
}

/// Cutting the array under `key` leaves the other members and the kind of value as they
/// are, and keeps the first element's image under `f` as the first object when `f` keeps
/// objects objects.
proof fn lemma_cut_array(obj: Json, key: Seq<char>, f: spec_fn(Json) -> Json, k: Seq<char>)
    ensures
        k != key ==> get_spec(Some(cut_array(obj, key, f)), k) == get_spec(Some(obj), k),
        cut_array(obj, key, f) is Object == obj is Object,
        (forall|j: Json| (#[trigger] f(j)) is Object == j is Object) ==> first_object_spec(
            get_spec(Some(cut_array(obj, key, f)), key),
        ) == match first_object_spec(get_spec(Some(obj), key)) {
            Some(j) => Some(f(j)),
            None => None,
        },
{
    match get_spec(Some(obj), key) {
        Some(Json::Array(items)) => {
            if items.len() > 0 {
                let w = Json::Array(seq![f(items[0])]);
                lemma_get_with(obj, key, w, k);
                lemma_get_with(obj, key, w, key);
            }
        },
        _ => {},
    }
}

proof fn lemma_first_of_value(value: Json)
    ensures
        first_of_value(value) is Object == value is Object,
        get_spec(Some(first_of_value(value)), "metadata"@) == get_spec(Some(value), "metadata"@),
        first_object_spec(get_spec(Some(first_of_value(value)), "messages"@)) == first_object_spec(
            get_spec(Some(value), "messages"@),
        ),
        first_object_spec(get_spec(Some(first_of_value(value)), "statuses"@)) == first_object_spec(
            get_spec(Some(value), "statuses"@),
        ),
        contact_spec(first_of_value(value)) == contact_spec(value),
{
    reveal_strlit("contacts");
    reveal_strlit("messages");
    reveal_strlit("statuses");
    reveal_strlit("metadata");
    let id = |j: Json| j;
    let a = cut_array(value, "contacts"@, id);
    let b = cut_array(a, "messages"@, id);
    assert(forall|j: Json| (#[trigger] id(j)) is Object == j is Object);
    assert("contacts"@[0] != "messages"@[0]);
    assert("contacts"@ != "messages"@);
    assert("contacts"@[0] != "statuses"@[0]);
    assert("contacts"@ != "statuses"@);
    assert("messages"@ != "statuses"@);
    assert("metadata"@ != "contacts"@);
    assert("metadata"@[2] != "messages"@[2]);
    assert("metadata"@ != "messages"@);
    assert("metadata"@ != "statuses"@);
    lemma_cut_array(value, "contacts"@, id, "metadata"@);
    lemma_cut_array(value, "contacts"@, id, "messages"@);
    lemma_cut_array(value, "contacts"@, id, "statuses"@);
    lemma_cut_array(a, "messages"@, id, "metadata"@);
    lemma_cut_array(a, "messages"@, id, "contacts"@);
    lemma_cut_array(a, "messages"@, id, "statuses"@);
    lemma_cut_array(b, "statuses"@, id, "metadata"@);
    lemma_cut_array(b, "statuses"@, id, "contacts"@);
    lemma_cut_array(b, "statuses"@, id, "messages"@);
    match first_object_spec(get_spec(Some(value), "contacts"@)) {
        Some(j) => assert(id(j) == j),
        None => {},
    }
    match first_object_spec(get_spec(Some(a), "messages"@)) {
        Some(j) => assert(id(j) == j),
        None => {},
    }
    match first_object_spec(get_spec(Some(b), "statuses"@)) {
        Some(j) => assert(id(j) == j),
        None => {},
    }
}

proof fn lemma_first_of_change(change: Json)
    ensures
        first_of_change(change) is Object == change is Object,
        get_spec(Some(first_of_change(change)), "field"@) == get_spec(Some(change), "field"@),
        get_spec(Some(first_of_change(change)), "value"@) == match get_spec(Some(change), "value"@) {
            Some(v) => Some(first_of_value(v)),
            None => None,
        },
{
    reveal_strlit("field");
    reveal_strlit("value");
    assert("field"@[0] != "value"@[0]);
    assert("field"@ != "value"@);
    if let Some(v) = get_spec(Some(change), "value"@) {
        lemma_get_with(change, "value"@, first_of_value(v), "field"@);
        lemma_get_with(change, "value"@, first_of_value(v), "value"@);
    }
}

/// Only the first entry, its first change, and the first contact, message and status of
/// that change decide what a payload is parsed into: two payloads that both have an
/// `object` member and agree once cut to those give the same rejection, or the same event
/// apart from the raw payload: a result `r` whose raw payload is `raw` is the outcome for
/// the one exactly when it is for the other.
pub proof fn lemma_only_first_event_parsed(
    d1: Json,
    d2: Json,
    r: Result<WebhookEvent, WhatsAppApiError>,
    raw: Json,
)
    requires
        get_spec(Some(d1), "object"@) is Some,
        get_spec(Some(d2), "object"@) is Some,
        first_of_payload(d1) == first_of_payload(d2),
    ensures
        same_event(event_shape(d1), event_shape(d2)),
        event_result_holds(r, event_shape(d1), raw) == event_result_holds(r, event_shape(d2), raw),
{
    lemma_first_event_shape(d1);
    lemma_first_event_shape(d2);
}

/// A payload with an `object` member gives the same event as its cut form.
proof fn lemma_first_event_shape(d: Json)
    requires
        get_spec(Some(d), "object"@) is Some,
    ensures
        same_event(event_shape(d), event_shape(first_of_payload(d))),
{
    reveal_strlit("object");
    reveal_strlit("entry");
    reveal_strlit("changes");
    assert("object"@[0] != "entry"@[0]);
    assert("object"@ != "entry"@);
    let fe = |e: Json| first_of_entry(e);
    let fc = |c: Json| first_of_change(c);
    assert forall|j: Json| (#[trigger] fc(j)) is Object == j is Object by {
        lemma_first_of_change(j);
    }
    assert forall|j: Json| (#[trigger] fe(j)) is Object == j is Object by {
        lemma_cut_array(j, "changes"@, fc, "changes"@);
    }
    lemma_cut_array(d, "entry"@, fe, "object"@);
    lemma_cut_array(d, "entry"@, fe, "entry"@);
    let c = first_of_payload(d);
    assert(get_spec(Some(c), "object"@) is Some);
    let entry = first_object_spec(get_spec(Some(d), "entry"@));
    let centry = first_object_spec(get_spec(Some(c), "entry"@));
    if let Some(e) = entry {
        assert(centry == Some(first_of_entry(e)));
        lemma_cut_array(e, "changes"@, fc, "changes"@);
        let change = first_object_spec(get_spec(entry, "changes"@));
        let cchange = first_object_spec(get_spec(centry, "changes"@));
        if let Some(ch) = change {
            assert(cchange == Some(first_of_change(ch)));
            lemma_first_of_change(ch);
            let value = object_spec(get_spec(change, "value"@));
            let cvalue = object_spec(get_spec(cchange, "value"@));
            if let Some(v) = get_spec(change, "value"@) {
                lemma_first_of_value(v);
                if let Some(vv) = value {
                    assert(cvalue == Some(first_of_value(vv)));
                }
            }
        } else {
            assert(cchange is None);
        }
    } else {
        assert(centry is None);
    }
}

/// The scalar text of member `key` of a JSON value: see `string_value_spec`.
pub open spec fn member_text(obj: Json, key: Seq<char>) -> Option<Seq<char>> {
    string_value_spec(get_spec(Some(obj), key))
}

/// An optional owned string as an optional JSON string.
pub open spec fn opt_str_json(o: Option<String>) -> Option<Json> {
    match o {
        Some(t) => Some(Json::Str(t@)),
        None => None,
    }
}

/// The reply context of a parsed inbound message: when the message's `context` is an
/// object, `context_message_id` is the text of its `id` member, and the text of its
/// `message_id` member only when `id` is absent, null or blank; in particular a non-blank
/// string `id` gives its trimmed text. Without a context object there is none.
pub proof fn lemma_reply_context(
    m: InboundMessage,
    phone: Seq<char>,
    msg: Json,
    value: Json,
    raw: Json,
)
    requires
        inbound_message_holds(m, phone, msg, value, raw),
    ensures
        match object_spec(get_spec(Some(msg), "context"@)) {
            Some(c) => match member_text(c, "id"@) {
                Some(t) => m.context_message_id matches Some(x) && x@ == t,
                None => opt_text(m.context_message_id) == member_text(c, "message_id"@),
            },
            None => m.context_message_id is None,
        },
{
}

/// A reply whose context holds a non-blank string `id` has that id, trimmed, as its
/// `context_message_id`, whatever the context's `message_id`.
pub proof fn lemma_reply_context_string_id(
    m: InboundMessage,
    phone: Seq<char>,
    msg: Json,
    value: Json,
    raw: Json,
    id: Seq<char>,
)
    requires
        inbound_message_holds(m, phone, msg, value, raw),
        object_spec(get_spec(Some(msg), "context"@)) matches Some(c) && get_spec(Some(c), "id"@) == Some(
            Json::Str(id),
        ),
        !blank_spec(id),
    ensures
        m.context_message_id matches Some(x) && x@ == trim_spec(id),
{
}

/// Each text field of a parsed ad referral is the scalar text of the referral member of the
/// same name (`ref_value` of `ref`), `welcome_message` is that member as it stands, the raw
/// referral is the referral object and the parser version is 1. A message without a
/// referral object has no referral.
pub proof fn lemma_referral_fields(
    m: InboundMessage,
    phone: Seq<char>,
    msg: Json,
    value: Json,
    raw: Json,
)
    requires
        inbound_message_holds(m, phone, msg, value, raw),
    ensures
        match object_spec(get_spec(Some(msg), "referral"@)) {
            Some(o) => m.referral matches Some(x) && x.raw_referral@ == o && x.parser_version == 1
                && opt_text(x.source_type) == member_text(o, "source_type"@)
                && opt_text(x.source_id) == member_text(o, "source_id"@)
                && opt_text(x.source_url) == member_text(o, "source_url"@)
                && opt_text(x.headline) == member_text(o, "headline"@)
                && opt_text(x.body) == member_text(o, "body"@)
                && opt_text(x.media_type) == member_text(o, "media_type"@)
                && opt_text(x.image_url) == member_text(o, "image_url"@)
                && opt_text(x.video_url) == member_text(o, "video_url"@)
                && opt_text(x.thumbnail_url) == member_text(o, "thumbnail_url"@)
                && opt_text(x.ctwa_clid) == member_text(o, "ctwa_clid"@)
                && opt_owned_model(x.welcome_message) == get_spec(Some(o), "welcome_message"@)
                && opt_text(x.ref_value) == member_text(o, "ref"@),
            None => m.referral is None,
        },
{
}

/// The plain fields of a parsed inbound message are the scalar texts of the message members
/// of the same name (`from` empty when it has none), the phone number id is the one given,
/// the contact is the first contact of the change value, its name that contact's profile
/// name, and the raw message and payload are kept as they are.
pub proof fn lemma_inbound_message_fields(
    m: InboundMessage,
    phone: Seq<char>,
    msg: Json,
    value: Json,
    raw: Json,
)
    requires
        inbound_message_holds(m, phone, msg, value, raw),
    ensures
        m.phone_number_id@ == phone,
        member_text(msg, "from"@) matches Some(f) ==> m.from@ == f,
        member_text(msg, "from"@) is None ==> m.from@.len() == 0,
        opt_text(m.message_id) == member_text(msg, "id"@),
        opt_text(m.timestamp) == member_text(msg, "timestamp"@),
        opt_owned_model(m.contact) == first_object_spec(get_spec(Some(value), "contacts"@)),
        match object_spec(get_spec(first_object_spec(get_spec(Some(value), "contacts"@)), "profile"@)) {
            Some(p) => opt_text(m.contact_name) == member_text(p, "name"@),
            None => m.contact_name is None,
        },
        m.raw_message@ == msg,
        m.raw@ == raw,
{
}

/// A text message's content and preview are the text of its `text.body` member (the preview
/// empty when there is none), and its kind is `Text`.
pub proof fn lemma_text_message(m: InboundMessage, phone: Seq<char>, msg: Json, value: Json, raw: Json)
    requires
        inbound_message_holds(m, phone, msg, value, raw),
        member_text(msg, "type"@) == Some("text"@),
    ensures
        m.kind is Text,
        match object_spec(get_spec(Some(msg), "text"@)) {
            Some(t) => opt_text(m.content) == member_text(t, "body"@),
            None => m.content is None,
        },
        m.content matches Some(c) ==> m.preview@ == c@,
        m.content is None ==> m.preview@.len() == 0,
        m.media is None,
{
    reveal_strlit("text");
    reveal_strlit("image");
    reveal_strlit("sticker");
    reveal_strlit("video");
    reveal_strlit("audio");
    reveal_strlit("document");
    assert("text"@[0] != "image"@[0]);
    assert("text"@[0] != "video"@[0]);
    assert("text"@[0] != "audio"@[0]);
    assert("text"@[0] != "document"@[0]);
    assert("text"@[0] != "sticker"@[0]);
}

/// A parsed status update: each plain field is the scalar text of the status member of the
/// same name (`message_id` of `id`; `message_id` and `status` empty when absent;
/// `recipient_type` `individual` when absent), the conversation and pricing members and the
/// first error are kept as they stand, the contact is the first contact of the change value,
/// and the raw status and payload are kept.
pub proof fn lemma_status_fields(
    s: StatusUpdate,
    phone: Seq<char>,
    status: Json,
    value: Json,
    raw: Json,
)
    requires
        status_update_holds(s, phone, status, value, raw),
    ensures
        s.phone_number_id@ == phone,
        member_text(status, "id"@) matches Some(t) ==> s.message_id@ == t,
        member_text(status, "id"@) is None ==> s.message_id@.len() == 0,
        member_text(status, "status"@) matches Some(t) ==> s.status@ == t,
        member_text(status, "status"@) is None ==> s.status@.len() == 0,
        opt_text(s.timestamp) == member_text(status, "timestamp"@),
        member_text(status, "recipient_type"@) matches Some(t) ==> s.recipient_type@ == t,
        member_text(status, "recipient_type"@) is None ==> s.recipient_type@ == "individual"@,
        opt_text(s.recipient_id) == member_text(status, "recipient_id"@),
        opt_text(s.recipient_user_id) == member_text(status, "recipient_user_id"@),
        opt_text(s.parent_recipient_user_id) == member_text(status, "parent_recipient_user_id"@),
        opt_text(s.biz_opaque_callback_data) == member_text(status, "biz_opaque_callback_data"@),
        opt_owned_model(s.conversation) == get_spec(Some(status), "conversation"@),
        opt_owned_model(s.pricing) == get_spec(Some(status), "pricing"@),
        opt_owned_model(s.error) == first_object_spec(get_spec(Some(status), "errors"@)),
        opt_owned_model(s.contact) == first_object_spec(get_spec(Some(value), "contacts"@)),
        s.raw_status@ == status,
        s.raw@ == raw,
{
}

proof fn lemma_kind_names_distinct()
    ensures
        "text"@ != "image"@,
        "text"@ != "video"@,
        "text"@ != "audio"@,
        "text"@ != "document"@,
        "text"@ != "sticker"@,
        "text"@ != "reaction"@,
        "image"@ != "video"@,
        "image"@ != "audio"@,
        "image"@ != "document"@,
        "image"@ != "sticker"@,
        "image"@ != "reaction"@,
        "video"@ != "audio"@,
        "video"@ != "document"@,
        "video"@ != "sticker"@,
        "video"@ != "reaction"@,
        "audio"@ != "document"@,
        "audio"@ != "sticker"@,
        "audio"@ != "reaction"@,
        "document"@ != "sticker"@,
        "document"@ != "reaction"@,
        "sticker"@ != "reaction"@,
{
    reveal_strlit("text");
    reveal_strlit("image");
    reveal_strlit("video");
    reveal_strlit("audio");
    reveal_strlit("document");
    reveal_strlit("sticker");
    reveal_strlit("reaction");
    assert("text"@.len() != "image"@.len());
    assert("text"@ != "image"@);
    assert("text"@.len() != "video"@.len());
    assert("text"@ != "video"@);
    assert("text"@.len() != "audio"@.len());
    assert("text"@ != "audio"@);
    assert("text"@.len() != "document"@.len());
    assert("text"@ != "document"@);
    assert("text"@.len() != "sticker"@.len());
    assert("text"@ != "sticker"@);
    assert("text"@.len() != "reaction"@.len());
    assert("text"@ != "reaction"@);
    assert("image"@[0] != "video"@[0]);
    assert("image"@ != "video"@);
    assert("image"@[0] != "audio"@[0]);
    assert("image"@ != "audio"@);
    assert("image"@.len() != "document"@.len());
    assert("image"@ != "document"@);
    assert("image"@.len() != "sticker"@.len());
    assert("image"@ != "sticker"@);
    assert("image"@.len() != "reaction"@.len());
    assert("image"@ != "reaction"@);
    assert("video"@[0] != "audio"@[0]);
    assert("video"@ != "audio"@);
    assert("video"@.len() != "document"@.len());
    assert("video"@ != "document"@);
    assert("video"@.len() != "sticker"@.len());
    assert("video"@ != "sticker"@);
    assert("video"@.len() != "reaction"@.len());
    assert("video"@ != "reaction"@);
    assert("audio"@.len() != "document"@.len());
    assert("audio"@ != "document"@);
    assert("audio"@.len() != "sticker"@.len());
    assert("audio"@ != "sticker"@);
    assert("audio"@.len() != "reaction"@.len());
    assert("audio"@ != "reaction"@);
    assert("document"@.len() != "sticker"@.len());
    assert("document"@ != "sticker"@);
    assert("document"@[0] != "reaction"@[0]);
    assert("document"@ != "reaction"@);
    assert("sticker"@.len() != "reaction"@.len());
    assert("sticker"@ != "reaction"@);
}

proof fn lemma_mime_names_distinct()
    ensures
        "image/jpeg"@ != "image/png"@,
        "image/jpeg"@ != "image/webp"@,
        "image/jpeg"@ != "video/mp4"@,
        "image/jpeg"@ != "audio/ogg"@,
        "image/jpeg"@ != "audio/mpeg"@,
        "image/jpeg"@ != "application/pdf"@,
        "image/png"@ != "image/webp"@,
        "image/png"@ != "video/mp4"@,
        "image/png"@ != "audio/ogg"@,
        "image/png"@ != "audio/mpeg"@,
        "image/png"@ != "application/pdf"@,
        "image/webp"@ != "video/mp4"@,
        "image/webp"@ != "audio/ogg"@,
        "image/webp"@ != "audio/mpeg"@,
        "image/webp"@ != "application/pdf"@,
        "video/mp4"@ != "audio/ogg"@,
        "video/mp4"@ != "audio/mpeg"@,
        "video/mp4"@ != "application/pdf"@,
        "audio/ogg"@ != "audio/mpeg"@,
        "audio/ogg"@ != "application/pdf"@,
        "audio/mpeg"@ != "application/pdf"@,
{
    reveal_strlit("image/jpeg");
    reveal_strlit("image/png");
    reveal_strlit("image/webp");
    reveal_strlit("video/mp4");
    reveal_strlit("audio/ogg");
    reveal_strlit("audio/mpeg");
    reveal_strlit("application/pdf");
    assert("image/jpeg"@.len() != "image/png"@.len());
    assert("image/jpeg"@ != "image/png"@);
    assert("image/jpeg"@[6] != "image/webp"@[6]);
    assert("image/jpeg"@ != "image/webp"@);
    assert("image/jpeg"@.len() != "video/mp4"@.len());
    assert("image/jpeg"@ != "video/mp4"@);
    assert("image/jpeg"@.len() != "audio/ogg"@.len());
    assert("image/jpeg"@ != "audio/ogg"@);
    assert("image/jpeg"@[0] != "audio/mpeg"@[0]);
    assert("image/jpeg"@ != "audio/mpeg"@);
    assert("image/jpeg"@.len() != "application/pdf"@.len());
    assert("image/jpeg"@ != "application/pdf"@);
    assert("image/png"@.len() != "image/webp"@.len());
    assert("image/png"@ != "image/webp"@);
    assert("image/png"@[0] != "video/mp4"@[0]);
    assert("image/png"@ != "video/mp4"@);
    assert("image/png"@[0] != "audio/ogg"@[0]);
    assert("image/png"@ != "audio/ogg"@);
    assert("image/png"@.len() != "audio/mpeg"@.len());
    assert("image/png"@ != "audio/mpeg"@);
    assert("image/png"@.len() != "application/pdf"@.len());
    assert("image/png"@ != "application/pdf"@);
    assert("image/webp"@.len() != "video/mp4"@.len());
    assert("image/webp"@ != "video/mp4"@);
    assert("image/webp"@.len() != "audio/ogg"@.len());
    assert("image/webp"@ != "audio/ogg"@);
    assert("image/webp"@[0] != "audio/mpeg"@[0]);
    assert("image/webp"@ != "audio/mpeg"@);
    assert("image/webp"@.len() != "application/pdf"@.len());
    assert("image/webp"@ != "application/pdf"@);
    assert("video/mp4"@[0] != "audio/ogg"@[0]);
    assert("video/mp4"@ != "audio/ogg"@);
    assert("video/mp4"@.len() != "audio/mpeg"@.len());
    assert("video/mp4"@ != "audio/mpeg"@);
    assert("video/mp4"@.len() != "application/pdf"@.len());
    assert("video/mp4"@ != "application/pdf"@);
    assert("audio/ogg"@.len() != "audio/mpeg"@.len());
    assert("audio/ogg"@ != "audio/mpeg"@);
    assert("audio/ogg"@.len() != "application/pdf"@.len());
    assert("audio/ogg"@ != "application/pdf"@);
    assert("audio/mpeg"@.len() != "application/pdf"@.len());
    assert("audio/mpeg"@ != "application/pdf"@);
}

/// The kind of an inbound message follows its `type` text: `text`, `image`, `video`,
/// `audio`, `document`, `sticker` and `reaction` have kinds of their own; any other text is
/// `Unsupported` with that text, and a message without a type is `Unsupported` with empty
/// text.
pub proof fn lemma_kind_of_type(k: InboundMessageKind, kind: Option<Seq<char>>)
    requires
        kind_holds(k, kind),
    ensures
        kind == Some("text"@) ==> k == InboundMessageKind::Text,
        kind == Some("image"@) ==> k == InboundMessageKind::Image,
        kind == Some("video"@) ==> k == InboundMessageKind::Video,
        kind == Some("audio"@) ==> k == InboundMessageKind::Audio,
        kind == Some("document"@) ==> k == InboundMessageKind::Document,
        kind == Some("sticker"@) ==> k == InboundMessageKind::Sticker,
        kind == Some("reaction"@) ==> k == InboundMessageKind::Reaction,
        kind matches Some(t) ==> (t != "text"@ && t != "image"@ && t != "video"@ && t != "audio"@
            && t != "document"@ && t != "sticker"@ && t != "reaction"@ ==> (k matches InboundMessageKind::Unsupported(u) && u@ == t)),
        kind is None ==> (k matches InboundMessageKind::Unsupported(u) && u@.len() == 0),
{
    lemma_kind_names_distinct();
}

/// Media is stored as `image` for images and stickers, and under its own kind for video,
/// audio and documents; other kinds have no stored media type.
pub proof fn lemma_stored_media_types(kind: Option<Seq<char>>)
    ensures
        kind == Some("image"@) || kind == Some("sticker"@) ==> stored_media_type_spec(kind) == Some("image"@),
        kind == Some("video"@) ==> stored_media_type_spec(kind) == Some("video"@),
        kind == Some("audio"@) ==> stored_media_type_spec(kind) == Some("audio"@),
        kind == Some("document"@) ==> stored_media_type_spec(kind) == Some("document"@),
        !(kind == Some("image"@) || kind == Some("sticker"@) || kind == Some("video"@) || kind == Some(
            "audio"@,
        ) || kind == Some("document"@)) ==> stored_media_type_spec(kind) is None,
{
    lemma_kind_names_distinct();
}

/// A file name from a media payload: a non-empty `filename` text is used as it is; otherwise
/// the name is `image`, `video`, `audio` or `document` (after the kind, stickers counting as
/// images and any other kind as a document) followed by the extension of a known MIME type.
pub proof fn lemma_filename_rule(payload: Option<Json>, kind: Seq<char>)
    ensures
        string_value_spec(get_spec(payload, "filename"@)) matches Some(f) ==> (f.len() > 0
            ==> filename_spec(payload, kind) == f),
        !(string_value_spec(get_spec(payload, "filename"@)) matches Some(f) && f.len() > 0)
            ==> filename_spec(payload, kind) == (if kind == "image"@ || kind == "sticker"@ {
                "image"@
            } else if kind == "video"@ {
                "video"@
            } else if kind == "audio"@ {
                "audio"@
            } else {
                "document"@
            }) + extension_spec(string_value_spec(get_spec(payload, "mime_type"@))),
        extension_spec(Some("image/jpeg"@)) == ".jpg"@,
        extension_spec(Some("image/png"@)) == ".png"@,
        extension_spec(Some("image/webp"@)) == ".webp"@,
        extension_spec(Some("video/mp4"@)) == ".mp4"@,
        extension_spec(Some("audio/ogg"@)) == ".ogg"@,
        extension_spec(Some("audio/mpeg"@)) == ".mp3"@,
        extension_spec(Some("application/pdf"@)) == ".pdf"@,
        extension_spec(None) == Seq::<char>::empty(),
        forall|m: Seq<char>|
            m != "image/jpeg"@ && m != "image/png"@ && m != "image/webp"@ && m != "video/mp4"@ && m
                != "audio/ogg"@ && m != "audio/mpeg"@ && m != "application/pdf"@ ==> #[trigger] extension_spec(
                Some(m),
            ) == Seq::<char>::empty(),
{
    lemma_mime_names_distinct();
}

/// The media of a parsed message: for a media kind (image, sticker, video, audio, document)
/// whose payload object, under the member named by the kind, has an `id` text, the media has
/// that id, the stored media type, the message's content as caption, the payload's
/// `mime_type` text and the payload's file name; otherwise there is no media.
pub proof fn lemma_media_fields(m: InboundMessage, phone: Seq<char>, msg: Json, value: Json, raw: Json)
    requires
        inbound_message_holds(m, phone, msg, value, raw),
    ensures
        match member_text(msg, "type"@) {
            Some(t) => match object_spec(get_spec(Some(msg), t)) {
                Some(p) => if stored_media_type_spec(Some(t)) is Some && member_text(p, "id"@) is Some {
                    m.media matches Some(x) && Some(x.media_type@) == stored_media_type_spec(Some(t))
                        && Some(x.media_id@) == member_text(p, "id"@) && opt_text(x.caption) == opt_text(
                        m.content,
                    ) && opt_text(x.mime_type) == member_text(p, "mime_type"@) && x.filename@
                        == filename_spec(Some(p), t)
                } else {
                    m.media is None
                },
                None => m.media is None,
            },
            None => m.media is None,
        },
{
}

/// The preview of a parsed message: its non-empty content when it has one; otherwise
/// `[Image]` for images and stickers, `[Video]`, `[Audio]`, the file name of the document
/// payload for documents, the (empty) text for text messages, `[<type> message]` for any
/// other type, and `[Unsupported message]` without a type.
pub proof fn lemma_preview_rule(m: InboundMessage, phone: Seq<char>, msg: Json, value: Json, raw: Json)
    requires
        inbound_message_holds(m, phone, msg, value, raw),
    ensures
        m.content matches Some(c) ==> (c@.len() > 0 ==> m.preview@ == c@),
        !(m.content matches Some(c) && c@.len() > 0) ==> match member_text(msg, "type"@) {
            Some(t) => if t == "image"@ || t == "sticker"@ {
                m.preview@ == "[Image]"@
            } else if t == "video"@ {
                m.preview@ == "[Video]"@
            } else if t == "audio"@ {
                m.preview@ == "[Audio]"@
            } else if t == "document"@ {
                m.preview@ == filename_spec(object_spec(get_spec(Some(msg), "document"@)), "document"@)
            } else if t == "text"@ {
                m.preview@.len() == 0
            } else {
                m.preview@ == "["@ + t + " message]"@
            },
            None => m.preview@ == "[Unsupported message]"@,
        },
{
    reveal_strlit("text");
    reveal_strlit("image");
    reveal_strlit("sticker");
    reveal_strlit("video");
    reveal_strlit("audio");
    reveal_strlit("document");
}

/// The reaction of a parsed message: when its `reaction` member is an object with a
/// `message_id` text, that text is the target and the `emoji` text the emoji; otherwise
/// there is no reaction.
pub proof fn lemma_reaction_fields(m: InboundMessage, phone: Seq<char>, msg: Json, value: Json, raw: Json)
    requires
        inbound_message_holds(m, phone, msg, value, raw),
    ensures
        match object_spec(get_spec(Some(msg), "reaction"@)) {
            Some(o) => match member_text(o, "message_id"@) {
                Some(t) => m.reaction matches Some(x) && x.target_message_id@ == t && opt_text(x.emoji)
                    == member_text(o, "emoji"@),
                None => m.reaction is None,
            },
            None => m.reaction is None,
        },
{
}

} // verus!
