//! Outbound message payloads and their Cloud API JSON shape.
use vstd::prelude::*;

use crate::error::WhatsAppApiError;
use crate::json::{
    entry_value, get_spec, json_string, lemma_entry_value_append, lemma_entry_value_single, members_model,
    object_from, push_member, Json, JsonValue,
};
use crate::text::opt_text;
use vstd::std_specs::convert::FromSpecImpl;

verus! {

/// The longest text body the Cloud API accepts, in characters.
pub open spec fn max_text_chars() -> nat {
    4096
}

/// A text message.
#[derive(Debug, Clone, PartialEq, Eq)]
pub struct TextMessage {
    pub body: String,
    pub preview_url: Option<bool>,
}

/// Media given by an uploaded media id or by a link.
#[derive(Debug, Clone, PartialEq, Eq)]
pub enum MediaReference {
    Id(String),
    Link(String),
}

#[derive(Debug, Clone, PartialEq, Eq)]
pub struct ImageMessage {
    pub reference: MediaReference,
    pub caption: Option<String>,
}

#[derive(Debug, Clone, PartialEq, Eq)]
pub struct VideoMessage {
    pub reference: MediaReference,
    pub caption: Option<String>,
}

#[derive(Debug, Clone, PartialEq, Eq)]
pub struct AudioMessage {
    pub reference: MediaReference,
    pub voice: Option<bool>,
}

#[derive(Debug, Clone, PartialEq, Eq)]
pub struct DocumentMessage {
    pub reference: MediaReference,
    pub caption: Option<String>,
    pub filename: Option<String>,
}

/// Any outbound message.
#[derive(Debug, Clone, PartialEq, Eq)]
pub enum WhatsAppMessage {
    Text(TextMessage),
    Image(ImageMessage),
    Video(VideoMessage),
    Audio(AudioMessage),
    Document(DocumentMessage),
}

/// Whether a message goes to one person or to a group.
#[derive(Debug, Clone, Copy, PartialEq, Eq)]
pub enum RecipientType {
    Individual,
    Group,
}

/// The message that a reply refers to.
#[derive(Debug, Clone, PartialEq, Eq)]
pub struct MessageContext {
    pub message_id: String,
}

/// A complete send-message request.
#[derive(Debug, Clone, PartialEq, Eq)]
pub struct SendMessageRequest {
    pub recipient_type: RecipientType,
    pub to: Option<String>,
    pub recipient: Option<String>,
    pub message: WhatsAppMessage,
    pub context: Option<MessageContext>,
    pub biz_opaque_callback_data: Option<String>,
}

/// A member `key` with string value `v`, when there is one.
pub open spec fn opt_str_member(key: Seq<char>, v: Option<Seq<char>>) -> Seq<(Seq<char>, Json)> {
    match v {
        Some(t) => seq![(key, Json::Str(t))],
        None => Seq::empty(),
    }
}

/// A member `key` with boolean value `v`, when there is one.
pub open spec fn opt_bool_member(key: Seq<char>, v: Option<bool>) -> Seq<(Seq<char>, Json)> {
    match v {
        Some(b) => seq![(key, Json::Bool(b))],
        None => Seq::empty(),
    }
}

/// The member that names media: `id` or `link`.
pub open spec fn reference_members(r: MediaReference) -> Seq<(Seq<char>, Json)> {
    match r {
        MediaReference::Id(id) => seq![("id"@, Json::Str(id@))],
        MediaReference::Link(link) => seq![("link"@, Json::Str(link@))],
    }
}

pub open spec fn text_json(m: TextMessage) -> Json {
    Json::Object(seq![("body"@, Json::Str(m.body@))] + opt_bool_member("preview_url"@, m.preview_url))
}

pub open spec fn image_json(m: ImageMessage) -> Json {
    Json::Object(reference_members(m.reference) + opt_str_member("caption"@, opt_text(m.caption)))
}

pub open spec fn video_json(m: VideoMessage) -> Json {
    Json::Object(reference_members(m.reference) + opt_str_member("caption"@, opt_text(m.caption)))
}

pub open spec fn audio_json(m: AudioMessage) -> Json {
    Json::Object(reference_members(m.reference) + opt_bool_member("voice"@, m.voice))
}

pub open spec fn document_json(m: DocumentMessage) -> Json {
    Json::Object(
        reference_members(m.reference) + opt_str_member("caption"@, opt_text(m.caption))
            + opt_str_member("filename"@, opt_text(m.filename)),
    )
}

/// The JSON object of a message's own payload.
pub open spec fn message_json(m: WhatsAppMessage) -> Json {
    match m {
        WhatsAppMessage::Text(t) => text_json(t),
        WhatsAppMessage::Image(i) => image_json(i),
        WhatsAppMessage::Video(v) => video_json(v),
        WhatsAppMessage::Audio(a) => audio_json(a),
        WhatsAppMessage::Document(d) => document_json(d),
    }
}

/// The Cloud API type name of a message.
pub open spec fn message_type_spec(m: WhatsAppMessage) -> Seq<char> {
    match m {
        WhatsAppMessage::Text(_) => "text"@,
        WhatsAppMessage::Image(_) => "image"@,
        WhatsAppMessage::Video(_) => "video"@,
        WhatsAppMessage::Audio(_) => "audio"@,
        WhatsAppMessage::Document(_) => "document"@,
    }
}

pub open spec fn recipient_type_text(t: RecipientType) -> Seq<char> {
    match t {
        RecipientType::Individual => "individual"@,
        RecipientType::Group => "group"@,
    }
}

/// The JSON body of a send-message request; `None` when it has neither `to` nor `recipient`.
pub open spec fn send_request_json(r: SendMessageRequest) -> Option<Json> {
    if r.to is None && r.recipient is None {
        None
    } else {
        let mt = message_type_spec(r.message);
        Some(
            Json::Object(
                seq![
                    ("messaging_product"@, Json::Str("whatsapp"@)),
                    ("recipient_type"@, Json::Str(recipient_type_text(r.recipient_type))),
                ] + opt_str_member("to"@, opt_text(r.to)) + opt_str_member(
                    "recipient"@,
                    opt_text(r.recipient),
                ) + seq![("type"@, Json::Str(mt)), (mt, message_json(r.message))] + match r.context {
                    Some(c) => seq![
                        ("context"@, Json::Object(seq![("message_id"@, Json::Str(c.message_id@))])),
                    ],
                    None => Seq::empty(),
                } + opt_str_member("biz_opaque_callback_data"@, opt_text(r.biz_opaque_callback_data)),
            ),
        )
    }
}

fn push_opt_str(members: &mut Vec<(String, JsonValue)>, key: &str, v: &Option<String>)
    ensures
        members_model(final(members)@) == members_model(old(members)@) + opt_str_member(
            key@,
            opt_text(*v),
        ),
{
    match v {
        Some(t) => {
            push_member(members, key, json_string(t.as_str()));
        },
        None => {},
    }
    assert(members_model(members@) =~= members_model(old(members)@) + opt_str_member(
        key@,
        opt_text(*v),
    ));
}

fn push_opt_bool(members: &mut Vec<(String, JsonValue)>, key: &str, v: Option<bool>)
    ensures
        members_model(final(members)@) == members_model(old(members)@) + opt_bool_member(key@, v),
{
    match v {
        Some(b) => {
            push_member(members, key, JsonValue::Bool(b));
        },
        None => {},
    }
    assert(members_model(members@) =~= members_model(old(members)@) + opt_bool_member(key@, v));
}

impl TextMessage {
    /// A text message; bodies longer than 4096 characters are refused.
    pub fn new(body: &str) -> (r: Result<Self, WhatsAppApiError>)
        ensures
            body@.len() > max_text_chars() ==> r == Err::<TextMessage, WhatsAppApiError>(
                WhatsAppApiError::Validation {
                    field: "text.body",
                    message: "must be 4096 characters or less",
                },
            ),
            body@.len() <= max_text_chars() ==> (r matches Ok(m) && m.body@ == body@
                && m.preview_url is None),
    {
        if body.unicode_len() > 4096 {
            return Err(
                WhatsAppApiError::Validation {
                    field: "text.body",
                    message: "must be 4096 characters or less",
                },
            );
        }
        Ok(TextMessage { body: String::from_str(body), preview_url: None })
    }

    pub fn with_preview_url(self, preview_url: bool) -> (r: Self)
        ensures
            r == (TextMessage { preview_url: Some(preview_url), ..self }),
    {
        TextMessage { preview_url: Some(preview_url), ..self }
    }

    /// The JSON payload of this message.
    pub fn to_json(&self) -> (r: JsonValue)
        ensures
            r@ == text_json(*self),
    {
        let mut members: Vec<(String, JsonValue)> = Vec::new();
        assert(members_model(members@) =~= Seq::<(Seq<char>, Json)>::empty());
        push_member(&mut members, "body", json_string(self.body.as_str()));
        push_opt_bool(&mut members, "preview_url", self.preview_url);
        let r = object_from(members);
        assert(r@ =~= text_json(*self));
        r
    }
}

impl MediaReference {
    pub fn id(id: &str) -> (r: Self)
        ensures
            r matches MediaReference::Id(x) && x@ == id@,
    {
        MediaReference::Id(String::from_str(id))
    }

    pub fn link(link: &str) -> (r: Self)
        ensures
            r matches MediaReference::Link(x) && x@ == link@,
    {
        MediaReference::Link(String::from_str(link))
    }

    fn push_members(&self, members: &mut Vec<(String, JsonValue)>)
        ensures
            members_model(final(members)@) == members_model(old(members)@) + reference_members(*self),
    {
        match self {
            MediaReference::Id(id) => push_member(members, "id", json_string(id.as_str())),
            MediaReference::Link(link) => push_member(members, "link", json_string(link.as_str())),
        }
        assert(members_model(members@) =~= members_model(old(members)@) + reference_members(*self));
    }

    /// The JSON object of this reference: `{"id": ...}` or `{"link": ...}`.
    pub fn to_json(&self) -> (r: JsonValue)
        ensures
            r@ == Json::Object(reference_members(*self)),
    {
        let mut members: Vec<(String, JsonValue)> = Vec::new();
        assert(members_model(members@) =~= Seq::<(Seq<char>, Json)>::empty());
        self.push_members(&mut members);
        let r = object_from(members);
        assert(r@ =~= Json::Object(reference_members(*self)));
        r
    }
}

impl ImageMessage {
    pub fn id(id: &str) -> (r: Self)
        ensures
            r.reference matches MediaReference::Id(x) && x@ == id@,
            r.caption is None,
    {
        ImageMessage { reference: MediaReference::id(id), caption: None }
    }

    pub fn link(link: &str) -> (r: Self)
        ensures
            r.reference matches MediaReference::Link(x) && x@ == link@,
            r.caption is None,
    {
        ImageMessage { reference: MediaReference::link(link), caption: None }
    }

    pub fn with_caption(self, caption: &str) -> (r: Self)
        ensures
            r.reference == self.reference,
            opt_text(r.caption) == Some(caption@),
    {
        ImageMessage { caption: Some(String::from_str(caption)), ..self }
    }

    pub fn to_json(&self) -> (r: JsonValue)
        ensures
            r@ == image_json(*self),
    {
        let mut members: Vec<(String, JsonValue)> = Vec::new();
        assert(members_model(members@) =~= Seq::<(Seq<char>, Json)>::empty());
        self.reference.push_members(&mut members);
        push_opt_str(&mut members, "caption", &self.caption);
        let r = object_from(members);
        assert(r@ =~= image_json(*self));
        r
    }
}

impl VideoMessage {
    pub fn id(id: &str) -> (r: Self)
        ensures
            r.reference matches MediaReference::Id(x) && x@ == id@,
            r.caption is None,
    {
        VideoMessage { reference: MediaReference::id(id), caption: None }
    }

    pub fn with_caption(self, caption: &str) -> (r: Self)
        ensures
            r.reference == self.reference,
            opt_text(r.caption) == Some(caption@),
    {
        VideoMessage { caption: Some(String::from_str(caption)), ..self }
    }

    pub fn to_json(&self) -> (r: JsonValue)
        ensures
            r@ == video_json(*self),
    {
        let mut members: Vec<(String, JsonValue)> = Vec::new();
        assert(members_model(members@) =~= Seq::<(Seq<char>, Json)>::empty());
        self.reference.push_members(&mut members);
        push_opt_str(&mut members, "caption", &self.caption);
        let r = object_from(members);
        assert(r@ =~= video_json(*self));
        r
    }
}

impl AudioMessage {
    pub fn id(id: &str) -> (r: Self)
        ensures
            r.reference matches MediaReference::Id(x) && x@ == id@,
            r.voice is None,
    {
        AudioMessage { reference: MediaReference::id(id), voice: None }
    }

    pub fn with_voice(self, voice: bool) -> (r: Self)
        ensures
            r == (AudioMessage { voice: Some(voice), ..self }),
    {
        AudioMessage { voice: Some(voice), ..self }
    }

    pub fn to_json(&self) -> (r: JsonValue)
        ensures
            r@ == audio_json(*self),
    {
        let mut members: Vec<(String, JsonValue)> = Vec::new();
        assert(members_model(members@) =~= Seq::<(Seq<char>, Json)>::empty());
        self.reference.push_members(&mut members);
        push_opt_bool(&mut members, "voice", self.voice);
        let r = object_from(members);
        assert(r@ =~= audio_json(*self));
        r
    }
}

impl DocumentMessage {
    pub fn id(id: &str) -> (r: Self)
        ensures
            r.reference matches MediaReference::Id(x) && x@ == id@,
            r.caption is None,
            r.filename is None,
    {
        DocumentMessage { reference: MediaReference::id(id), caption: None, filename: None }
    }

    pub fn with_caption(self, caption: &str) -> (r: Self)
        ensures
            r.reference == self.reference,
            r.filename == self.filename,
            opt_text(r.caption) == Some(caption@),
    {
        DocumentMessage { caption: Some(String::from_str(caption)), ..self }
    }

    pub fn with_filename(self, filename: &str) -> (r: Self)
        ensures
            r.reference == self.reference,
            r.caption == self.caption,
            opt_text(r.filename) == Some(filename@),
    {
        DocumentMessage { filename: Some(String::from_str(filename)), ..self }
    }

    pub fn to_json(&self) -> (r: JsonValue)
        ensures
            r@ == document_json(*self),
    {
        let mut members: Vec<(String, JsonValue)> = Vec::new();
        assert(members_model(members@) =~= Seq::<(Seq<char>, Json)>::empty());
        self.reference.push_members(&mut members);
        push_opt_str(&mut members, "caption", &self.caption);
        push_opt_str(&mut members, "filename", &self.filename);
        let r = object_from(members);
        assert(r@ =~= document_json(*self));
        r
    }
}

impl WhatsAppMessage {
    /// A text message; bodies longer than 4096 characters are refused.
    pub fn text(body: &str) -> (r: Result<Self, WhatsAppApiError>)
        ensures
            body@.len() > max_text_chars() ==> r == Err::<WhatsAppMessage, WhatsAppApiError>(
                WhatsAppApiError::Validation {
                    field: "text.body",
                    message: "must be 4096 characters or less",
                },
            ),
            body@.len() <= max_text_chars() ==> (r matches Ok(WhatsAppMessage::Text(m)) && m.body@
                == body@ && m.preview_url is None),
    {
        let m = TextMessage::new(body)?;
        Ok(WhatsAppMessage::Text(m))
    }

    /// The Cloud API type name: `text`, `image`, `video`, `audio` or `document`.
    pub fn message_type(&self) -> (r: &'static str)
        ensures
            r@ == message_type_spec(*self),
    {
        match self {
            WhatsAppMessage::Text(_) => "text",
            WhatsAppMessage::Image(_) => "image",
            WhatsAppMessage::Video(_) => "video",
            WhatsAppMessage::Audio(_) => "audio",
            WhatsAppMessage::Document(_) => "document",
        }
    }

    /// The JSON payload of this message.
    pub fn to_json(&self) -> (r: JsonValue)
        ensures
            r@ == message_json(*self),
    {
        match self {
            WhatsAppMessage::Text(m) => m.to_json(),
            WhatsAppMessage::Image(m) => m.to_json(),
            WhatsAppMessage::Video(m) => m.to_json(),
            WhatsAppMessage::Audio(m) => m.to_json(),
            WhatsAppMessage::Document(m) => m.to_json(),
        }
    }
}

impl From<TextMessage> for WhatsAppMessage {
    fn from(message: TextMessage) -> (r: Self) {
        WhatsAppMessage::Text(message)
    }
}

impl FromSpecImpl<TextMessage> for WhatsAppMessage {
    open spec fn obeys_from_spec() -> bool {
        true
    }

    open spec fn from_spec(message: TextMessage) -> WhatsAppMessage {
        WhatsAppMessage::Text(message)
    }
}

impl From<ImageMessage> for WhatsAppMessage {
    fn from(message: ImageMessage) -> (r: Self) {
        WhatsAppMessage::Image(message)
    }
}

impl FromSpecImpl<ImageMessage> for WhatsAppMessage {
    open spec fn obeys_from_spec() -> bool {
        true
    }

    open spec fn from_spec(message: ImageMessage) -> WhatsAppMessage {
        WhatsAppMessage::Image(message)
    }
}

impl From<VideoMessage> for WhatsAppMessage {
    fn from(message: VideoMessage) -> (r: Self) {
        WhatsAppMessage::Video(message)
    }
}

impl FromSpecImpl<VideoMessage> for WhatsAppMessage {
    open spec fn obeys_from_spec() -> bool {
        true
    }

    open spec fn from_spec(message: VideoMessage) -> WhatsAppMessage {
        WhatsAppMessage::Video(message)
    }
}

impl From<AudioMessage> for WhatsAppMessage {
    fn from(message: AudioMessage) -> (r: Self) {
        WhatsAppMessage::Audio(message)
    }
}

impl FromSpecImpl<AudioMessage> for WhatsAppMessage {
    open spec fn obeys_from_spec() -> bool {
        true
    }

    open spec fn from_spec(message: AudioMessage) -> WhatsAppMessage {
        WhatsAppMessage::Audio(message)
    }
}

impl From<DocumentMessage> for WhatsAppMessage {
    fn from(message: DocumentMessage) -> (r: Self) {
        WhatsAppMessage::Document(message)
    }
}

impl FromSpecImpl<DocumentMessage> for WhatsAppMessage {
    open spec fn obeys_from_spec() -> bool {
        true
    }

    open spec fn from_spec(message: DocumentMessage) -> WhatsAppMessage {
        WhatsAppMessage::Document(message)
    }
}

impl RecipientType {
    pub fn as_str(self) -> (r: &'static str)
        ensures
            r@ == recipient_type_text(self),
    {
        match self {
            RecipientType::Individual => "individual",
            RecipientType::Group => "group",
        }
    }
}

impl SendMessageRequest {
    pub fn new(
        recipient_type: RecipientType,
        to: Option<String>,
        recipient: Option<String>,
        message: WhatsAppMessage,
        context: Option<MessageContext>,
        biz_opaque_callback_data: Option<String>,
    ) -> (r: Self)
        ensures
            r == (SendMessageRequest {
                recipient_type,
                to,
                recipient,
                message,
                context,
                biz_opaque_callback_data,
            }),
    {
        SendMessageRequest { recipient_type, to, recipient, message, context, biz_opaque_callback_data }
    }

    /// The JSON body of this request; `None` when it has neither `to` nor `recipient`.
    pub fn to_json(&self) -> (r: Option<JsonValue>)
        ensures
            match send_request_json(*self) {
                Some(j) => r matches Some(v) && v@ == j,
                None => r is None,
            },
    {
        if self.to.is_none() && self.recipient.is_none() {
            return None;
        }
        let mut members: Vec<(String, JsonValue)> = Vec::new();
        assert(members_model(members@) =~= Seq::<(Seq<char>, Json)>::empty());
        push_member(&mut members, "messaging_product", json_string("whatsapp"));
        push_member(&mut members, "recipient_type", json_string(self.recipient_type.as_str()));
        push_opt_str(&mut members, "to", &self.to);
        push_opt_str(&mut members, "recipient", &self.recipient);
        let message_type = self.message.message_type();
        push_member(&mut members, "type", json_string(message_type));
        push_member(&mut members, message_type, self.message.to_json());
        let ghost before_context = members_model(members@);
        let ghost ctx_part: Seq<(Seq<char>, Json)> = match &self.context {
            Some(c) => seq![
                ("context"@, Json::Object(seq![("message_id"@, Json::Str(c.message_id@))])),
            ],
            None => Seq::empty(),
        };
        match &self.context {
            Some(c) => {
                let mut inner: Vec<(String, JsonValue)> = Vec::new();
                assert(members_model(inner@) =~= Seq::<(Seq<char>, Json)>::empty());
                push_member(&mut inner, "message_id", json_string(c.message_id.as_str()));
                let context = object_from(inner);
                assert(context@ =~= Json::Object(seq![("message_id"@, Json::Str(c.message_id@))]));
                push_member(&mut members, "context", context);
                assert(members_model(members@) =~= before_context + ctx_part);
            },
            None => {
                assert(members_model(members@) =~= before_context + ctx_part);
            },
        }
        push_opt_str(&mut members, "biz_opaque_callback_data", &self.biz_opaque_callback_data);
        let r = object_from(members);
        let ghost mt = message_type_spec(self.message);
        assert(members_model(members@) =~= seq![
            ("messaging_product"@, Json::Str("whatsapp"@)),
            ("recipient_type"@, Json::Str(recipient_type_text(self.recipient_type))),
        ] + opt_str_member("to"@, opt_text(self.to)) + opt_str_member(
            "recipient"@,
            opt_text(self.recipient),
        ) + seq![("type"@, Json::Str(mt)), (mt, message_json(self.message))] + ctx_part
            + opt_str_member("biz_opaque_callback_data"@, opt_text(self.biz_opaque_callback_data)));
        assert(r@ =~= send_request_json(*self)->0);
        Some(r)
    }
}

/// The JSON of a text message holds its body as a string under `body`, and its link
/// preview choice, when it has one, as that boolean under `preview_url`; without a choice it
/// has no `preview_url` member. The same holds of it as a `WhatsAppMessage`.
pub proof fn lemma_text_json_members(m: TextMessage)
    ensures
        get_spec(Some(text_json(m)), "body"@) == Some(Json::Str(m.body@)),
        get_spec(Some(text_json(m)), "preview_url"@) == match m.preview_url {
            Some(b) => Some(Json::Bool(b)),
            None => None,
        },
        get_spec(Some(message_json(WhatsAppMessage::Text(m))), "body"@) == Some(Json::Str(m.body@)),
        get_spec(Some(message_json(WhatsAppMessage::Text(m))), "preview_url"@) == match m.preview_url {
            Some(b) => Some(Json::Bool(b)),
            None => None,
        },
{
    reveal_strlit("body");
    reveal_strlit("preview_url");
    assert("body"@.len() != "preview_url"@.len());
    let a = seq![("body"@, Json::Str(m.body@))];
    let b = opt_bool_member("preview_url"@, m.preview_url);
    lemma_entry_value_append(a, b, "body"@);
    lemma_entry_value_append(a, b, "preview_url"@);
    lemma_entry_value_single("body"@, Json::Str(m.body@), "body"@);
    lemma_entry_value_single("body"@, Json::Str(m.body@), "preview_url"@);
    if let Some(v) = m.preview_url {
        lemma_entry_value_single("preview_url"@, Json::Bool(v), "body"@);
        lemma_entry_value_single("preview_url"@, Json::Bool(v), "preview_url"@);
    }
}

/// The member under `id` and `link` that names media: the id of a reference by id, the
/// URL of a reference by link.
pub open spec fn reference_lookup(r: MediaReference, key: Seq<char>) -> Option<Json> {
    match r {
        MediaReference::Id(x) => if key == "id"@ {
            Some(Json::Str(x@))
        } else {
            None
        },
        MediaReference::Link(x) => if key == "link"@ {
            Some(Json::Str(x@))
        } else {
            None
        },
    }
}

/// An optional text as an optional JSON string.
pub open spec fn opt_json_str(o: Option<String>) -> Option<Json> {
    match o {
        Some(t) => Some(Json::Str(t@)),
        None => None,
    }
}

proof fn lemma_media_keys_distinct()
    ensures
        "id"@ != "link"@,
        "id"@ != "caption"@,
        "id"@ != "voice"@,
        "id"@ != "filename"@,
        "link"@ != "caption"@,
        "link"@ != "voice"@,
        "link"@ != "filename"@,
        "caption"@ != "filename"@,
{
    reveal_strlit("id");
    reveal_strlit("link");
    reveal_strlit("caption");
    reveal_strlit("voice");
    reveal_strlit("filename");
    assert("id"@.len() != "link"@.len());
    assert("id"@.len() != "caption"@.len());
    assert("id"@.len() != "voice"@.len());
    assert("id"@.len() != "filename"@.len());
    assert("link"@.len() != "caption"@.len());
    assert("link"@.len() != "voice"@.len());
    assert("link"@.len() != "filename"@.len());
    assert("caption"@.len() != "filename"@.len());
}

proof fn lemma_reference_lookup(r: MediaReference, key: Seq<char>)
    ensures
        entry_value(reference_members(r), key) == reference_lookup(r, key),
{
    match r {
        MediaReference::Id(x) => lemma_entry_value_single("id"@, Json::Str(x@), key),
        MediaReference::Link(x) => lemma_entry_value_single("link"@, Json::Str(x@), key),
    }
}

proof fn lemma_opt_member_lookup(key: Seq<char>, v: Option<Seq<char>>, k: Seq<char>)
    ensures
        entry_value(opt_str_member(key, v), k) == if k == key {
            match v {
                Some(t) => Some(Json::Str(t)),
                None => None,
            }
        } else {
            None
        },
{
    if let Some(t) = v {
        lemma_entry_value_single(key, Json::Str(t), k);
    }
}

proof fn lemma_opt_bool_lookup(key: Seq<char>, v: Option<bool>, k: Seq<char>)
    ensures
        entry_value(opt_bool_member(key, v), k) == if k == key {
            match v {
                Some(b) => Some(Json::Bool(b)),
                None => None,
            }
        } else {
            None
        },
{
    if let Some(b) = v {
        lemma_entry_value_single(key, Json::Bool(b), k);
    }
}

/// The JSON of image and video messages names the media by `id` or `link` and holds the
/// caption, when there is one, under `caption`.
pub proof fn lemma_image_video_json_members(i: ImageMessage, v: VideoMessage)
    ensures
        get_spec(Some(image_json(i)), "id"@) == reference_lookup(i.reference, "id"@),
        get_spec(Some(image_json(i)), "link"@) == reference_lookup(i.reference, "link"@),
        get_spec(Some(image_json(i)), "caption"@) == opt_json_str(i.caption),
        get_spec(Some(video_json(v)), "id"@) == reference_lookup(v.reference, "id"@),
        get_spec(Some(video_json(v)), "link"@) == reference_lookup(v.reference, "link"@),
        get_spec(Some(video_json(v)), "caption"@) == opt_json_str(v.caption),
{
    lemma_media_keys_distinct();
    lemma_caption_members(i.reference, i.caption, "id"@);
    lemma_caption_members(i.reference, i.caption, "link"@);
    lemma_caption_members(i.reference, i.caption, "caption"@);
    lemma_caption_members(v.reference, v.caption, "id"@);
    lemma_caption_members(v.reference, v.caption, "link"@);
    lemma_caption_members(v.reference, v.caption, "caption"@);
}

proof fn lemma_caption_members(r: MediaReference, caption: Option<String>, k: Seq<char>)
    ensures
        entry_value(reference_members(r) + opt_str_member("caption"@, opt_text(caption)), k) == if k
            == "caption"@ {
            opt_json_str(caption)
        } else {
            reference_lookup(r, k)
        },
{
    lemma_media_keys_distinct();
    lemma_entry_value_append(reference_members(r), opt_str_member("caption"@, opt_text(caption)), k);
    lemma_reference_lookup(r, k);
    lemma_opt_member_lookup("caption"@, opt_text(caption), k);
}

/// The JSON of an audio message names the media by `id` or `link` and holds the voice flag,
/// when there is one, under `voice`.
pub proof fn lemma_audio_json_members(a: AudioMessage)
    ensures
        get_spec(Some(audio_json(a)), "id"@) == reference_lookup(a.reference, "id"@),
        get_spec(Some(audio_json(a)), "link"@) == reference_lookup(a.reference, "link"@),
        get_spec(Some(audio_json(a)), "voice"@) == match a.voice {
            Some(b) => Some(Json::Bool(b)),
            None => None,
        },
{
    lemma_media_keys_distinct();
    reveal_strlit("voice");
    reveal_strlit("id");
    reveal_strlit("link");
    let tail = opt_bool_member("voice"@, a.voice);
    lemma_entry_value_append(reference_members(a.reference), tail, "id"@);
    lemma_entry_value_append(reference_members(a.reference), tail, "link"@);
    lemma_entry_value_append(reference_members(a.reference), tail, "voice"@);
    lemma_reference_lookup(a.reference, "id"@);
    lemma_reference_lookup(a.reference, "link"@);
    lemma_reference_lookup(a.reference, "voice"@);
    lemma_opt_bool_lookup("voice"@, a.voice, "id"@);
    lemma_opt_bool_lookup("voice"@, a.voice, "link"@);
    lemma_opt_bool_lookup("voice"@, a.voice, "voice"@);
}

/// The JSON of a document message names the media by `id` or `link` and holds the caption
/// and the file name, when there are, under `caption` and `filename`.
pub proof fn lemma_document_json_members(d: DocumentMessage)
    ensures
        get_spec(Some(document_json(d)), "id"@) == reference_lookup(d.reference, "id"@),
        get_spec(Some(document_json(d)), "link"@) == reference_lookup(d.reference, "link"@),
        get_spec(Some(document_json(d)), "caption"@) == opt_json_str(d.caption),
        get_spec(Some(document_json(d)), "filename"@) == opt_json_str(d.filename),
{
    lemma_media_keys_distinct();
    let a = reference_members(d.reference);
    let b = opt_str_member("caption"@, opt_text(d.caption));
    let f = opt_str_member("filename"@, opt_text(d.filename));
    let keys = seq!["id"@, "link"@, "caption"@, "filename"@];
    assert forall|j: int| 0 <= j < 4 implies get_spec(Some(document_json(d)), #[trigger] keys[j]) == if keys[j] == "caption"@ {
        opt_json_str(d.caption)
    } else if keys[j] == "filename"@ {
        opt_json_str(d.filename)
    } else {
        reference_lookup(d.reference, keys[j])
    } by {
        let k = keys[j];
        lemma_entry_value_append(a + b, f, k);
        lemma_entry_value_append(a, b, k);
        lemma_reference_lookup(d.reference, k);
        lemma_opt_member_lookup("caption"@, opt_text(d.caption), k);
        lemma_opt_member_lookup("filename"@, opt_text(d.filename), k);
    }
    assert(keys[0] == "id"@ && keys[1] == "link"@ && keys[2] == "caption"@ && keys[3] == "filename"@);
}

/// The Cloud API type names of messages and recipient types.
pub proof fn lemma_type_names(m: WhatsAppMessage, t: RecipientType)
    ensures
        m is Text ==> message_type_spec(m) == "text"@,
        m is Image ==> message_type_spec(m) == "image"@,
        m is Video ==> message_type_spec(m) == "video"@,
        m is Audio ==> message_type_spec(m) == "audio"@,
        m is Document ==> message_type_spec(m) == "document"@,
        t is Individual ==> recipient_type_text(t) == "individual"@,
        t is Group ==> recipient_type_text(t) == "group"@,
{
}

} // verus!
