//! Descriptions of Graph API requests for a configured phone number: send a message,
//! upload media, retrieve media metadata.
use vstd::prelude::*;

use crate::config::{
    bearer_spec, debug_str, debug_str_spec, graph_url_spec, validate_spec, WhatsAppApiConfig,
};
use crate::error::WhatsAppApiError;
use crate::json::{
    entry_value, get_spec, json_debug, json_string, lemma_entry_value_append,
    lemma_entry_value_single, members_model, object_from, push_member, Json, JsonValue,
};
use crate::media::{normalize_mime_spec, normalize_mime_type};
use crate::messages::{
    lemma_text_json_members, message_json, message_type_spec, opt_str_member, recipient_type_text, send_request_json, RecipientType,
    SendMessageRequest, TextMessage, WhatsAppMessage,
};
use crate::recipient::{
    bsuid_spec, lemma_business_scoped_id, lemma_send_to_address, send_to_spec, Recipient,
};
use crate::text::{decimal_spec, decimal_text, opt_text};

verus! {

/// A client bound to one validated configuration.
pub struct WhatsAppApiClient {
    config: WhatsAppApiConfig,
}

impl View for WhatsAppApiClient {
    type V = WhatsAppApiConfig;

    closed spec fn view(&self) -> WhatsAppApiConfig {
        self.config
    }
}

impl Clone for WhatsAppApiClient {
    fn clone(&self) -> (r: Self)
        ensures
            r@ == self@,
    {
        proof {
            use_type_invariant(self);
        }
        WhatsAppApiClient { config: self.config.duplicate() }
    }
}

/// Options of a send-message request.
#[derive(Debug, Clone, PartialEq, Eq)]
pub struct SendMessageOptions {
    pub context_message_id: Option<String>,
    pub biz_opaque_callback_data: Option<String>,
}

impl Default for SendMessageOptions {
    fn default() -> (r: Self)
        ensures
            r.context_message_id is None,
            r.biz_opaque_callback_data is None,
    {
        SendMessageOptions { context_message_id: None, biz_opaque_callback_data: None }
    }
}

impl SendMessageOptions {
    /// Options for a reply to the message with id `context_message_id`.
    pub fn reply_to(context_message_id: &str) -> (r: Self)
        ensures
            opt_text(r.context_message_id) == Some(context_message_id@),
            r.biz_opaque_callback_data is None,
    {
        SendMessageOptions {
            context_message_id: Some(String::from_str(context_message_id)),
            biz_opaque_callback_data: None,
        }
    }
}

/// A JSON request to the Graph API.
#[derive(Clone, PartialEq, Eq)]
pub struct GraphJsonRequest {
    pub method: &'static str,
    pub url: String,
    authorization_header: String,
    pub body: JsonValue,
}

/// A multipart media upload to the Graph API.
#[derive(Clone, PartialEq, Eq)]
pub struct MediaUploadRequest {
    pub method: &'static str,
    pub url: String,
    authorization_header: String,
    pub messaging_product: &'static str,
    pub media_type: String,
    pub filename: String,
    pub bytes: Vec<u8>,
}

/// The model of a JSON request.
pub struct GraphJsonRequestView {
    pub method: Seq<char>,
    pub url: Seq<char>,
    pub authorization_header: Seq<char>,
    pub body: Json,
}

/// The model of an upload request.
pub struct MediaUploadRequestView {
    pub method: Seq<char>,
    pub url: Seq<char>,
    pub authorization_header: Seq<char>,
    pub messaging_product: Seq<char>,
    pub media_type: Seq<char>,
    pub filename: Seq<char>,
    pub bytes: Seq<u8>,
}

impl View for GraphJsonRequest {
    type V = GraphJsonRequestView;

    closed spec fn view(&self) -> GraphJsonRequestView {
        GraphJsonRequestView {
            method: self.method@,
            url: self.url@,
            authorization_header: self.authorization_header@,
            body: self.body@,
        }
    }
}

impl View for MediaUploadRequest {
    type V = MediaUploadRequestView;

    closed spec fn view(&self) -> MediaUploadRequestView {
        MediaUploadRequestView {
            method: self.method@,
            url: self.url@,
            authorization_header: self.authorization_header@,
            messaging_product: self.messaging_product@,
            media_type: self.media_type@,
            filename: self.filename@,
            bytes: self.bytes@,
        }
    }
}

impl GraphJsonRequest {
    /// The `Authorization` header value.
    pub fn authorization_header(&self) -> (r: &str)
        ensures
            r@ == self@.authorization_header,
    {
        self.authorization_header.as_str()
    }

    /// Diagnostic text in the shape of `Debug`, with the authorization header redacted and
    /// the body in the `Debug` form of a `serde_json` value.
    pub fn debug_string(&self) -> (r: String)
        ensures
            r@ == json_request_debug_spec(self@.method, self@.url, self@.body),
    {
        let r = String::from_str("GraphJsonRequest { method: ");
        let r = r.concat(debug_str(self.method).as_str());
        let r = r.concat(", url: ");
        let r = r.concat(debug_str(self.url.as_str()).as_str());
        let r = r.concat(", authorization_header: \"[redacted]\", body: ");
        let r = r.concat(self.body.debug_text().as_str());
        let r = r.concat(" }");
        assert(r@ =~= json_request_debug_spec(self.method@, self.url@, self.body@));
        r
    }
}

impl MediaUploadRequest {
    /// The `Authorization` header value.
    pub fn authorization_header(&self) -> (r: &str)
        ensures
            r@ == self@.authorization_header,
    {
        self.authorization_header.as_str()
    }

    /// Diagnostic text in the shape of `Debug`, with the authorization header redacted and
    /// the bytes given by their count.
    pub fn debug_string(&self) -> (r: String)
        ensures
            r@ == upload_request_debug_spec(
                self@.method,
                self@.url,
                self@.messaging_product,
                self@.media_type,
                self@.filename,
                self@.bytes.len(),
            ),
    {
        let r = String::from_str("MediaUploadRequest { method: ");
        let r = r.concat(debug_str(self.method).as_str());
        let r = r.concat(", url: ");
        let r = r.concat(debug_str(self.url.as_str()).as_str());
        let r = r.concat(", authorization_header: \"[redacted]\", messaging_product: ");
        let r = r.concat(debug_str(self.messaging_product).as_str());
        let r = r.concat(", media_type: ");
        let r = r.concat(debug_str(self.media_type.as_str()).as_str());
        let r = r.concat(", filename: ");
        let r = r.concat(debug_str(self.filename.as_str()).as_str());
        let r = r.concat(", bytes_len: ");
        let r = r.concat(decimal_text(self.bytes.len()).as_str());
        let r = r.concat(" }");
        assert(r@ =~= upload_request_debug_spec(
            self.method@,
            self.url@,
            self.messaging_product@,
            self.media_type@,
            self.filename@,
            self.bytes@.len(),
        ));
        r
    }
}

/// The diagnostic text of a JSON request: no authorization header appears in it.
pub open spec fn json_request_debug_spec(method: Seq<char>, url: Seq<char>, body: Json) -> Seq<char> {
    "GraphJsonRequest { method: "@ + debug_str_spec(method) + ", url: "@ + debug_str_spec(url)
        + ", authorization_header: \"[redacted]\", body: "@ + json_debug(body) + " }"@
}

/// The diagnostic text of an upload request: no authorization header and no bytes appear in
/// it, only their count.
pub open spec fn upload_request_debug_spec(
    method: Seq<char>,
    url: Seq<char>,
    product: Seq<char>,
    media_type: Seq<char>,
    filename: Seq<char>,
    bytes_len: nat,
) -> Seq<char> {
    "MediaUploadRequest { method: "@ + debug_str_spec(method) + ", url: "@ + debug_str_spec(url)
        + ", authorization_header: \"[redacted]\", messaging_product: "@ + debug_str_spec(product)
        + ", media_type: "@ + debug_str_spec(media_type) + ", filename: "@ + debug_str_spec(
        filename,
    ) + ", bytes_len: "@ + decimal_spec(bytes_len) + " }"@
}

/// The JSON body of a send-message request.
pub open spec fn send_body_spec(
    recipient: Recipient,
    message: WhatsAppMessage,
    options: SendMessageOptions,
) -> Json {
    let mt = message_type_spec(message);
    Json::Object(
        seq![
            ("messaging_product"@, Json::Str("whatsapp"@)),
            ("recipient_type"@, Json::Str(
                if recipient is Group {
                    "group"@
                } else {
                    "individual"@
                },
            )),
        ] + opt_str_member("to"@, send_to_spec(recipient)) + opt_str_member(
            "recipient"@,
            bsuid_spec(recipient),
        ) + seq![("type"@, Json::Str(mt)), (mt, message_json(message))] + match options.context_message_id {
            Some(id) => seq![("context"@, Json::Object(seq![("message_id"@, Json::Str(id@))]))],
            None => Seq::empty(),
        } + opt_str_member("biz_opaque_callback_data"@, opt_text(options.biz_opaque_callback_data)),
    )
}

/// The URL path of a phone number's endpoint, such as `{id}/messages`.
pub open spec fn endpoint_path(phone_number_id: Seq<char>, endpoint: Seq<char>) -> Seq<char> {
    phone_number_id + "/"@ + endpoint
}

impl WhatsAppApiClient {
    #[verifier::type_invariant]
    spec fn holds_valid_config(self) -> bool {
        validate_spec(self.config) is Ok
    }

    /// A client for a configuration that validates.
    pub fn new(config: WhatsAppApiConfig) -> (r: Result<Self, WhatsAppApiError>)
        ensures
            match validate_spec(config) {
                Ok(_) => r matches Ok(c) && c@ == config,
                Err(e) => r == Err::<WhatsAppApiClient, WhatsAppApiError>(e),
            },
    {
        config.validate()?;
        Ok(WhatsAppApiClient { config })
    }

    /// The configuration; it always validates.
    pub fn config(&self) -> (r: &WhatsAppApiConfig)
        ensures
            *r == self@,
            validate_spec(*r) is Ok,
    {
        proof {
            use_type_invariant(self);
        }
        &self.config
    }

    fn endpoint_url(&self, endpoint: &str) -> (r: String)
        ensures
            r@ == graph_url_spec(
                self@.graph_base_url@,
                self@.graph_api_version@,
                endpoint_path(self@.phone_number_id@, endpoint@),
            ),
    {
        let path = self.config.phone_number_id.clone().concat("/").concat(endpoint);
        self.config.graph_url(path.as_str())
    }

    /// The request that sends `message` to `recipient`.
    pub fn send_message_request(
        &self,
        recipient: &Recipient,
        message: &WhatsAppMessage,
        options: SendMessageOptions,
    ) -> (r: GraphJsonRequest)
        ensures
            r@.method == "POST"@,
            r@.url == graph_url_spec(
                self@.graph_base_url@,
                self@.graph_api_version@,
                endpoint_path(self@.phone_number_id@, "messages"@),
            ),
            r@.authorization_header == bearer_spec(self@.access_token@),
            r@.body == send_body_spec(*recipient, *message, options),
    {
        let message_type = message.message_type();
        let mut body: Vec<(String, JsonValue)> = Vec::new();
        assert(members_model(body@) =~= Seq::<(Seq<char>, Json)>::empty());
        push_member(&mut body, "messaging_product", json_string("whatsapp"));
        let rt = if recipient.is_group() {
            "group"
        } else {
            "individual"
        };
        push_member(&mut body, "recipient_type", json_string(rt));
        let ghost after_type = members_model(body@);
        assert(after_type =~= seq![
            ("messaging_product"@, Json::Str("whatsapp"@)),
            ("recipient_type"@, Json::Str(
                if *recipient is Group {
                    "group"@
                } else {
                    "individual"@
                },
            )),
        ]);
        match recipient.send_to() {
            Some(to) => push_member(&mut body, "to", json_string(to)),
            None => {},
        }
        assert(members_model(body@) =~= after_type + opt_str_member("to"@, send_to_spec(*recipient)));
        let ghost after_to = members_model(body@);
        match recipient.business_scoped_user_id() {
            Some(id) => push_member(&mut body, "recipient", json_string(id)),
            None => {},
        }
        assert(members_model(body@) =~= after_to + opt_str_member(
            "recipient"@,
            bsuid_spec(*recipient),
        ));
        push_member(&mut body, "type", json_string(message_type));
        push_member(&mut body, message_type, message.to_json());
        let ghost before_context = members_model(body@);
        let ghost ctx_part: Seq<(Seq<char>, Json)> = match &options.context_message_id {
            Some(id) => seq![("context"@, Json::Object(seq![("message_id"@, Json::Str(id@))]))],
            None => Seq::empty(),
        };
        match &options.context_message_id {
            Some(id) => {
                let mut inner: Vec<(String, JsonValue)> = Vec::new();
                assert(members_model(inner@) =~= Seq::<(Seq<char>, Json)>::empty());
                push_member(&mut inner, "message_id", json_string(id.as_str()));
                let context = object_from(inner);
                assert(context@ =~= Json::Object(seq![("message_id"@, Json::Str(id@))]));
                push_member(&mut body, "context", context);
            },
            None => {},
        }
        assert(members_model(body@) =~= before_context + ctx_part);
        let ghost before_data = members_model(body@);
        match &options.biz_opaque_callback_data {
            Some(data) => push_member(&mut body, "biz_opaque_callback_data", json_string(data.as_str())),
            None => {},
        }
        assert(members_model(body@) =~= before_data + opt_str_member(
            "biz_opaque_callback_data"@,
            opt_text(options.biz_opaque_callback_data),
        ));
        let ghost mt = message_type_spec(*message);
        assert(members_model(body@) =~= after_to + opt_str_member("recipient"@, bsuid_spec(*recipient))
            + seq![("type"@, Json::Str(mt)), (mt, message_json(*message))] + ctx_part
            + opt_str_member("biz_opaque_callback_data"@, opt_text(options.biz_opaque_callback_data)));
        let body = object_from(body);
        assert(body@ =~= send_body_spec(*recipient, *message, options));
        GraphJsonRequest {
            method: "POST",
            url: self.endpoint_url("messages"),
            authorization_header: self.config.authorization_header(),
            body,
        }
    }

    /// The request that uploads `bytes` as a file named `filename`.
    pub fn upload_media_request(&self, bytes: Vec<u8>, filename: &str, mime_type: &str) -> (r:
        MediaUploadRequest)
        ensures
            r@.method == "POST"@,
            r@.url == graph_url_spec(
                self@.graph_base_url@,
                self@.graph_api_version@,
                endpoint_path(self@.phone_number_id@, "media"@),
            ),
            r@.authorization_header == bearer_spec(self@.access_token@),
            r@.messaging_product == "whatsapp"@,
            r@.media_type == normalize_mime_spec(mime_type@),
            r@.filename == filename@,
            r@.bytes == bytes@,
    {
        MediaUploadRequest {
            method: "POST",
            url: self.endpoint_url("media"),
            authorization_header: self.config.authorization_header(),
            messaging_product: "whatsapp",
            media_type: normalize_mime_type(mime_type),
            filename: String::from_str(filename),
            bytes,
        }
    }

    /// The request that retrieves the metadata of media `media_id`.
    pub fn retrieve_media_request(&self, media_id: &str) -> (r: GraphJsonRequest)
        ensures
            r@.method == "GET"@,
            r@.url == graph_url_spec(self@.graph_base_url@, self@.graph_api_version@, media_id@)
                + "?phone_number_id="@ + self@.phone_number_id@,
            r@.authorization_header == bearer_spec(self@.access_token@),
            r@.body == Json::Null,
    {
        let url = self.config.graph_url(media_id).concat("?phone_number_id=").concat(
            self.config.phone_number_id.as_str(),
        );
        GraphJsonRequest {
            method: "GET",
            url,
            authorization_header: self.config.authorization_header(),
            body: JsonValue::Null,
        }
    }
}

/// The body of a send-message request that the client builds is the JSON of the typed
/// `SendMessageRequest` with the same recipient type, addresses, message, reply context and
/// callback data, whenever the recipient has an address.
pub proof fn lemma_send_body_is_request_json(
    recipient: Recipient,
    message: WhatsAppMessage,
    options: SendMessageOptions,
    request: SendMessageRequest,
)
    requires
        request.recipient_type == if recipient is Group {
            RecipientType::Group
        } else {
            RecipientType::Individual
        },
        opt_text(request.to) == send_to_spec(recipient),
        opt_text(request.recipient) == bsuid_spec(recipient),
        request.message == message,
        match request.context {
            Some(c) => opt_text(options.context_message_id) == Some(c.message_id@),
            None => options.context_message_id is None,
        },
        opt_text(request.biz_opaque_callback_data) == opt_text(options.biz_opaque_callback_data),
        send_to_spec(recipient) is Some || bsuid_spec(recipient) is Some,
    ensures
        send_request_json(request) == Some(send_body_spec(recipient, message, options)),
{
    let mt = message_type_spec(message);
    let ctx: Seq<(Seq<char>, Json)> = match request.context {
        Some(c) => seq![
            ("context"@, Json::Object(seq![("message_id"@, Json::Str(c.message_id@))])),
        ],
        None => Seq::empty(),
    };
    let ctx2: Seq<(Seq<char>, Json)> = match options.context_message_id {
        Some(id) => seq![("context"@, Json::Object(seq![("message_id"@, Json::Str(id@))]))],
        None => Seq::empty(),
    };
    assert(ctx =~= ctx2);
    assert(recipient_type_text(request.recipient_type) == if recipient is Group {
        "group"@
    } else {
        "individual"@
    });
    assert(send_request_json(request)->0 =~= send_body_spec(recipient, message, options));
}

/// The diagnostic text of a JSON request is the same for any two requests that differ only
/// in their authorization header.
pub proof fn lemma_request_debug_hides_authorization(a: GraphJsonRequest, b: GraphJsonRequest)
    requires
        a@.method == b@.method,
        a@.url == b@.url,
        a@.body == b@.body,
    ensures
        json_request_debug_spec(a@.method, a@.url, a@.body) == json_request_debug_spec(
            b@.method,
            b@.url,
            b@.body,
        ),
{
}

proof fn lemma_opt_str_member(key: Seq<char>, v: Option<Seq<char>>, k: Seq<char>)
    ensures
        entry_value(opt_str_member(key, v), k) == if k == key {
            match v {
                Some(t) => Some(Json::Str(t)),
                None => None,
            }
        } else {
            None
        },
{
    if let Some(t) = v {
        lemma_entry_value_single(key, Json::Str(t), k);
    }
}

/// A member of the send body that comes before `type`: looking it up skips the members
/// from `type` on.
proof fn lemma_body_head_lookup(
    recipient: Recipient,
    message: WhatsAppMessage,
    options: SendMessageOptions,
    k: Seq<char>,
)
    requires
        k != "type"@,
        k != message_type_spec(message),
        k != "context"@,
        k != "biz_opaque_callback_data"@,
    ensures
        get_spec(Some(send_body_spec(recipient, message, options)), k) == entry_value(
            seq![
                ("messaging_product"@, Json::Str("whatsapp"@)),
                ("recipient_type"@, Json::Str(
                    if recipient is Group {
                        "group"@
                    } else {
                        "individual"@
                    },
                )),
            ] + opt_str_member("to"@, send_to_spec(recipient)) + opt_str_member(
                "recipient"@,
                bsuid_spec(recipient),
            ),
            k,
        ),
{
    let mt = message_type_spec(message);
    let x2 = seq![
        ("messaging_product"@, Json::Str("whatsapp"@)),
        ("recipient_type"@, Json::Str(
            if recipient is Group {
                "group"@
            } else {
                "individual"@
            },
        )),
    ] + opt_str_member("to"@, send_to_spec(recipient)) + opt_str_member(
        "recipient"@,
        bsuid_spec(recipient),
    );
    let tm = seq![("type"@, Json::Str(mt)), (mt, message_json(message))];
    let ctx: Seq<(Seq<char>, Json)> = match options.context_message_id {
        Some(id) => seq![("context"@, Json::Object(seq![("message_id"@, Json::Str(id@))]))],
        None => Seq::empty(),
    };
    let biz = opt_str_member("biz_opaque_callback_data"@, opt_text(options.biz_opaque_callback_data));
    assert(send_body_spec(recipient, message, options)->Object_0 == x2 + tm + ctx + biz);
    lemma_opt_str_member("biz_opaque_callback_data"@, opt_text(options.biz_opaque_callback_data), k);
    lemma_entry_value_append(x2 + tm + ctx, biz, k);
    if let Some(id) = options.context_message_id {
        lemma_entry_value_single("context"@, Json::Object(seq![("message_id"@, Json::Str(id@))]), k);
    }
    lemma_entry_value_append(x2 + tm, ctx, k);
    assert(tm =~= seq![("type"@, Json::Str(mt))] + seq![(mt, message_json(message))]);
    lemma_entry_value_append(seq![("type"@, Json::Str(mt))], seq![(mt, message_json(message))], k);
    lemma_entry_value_single("type"@, Json::Str(mt), k);
    lemma_entry_value_single(mt, message_json(message), k);
    lemma_entry_value_append(x2, tm, k);
}

proof fn lemma_body_keys_distinct(message: WhatsAppMessage)
    ensures
        "to"@ != "type"@,
        "to"@ != message_type_spec(message),
        "to"@ != "context"@,
        "to"@ != "biz_opaque_callback_data"@,
        "to"@ != "recipient"@,
        "to"@ != "recipient_type"@,
        "to"@ != "messaging_product"@,
        "recipient"@ != "type"@,
        "recipient"@ != message_type_spec(message),
        "recipient"@ != "context"@,
        "recipient"@ != "biz_opaque_callback_data"@,
        "recipient"@ != "recipient_type"@,
        "recipient"@ != "messaging_product"@,
        "text"@ != "context"@,
        "text"@ != "biz_opaque_callback_data"@,
{
    reveal_strlit("to");
    reveal_strlit("type");
    reveal_strlit("context");
    reveal_strlit("biz_opaque_callback_data");
    reveal_strlit("recipient");
    reveal_strlit("recipient_type");
    reveal_strlit("messaging_product");
    reveal_strlit("text");
    reveal_strlit("image");
    reveal_strlit("video");
    reveal_strlit("audio");
    reveal_strlit("document");
    assert("to"@.len() != "type"@.len());
    assert("to"@.len() != message_type_spec(message).len());
    assert("to"@.len() != "context"@.len());
    assert("to"@.len() != "biz_opaque_callback_data"@.len());
    assert("to"@.len() != "recipient"@.len());
    assert("to"@.len() != "recipient_type"@.len());
    assert("to"@.len() != "messaging_product"@.len());
    assert("recipient"@.len() != "type"@.len());
    assert("recipient"@.len() != message_type_spec(message).len());
    assert("recipient"@.len() != "context"@.len());
    assert("recipient"@.len() != "biz_opaque_callback_data"@.len());
    assert("recipient"@.len() != "recipient_type"@.len());
    assert("recipient"@.len() != "messaging_product"@.len());
    assert("text"@.len() != "context"@.len());
    assert("text"@.len() != "biz_opaque_callback_data"@.len());
}

/// The addresses in a send body: `to` holds the recipient's phone number or group id, and is
/// absent for a recipient without one (an individual without a phone, or one given only by
/// a business-scoped id); `recipient` holds the business-scoped user id, when there is one.
pub proof fn lemma_send_body_addresses(
    recipient: Recipient,
    message: WhatsAppMessage,
    options: SendMessageOptions,
)
    ensures
        get_spec(Some(send_body_spec(recipient, message, options)), "to"@) == match recipient {
            Recipient::Phone(p) => Some(Json::Str(p@)),
            Recipient::Group(g) => Some(Json::Str(g@)),
            Recipient::BusinessScopedUserId(_) => None,
            Recipient::Individual { phone: Some(p), .. } => Some(Json::Str(p@)),
            Recipient::Individual { phone: None, .. } => None,
        },
        get_spec(Some(send_body_spec(recipient, message, options)), "recipient"@) == match recipient {
            Recipient::Phone(_) | Recipient::Group(_) => None,
            Recipient::BusinessScopedUserId(id) => Some(Json::Str(id@)),
            Recipient::Individual { business_scoped_user_id: Some(b), .. } => Some(Json::Str(b@)),
            Recipient::Individual { business_scoped_user_id: None, .. } => None,
        },
{
    lemma_body_keys_distinct(message);
    lemma_send_to_address(recipient);
    lemma_business_scoped_id(recipient);
    let head = seq![
        ("messaging_product"@, Json::Str("whatsapp"@)),
        ("recipient_type"@, Json::Str(
            if recipient is Group {
                "group"@
            } else {
                "individual"@
            },
        )),
    ];
    let to = opt_str_member("to"@, send_to_spec(recipient));
    let rec = opt_str_member("recipient"@, bsuid_spec(recipient));
    lemma_body_head_lookup(recipient, message, options, "to"@);
    lemma_body_head_lookup(recipient, message, options, "recipient"@);
    lemma_opt_str_member("recipient"@, bsuid_spec(recipient), "to"@);
    lemma_opt_str_member("recipient"@, bsuid_spec(recipient), "recipient"@);
    lemma_opt_str_member("to"@, send_to_spec(recipient), "to"@);
    lemma_opt_str_member("to"@, send_to_spec(recipient), "recipient"@);
    lemma_entry_value_append(head + to, rec, "to"@);
    lemma_entry_value_append(head + to, rec, "recipient"@);
    lemma_entry_value_append(head, to, "to"@);
    lemma_entry_value_append(head, to, "recipient"@);
    assert(head =~= seq![("messaging_product"@, Json::Str("whatsapp"@))] + seq![head[1]]);
    lemma_entry_value_append(seq![("messaging_product"@, Json::Str("whatsapp"@))], seq![head[1]], "to"@);
    lemma_entry_value_append(seq![("messaging_product"@, Json::Str("whatsapp"@))], seq![head[1]], "recipient"@);
    lemma_entry_value_single("messaging_product"@, Json::Str("whatsapp"@), "to"@);
    lemma_entry_value_single("messaging_product"@, Json::Str("whatsapp"@), "recipient"@);
    lemma_entry_value_single(head[1].0, head[1].1, "to"@);
    lemma_entry_value_single(head[1].0, head[1].1, "recipient"@);
}

/// The text payload inside the send body of a text message holds the message's body and,
/// when it has one, its `preview_url` choice as that boolean.
pub proof fn lemma_send_body_text_payload(
    recipient: Recipient,
    m: TextMessage,
    options: SendMessageOptions,
)
    ensures
        get_spec(get_spec(Some(send_body_spec(recipient, WhatsAppMessage::Text(m), options)), "text"@), "body"@)
            == Some(Json::Str(m.body@)),
        get_spec(
            get_spec(Some(send_body_spec(recipient, WhatsAppMessage::Text(m), options)), "text"@),
            "preview_url"@,
        ) == match m.preview_url {
            Some(b) => Some(Json::Bool(b)),
            None => None,
        },
{
    let message = WhatsAppMessage::Text(m);
    lemma_body_keys_distinct(message);
    lemma_text_json_members(m);
    let mt = message_type_spec(message);
    let x2 = seq![
        ("messaging_product"@, Json::Str("whatsapp"@)),
        ("recipient_type"@, Json::Str(
            if recipient is Group {
                "group"@
            } else {
                "individual"@
            },
        )),
    ] + opt_str_member("to"@, send_to_spec(recipient)) + opt_str_member(
        "recipient"@,
        bsuid_spec(recipient),
    );
    let tm = seq![("type"@, Json::Str(mt)), (mt, message_json(message))];
    let ctx: Seq<(Seq<char>, Json)> = match options.context_message_id {
        Some(id) => seq![("context"@, Json::Object(seq![("message_id"@, Json::Str(id@))]))],
        None => Seq::empty(),
    };
    let biz = opt_str_member("biz_opaque_callback_data"@, opt_text(options.biz_opaque_callback_data));
    let k = "text"@;
    assert(send_body_spec(recipient, message, options)->Object_0 == x2 + tm + ctx + biz);
    lemma_opt_str_member("biz_opaque_callback_data"@, opt_text(options.biz_opaque_callback_data), k);
    lemma_entry_value_append(x2 + tm + ctx, biz, k);
    if let Some(id) = options.context_message_id {
        lemma_entry_value_single("context"@, Json::Object(seq![("message_id"@, Json::Str(id@))]), k);
    }
    lemma_entry_value_append(x2 + tm, ctx, k);
    lemma_entry_value_append(x2, tm, k);
    assert(tm.last() == (k, message_json(message)));
}

proof fn lemma_more_body_keys_distinct(message: WhatsAppMessage)
    ensures
        "type"@ != message_type_spec(message),
        "type"@ != "context"@,
        "type"@ != "biz_opaque_callback_data"@,
        message_type_spec(message) != "context"@,
        message_type_spec(message) != "biz_opaque_callback_data"@,
        "context"@ != "biz_opaque_callback_data"@,
        "messaging_product"@ != "type"@,
        "messaging_product"@ != message_type_spec(message),
        "messaging_product"@ != "context"@,
        "messaging_product"@ != "biz_opaque_callback_data"@,
        "messaging_product"@ != "to"@,
        "messaging_product"@ != "recipient"@,
        "messaging_product"@ != "recipient_type"@,
        "recipient_type"@ != "type"@,
        "recipient_type"@ != message_type_spec(message),
        "recipient_type"@ != "context"@,
        "recipient_type"@ != "biz_opaque_callback_data"@,
        "recipient_type"@ != "to"@,
        "recipient_type"@ != "recipient"@,
{
    reveal_strlit("to");
    reveal_strlit("type");
    reveal_strlit("context");
    reveal_strlit("biz_opaque_callback_data");
    reveal_strlit("recipient");
    reveal_strlit("recipient_type");
    reveal_strlit("messaging_product");
    reveal_strlit("text");
    reveal_strlit("image");
    reveal_strlit("video");
    reveal_strlit("audio");
    reveal_strlit("document");
    let mt = message_type_spec(message);
    if mt.len() == 4 {
        assert("type"@[1] != mt[1]);
    } else {
        assert("type"@.len() != mt.len());
    }
    assert("type"@.len() != "context"@.len());
    assert("type"@.len() != "biz_opaque_callback_data"@.len());
    assert(mt.len() != "context"@.len());
    assert(mt.len() != "biz_opaque_callback_data"@.len());
    assert("context"@.len() != "biz_opaque_callback_data"@.len());
    assert("messaging_product"@.len() != "type"@.len());
    assert("messaging_product"@.len() != mt.len());
    assert("messaging_product"@.len() != "context"@.len());
    assert("messaging_product"@.len() != "biz_opaque_callback_data"@.len());
    assert("messaging_product"@.len() != "to"@.len());
    assert("messaging_product"@.len() != "recipient"@.len());
    assert("messaging_product"@.len() != "recipient_type"@.len());
    assert("recipient_type"@.len() != "type"@.len());
    assert("recipient_type"@.len() != mt.len());
    assert("recipient_type"@.len() != "context"@.len());
    assert("recipient_type"@.len() != "biz_opaque_callback_data"@.len());
    assert("recipient_type"@.len() != "to"@.len());
    assert("recipient_type"@.len() != "recipient"@.len());
}

/// The other members of a send body: `messaging_product` is `whatsapp`, `recipient_type` is
/// `group` for a group and `individual` otherwise, `type` names the message type, the member
/// under that name is the message's own JSON, `context` is an object holding the replied-to
/// message id when the options give one, and `biz_opaque_callback_data` holds the options'
/// callback data when they give it.
pub proof fn lemma_send_body_members(
    recipient: Recipient,
    message: WhatsAppMessage,
    options: SendMessageOptions,
)
    ensures
        get_spec(Some(send_body_spec(recipient, message, options)), "messaging_product"@) == Some(
            Json::Str("whatsapp"@),
        ),
        get_spec(Some(send_body_spec(recipient, message, options)), "recipient_type"@) == Some(
            Json::Str(
                if recipient is Group {
                    "group"@
                } else {
                    "individual"@
                },
            ),
        ),
        get_spec(Some(send_body_spec(recipient, message, options)), "type"@) == Some(
            Json::Str(message_type_spec(message)),
        ),
        get_spec(Some(send_body_spec(recipient, message, options)), message_type_spec(message))
            == Some(message_json(message)),
        get_spec(Some(send_body_spec(recipient, message, options)), "context"@) == match options.context_message_id {
            Some(id) => Some(Json::Object(seq![("message_id"@, Json::Str(id@))])),
            None => None,
        },
        get_spec(Some(send_body_spec(recipient, message, options)), "biz_opaque_callback_data"@)
            == match options.biz_opaque_callback_data {
            Some(d) => Some(Json::Str(d@)),
            None => None,
        },
{
    lemma_body_keys_distinct(message);
    lemma_more_body_keys_distinct(message);
    let mt = message_type_spec(message);
    let head = seq![
        ("messaging_product"@, Json::Str("whatsapp"@)),
        ("recipient_type"@, Json::Str(
            if recipient is Group {
                "group"@
            } else {
                "individual"@
            },
        )),
    ];
    let to = opt_str_member("to"@, send_to_spec(recipient));
    let rec = opt_str_member("recipient"@, bsuid_spec(recipient));
    let x2 = head + to + rec;
    let tm = seq![("type"@, Json::Str(mt)), (mt, message_json(message))];
    let ctx: Seq<(Seq<char>, Json)> = match options.context_message_id {
        Some(id) => seq![("context"@, Json::Object(seq![("message_id"@, Json::Str(id@))]))],
        None => Seq::empty(),
    };
    let biz = opt_str_member("biz_opaque_callback_data"@, opt_text(options.biz_opaque_callback_data));
    assert(send_body_spec(recipient, message, options)->Object_0 == x2 + tm + ctx + biz);
    assert(tm =~= seq![("type"@, Json::Str(mt))] + seq![(mt, message_json(message))]);
    assert(head =~= seq![head[0]] + seq![head[1]]);
    let keys = seq!["messaging_product"@, "recipient_type"@, "type"@, mt, "context"@, "biz_opaque_callback_data"@];
    assert forall|j: int| 0 <= j < 6 implies entry_value(x2 + tm + ctx + biz, #[trigger] keys[j]) == match (
        entry_value(biz, keys[j]),
        entry_value(ctx, keys[j]),
        entry_value(tm, keys[j]),
    ) {
        (Some(v), _, _) => Some(v),
        (None, Some(v), _) => Some(v),
        (None, None, Some(v)) => Some(v),
        (None, None, None) => entry_value(head, keys[j]),
    } by {
        let k = keys[j];
        lemma_entry_value_append(x2 + tm + ctx, biz, k);
        lemma_entry_value_append(x2 + tm, ctx, k);
        lemma_entry_value_append(x2, tm, k);
        lemma_entry_value_append(head + to, rec, k);
        lemma_entry_value_append(head, to, k);
        lemma_opt_str_member("to"@, send_to_spec(recipient), k);
        lemma_opt_str_member("recipient"@, bsuid_spec(recipient), k);
    }
    assert(keys[0] == "messaging_product"@ && keys[1] == "recipient_type"@ && keys[2] == "type"@
        && keys[3] == mt && keys[4] == "context"@ && keys[5] == "biz_opaque_callback_data"@);
    assert forall|j: int| 0 <= j < 6 implies entry_value(biz, #[trigger] keys[j]) == if keys[j] == "biz_opaque_callback_data"@ {
        match options.biz_opaque_callback_data {
            Some(d) => Some(Json::Str(d@)),
            None => None,
        }
    } else {
        None
    } by {
        lemma_opt_str_member("biz_opaque_callback_data"@, opt_text(options.biz_opaque_callback_data), keys[j]);
    }
    assert forall|j: int| 0 <= j < 6 implies entry_value(ctx, #[trigger] keys[j]) == if keys[j] == "context"@ {
        match options.context_message_id {
            Some(id) => Some(Json::Object(seq![("message_id"@, Json::Str(id@))])),
            None => None,
        }
    } else {
        None
    } by {
        if let Some(id) = options.context_message_id {
            lemma_entry_value_single("context"@, Json::Object(seq![("message_id"@, Json::Str(id@))]), keys[j]);
        }
    }
    assert forall|j: int| 0 <= j < 6 implies entry_value(tm, #[trigger] keys[j]) == if keys[j] == mt {
        Some(message_json(message))
    } else if keys[j] == "type"@ {
        Some(Json::Str(mt))
    } else {
        None
    } by {
        lemma_entry_value_append(seq![("type"@, Json::Str(mt))], seq![(mt, message_json(message))], keys[j]);
        lemma_entry_value_single("type"@, Json::Str(mt), keys[j]);
        lemma_entry_value_single(mt, message_json(message), keys[j]);
    }
    assert forall|j: int| 0 <= j < 6 implies entry_value(head, #[trigger] keys[j]) == if keys[j] == "recipient_type"@ {
        Some(head[1].1)
    } else if keys[j] == "messaging_product"@ {
        Some(head[0].1)
    } else {
        None
    } by {
        lemma_entry_value_append(seq![head[0]], seq![head[1]], keys[j]);
        lemma_entry_value_single(head[0].0, head[0].1, keys[j]);
        lemma_entry_value_single(head[1].0, head[1].1, keys[j]);
    }
}

/// A phone number's endpoint path is the phone number id, a slash and the endpoint name, as
/// in `{id}/messages` and `{id}/media`.
pub proof fn lemma_endpoint_path(phone_number_id: Seq<char>, endpoint: Seq<char>)
    ensures
        endpoint_path(phone_number_id, endpoint) == phone_number_id + seq!['/'] + endpoint,
{
    reveal_strlit("/");
    assert("/"@ =~= seq!['/']);
}

} // verus!
