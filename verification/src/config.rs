//! Per-account configuration: Graph API version, phone number id, access token, app secret,
//! webhook verify token, secure mode and Graph base URL.
use vstd::prelude::*;

use crate::error::WhatsAppApiError;
use crate::text::{
    blank_spec, is_blank, opt_text, strip_end_spec, strip_start_spec, trim_end_char, trim_start_char,
};

verus! {

/// The Graph API version a configuration gets when none is given.
pub const DEFAULT_GRAPH_API_VERSION: &'static str = "v24.0";

/// The Graph base URL of a new configuration.
pub open spec fn default_base_url() -> Seq<char> {
    "https://graph.facebook.com"@
}

/// Configuration of one WhatsApp business phone number.
#[derive(PartialEq, Eq)]
pub struct WhatsAppApiConfig {
    pub graph_api_version: String,
    pub phone_number_id: String,
    pub access_token: String,
    pub app_secret: Option<String>,
    pub webhook_verify_token: Option<String>,
    pub secure: bool,
    pub graph_base_url: String,
}

/// The outcome of validating a configuration.
pub open spec fn validate_spec(c: WhatsAppApiConfig) -> Result<(), WhatsAppApiError> {
    if blank_spec(c.graph_api_version@) {
        Err(WhatsAppApiError::Validation { field: "graph_api_version", message: "must not be blank" })
    } else if blank_spec(c.phone_number_id@) {
        Err(WhatsAppApiError::Validation { field: "phone_number_id", message: "must not be blank" })
    } else if blank_spec(c.access_token@) {
        Err(WhatsAppApiError::Validation { field: "access_token", message: "must not be blank" })
    } else if blank_spec(c.graph_base_url@) {
        Err(WhatsAppApiError::Validation { field: "graph_base_url", message: "must not be blank" })
    } else if c.secure && (c.app_secret is None || blank_spec(c.app_secret->0@)) {
        Err(WhatsAppApiError::MissingAppSecret)
    } else {
        Ok(())
    }
}

/// The URL of a Graph API path: base URL without trailing slashes, the version without
/// surrounding slashes, and the path without leading slashes, joined by single slashes.
pub open spec fn graph_url_spec(base: Seq<char>, version: Seq<char>, path: Seq<char>) -> Seq<char> {
    strip_end_spec(base, '/') + seq!['/'] + strip_end_spec(strip_start_spec(version, '/'), '/') + seq![
        '/',
    ] + strip_start_spec(path, '/')
}

/// The `Authorization` header value for an access token.
pub open spec fn bearer_spec(token: Seq<char>) -> Seq<char> {
    "Bearer "@ + token
}

/// How `Debug` writes a string (`<str as Debug>::fmt`): quoted, with escapes.
pub uninterp spec fn debug_str_spec(s: Seq<char>) -> Seq<char>;

/// Writes `s` as `{:?}` does, through `<str as core::fmt::Debug>::fmt`. The contract
/// claims only that the text is a function of `s`, named by `debug_str_spec`.
#[verifier::external_body]
pub(crate) fn debug_str(s: &str) -> (r: String)
    ensures
        r@ == debug_str_spec(s@),
{
    format!("{:?}", s)
}

pub open spec fn redacted_opt(present: bool) -> Seq<char> {
    if present {
        "Some(\"[redacted]\")"@
    } else {
        "None"@
    }
}

pub open spec fn bool_text(b: bool) -> Seq<char> {
    if b {
        "true"@
    } else {
        "false"@
    }
}

/// The diagnostic text of a configuration, in the shape of a derived `Debug`, with the
/// access token, the app secret and the verify token replaced by `[redacted]`.
pub open spec fn config_debug_spec(c: WhatsAppApiConfig) -> Seq<char> {
    "WhatsAppApiConfig { graph_api_version: "@ + debug_str_spec(c.graph_api_version@)
        + ", phone_number_id: "@ + debug_str_spec(c.phone_number_id@)
        + ", access_token: \"[redacted]\", app_secret: "@ + redacted_opt(c.app_secret is Some)
        + ", webhook_verify_token: "@ + redacted_opt(c.webhook_verify_token is Some)
        + ", secure: "@ + bool_text(c.secure) + ", graph_base_url: "@ + debug_str_spec(
        c.graph_base_url@,
    ) + " }"@
}

fn copy_opt_string(o: &Option<String>) -> (r: Option<String>)
    ensures
        r == *o,
{
    match o {
        Some(t) => Some(t.clone()),
        None => None,
    }
}

impl Clone for WhatsAppApiConfig {
    fn clone(&self) -> (r: Self)
        ensures
            r == *self,
    {
        self.duplicate()
    }
}

impl WhatsAppApiConfig {
    /// A copy of this configuration.
    pub fn duplicate(&self) -> (r: Self)
        ensures
            r == *self,
    {
        WhatsAppApiConfig {
            graph_api_version: self.graph_api_version.clone(),
            phone_number_id: self.phone_number_id.clone(),
            access_token: self.access_token.clone(),
            app_secret: copy_opt_string(&self.app_secret),
            webhook_verify_token: copy_opt_string(&self.webhook_verify_token),
            secure: self.secure,
            graph_base_url: self.graph_base_url.clone(),
        }
    }

    /// A configuration in secure mode with no app secret or verify token and the default
    /// Graph base URL.
    pub fn new(graph_api_version: &str, phone_number_id: &str, access_token: &str) -> (r: Self)
        ensures
            r.graph_api_version@ == graph_api_version@,
            r.phone_number_id@ == phone_number_id@,
            r.access_token@ == access_token@,
            r.app_secret is None,
            r.webhook_verify_token is None,
            r.secure,
            r.graph_base_url@ == default_base_url(),
    {
        WhatsAppApiConfig {
            graph_api_version: String::from_str(graph_api_version),
            phone_number_id: String::from_str(phone_number_id),
            access_token: String::from_str(access_token),
            app_secret: None,
            webhook_verify_token: None,
            secure: true,
            graph_base_url: String::from_str("https://graph.facebook.com"),
        }
    }

    /// `new` with the default Graph API version.
    pub fn for_phone_number(phone_number_id: &str, access_token: &str) -> (r: Self)
        ensures
            r.graph_api_version@ == DEFAULT_GRAPH_API_VERSION@,
            r.phone_number_id@ == phone_number_id@,
            r.access_token@ == access_token@,
            r.app_secret is None,
            r.webhook_verify_token is None,
            r.secure,
            r.graph_base_url@ == default_base_url(),
    {
        Self::new(DEFAULT_GRAPH_API_VERSION, phone_number_id, access_token)
    }

    pub fn with_app_secret(self, app_secret: &str) -> (r: Self)
        ensures
            opt_text(r.app_secret) == Some(app_secret@),
            r == (WhatsAppApiConfig { app_secret: r.app_secret, ..self }),
    {
        WhatsAppApiConfig { app_secret: Some(String::from_str(app_secret)), ..self }
    }

    pub fn with_webhook_verify_token(self, token: &str) -> (r: Self)
        ensures
            opt_text(r.webhook_verify_token) == Some(token@),
            r == (WhatsAppApiConfig { webhook_verify_token: r.webhook_verify_token, ..self }),
    {
        WhatsAppApiConfig { webhook_verify_token: Some(String::from_str(token)), ..self }
    }

    pub fn with_secure(self, secure: bool) -> (r: Self)
        ensures
            r == (WhatsAppApiConfig { secure, ..self }),
    {
        WhatsAppApiConfig { secure, ..self }
    }

    pub fn with_graph_base_url(self, graph_base_url: &str) -> (r: Self)
        ensures
            r.graph_base_url@ == graph_base_url@,
            r == (WhatsAppApiConfig { graph_base_url: r.graph_base_url, ..self }),
    {
        WhatsAppApiConfig { graph_base_url: String::from_str(graph_base_url), ..self }
    }

    /// Checks that the required fields are not blank and that secure mode has an app secret.
    pub fn validate(&self) -> (r: Result<(), WhatsAppApiError>)
        ensures
            r == validate_spec(*self),
    {
        validate_not_blank("graph_api_version", self.graph_api_version.as_str())?;
        validate_not_blank("phone_number_id", self.phone_number_id.as_str())?;
        validate_not_blank("access_token", self.access_token.as_str())?;
        validate_not_blank("graph_base_url", self.graph_base_url.as_str())?;
        let secret_blank = match &self.app_secret {
            Some(s) => is_blank(s.as_str()),
            None => true,
        };
        if self.secure && secret_blank {
            return Err(WhatsAppApiError::MissingAppSecret);
        }
        Ok(())
    }

    /// The URL of a Graph API path for this configuration.
    pub fn graph_url(&self, path: &str) -> (r: String)
        ensures
            r@ == graph_url_spec(self.graph_base_url@, self.graph_api_version@, path@),
    {
        let base = trim_end_char(self.graph_base_url.as_str(), '/');
        let version = trim_end_char(trim_start_char(self.graph_api_version.as_str(), '/'), '/');
        let rest = trim_start_char(path, '/');
        let r = String::from_str(base).concat("/").concat(version).concat("/").concat(rest);
        proof {
            reveal_strlit("/");
            assert(r@ =~= graph_url_spec(self.graph_base_url@, self.graph_api_version@, path@));
        }
        r
    }

    /// The `Authorization` header value: `Bearer` and the access token.
    pub fn authorization_header(&self) -> (r: String)
        ensures
            r@ == bearer_spec(self.access_token@),
    {
        String::from_str("Bearer ").concat(self.access_token.as_str())
    }

    /// Diagnostic text in the shape of `Debug`, with every secret redacted.
    pub fn debug_string(&self) -> (r: String)
        ensures
            r@ == config_debug_spec(*self),
    {
        let r = String::from_str("WhatsAppApiConfig { graph_api_version: ");
        let r = r.concat(debug_str(self.graph_api_version.as_str()).as_str());
        let r = r.concat(", phone_number_id: ");
        let r = r.concat(debug_str(self.phone_number_id.as_str()).as_str());
        let r = r.concat(", access_token: \"[redacted]\", app_secret: ");
        let r = if self.app_secret.is_some() {
            r.concat("Some(\"[redacted]\")")
        } else {
            r.concat("None")
        };
        let r = r.concat(", webhook_verify_token: ");
        let r = if self.webhook_verify_token.is_some() {
            r.concat("Some(\"[redacted]\")")
        } else {
            r.concat("None")
        };
        let r = r.concat(", secure: ");
        let r = if self.secure {
            r.concat("true")
        } else {
            r.concat("false")
        };
        let r = r.concat(", graph_base_url: ");
        let r = r.concat(debug_str(self.graph_base_url.as_str()).as_str());
        let r = r.concat(" }");
        assert(r@ =~= config_debug_spec(*self));
        r
    }
}

/// Diagnostic text of a configuration does not depend on its secrets: two configurations
/// that differ only in the access token and in the contents of the app secret and verify
/// token have the same text.
pub proof fn lemma_debug_text_hides_secrets(a: WhatsAppApiConfig, b: WhatsAppApiConfig)
    requires
        a.graph_api_version@ == b.graph_api_version@,
        a.phone_number_id@ == b.phone_number_id@,
        a.app_secret is Some == b.app_secret is Some,
        a.webhook_verify_token is Some == b.webhook_verify_token is Some,
        a.secure == b.secure,
        a.graph_base_url@ == b.graph_base_url@,
    ensures
        config_debug_spec(a) == config_debug_spec(b),
{
}

proof fn lemma_strip_start_push(v: Seq<char>)
    ensures
        strip_start_spec(v.push('/'), '/') == if strip_start_spec(v, '/').len() == 0 {
            Seq::<char>::empty()
        } else {
            strip_start_spec(v, '/').push('/')
        },
    decreases v.len(),
{
    if v.len() > 0 && v[0] == '/' {
        assert(v.push('/').drop_first() =~= v.drop_first().push('/'));
        lemma_strip_start_push(v.drop_first());
    } else if v.len() == 0 {
        assert(v.push('/').drop_first() =~= Seq::<char>::empty());
        assert(strip_start_spec(Seq::<char>::empty(), '/') == Seq::<char>::empty());
        assert(strip_start_spec(v.push('/'), '/') == strip_start_spec(Seq::<char>::empty(), '/'));
    } else {
        assert(v.push('/')[0] == v[0]);
        assert(strip_start_spec(v, '/') == v);
        assert(strip_start_spec(v.push('/'), '/') == v.push('/'));
    }
}

proof fn lemma_strip_end_push(v: Seq<char>)
    ensures
        strip_end_spec(v.push('/'), '/') == strip_end_spec(v, '/'),
{
    assert(v.push('/').drop_last() =~= v);
}

/// A Graph URL does not change when the base URL gains a trailing slash, the version a
/// leading slash, a trailing slash or both, or the path a leading slash: parts are joined by
/// exactly one slash.
pub proof fn lemma_graph_url_ignores_extra_slashes(base: Seq<char>, version: Seq<char>, path: Seq<char>)
    ensures
        graph_url_spec(base.push('/'), version, path) == graph_url_spec(base, version, path),
        graph_url_spec(base, seq!['/'] + version, path) == graph_url_spec(base, version, path),
        graph_url_spec(base, version.push('/'), path) == graph_url_spec(base, version, path),
        graph_url_spec(base, version, seq!['/'] + path) == graph_url_spec(base, version, path),
        graph_url_spec(base.push('/'), (seq!['/'] + version).push('/'), seq!['/'] + path)
            == graph_url_spec(base, version, path),
{
    assert(base.push('/').drop_last() =~= base);
    assert((seq!['/'] + version).drop_first() =~= version);
    assert((seq!['/'] + path).drop_first() =~= path);
    lemma_strip_start_push(version);
    if strip_start_spec(version, '/').len() > 0 {
        lemma_strip_end_push(strip_start_spec(version, '/'));
    }
    let w = (seq!['/'] + version).push('/');
    assert(w.drop_first() =~= version.push('/'));
}

/// A Graph URL of clean parts (a base without a trailing slash, a version without slashes
/// at either end, a path without a leading slash) is those parts joined by single slashes,
/// and the `Authorization` header is `Bearer ` followed by the access token.
pub proof fn lemma_graph_url_clean_parts(base: Seq<char>, version: Seq<char>, path: Seq<char>, token: Seq<char>)
    requires
        base.len() == 0 || base.last() != '/',
        version.len() == 0 || (version[0] != '/' && version.last() != '/'),
        path.len() == 0 || path[0] != '/',
    ensures
        graph_url_spec(base, version, path) == base + seq!['/'] + version + seq!['/'] + path,
        bearer_spec(token) == seq!['B', 'e', 'a', 'r', 'e', 'r', ' '] + token,
{
    reveal_strlit("Bearer ");
    assert(strip_end_spec(base, '/') == base);
    assert(strip_start_spec(version, '/') == version);
    assert(strip_end_spec(version, '/') == version);
    assert(strip_start_spec(path, '/') == path);
    assert("Bearer "@ =~= seq!['B', 'e', 'a', 'r', 'e', 'r', ' ']);
}

/// Validation checks the version, phone number id, access token and base URL for blanks, in
/// that order, and then, in secure mode, that a non-blank app secret is set; a configuration
/// that passes all of these is valid.
pub proof fn lemma_validation_rules(c: WhatsAppApiConfig)
    ensures
        blank_spec(c.graph_api_version@) ==> validate_spec(c) == Err::<(), WhatsAppApiError>(
            WhatsAppApiError::Validation { field: "graph_api_version", message: "must not be blank" },
        ),
        !blank_spec(c.graph_api_version@) && blank_spec(c.phone_number_id@) ==> validate_spec(c)
            == Err::<(), WhatsAppApiError>(
            WhatsAppApiError::Validation { field: "phone_number_id", message: "must not be blank" },
        ),
        !blank_spec(c.graph_api_version@) && !blank_spec(c.phone_number_id@) && blank_spec(
            c.access_token@,
        ) ==> validate_spec(c) == Err::<(), WhatsAppApiError>(
            WhatsAppApiError::Validation { field: "access_token", message: "must not be blank" },
        ),
        !blank_spec(c.graph_api_version@) && !blank_spec(c.phone_number_id@) && !blank_spec(
            c.access_token@,
        ) && blank_spec(c.graph_base_url@) ==> validate_spec(c) == Err::<(), WhatsAppApiError>(
            WhatsAppApiError::Validation { field: "graph_base_url", message: "must not be blank" },
        ),
        !blank_spec(c.graph_api_version@) && !blank_spec(c.phone_number_id@) && !blank_spec(
            c.access_token@,
        ) && !blank_spec(c.graph_base_url@) ==> (validate_spec(c) is Ok <==> (!c.secure || (
        c.app_secret matches Some(s) && !blank_spec(s@)))),
        validate_spec(c) is Err && !blank_spec(c.graph_api_version@) && !blank_spec(c.phone_number_id@)
            && !blank_spec(c.access_token@) && !blank_spec(c.graph_base_url@) ==> validate_spec(c)
            == Err::<(), WhatsAppApiError>(WhatsAppApiError::MissingAppSecret),
{
}

/// `Validation` error for `field` when `value` is blank.
fn validate_not_blank(field: &'static str, value: &str) -> (r: Result<(), WhatsAppApiError>)
    ensures
        blank_spec(value@) ==> r == Err::<(), WhatsAppApiError>(
            WhatsAppApiError::Validation { field, message: "must not be blank" },
        ),
        !blank_spec(value@) ==> r is Ok,
{
    if is_blank(value) {
        return Err(WhatsAppApiError::Validation { field, message: "must not be blank" });
    }
    Ok(())
}

} // verus!
