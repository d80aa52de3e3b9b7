//! Webhook challenge and signature verification, and parsing of webhook payloads into
//! typed events.
use vstd::prelude::*;

use crate::crypto::{hex_encode, hmac_sha256, hmac_sha256_spec};
use crate::error::WhatsAppApiError;
use crate::text::{
    blank_spec, hex_lower, is_blank, opt_seq, lemma_hex_lower_len, lemma_not_blank_when_first_not_ws, str_eq,
};

verus! {

/// The query parameters of a webhook subscription challenge.
#[derive(Debug, Clone, Copy, PartialEq, Eq)]
pub struct WebhookChallengeParams<'a> {
    pub mode: Option<&'a str>,
    pub verify_token: Option<&'a str>,
    pub challenge: Option<&'a str>,
}

/// The answer to a subscription challenge, given the expected verify token.
pub open spec fn challenge_result(
    mode: Option<Seq<char>>,
    verify_token: Option<Seq<char>>,
    challenge: Option<Seq<char>>,
    expected: Option<Seq<char>>,
) -> Result<Seq<char>, WhatsAppApiError> {
    match (expected, mode, verify_token) {
        (None, _, _) => Err(WhatsAppApiError::MissingVerifyToken),
        (Some(_), None, _) => Err(WhatsAppApiError::MissingSearchParams),
        (Some(_), Some(_), None) => Err(WhatsAppApiError::MissingSearchParams),
        (Some(e), Some(m), Some(t)) => if m == "subscribe"@ && t == e {
            Ok(
                match challenge {
                    Some(c) => c,
                    None => Seq::empty(),
                },
            )
        } else {
            Err(WhatsAppApiError::FailedToVerifyToken)
        },
    }
}

/// Answers a webhook subscription challenge: with the challenge text when the mode is
/// `subscribe` and the token is the expected one.
pub fn verify_webhook_challenge(
    params: WebhookChallengeParams<'_>,
    expected_verify_token: Option<&str>,
) -> (r: Result<String, WhatsAppApiError>)
    ensures
        match challenge_result(
            opt_seq(params.mode),
            opt_seq(params.verify_token),
            opt_seq(params.challenge),
            opt_seq(expected_verify_token),
        ) {
            Ok(c) => r matches Ok(s) && s@ == c,
            Err(e) => r == Err::<String, WhatsAppApiError>(e),
        },
{
    let expected = match expected_verify_token {
        Some(e) => e,
        None => {
            return Err(WhatsAppApiError::MissingVerifyToken);
        },
    };
    let mode = match params.mode {
        Some(m) => m,
        None => {
            return Err(WhatsAppApiError::MissingSearchParams);
        },
    };
    let verify_token = match params.verify_token {
        Some(t) => t,
        None => {
            return Err(WhatsAppApiError::MissingSearchParams);
        },
    };
    if str_eq(mode, "subscribe") && str_eq(verify_token, expected) {
        let challenge = match params.challenge {
            Some(c) => String::from_str(c),
            None => String::new(),
        };
        return Ok(challenge);
    }
    Err(WhatsAppApiError::FailedToVerifyToken)
}

/// The prefix that a signature header carries before the hex digest.
pub open spec fn sha256_prefix() -> Seq<char> {
    seq!['s', 'h', 'a', '2', '5', '6', '=']
}

/// The outcome of checking a hex digest against a computed tag: accepted exactly when the
/// digest is the tag's lowercase hexadecimal text.
pub open spec fn digest_result(tag: Seq<u8>, digest: Seq<char>) -> Result<(), WhatsAppApiError> {
    if hex_lower(tag) == digest {
        Ok(())
    } else {
        Err(WhatsAppApiError::FailedToVerifySignature)
    }
}

/// The outcome of verifying a request signature over the raw body with the app secret.
pub open spec fn request_signature_result(
    raw_body: Option<Seq<char>>,
    signature: Option<Seq<char>>,
    app_secret: Option<Seq<char>>,
) -> Result<(), WhatsAppApiError> {
    if raw_body is None {
        Err(WhatsAppApiError::MissingRawBody)
    } else if signature is None || blank_spec(signature->0) {
        Err(WhatsAppApiError::MissingSignature)
    } else if app_secret is None || blank_spec(app_secret->0) {
        Err(WhatsAppApiError::MissingAppSecret)
    } else if !sha256_prefix().is_prefix_of(signature->0) || signature->0.len() == sha256_prefix().len() {
        Err(WhatsAppApiError::FailedToVerifySignature)
    } else {
        digest_result(
            hmac_sha256_spec(
                vstd::utf8::encode_utf8(app_secret->0),
                vstd::utf8::encode_utf8(raw_body->0),
            ),
            signature->0.skip(sha256_prefix().len() as int),
        )
    }
}

/// Compares two byte strings in time that depends on their length only.
pub fn constant_time_equals(left: &[u8], right: &[u8]) -> (r: bool)
    ensures
        r == (left@ == right@),
{
    if left.len() != right.len() {
        return false;
    }
    let n = left.len();
    let mut acc: u8 = 0;
    let mut i: usize = 0;
    while i < n
        invariant
            n == left@.len(),
            n == right@.len(),
            i <= n,
            (acc == 0) == (forall|k: int| 0 <= k < i ==> left@[k] == right@[k]),
        decreases n - i,
    {
        let a = left[i];
        let b = right[i];
        let next: u8 = acc | (a ^ b);
        assert((next == 0) == (acc == 0 && a == b)) by (bit_vector)
            requires
                next == acc | (a ^ b),
        ;
        acc = next;
        i = i + 1;
    }
    proof {
        if acc == 0 {
            assert(left@ =~= right@);
        }
    }
    acc == 0
}

proof fn lemma_encode_utf8_injective(a: Seq<char>, b: Seq<char>)
    ensures
        (vstd::utf8::encode_utf8(a) == vstd::utf8::encode_utf8(b)) == (a == b),
{
    vstd::utf8::encode_utf8_decode_utf8(a);
    vstd::utf8::encode_utf8_decode_utf8(b);
}

/// Checks a hex digest against an HMAC tag: `Ok` exactly when the digest is the tag's
/// lowercase hexadecimal text.
pub fn check_signature_digest(tag: &[u8], digest: &str) -> (r: Result<(), WhatsAppApiError>)
    ensures
        r == digest_result(tag@, digest@),
{
    let expected = hex_encode(tag);
    let same = constant_time_equals(expected.as_str().as_bytes(), digest.as_bytes());
    proof {
        lemma_encode_utf8_injective(expected@, digest@);
    }
    if same {
        Ok(())
    } else {
        Err(WhatsAppApiError::FailedToVerifySignature)
    }
}

/// Verifies the `X-Hub-Signature-256` header of a webhook request against the exact raw
/// body, with the app secret as HMAC-SHA256 key.
pub fn verify_request_signature(
    raw_body: Option<&str>,
    signature: Option<&str>,
    app_secret: Option<&str>,
) -> (r: Result<(), WhatsAppApiError>)
    ensures
        r == request_signature_result(opt_seq(raw_body), opt_seq(signature), opt_seq(app_secret)),
        opt_seq(raw_body) matches Some(body) && opt_seq(app_secret) matches Some(secret)
            && !blank_spec(secret) && opt_seq(signature) == Some(genuine_signature(body, secret))
            ==> r is Ok,
{
    let raw_body = match raw_body {
        Some(b) => b,
        None => {
            return Err(WhatsAppApiError::MissingRawBody);
        },
    };
    let signature = match signature {
        Some(s) => {
            if is_blank(s) {
                proof {
                    if app_secret is Some {
                        lemma_genuine_signature_not_blank(raw_body@, app_secret->0@);
                    }
                }
                return Err(WhatsAppApiError::MissingSignature);
            }
            s
        },
        None => {
            return Err(WhatsAppApiError::MissingSignature);
        },
    };
    let app_secret = match app_secret {
        Some(s) => {
            if is_blank(s) {
                return Err(WhatsAppApiError::MissingAppSecret);
            }
            s
        },
        None => {
            return Err(WhatsAppApiError::MissingAppSecret);
        },
    };
    let tag = match hmac_sha256(app_secret.as_bytes(), raw_body.as_bytes()) {
        Some(t) => t,
        None => {
            return Err(WhatsAppApiError::MissingAppSecret);
        },
    };
    proof {
        if signature@ == genuine_signature(raw_body@, app_secret@) {
            lemma_genuine_signature_accepted(raw_body@, app_secret@);
        }
    }
    let digest = match strip_sha256_prefix(signature) {
        Some(d) => d,
        None => {
            return Err(WhatsAppApiError::FailedToVerifySignature);
        },
    };
    if digest.unicode_len() == 0 {
        return Err(WhatsAppApiError::FailedToVerifySignature);
    }
    check_signature_digest(tag.as_slice(), digest)
}

/// The rest of `s` after the `sha256=` prefix, when it starts with it.
fn strip_sha256_prefix(s: &str) -> (r: Option<&str>)
    ensures
        sha256_prefix().is_prefix_of(s@) ==> (r matches Some(d) && d@ == s@.skip(
            sha256_prefix().len() as int,
        )),
        !sha256_prefix().is_prefix_of(s@) ==> r is None,
{
    let n = s.unicode_len();
    if n < 7 {
        return None;
    }
    let ok = s.get_char(0) == 's' && s.get_char(1) == 'h' && s.get_char(2) == 'a' && s.get_char(3)
        == '2' && s.get_char(4) == '5' && s.get_char(5) == '6' && s.get_char(6) == '=';
    if !ok {
        proof {
            let p = sha256_prefix();
            assert(!p.is_prefix_of(s@)) by {
                if p.is_prefix_of(s@) {
                    assert(s@[0] == p[0] && s@[1] == p[1] && s@[2] == p[2] && s@[3] == p[3]
                        && s@[4] == p[4] && s@[5] == p[5] && s@[6] == p[6]);
                }
            }
        }
        return None;
    }
    proof {
        let p = sha256_prefix();
        assert(s@.subrange(0, 7) =~= p);
    }
    Some(s.substring_char(7, n))
}

/// A subscription challenge in mode `subscribe` is answered with its challenge text when the
/// token is the expected one, and refused with `FailedToVerifyToken` otherwise.
pub proof fn lemma_subscribe_challenge(token: Seq<char>, challenge: Seq<char>, expected: Seq<char>)
    ensures
        challenge_result(Some("subscribe"@), Some(token), Some(challenge), Some(expected)) == if token
            == expected {
            Ok::<Seq<char>, WhatsAppApiError>(challenge)
        } else {
            Err(WhatsAppApiError::FailedToVerifyToken)
        },
{
}

/// A request signature is accepted only when it is `sha256=` followed by the lowercase hex of
/// the HMAC-SHA256 tag of the raw body's UTF-8 bytes under the app secret's UTF-8 bytes, and
/// the app secret is not blank.
pub proof fn lemma_accepted_signature_is_genuine(
    raw_body: Option<Seq<char>>,
    signature: Option<Seq<char>>,
    app_secret: Option<Seq<char>>,
)
    requires
        request_signature_result(raw_body, signature, app_secret) is Ok,
    ensures
        raw_body is Some,
        app_secret is Some,
        !blank_spec(app_secret->0),
        signature == Some(genuine_signature(raw_body->0, app_secret->0)),
{
    let s = signature->0;
    assert(s =~= sha256_prefix() + s.skip(sha256_prefix().len() as int));
}

/// The header value of a genuine signature: `sha256=` and the lowercase hex of the
/// HMAC-SHA256 tag of the raw body's UTF-8 bytes under the app secret's UTF-8 bytes.
pub open spec fn genuine_signature(raw_body: Seq<char>, app_secret: Seq<char>) -> Seq<char> {
    sha256_prefix() + hex_lower(
        hmac_sha256_spec(vstd::utf8::encode_utf8(app_secret), vstd::utf8::encode_utf8(raw_body)),
    )
}

proof fn lemma_genuine_signature_not_blank(raw_body: Seq<char>, app_secret: Seq<char>)
    ensures
        !blank_spec(genuine_signature(raw_body, app_secret)),
{
    let sig = genuine_signature(raw_body, app_secret);
    assert(sig[0] == 's');
    lemma_not_blank_when_first_not_ws(sig);
}

/// A genuine signature with a non-empty tag passes every check.
proof fn lemma_genuine_signature_accepted(raw_body: Seq<char>, app_secret: Seq<char>)
    requires
        !blank_spec(app_secret),
        hmac_sha256_spec(
            vstd::utf8::encode_utf8(app_secret),
            vstd::utf8::encode_utf8(raw_body),
        ).len() > 0,
    ensures
        request_signature_result(
            Some(raw_body),
            Some(genuine_signature(raw_body, app_secret)),
            Some(app_secret),
        ) is Ok,
{
    let tag = hmac_sha256_spec(vstd::utf8::encode_utf8(app_secret), vstd::utf8::encode_utf8(raw_body));
    let sig = genuine_signature(raw_body, app_secret);
    lemma_hex_lower_len(tag);
    lemma_genuine_signature_not_blank(raw_body, app_secret);
    assert(sha256_prefix().is_prefix_of(sig)) by {
        assert(sig.subrange(0, 7) =~= sha256_prefix());
    }
    assert(sig.skip(7) =~= hex_lower(tag));
}

/// How a subscription challenge is answered: without an expected token the error is
/// `MissingVerifyToken`; without a mode or token it is `MissingSearchParams`; with both, the
/// challenge text (empty when absent) is given back exactly when the mode is `subscribe` and
/// the token is the expected one, and `FailedToVerifyToken` is the answer otherwise.
pub proof fn lemma_challenge_rules(
    mode: Option<Seq<char>>,
    token: Option<Seq<char>>,
    challenge: Option<Seq<char>>,
    expected: Option<Seq<char>>,
)
    ensures
        expected is None ==> challenge_result(mode, token, challenge, expected) == Err::<
            Seq<char>,
            WhatsAppApiError,
        >(WhatsAppApiError::MissingVerifyToken),
        expected is Some && (mode is None || token is None) ==> challenge_result(
            mode,
            token,
            challenge,
            expected,
        ) == Err::<Seq<char>, WhatsAppApiError>(WhatsAppApiError::MissingSearchParams),
        expected is Some && mode is Some && token is Some ==> (if mode == Some("subscribe"@) && token
            == expected {
            challenge_result(mode, token, challenge, expected) == Ok::<Seq<char>, WhatsAppApiError>(
                match challenge {
                    Some(c) => c,
                    None => Seq::empty(),
                },
            )
        } else {
            challenge_result(mode, token, challenge, expected) == Err::<Seq<char>, WhatsAppApiError>(
                WhatsAppApiError::FailedToVerifyToken,
            )
        }),
{
}

/// The checks of a signature before any digest is compared: a missing body gives
/// `MissingRawBody`; then a missing or blank signature `MissingSignature`; then a missing or
/// blank app secret `MissingAppSecret`; then a signature without the `sha256=` prefix, or
/// with nothing after it, `FailedToVerifySignature`.
pub proof fn lemma_signature_input_checks(
    raw_body: Option<Seq<char>>,
    signature: Option<Seq<char>>,
    app_secret: Option<Seq<char>>,
)
    ensures
        raw_body is None ==> request_signature_result(raw_body, signature, app_secret) == Err::<
            (),
            WhatsAppApiError,
        >(WhatsAppApiError::MissingRawBody),
        raw_body is Some && (signature is None || blank_spec(signature->0)) ==> request_signature_result(
            raw_body,
            signature,
            app_secret,
        ) == Err::<(), WhatsAppApiError>(WhatsAppApiError::MissingSignature),
        raw_body is Some && signature is Some && !blank_spec(signature->0) && (app_secret is None
            || blank_spec(app_secret->0)) ==> request_signature_result(raw_body, signature, app_secret)
            == Err::<(), WhatsAppApiError>(WhatsAppApiError::MissingAppSecret),
        raw_body is Some && signature is Some && !blank_spec(signature->0) && app_secret is Some
            && !blank_spec(app_secret->0) && (!(seq!['s', 'h', 'a', '2', '5', '6', '=']).is_prefix_of(
            signature->0,
        ) || signature->0.len() == 7) ==> request_signature_result(raw_body, signature, app_secret)
            == Err::<(), WhatsAppApiError>(WhatsAppApiError::FailedToVerifySignature),
{
}

} // verus!
