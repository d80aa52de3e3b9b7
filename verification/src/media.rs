//! Graph API media and send responses, and MIME type normalization for uploads.
use vstd::prelude::*;

use crate::text::{
    find_char, find_spec, is_ws, lemma_find_spec, lemma_trim_avoids, lemma_trim_edges,
    lemma_trim_fixed, opt_text, str_eq, trim, trim_spec,
};
use crate::text::opt_seq;

verus! {

/// The answer to a media upload.
#[derive(Debug, Clone, PartialEq, Eq)]
pub struct MediaUploadResponse {
    pub id: String,
}

/// The metadata of an uploaded media object.
#[derive(Debug, Clone, PartialEq, Eq)]
pub struct MediaMetadataResponse {
    pub url: String,
    pub mime_type: Option<String>,
    pub sha256: Option<String>,
    pub file_size: Option<u64>,
}

/// The answer to a send-message request.
#[derive(Debug, Clone, PartialEq, Eq)]
pub struct SendMessageResponse {
    pub messages: Vec<SentMessageRef>,
}

/// One message accepted by a send-message request.
#[derive(Debug, Clone, PartialEq, Eq)]
pub struct SentMessageRef {
    pub id: String,
    pub message_status: Option<String>,
}

impl SendMessageResponse {
    /// The id of the first accepted message.
    pub fn first_message_id(&self) -> (r: Option<&str>)
        ensures
            opt_seq(r) == if self.messages@.len() > 0 {
                Some(self.messages@[0].id@)
            } else {
                None
            },
    {
        if self.messages.len() > 0 {
            Some(self.messages[0].id.as_str())
        } else {
            None
        }
    }

    /// Whether the first accepted message is held for quality assessment.
    pub fn held_for_quality_assessment(&self) -> (r: bool)
        ensures
            r == (self.messages@.len() > 0 && opt_text(self.messages@[0].message_status) == Some(
                "held_for_quality_assessment"@,
            )),
    {
        if self.messages.len() == 0 {
            return false;
        }
        match &self.messages[0].message_status {
            Some(s) => str_eq(s.as_str(), "held_for_quality_assessment"),
            None => false,
        }
    }
}

/// The text of `s` up to its first `c`, or all of it.
pub open spec fn before_first(s: Seq<char>, c: char) -> Seq<char> {
    match find_spec(s, c) {
        Some(i) => s.take(i),
        None => s,
    }
}

/// The MIME type sent with an upload: `kind/subtype` from the trimmed input, with
/// `application` for a missing kind and `octet-stream` for a missing subtype; only the first
/// subtype segment is kept.
pub open spec fn normalize_mime_spec(s: Seq<char>) -> Seq<char> {
    let t = trim_spec(s);
    if t.len() == 0 {
        "application/octet-stream"@
    } else {
        match find_spec(t, '/') {
            None => t + "/octet-stream"@,
            Some(i) => {
                let kind = trim_spec(t.take(i));
                if kind.len() == 0 {
                    "application/octet-stream"@
                } else {
                    let subtype = trim_spec(before_first(t.skip(i + 1), '/'));
                    if subtype.len() == 0 {
                        kind + "/octet-stream"@
                    } else {
                        kind + "/"@ + subtype
                    }
                }
            },
        }
    }
}

/// Normalizes a MIME type for a media upload: see `normalize_mime_spec`.
pub fn normalize_mime_type(mime_type: &str) -> (r: String)
    ensures
        r@ == normalize_mime_spec(mime_type@),
{
    let trimmed = trim(mime_type);
    let n = trimmed.unicode_len();
    if n == 0 {
        return String::from_str("application/octet-stream");
    }
    let slash = match find_char(trimmed, '/') {
        Some(i) => i,
        None => {
            return String::from_str(trimmed).concat("/octet-stream");
        },
    };
    let kind = trim(trimmed.substring_char(0, slash));
    if kind.unicode_len() == 0 {
        return String::from_str("application/octet-stream");
    }
    let rest = trimmed.substring_char(slash + 1, n);
    let first = match find_char(rest, '/') {
        Some(j) => rest.substring_char(0, j),
        None => rest,
    };
    proof {
        assert(rest@ =~= trimmed@.skip(slash + 1));
        assert(first@ =~= before_first(rest@, '/'));
    }
    let subtype = trim(first);
    if subtype.unicode_len() == 0 {
        return String::from_str(kind).concat("/octet-stream");
    }
    String::from_str(kind).concat("/").concat(subtype)
}

/// A part of a MIME type: non-empty, no slash, no whitespace at either end.
pub open spec fn clean_part(p: Seq<char>) -> bool {
    p.len() > 0 && !p.contains('/') && !is_ws(p[0]) && !is_ws(p.last())
}

/// `r` is `kind/subtype` with the given parts.
pub open spec fn mime_parts(r: Seq<char>, kind: Seq<char>, subtype: Seq<char>) -> bool {
    clean_part(kind) && clean_part(subtype) && r == kind + seq!['/'] + subtype
}

/// `r` has the shape of a MIME type: `kind/subtype`, both parts non-empty, slash-free and
/// without whitespace at their ends.
pub open spec fn mime_shaped(r: Seq<char>) -> bool {
    exists|kind: Seq<char>, subtype: Seq<char>| mime_parts(r, kind, subtype)
}

proof fn lemma_literal_parts()
    ensures
        clean_part("application"@),
        clean_part("octet-stream"@),
        "application/octet-stream"@ == "application"@ + seq!['/'] + "octet-stream"@,
{
    reveal_strlit("application/octet-stream");
    reveal_strlit("octet-stream");
    reveal_strlit("application");
    let app = "application"@;
    let oct = "octet-stream"@;
    assert(!app.contains('/')) by {
        assert forall|k: int| 0 <= k < app.len() implies app[k] != '/' by {}
    }
    assert(!oct.contains('/')) by {
        assert forall|k: int| 0 <= k < oct.len() implies oct[k] != '/' by {}
    }
    assert("application/octet-stream"@ =~= app + seq!['/'] + oct);
}

proof fn lemma_octet_stream_suffix(kind: Seq<char>)
    ensures
        kind + "/octet-stream"@ == kind + seq!['/'] + "octet-stream"@,
{
    reveal_strlit("/octet-stream");
    reveal_strlit("octet-stream");
    assert(kind + "/octet-stream"@ =~= kind + seq!['/'] + "octet-stream"@);
}

/// A trimmed text without slashes is a clean part when it is not empty.
proof fn lemma_trimmed_part(s: Seq<char>)
    requires
        !s.contains('/'),
        trim_spec(s).len() > 0,
    ensures
        clean_part(trim_spec(s)),
{
    lemma_trim_avoids(s, '/');
    lemma_trim_edges(s);
}

/// Every normalized MIME type is `kind/subtype`, with non-empty parts that hold no slash and
/// no whitespace at their ends.
pub proof fn lemma_normalized_mime_shape(s: Seq<char>)
    ensures
        mime_shaped(normalize_mime_spec(s)),
{
    reveal_strlit("/");
    let r = normalize_mime_spec(s);
    let t = trim_spec(s);
    lemma_literal_parts();
    if t.len() == 0 {
        assert(mime_parts(r, "application"@, "octet-stream"@));
    } else {
        lemma_find_spec(t, '/');
        match find_spec(t, '/') {
            None => {
                lemma_trim_edges(s);
                lemma_octet_stream_suffix(t);
                assert(mime_parts(r, t, "octet-stream"@));
            },
            Some(i) => {
                let head = t.take(i);
                assert(!head.contains('/'));
                let kind = trim_spec(head);
                if kind.len() == 0 {
                    assert(mime_parts(r, "application"@, "octet-stream"@));
                } else {
                    lemma_trimmed_part(head);
                    let rest = t.skip(i + 1);
                    let first = before_first(rest, '/');
                    lemma_find_spec(rest, '/');
                    assert(!first.contains('/'));
                    let subtype = trim_spec(first);
                    if subtype.len() == 0 {
                        lemma_octet_stream_suffix(kind);
                        assert(mime_parts(r, kind, "octet-stream"@));
                    } else {
                        lemma_trimmed_part(first);
                        assert(r =~= kind + seq!['/'] + subtype);
                        assert(mime_parts(r, kind, subtype));
                    }
                }
            },
        }
    }
}

/// A MIME type made of two clean parts normalizes to itself.
pub proof fn lemma_normalize_clean_parts(kind: Seq<char>, subtype: Seq<char>)
    requires
        clean_part(kind),
        clean_part(subtype),
    ensures
        normalize_mime_spec(kind + seq!['/'] + subtype) == kind + seq!['/'] + subtype,
{
    reveal_strlit("/");
    let r = kind + seq!['/'] + subtype;
    assert(r[0] == kind[0]);
    assert(r.last() == subtype.last());
    lemma_trim_fixed(r);
    let i = kind.len() as int;
    lemma_find_spec(r, '/');
    assert(r[i] == '/');
    assert forall|k: int| 0 <= k < i implies r[k] != '/' by {
        assert(r[k] == kind[k]);
    }
    let j = find_spec(r, '/')->0;
    assert(j == i) by {
        if j < i {
            assert(r[j] == kind[j]);
        }
    }
    assert(r.take(i) =~= kind);
    lemma_trim_fixed(kind);
    assert(r.skip(i + 1) =~= subtype);
    lemma_find_spec(subtype, '/');
    lemma_trim_fixed(subtype);
}

/// Normalizing a normalized MIME type changes nothing.
pub proof fn lemma_normalize_mime_idempotent(s: Seq<char>)
    ensures
        normalize_mime_spec(normalize_mime_spec(s)) == normalize_mime_spec(s),
{
    lemma_normalized_mime_shape(s);
    let r = normalize_mime_spec(s);
    let (kind, subtype) = choose|kind: Seq<char>, subtype: Seq<char>| mime_parts(r, kind, subtype);
    lemma_normalize_clean_parts(kind, subtype);
}

/// The defaults of MIME normalization: blank input gives `application/octet-stream`; a bare
/// kind, or a kind followed by a slash and nothing else, gets the subtype `octet-stream`;
/// and an input with nothing before its first slash gives `application/octet-stream`.
pub proof fn lemma_normalize_defaults(s: Seq<char>, kind: Seq<char>)
    requires
        clean_part(kind),
    ensures
        trim_spec(s).len() == 0 ==> normalize_mime_spec(s) == "application/octet-stream"@,
        normalize_mime_spec(kind) == kind + "/octet-stream"@,
        normalize_mime_spec(kind + seq!['/']) == kind + "/octet-stream"@,
        normalize_mime_spec(seq!['/'] + kind) == "application/octet-stream"@,
{
    lemma_trim_fixed(kind);
    lemma_find_spec(kind, '/');
    let a = kind + seq!['/'];
    assert(a[0] == kind[0]);
    assert(!is_ws(a.last()));
    lemma_trim_fixed(a);
    lemma_find_spec(a, '/');
    let i = kind.len() as int;
    assert(a[i] == '/');
    let j = find_spec(a, '/')->0;
    assert(j == i) by {
        if j < i {
            assert(a[j] == kind[j]);
            assert(kind.contains(a[j]));
        }
    }
    assert(a.take(i) =~= kind);
    assert(a.skip(i + 1) =~= Seq::<char>::empty());
    lemma_find_spec(Seq::<char>::empty(), '/');
    assert(trim_spec(Seq::<char>::empty()) =~= Seq::<char>::empty()) by {
        lemma_trim_empty();
    }
    let b = seq!['/'] + kind;
    assert(!is_ws(b[0]));
    assert(b.last() == kind.last());
    lemma_trim_fixed(b);
    lemma_find_spec(b, '/');
    assert(b[0] == '/');
    assert(find_spec(b, '/') == Some(0int));
    assert(b.take(0) =~= Seq::<char>::empty());
}

proof fn lemma_trim_empty()
    ensures
        trim_spec(Seq::<char>::empty()) == Seq::<char>::empty(),
{
    reveal_with_fuel(crate::text::trim_start_spec, 2);
    reveal_with_fuel(crate::text::trim_end_spec, 2);
}

} // verus!
