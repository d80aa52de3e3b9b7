//! A JSON document model that the library can reason about, with lookup helpers and
//! the compact text form.
use vstd::prelude::*;

use crate::config::{debug_str, debug_str_spec};
use crate::text::{hex_digit, hex_digit_char, nonempty, opt_text, push_char, str_eq, trim, trim_spec};

verus! {

broadcast use vstd::std_specs::vec::axiom_vec_index_decreases;

/// A JSON value. Numbers are held as their JSON text. An object holds a list of members
/// and means what a `serde_json` map built from them in order holds: each key once, with
/// the value of its last member, in key order.
#[derive(Debug, PartialEq, Eq)]
pub enum JsonValue {
    Null,
    Bool(bool),
    Number(String),
    String(String),
    Array(Vec<JsonValue>),
    Object(Vec<(String, JsonValue)>),
}

/// The mathematical model of a JSON value.
#[verifier::ext_equal]
pub enum Json {
    Null,
    Bool(bool),
    Number(Seq<char>),
    Str(Seq<char>),
    Array(Seq<Json>),
    Object(Seq<(Seq<char>, Json)>),
}

impl JsonValue {
    pub open spec fn model(&self) -> Json
        decreases self,
    {
        match self {
            JsonValue::Null => Json::Null,
            JsonValue::Bool(b) => Json::Bool(*b),
            JsonValue::Number(n) => Json::Number(n@),
            JsonValue::String(s) => Json::Str(s@),
            JsonValue::Array(items) => Json::Array(
                Seq::new(
                    items.len() as nat,
                    |i: int|
                        if 0 <= i < items.len() {
                            items[i].model()
                        } else {
                            Json::Null
                        },
                ),
            ),
            JsonValue::Object(entries) => Json::Object(
                Seq::new(
                    entries.len() as nat,
                    |i: int|
                        if 0 <= i < entries.len() {
                            (entries[i].0@, entries[i].1.model())
                        } else {
                            (Seq::empty(), Json::Null)
                        },
                ),
            ),
        }
    }
}

impl View for JsonValue {
    type V = Json;

    open spec fn view(&self) -> Json {
        self.model()
    }
}


/// Facts about the model of an array or object, member by member.
pub proof fn lemma_model_members(v: &JsonValue)
    ensures
        v matches JsonValue::Array(items) ==> (v@ matches Json::Array(s) && s.len() == items.len()
            && forall|i: int| 0 <= i < items.len() ==> #[trigger] s[i] == items[i]@),
        v matches JsonValue::Object(es) ==> (v@ matches Json::Object(s) && s.len() == es.len()
            && forall|i: int| 0 <= i < es.len() ==> #[trigger] s[i] == (es[i].0@, es[i].1@)),
{
}

impl JsonValue {
    /// A copy of this value with the same model.
    pub fn duplicate(&self) -> (r: JsonValue)
        ensures
            r@ == self@,
        decreases self,
    {
        proof {
            lemma_model_members(self);
        }
        match self {
            JsonValue::Null => JsonValue::Null,
            JsonValue::Bool(b) => JsonValue::Bool(*b),
            JsonValue::Number(n) => JsonValue::Number(n.clone()),
            JsonValue::String(t) => JsonValue::String(t.clone()),
            JsonValue::Array(items) => {
                let mut out: Vec<JsonValue> = Vec::new();
                let n = items.len();
                let mut i: usize = 0;
                while i < n
                    invariant
                        *self == JsonValue::Array(*items),
                        n == items.len(),
                        i <= n,
                        out.len() == i,
                        forall|k: int| 0 <= k < i ==> #[trigger] out[k]@ == items[k]@,
                    decreases n - i,
                {
                    proof {
                        assert(decreases_to!(*self => self->Array_0));
                        assert(decreases_to!(*items => items[i as int]));
                    }
                    let c = items[i].duplicate();
                    out.push(c);
                    i = i + 1;
                }
                let r = JsonValue::Array(out);
                proof {
                    lemma_model_members(&r);
                    assert(r@->Array_0 =~= self@->Array_0);
                }
                r
            },
            JsonValue::Object(entries) => {
                let mut out: Vec<(String, JsonValue)> = Vec::new();
                let n = entries.len();
                let mut i: usize = 0;
                while i < n
                    invariant
                        *self == JsonValue::Object(*entries),
                        n == entries.len(),
                        i <= n,
                        out.len() == i,
                        forall|k: int|
                            0 <= k < i ==> #[trigger] out[k].0@ == entries[k].0@ && out[k].1@
                                == entries[k].1@,
                    decreases n - i,
                {
                    let key = entries[i].0.clone();
                    proof {
                        assert(decreases_to!(*self => self->Object_0));
                        assert(decreases_to!(*entries => entries[i as int]));
                        assert(decreases_to!(entries[i as int] => entries[i as int].1));
                    }
                    let c = entries[i].1.duplicate();
                    out.push((key, c));
                    i = i + 1;
                }
                let r = JsonValue::Object(out);
                proof {
                    lemma_model_members(&r);
                    assert(r@->Object_0 =~= self@->Object_0);
                }
                r
            },
        }
    }
}

impl Clone for JsonValue {
    fn clone(&self) -> (r: Self)
        ensures
            r@ == self@,
    {
        self.duplicate()
    }
}

/// The value stored under `key` in an object's members: that of the last member with that
/// key, as a map built from the members in order holds it.
pub open spec fn entry_value(es: Seq<(Seq<char>, Json)>, key: Seq<char>) -> Option<Json>
    decreases es.len(),
{
    if es.len() == 0 {
        None
    } else if es.last().0 == key {
        Some(es.last().1)
    } else {
        entry_value(es.drop_last(), key)
    }
}

/// Member lookup: `None` unless `v` is an object holding `key`.
pub open spec fn get_spec(v: Option<Json>, key: Seq<char>) -> Option<Json> {
    match v {
        Some(Json::Object(es)) => entry_value(es, key),
        _ => None,
    }
}

/// `v` if it is an object.
pub open spec fn object_spec(v: Option<Json>) -> Option<Json> {
    match v {
        Some(Json::Object(es)) => Some(Json::Object(es)),
        _ => None,
    }
}

/// The first element of `v` if `v` is an array whose first element is an object.
pub open spec fn first_object_spec(v: Option<Json>) -> Option<Json> {
    match v {
        Some(Json::Array(items)) => if items.len() > 0 && items[0] is Object {
            Some(items[0])
        } else {
            None
        },
        _ => None,
    }
}

pub open spec fn opt_model(o: Option<&JsonValue>) -> Option<Json> {
    match o {
        Some(v) => Some(v@),
        None => None,
    }
}

pub open spec fn opt_owned_model(o: Option<JsonValue>) -> Option<Json> {
    match o {
        Some(v) => Some(v@),
        None => None,
    }
}

impl JsonValue {
    /// The value stored under `key`, when `self` is an object that holds it.
    pub fn get<'a>(&'a self, key: &str) -> (r: Option<&'a JsonValue>)
        ensures
            opt_model(r) == get_spec(Some(self@), key@),
    {
        proof {
            lemma_model_members(self);
        }
        match self {
            JsonValue::Object(entries) => {
                let ghost es = self@->Object_0;
                let n = entries.len();
                let mut i: usize = n;
                assert(es.subrange(0, n as int) =~= es);
                while i > 0
                    invariant
                        self@ == Json::Object(es),
                        n == entries.len(),
                        n == es.len(),
                        i <= n,
                        forall|k: int| 0 <= k < n ==> #[trigger] es[k] == (entries[k].0@, entries[k].1@),
                        entry_value(es, key@) == entry_value(es.subrange(0, i as int), key@),
                    decreases i,
                {
                    assert(es.subrange(0, i as int).last() == es[i - 1]);
                    if str_eq(entries[i - 1].0.as_str(), key) {
                        return Some(&entries[i - 1].1);
                    }
                    assert(es.subrange(0, i as int).drop_last() =~= es.subrange(0, i - 1));
                    i = i - 1;
                }
                None
            },
            _ => None,
        }
    }

    /// Whether this value is an object.
    pub fn is_object(&self) -> (r: bool)
        ensures
            r == (self@ is Object),
    {
        match self {
            JsonValue::Object(_) => true,
            _ => false,
        }
    }
}

/// Member lookup on an optional value.
pub fn get_in<'a>(v: Option<&'a JsonValue>, key: &str) -> (r: Option<&'a JsonValue>)
    ensures
        opt_model(r) == get_spec(opt_model(v), key@),
{
    match v {
        Some(x) => x.get(key),
        None => None,
    }
}

/// Keeps `v` only if it is an object.
pub fn as_object<'a>(v: Option<&'a JsonValue>) -> (r: Option<&'a JsonValue>)
    ensures
        opt_model(r) == object_spec(opt_model(v)),
{
    match v {
        Some(x) => if x.is_object() {
            Some(x)
        } else {
            None
        },
        None => None,
    }
}

/// The first element of an array, when it is an object.
pub fn first_object<'a>(v: Option<&'a JsonValue>) -> (r: Option<&'a JsonValue>)
    ensures
        opt_model(r) == first_object_spec(opt_model(v)),
{
    match v {
        Some(x) => {
            proof {
                lemma_model_members(x);
            }
            match x {
                JsonValue::Array(items) => {
                    if items.len() > 0 && items[0].is_object() {
                        Some(&items[0])
                    } else {
                        None
                    }
                },
                _ => None,
            }
        },
        None => None,
    }
}

/// How one character is written inside a JSON string literal.
pub open spec fn escape_char(c: char) -> Seq<char> {
    if c == '"' {
        seq!['\\', '"']
    } else if c == '\\' {
        seq!['\\', '\\']
    } else if c == '\u{8}' {
        seq!['\\', 'b']
    } else if c == '\t' {
        seq!['\\', 't']
    } else if c == '\n' {
        seq!['\\', 'n']
    } else if c == '\u{c}' {
        seq!['\\', 'f']
    } else if c == '\r' {
        seq!['\\', 'r']
    } else if (c as u32) < 0x20 {
        seq!['\\', 'u', '0', '0', hex_digit(((c as u32) / 16) as u8), hex_digit(((c as u32) % 16) as u8)]
    } else {
        seq![c]
    }
}

/// The escaped contents of a JSON string literal.
pub open spec fn escape_spec(s: Seq<char>) -> Seq<char>
    decreases s.len(),
{
    if s.len() == 0 {
        Seq::empty()
    } else {
        escape_spec(s.drop_last()) + escape_char(s.last())
    }
}

/// A JSON string literal for `s`.
pub open spec fn quoted(s: Seq<char>) -> Seq<char> {
    seq!['"'] + escape_spec(s) + seq!['"']
}

/// The compact JSON text of a value as `serde_json` writes it: no whitespace between
/// tokens, and an object's members as its map holds them (see `key_order`).
pub open spec fn json_text(v: Json) -> Seq<char>
    decreases v, 0int,
{
    match v {
        Json::Null => seq!['n', 'u', 'l', 'l'],
        Json::Bool(b) => if b {
            seq!['t', 'r', 'u', 'e']
        } else {
            seq!['f', 'a', 'l', 's', 'e']
        },
        Json::Number(n) => n,
        Json::Str(s) => quoted(s),
        Json::Array(items) => seq!['['] + items_text(items, items.len() as int) + seq![']'],
        Json::Object(es) => {
            let idx = key_order(es, es.len() as int);
            seq!['{'] + members_text(es, idx, idx.len() as int) + seq!['}']
        },
    }
}

/// The first `n` elements as JSON text, joined by commas.
pub open spec fn items_text(items: Seq<Json>, n: int) -> Seq<char>
    decreases items, n,
{
    if n <= 0 || n > items.len() {
        Seq::empty()
    } else if n == 1 {
        json_text(items[0])
    } else {
        items_text(items, n - 1) + seq![','] + json_text(items[n - 1])
    }
}

/// The `"key":value` text of member `j`.
pub open spec fn member_text(es: Seq<(Seq<char>, Json)>, j: int) -> Seq<char>
    decreases es, 0int,
{
    if 0 <= j < es.len() {
        quoted(es[j].0) + seq![':'] + json_text(es[j].1)
    } else {
        Seq::empty()
    }
}

/// The text of the members at the first `n` of the indices `idx`, joined by commas.
pub open spec fn members_text(es: Seq<(Seq<char>, Json)>, idx: Seq<int>, n: int) -> Seq<char>
    decreases es, 1int, n,
{
    if n <= 0 || n > idx.len() {
        Seq::empty()
    } else if n == 1 {
        member_text(es, idx[0])
    } else {
        members_text(es, idx, n - 1) + seq![','] + member_text(es, idx[n - 1])
    }
}

/// The text that a scalar lookup gives: trimmed string contents, or the trimmed JSON text of
/// any other non-null value; `None` for absent, null or blank values.
pub open spec fn string_value_spec(v: Option<Json>) -> Option<Seq<char>> {
    match v {
        None => None,
        Some(Json::Null) => None,
        Some(Json::Str(s)) => nonempty(trim_spec(s)),
        Some(other) => nonempty(trim_spec(json_text(other))),
    }
}

/// Appends the escaped contents of `s` as they stand inside a JSON string literal.
pub fn write_escaped(s: &str, out: &mut String)
    ensures
        final(out)@ == old(out)@ + escape_spec(s@),
{
    let n = s.unicode_len();
    let mut i: usize = 0;
    assert(s@.subrange(0, 0) =~= Seq::<char>::empty());
    assert(old(out)@ + Seq::<char>::empty() =~= old(out)@);
    while i < n
        invariant
            n == s@.len(),
            i <= n,
            out@ == old(out)@ + escape_spec(s@.subrange(0, i as int)),
        decreases n - i,
    {
        let ghost before = out@;
        let c = s.get_char(i);
        if c == '"' {
            push_char(out, '\\');
            push_char(out, '"');
        } else if c == '\\' {
            push_char(out, '\\');
            push_char(out, '\\');
        } else if c == '\u{8}' {
            push_char(out, '\\');
            push_char(out, 'b');
        } else if c == '\t' {
            push_char(out, '\\');
            push_char(out, 't');
        } else if c == '\n' {
            push_char(out, '\\');
            push_char(out, 'n');
        } else if c == '\u{c}' {
            push_char(out, '\\');
            push_char(out, 'f');
        } else if c == '\r' {
            push_char(out, '\\');
            push_char(out, 'r');
        } else if (c as u32) < 0x20 {
            let code = c as u32;
            push_char(out, '\\');
            push_char(out, 'u');
            push_char(out, '0');
            push_char(out, '0');
            push_char(out, hex_digit_char((code / 16) as u8));
            push_char(out, hex_digit_char((code % 16) as u8));
        } else {
            push_char(out, c);
        }
        proof {
            assert(out@ =~= before + escape_char(c));
            assert(s@.subrange(0, i + 1).drop_last() =~= s@.subrange(0, i as int));
            assert(s@.subrange(0, i + 1).last() == c);
            assert(escape_spec(s@.subrange(0, i + 1)) == escape_spec(s@.subrange(0, i as int))
                + escape_char(c));
            assert(out@ =~= old(out)@ + escape_spec(s@.subrange(0, i + 1)));
        }
        i = i + 1;
    }
    assert(s@.subrange(0, n as int) =~= s@);
}

fn write_json(v: &JsonValue, out: &mut String)
    ensures
        final(out)@ == old(out)@ + json_text(v@),
    decreases v,
{
    proof {
        lemma_model_members(v);
    }
    match v {
        JsonValue::Null => {
            push_char(out, 'n');
            push_char(out, 'u');
            push_char(out, 'l');
            push_char(out, 'l');
            assert(out@ =~= old(out)@ + json_text(v@));
        },
        JsonValue::Bool(b) => {
            if *b {
                push_char(out, 't');
                push_char(out, 'r');
                push_char(out, 'u');
                push_char(out, 'e');
            } else {
                push_char(out, 'f');
                push_char(out, 'a');
                push_char(out, 'l');
                push_char(out, 's');
                push_char(out, 'e');
            }
            assert(out@ =~= old(out)@ + json_text(v@));
        },
        JsonValue::Number(n) => {
            out.append(n.as_str());
        },
        JsonValue::String(t) => {
            push_char(out, '"');
            write_escaped(t.as_str(), out);
            push_char(out, '"');
            assert(out@ =~= old(out)@ + json_text(v@));
        },
        JsonValue::Array(items) => {
            push_char(out, '[');
            let ghost start = out@;
            let ghost s = v@->Array_0;
            let n = items.len();
            let mut i: usize = 0;
            assert(start + items_text(s, 0) =~= start);
            while i < n
                invariant
                    *v == JsonValue::Array(*items),
                    v@ == Json::Array(s),
                    n == items.len(),
                    n == s.len(),
                    i <= n,
                    forall|k: int| 0 <= k < n ==> #[trigger] s[k] == items[k]@,
                    out@ == start + items_text(s, i as int),
                decreases n - i,
            {
                if i > 0 {
                    push_char(out, ',');
                }
                let ghost mid = out@;
                proof {
                    assert(decreases_to!(*v => v->Array_0));
                    assert(decreases_to!(*items => items[i as int]));
                }
                write_json(&items[i], out);
                proof {
                    assert(out@ =~= mid + json_text(s[i as int]));
                    assert(out@ =~= start + items_text(s, i + 1));
                }
                i = i + 1;
            }
            push_char(out, ']');
            assert(out@ =~= old(out)@ + json_text(v@));
        },
        JsonValue::Object(entries) => {
            push_char(out, '{');
            let ghost start = out@;
            let ghost s = v@->Object_0;
            let order = entry_order(entries);
            let ghost idx = as_ints(order@);
            proof {
                assert(s =~= members_model(entries@));
            }
            let n = order.len();
            let mut i: usize = 0;
            assert(start + members_text(s, idx, 0) =~= start);
            while i < n
                invariant
                    *v == JsonValue::Object(*entries),
                    v@ == Json::Object(s),
                    s.len() == entries.len(),
                    forall|k: int| 0 <= k < s.len() ==> #[trigger] s[k] == (entries[k].0@, entries[k].1@),
                    idx == as_ints(order@),
                    idx == key_order(s, s.len() as int),
                    n == order.len(),
                    forall|k: int| 0 <= k < n ==> #[trigger] order[k] < entries.len(),
                    i <= n,
                    out@ == start + members_text(s, idx, i as int),
                decreases n - i,
            {
                if i > 0 {
                    push_char(out, ',');
                }
                let ghost mid = out@;
                let j = order[i];
                push_char(out, '"');
                write_escaped(entries[j].0.as_str(), out);
                push_char(out, '"');
                push_char(out, ':');
                proof {
                    assert(decreases_to!(*v => v->Object_0));
                    assert(decreases_to!(*entries => entries[j as int]));
                    assert(decreases_to!(entries[j as int] => entries[j as int].1));
                }
                write_json(&entries[j].1, out);
                proof {
                    assert(idx[i as int] == j as int);
                    assert(out@ =~= mid + member_text(s, j as int));
                    assert(out@ =~= start + members_text(s, idx, i + 1));
                }
                i = i + 1;
            }
            push_char(out, '}');
            assert(out@ =~= old(out)@ + json_text(v@));
        },
    }
}

impl JsonValue {
    /// The compact JSON text of this value.
    pub fn to_json_text(&self) -> (r: String)
        ensures
            r@ == json_text(self@),
    {
        let mut out = String::new();
        write_json(self, &mut out);
        assert(out@ =~= json_text(self@));
        out
    }
}

/// The text of a member used as a scalar: see `string_value_spec`.
pub fn string_value(v: Option<&JsonValue>) -> (r: Option<String>)
    ensures
        opt_text(r) == string_value_spec(opt_model(v)),
{
    match v {
        None => None,
        Some(x) => {
            let text: String = match x {
                JsonValue::Null => {
                    return None;
                },
                JsonValue::String(t) => String::from_str(trim(t.as_str())),
                _ => {
                    let whole = x.to_json_text();
                    String::from_str(trim(whole.as_str()))
                },
            };
            if text.unicode_len() == 0 {
                None
            } else {
                Some(text)
            }
        },
    }
}

/// The model of a list of object members.
pub open spec fn members_model(es: Seq<(String, JsonValue)>) -> Seq<(Seq<char>, Json)> {
    Seq::new(es.len(), |i: int| (es[i].0@, es[i].1@))
}

/// An object with the given members, in order.
pub fn object_from(members: Vec<(String, JsonValue)>) -> (r: JsonValue)
    ensures
        r@ == Json::Object(members_model(members@)),
{
    let r = JsonValue::Object(members);
    proof {
        lemma_model_members(&r);
        assert(r@->Object_0 =~= members_model(members@));
    }
    r
}

/// Appends the member `key: value`.
pub fn push_member(members: &mut Vec<(String, JsonValue)>, key: &str, value: JsonValue)
    ensures
        members_model(final(members)@) == members_model(old(members)@).push((key@, value@)),
{
    members.push((String::from_str(key), value));
    assert(members_model(members@) =~= members_model(old(members)@).push((key@, value@)));
}

/// A JSON string value.
pub fn json_string(s: &str) -> (r: JsonValue)
    ensures
        r@ == Json::Str(s@),
{
    JsonValue::String(String::from_str(s))
}

/// Code point order of texts, which is the order `Ord` gives `str` (UTF-8 byte order agrees
/// with code point order): the first differing character decides, and a proper prefix
/// comes first.
pub open spec fn text_less(a: Seq<char>, b: Seq<char>) -> bool
    decreases a.len(),
{
    if b.len() == 0 {
        false
    } else if a.len() == 0 {
        true
    } else if a[0] != b[0] {
        (a[0] as int) < (b[0] as int)
    } else {
        text_less(a.drop_first(), b.drop_first())
    }
}

/// Whether `a` comes before `b` in code point order.
pub fn text_less_than(a: &str, b: &str) -> (r: bool)
    ensures
        r == text_less(a@, b@),
{
    let n = a.unicode_len();
    let m = b.unicode_len();
    let mut i: usize = 0;
    assert(a@.skip(0) =~= a@);
    assert(b@.skip(0) =~= b@);
    while i < n && i < m && a.get_char(i) == b.get_char(i)
        invariant
            n == a@.len(),
            m == b@.len(),
            i <= n,
            i <= m,
            text_less(a@, b@) == text_less(a@.skip(i as int), b@.skip(i as int)),
        decreases n - i,
    {
        assert(a@.skip(i as int).drop_first() =~= a@.skip(i + 1));
        assert(b@.skip(i as int).drop_first() =~= b@.skip(i + 1));
        i = i + 1;
    }
    if i == m {
        false
    } else if i == n {
        true
    } else {
        let c = a.get_char(i);
        let d = b.get_char(i);
        assert(a@.skip(i as int)[0] == c);
        assert(b@.skip(i as int)[0] == d);
        assert((c as u32) as int == c as int);
        assert((d as u32) as int == d as int);
        (c as u32) < (d as u32)
    }
}

/// The member indices of a map after setting the key of member `j`, kept in key order: an
/// index with an equal key is replaced by `j`, otherwise `j` goes before the first index
/// with a greater key.
pub open spec fn index_set(es: Seq<(Seq<char>, Json)>, idx: Seq<int>, j: int) -> Seq<int>
    decreases idx.len(),
{
    if idx.len() == 0 {
        seq![j]
    } else if es[idx[0]].0 == es[j].0 {
        seq![j] + idx.drop_first()
    } else if text_less(es[j].0, es[idx[0]].0) {
        seq![j] + idx
    } else {
        seq![idx[0]] + index_set(es, idx.drop_first(), j)
    }
}

/// The members of an object as a map of `serde_json` holds them, given by index: each key
/// once, with its last value, in key order.
pub open spec fn key_order(es: Seq<(Seq<char>, Json)>, n: int) -> Seq<int>
    decreases n,
{
    if n <= 0 || n > es.len() {
        Seq::empty()
    } else {
        index_set(es, key_order(es, n - 1), n - 1)
    }
}

/// The `Debug` text of a JSON value as `serde_json` writes it: `Null`, `Bool(..)`,
/// `Number(..)`, `String(..)`, `Array [..]` and `Object {..}` with keys in order.
pub open spec fn json_debug(v: Json) -> Seq<char>
    decreases v, 0int,
{
    match v {
        Json::Null => "Null"@,
        Json::Bool(b) => if b {
            "Bool(true)"@
        } else {
            "Bool(false)"@
        },
        Json::Number(n) => "Number("@ + n + ")"@,
        Json::Str(s) => "String("@ + debug_str_spec(s) + ")"@,
        Json::Array(items) => "Array ["@ + items_debug(items, items.len() as int) + "]"@,
        Json::Object(es) => {
            let idx = key_order(es, es.len() as int);
            "Object {"@ + entries_debug(es, idx, idx.len() as int) + "}"@
        },
    }
}

/// The `Debug` text of the first `n` elements, joined by `, `.
pub open spec fn items_debug(items: Seq<Json>, n: int) -> Seq<char>
    decreases items, n,
{
    if n <= 0 || n > items.len() {
        Seq::empty()
    } else if n == 1 {
        json_debug(items[0])
    } else {
        items_debug(items, n - 1) + ", "@ + json_debug(items[n - 1])
    }
}

/// The `Debug` text of member `j`: its quoted key, `: ` and its value.
pub open spec fn entry_debug(es: Seq<(Seq<char>, Json)>, j: int) -> Seq<char>
    decreases es, 0int,
{
    if 0 <= j < es.len() {
        debug_str_spec(es[j].0) + ": "@ + json_debug(es[j].1)
    } else {
        Seq::empty()
    }
}

/// The `Debug` text of the members at the first `n` of the indices `idx`, joined by `, `.
pub open spec fn entries_debug(es: Seq<(Seq<char>, Json)>, idx: Seq<int>, n: int) -> Seq<char>
    decreases es, 1int, n,
{
    if n <= 0 || n > idx.len() {
        Seq::empty()
    } else if n == 1 {
        entry_debug(es, idx[0])
    } else {
        entries_debug(es, idx, n - 1) + ", "@ + entry_debug(es, idx[n - 1])
    }
}

/// The indices that `index_set` gives are those it was given and `j`.
proof fn lemma_index_set_members(es: Seq<(Seq<char>, Json)>, idx: Seq<int>, j: int)
    ensures
        forall|k: int|
            0 <= k < index_set(es, idx, j).len() ==> (#[trigger] index_set(es, idx, j)[k] == j
                || idx.contains(index_set(es, idx, j)[k])),
    decreases idx.len(),
{
    if idx.len() > 0 && es[idx[0]].0 != es[j].0 && !text_less(es[j].0, es[idx[0]].0) {
        lemma_index_set_members(es, idx.drop_first(), j);
        let r = index_set(es, idx, j);
        let t = index_set(es, idx.drop_first(), j);
        assert forall|k: int| 0 <= k < r.len() implies (#[trigger] r[k] == j || idx.contains(r[k])) by {
            if k == 0 {
                assert(idx[0] == r[0]);
            } else {
                assert(r[k] == t[k - 1]);
                if t[k - 1] != j {
                    let w = choose|w: int| 0 <= w < idx.drop_first().len() && idx.drop_first()[w] == t[k - 1];
                    assert(idx[w + 1] == r[k]);
                }
            }
        }
    } else if idx.len() > 0 {
        let r = index_set(es, idx, j);
        assert forall|k: int| 0 <= k < r.len() implies (#[trigger] r[k] == j || idx.contains(r[k])) by {
            if k > 0 {
                if es[idx[0]].0 == es[j].0 {
                    assert(r[k] == idx[k]);
                } else {
                    assert(r[k] == idx[k - 1]);
                }
            }
        }
    }
}

/// Every index in `key_order(es, n)` is below `n`.
proof fn lemma_key_order_range(es: Seq<(Seq<char>, Json)>, n: int)
    requires
        0 <= n <= es.len(),
    ensures
        forall|k: int| 0 <= k < key_order(es, n).len() ==> 0 <= #[trigger] key_order(es, n)[k] < n,
    decreases n,
{
    if n > 0 {
        lemma_key_order_range(es, n - 1);
        lemma_index_set_members(es, key_order(es, n - 1), n - 1);
        let prev = key_order(es, n - 1);
        let r = key_order(es, n);
        assert forall|k: int| 0 <= k < r.len() implies 0 <= #[trigger] r[k] < n by {
            if r[k] != n - 1 {
                let w = choose|w: int| 0 <= w < prev.len() && prev[w] == r[k];
                assert(0 <= prev[w] < n - 1);
            }
        }
    }
}

/// The index sequence as integers.
pub open spec fn as_ints(v: Seq<usize>) -> Seq<int> {
    Seq::new(v.len(), |k: int| v[k] as int)
}

/// Sets the key of member `j` in the key-ordered indices `idx`, as `index_set` does.
fn set_index(entries: &Vec<(String, JsonValue)>, idx: &mut Vec<usize>, j: usize)
    requires
        j < entries.len(),
        forall|k: int| 0 <= k < old(idx).len() ==> #[trigger] old(idx)[k] < entries.len(),
    ensures
        as_ints(final(idx)@) == index_set(members_model(entries@), as_ints(old(idx)@), j as int),
{
    let ghost es = members_model(entries@);
    let ghost start = as_ints(idx@);
    let n = idx.len();
    let mut p: usize = 0;
    assert(start =~= start.take(0) + start.skip(0));
    while p < n && !str_eq(entries[idx[p]].0.as_str(), entries[j].0.as_str())
        && !text_less_than(entries[j].0.as_str(), entries[idx[p]].0.as_str())
        invariant
            idx@ == old(idx)@,
            start == as_ints(idx@),
            n == idx.len(),
            p <= n,
            j < entries.len(),
            es == members_model(entries@),
            forall|k: int| 0 <= k < idx.len() ==> #[trigger] idx[k] < entries.len(),
            index_set(es, start, j as int) == start.take(p as int) + index_set(
                es,
                start.skip(p as int),
                j as int,
            ),
        decreases n - p,
    {
        proof {
            let rest = start.skip(p as int);
            assert(rest[0] == idx[p as int] as int);
            assert(rest.drop_first() =~= start.skip(p + 1));
            assert(start.take(p + 1) =~= start.take(p as int).push(rest[0]));
            assert(index_set(es, rest, j as int) == seq![rest[0]] + index_set(
                es,
                rest.drop_first(),
                j as int,
            ));
            assert(start.take(p as int) + (seq![rest[0]] + index_set(es, start.skip(p + 1), j as int))
                =~= start.take(p + 1) + index_set(es, start.skip(p + 1), j as int));
        }
        p = p + 1;
    }
    if p == n {
        idx.push(j);
        proof {
            assert(start.skip(p as int) =~= Seq::<int>::empty());
            assert(start.take(p as int) =~= start);
            assert(as_ints(idx@) =~= start + seq![j as int]);
        }
    } else if str_eq(entries[idx[p]].0.as_str(), entries[j].0.as_str()) {
        idx.set(p, j);
        proof {
            let rest = start.skip(p as int);
            assert(rest[0] == old(idx)@[p as int] as int);
            assert(as_ints(idx@) =~= start.take(p as int) + (seq![j as int] + rest.drop_first()));
        }
    } else {
        idx.insert(p, j);
        proof {
            let rest = start.skip(p as int);
            assert(rest[0] == old(idx)@[p as int] as int);
            assert(as_ints(idx@) =~= start.take(p as int) + (seq![j as int] + rest));
        }
    }
}

/// The member indices of `entries` in the order and with the values of a `serde_json` map.
fn entry_order(entries: &Vec<(String, JsonValue)>) -> (r: Vec<usize>)
    ensures
        as_ints(r@) == key_order(members_model(entries@), entries.len() as int),
        forall|k: int| 0 <= k < r.len() ==> #[trigger] r[k] < entries.len(),
{
    let ghost es = members_model(entries@);
    let mut idx: Vec<usize> = Vec::new();
    let n = entries.len();
    let mut i: usize = 0;
    assert(as_ints(idx@) =~= key_order(es, 0));
    while i < n
        invariant
            n == entries.len(),
            es == members_model(entries@),
            i <= n,
            as_ints(idx@) == key_order(es, i as int),
            forall|k: int| 0 <= k < idx.len() ==> #[trigger] idx[k] < i,
        decreases n - i,
    {
        set_index(entries, &mut idx, i);
        proof {
            assert(key_order(es, i + 1) == index_set(es, key_order(es, i as int), i as int));
            assert(as_ints(idx@) == key_order(es, i + 1));
            lemma_key_order_range(es, i + 1);
            assert forall|k: int| 0 <= k < idx.len() implies #[trigger] idx[k] < i + 1 by {
                assert(as_ints(idx@)[k] == idx[k] as int);
                assert(0 <= key_order(es, i + 1)[k] < i + 1);
            }
        }
        i = i + 1;
    }
    idx
}

fn write_debug(v: &JsonValue, out: &mut String)
    ensures
        final(out)@ == old(out)@ + json_debug(v@),
    decreases v,
{
    proof {
        lemma_model_members(v);
    }
    match v {
        JsonValue::Null => {
            out.append("Null");
        },
        JsonValue::Bool(b) => {
            if *b {
                out.append("Bool(true)");
            } else {
                out.append("Bool(false)");
            }
        },
        JsonValue::Number(n) => {
            out.append("Number(");
            out.append(n.as_str());
            out.append(")");
            assert(out@ =~= old(out)@ + json_debug(v@));
        },
        JsonValue::String(t) => {
            out.append("String(");
            let q = debug_str(t.as_str());
            out.append(q.as_str());
            out.append(")");
            assert(out@ =~= old(out)@ + json_debug(v@));
        },
        JsonValue::Array(items) => {
            out.append("Array [");
            let ghost start = out@;
            let ghost s = v@->Array_0;
            let n = items.len();
            let mut i: usize = 0;
            assert(start + items_debug(s, 0) =~= start);
            while i < n
                invariant
                    *v == JsonValue::Array(*items),
                    v@ == Json::Array(s),
                    n == items.len(),
                    n == s.len(),
                    i <= n,
                    forall|k: int| 0 <= k < n ==> #[trigger] s[k] == items[k]@,
                    out@ == start + items_debug(s, i as int),
                decreases n - i,
            {
                if i > 0 {
                    out.append(", ");
                }
                let ghost mid = out@;
                proof {
                    assert(decreases_to!(*v => v->Array_0));
                    assert(decreases_to!(*items => items[i as int]));
                }
                write_debug(&items[i], out);
                proof {
                    assert(out@ =~= mid + json_debug(s[i as int]));
                    assert(out@ =~= start + items_debug(s, i + 1));
                }
                i = i + 1;
            }
            out.append("]");
            assert(out@ =~= old(out)@ + json_debug(v@));
        },
        JsonValue::Object(entries) => {
            out.append("Object {");
            let ghost start = out@;
            let ghost s = v@->Object_0;
            let order = entry_order(entries);
            let ghost idx = as_ints(order@);
            proof {
                assert(s =~= members_model(entries@));
                assert(json_debug(v@) == "Object {"@ + entries_debug(s, idx, idx.len() as int)
                    + "}"@);
            }
            let n = order.len();
            let mut i: usize = 0;
            assert(start + entries_debug(s, idx, 0) =~= start);
            while i < n
                invariant
                    *v == JsonValue::Object(*entries),
                    v@ == Json::Object(s),
                    s.len() == entries.len(),
                    forall|k: int| 0 <= k < s.len() ==> #[trigger] s[k] == (entries[k].0@, entries[k].1@),
                    idx == as_ints(order@),
                    n == order.len(),
                    forall|k: int| 0 <= k < n ==> #[trigger] order[k] < entries.len(),
                    i <= n,
                    out@ == start + entries_debug(s, idx, i as int),
                decreases n - i,
            {
                if i > 0 {
                    out.append(", ");
                }
                let ghost mid = out@;
                let j = order[i];
                let q = debug_str(entries[j].0.as_str());
                out.append(q.as_str());
                out.append(": ");
                proof {
                    assert(decreases_to!(*v => v->Object_0));
                    assert(decreases_to!(*entries => entries[j as int]));
                    assert(decreases_to!(entries[j as int] => entries[j as int].1));
                }
                write_debug(&entries[j].1, out);
                proof {
                    assert(idx[i as int] == j as int);
                    assert(out@ =~= mid + entry_debug(s, j as int));
                    assert(out@ =~= start + entries_debug(s, idx, i + 1));
                }
                i = i + 1;
            }
            out.append("}");
            assert(out@ =~= old(out)@ + json_debug(v@));
        },
    }
}

impl JsonValue {
    /// The `Debug` text of this value as `serde_json` writes it for its `Value`.
    pub fn debug_text(&self) -> (r: String)
        ensures
            r@ == json_debug(self@),
    {
        let mut out = String::new();
        write_debug(self, &mut out);
        assert(out@ =~= json_debug(self@));
        out
    }
}

/// A key looked up in members `a` followed by `b` is found in `b` if `b` holds it, and in
/// `a` otherwise.
pub proof fn lemma_entry_value_append(a: Seq<(Seq<char>, Json)>, b: Seq<(Seq<char>, Json)>, key: Seq<char>)
    ensures
        entry_value(a + b, key) == match entry_value(b, key) {
            Some(v) => Some(v),
            None => entry_value(a, key),
        },
    decreases b.len(),
{
    if b.len() == 0 {
        assert(a + b =~= a);
    } else {
        assert((a + b).drop_last() =~= a + b.drop_last());
        assert((a + b).last() == b.last());
        lemma_entry_value_append(a, b.drop_last(), key);
    }
}

/// One member holds exactly its own key.
pub proof fn lemma_entry_value_single(k: Seq<char>, v: Json, key: Seq<char>)
    ensures
        entry_value(seq![(k, v)], key) == if k == key {
            Some(v)
        } else {
            None
        },
{
    let s = seq![(k, v)];
    assert(s.drop_last() =~= Seq::<(Seq<char>, Json)>::empty());
    assert(s.last() == (k, v));
    assert(entry_value(Seq::<(Seq<char>, Json)>::empty(), key) is None);
}

/// The scalar text of a member: absent and null members have none; a string gives its text
/// trimmed of whitespace, and none when that is empty; `true` and `false` give those words.
pub proof fn lemma_scalar_text(t: Seq<char>, b: bool)
    ensures
        string_value_spec(None) is None,
        string_value_spec(Some(Json::Null)) is None,
        string_value_spec(Some(Json::Str(t))) == if trim_spec(t).len() == 0 {
            None
        } else {
            Some(trim_spec(t))
        },
        string_value_spec(Some(Json::Bool(b))) == Some(
            if b {
                seq!['t', 'r', 'u', 'e']
            } else {
                seq!['f', 'a', 'l', 's', 'e']
            },
        ),
{
    let w = if b {
        seq!['t', 'r', 'u', 'e']
    } else {
        seq!['f', 'a', 'l', 's', 'e']
    };
    assert(!crate::text::is_ws(w[0]) && !crate::text::is_ws(w.last()));
    crate::text::lemma_trim_fixed(w);
}

/// Texts that agree on their first `i` characters compare as their rests do.
proof fn lemma_text_less_skip(a: Seq<char>, b: Seq<char>, i: int)
    requires
        0 <= i <= a.len(),
        i <= b.len(),
        a.take(i) == b.take(i),
    ensures
        text_less(a, b) == text_less(a.skip(i), b.skip(i)),
    decreases i,
{
    if i > 0 {
        assert(a[0] == a.take(i)[0]);
        assert(b[0] == b.take(i)[0]);
        assert(a.drop_first().take(i - 1) =~= a.take(i).drop_first());
        assert(b.drop_first().take(i - 1) =~= b.take(i).drop_first());
        lemma_text_less_skip(a.drop_first(), b.drop_first(), i - 1);
        assert(a.drop_first().skip(i - 1) =~= a.skip(i));
        assert(b.drop_first().skip(i - 1) =~= b.skip(i));
    } else {
        assert(a.skip(0) =~= a);
        assert(b.skip(0) =~= b);
    }
}

/// Code point order: a proper prefix comes first, and otherwise the first differing
/// character decides by its code point.
pub proof fn lemma_text_order_direction(a: Seq<char>, b: Seq<char>, i: int)
    requires
        0 <= i <= a.len(),
        i <= b.len(),
        a.take(i) == b.take(i),
    ensures
        i == a.len() && i < b.len() ==> text_less(a, b),
        i == b.len() ==> !text_less(a, b),
        i < a.len() && i < b.len() && (a[i] as int) < (b[i] as int) ==> text_less(a, b),
        i < a.len() && i < b.len() && (b[i] as int) < (a[i] as int) ==> !text_less(a, b),
{
    lemma_text_less_skip(a, b, i);
    if i < a.len() {
        assert(a.skip(i)[0] == a[i]);
    }
    if i < b.len() {
        assert(b.skip(i)[0] == b[i]);
    }
}

proof fn lemma_text_less_irreflexive(a: Seq<char>)
    ensures
        !text_less(a, a),
    decreases a.len(),
{
    if a.len() > 0 {
        lemma_text_less_irreflexive(a.drop_first());
    }
}

proof fn lemma_text_less_transitive(a: Seq<char>, b: Seq<char>, c: Seq<char>)
    requires
        text_less(a, b),
        text_less(b, c),
    ensures
        text_less(a, c),
    decreases a.len(),
{
    if a.len() > 0 && b.len() > 0 && c.len() > 0 && a[0] == b[0] && b[0] == c[0] {
        lemma_text_less_transitive(a.drop_first(), b.drop_first(), c.drop_first());
    }
}

proof fn lemma_text_less_total(a: Seq<char>, b: Seq<char>)
    requires
        a != b,
    ensures
        text_less(a, b) || text_less(b, a),
    decreases a.len(),
{
    if a.len() > 0 && b.len() > 0 && a[0] == b[0] {
        if a.drop_first() == b.drop_first() {
            assert(a =~= seq![a[0]] + a.drop_first());
            assert(b =~= seq![b[0]] + b.drop_first());
        }
        lemma_text_less_total(a.drop_first(), b.drop_first());
    } else if a.len() == 0 && b.len() == 0 {
        assert(a =~= b);
    } else if a.len() > 0 && b.len() > 0 {
        assert((a[0] as int) != (b[0] as int));
    }
}

/// Code point order is a strict total order.
pub proof fn lemma_text_order_strict_total(a: Seq<char>, b: Seq<char>, c: Seq<char>)
    ensures
        !text_less(a, a),
        text_less(a, b) && text_less(b, c) ==> text_less(a, c),
        a != b ==> text_less(a, b) || text_less(b, a),
{
    lemma_text_less_irreflexive(a);
    if text_less(a, b) && text_less(b, c) {
        lemma_text_less_transitive(a, b, c);
    }
    if a != b {
        lemma_text_less_total(a, b);
    }
}

/// The keys at indices `idx` are in strictly increasing code point order.
pub open spec fn keys_sorted(es: Seq<(Seq<char>, Json)>, idx: Seq<int>) -> bool {
    forall|i: int, j: int| 0 <= i < j < idx.len() ==> text_less(#[trigger] es[idx[i]].0, #[trigger] es[idx[j]].0)
}

proof fn lemma_text_less_facts()
    ensures
        forall|a: Seq<char>| !#[trigger] text_less(a, a),
        forall|a: Seq<char>, b: Seq<char>, c: Seq<char>|
            #[trigger] text_less(a, b) && #[trigger] text_less(b, c) ==> text_less(a, c),
        forall|a: Seq<char>, b: Seq<char>| a != b ==> #[trigger] text_less(a, b) || #[trigger] text_less(b, a),
{
    assert forall|a: Seq<char>| !#[trigger] text_less(a, a) by {
        lemma_text_order_strict_total(a, a, a);
    }
    assert forall|a: Seq<char>, b: Seq<char>, c: Seq<char>|
        #[trigger] text_less(a, b) && #[trigger] text_less(b, c) implies text_less(a, c) by {
        lemma_text_order_strict_total(a, b, c);
    }
    assert forall|a: Seq<char>, b: Seq<char>| a != b implies #[trigger] text_less(a, b) || #[trigger] text_less(b, a) by {
        lemma_text_order_strict_total(a, b, b);
    }
}

/// Setting a key in sorted indices keeps them sorted; the result holds `j`, keeps every
/// index whose key differs from that of `j`, and holds no other index with `j`'s key.
proof fn lemma_index_set_sorted(es: Seq<(Seq<char>, Json)>, idx: Seq<int>, j: int)
    requires
        keys_sorted(es, idx),
    ensures
        keys_sorted(es, index_set(es, idx, j)),
        index_set(es, idx, j).contains(j),
        forall|x: int| idx.contains(x) && es[x].0 != es[j].0 ==> #[trigger] index_set(es, idx, j).contains(x),
        forall|k: int|
            0 <= k < index_set(es, idx, j).len() && #[trigger] index_set(es, idx, j)[k] != j ==> idx.contains(
                index_set(es, idx, j)[k],
            ) && es[index_set(es, idx, j)[k]].0 != es[j].0,
    decreases idx.len(),
{
    lemma_text_less_facts();
    let r = index_set(es, idx, j);
    if idx.len() == 0 {
        assert(r[0] == j);
    } else if es[idx[0]].0 == es[j].0 {
        assert(r[0] == j);
        assert forall|x: int| idx.contains(x) && es[x].0 != es[j].0 implies r.contains(x) by {
            let w = choose|w: int| 0 <= w < idx.len() && idx[w] == x;
            assert(w != 0);
            assert(r[w] == x);
        }
        assert forall|k: int| 0 <= k < r.len() && #[trigger] r[k] != j implies idx.contains(r[k]) && es[r[k]].0
            != es[j].0 by {
            assert(k > 0);
            assert(r[k] == idx[k]);
            assert(text_less(es[idx[0]].0, es[idx[k]].0));
        }
        assert forall|a: int, b: int| 0 <= a < b < r.len() implies text_less(#[trigger] es[r[a]].0, #[trigger] es[r[b]].0) by {
            if a == 0 {
                assert(text_less(es[idx[0]].0, es[idx[b]].0));
            } else {
                assert(text_less(es[idx[a]].0, es[idx[b]].0));
            }
        }
    } else if text_less(es[j].0, es[idx[0]].0) {
        assert(r[0] == j);
        assert forall|x: int| idx.contains(x) && es[x].0 != es[j].0 implies r.contains(x) by {
            let w = choose|w: int| 0 <= w < idx.len() && idx[w] == x;
            assert(r[w + 1] == x);
        }
        assert forall|k: int| 0 <= k < r.len() && #[trigger] r[k] != j implies idx.contains(r[k]) && es[r[k]].0
            != es[j].0 by {
            assert(r[k] == idx[k - 1]);
            if k - 1 > 0 {
                assert(text_less(es[idx[0]].0, es[idx[k - 1]].0));
            }
        }
        assert forall|a: int, b: int| 0 <= a < b < r.len() implies text_less(#[trigger] es[r[a]].0, #[trigger] es[r[b]].0) by {
            if a == 0 {
                if b - 1 > 0 {
                    assert(text_less(es[idx[0]].0, es[idx[b - 1]].0));
                }
            } else {
                assert(text_less(es[idx[a - 1]].0, es[idx[b - 1]].0));
            }
        }
    } else {
        let t = idx.drop_first();
        assert(keys_sorted(es, t)) by {
            assert forall|a: int, b: int| 0 <= a < b < t.len() implies text_less(#[trigger] es[t[a]].0, #[trigger] es[t[b]].0) by {
                assert(text_less(es[idx[a + 1]].0, es[idx[b + 1]].0));
            }
        }
        lemma_index_set_sorted(es, t, j);
        let rt = index_set(es, t, j);
        assert(r == seq![idx[0]] + rt);
        assert(text_less(es[idx[0]].0, es[j].0));
        assert(r.contains(j)) by {
            let w = choose|w: int| 0 <= w < rt.len() && rt[w] == j;
            assert(r[w + 1] == j);
        }
        assert forall|x: int| idx.contains(x) && es[x].0 != es[j].0 implies r.contains(x) by {
            let w = choose|w: int| 0 <= w < idx.len() && idx[w] == x;
            if w == 0 {
                assert(r[0] == x);
            } else {
                assert(t[w - 1] == x);
                assert(t.contains(x));
                assert(rt.contains(x));
                let v = choose|v: int| 0 <= v < rt.len() && rt[v] == x;
                assert(r[v + 1] == x);
            }
        }
        assert forall|k: int| 0 <= k < r.len() && #[trigger] r[k] != j implies idx.contains(r[k]) && es[r[k]].0
            != es[j].0 by {
            if k == 0 {
                assert(r[0] == idx[0]);
            } else {
                assert(r[k] == rt[k - 1]);
                assert(t.contains(rt[k - 1]));
                let w = choose|w: int| 0 <= w < t.len() && t[w] == rt[k - 1];
                assert(idx[w + 1] == r[k]);
            }
        }
        assert forall|a: int, b: int| 0 <= a < b < r.len() implies text_less(#[trigger] es[r[a]].0, #[trigger] es[r[b]].0) by {
            if a == 0 {
                assert(r[b] == rt[b - 1]);
                if rt[b - 1] == j {
                } else {
                    assert(t.contains(rt[b - 1]));
                    let w = choose|w: int| 0 <= w < t.len() && t[w] == rt[b - 1];
                    assert(idx[w + 1] == rt[b - 1]);
                    assert(text_less(es[idx[0]].0, es[idx[w + 1]].0));
                }
            } else {
                assert(r[a] == rt[a - 1]);
                assert(r[b] == rt[b - 1]);
                assert(text_less(es[rt[a - 1]].0, es[rt[b - 1]].0));
            }
        }
    }
}

proof fn lemma_key_order_step_present(es: Seq<(Seq<char>, Json)>, n: int)
    requires
        0 < n <= es.len(),
        keys_sorted(es, key_order(es, n - 1)),
        forall|m: int|
            #![trigger es[m]]
            0 <= m < n - 1 ==> exists|k: int|
                #![trigger key_order(es, n - 1)[k]]
                0 <= k < key_order(es, n - 1).len() && es[key_order(es, n - 1)[k]].0 == es[m].0,
    ensures
        forall|m: int|
            #![trigger es[m]]
            0 <= m < n ==> exists|k: int|
                #![trigger key_order(es, n)[k]]
                0 <= k < key_order(es, n).len() && es[key_order(es, n)[k]].0 == es[m].0,
{
    let prev = key_order(es, n - 1);
    let r = key_order(es, n);
    assert(r == index_set(es, prev, n - 1));
    lemma_index_set_sorted(es, prev, n - 1);
    assert forall|m: int| #![trigger es[m]] 0 <= m < n implies exists|k: int| #![trigger r[k]] 0 <= k < r.len() && es[r[k]].0 == es[m].0 by {
        if m == n - 1 {
            let w = choose|w: int| 0 <= w < r.len() && r[w] == n - 1;
            assert(es[r[w]].0 == es[m].0);
        } else {
            assert(es[m] == es[m]);
            let k0 = choose|k: int| 0 <= k < prev.len() && es[prev[k]].0 == es[m].0;
            let x = prev[k0];
            assert(prev.contains(x));
            if es[x].0 != es[n - 1].0 {
                assert(r.contains(x));
                let w = choose|w: int| 0 <= w < r.len() && r[w] == x;
                assert(es[r[w]].0 == es[m].0);
            } else {
                let w = choose|w: int| 0 <= w < r.len() && r[w] == n - 1;
                assert(es[r[w]].0 == es[m].0);
            }
        }
    }
}

proof fn lemma_key_order_step_last(es: Seq<(Seq<char>, Json)>, n: int)
    requires
        0 < n <= es.len(),
        keys_sorted(es, key_order(es, n - 1)),
        forall|k: int, m: int|
            0 <= k < key_order(es, n - 1).len() && #[trigger] key_order(es, n - 1)[k] < m < n - 1
                ==> #[trigger] es[m].0 != es[key_order(es, n - 1)[k]].0,
    ensures
        forall|k: int, m: int|
            0 <= k < key_order(es, n).len() && #[trigger] key_order(es, n)[k] < m < n ==> #[trigger] es[m].0
                != es[key_order(es, n)[k]].0,
{
    let prev = key_order(es, n - 1);
    let r = key_order(es, n);
    assert(r == index_set(es, prev, n - 1));
    lemma_index_set_sorted(es, prev, n - 1);
    assert forall|k: int, m: int| 0 <= k < r.len() && #[trigger] r[k] < m < n implies #[trigger] es[m].0
        != es[r[k]].0 by {
        if r[k] != n - 1 {
            assert(prev.contains(r[k]));
            let w = choose|w: int| 0 <= w < prev.len() && prev[w] == r[k];
            if m < n - 1 {
                assert(prev[w] < m < n - 1);
                assert(es[m].0 != es[prev[w]].0);
            }
        }
    }
}

/// The facts of `lemma_key_order_is_map`, kept opaque while they are built up.
#[verifier::opaque]
pub open spec fn map_order_facts(es: Seq<(Seq<char>, Json)>, n: int) -> bool {
    &&& keys_sorted(es, key_order(es, n))
    &&& forall|k: int| 0 <= k < key_order(es, n).len() ==> 0 <= #[trigger] key_order(es, n)[k] < n
    &&& forall|m: int|
        #![trigger es[m]]
        0 <= m < n ==> exists|k: int|
            #![trigger key_order(es, n)[k]]
            0 <= k < key_order(es, n).len() && es[key_order(es, n)[k]].0 == es[m].0
    &&& forall|k: int, m: int|
        0 <= k < key_order(es, n).len() && #[trigger] key_order(es, n)[k] < m < n ==> #[trigger] es[m].0
            != es[key_order(es, n)[k]].0
}

#[verifier::rlimit(30)]
proof fn lemma_map_order_step(es: Seq<(Seq<char>, Json)>, n: int)
    requires
        0 < n <= es.len(),
        map_order_facts(es, n - 1),
    ensures
        map_order_facts(es, n),
{
    reveal(map_order_facts);
    lemma_key_order_range(es, n);
    assert(key_order(es, n) == index_set(es, key_order(es, n - 1), n - 1));
    lemma_index_set_sorted(es, key_order(es, n - 1), n - 1);
    lemma_key_order_step_present(es, n);
    lemma_key_order_step_last(es, n);
}

proof fn lemma_map_order_all(es: Seq<(Seq<char>, Json)>, n: int)
    requires
        0 <= n <= es.len(),
    ensures
        map_order_facts(es, n),
    decreases n,
{
    if n > 0 {
        lemma_map_order_all(es, n - 1);
        lemma_map_order_step(es, n);
    } else {
        reveal(map_order_facts);
        assert(key_order(es, 0) =~= Seq::<int>::empty());
    }
}

/// An object's members as a `serde_json` map holds them: `key_order(es, n)` lists each key of
/// the first `n` members exactly once, at the index of its last member among them, in
/// strictly increasing code point order.
pub proof fn lemma_key_order_is_map(es: Seq<(Seq<char>, Json)>, n: int)
    requires
        0 <= n <= es.len(),
    ensures
        keys_sorted(es, key_order(es, n)),
        forall|k: int| 0 <= k < key_order(es, n).len() ==> 0 <= #[trigger] key_order(es, n)[k] < n,
        forall|m: int|
            #![trigger es[m]]
            0 <= m < n ==> exists|k: int|
                #![trigger key_order(es, n)[k]]
                0 <= k < key_order(es, n).len() && es[key_order(es, n)[k]].0 == es[m].0,
        forall|k: int, m: int|
            0 <= k < key_order(es, n).len() && #[trigger] key_order(es, n)[k] < m < n ==> #[trigger] es[m].0
                != es[key_order(es, n)[k]].0,
{
    lemma_map_order_all(es, n);
    reveal(map_order_facts);
}

/// Scalars in JSON text and in `Debug` text: `null`/`Null`, `true`/`Bool(true)`,
/// `false`/`Bool(false)`, a number as its text (`Number(..)` in `Debug`), a string quoted
/// with `"` (`String(..)` around its `Debug` quoting); inside a JSON string, a quote, a
/// backslash, and newline, carriage return and tab are escaped with a backslash, and any
/// other character at or above U+0020 is written as it is.
pub proof fn lemma_json_scalar_texts(b: bool, n: Seq<char>, t: Seq<char>, c: char)
    ensures
        json_text(Json::Null) == seq!['n', 'u', 'l', 'l'],
        json_text(Json::Bool(true)) == seq!['t', 'r', 'u', 'e'],
        json_text(Json::Bool(false)) == seq!['f', 'a', 'l', 's', 'e'],
        json_text(Json::Number(n)) == n,
        json_text(Json::Str(t)) == seq!['"'] + escape_spec(t) + seq!['"'],
        json_debug(Json::Null) == "Null"@,
        json_debug(Json::Bool(true)) == "Bool(true)"@,
        json_debug(Json::Bool(false)) == "Bool(false)"@,
        json_debug(Json::Number(n)) == "Number("@ + n + ")"@,
        json_debug(Json::Str(t)) == "String("@ + debug_str_spec(t) + ")"@,
        c == '"' ==> escape_spec(seq![c]) == seq!['\\', '"'],
        c == '\\' ==> escape_spec(seq![c]) == seq!['\\', '\\'],
        c == '\n' ==> escape_spec(seq![c]) == seq!['\\', 'n'],
        c == '\r' ==> escape_spec(seq![c]) == seq!['\\', 'r'],
        c == '\t' ==> escape_spec(seq![c]) == seq!['\\', 't'],
        (c as u32) >= 0x20 && c != '"' && c != '\\' ==> escape_spec(seq![c]) == seq![c],
{
    let one = seq![c];
    assert(one.drop_last() =~= Seq::<char>::empty());
    assert(one.last() == c);
    assert(escape_spec(Seq::<char>::empty()) == Seq::<char>::empty());
    assert(escape_spec(one) == escape_spec(one.drop_last()) + escape_char(c));
    assert(escape_spec(one) =~= escape_char(c));
}

} // verus!
