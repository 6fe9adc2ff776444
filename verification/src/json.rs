//! JSON values as the daemon's logic reads and builds them.

use crate::text::{opt_text, texts};
use serde_json::Value;
use vstd::prelude::*;

verus! {

/// A JSON number that is no 64-bit integer.
#[verifier::external_type_specification]
#[verifier::external_body]
pub struct ExNumber(serde_json::Number);

/// A number that is no 64-bit integer. Values of this type come from parsed documents alone.
#[derive(Debug)]
pub struct OtherNumber {
    number: serde_json::Number,
}

/// A JSON value. A number is an unsigned integer, a negative integer, or any other number
/// as `serde_json` holds it; a negative integer that is not negative counts as unsigned. The
/// members of an object are a list in which a later member
/// of the same name takes the place of an earlier one.
#[derive(Debug)]
pub enum Json {
    Null,
    Bool(bool),
    UInt(u64),
    NegInt(i64),
    Other(OtherNumber),
    Str(String),
    Array(Vec<Json>),
    Object(Vec<(String, Json)>),
}

/// The mathematical content of a JSON value.
pub enum JsonView {
    Null,
    Bool(bool),
    UInt(nat),
    NegInt(int),
    Other(OtherNumber),
    Str(Seq<char>),
    Array(Seq<JsonView>),
    Object(Map<Seq<char>, JsonView>),
}

pub open spec fn json_view(j: Json) -> JsonView
    decreases j, 0int,
{
    match j {
        Json::Null => JsonView::Null,
        Json::Bool(b) => JsonView::Bool(b),
        Json::UInt(n) => JsonView::UInt(n as nat),
        Json::NegInt(n) => if n < 0 {
            JsonView::NegInt(n as int)
        } else {
            JsonView::UInt(n as nat)
        },
        Json::Other(n) => JsonView::Other(n),
        Json::Str(s) => JsonView::Str(s@),
        Json::Array(v) => JsonView::Array(
            Seq::new(
                v@.len(),
                |i: int|
                    if 0 <= i < v@.len() {
                        json_view(v@[i])
                    } else {
                        JsonView::Null
                    },
            ),
        ),
        Json::Object(v) => JsonView::Object(members_view(v@, v@.len() as int)),
    }
}

/// The map that the first `n` members of an object make.
pub open spec fn members_view(v: Seq<(String, Json)>, n: int) -> Map<Seq<char>, JsonView>
    decreases v, n,
{
    if n <= 0 || n > v.len() {
        Map::empty()
    } else {
        members_view(v, n - 1).insert(v[n - 1].0@, json_view(v[n - 1].1))
    }
}

impl View for Json {
    type V = JsonView;

    open spec fn view(&self) -> JsonView {
        json_view(*self)
    }
}

/// A parsed JSON document of the `serde_json` crate.
#[verifier::external_type_specification]
#[verifier::external_body]
pub struct ExValue(serde_json::Value);

/// What a parsed document holds.
pub uninterp spec fn document_content(v: serde_json::Value) -> JsonView;

/// What the JSON text `text` holds, or the message that `serde_json` refuses it with.
pub uninterp spec fn parsed_document(text: Seq<char>) -> Result<JsonView, Seq<char>>;

/// The content of a parse result.
pub open spec fn result_content(
    r: Result<serde_json::Value, String>,
) -> Result<JsonView, Seq<char>> {
    match r {
        Ok(v) => Ok(document_content(v)),
        Err(e) => Err(e@),
    }
}

/// `serde_json::from_str` into a `Value`, with the message of the error.
#[verifier::external_body]
fn parse_document(text: &str) -> (r: Result<serde_json::Value, String>)
    ensures
        result_content(r) == parsed_document(text@),
{
    serde_json::from_str(text).map_err(|e| e.to_string())
}

/// What the TOML document `text` holds, where it is one and its numbers fit.
pub uninterp spec fn toml_content(text: Seq<char>) -> Option<JsonView>;

/// The content of an optional document.
pub open spec fn opt_content(o: Option<serde_json::Value>) -> Option<JsonView> {
    match o {
        Some(v) => Some(document_content(v)),
        None => None,
    }
}

/// `toml::from_str` into a `serde_json::Value`: what a TOML document holds, where it is one.
#[verifier::external_body]
fn parse_toml_document(text: &str) -> (r: Option<serde_json::Value>)
    ensures
        opt_content(r) == toml_content(text@),
{
    toml::from_str::<serde_json::Value>(text).ok()
}

/// Takes a `serde_json::Value` apart: the result holds what the document holds.
#[verifier::external_body]
fn document_json(value: &Value) -> (r: Json)
    ensures
        r@ == document_content(*value),
{
    match value {
        Value::Null => Json::Null,
        Value::Bool(b) => Json::Bool(*b),
        Value::Number(n) => match (n.as_u64(), n.as_i64()) {
            (Some(u), _) => Json::UInt(u),
            (None, Some(i)) => Json::NegInt(i),
            (None, None) => Json::Other(OtherNumber { number: n.clone() }),
        },
        Value::String(s) => Json::Str(s.clone()),
        Value::Array(a) => Json::Array(a.iter().map(document_json).collect()),
        Value::Object(o) => Json::Object(
            o.iter().map(|(k, v)| (k.clone(), document_json(v))).collect(),
        ),
    }
}

/// Puts a `serde_json::Value` together: the document holds what the value holds.
#[verifier::external_body]
fn json_document(json: &Json) -> (r: Value)
    ensures
        document_content(r) == json@,
{
    match json {
        Json::Null => Value::Null,
        Json::Bool(b) => Value::Bool(*b),
        Json::UInt(n) => Value::from(*n),
        Json::NegInt(n) => Value::from(*n),
        Json::Other(n) => Value::Number(n.number.clone()),
        Json::Str(s) => Value::String(s.clone()),
        Json::Array(a) => Value::Array(a.iter().map(json_document).collect()),
        Json::Object(o) => Value::Object(
            o.iter().map(|(k, v)| (k.clone(), json_document(v))).collect(),
        ),
    }
}

/// The compact JSON text of a document with the content `v`.
pub uninterp spec fn document_text(v: JsonView) -> Seq<char>;

/// `<serde_json::Value as Display>::fmt`: the compact JSON text of a document.
#[verifier::external_body]
fn render_document(value: &serde_json::Value) -> (r: String)
    ensures
        r@ == document_text(document_content(*value)),
{
    value.to_string()
}

/// How deep the arrays and objects of a document may be nested to be parsed.
pub const MAX_DEPTH: u8 = 127;

/// Whether all numbers of a value are integers and its arrays and objects are nested at most
/// `depth` deep.
pub open spec fn is_plain(v: JsonView, depth: nat) -> bool
    decreases depth,
{
    match v {
        JsonView::Other(_) => false,
        JsonView::Array(items) => depth > 0 && forall|i: int|
            0 <= i < items.len() ==> is_plain(#[trigger] items[i], (depth - 1) as nat),
        JsonView::Object(members) => depth > 0 && forall|k: Seq<char>|
            members.contains_key(k) ==> is_plain(#[trigger] members[k], (depth - 1) as nat),
        _ => true,
    }
}

/// The indented JSON text of a document with the content `v`.
pub uninterp spec fn pretty_text(v: JsonView) -> Seq<char>;

/// Whether a text is there from which a value can be parsed.
pub open spec fn reads_back(text: Option<String>, v: JsonView) -> bool {
    text matches Some(t) && parsed_document(t@) == Ok::<JsonView, Seq<char>>(v)
}

/// `serde_json::to_string_pretty`: the indented JSON text of a document. It does not fail on
/// a `Value`, and `serde_json::from_str` gives the document back where its numbers are
/// integers and its nesting is within the limit of the parser. What becomes of other numbers
/// is left open.
#[verifier::external_body]
fn render_pretty_document(value: &serde_json::Value) -> (r: Option<String>)
    ensures
        opt_text(r) == Some(pretty_text(document_content(*value))),
        is_plain(document_content(*value), MAX_DEPTH as nat) ==> reads_back(
            r,
            document_content(*value),
        ),
{
    serde_json::to_string_pretty(value).ok()
}

/// The content of a parse result in the library's own form.
pub open spec fn json_result_view(r: Result<Json, String>) -> Result<JsonView, Seq<char>> {
    match r {
        Ok(v) => Ok(v@),
        Err(e) => Err(e@),
    }
}

/// The content of an optional value.
pub open spec fn opt_json(o: Option<Json>) -> Option<JsonView> {
    match o {
        Some(v) => Some(v@),
        None => None,
    }
}

/// The content of a value that may be pointed to.
pub open spec fn opt_json_view(o: Option<&Json>) -> Option<JsonView> {
    match o {
        Some(v) => Some(v@),
        None => None,
    }
}

/// The member `key` of an object; nothing of any other value.
pub open spec fn member(v: JsonView, key: Seq<char>) -> Option<JsonView> {
    match v {
        JsonView::Object(m) => if m.contains_key(key) {
            Some(m[key])
        } else {
            None
        },
        _ => None,
    }
}

/// The text of a string value.
pub open spec fn string_in(v: JsonView) -> Option<Seq<char>> {
    match v {
        JsonView::Str(s) => Some(s),
        _ => None,
    }
}

/// The number in an unsigned integer value.
pub open spec fn uint_in(v: JsonView) -> Option<nat> {
    match v {
        JsonView::UInt(n) => Some(n),
        _ => None,
    }
}

/// The string member `key` of an object.
pub open spec fn string_member(v: JsonView, key: Seq<char>) -> Option<Seq<char>> {
    match member(v, key) {
        Some(m) => string_in(m),
        None => None,
    }
}

/// The unsigned integer member `key` of an object.
pub open spec fn uint_member(v: JsonView, key: Seq<char>) -> Option<nat> {
    match member(v, key) {
        Some(m) => uint_in(m),
        None => None,
    }
}

/// The boolean member `key` of an object.
pub open spec fn bool_member(v: JsonView, key: Seq<char>) -> Option<bool> {
    match member(v, key) {
        Some(JsonView::Bool(b)) => Some(b),
        _ => None,
    }
}

/// The items of the array member `key` of an object.
pub open spec fn array_member(v: JsonView, key: Seq<char>) -> Option<Seq<JsonView>> {
    match member(v, key) {
        Some(JsonView::Array(a)) => Some(a),
        _ => None,
    }
}

/// The contents of a list of values.
pub open spec fn items_view(v: Seq<Json>) -> Seq<JsonView> {
    Seq::new(v.len(), |i: int| v[i]@)
}

proof fn lemma_members_view(v: Seq<(String, Json)>, n: int, key: Seq<char>)
    requires
        0 <= n <= v.len(),
        forall|j: int| n <= j < v.len() ==> v[j].0@ != key,
    ensures
        members_view(v, v.len() as int).contains_key(key) == members_view(v, n).contains_key(key),
        members_view(v, n).contains_key(key) ==> members_view(v, v.len() as int)[key]
            == members_view(v, n)[key],
    decreases v.len() - n,
{
    if n < v.len() {
        lemma_members_view(v, n + 1, key);
    }
}

impl Json {
    /// `serde_json::from_str`, with the message of the error.
    pub fn parse(text: &str) -> (r: Result<Json, String>)
        ensures
            json_result_view(r) == parsed_document(text@),
    {
        match parse_document(text) {
            Ok(v) => Ok(document_json(&v)),
            Err(e) => Err(e),
        }
    }

    /// What a TOML document holds, where it is one.
    pub fn parse_toml(text: &str) -> (r: Option<Json>)
        ensures
            opt_json(r) == toml_content(text@),
    {
        match parse_toml_document(text) {
            Some(v) => Some(document_json(&v)),
            None => None,
        }
    }

    /// The compact JSON text of the value.
    pub fn render(&self) -> (r: String)
        ensures
            r@ == document_text(self@),
    {
        render_document(&json_document(self))
    }

    /// The indented JSON text of the value, from which the value can be parsed again where it
    /// is plain.
    pub fn render_pretty(&self) -> (r: Option<String>)
        ensures
            opt_text(r) == Some(pretty_text(self@)),
            is_plain(self@, MAX_DEPTH as nat) ==> reads_back(r, self@),
    {
        render_pretty_document(&json_document(self))
    }

    /// The member `key` of an object.
    pub fn get(&self, key: &str) -> (r: Option<&Json>)
        ensures
            opt_json_view(r) == member(self@, key@),
    {
        match self {
            Json::Object(v) => {
                let mut i: usize = v.len();
                while i > 0
                    invariant
                        i <= v@.len(),
                        *self == Json::Object(*v),
                        forall|j: int| i <= j < v@.len() ==> (#[trigger] v@[j]).0@ != key@,
                    decreases i,
                {
                    i -= 1;
                    if v[i].0.as_str().eq(key) {
                        proof {
                            lemma_members_view(v@, i + 1, key@);
                        }
                        return Some(&v[i].1);
                    }
                }
                proof {
                    lemma_members_view(v@, 0, key@);
                }
                None
            },
            _ => None,
        }
    }

    /// The text of a string value.
    pub fn as_text(&self) -> (r: Option<&String>)
        ensures
            r matches Some(s) ==> string_in(self@) == Some(s@),
            r is None ==> string_in(self@) is None,
    {
        match self {
            Json::Str(s) => Some(s),
            _ => None,
        }
    }

    /// The number in an unsigned integer value.
    pub fn as_uint(&self) -> (r: Option<u64>)
        ensures
            r matches Some(n) ==> uint_in(self@) == Some(n as nat),
            r is None ==> uint_in(self@) is None,
    {
        match self {
            Json::UInt(n) => Some(*n),
            Json::NegInt(n) => if *n < 0 {
                None
            } else {
                Some(*n as u64)
            },
            _ => None,
        }
    }

    /// The items of an array value.
    pub fn as_items(&self) -> (r: Option<&Vec<Json>>)
        ensures
            r matches Some(a) ==> self@ == JsonView::Array(items_view(a@)),
            r is None ==> !(self@ is Array),
    {
        match self {
            Json::Array(a) => {
                assert(self@->Array_0 =~= items_view(a@));
                Some(a)
            },
            _ => None,
        }
    }

    /// The string member `key` of an object, copied.
    pub fn text_member(&self, key: &str) -> (r: Option<String>)
        ensures
            opt_text(r) == string_member(self@, key@),
    {
        match self.get(key) {
            Some(m) => match m.as_text() {
                Some(s) => Some(s.clone()),
                None => None,
            },
            None => None,
        }
    }

    /// The unsigned integer member `key` of an object.
    pub fn uint_field(&self, key: &str) -> (r: Option<u64>)
        ensures
            r matches Some(n) ==> uint_member(self@, key@) == Some(n as nat),
            r is None ==> uint_member(self@, key@) is None,
    {
        match self.get(key) {
            Some(m) => m.as_uint(),
            None => None,
        }
    }

    /// The boolean member `key` of an object.
    pub fn bool_field(&self, key: &str) -> (r: Option<bool>)
        ensures
            r == bool_member(self@, key@),
    {
        match self.get(key) {
            Some(Json::Bool(b)) => Some(*b),
            _ => None,
        }
    }

    /// A copy of the value.
    pub fn copy(&self) -> (r: Json)
        ensures
            r@ == self@,
        decreases *self,
    {
        match self {
            Json::Null => Json::Null,
            Json::Bool(b) => Json::Bool(*b),
            Json::UInt(n) => Json::UInt(*n),
            Json::NegInt(n) => Json::NegInt(*n),
            Json::Other(n) => Json::Other(OtherNumber { number: copy_number(&n.number) }),
            Json::Str(s) => Json::Str(s.clone()),
            Json::Array(a) => {
                let mut out: Vec<Json> = Vec::new();
                let mut i: usize = 0;
                while i < a.len()
                    invariant
                        i <= a@.len(),
                        *self == Json::Array(*a),
                        items_view(out@) == items_view(a@).take(i as int),
                    decreases a@.len() - i,
                {
                    let ghost before = out@;
                    let item = &a[i];
                    proof {
                        assert(self->Array_0 == *a);
                        assert(decreases_to!(*self => self->Array_0));
                        assert(decreases_to!(self->Array_0 => self->Array_0@));
                        assert(decreases_to!(a@ => a@[i as int]));
                    }
                    out.push(item.copy());
                    i += 1;
                    assert(items_view(out@) =~= items_view(before).push(a@[i - 1]@));
                    assert(items_view(a@).take(i as int) =~= items_view(a@).take(i - 1).push(
                        a@[i - 1]@,
                    ));
                }
                assert(items_view(a@).take(i as int) =~= items_view(a@));
                let r = Json::Array(out);
                assert(r@->Array_0 =~= items_view(out@));
                assert(self@->Array_0 =~= items_view(a@));
                r
            },
            Json::Object(o) => {
                let mut out: Vec<(String, Json)> = Vec::new();
                let mut i: usize = 0;
                while i < o.len()
                    invariant
                        i <= o@.len(),
                        *self == Json::Object(*o),
                        out@.len() == i,
                        forall|j: int|
                            0 <= j < i ==> (#[trigger] out@[j]).0@ == o@[j].0@ && out@[j].1@
                                == o@[j].1@,
                    decreases o@.len() - i,
                {
                    let entry = &o[i];
                    proof {
                        assert(self->Object_0 == *o);
                        assert(decreases_to!(*self => self->Object_0));
                        assert(decreases_to!(self->Object_0 => self->Object_0@));
                        assert(decreases_to!(o@ => o@[i as int]));
                        assert(decreases_to!(o@[i as int] => o@[i as int].1));
                    }
                    out.push((entry.0.clone(), entry.1.copy()));
                    i += 1;
                }
                proof {
                    lemma_same_members(out@, o@, o@.len() as int);
                }
                Json::Object(out)
            },
        }
    }
}

proof fn lemma_same_members(a: Seq<(String, Json)>, b: Seq<(String, Json)>, n: int)
    requires
        a.len() == b.len(),
        0 <= n <= a.len(),
        forall|j: int| 0 <= j < a.len() ==> (#[trigger] a[j]).0@ == b[j].0@ && a[j].1@ == b[j].1@,
    ensures
        members_view(a, n) == members_view(b, n),
    decreases n,
{
    if n > 0 {
        lemma_same_members(a, b, n - 1);
        assert(a[n - 1].0@ == b[n - 1].0@);
    }
}

proof fn lemma_members_prefix(v: Seq<(String, Json)>, e: (String, Json), n: int)
    requires
        0 <= n <= v.len(),
    ensures
        members_view(v.push(e), n) == members_view(v, n),
    decreases n,
{
    if n > 0 {
        lemma_members_prefix(v, e, n - 1);
    }
}

/// The string values with the given texts.
pub open spec fn strings_view(v: Seq<Seq<char>>) -> Seq<JsonView> {
    Seq::new(v.len(), |i: int| JsonView::Str(v[i]))
}

impl Json {
    /// The object without members.
    pub fn object() -> (r: Json)
        ensures
            r@ == JsonView::Object(Map::empty()),
    {
        reveal_with_fuel(members_view, 2);
        let r = Json::Object(Vec::new());
        assert(r@ == JsonView::Object(members_view(Seq::empty(), 0)));
        r
    }

    /// The object with one member more.
    pub fn with(self, key: &str, value: Json) -> (r: Json)
        requires
            self@ is Object,
        ensures
            r@ == JsonView::Object(self@->Object_0.insert(key@, value@)),
    {
        let ghost before = self@;
        match self {
            Json::Object(members) => {
                let mut members = members;
                let ghost old_members = members@;
                let entry = (key.to_string(), value);
                members.push(entry);
                proof {
                    lemma_members_prefix(old_members, entry, old_members.len() as int);
                    reveal_with_fuel(members_view, 2);
                }
                let r = Json::Object(members);
                assert(r@ == JsonView::Object(members_view(members@, members@.len() as int)));
                r
            },
            other => other,
        }
    }

    /// A string value.
    pub fn text(s: &str) -> (r: Json)
        ensures
            r@ == JsonView::Str(s@),
    {
        Json::Str(s.to_string())
    }

    /// An array value.
    pub fn array(items: Vec<Json>) -> (r: Json)
        ensures
            r@ == JsonView::Array(items_view(items@)),
    {
        let r = Json::Array(items);
        assert(r@->Array_0 =~= items_view(items@));
        r
    }

    /// An array of string values.
    pub fn text_array(v: &Vec<String>) -> (r: Json)
        ensures
            r@ == JsonView::Array(strings_view(texts(v@))),
    {
        let mut items: Vec<Json> = Vec::new();
        let mut i: usize = 0;
        while i < v.len()
            invariant
                i <= v@.len(),
                items_view(items@) == strings_view(texts(v@)).take(i as int),
            decreases v@.len() - i,
        {
            let ghost before = items@;
            items.push(Json::text(v[i].as_str()));
            i += 1;
            assert(items_view(items@) =~= items_view(before).push(JsonView::Str(v@[i - 1]@)));
            assert(strings_view(texts(v@)).take(i as int) =~= strings_view(
                texts(v@),
            ).take(i - 1).push(JsonView::Str(v@[i - 1]@)));
        }
        assert(strings_view(texts(v@)).take(i as int) =~= strings_view(
            texts(v@),
        ));
        Json::array(items)
    }
}

/// `<serde_json::Number as Clone>::clone` gives the same number.
#[verifier::external_body]
fn copy_number(n: &serde_json::Number) -> (r: serde_json::Number)
    ensures
        r == *n,
{
    n.clone()
}

} // verus!
