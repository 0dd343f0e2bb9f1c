//! JSON documents as plain values.
use vstd::prelude::*;

use crate::text::text_eq;

verus! {

/// A JSON number as a reader sees it: the unsigned and the signed integer it
/// stands for, where there is one, and the bits of its double.
#[derive(Clone, Copy, Debug, PartialEq, Eq)]
pub struct JsonNumber {
    pub unsigned: Option<u64>,
    pub signed: Option<i64>,
    pub double: u64,
}

/// A JSON value.
#[derive(Debug)]
pub enum Json {
    Null,
    Bool(bool),
    Number(JsonNumber),
    Text(String),
    Array(Vec<Json>),
    Object(Vec<(String, Json)>),
}

/// The mathematical form of a JSON value.
pub ghost enum JsonView {
    Null,
    Bool(bool),
    Number(JsonNumber),
    Text(Seq<char>),
    Array(Seq<JsonView>),
    Object(Seq<(Seq<char>, JsonView)>),
}

/// What a JSON value holds.
pub open spec fn json_view(j: Json) -> JsonView
    decreases j,
{
    match j {
        Json::Null => JsonView::Null,
        Json::Bool(b) => JsonView::Bool(b),
        Json::Number(n) => JsonView::Number(n),
        Json::Text(s) => JsonView::Text(s@),
        Json::Array(items) => JsonView::Array(
            Seq::new(
                items@.len(),
                |i: int|
                    if 0 <= i < items@.len() {
                        json_view(items@[i])
                    } else {
                        JsonView::Null
                    },
            ),
        ),
        Json::Object(entries) => JsonView::Object(
            Seq::new(
                entries@.len(),
                |i: int|
                    if 0 <= i < entries@.len() {
                        (entries@[i].0@, json_view(entries@[i].1))
                    } else {
                        (Seq::empty(), JsonView::Null)
                    },
            ),
        ),
    }
}

impl View for Json {
    type V = JsonView;

    open spec fn view(&self) -> JsonView {
        json_view(*self)
    }
}

/// The value of the first entry named `key`.
pub open spec fn lookup(entries: Seq<(Seq<char>, JsonView)>, key: Seq<char>) -> Option<JsonView>
    decreases entries.len(),
{
    if entries.len() == 0 {
        None
    } else if entries[0].0 == key {
        Some(entries[0].1)
    } else {
        lookup(entries.drop_first(), key)
    }
}

impl JsonView {
    /// The member `key` of an object; nothing for any other value.
    pub open spec fn get(self, key: Seq<char>) -> Option<JsonView> {
        match self {
            JsonView::Object(entries) => lookup(entries, key),
            _ => None,
        }
    }

    pub open spec fn as_bool(self) -> Option<bool> {
        match self {
            JsonView::Bool(b) => Some(b),
            _ => None,
        }
    }

    pub open spec fn as_u64(self) -> Option<u64> {
        match self {
            JsonView::Number(n) => n.unsigned,
            _ => None,
        }
    }

    pub open spec fn as_i64(self) -> Option<i64> {
        match self {
            JsonView::Number(n) => n.signed,
            _ => None,
        }
    }

    /// The bits of the double that a number stands for.
    pub open spec fn as_double(self) -> Option<u64> {
        match self {
            JsonView::Number(n) => Some(n.double),
            _ => None,
        }
    }

    pub open spec fn as_text(self) -> Option<Seq<char>> {
        match self {
            JsonView::Text(s) => Some(s),
            _ => None,
        }
    }

    pub open spec fn as_array(self) -> Option<Seq<JsonView>> {
        match self {
            JsonView::Array(items) => Some(items),
            _ => None,
        }
    }

    /// The member `key`, read as an unsigned integer.
    pub open spec fn get_u64(self, key: Seq<char>) -> Option<u64> {
        match self.get(key) {
            Some(v) => v.as_u64(),
            None => None,
        }
    }

    /// The member `key`, read as a size.
    pub open spec fn get_size(self, key: Seq<char>) -> Option<usize> {
        match self.get_u64(key) {
            Some(n) => Some(n as usize),
            None => None,
        }
    }

    /// The member `key`, read as the bits of a double.
    pub open spec fn get_double(self, key: Seq<char>) -> Option<u64> {
        match self.get(key) {
            Some(v) => v.as_double(),
            None => None,
        }
    }

    /// The member `key`, read as a boolean.
    pub open spec fn get_bool(self, key: Seq<char>) -> Option<bool> {
        match self.get(key) {
            Some(v) => v.as_bool(),
            None => None,
        }
    }

    /// The member `key`, read as text.
    pub open spec fn get_text(self, key: Seq<char>) -> Option<Seq<char>> {
        match self.get(key) {
            Some(v) => v.as_text(),
            None => None,
        }
    }

    /// The member `key`, read as an array.
    pub open spec fn get_array(self, key: Seq<char>) -> Option<Seq<JsonView>> {
        match self.get(key) {
            Some(v) => v.as_array(),
            None => None,
        }
    }
}

/// The views of a list of values.
pub open spec fn json_items(items: Seq<Json>) -> Seq<JsonView> {
    Seq::new(items.len(), |i: int| items[i]@)
}

/// The views of the entries of an object.
pub open spec fn json_entries(entries: Seq<(String, Json)>) -> Seq<(Seq<char>, JsonView)> {
    Seq::new(entries.len(), |i: int| (entries[i].0@, entries[i].1@))
}

proof fn lemma_view_cases(j: Json)
    ensures
        j matches Json::Array(items) ==> j@ == JsonView::Array(json_items(items@)),
        j matches Json::Object(entries) ==> j@ == JsonView::Object(json_entries(entries@)),
{
    match j {
        Json::Array(items) => {
            assert(j@->Array_0 =~= json_items(items@));
        },
        Json::Object(entries) => {
            assert(j@->Object_0 =~= json_entries(entries@));
        },
        _ => {},
    }
}

proof fn lemma_lookup_skip(entries: Seq<(Seq<char>, JsonView)>, key: Seq<char>, n: int)
    requires
        0 <= n <= entries.len(),
        forall|i: int| 0 <= i < n ==> (#[trigger] entries[i]).0 != key,
    ensures
        lookup(entries, key) == lookup(entries.subrange(n, entries.len() as int), key),
    decreases n,
{
    if n == 0 {
        assert(entries.subrange(0, entries.len() as int) =~= entries);
    } else {
        assert(entries[0].0 != key);
        let rest = entries.drop_first();
        assert forall|i: int| 0 <= i < n - 1 implies (#[trigger] rest[i]).0 != key by {
            assert(rest[i] == entries[i + 1]);
        }
        lemma_lookup_skip(rest, key, n - 1);
        assert(rest.subrange(n - 1, rest.len() as int) =~= entries.subrange(
            n,
            entries.len() as int,
        ));
    }
}

impl Json {
    /// The member `key` of an object; `None` for any other value.
    pub fn get<'a>(&'a self, key: &str) -> (r: Option<&'a Json>)
        ensures
            match r {
                Some(v) => self@.get(key@) == Some(v@),
                None => self@.get(key@) is None,
            },
    {
        proof {
            lemma_view_cases(*self);
        }
        match self {
            Json::Object(entries) => {
                let ghost views = json_entries(entries@);
                let mut i: usize = 0;
                while i < entries.len()
                    invariant
                        i <= entries.len(),
                        views == json_entries(entries@),
                        self@ == JsonView::Object(views),
                        forall|j: int| 0 <= j < i ==> (#[trigger] views[j]).0 != key@,
                    decreases entries.len() - i,
                {
                    if text_eq(entries[i].0.as_str(), key) {
                        proof {
                            lemma_lookup_skip(views, key@, i as int);
                            let rest = views.subrange(i as int, views.len() as int);
                            assert(rest[0] == views[i as int]);
                        }
                        return Some(&entries[i].1);
                    }
                    i += 1;
                }
                proof {
                    lemma_lookup_skip(views, key@, i as int);
                }
                None
            },
            _ => None,
        }
    }

    pub fn as_bool(&self) -> (r: Option<bool>)
        ensures
            r == self@.as_bool(),
    {
        match self {
            Json::Bool(b) => Some(*b),
            _ => None,
        }
    }

    pub fn as_u64(&self) -> (r: Option<u64>)
        ensures
            r == self@.as_u64(),
    {
        match self {
            Json::Number(n) => n.unsigned,
            _ => None,
        }
    }

    pub fn as_i64(&self) -> (r: Option<i64>)
        ensures
            r == self@.as_i64(),
    {
        match self {
            Json::Number(n) => n.signed,
            _ => None,
        }
    }

    /// The bits of the double that a number stands for.
    pub fn as_double(&self) -> (r: Option<u64>)
        ensures
            r == self@.as_double(),
    {
        match self {
            Json::Number(n) => Some(n.double),
            _ => None,
        }
    }

    pub fn as_text<'a>(&'a self) -> (r: Option<&'a str>)
        ensures
            match r {
                Some(s) => self@.as_text() == Some(s@),
                None => self@.as_text() is None,
            },
    {
        match self {
            Json::Text(s) => Some(s.as_str()),
            _ => None,
        }
    }

    pub fn as_array<'a>(&'a self) -> (r: Option<&'a Vec<Json>>)
        ensures
            match r {
                Some(items) => self@.as_array() == Some(json_items(items@)),
                None => self@.as_array() is None,
            },
    {
        proof {
            lemma_view_cases(*self);
        }
        match self {
            Json::Array(items) => Some(items),
            _ => None,
        }
    }

    pub fn as_object<'a>(&'a self) -> (r: Option<&'a Vec<(String, Json)>>)
        ensures
            match r {
                Some(entries) => self@ == JsonView::Object(json_entries(entries@)),
                None => !(self@ is Object),
            },
    {
        proof {
            lemma_view_cases(*self);
        }
        match self {
            Json::Object(entries) => Some(entries),
            _ => None,
        }
    }

    pub fn is_null(&self) -> (r: bool)
        ensures
            r == (self@ is Null),
    {
        matches!(self, Json::Null)
    }

    pub fn get_u64(&self, key: &str) -> (r: Option<u64>)
        ensures
            r == self@.get_u64(key@),
    {
        match self.get(key) {
            Some(v) => v.as_u64(),
            None => None,
        }
    }

    pub fn get_size(&self, key: &str) -> (r: Option<usize>)
        ensures
            r == self@.get_size(key@),
    {
        match self.get_u64(key) {
            Some(n) => Some(n as usize),
            None => None,
        }
    }

    pub fn get_double(&self, key: &str) -> (r: Option<u64>)
        ensures
            r == self@.get_double(key@),
    {
        match self.get(key) {
            Some(v) => v.as_double(),
            None => None,
        }
    }

    pub fn get_bool(&self, key: &str) -> (r: Option<bool>)
        ensures
            r == self@.get_bool(key@),
    {
        match self.get(key) {
            Some(v) => v.as_bool(),
            None => None,
        }
    }

    pub fn get_text<'a>(&'a self, key: &str) -> (r: Option<&'a str>)
        ensures
            match r {
                Some(s) => self@.get_text(key@) == Some(s@),
                None => self@.get_text(key@) is None,
            },
    {
        match self.get(key) {
            Some(v) => v.as_text(),
            None => None,
        }
    }

    pub fn get_array<'a>(&'a self, key: &str) -> (r: Option<&'a Vec<Json>>)
        ensures
            match r {
                Some(items) => self@.get_array(key@) == Some(json_items(items@)),
                None => self@.get_array(key@) is None,
            },
    {
        match self.get(key) {
            Some(v) => v.as_array(),
            None => None,
        }
    }
}

/// A parsed document of `serde_json`.
#[verifier::external_type_specification]
#[verifier::external_body]
pub struct ExValue(serde_json::Value);

/// What `serde_json` makes of a text: the document that it holds, or the message with which
/// it is refused.
pub uninterp spec fn json_outcome(text: Seq<char>) -> Result<JsonView, Seq<char>>;

/// The document that a text holds, when it is well-formed JSON.
pub open spec fn json_of_text(text: Seq<char>) -> Option<JsonView> {
    match json_outcome(text) {
        Ok(document) => Some(document),
        Err(_) => None,
    }
}

/// The message of the parser for a text that is not JSON.
pub open spec fn json_error_text(text: Seq<char>) -> Seq<char> {
    json_outcome(text)->Err_0
}

/// What a parsed document holds.
pub uninterp spec fn json_tree(value: serde_json::Value) -> JsonView;

/// One level of a parsed document.
pub enum JsonNode {
    Null,
    Bool(bool),
    Number(JsonNumber),
    Text(String),
    Array(Vec<serde_json::Value>),
    Object(Vec<(String, serde_json::Value)>),
}

impl JsonNode {
    /// The tree below this level.
    pub open spec fn tree(self) -> JsonView {
        match self {
            JsonNode::Null => JsonView::Null,
            JsonNode::Bool(b) => JsonView::Bool(b),
            JsonNode::Number(n) => JsonView::Number(n),
            JsonNode::Text(s) => JsonView::Text(s@),
            JsonNode::Array(items) => JsonView::Array(
                Seq::new(items@.len(), |i: int| json_tree(items@[i])),
            ),
            JsonNode::Object(entries) => JsonView::Object(
                Seq::new(entries@.len(), |i: int| (entries@[i].0@, json_tree(entries@[i].1))),
            ),
        }
    }
}

/// `serde_json::from_str` into a `serde_json::Value`: succeeds exactly on the texts
/// that hold a document, and its result and its error message depend on the text
/// alone.
#[verifier::external_body]
fn parse_value(text: &str) -> (r: Result<serde_json::Value, String>)
    ensures
        match r {
            Ok(value) => json_outcome(text@) == Ok::<JsonView, Seq<char>>(json_tree(value)),
            Err(message) => json_outcome(text@) == Err::<JsonView, Seq<char>>(message@),
        },
{
    serde_json::from_str(text).map_err(|error: serde_json::Error| error.to_string())
}

/// The variant of a `serde_json::Value` with its fields: a number by its `as_u64`,
/// `as_i64` and `as_f64` readings, an object by its entries in the order in which the
/// document's map keeps them.
#[verifier::external_body]
fn open_value(value: serde_json::Value) -> (node: JsonNode)
    ensures
        node.tree() == json_tree(value),
{
    match value {
        serde_json::Value::Null => JsonNode::Null,
        serde_json::Value::Bool(b) => JsonNode::Bool(b),
        serde_json::Value::Number(n) => JsonNode::Number(
            JsonNumber {
                unsigned: n.as_u64(),
                signed: n.as_i64(),
                double: n.as_f64().unwrap_or_default().to_bits(),
            },
        ),
        serde_json::Value::String(s) => JsonNode::Text(s),
        serde_json::Value::Array(items) => JsonNode::Array(items),
        serde_json::Value::Object(map) => JsonNode::Object(map.into_iter().collect()),
    }
}

fn json_from_value(value: serde_json::Value) -> (r: Json)
    ensures
        r@ == json_tree(value),
    decreases json_tree(value),
{
    let ghost whole = json_tree(value);
    let node = open_value(value);
    match node {
        JsonNode::Null => Json::Null,
        JsonNode::Bool(b) => Json::Bool(b),
        JsonNode::Number(n) => Json::Number(n),
        JsonNode::Text(s) => Json::Text(s),
        JsonNode::Array(items) => {
            let ghost sources = items@;
            let mut out: Vec<Json> = Vec::new();
            for item in it: items
                invariant
                    whole == json_tree(value),
                    whole == JsonView::Array(
                        Seq::new(sources.len(), |i: int| json_tree(sources[i])),
                    ),
                    it.seq() == sources,
                    out.len() == it.index(),
                    forall|i: int|
                        0 <= i < out.len() ==> (#[trigger] out@[i])@ == json_tree(sources[i]),
            {
                assert(whole->Array_0[it.index() as int] == json_tree(item));
                out.push(json_from_value(item));
            }
            let r = Json::Array(out);
            proof {
                lemma_view_cases(r);
                assert(json_items(out@) =~= whole->Array_0);
            }
            r
        },
        JsonNode::Object(entries) => {
            let ghost sources = entries@;
            let mut out: Vec<(String, Json)> = Vec::new();
            for entry in it: entries
                invariant
                    whole == json_tree(value),
                    whole == JsonView::Object(
                        Seq::new(
                            sources.len(),
                            |i: int| (sources[i].0@, json_tree(sources[i].1)),
                        ),
                    ),
                    it.seq() == sources,
                    out.len() == it.index(),
                    forall|i: int|
                        0 <= i < out.len() ==> (#[trigger] out@[i]).0@ == sources[i].0@
                            && out@[i].1@ == json_tree(sources[i].1),
            {
                let (key, member) = entry;
                assert(whole->Object_0[it.index() as int] == (key@, json_tree(member)));
                assert(decreases_to!(whole => whole->Object_0[it.index() as int].1));
                out.push((key, json_from_value(member)));
            }
            let r = Json::Object(out);
            proof {
                lemma_view_cases(r);
                assert(json_entries(out@) =~= whole->Object_0);
            }
            r
        },
    }
}

/// Parse a JSON text.
pub fn parse_json(text: &str) -> (r: Result<Json, String>)
    ensures
        match r {
            Ok(document) => json_of_text(text@) == Some(document@),
            Err(message) => json_of_text(text@) is None && message@ == json_error_text(text@),
        },
{
    match parse_value(text) {
        Ok(value) => Ok(json_from_value(value)),
        Err(message) => Err(message),
    }
}

/// The document that bytes hold, when they are well-formed JSON.
pub uninterp spec fn json_of_bytes(bytes: Seq<u8>) -> Option<JsonView>;

/// `serde_json::from_slice` into a `serde_json::Value`: succeeds exactly on the bytes
/// that hold a document, and its result depends on the bytes alone.
#[verifier::external_body]
fn parse_value_bytes(bytes: &[u8]) -> (r: Option<serde_json::Value>)
    ensures
        match r {
            Some(value) => json_of_bytes(bytes@) == Some(json_tree(value)),
            None => json_of_bytes(bytes@) is None,
        },
{
    serde_json::from_slice(bytes).ok()
}

/// Parse JSON bytes.
pub fn parse_json_bytes(bytes: &[u8]) -> (r: Option<Json>)
    ensures
        match r {
            Some(document) => json_of_bytes(bytes@) == Some(document@),
            None => json_of_bytes(bytes@) is None,
        },
{
    match parse_value_bytes(bytes) {
        Some(value) => Some(json_from_value(value)),
        None => None,
    }
}

} // verus!
