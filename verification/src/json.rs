//! JSON documents as the storage reads them: queries, options, configuration
//! and tag maps all arrive as JSON text. The text is parsed by `serde_json`;
//! this module holds the document as plain values that the verified logic
//! reads, and the mathematical model of such a document.
use vstd::prelude::*;

verus! {

/// A JSON number, classified as the parser classifies it: a non-negative
/// integer, a negative integer, or a finite floating-point number, which is
/// kept as the text that `serde_json` writes for it.
#[derive(Debug)]
pub enum JsonNumber {
    PosInt(u64),
    NegInt(i64),
    Float(String),
}

/// The model of a JSON number.
pub enum JsonNumberView {
    PosInt(u64),
    NegInt(i64),
    Float(Seq<char>),
}

impl View for JsonNumber {
    type V = JsonNumberView;

    open spec fn view(&self) -> JsonNumberView {
        match self {
            JsonNumber::PosInt(u) => JsonNumberView::PosInt(*u),
            JsonNumber::NegInt(i) => JsonNumberView::NegInt(*i),
            JsonNumber::Float(t) => JsonNumberView::Float(t@),
        }
    }
}

/// A JSON document. An object keeps its members in the order in which the
/// parser hands them out.
#[derive(Debug)]
pub enum JsonValue {
    Null,
    Bool(bool),
    Number(JsonNumber),
    String(String),
    Array(Vec<JsonValue>),
    Object(Vec<(String, JsonValue)>),
}

/// The mathematical model of a JSON document.
pub enum JsonView {
    Null,
    Bool(bool),
    Number(JsonNumberView),
    String(Seq<char>),
    Array(Seq<JsonView>),
    Object(Seq<(Seq<char>, JsonView)>),
}

impl JsonValue {
    /// The model of this document.
    pub open spec fn view_json(&self) -> JsonView
        decreases self,
    {
        match self {
            JsonValue::Null => JsonView::Null,
            JsonValue::Bool(b) => JsonView::Bool(*b),
            JsonValue::Number(n) => JsonView::Number(n@),
            JsonValue::String(s) => JsonView::String(s@),
            JsonValue::Array(items) => JsonView::Array(
                Seq::new(
                    items@.len(),
                    |i: int|
                        if 0 <= i < items@.len() {
                            items@[i].view_json()
                        } else {
                            JsonView::Null
                        },
                ),
            ),
            JsonValue::Object(fields) => JsonView::Object(
                Seq::new(
                    fields@.len(),
                    |i: int|
                        if 0 <= i < fields@.len() {
                            (fields@[i].0@, fields@[i].1.view_json())
                        } else {
                            (Seq::empty(), JsonView::Null)
                        },
                ),
            ),
        }
    }
}

impl View for JsonValue {
    type V = JsonView;

    open spec fn view(&self) -> JsonView {
        self.view_json()
    }
}

/// The model of the members of an object.
pub open spec fn fields_view(fields: Seq<(String, JsonValue)>) -> Seq<(Seq<char>, JsonView)> {
    Seq::new(fields.len(), |i: int| (fields[i].0@, fields[i].1@))
}

/// The model of the items of an array.
pub open spec fn items_view(items: Seq<JsonValue>) -> Seq<JsonView> {
    Seq::new(items.len(), |i: int| items[i]@)
}

/// The model of an array or an object is made of the models of its parts.
pub proof fn lemma_json_view(v: JsonValue)
    ensures
        v matches JsonValue::Array(items) ==> v@ == JsonView::Array(items_view(items@)),
        v matches JsonValue::Object(fields) ==> v@ == JsonView::Object(fields_view(fields@)),
{
    match v {
        JsonValue::Array(items) => {
            assert(items_view(items@) =~= match v@ {
                JsonView::Array(s) => s,
                _ => Seq::empty(),
            });
        },
        JsonValue::Object(fields) => {
            assert(fields_view(fields@) =~= match v@ {
                JsonView::Object(s) => s,
                _ => Seq::empty(),
            });
        },
        _ => {},
    }
}

/// Whether `s` is the text `lit`.
pub fn text_is(s: &String, lit: &str) -> (r: bool)
    ensures
        r == (s@ == lit@),
{
    let l = String::from_str(lit);
    s.eq(&l)
}

/// The value of the first member of an object with the given key.
pub open spec fn spec_lookup(fields: Seq<(Seq<char>, JsonView)>, key: Seq<char>) -> Option<JsonView>
    decreases fields.len(),
{
    if fields.len() == 0 {
        None
    } else if fields[0].0 == key {
        Some(fields[0].1)
    } else {
        spec_lookup(fields.drop_first(), key)
    }
}

/// Finds the first member of an object with the given key.
pub fn lookup<'a>(fields: &'a Vec<(String, JsonValue)>, key: &str) -> (r: Option<&'a JsonValue>)
    ensures
        spec_lookup(fields_view(fields@), key@) == (match r {
            Some(v) => Some(v@),
            None => None::<JsonView>,
        }),
{
    let ghost fv = fields_view(fields@);
    let mut i: usize = 0;
    assert(fv.skip(0) =~= fv);
    while i < fields.len()
        invariant
            0 <= i <= fields.len(),
            fv == fields_view(fields@),
            spec_lookup(fv, key@) == spec_lookup(fv.skip(i as int), key@),
        decreases fields.len() - i,
    {
        assert(fv.skip(i as int).drop_first() =~= fv.skip(i + 1));
        if text_is(&fields[i].0, key) {
            return Some(&fields[i].1);
        }
        i = i + 1;
    }
    None
}

/// The value of a field of a struct read from JSON the way `serde` reads
/// it: the member of that name of an object, or the item at that position
/// of an array; `None` where it is missing or the document is neither.
pub open spec fn spec_field(doc: JsonView, name: Seq<char>, index: int) -> Option<JsonView> {
    match doc {
        JsonView::Object(fields) => spec_lookup(fields, name),
        JsonView::Array(items) => if 0 <= index < items.len() {
            Some(items[index])
        } else {
            None
        },
        _ => None,
    }
}

/// A document that can hold a struct of `n` fields: an object, or an array
/// of at most `n` items.
pub open spec fn spec_struct_shape(doc: JsonView, n: nat) -> bool {
    match doc {
        JsonView::Object(_) => true,
        JsonView::Array(items) => items.len() <= n,
        _ => false,
    }
}

/// Finds a field of a struct in its JSON document (see `spec_field`).
pub fn field<'a>(doc: &'a JsonValue, name: &str, index: usize) -> (r: Option<&'a JsonValue>)
    ensures
        spec_field(doc@, name@, index as int) == (match r {
            Some(v) => Some(v@),
            None => None::<JsonView>,
        }),
{
    proof {
        lemma_json_view(*doc);
    }
    match doc {
        JsonValue::Object(fields) => lookup(fields, name),
        JsonValue::Array(items) => {
            if index < items.len() {
                Some(&items[index])
            } else {
                None
            }
        },
        _ => None,
    }
}

/// Whether a document can hold a struct of `n` fields.
pub fn struct_shape(doc: &JsonValue, n: usize) -> (r: bool)
    ensures
        r == spec_struct_shape(doc@, n as nat),
{
    proof {
        lemma_json_view(*doc);
    }
    match doc {
        JsonValue::Object(_) => true,
        JsonValue::Array(items) => items.len() <= n,
        _ => false,
    }
}

/// Name for what `serde_json::from_str::<serde_json::Value>` gives for a
/// text: `None` where the text is not a JSON document, else the document.
pub uninterp spec fn json_parse(text: Seq<char>) -> Option<JsonView>;

/// Name for the text that `serde_json` writes for a document (the
/// `Display` of `serde_json::Value`).
pub uninterp spec fn json_text(value: JsonView) -> Seq<char>;

/// What a JSON text gives under `read`: `None` where it is not JSON.
pub open spec fn from_text<T>(text: Seq<char>, read: spec_fn(JsonView) -> Option<T>) -> Option<T> {
    match json_parse(text) {
        Some(doc) => read(doc),
        None => None,
    }
}

#[verifier::external_type_specification]
#[verifier::external_body]
pub struct ExSerdeJsonValue(serde_json::Value);

#[verifier::external_type_specification]
#[verifier::external_body]
pub struct ExSerdeJsonNumber(serde_json::Number);

/// Parses `text` with `serde_json::from_str` into a `serde_json::Value` and
/// converts it. Claimed: the result is `json_parse(text@)`, that is, it
/// depends on the text alone; what the parser accepts and what it builds is
/// `serde_json`'s and is not stated here.
#[verifier::external_body]
pub fn parse_json(text: &str) -> (res: Option<JsonValue>)
    ensures
        json_parse(text@) == (match res {
            Some(v) => Some(v@),
            None => None::<JsonView>,
        }),
{
    match serde_json::from_str::<serde_json::Value>(text) {
        Ok(v) => Some(from_serde(v)),
        Err(_) => None,
    }
}

/// Converts a `serde_json::Value` into a `JsonValue`, variant for variant,
/// keeping the order in which `serde_json::Map` hands out its members.
#[verifier::external_body]
fn from_serde(value: serde_json::Value) -> JsonValue {
    match value {
        serde_json::Value::Null => JsonValue::Null,
        serde_json::Value::Bool(b) => JsonValue::Bool(b),
        serde_json::Value::Number(n) => JsonValue::Number(number_from_serde(&n)),
        serde_json::Value::String(s) => JsonValue::String(s),
        serde_json::Value::Array(a) => JsonValue::Array(a.into_iter().map(from_serde).collect()),
        serde_json::Value::Object(m) => JsonValue::Object(
            m.into_iter().map(|(k, v)| (k, from_serde(v))).collect(),
        ),
    }
}

/// Converts a `serde_json::Number`, telling its three kinds apart by
/// `as_u64` and `as_i64`; a float is kept as the text `serde_json` writes.
#[verifier::external_body]
fn number_from_serde(n: &serde_json::Number) -> JsonNumber {
    match (n.as_u64(), n.as_i64()) {
        (Some(u), _) => JsonNumber::PosInt(u),
        (None, Some(i)) => JsonNumber::NegInt(i),
        (None, None) => JsonNumber::Float(n.to_string()),
    }
}

/// Writes `value` as JSON text with `serde_json` (the `Display` of the
/// `serde_json::Value` it converts to). Claimed: the text is
/// `json_text(value@)`, a function of the document alone.
#[verifier::external_body]
pub fn json_to_string(value: &JsonValue) -> (res: String)
    ensures
        res@ == json_text(value@),
{
    to_serde(value).to_string()
}

/// Converts a `JsonValue` back into a `serde_json::Value`, variant for
/// variant.
#[verifier::external_body]
fn to_serde(value: &JsonValue) -> serde_json::Value {
    match value {
        JsonValue::Null => serde_json::Value::Null,
        JsonValue::Bool(b) => serde_json::Value::Bool(*b),
        JsonValue::Number(n) => number_to_serde(n),
        JsonValue::String(s) => serde_json::Value::String(s.clone()),
        JsonValue::Array(a) => serde_json::Value::Array(a.iter().map(to_serde).collect()),
        JsonValue::Object(m) => serde_json::Value::Object(
            m.iter().map(|(k, v)| (k.clone(), to_serde(v))).collect(),
        ),
    }
}

/// Converts a `JsonNumber` back into a `serde_json::Value`; a float whose
/// text `serde_json` does not read as a number becomes `null`.
#[verifier::external_body]
fn number_to_serde(n: &JsonNumber) -> serde_json::Value {
    match n {
        JsonNumber::PosInt(u) => serde_json::Value::from(*u),
        JsonNumber::NegInt(i) => serde_json::Value::from(*i),
        JsonNumber::Float(t) => t.parse::<serde_json::Number>().map_or(
            serde_json::Value::Null,
            serde_json::Value::Number,
        ),
    }
}

} // verus!
