//! JSON documents: what is read in them, and how they come from text.
use vstd::prelude::*;
use crate::text::same;

verus! {

/// A JSON number, as far as it can be read as an integer.
pub struct Number {
    pub signed: Option<i64>,
    pub unsigned: Option<u64>,
    pub text: String,
}

/// A JSON document.
pub enum Json {
    Null,
    Bool(bool),
    Number(Number),
    Text(String),
    Array(Vec<Json>),
    Object(Vec<(String, Json)>),
}

/// What a JSON document says.
pub enum JsonView {
    Null,
    Bool(bool),
    Number { signed: Option<i64>, unsigned: Option<u64>, text: Seq<char> },
    Text(Seq<char>),
    Array(Seq<JsonView>),
    Object(Seq<(Seq<char>, JsonView)>),
}

impl Json {
    pub open spec fn content(&self) -> JsonView
        decreases self,
    {
        match self {
            Json::Null => JsonView::Null,
            Json::Bool(b) => JsonView::Bool(*b),
            Json::Number(n) => JsonView::Number {
                signed: n.signed,
                unsigned: n.unsigned,
                text: n.text@,
            },
            Json::Text(s) => JsonView::Text(s@),
            Json::Array(items) => JsonView::Array(
                Seq::new(
                    items@.len(),
                    |i: int| if 0 <= i < items@.len() { items@[i].content() } else { arbitrary() },
                ),
            ),
            Json::Object(fields) => JsonView::Object(
                Seq::new(
                    fields@.len(),
                    |i: int|
                        if 0 <= i < fields@.len() {
                            (fields@[i].0@, fields@[i].1.content())
                        } else {
                            arbitrary()
                        },
                ),
            ),
        }
    }
}

impl View for Json {
    type V = JsonView;

    open spec fn view(&self) -> JsonView {
        self.content()
    }
}

impl DeepView for Json {
    type V = JsonView;

    open spec fn deep_view(&self) -> JsonView {
        self.content()
    }
}

impl Json {
    /// The same document once more.
    pub fn duplicate(&self) -> (copy: Json)
        ensures
            copy@ == self@,
        decreases self,
    {
        match self {
            Json::Null => Json::Null,
            Json::Bool(b) => Json::Bool(*b),
            Json::Number(n) => Json::Number(
                Number { signed: n.signed, unsigned: n.unsigned, text: n.text.clone() },
            ),
            Json::Text(s) => Json::Text(s.clone()),
            Json::Array(items) => {
                let mut copies: Vec<Json> = Vec::new();
                for i in 0..items.len()
                    invariant
                        *self == Json::Array(*items),
                        copies@.len() == i,
                        forall|j: int| 0 <= j < i ==> (#[trigger] copies@[j])@ == items@[j]@,
                {
                    assert(decreases_to!(self => self->Array_0));
                    assert(decreases_to!(self->Array_0 => self->Array_0@));
                    assert(decreases_to!(items@ => items@[i as int]));
                    copies.push(items[i].duplicate());
                }
                let copy = Json::Array(copies);
                assert(copy@->Array_0 =~= self@->Array_0);
                copy
            },
            Json::Object(fields) => {
                let mut copies: Vec<(String, Json)> = Vec::new();
                for i in 0..fields.len()
                    invariant
                        *self == Json::Object(*fields),
                        copies@.len() == i,
                        forall|j: int|
                            0 <= j < i ==> (#[trigger] copies@[j]).0@ == fields@[j].0@
                                && copies@[j].1@ == fields@[j].1@,
                {
                    assert(decreases_to!(self => self->Object_0));
                    assert(decreases_to!(self->Object_0 => self->Object_0@));
                    assert(decreases_to!(fields@ => fields@[i as int]));
                    assert(decreases_to!(fields@[i as int] => fields@[i as int].1));
                    copies.push((fields[i].0.clone(), fields[i].1.duplicate()));
                }
                let copy = Json::Object(copies);
                assert(copy@->Object_0 =~= self@->Object_0);
                copy
            },
        }
    }
}


/// The value of the first field named `key`.
pub open spec fn lookup(fields: Seq<(Seq<char>, JsonView)>, key: Seq<char>) -> Option<JsonView>
    decreases fields.len(),
{
    if fields.len() == 0 {
        None
    } else if fields[0].0 == key {
        Some(fields[0].1)
    } else {
        lookup(fields.skip(1), key)
    }
}

impl JsonView {
    /// The fields of an object.
    pub open spec fn fields(self) -> Option<Seq<(Seq<char>, JsonView)>> {
        match self {
            JsonView::Object(fields) => Some(fields),
            _ => None,
        }
    }

    /// The items of an array.
    pub open spec fn items(self) -> Option<Seq<JsonView>> {
        match self {
            JsonView::Array(items) => Some(items),
            _ => None,
        }
    }

    /// The characters of a text.
    pub open spec fn text(self) -> Option<Seq<char>> {
        match self {
            JsonView::Text(s) => Some(s),
            _ => None,
        }
    }

    /// A number that is an `i64`.
    pub open spec fn signed(self) -> Option<i64> {
        match self {
            JsonView::Number { signed, .. } => signed,
            _ => None,
        }
    }

    /// A number that is a `u64`.
    pub open spec fn unsigned(self) -> Option<u64> {
        match self {
            JsonView::Number { unsigned, .. } => unsigned,
            _ => None,
        }
    }

    /// The field `key`, where there is one.
    pub open spec fn get(self, key: Seq<char>) -> Option<JsonView> {
        match self {
            JsonView::Object(fields) => lookup(fields, key),
            _ => None,
        }
    }

    /// The text in the field `key`, or another text where there is none.
    pub open spec fn text_or(self, key: Seq<char>, other: Seq<char>) -> Seq<char> {
        match self.at(key).text() {
            Some(text) => text,
            None => other,
        }
    }

    /// The field `key`, or null where there is none.
    pub open spec fn at(self, key: Seq<char>) -> JsonView {
        match self.get(key) {
            Some(value) => value,
            None => JsonView::Null,
        }
    }
}

impl Json {
    /// The items of an array.
    pub fn as_array(&self) -> (items: Option<&Vec<Json>>)
        ensures
            match items {
                Some(list) => self@.items() == Some(list.deep_view()),
                None => self@.items() is None,
            },
    {
        match self {
            Json::Array(list) => {
                assert(self@->Array_0 =~= list.deep_view());
                Some(list)
            },
            _ => None,
        }
    }

    /// The fields of an object.
    pub fn as_object(&self) -> (fields: Option<&Vec<(String, Json)>>)
        ensures
            match fields {
                Some(list) => self@.fields() == Some(list.deep_view()),
                None => self@.fields() is None,
            },
    {
        match self {
            Json::Object(list) => {
                assert(self@->Object_0 =~= list.deep_view());
                Some(list)
            },
            _ => None,
        }
    }

    /// The characters of a text.
    pub fn as_text(&self) -> (text: Option<&str>)
        ensures
            match text {
                Some(s) => self@.text() == Some(s@),
                None => self@.text() is None,
            },
    {
        match self {
            Json::Text(s) => Some(s.as_str()),
            _ => None,
        }
    }

    /// A number that is an `i64`.
    pub fn as_i64(&self) -> (n: Option<i64>)
        ensures
            n == self@.signed(),
    {
        match self {
            Json::Number(n) => n.signed,
            _ => None,
        }
    }

    /// A number that is a `u64`.
    pub fn as_u64(&self) -> (n: Option<u64>)
        ensures
            n == self@.unsigned(),
    {
        match self {
            Json::Number(n) => n.unsigned,
            _ => None,
        }
    }

    /// The field `key`.
    pub fn get(&self, key: &str) -> (value: Option<&Json>)
        ensures
            match value {
                Some(json) => self@.get(key@) == Some(json@),
                None => self@.get(key@) is None,
            },
    {
        let fields = match self.as_object() {
            Some(list) => list,
            None => {
                return None;
            },
        };
        let ghost all = fields.deep_view();
        assert(all.skip(0) =~= all);
        let mut i: usize = 0;
        while i < fields.len()
            invariant
                i <= fields@.len(),
                all == fields.deep_view(),
                self@.get(key@) == lookup(all, key@),
                lookup(all, key@) == lookup(all.skip(i as int), key@),
            decreases fields@.len() - i,
        {
            assert(all[i as int] == (fields@[i as int].0@, fields@[i as int].1@));
            if same(fields[i].0.as_str(), key) {
                return Some(&fields[i].1);
            }
            assert(all.skip(i as int).skip(1) =~= all.skip(i + 1));
            i = i + 1;
        }
        None
    }

    /// The text in the field `key`.
    pub fn text_at(&self, key: &str) -> (text: Option<&str>)
        ensures
            match text {
                Some(s) => self@.at(key@).text() == Some(s@),
                None => self@.at(key@).text() is None,
            },
    {
        match self.get(key) {
            Some(value) => value.as_text(),
            None => None,
        }
    }

    /// The text in the field `key`, or another text where there is none.
    pub fn text_or(&self, key: &str, other: &str) -> (text: String)
        ensures
            text@ == self@.text_or(key@, other@),
    {
        match self.text_at(key) {
            Some(text) => text.to_owned(),
            None => other.to_owned(),
        }
    }

    /// The `i64` in the field `key`.
    pub fn i64_at(&self, key: &str) -> (n: Option<i64>)
        ensures
            n == self@.at(key@).signed(),
    {
        match self.get(key) {
            Some(value) => value.as_i64(),
            None => None,
        }
    }

    /// The `u64` in the field `key`.
    pub fn u64_at(&self, key: &str) -> (n: Option<u64>)
        ensures
            n == self@.at(key@).unsigned(),
    {
        match self.get(key) {
            Some(value) => value.as_u64(),
            None => None,
        }
    }

    /// The items of the array in the field `key`.
    pub fn array_at(&self, key: &str) -> (items: Option<&Vec<Json>>)
        ensures
            match items {
                Some(list) => self@.at(key@).items() == Some(list.deep_view()),
                None => self@.at(key@).items() is None,
            },
    {
        match self.get(key) {
            Some(value) => value.as_array(),
            None => None,
        }
    }

    /// The fields of the object in the field `key`.
    pub fn object_at(&self, key: &str) -> (fields: Option<&Vec<(String, Json)>>)
        ensures
            match fields {
                Some(list) => self@.at(key@).fields() == Some(list.deep_view()),
                None => self@.at(key@).fields() is None,
            },
    {
        match self.get(key) {
            Some(value) => value.as_object(),
            None => None,
        }
    }
}

/// Copies of the documents of a list.
pub fn duplicate_all(list: &Vec<Json>) -> (copies: Vec<Json>)
    ensures
        copies.deep_view() == list.deep_view(),
{
    let mut copies: Vec<Json> = Vec::new();
    for i in 0..list.len()
        invariant
            copies.deep_view() == list.deep_view().take(i as int),
    {
        let ghost before = copies.deep_view();
        copies.push(list[i].duplicate());
        assert(copies.deep_view() =~= before.push(list@[i as int]@));
        assert(copies.deep_view() =~= list.deep_view().take(i + 1));
    }
    assert(copies.deep_view() =~= list.deep_view());
    copies
}

/// Adds a field at the end of a list of fields.
pub(crate) fn json_field(fields: &mut Vec<(String, Json)>, name: &str, value: Json)
    ensures
        final(fields).deep_view() == old(fields).deep_view().push((name@, value@)),
{
    let ghost before = fields.deep_view();
    fields.push((name.to_owned(), value));
    assert(fields.deep_view() =~= before.push((name@, value@)));
}

/// An object of fields.
pub(crate) fn json_object(fields: Vec<(String, Json)>) -> (json: Json)
    ensures
        json@ == JsonView::Object(fields.deep_view()),
{
    let json = Json::Object(fields);
    assert(json@->Object_0 =~= fields.deep_view());
    json
}

/// `serde_json::Value`, carried from the parser to `json_of_value` unread.
#[verifier::external_type_specification]
#[verifier::external_body]
pub struct ExValue(serde_json::Value);

/// What a `serde_json::Value` holds.
pub uninterp spec fn value_content(value: serde_json::Value) -> JsonView;

/// What `serde_json::from_str` makes of a text: the document, or the words of its refusal.
pub uninterp spec fn json_of_text(text: Seq<char>) -> Result<JsonView, Seq<char>>;

/// What `serde_json::from_slice` makes of bytes: the document, or the words of its refusal.
pub uninterp spec fn json_of_bytes(bytes: Seq<u8>) -> Result<JsonView, Seq<char>>;

/// `serde_json::from_str`, whose outcome depends on the text alone.
#[verifier::external_body]
fn value_from_text(text: &str) -> (outcome: Result<serde_json::Value, String>)
    ensures
        match outcome {
            Ok(value) => json_of_text(text@) == Ok::<JsonView, Seq<char>>(value_content(value)),
            Err(words) => json_of_text(text@) == Err::<JsonView, Seq<char>>(words@),
        },
{
    serde_json::from_str(text).map_err(|err| err.to_string())
}

/// `serde_json::from_slice`, whose outcome depends on the bytes alone.
#[verifier::external_body]
fn value_from_bytes(bytes: &[u8]) -> (outcome: Result<serde_json::Value, String>)
    ensures
        match outcome {
            Ok(value) => json_of_bytes(bytes@) == Ok::<JsonView, Seq<char>>(value_content(value)),
            Err(words) => json_of_bytes(bytes@) == Err::<JsonView, Seq<char>>(words@),
        },
{
    serde_json::from_slice(bytes).map_err(|err| err.to_string())
}

/// The document that a `serde_json::Value` holds, variant for variant: a number by
/// `Number::as_i64`, `Number::as_u64` and its text, an object's fields in the map's order.
#[verifier::external_body]
fn json_of_value(value: serde_json::Value) -> (json: Json)
    ensures
        json@ == value_content(value),
{
    match value {
        serde_json::Value::Null => Json::Null,
        serde_json::Value::Bool(b) => Json::Bool(b),
        serde_json::Value::Number(n) => Json::Number(
            Number { signed: n.as_i64(), unsigned: n.as_u64(), text: n.to_string() },
        ),
        serde_json::Value::String(s) => Json::Text(s),
        serde_json::Value::Array(a) => Json::Array(a.into_iter().map(json_of_value).collect()),
        serde_json::Value::Object(o) => Json::Object(
            o.into_iter().map(|(k, v)| (k, json_of_value(v))).collect(),
        ),
    }
}

/// Reads a JSON text.
pub fn parse_text(text: &str) -> (outcome: Result<Json, String>)
    ensures
        match outcome {
            Ok(json) => json_of_text(text@) == Ok::<JsonView, Seq<char>>(json@),
            Err(words) => json_of_text(text@) == Err::<JsonView, Seq<char>>(words@),
        },
{
    match value_from_text(text) {
        Ok(value) => Ok(json_of_value(value)),
        Err(words) => Err(words),
    }
}

/// Reads the body of a reply as JSON.
pub fn parse_bytes(bytes: &[u8]) -> (outcome: Result<Json, String>)
    ensures
        match outcome {
            Ok(json) => json_of_bytes(bytes@) == Ok::<JsonView, Seq<char>>(json@),
            Err(words) => json_of_bytes(bytes@) == Err::<JsonView, Seq<char>>(words@),
        },
{
    match value_from_bytes(bytes) {
        Ok(value) => Ok(json_of_value(value)),
        Err(words) => Err(words),
    }
}

/// A field is found by its key: the first one that has it. Where no field has it, or where there
/// are no fields, nothing is found.
pub proof fn a_field_is_found_by_its_key(
    fields: Seq<(Seq<char>, JsonView)>,
    key: Seq<char>,
    i: int,
)
    ensures
        0 <= i < fields.len() && fields[i].0 == key && (forall|j: int|
            0 <= j < i ==> (#[trigger] fields[j]).0 != key) ==> JsonView::Object(fields).get(key)
            == Some(fields[i].1) && JsonView::Object(fields).at(key) == fields[i].1,
        (forall|j: int| 0 <= j < fields.len() ==> (#[trigger] fields[j]).0 != key)
            ==> JsonView::Object(fields).get(key) is None && JsonView::Object(fields).at(key)
            is Null,
    decreases fields.len(),
{
    if fields.len() > 0 && fields[0].0 != key {
        let rest = fields.skip(1);
        assert(forall|j: int| 0 <= j < rest.len() ==> rest[j] == fields[j + 1]);
        if forall|j: int| 0 <= j < fields.len() ==> (#[trigger] fields[j]).0 != key {
            assert(forall|j: int| 0 <= j < rest.len() ==> (#[trigger] rest[j]).0 != key);
        }
        if 0 <= i < fields.len() && fields[i].0 == key && (forall|j: int|
            0 <= j < i ==> (#[trigger] fields[j]).0 != key) {
            assert(rest[i - 1] == fields[i]);
            assert forall|j: int| 0 <= j < i - 1 implies (#[trigger] rest[j]).0 != key by {
                assert(fields[j + 1].0 != key);
            }
        }
        a_field_is_found_by_its_key(rest, key, i - 1);
    }
}

/// What is no object has no fields, and only a text is a text, only a list has items, and only a
/// number is a number.
pub proof fn a_value_is_of_one_kind(
    json: JsonView,
    key: Seq<char>,
    text: Seq<char>,
    items: Seq<JsonView>,
    signed: Option<i64>,
    unsigned: Option<u64>,
)
    ensures
        !(json is Object) ==> json.get(key) is None && json.at(key) is Null && json.fields()
            is None,
        JsonView::Text(text).text() == Some(text),
        JsonView::Array(items).items() == Some(items),
        (JsonView::Number { signed, unsigned, text }).signed() == signed,
        (JsonView::Number { signed, unsigned, text }).unsigned() == unsigned,
        !(json is Text) ==> json.text() is None,
        !(json is Array) ==> json.items() is None,
        !(json is Number) ==> json.signed() is None && json.unsigned() is None,
        json.at(key).text() is None ==> json.text_or(key, text) == text,
        json.at(key).text() is Some ==> json.text_or(key, text) == json.at(key).text()->0,
{
}

} // verus!
