//! JSON documents as the configuration reads them.

use vstd::prelude::*;

verus! {

/// A JSON value.
///
/// A number is kept where it is an integer that fits 64 bits with a sign;
/// any other number is `Decimal`, which says no more than that it is one.
#[derive(Debug)]
pub enum Json {
    Null,
    Bool(bool),
    Integer(i64),
    Decimal,
    Text(String),
    Array(Vec<Json>),
    Object(Vec<Member>),
}

/// A member of a JSON object.
#[derive(Debug)]
pub struct Member {
    pub name: String,
    pub value: Json,
}

/// The model of a JSON value.
pub enum JsonValue {
    Null,
    Bool(bool),
    Integer(int),
    Decimal,
    Text(Seq<char>),
    Array(Seq<JsonValue>),
    Object(Seq<MemberValue>),
}

/// The model of a member of a JSON object.
pub struct MemberValue {
    pub name: Seq<char>,
    pub value: JsonValue,
}

impl View for Json {
    type V = JsonValue;

    open spec fn view(&self) -> JsonValue
        decreases self,
    {
        match self {
            Json::Null => JsonValue::Null,
            Json::Bool(b) => JsonValue::Bool(*b),
            Json::Integer(i) => JsonValue::Integer(*i as int),
            Json::Decimal => JsonValue::Decimal,
            Json::Text(s) => JsonValue::Text(s@),
            Json::Array(items) => JsonValue::Array(
                Seq::new(
                    items@.len(),
                    |i: int|
                        if 0 <= i < items@.len() {
                            items@[i].view()
                        } else {
                            JsonValue::Null
                        },
                ),
            ),
            Json::Object(members) => JsonValue::Object(
                Seq::new(
                    members@.len(),
                    |i: int|
                        if 0 <= i < members@.len() {
                            MemberValue {
                                name: members@[i].name@,
                                value: members@[i].value.view(),
                            }
                        } else {
                            MemberValue { name: Seq::empty(), value: JsonValue::Null }
                        },
                ),
            ),
        }
    }
}

/// Position `i` holds the first member called `key`.
pub open spec fn first_member(members: Seq<MemberValue>, key: Seq<char>, i: int) -> bool {
    &&& 0 <= i < members.len()
    &&& members[i].name == key
    &&& forall|j: int| 0 <= j < i ==> (#[trigger] members[j]).name != key
}

impl JsonValue {
    /// The member of an object that is called `key`; nothing where the value
    /// is no object or has no such member.
    pub open spec fn member(self, key: Seq<char>) -> Option<JsonValue> {
        match self {
            JsonValue::Object(members) => if exists|i: int| first_member(members, key, i) {
                Some(members[choose|i: int| first_member(members, key, i)].value)
            } else {
                None
            },
            _ => None,
        }
    }

    /// The member called `key`, and `Null` where there is none.
    pub open spec fn at(self, key: Seq<char>) -> JsonValue {
        match self.member(key) {
            Some(value) => value,
            None => JsonValue::Null,
        }
    }

    /// The items of an array; nothing for any other value.
    pub open spec fn items(self) -> Option<Seq<JsonValue>> {
        match self {
            JsonValue::Array(items) => Some(items),
            _ => None,
        }
    }

    /// The text of a string, and the empty text for any other value.
    pub open spec fn text(self) -> Seq<char> {
        match self {
            JsonValue::Text(s) => s,
            _ => Seq::empty(),
        }
    }

    /// The number that an integer is; nothing for any other value.
    pub open spec fn integer(self) -> Option<int> {
        match self {
            JsonValue::Integer(i) => Some(i),
            _ => None,
        }
    }

    /// The texts of the items of an array, each read with `text`; no text at
    /// all for any other value.
    pub open spec fn texts(self) -> Seq<Seq<char>> {
        match self {
            JsonValue::Array(items) => items.map_values(|item: JsonValue| item.text()),
            _ => Seq::empty(),
        }
    }
}

/// The views of a vector of strings.
pub open spec fn strings(items: Seq<String>) -> Seq<Seq<char>> {
    items.map_values(|item: String| item@)
}

/// A value of `serde_json`, carried as it is until it is moved into a
/// `Json`.
#[verifier::external_type_specification]
#[verifier::external_body]
pub struct ExValue(serde_json::Value);

/// The document that a text holds, where the text is JSON.
pub uninterp spec fn json_document(text: Seq<char>) -> Option<JsonValue>;

/// Moves a value of `serde_json` into a `Json`, variant by variant and
/// member by member, in the order in which `serde_json` hands the members
/// out; a number becomes what `serde_json::Number::as_i64` makes of it. The
/// contract says nothing: what comes out is named by `read_json`, the only
/// caller.
#[verifier::external_body]
fn json_of_value(value: serde_json::Value) -> Json {
    match value {
        serde_json::Value::Null => Json::Null,
        serde_json::Value::Bool(b) => Json::Bool(b),
        serde_json::Value::Number(n) => n.as_i64().map_or(Json::Decimal, Json::Integer),
        serde_json::Value::String(s) => Json::Text(s),
        serde_json::Value::Array(a) => Json::Array(a.into_iter().map(json_of_value).collect()),
        serde_json::Value::Object(m) => Json::Object(
            m.into_iter().map(|(name, v)| Member { name, value: json_of_value(v) }).collect(),
        ),
    }
}

/// `serde_json::from_str`: the document that `text` holds, or nothing where
/// the text is not JSON. The contract names the document and says no more
/// of it.
#[verifier::external_body]
fn read_json(text: &str) -> (document: Option<Json>)
    ensures
        match document {
            Some(d) => json_document(text@) == Some(d@),
            None => json_document(text@) is None,
        },
{
    serde_json::from_str::<serde_json::Value>(text).ok().map(json_of_value)
}

impl Json {
    /// The document that `text` holds, or nothing where the text is not
    /// JSON.
    pub fn parse(text: &str) -> (document: Option<Json>)
        ensures
            match document {
                Some(d) => json_document(text@) == Some(d@),
                None => json_document(text@) is None,
            },
    {
        read_json(text)
    }

    /// The member of an object that is called `key`.
    pub fn get(&self, key: &str) -> (member: Option<&Json>)
        ensures
            match member {
                Some(value) => self@.member(key@) == Some(value@),
                None => self@.member(key@) is None,
            },
    {
        match self {
            Json::Object(members) => {
                let name = String::from_str(key);
                let ghost model = self@->Object_0;
                let mut i: usize = 0;
                while i < members.len()
                    invariant
                        i <= members.len(),
                        name@ == key@,
                        self@ == JsonValue::Object(model),
                        model.len() == members@.len(),
                        forall|j: int|
                            0 <= j < members@.len() ==> #[trigger] model[j] == (MemberValue {
                                name: members@[j].name@,
                                value: members@[j].value@,
                            }),
                        forall|j: int| 0 <= j < i ==> (#[trigger] model[j]).name != key@,
                    decreases members.len() - i,
                {
                    if members[i].name == name {
                        proof {
                            assert(first_member(model, key@, i as int));
                            let found = choose|k: int| first_member(model, key@, k);
                            if found < i {
                                assert(model[found].name != key@);
                            } else if found > i {
                                assert(model[i as int].name != key@);
                            }
                        }
                        return Some(&members[i].value);
                    }
                    i = i + 1;
                }
                None
            },
            _ => None,
        }
    }

    /// The items of an array.
    pub fn as_array(&self) -> (items: Option<&Vec<Json>>)
        ensures
            match items {
                Some(v) => {
                    &&& self@.items() is Some
                    &&& self@.items()->Some_0.len() == v@.len()
                    &&& forall|i: int|
                        0 <= i < v@.len() ==> (#[trigger] v@[i])@ == self@.items()->Some_0[i]
                },
                None => self@.items() is None,
            },
    {
        match self {
            Json::Array(items) => Some(items),
            _ => None,
        }
    }

    /// Whether the value is an object.
    pub fn is_object(&self) -> (yes: bool)
        ensures
            yes == (self@ is Object),
    {
        match self {
            Json::Object(_) => true,
            _ => false,
        }
    }

    /// The text of a string, and the empty text for any other value.
    pub fn text(&self) -> (text: String)
        ensures
            text@ == self@.text(),
    {
        match self {
            Json::Text(s) => s.clone(),
            _ => String::new(),
        }
    }

    /// The number that an integer is.
    pub fn as_i64(&self) -> (number: Option<i64>)
        ensures
            match number {
                Some(i) => self@.integer() == Some(i as int),
                None => self@.integer() is None,
            },
    {
        match self {
            Json::Integer(i) => Some(*i),
            _ => None,
        }
    }

    /// The texts of the items of an array, each read with `text`; no text at
    /// all for any other value.
    pub fn texts(&self) -> (texts: Vec<String>)
        ensures
            strings(texts@) == self@.texts(),
    {
        let mut texts: Vec<String> = Vec::new();
        match self.as_array() {
            None => {
                assert(strings(texts@) =~= self@.texts());
            },
            Some(items) => {
                let ghost model = self@.items()->Some_0;
                let mut i: usize = 0;
                while i < items.len()
                    invariant
                        i <= items.len(),
                        model.len() == items@.len(),
                        forall|j: int| 0 <= j < items@.len() ==> (#[trigger] items@[j])@ == model[j],
                        strings(texts@) == model.take(i as int).map_values(
                            |item: JsonValue| item.text(),
                        ),
                    decreases items.len() - i,
                {
                    let text = items[i].text();
                    let ghost before = texts@;
                    texts.push(text);
                    i = i + 1;
                    proof {
                        assert(items@[i - 1]@ == model[i - 1]);
                        assert(strings(texts@) =~= strings(before).push(text@));
                        assert(model.take(i as int).drop_last() =~= model.take(i - 1));
                        assert(model.take(i as int).map_values(|item: JsonValue| item.text())
                            =~= model.take(i - 1).map_values(
                            |item: JsonValue| item.text(),
                        ).push(model[i - 1].text()));
                    }
                }
                assert(model.take(items@.len() as int) =~= model);
            },
        }
        texts
    }
}

} // verus!
