//! JSON values as plain data, with the accessors that readers use: a
//! member by its key, and a value as text, as a list, as an object or as an
//! integer; and the parse of JSON text, which serde_json does.
use vstd::prelude::*;
use vstd::string::StringSliceAdditionalSpecFns;
use crate::text::str_eq;

verus! {

/// A JSON value. A number holds its value when it is an integer that fits in
/// `i64`, and nothing otherwise; an object holds its members in order.
#[derive(Debug)]
pub enum JsonValue {
    Null,
    Bool(bool),
    Number(Option<i64>),
    String(String),
    Array(Vec<JsonValue>),
    Object(Vec<(String, JsonValue)>),
}

pub enum JsonView {
    Null,
    Bool(bool),
    Number(Option<i64>),
    String(Seq<char>),
    Array(Seq<JsonView>),
    Object(Seq<(Seq<char>, JsonView)>),
}

/// The view of a value.
pub open spec fn json_view(v: JsonValue) -> JsonView
    decreases v,
{
    match v {
        JsonValue::Null => JsonView::Null,
        JsonValue::Bool(b) => JsonView::Bool(b),
        JsonValue::Number(n) => JsonView::Number(n),
        JsonValue::String(s) => JsonView::String(s@),
        JsonValue::Array(items) => {
            proof {
                assert(decreases_to!(items => items@));
            }
            JsonView::Array(json_items(items@))
        },
        JsonValue::Object(members) => {
            proof {
                assert(decreases_to!(members => members@));
            }
            JsonView::Object(json_members(members@))
        },
    }
}

/// The views of values.
pub open spec fn json_items(v: Seq<JsonValue>) -> Seq<JsonView>
    decreases v,
{
    Seq::new(
        v.len(),
        |i: int|
            if 0 <= i < v.len() {
                proof {
                    assert(decreases_to!(v => v[i]));
                }
                json_view(v[i])
            } else {
                arbitrary()
            },
    )
}

/// The views of an object's members.
pub open spec fn json_members(v: Seq<(String, JsonValue)>) -> Seq<(Seq<char>, JsonView)>
    decreases v,
{
    Seq::new(
        v.len(),
        |i: int|
            if 0 <= i < v.len() {
                proof {
                    assert(decreases_to!(v => v[i]));
                    assert(decreases_to!(v[i] => v[i].1));
                }
                (v[i].0@, json_view(v[i].1))
            } else {
                arbitrary()
            },
    )
}

#[verifier::external_type_specification]
#[verifier::external_body]
pub struct ExJsonDocument(serde_json::Value);

/// The value that serde_json reads from `bytes`, in this library's model, or
/// nothing when the bytes are no JSON document.
pub uninterp spec fn json_value_of(bytes: Seq<u8>) -> Option<JsonView>;

/// Parses `bytes` as one JSON document with `serde_json::from_slice` and takes
/// the value into this library's model. Trusted: the result is what serde_json
/// reads from the bytes, named by `json_value_of`, and nothing when serde_json
/// refuses them.
#[verifier::external_body]
pub fn parse_json(bytes: &[u8]) -> (r: Option<JsonValue>)
    ensures
        match json_value_of(bytes@) {
            Some(v) => r matches Some(x) && x@ == v,
            None => r is None,
        },
{
    match serde_json::from_slice::<serde_json::Value>(bytes) {
        Ok(value) => Some(json_from_document(value)),
        Err(_) => None,
    }
}

/// Takes a serde_json value into this library's model, variant for variant: a
/// number keeps its `i64` when `serde_json::Number::as_i64` gives one, and an
/// object keeps its members in the order serde_json holds them. Trusted, and
/// reached only from `parse_json`, whose contract covers it.
#[verifier::external_body]
fn json_from_document(value: serde_json::Value) -> JsonValue {
    match value {
        serde_json::Value::Null => JsonValue::Null,
        serde_json::Value::Bool(b) => JsonValue::Bool(b),
        serde_json::Value::Number(n) => JsonValue::Number(n.as_i64()),
        serde_json::Value::String(s) => JsonValue::String(s),
        serde_json::Value::Array(items) => JsonValue::Array(items.into_iter().map(json_from_document).collect()),
        serde_json::Value::Object(members) => JsonValue::Object(members.into_iter().map(|(k, v)| (k, json_from_document(v))).collect()),
    }
}

/// The value that serde_json reads from `text`.
pub fn parse_json_str(text: &str) -> (r: Option<JsonValue>)
    ensures
        match json_value_of(text.spec_bytes()) {
            Some(v) => r matches Some(x) && x@ == v,
            None => r is None,
        },
{
    parse_json(text.as_bytes())
}

impl View for JsonValue {
    type V = JsonView;

    open spec fn view(&self) -> JsonView {
        json_view(*self)
    }
}

/// The index of the first member named `key`, from `i` on.
pub open spec fn member_index_from(members: Seq<(Seq<char>, JsonView)>, key: Seq<char>, i: int) -> Option<int>
    decreases members.len() - i,
{
    if i < 0 || i >= members.len() {
        None
    } else if members[i].0 == key {
        Some(i)
    } else {
        member_index_from(members, key, i + 1)
    }
}

/// The index of the first member named `key`.
pub open spec fn member_index(members: Seq<(Seq<char>, JsonView)>, key: Seq<char>) -> Option<int> {
    member_index_from(members, key, 0)
}

/// The first member index lies among the members and has the key.
pub proof fn lemma_member_index(members: Seq<(Seq<char>, JsonView)>, key: Seq<char>, i: int)
    requires
        0 <= i,
    ensures
        member_index_from(members, key, i) matches Some(j) ==> i <= j < members.len()
            && members[j].0 == key,
    decreases members.len() - i,
{
    if i < members.len() && members[i].0 != key {
        lemma_member_index(members, key, i + 1);
    }
}

/// The member of an object named `key`; nothing for another value.
pub open spec fn json_get(v: JsonView, key: Seq<char>) -> Option<JsonView> {
    match v {
        JsonView::Object(members) => match member_index(members, key) {
            Some(i) => Some(members[i].1),
            None => None,
        },
        _ => None,
    }
}

/// The member of an optional value named `key`.
pub open spec fn json_get_opt(v: Option<JsonView>, key: Seq<char>) -> Option<JsonView> {
    match v {
        Some(x) => json_get(x, key),
        None => None,
    }
}

/// The text of a string value.
pub open spec fn json_str(v: Option<JsonView>) -> Option<Seq<char>> {
    match v {
        Some(JsonView::String(s)) => Some(s),
        _ => None,
    }
}

/// The items of a list value.
pub open spec fn json_array(v: Option<JsonView>) -> Option<Seq<JsonView>> {
    match v {
        Some(JsonView::Array(items)) => Some(items),
        _ => None,
    }
}

/// The members of an object value.
pub open spec fn json_object(v: Option<JsonView>) -> Option<Seq<(Seq<char>, JsonView)>> {
    match v {
        Some(JsonView::Object(members)) => Some(members),
        _ => None,
    }
}

/// The integer of a number value that holds one.
pub open spec fn json_i64(v: Option<JsonView>) -> Option<i64> {
    match v {
        Some(JsonView::Number(n)) => n,
        _ => None,
    }
}

impl JsonValue {
    /// The member named `key`, when this is an object that has one.
    pub fn get(&self, key: &str) -> (r: Option<&JsonValue>)
        ensures
            match json_get(self@, key@) {
                Some(x) => r matches Some(v) && v@ == x,
                None => r is None,
            },
    {
        match self {
            JsonValue::Object(members) => {
                let ghost view = json_members(members@);
                proof {
                    lemma_member_index(view, key@, 0);
                    assert(self@ == JsonView::Object(view));
                }
                let mut i: usize = 0;
                while i < members.len()
                    invariant
                        view == json_members(members@),
                        self@ == JsonView::Object(view),
                        i <= members@.len(),
                        member_index_from(view, key@, i as int) == member_index(view, key@),
                    decreases members@.len() - i,
                {
                    proof {
                        assert(view[i as int] == (members@[i as int].0@, json_view(
                            members@[i as int].1,
                        )));
                    }
                    if str_eq(members[i].0.as_str(), key) {
                        return Some(&members[i].1);
                    }
                    i = i + 1;
                }
                None
            },
            _ => None,
        }
    }

    /// The text of a string value.
    pub fn as_str(&self) -> (r: Option<&str>)
        ensures
            match json_str(Some(self@)) {
                Some(s) => r matches Some(x) && x@ == s,
                None => r is None,
            },
    {
        match self {
            JsonValue::String(s) => Some(s.as_str()),
            _ => None,
        }
    }

    /// The items of a list value.
    pub fn as_array(&self) -> (r: Option<&Vec<JsonValue>>)
        ensures
            match json_array(Some(self@)) {
                Some(items) => r matches Some(x) && json_items(x@) == items,
                None => r is None,
            },
    {
        match self {
            JsonValue::Array(items) => Some(items),
            _ => None,
        }
    }

    /// The members of an object value.
    pub fn as_object(&self) -> (r: Option<&Vec<(String, JsonValue)>>)
        ensures
            match json_object(Some(self@)) {
                Some(members) => r matches Some(x) && json_members(x@) == members,
                None => r is None,
            },
    {
        match self {
            JsonValue::Object(members) => Some(members),
            _ => None,
        }
    }

    /// The integer of a number value that holds one.
    pub fn as_i64(&self) -> (r: Option<i64>)
        ensures
            r == json_i64(Some(self@)),
    {
        match self {
            JsonValue::Number(n) => *n,
            _ => None,
        }
    }
}

/// The text of an optional string value.
pub fn opt_str<'a>(v: Option<&'a JsonValue>) -> (r: Option<&'a str>)
    ensures
        match json_str(
            match v {
                Some(x) => Some(x@),
                None => None,
            },
        ) {
            Some(s) => r matches Some(x) && x@ == s,
            None => r is None,
        },
{
    match v {
        Some(x) => x.as_str(),
        None => None,
    }
}

/// The member named `key` of an optional value.
pub fn opt_get<'a>(v: Option<&'a JsonValue>, key: &str) -> (r: Option<&'a JsonValue>)
    ensures
        match json_get_opt(
            match v {
                Some(x) => Some(x@),
                None => None,
            },
            key@,
        ) {
            Some(x) => r matches Some(y) && y@ == x,
            None => r is None,
        },
{
    match v {
        Some(x) => x.get(key),
        None => None,
    }
}

} // verus!
