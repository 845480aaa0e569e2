//! A plain model of JSON documents, filled from `serde_json`.

use vstd::prelude::*;

verus! {

/// A JSON value held as plain data.
///
/// Numbers keep the text that `serde_json` prints for them; objects keep
/// their members in the order in which `serde_json` yields them.
#[derive(Debug)]
pub enum JsonValue {
    Null,
    Bool(bool),
    Number(String),
    Str(String),
    Array(Vec<JsonValue>),
    Object(Vec<(String, JsonValue)>),
}

/// The mathematical form of a [`JsonValue`].
pub enum JsonModel {
    Null,
    Bool(bool),
    Number(Seq<char>),
    Str(Seq<char>),
    Array(Seq<JsonModel>),
    Object(Seq<(Seq<char>, JsonModel)>),
}

impl JsonValue {
    pub open spec fn model(&self) -> JsonModel
        decreases self,
    {
        match self {
            JsonValue::Null => JsonModel::Null,
            JsonValue::Bool(b) => JsonModel::Bool(*b),
            JsonValue::Number(n) => JsonModel::Number(n@),
            JsonValue::Str(s) => JsonModel::Str(s@),
            JsonValue::Array(a) => JsonModel::Array(
                Seq::new(a.len() as nat, |i: int| if 0 <= i < a.len() { a@[i].model() } else { JsonModel::Null }),
            ),
            JsonValue::Object(o) => JsonModel::Object(
                Seq::new(o.len() as nat, |i: int| if 0 <= i < o.len() { (o@[i].0@, o@[i].1.model()) } else { (Seq::empty(), JsonModel::Null) }),
            ),
        }
    }
}

impl View for JsonValue {
    type V = JsonModel;

    open spec fn view(&self) -> JsonModel {
        self.model()
    }
}

} // verus!

verus! {

/// What `serde_json::from_str::<serde_json::Value>` yields for a text, as a
/// [`JsonModel`]; `None` where it refuses the text.
pub uninterp spec fn json_parse(text: Seq<char>) -> Option<JsonModel>;

/// The model of an optional value.
pub open spec fn opt_model(v: Option<JsonValue>) -> Option<JsonModel> {
    match v {
        Some(x) => Some(x@),
        None => None,
    }
}

/// `serde_json::Value`, carried opaquely from the parser to the conversion
/// into [`JsonValue`].
#[verifier::external_type_specification]
#[verifier::external_body]
pub struct ExSerdeJsonValue(serde_json::Value);

/// Moves a `serde_json::Value` into a [`JsonValue`], one variant for one
/// variant; numbers become the text that `serde_json` prints for them.
#[verifier::external_body]
fn value_from_serde(v: serde_json::Value) -> JsonValue {
    match v {
        serde_json::Value::Null => JsonValue::Null,
        serde_json::Value::Bool(b) => JsonValue::Bool(b),
        serde_json::Value::Number(n) => JsonValue::Number(n.to_string()),
        serde_json::Value::String(s) => JsonValue::Str(s),
        serde_json::Value::Array(a) => JsonValue::Array(a.into_iter().map(value_from_serde).collect()),
        serde_json::Value::Object(o) => JsonValue::Object(
            o.into_iter().map(|(k, x)| (k, value_from_serde(x))).collect(),
        ),
    }
}

/// Parses `text` as one JSON document.
///
/// Calls `serde_json::from_str::<serde_json::Value>`; the contract claims
/// only that the outcome is a function of the text (the name `json_parse`).
#[verifier::external_body]
pub(crate) fn parse_json(text: &str) -> (r: Option<JsonValue>)
    ensures
        opt_model(r) == json_parse(text@),
{
    serde_json::from_str::<serde_json::Value>(text).ok().map(value_from_serde)
}

/// The first member of `members` whose key is `key`.
pub open spec fn member_get(members: Seq<(Seq<char>, JsonModel)>, key: Seq<char>) -> Option<JsonModel>
    decreases members.len(),
{
    if members.len() == 0 {
        None
    } else if members[0].0 == key {
        Some(members[0].1)
    } else {
        member_get(members.drop_first(), key)
    }
}

/// A member found by name is one of the members.
pub proof fn lemma_member_get_in(members: Seq<(Seq<char>, JsonModel)>, key: Seq<char>)
    ensures
        member_get(members, key) matches Some(v) ==> exists|i: int|
            0 <= i < members.len() && #[trigger] members[i] == (key, v),
    decreases members.len(),
{
    if members.len() > 0 && members[0].0 != key {
        lemma_member_get_in(members.drop_first(), key);
        if let Some(v) = member_get(members, key) {
            let i = choose|i: int| 0 <= i < members.drop_first().len() && #[trigger] members.drop_first()[i] == (key, v);
            assert(members[i + 1] == (key, v));
        }
    }
}

/// `Value::get` on an object: the member named `key`; nothing on other values.
pub open spec fn model_get(v: JsonModel, key: Seq<char>) -> Option<JsonModel> {
    match v {
        JsonModel::Object(m) => member_get(m, key),
        _ => None,
    }
}

/// `Value::as_str`: the text of a string value.
pub open spec fn model_as_str(v: JsonModel) -> Option<Seq<char>> {
    match v {
        JsonModel::Str(s) => Some(s),
        _ => None,
    }
}

/// Whether two strings hold the same characters.
pub fn str_equal(a: &str, b: &str) -> (r: bool)
    ensures
        r == (a@ == b@),
{
    let x = a.to_owned();
    let y = b.to_owned();
    x == y
}

impl JsonValue {
    /// The text of a string value.
    pub fn as_str(&self) -> (r: Option<&str>)
        ensures
            match r {
                Some(s) => model_as_str(self@) == Some(s@),
                None => model_as_str(self@) is None,
            },
    {
        match self {
            JsonValue::Str(s) => Some(s.as_str()),
            _ => None,
        }
    }

    /// The member of an object named `key`, as `serde_json::Value::get` gives it.
    pub fn get(&self, key: &str) -> (r: Option<&JsonValue>)
        ensures
            match r {
                Some(v) => model_get(self@, key@) == Some(v@),
                None => model_get(self@, key@) is None,
            },
    {
        match self {
            JsonValue::Object(members) => {
                let ghost m = self@->Object_0;
                assert(self@ is Object);
                assert(m.len() == members.len());
                assert forall|j: int| 0 <= j < members.len() implies #[trigger] m[j] == (members@[j].0@, members@[j].1@) by {}
                assert(m.skip(0) =~= m);
                let mut i: usize = 0;
                while i < members.len()
                    invariant
                        i <= members.len(),
                        self@ is Object,
                        m == self@->Object_0,
                        m.len() == members.len(),
                        forall|j: int| 0 <= j < members.len() ==> #[trigger] m[j] == (members@[j].0@, members@[j].1@),
                        member_get(m, key@) == member_get(m.skip(i as int), key@),
                    decreases members.len() - i,
                {
                    assert(m.skip(i as int).drop_first() =~= m.skip(i + 1));
                    if str_equal(members[i].0.as_str(), key) {
                        assert(m.skip(i as int)[0] == m[i as int]);
                        assert(m[i as int] == (members@[i as int].0@, members@[i as int].1@));
                        assert(member_get(m.skip(i as int), key@) == Some(members@[i as int].1@));
                        return Some(&members[i].1);
                    }
                    i = i + 1;
                }
                None
            },
            _ => None,
        }
    }
}

} // verus!
