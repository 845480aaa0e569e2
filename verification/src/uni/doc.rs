//! Documentation of the binding layer, read from JSON files: a default text
//! and one text per target language, each shown only when that language's
//! feature is enabled.

use vstd::prelude::*;

use crate::json::{json_parse, member_get, parse_json, str_equal, JsonModel, JsonValue};

verus! {

/// Where an item's documentation is: the JSON file `path`, and in it the
/// entry `name`, or the whole file when no name is given.
#[derive(Debug)]
pub struct UniffiDocArgs {
    pub name: Option<String>,
    pub path: String,
}

/// The documentation of an item: the default text, and the text of each
/// feature.
#[derive(Debug)]
pub struct DocPlan {
    pub default: Option<String>,
    pub features: Vec<(String, String)>,
}

/// Why the documentation of an item could not be read.
#[derive(Debug, Clone, Copy, PartialEq, Eq, Structural)]
pub enum DocError {
    /// The file is not JSON of the expected shape.
    InvalidJson,
    /// The file has no entry of the given name.
    MissingEntry,
}

/// Whether `v` is an object whose members are all strings.
pub open spec fn is_string_table(v: JsonModel) -> bool {
    &&& v is Object
    &&& forall|i: int| 0 <= i < v->Object_0.len() ==> (#[trigger] v->Object_0[i]).1 is Str
}

/// Whether `v` is an object whose members are all string tables.
pub open spec fn is_table_of_tables(v: JsonModel) -> bool {
    &&& v is Object
    &&& forall|i: int| 0 <= i < v->Object_0.len() ==> is_string_table((#[trigger] v->Object_0[i]).1)
}

/// The members of the table that documents the item: the whole file when
/// no name is given, else its entry `name`; the file must be a table of
/// strings, or a table of such tables when a name is given.
pub open spec fn doc_table(content: Seq<char>, name: Option<Seq<char>>) -> Result<
    Seq<(Seq<char>, JsonModel)>,
    DocError,
> {
    match json_parse(content) {
        None => Err(DocError::InvalidJson),
        Some(v) => match name {
            None => if is_string_table(v) {
                Ok(v->Object_0)
            } else {
                Err(DocError::InvalidJson)
            },
            Some(n) => if is_table_of_tables(v) {
                match member_get(v->Object_0, n) {
                    Some(t) => Ok(t->Object_0),
                    None => Err(DocError::MissingEntry),
                }
            } else {
                Err(DocError::InvalidJson)
            },
        },
    }
}

/// The entry name of the documentation, if any.
pub open spec fn entry_name(args: &UniffiDocArgs) -> Option<Seq<char>> {
    match args.name {
        Some(n) => Some(n@),
        None => None,
    }
}

/// The text of a string value.
pub open spec fn text_of(v: JsonModel) -> Seq<char> {
    match v {
        JsonModel::Str(s) => s,
        _ => Seq::empty(),
    }
}

/// The feature texts of a table: every member but `default`, in order.
pub open spec fn feature_docs(ms: Seq<(Seq<char>, JsonModel)>) -> Seq<(Seq<char>, Seq<char>)>
    decreases ms.len(),
{
    if ms.len() == 0 {
        Seq::empty()
    } else {
        let rest = feature_docs(ms.drop_last());
        let last = ms.last();
        if last.0 == "default"@ {
            rest
        } else {
            rest.push((last.0, text_of(last.1)))
        }
    }
}

/// The default text of a table, with a line break after it.
pub open spec fn default_doc(ms: Seq<(Seq<char>, JsonModel)>) -> Option<Seq<char>> {
    match member_get(ms, "default"@) {
        Some(v) => Some(text_of(v) + "\n"@),
        None => None,
    }
}

/// Whether the members of a table are all strings.
fn all_strings(members: &Vec<(String, JsonValue)>) -> (r: bool)
    ensures
        r == forall|i: int| 0 <= i < members.len() ==> (#[trigger] members@[i]).1@ is Str,
{
    let mut i: usize = 0;
    while i < members.len()
        invariant
            i <= members.len(),
            forall|j: int| 0 <= j < i ==> (#[trigger] members@[j]).1@ is Str,
        decreases members.len() - i,
    {
        match &members[i].1 {
            JsonValue::Str(_) => {},
            _ => {
                return false;
            },
        }
        i = i + 1;
    }
    true
}

/// Whether `v` is an object whose members are all strings.
fn string_table(v: &JsonValue) -> (r: bool)
    ensures
        r == is_string_table(v@),
{
    match v {
        JsonValue::Object(members) => {
            let ghost m = v@->Object_0;
            assert(m.len() == members.len());
            assert forall|i: int| 0 <= i < members.len() implies #[trigger] m[i] == (
                members@[i].0@,
                members@[i].1@,
            ) by {}
            let r = all_strings(members);
            proof {
                if r {
                    assert forall|i: int| 0 <= i < m.len() implies (#[trigger] m[i]).1 is Str by {
                        assert(members@[i].1@ is Str);
                    }
                } else {
                    let i = choose|i: int| 0 <= i < members.len() && !((#[trigger] members@[i]).1@ is Str);
                    assert(!(m[i].1 is Str));
                }
            }
            r
        },
        _ => false,
    }
}

/// The text of a string value; empty for other values.
fn text_value(v: &JsonValue) -> (r: String)
    ensures
        r@ == text_of(v@),
{
    match v {
        JsonValue::Str(s) => s.clone(),
        _ => String::new(),
    }
}

/// Whether `v` is an object whose members are all string tables.
fn table_of_tables(v: &JsonValue) -> (r: bool)
    ensures
        r == is_table_of_tables(v@),
{
    match v {
        JsonValue::Object(members) => {
            let ghost m = v@->Object_0;
            assert forall|j: int| 0 <= j < members.len() implies #[trigger] m[j] == (
                members@[j].0@,
                members@[j].1@,
            ) by {}
            let mut i: usize = 0;
            while i < members.len()
                invariant
                    i <= members.len(),
                    v@ is Object,
                    m == v@->Object_0,
                    m.len() == members.len(),
                    forall|j: int| 0 <= j < members.len() ==> #[trigger] m[j] == (members@[j].0@, members@[j].1@),
                    forall|j: int| 0 <= j < i ==> is_string_table((#[trigger] m[j]).1),
                decreases members.len() - i,
            {
                if !string_table(&members[i].1) {
                    assert(m[i as int].1 == members@[i as int].1@);
                    assert(!is_string_table(v@->Object_0[i as int].1));
                    return false;
                }
                i = i + 1;
            }
            true
        },
        _ => false,
    }
}

/// Reads the documentation of an item from the text of its JSON file.
///
/// The file must be a table of strings, or, when a name is given, a table
/// of such tables holding an entry of that name. The `default` member, if
/// any, is the default text, ended by a line break; every other member is
/// the text of the feature it is named after.
pub fn uniffi_doc(args: &UniffiDocArgs, content: &str) -> (r: Result<DocPlan, DocError>)
    ensures
        match doc_table(content@, entry_name(args)) {
            Ok(ms) => r matches Ok(plan) && plan.features@.map_values(
                |p: (String, String)| (p.0@, p.1@),
            ) == feature_docs(ms) && match default_doc(ms) {
                Some(d) => plan.default matches Some(x) && x@ == d,
                None => plan.default is None,
            },
            Err(e) => r == Err::<DocPlan, DocError>(e),
        },
{
    let parsed = match parse_json(content) {
        Some(v) => v,
        None => {
            return Err(DocError::InvalidJson);
        },
    };
    let table: &JsonValue = match &args.name {
        None => {
            if !string_table(&parsed) {
                return Err(DocError::InvalidJson);
            }
            &parsed
        },
        Some(n) => {
            if !table_of_tables(&parsed) {
                return Err(DocError::InvalidJson);
            }
            match parsed.get(n.as_str()) {
                Some(t) => {
                    proof {
                        crate::json::lemma_member_get_in(parsed@->Object_0, n@);
                        let i = choose|i: int| 0 <= i < parsed@->Object_0.len() && #[trigger] parsed@->Object_0[i] == (n@, t@);
                        assert(is_string_table(parsed@->Object_0[i].1));
                    }
                    t
                },
                None => {
                    return Err(DocError::MissingEntry);
                },
            }
        },
    };
    assert(doc_table(content@, entry_name(args)) == Ok::<Seq<(Seq<char>, JsonModel)>, DocError>(table@->Object_0));
    let members = match table {
        JsonValue::Object(ms) => ms,
        _ => {
            return Err(DocError::InvalidJson);
        },
    };
    let ghost ms = table@->Object_0;
    assert(ms.len() == members.len());
    assert forall|j: int| 0 <= j < members.len() implies #[trigger] ms[j] == (
        members@[j].0@,
        members@[j].1@,
    ) by {}
    let default = match table.get("default") {
        Some(v) => Some(text_value(v).concat("\n")),
        None => None,
    };
    let mut features: Vec<(String, String)> = Vec::new();
    let mut i: usize = 0;
    assert(ms.take(0) =~= Seq::<(Seq<char>, JsonModel)>::empty());
    assert(features@.map_values(|p: (String, String)| (p.0@, p.1@)) =~= Seq::<(Seq<char>, Seq<char>)>::empty());
    while i < members.len()
        invariant
            i <= members.len(),
            ms.len() == members.len(),
            forall|j: int| 0 <= j < members.len() ==> #[trigger] ms[j] == (members@[j].0@, members@[j].1@),
            features@.map_values(|p: (String, String)| (p.0@, p.1@)) == feature_docs(ms.take(i as int)),
        decreases members.len() - i,
    {
        let ghost before = features@;
        proof {
            assert(ms.take(i + 1).drop_last() =~= ms.take(i as int));
            assert(ms.take(i + 1).last() == ms[i as int]);
        }
        let key = &members[i].0;
        if !str_equal(key.as_str(), "default") {
            let text = text_value(&members[i].1);
            features.push((key.clone(), text));
            proof {
                assert(features@.map_values(|p: (String, String)| (p.0@, p.1@)) =~= before.map_values(
                    |p: (String, String)| (p.0@, p.1@),
                ).push((ms[i as int].0, text_of(ms[i as int].1))));
            }
        }
        i = i + 1;
    }
    proof {
        assert(ms.take(members.len() as int) =~= ms);
    }
    Ok(DocPlan { default, features })
}

} // verus!
