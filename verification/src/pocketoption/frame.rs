//! Socket.IO event frames: a numeric prefix followed by a JSON array whose
//! first element names the event, such as `42["event",{...}]`.

use vstd::prelude::*;

use crate::json::{json_parse, parse_json, JsonModel, JsonValue};
use crate::text::{chars_of, find_char, first_index_of, slice_chars, string_of};

verus! {

/// The JSON array that starts at the first `[` of `text`, if the rest of the
/// text from there is one JSON array.
pub open spec fn bracket_array(text: Seq<char>) -> Option<Seq<JsonModel>> {
    match first_index_of(text, '[') {
        Some(start) => match json_parse(text.subrange(start, text.len() as int)) {
            Some(JsonModel::Array(items)) => Some(items),
            _ => None,
        },
        None => None,
    }
}

/// Reads the JSON array that starts at the first `[` of `text`.
pub fn bracket_array_of(text: &str) -> (r: Option<Vec<JsonValue>>)
    ensures
        match r {
            Some(items) => bracket_array(text@) == Some(
                Seq::new(items.len() as nat, |i: int| items@[i]@),
            ),
            None => bracket_array(text@) is None,
        },
{
    let chars = chars_of(text);
    match find_char(&chars, '[') {
        Some(start) => {
            let tail_chars = slice_chars(&chars, start, chars.len());
            let tail = string_of(&tail_chars);
            match parse_json(&tail) {
                Some(JsonValue::Array(items)) => {
                    proof {
                        let m = JsonValue::Array(items)@;
                        assert(m->Array_0 =~= Seq::new(items.len() as nat, |i: int| items@[i]@));
                    }
                    Some(items)
                },
                _ => None,
            }
        },
        None => None,
    }
}

} // verus!
