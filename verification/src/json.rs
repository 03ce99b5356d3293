use vstd::prelude::*;
use crate::state::names_view;

verus! {

/// Model of a list of optional texts.
pub open spec fn options_view(values: Seq<Option<String>>) -> Seq<Option<Seq<char>>> {
    Seq::new(
        values.len(),
        |i: int|
            match values[i] {
                Some(s) => Some(s@),
                None => None,
            },
    )
}

/// The compact JSON text of the object that has the given keys, each with
/// the value at its place in `values`: a string, or `null` where there is
/// none. It is what `serde_json` prints for such an object.
pub uninterp spec fn json_object_text(keys: Seq<Seq<char>>, values: Seq<Option<Seq<char>>>) -> Seq<
    char,
>;

/// Builds a `serde_json::Map` from the keys and values, each value turned
/// into a `serde_json::Value` by `Value::from`, and prints the object with
/// `Value::to_string`. The text depends on the keys and values alone.
#[verifier::external_body]
pub(crate) fn json_object(keys: &Vec<String>, values: &Vec<Option<String>>) -> (text: String)
    requires
        keys.len() == values.len(),
    ensures
        text@ == json_object_text(names_view(keys@), options_view(values@)),
{
    let mut map = serde_json::Map::new();
    for i in 0..keys.len() {
        map.insert(keys[i].clone(), serde_json::Value::from(values[i].clone()));
    }
    serde_json::Value::Object(map).to_string()
}

} // verus!
