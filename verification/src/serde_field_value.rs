use crate::business_result::BusinessResult;
use crate::json::{all_members, lemma_members_view, push_member, Json, JsonView};
use crate::problem::{json_problem, Problem};
use vstd::prelude::*;

verus! {

/// Reads a pair of a name and a value from an object with exactly one member.
pub struct TupleMapVisitor {}

/// The name and the value of a document that is an object with exactly one
/// member; `None` for any other document.
pub open spec fn single_entry(j: JsonView) -> Option<(Seq<char>, JsonView)> {
    match j {
        JsonView::Object(members) => if members.len() == 1 {
            Some(members[0])
        } else {
            None
        },
        _ => None,
    }
}

impl TupleMapVisitor {
    pub fn new() -> TupleMapVisitor {
        TupleMapVisitor {  }
    }

    /// What the visitor expects, for the words of an error.
    pub fn expecting(&self) -> (words: &'static str)
        ensures
            words@ == "a map with one key,value"@,
    {
        "a map with one key,value"
    }

    /// The name and the value of the one member of `j`.
    pub fn visit_map<'a>(self, j: &'a Json) -> (r: BusinessResult<(&'a str, &'a Json)>)
        ensures
            match single_entry(j@) {
                Some(entry) => r matches Ok(found) && found.0@ == entry.0 && found.1@ == entry.1
                    && decreases_to!(j => found.1),
                None => r matches Err(problem) && problem@ == json_problem(
                    "expected a map with one key,value"@,
                ),
            },
    {
        match j {
            Json::Object(members) => {
                proof {
                    lemma_members_view(members@, members@.len());
                }
                if members.len() == 1 {
                    assert(decreases_to!(*members => members[0]));
                    return Ok((members[0].0.as_str(), &members[0].1));
                }
            },
            _ => {},
        }
        Err(Problem::invalid_json("expected a map with one key,value"))
    }
}

/// The object whose one member is called `key` and holds `value`.
pub fn serialize(key: &str, value: Json) -> (j: Json)
    ensures
        j@ == JsonView::Object(seq![(key@, value@)]),
        single_entry(j@) == Some((key@, value@)),
{
    let mut members: Vec<(String, Json)> = Vec::new();
    assert(all_members(&members) =~= Seq::empty());
    push_member(&mut members, key, value);
    assert(all_members(&members) =~= seq![(key@, value@)]);
    Json::Object(members)
}

/// The name and the value of the one member of `j`.
pub fn deserialize<'a>(j: &'a Json) -> (r: BusinessResult<(&'a str, &'a Json)>)
    ensures
        match single_entry(j@) {
            Some(entry) => r matches Ok(found) && found.0@ == entry.0 && found.1@ == entry.1
                && decreases_to!(j => found.1),
            None => r matches Err(problem) && problem@ == json_problem(
                "expected a map with one key,value"@,
            ),
        },
{
    TupleMapVisitor::new().visit_map(j)
}

} // verus!
