//! Decisions of the actuator between its browser calls: whether the
//! document and the element that a selector names were found.

use vstd::prelude::*;

use crate::text::push_text;

verus! {

broadcast use vstd::string::group_string_axioms;

pub open spec fn not_found_text(selector: Seq<char>) -> Seq<char> {
    "Element not found: "@ + selector
}

/// The root node of the document reply: its `nodeId`, which must be there.
pub fn document_root(node_id: Option<i64>) -> (r: Result<i64, String>)
    ensures
        match r {
            Ok(id) => node_id == Some(id),
            Err(e) => node_id is None && e@ == "No root nodeId"@,
        },
{
    match node_id {
        Some(id) => Ok(id),
        None => Err("No root nodeId".to_string()),
    }
}

/// The element a selector query matched: the reply's `nodeId`, which is
/// missing or zero when nothing matched.
pub fn matched_node(node_id: Option<i64>, selector: &str) -> (r: Result<i64, String>)
    ensures
        match r {
            Ok(id) => node_id == Some(id) && id != 0,
            Err(e) => (node_id is None || node_id == Some(0i64)) && e@ == not_found_text(selector@),
        },
{
    match node_id {
        Some(id) if id != 0 => Ok(id),
        _ => {
            let mut e = "Element not found: ".to_string();
            push_text(&mut e, selector);
            Err(e)
        },
    }
}

} // verus!
