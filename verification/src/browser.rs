//! Choosing the browser target to attach to.

use vstd::prelude::*;

use crate::text::same_text;

verus! {

/// One entry of the browser's target list (`/json`): its type and, when it
/// has one, its debugger WebSocket URL.
pub struct DebugTarget {
    pub kind: Option<String>,
    pub ws_url: Option<String>,
}

/// The entry is a page with a debugger URL.
pub open spec fn attachable(t: DebugTarget) -> bool {
    &&& t.kind matches Some(k) && k@ == "page"@
    &&& t.ws_url is Some
}

/// The debugger URL of the first page target that has one.
pub fn page_socket_url(targets: &Vec<DebugTarget>) -> (r: Option<String>)
    ensures
        match r {
            Some(u) => exists|i: int|
                0 <= i < targets@.len() && attachable(#[trigger] targets@[i]) && targets@[i].ws_url == Some(u)
                    && forall|j: int| 0 <= j < i ==> !attachable(#[trigger] targets@[j]),
            None => forall|i: int| 0 <= i < targets@.len() ==> !attachable(#[trigger] targets@[i]),
        },
{
    let mut i: usize = 0;
    while i < targets.len()
        invariant
            i <= targets.len(),
            forall|j: int| 0 <= j < i ==> !attachable(#[trigger] targets@[j]),
        decreases targets.len() - i,
    {
        let t = &targets[i];
        let is_page = match &t.kind {
            Some(k) => same_text(k.as_str(), "page"),
            None => false,
        };
        if is_page {
            match &t.ws_url {
                Some(u) => {
                    assert(attachable(targets@[i as int]));
                    return Some(u.clone());
                },
                None => {},
            }
        }
        i = i + 1;
    }
    None
}

} // verus!
