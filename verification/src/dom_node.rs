//! DOM nodes as the DevTools protocol describes them.

use vstd::prelude::*;

verus! {

/// A DOM node, with the subtree that was delivered with it.
pub struct DomNode {
    pub node_id: i64,
    pub parent_id: Option<i64>,
    pub backend_node_id: i64,
    pub node_type: i32,
    pub node_name: String,
    pub local_name: Option<String>,
    pub node_value: String,
    pub child_node_count: Option<i32>,
    pub children: Option<Vec<DomNode>>,
    /// Attribute names and values, interleaved: [name, value, name, value, ...]
    pub attributes: Option<Vec<String>>,
    pub document_url: Option<String>,
    pub base_url: Option<String>,
    pub frame_id: Option<String>,
    pub content_document: Option<Box<DomNode>>,
    pub shadow_roots: Option<Vec<DomNode>>,
    pub pseudo_type: Option<String>,
    pub pseudo_identifier: Option<String>,
    pub distributed_nodes: Option<Vec<BackendNode>>,
}

/// A node reference by backend id.
pub struct BackendNode {
    pub node_type: i32,
    pub node_name: String,
    pub backend_node_id: i64,
}

/// The nodes a DOM node delivers, in the order the live tree inserts them:
/// the node itself, then its children, its shadow roots and its content
/// document, each with everything under it.
pub open spec fn preorder(d: DomNode) -> Seq<DomNode>
    decreases d,
{
    seq![d] + match d.children {
        Some(v) => preorder_list(v@),
        None => Seq::empty(),
    } + match d.shadow_roots {
        Some(v) => preorder_list(v@),
        None => Seq::empty(),
    } + match d.content_document {
        Some(b) => preorder(*b),
        None => Seq::empty(),
    }
}

/// The nodes a list of DOM nodes delivers, one after the other.
pub open spec fn preorder_list(s: Seq<DomNode>) -> Seq<DomNode>
    decreases s,
{
    if s.len() == 0 {
        Seq::empty()
    } else {
        preorder_list(s.subrange(0, s.len() - 1)) + preorder(s[s.len() - 1])
    }
}

/// The list a DOM node holds in an optional field, empty when absent.
pub open spec fn listed(o: Option<Vec<DomNode>>) -> Seq<DomNode> {
    match o {
        Some(v) => v@,
        None => Seq::empty(),
    }
}

/// The nodes the content document of `d` delivers, if it has one.
pub open spec fn content_order(d: DomNode) -> Seq<DomNode> {
    match d.content_document {
        Some(b) => preorder(*b),
        None => Seq::empty(),
    }
}

/// The nodes delivered by a list, split at `i`.
pub proof fn lemma_preorder_list_split(s: Seq<DomNode>, i: int)
    requires
        0 <= i <= s.len(),
    ensures
        preorder_list(s) == preorder_list(s.take(i)) + preorder_list(s.skip(i)),
    decreases s.len() - i,
{
    if i == s.len() {
        assert(s.take(i) =~= s);
        assert(s.skip(i) =~= Seq::<DomNode>::empty());
        assert(preorder_list(s) + Seq::<DomNode>::empty() =~= preorder_list(s));
    } else {
        lemma_preorder_list_split(s, i + 1);
        let a = s.take(i);
        let b = s.take(i + 1);
        assert(b.subrange(0, b.len() - 1) =~= a);
        assert(b[b.len() - 1] == s[i]);
        let c = s.skip(i);
        assert(c.subrange(0, c.len() - 1) =~= s.subrange(i, s.len() - 1));
        lemma_preorder_list_front(c);
        assert(c.skip(1) =~= s.skip(i + 1));
        assert(c[0] == s[i]);
        assert(preorder_list(s.take(i + 1)) == preorder_list(a) + preorder(s[i]));
        assert(preorder_list(s) == preorder_list(a) + preorder(s[i]) + preorder_list(s.skip(i + 1)));
        assert(preorder_list(a) + preorder(s[i]) + preorder_list(s.skip(i + 1)) =~= preorder_list(a) + (
        preorder(s[i]) + preorder_list(s.skip(i + 1))));
    }
}

/// The nodes delivered by a non-empty list: those of its first node, then
/// those of the rest.
pub proof fn lemma_preorder_list_front(s: Seq<DomNode>)
    requires
        s.len() > 0,
    ensures
        preorder_list(s) == preorder(s[0]) + preorder_list(s.skip(1)),
    decreases s.len(),
{
    if s.len() == 1 {
        assert(s.subrange(0, 0) =~= Seq::<DomNode>::empty());
        assert(s.skip(1) =~= Seq::<DomNode>::empty());
        assert(Seq::<DomNode>::empty() + preorder(s[0]) =~= preorder(s[0]));
        assert(preorder(s[0]) + Seq::<DomNode>::empty() =~= preorder(s[0]));
    } else {
        let init = s.subrange(0, s.len() - 1);
        lemma_preorder_list_front(init);
        assert(init[0] == s[0]);
        let rest = s.skip(1);
        assert(rest.subrange(0, rest.len() - 1) =~= init.skip(1));
        assert(rest[rest.len() - 1] == s[s.len() - 1]);
        assert(preorder_list(s) =~= preorder(s[0]) + preorder_list(rest));
    }
}

/// A node count, capped at `u32::MAX` (more than a tree can ever hold).
pub open spec fn capped(n: nat) -> u64 {
    if n < u32::MAX {
        n as u64
    } else {
        u32::MAX as u64
    }
}

fn cap_add(a: u64, b: u64) -> (r: u64)
    requires
        a <= u32::MAX,
        b <= u32::MAX,
    ensures
        r == if a + b < u32::MAX { (a + b) as u64 } else { u32::MAX as u64 },
{
    if a + b < 0xffff_ffff {
        a + b
    } else {
        0xffff_ffff
    }
}

/// How many nodes `d` delivers (itself and everything under it), capped.
pub fn delivered_count(d: &DomNode) -> (r: u64)
    ensures
        r == capped(preorder(*d).len()),
    decreases *d,
{
    let mut total: u64 = 1;
    match &d.children {
        Some(v) => {
            total = cap_add(total, delivered_list_count(v));
        },
        None => {},
    }
    match &d.shadow_roots {
        Some(v) => {
            total = cap_add(total, delivered_list_count(v));
        },
        None => {},
    }
    match &d.content_document {
        Some(b) => {
            total = cap_add(total, delivered_count(b));
        },
        None => {},
    }
    total
}

/// How many nodes a list of DOM nodes delivers, capped.
pub fn delivered_list_count(ds: &Vec<DomNode>) -> (r: u64)
    ensures
        r == capped(preorder_list(ds@).len()),
    decreases ds,
{
    let mut total: u64 = 0;
    let mut i: usize = 0;
    proof {
        assert(ds@.take(0) =~= Seq::<DomNode>::empty());
    }
    while i < ds.len()
        invariant
            i <= ds.len(),
            total == capped(preorder_list(ds@.take(i as int)).len()),
        decreases ds@.len() - i,
    {
        let c = delivered_count(&ds[i]);
        proof {
            assert(ds@.take(i + 1).subrange(0, i as int) =~= ds@.take(i as int));
            assert(ds@.take(i + 1)[i as int] == ds@[i as int]);
        }
        total = cap_add(total, c);
        i = i + 1;
    }
    proof {
        assert(ds@.take(ds@.len() as int) =~= ds@);
    }
    total
}

} // verus!
