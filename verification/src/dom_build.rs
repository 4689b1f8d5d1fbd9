//! What inserting a delivered DOM subtree into the live tree builds.
//!
//! When the node ids a subtree delivers are new to the tree and distinct,
//! nothing is removed on the way: the tree gains one node per delivered
//! node, each delivered id maps to the node that carries it, and the new
//! nodes link up exactly as the delivered subtree does.

use vstd::prelude::*;

use crate::dom_node::{DomNode, listed};
use crate::dom_tree::{LiveDomTree, TreeNode, carries};

verus! {

/// The node ids of `p` are pairwise distinct.
pub open spec fn distinct_ids(p: Seq<DomNode>) -> bool {
    forall|i: int, j: int| #![trigger p[i], p[j]] 0 <= i < j < p.len() ==> p[i].node_id != p[j].node_id
}

/// None of the node ids of `p` is mapped by `ids`.
pub open spec fn unmapped(ids: Map<i64, u64>, p: Seq<DomNode>) -> bool {
    forall|i: int| 0 <= i < p.len() ==> !ids.contains_key(#[trigger] p[i].node_id)
}

/// The node ids of `p` are pairwise distinct and none is mapped in `t`.
pub open spec fn fresh_for(t: LiveDomTree, p: Seq<DomNode>) -> bool {
    distinct_ids(p) && unmapped(t.ids(), p)
}

/// The node ids `p` carries.
pub open spec fn id_set(p: Seq<DomNode>) -> Set<i64> {
    Set::new(|x: i64| exists|i: int| 0 <= i < p.len() && #[trigger] p[i].node_id == x)
}

/// The backend node ids `p` carries.
pub open spec fn backend_set(p: Seq<DomNode>) -> Set<i64> {
    Set::new(|x: i64| exists|i: int| 0 <= i < p.len() && #[trigger] p[i].backend_node_id == x)
}

/// `j` is stored in `after` and was not in `before`.
pub open spec fn is_new(before: LiveDomTree, after: LiveDomTree, j: u64) -> bool {
    after.nodes().contains_key(j) && !before.nodes().contains_key(j)
}

/// Every node stored in `before` is stored in `after`, unchanged and with
/// the same number.
pub open spec fn preserved(before: LiveDomTree, after: LiveDomTree) -> bool {
    forall|j: u64|
        #[trigger] before.nodes().contains_key(j) ==> after.nodes().contains_key(j) && after.nodes()[j] == before.nodes()[j]
            && after.birth()[j] == before.birth()[j]
}

/// `after` holds one more node than `before` for each node of `p`; nodes
/// not in `before` are numbered from `before`'s clock on; each id of `p`
/// maps to a new node carrying it, each backend id of `p` to a new node
/// carrying it, and other ids keep their keys.
pub open spec fn added(before: LiveDomTree, after: LiveDomTree, p: Seq<DomNode>) -> bool {
    &&& after.nodes().len() == before.nodes().len() + p.len()
    &&& forall|j: u64| #[trigger] is_new(before, after, j) ==> after.birth()[j] >= before.clock()
    &&& after.ids().dom() == before.ids().dom().union(id_set(p))
    &&& forall|x: i64| #[trigger] before.ids().contains_key(x) ==> after.ids()[x] == before.ids()[x]
    &&& forall|x: i64|
        #[trigger] id_set(p).contains(x) ==> is_new(before, after, after.ids()[x]) && after.nodes()[after.ids()[x]].node_id
            == x
    &&& after.backends().dom() == before.backends().dom().union(backend_set(p))
    &&& forall|b: i64|
        #[trigger] before.backends().contains_key(b) && !backend_set(p).contains(b) ==> after.backends()[b]
            == before.backends()[b]
    &&& forall|b: i64|
        #[trigger] backend_set(p).contains(b) ==> is_new(before, after, after.backends()[b])
            && after.nodes()[after.backends()[b]].backend_node_id == b
    &&& after.root() == before.root()
    &&& after.clock() >= before.clock()
}

/// Every node stored in `before` but `k` is stored in `after`, unchanged and
/// with the same number.
pub open spec fn preserved_but(before: LiveDomTree, after: LiveDomTree, k: u64) -> bool {
    forall|j: u64|
        #[trigger] before.nodes().contains_key(j) && j != k ==> after.nodes().contains_key(j) && after.nodes()[j]
            == before.nodes()[j] && after.birth()[j] == before.birth()[j]
}

/// `after` is `before` with one new node for each node of `p`, and nothing
/// removed or changed.
pub open spec fn extended(before: LiveDomTree, after: LiveDomTree, p: Seq<DomNode>) -> bool {
    preserved(before, after) && added(before, after, p)
}

/// Every stored node of `a` numbered at or above `lo` is stored in `b`,
/// unchanged and with the same number.
pub open spec fn keeps(a: LiveDomTree, b: LiveDomTree, lo: u64) -> bool {
    forall|j: u64|
        #[trigger] a.nodes().contains_key(j) && a.birth().contains_key(j) && a.birth()[j] >= lo ==> b.nodes().contains_key(j)
            && b.nodes()[j] == a.nodes()[j] && b.birth().contains_key(j) && b.birth()[j] == a.birth()[j]
}

/// The node `k` and the nodes under it mirror the DOM node `d` hung under
/// `parent`: each carries its DOM node's fields, links to the nodes that
/// mirror its children (then its content document) and shadow roots, in
/// order, has no pseudo elements, and is numbered at or above `lo`.
pub open spec fn mirrors(
    nodes: Map<u64, TreeNode>,
    birth: Map<u64, u64>,
    k: u64,
    d: DomNode,
    parent: Option<u64>,
    lo: u64,
) -> bool
    decreases d,
{
    &&& nodes.contains_key(k)
    &&& birth.contains_key(k)
    &&& birth[k] >= lo
    &&& carries(nodes[k], d, parent)
    &&& nodes[k].pseudo_elements@.len() == 0
    &&& nodes[k].children@.len() == listed(d.children).len() + (if d.content_document is Some {
        1int
    } else {
        0int
    })
    &&& nodes[k].shadow_roots@.len() == listed(d.shadow_roots).len()
    &&& match d.children {
        Some(v) => forall|i: int|
            0 <= i < v@.len() ==> mirrors(nodes, birth, nodes[k].children@[i], #[trigger] v@[i], Some(k), lo),
        None => true,
    }
    &&& match d.shadow_roots {
        Some(v) => forall|i: int|
            0 <= i < v@.len() ==> mirrors(nodes, birth, nodes[k].shadow_roots@[i], #[trigger] v@[i], Some(k), lo),
        None => true,
    }
    &&& match d.content_document {
        Some(b) => mirrors(nodes, birth, nodes[k].children@[nodes[k].children@.len() - 1], *b, Some(k), lo),
        None => true,
    }
}

/// A mirrored subtree stays mirrored, with any lower bound at most `lo`,
/// in a state that keeps the nodes numbered at or above `lo`.
pub proof fn lemma_mirrors_frame(
    n1: Map<u64, TreeNode>,
    b1: Map<u64, u64>,
    n2: Map<u64, TreeNode>,
    b2: Map<u64, u64>,
    k: u64,
    d: DomNode,
    parent: Option<u64>,
    lo: u64,
    lo2: u64,
)
    requires
        mirrors(n1, b1, k, d, parent, lo),
        lo2 <= lo,
        forall|j: u64|
            #[trigger] n1.contains_key(j) && b1.contains_key(j) && b1[j] >= lo ==> n2.contains_key(j) && n2[j] == n1[j]
                && b2.contains_key(j) && b2[j] == b1[j],
    ensures
        mirrors(n2, b2, k, d, parent, lo2),
    decreases d,
{
    assert(n1.contains_key(k));
    match d.children {
        Some(v) => {
            assert forall|i: int| 0 <= i < v@.len() implies mirrors(n2, b2, n2[k].children@[i], #[trigger] v@[i], Some(k), lo2) by {
                lemma_mirrors_frame(n1, b1, n2, b2, n1[k].children@[i], v@[i], Some(k), lo, lo2);
            }
        },
        None => {},
    }
    match d.shadow_roots {
        Some(v) => {
            assert forall|i: int| 0 <= i < v@.len() implies mirrors(n2, b2, n2[k].shadow_roots@[i], #[trigger] v@[i], Some(k), lo2) by {
                lemma_mirrors_frame(n1, b1, n2, b2, n1[k].shadow_roots@[i], v@[i], Some(k), lo, lo2);
            }
        },
        None => {},
    }
    match d.content_document {
        Some(b) => {
            lemma_mirrors_frame(n1, b1, n2, b2, n1[k].children@[n1[k].children@.len() - 1], *b, Some(k), lo, lo2);
        },
        None => {},
    }
}

/// The ids of a concatenation.
pub proof fn lemma_id_set_concat(p: Seq<DomNode>, q: Seq<DomNode>)
    ensures
        id_set(p + q) == id_set(p).union(id_set(q)),
        backend_set(p + q) == backend_set(p).union(backend_set(q)),
{
    let r = p + q;
    assert forall|x: i64| id_set(r).contains(x) implies id_set(p).union(id_set(q)).contains(x) by {
        let i = choose|i: int| 0 <= i < r.len() && #[trigger] r[i].node_id == x;
        if i < p.len() {
            assert(r[i] == p[i]);
            assert(id_set(p).contains(x));
        } else {
            assert(r[i] == q[i - p.len()]);
            assert(id_set(q).contains(x));
        }
    }
    assert forall|x: i64| id_set(p).union(id_set(q)).contains(x) implies id_set(r).contains(x) by {
        if id_set(p).contains(x) {
            let i = choose|i: int| 0 <= i < p.len() && #[trigger] p[i].node_id == x;
            assert(r[i] == p[i]);
        } else {
            let i = choose|i: int| 0 <= i < q.len() && #[trigger] q[i].node_id == x;
            assert(r[i + p.len()] == q[i]);
        }
    }
    assert(id_set(r) =~= id_set(p).union(id_set(q)));
    assert forall|x: i64| backend_set(r).contains(x) implies backend_set(p).union(backend_set(q)).contains(x) by {
        let i = choose|i: int| 0 <= i < r.len() && #[trigger] r[i].backend_node_id == x;
        if i < p.len() {
            assert(r[i] == p[i]);
            assert(backend_set(p).contains(x));
        } else {
            assert(r[i] == q[i - p.len()]);
            assert(backend_set(q).contains(x));
        }
    }
    assert forall|x: i64| backend_set(p).union(backend_set(q)).contains(x) implies backend_set(r).contains(x) by {
        if backend_set(p).contains(x) {
            let i = choose|i: int| 0 <= i < p.len() && #[trigger] p[i].backend_node_id == x;
            assert(r[i] == p[i]);
        } else {
            let i = choose|i: int| 0 <= i < q.len() && #[trigger] q[i].backend_node_id == x;
            assert(r[i + p.len()] == q[i]);
        }
    }
    assert(backend_set(r) =~= backend_set(p).union(backend_set(q)));
}

/// Fresh ids stay fresh for the front and the back of a concatenation.
pub proof fn lemma_fresh_parts(t: LiveDomTree, p: Seq<DomNode>, q: Seq<DomNode>)
    requires
        fresh_for(t, p + q),
    ensures
        fresh_for(t, p),
        fresh_for(t, q),
{
    let r = p + q;
    assert forall|i: int, j: int| #![trigger p[i], p[j]] 0 <= i < j < p.len() implies p[i].node_id != p[j].node_id by {
        assert(r[i] == p[i] && r[j] == p[j]);
    }
    assert forall|i: int| 0 <= i < p.len() implies !t.ids().contains_key(#[trigger] p[i].node_id) by {
        assert(r[i] == p[i]);
    }
    assert forall|i: int, j: int| #![trigger q[i], q[j]] 0 <= i < j < q.len() implies q[i].node_id != q[j].node_id by {
        assert(r[i + p.len()] == q[i] && r[j + p.len()] == q[j]);
    }
    assert forall|i: int| 0 <= i < q.len() implies !t.ids().contains_key(#[trigger] q[i].node_id) by {
        assert(r[i + p.len()] == q[i]);
    }
}

/// After the nodes of `p` were added, the ids of `q` are still fresh when
/// those of `p + q` were.
pub proof fn lemma_fresh_after(a: LiveDomTree, b: LiveDomTree, p: Seq<DomNode>, q: Seq<DomNode>)
    requires
        fresh_for(a, p + q),
        extended(a, b, p),
    ensures
        fresh_for(b, q),
{
    let r = p + q;
    lemma_fresh_parts(a, p, q);
    assert forall|i: int| 0 <= i < q.len() implies !b.ids().contains_key(#[trigger] q[i].node_id) by {
        assert(r[i + p.len()] == q[i]);
        assert(!a.ids().contains_key(q[i].node_id));
        if id_set(p).contains(q[i].node_id) {
            let m = choose|m: int| 0 <= m < p.len() && #[trigger] p[m].node_id == q[i].node_id;
            assert(r[m] == p[m]);
        }
    }
}

/// Adding `p`, then `q`, adds `p + q`.
pub proof fn lemma_extended_trans(a: LiveDomTree, b: LiveDomTree, c: LiveDomTree, p: Seq<DomNode>, q: Seq<DomNode>)
    requires
        extended(a, b, p),
        extended(b, c, q),
        a.nodes().dom().finite(),
    ensures
        extended(a, c, p + q),
{
    lemma_id_set_concat(p, q);
    assert(c.ids().dom() =~= a.ids().dom().union(id_set(p + q)));
    assert(c.backends().dom() =~= a.backends().dom().union(backend_set(p + q)));
    assert forall|j: u64| #[trigger] is_new(a, c, j) implies c.birth()[j] >= a.clock() by {
        if b.nodes().contains_key(j) {
            assert(is_new(a, b, j));
        } else {
            assert(is_new(b, c, j));
        }
    }
    assert forall|x: i64| #[trigger] id_set(p + q).contains(x) implies is_new(a, c, c.ids()[x]) && c.nodes()[c.ids()[x]].node_id == x by {
        if id_set(q).contains(x) {
            assert(is_new(b, c, c.ids()[x]));
        } else {
            assert(id_set(p).contains(x));
            assert(b.ids().contains_key(x));
            assert(is_new(a, b, b.ids()[x]));
        }
    }
    assert forall|x: i64| #[trigger] a.ids().contains_key(x) implies c.ids()[x] == a.ids()[x] by {
        assert(b.ids().contains_key(x));
    }
    assert forall|bk: i64| #[trigger] a.backends().contains_key(bk) && !backend_set(p + q).contains(bk) implies c.backends()[bk] == a.backends()[bk] by {
        assert(b.backends().contains_key(bk));
    }
    assert forall|bk: i64| #[trigger] backend_set(p + q).contains(bk) implies is_new(a, c, c.backends()[bk])
        && c.nodes()[c.backends()[bk]].backend_node_id == bk by {
        if backend_set(q).contains(bk) {
            assert(is_new(b, c, c.backends()[bk]));
        } else {
            assert(backend_set(p).contains(bk));
            assert(b.backends().contains_key(bk));
            assert(is_new(a, b, b.backends()[bk]));
        }
    }
}

} // verus!
