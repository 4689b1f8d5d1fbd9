//! Walks along the links of a node map, and the set of nodes a walk reaches.
//!
//! A subtree of the live DOM tree is what can be reached from its root by
//! following child, shadow-root and pseudo-element links through stored
//! nodes. Because links only lead to younger nodes, every walk is finite
//! and never returns to a node it left.

use vstd::prelude::*;

use crate::dom_tree::{TreeNode, links, stored_ok};

verus! {

/// Step `i` of `p` follows a link of the node at `p[i]`.
pub open spec fn steps(nodes: Map<u64, TreeNode>, p: Seq<u64>, i: int) -> bool {
    links(nodes[p[i]]).contains(p[i + 1])
}

/// `p` is a walk through stored nodes, each linked from the one before.
pub open spec fn is_walk(nodes: Map<u64, TreeNode>, p: Seq<u64>) -> bool {
    &&& p.len() > 0
    &&& forall|i: int| 0 <= i < p.len() ==> nodes.contains_key(#[trigger] p[i])
    &&& forall|i: int| 0 <= i < p.len() - 1 ==> #[trigger] steps(nodes, p, i)
}

/// `p` is a walk from `a` to `b`.
pub open spec fn walk_between(nodes: Map<u64, TreeNode>, p: Seq<u64>, a: u64, b: u64) -> bool {
    is_walk(nodes, p) && p[0] == a && p.last() == b
}

/// The stored nodes reachable from `k`, `k` itself included when stored.
pub open spec fn reach(nodes: Map<u64, TreeNode>, k: u64) -> Set<u64> {
    Set::new(|y: u64| exists|p: Seq<u64>| #[trigger] walk_between(nodes, p, k, y))
}

/// Every stored node is well placed (see `stored_ok`).
pub open spec fn ordered(nodes: Map<u64, TreeNode>, birth: Map<u64, u64>, clock: u64) -> bool {
    forall|k: u64| #[trigger] nodes.contains_key(k) ==> stored_ok(nodes, birth, clock, k)
}

/// The node ids of the stored nodes among `keys`.
pub open spec fn ids_of(nodes: Map<u64, TreeNode>, keys: Set<u64>) -> Set<i64> {
    Set::new(|x: i64| exists|y: u64| #[trigger] keys.contains(y) && nodes.contains_key(y) && nodes[y].node_id == x)
}

/// The backend node ids of the stored nodes among `keys`.
pub open spec fn backend_ids_of(nodes: Map<u64, TreeNode>, keys: Set<u64>) -> Set<i64> {
    Set::new(
        |x: i64| exists|y: u64| #[trigger] keys.contains(y) && nodes.contains_key(y) && nodes[y].backend_node_id == x,
    )
}

/// A link from a stored node to a stored node goes to a younger node.
pub proof fn lemma_link_younger(nodes: Map<u64, TreeNode>, birth: Map<u64, u64>, clock: u64, k: u64, c: u64)
    requires
        ordered(nodes, birth, clock),
        nodes.contains_key(k),
        nodes.contains_key(c),
        links(nodes[k]).contains(c),
    ensures
        birth.contains_key(k),
        birth.contains_key(c),
        birth[c] > birth[k],
{
    assert(stored_ok(nodes, birth, clock, k));
    let j = choose|j: int| 0 <= j < links(nodes[k]).len() && links(nodes[k])[j] == c;
    assert(links(nodes[k])[j] == c);
}

/// Along a walk of two or more nodes, the last is younger than the first.
pub proof fn lemma_walk_order(nodes: Map<u64, TreeNode>, birth: Map<u64, u64>, clock: u64, p: Seq<u64>)
    requires
        ordered(nodes, birth, clock),
        is_walk(nodes, p),
    ensures
        birth.contains_key(p[0]),
        birth.contains_key(p.last()),
        p.len() > 1 ==> birth[p.last()] > birth[p[0]],
    decreases p.len(),
{
    assert(nodes.contains_key(p[0]));
    assert(stored_ok(nodes, birth, clock, p[0]));
    assert(nodes.contains_key(p[p.len() - 1]));
    assert(stored_ok(nodes, birth, clock, p.last()));
    if p.len() > 1 {
        let q = p.drop_last();
        assert forall|i: int| 0 <= i < q.len() implies nodes.contains_key(#[trigger] q[i]) by {
            assert(q[i] == p[i]);
        }
        assert forall|i: int| 0 <= i < q.len() - 1 implies #[trigger] steps(nodes, q, i) by {
            assert(steps(nodes, p, i));
            assert(q[i] == p[i] && q[i + 1] == p[i + 1]);
        }
        lemma_walk_order(nodes, birth, clock, q);
        let n = p.len() - 2;
        assert(steps(nodes, p, n));
        assert(nodes.contains_key(p[n]));
        lemma_link_younger(nodes, birth, clock, p[n], p[n + 1]);
    }
}

/// A walk from `a` to `b` followed by a walk from `b` to `c` is a walk from
/// `a` to `c`.
pub proof fn lemma_walk_join(nodes: Map<u64, TreeNode>, p: Seq<u64>, q: Seq<u64>)
    requires
        is_walk(nodes, p),
        is_walk(nodes, q),
        p.last() == q[0],
    ensures
        walk_between(nodes, p + q.skip(1), p[0], q.last()),
{
    let r = p + q.skip(1);
    assert forall|i: int| 0 <= i < r.len() implies nodes.contains_key(#[trigger] r[i]) by {
        if i < p.len() {
            assert(r[i] == p[i]);
        } else {
            assert(r[i] == q[i - p.len() + 1]);
        }
    }
    assert forall|i: int| 0 <= i < r.len() - 1 implies #[trigger] steps(nodes, r, i) by {
        if i < p.len() - 1 {
            assert(steps(nodes, p, i));
            assert(r[i] == p[i] && r[i + 1] == p[i + 1]);
        } else {
            let j = i - p.len() + 1;
            assert(steps(nodes, q, j));
            if i == p.len() - 1 {
                assert(r[i] == p.last());
            } else {
                assert(r[i] == q[j]);
            }
            assert(r[i + 1] == q[j + 1]);
        }
    }
    if q.len() == 1 {
        assert(r.last() == p.last());
    } else {
        assert(r.last() == q.last());
    }
}

/// The tail of a walk from its `m`-th node on is a walk.
pub proof fn lemma_walk_skip(nodes: Map<u64, TreeNode>, p: Seq<u64>, m: int)
    requires
        is_walk(nodes, p),
        0 <= m < p.len(),
    ensures
        walk_between(nodes, p.skip(m), p[m], p.last()),
{
    let r = p.skip(m);
    assert forall|i: int| 0 <= i < r.len() implies nodes.contains_key(#[trigger] r[i]) by {
        assert(r[i] == p[i + m]);
    }
    assert forall|i: int| 0 <= i < r.len() - 1 implies #[trigger] steps(nodes, r, i) by {
        assert(steps(nodes, p, i + m));
        assert(r[i] == p[i + m] && r[i + 1] == p[i + 1 + m]);
    }
}

/// The head of a walk up to its `m`-th node is a walk.
pub proof fn lemma_walk_take(nodes: Map<u64, TreeNode>, p: Seq<u64>, m: int)
    requires
        is_walk(nodes, p),
        0 <= m < p.len(),
    ensures
        walk_between(nodes, p.take(m + 1), p[0], p[m]),
{
    let r = p.take(m + 1);
    assert forall|i: int| 0 <= i < r.len() implies nodes.contains_key(#[trigger] r[i]) by {
        assert(r[i] == p[i]);
    }
    assert forall|i: int| 0 <= i < r.len() - 1 implies #[trigger] steps(nodes, r, i) by {
        assert(steps(nodes, p, i));
        assert(r[i] == p[i] && r[i + 1] == p[i + 1]);
    }
}

/// What a reachable node reaches is reachable.
pub proof fn lemma_reach_trans(nodes: Map<u64, TreeNode>, a: u64, b: u64)
    requires
        reach(nodes, a).contains(b),
    ensures
        reach(nodes, b).subset_of(reach(nodes, a)),
{
    let p = choose|p: Seq<u64>| walk_between(nodes, p, a, b);
    assert forall|y: u64| reach(nodes, b).contains(y) implies reach(nodes, a).contains(y) by {
        let q = choose|q: Seq<u64>| walk_between(nodes, q, b, y);
        lemma_walk_join(nodes, p, q);
    }
}

/// A stored node reaches itself and what its links reach, and nothing else.
pub proof fn lemma_reach_unfold(nodes: Map<u64, TreeNode>, k: u64)
    requires
        nodes.contains_key(k),
    ensures
        reach(nodes, k) == set![k].union(
            Set::new(|y: u64| exists|j: int| 0 <= j < links(nodes[k]).len() && #[trigger] reach(nodes, links(nodes[k])[j]).contains(y)),
        ),
{
    let ks = links(nodes[k]);
    let rest = Set::new(|y: u64| exists|j: int| 0 <= j < ks.len() && #[trigger] reach(nodes, ks[j]).contains(y));
    assert forall|y: u64| reach(nodes, k).contains(y) implies set![k].union(rest).contains(y) by {
        let p = choose|p: Seq<u64>| walk_between(nodes, p, k, y);
        if p.len() > 1 {
            assert(steps(nodes, p, 0));
            let j = choose|j: int| 0 <= j < ks.len() && ks[j] == p[1];
            lemma_walk_skip(nodes, p, 1);
            assert(walk_between(nodes, p.skip(1), ks[j], y));
            assert(reach(nodes, ks[j]).contains(y));
        }
    }
    assert forall|y: u64| set![k].union(rest).contains(y) implies reach(nodes, k).contains(y) by {
        if y == k {
            let p = seq![k];
            assert(p[0] == k);
            assert(walk_between(nodes, p, k, k));
        } else {
            let j = choose|j: int| 0 <= j < ks.len() && #[trigger] reach(nodes, ks[j]).contains(y);
            let q = choose|q: Seq<u64>| walk_between(nodes, q, ks[j], y);
            let p = seq![k, ks[j]];
            assert(nodes.contains_key(q[0]));
            assert(ks.contains(ks[j]));
            assert(steps(nodes, p, 0));
            assert(is_walk(nodes, p));
            lemma_walk_join(nodes, p, q);
        }
    }
    assert(reach(nodes, k) =~= set![k].union(rest));
}

/// An unstored node reaches nothing.
pub proof fn lemma_reach_unstored(nodes: Map<u64, TreeNode>, k: u64)
    requires
        !nodes.contains_key(k),
    ensures
        reach(nodes, k) == Set::<u64>::empty(),
{
    assert forall|y: u64| !reach(nodes, k).contains(y) by {
        if reach(nodes, k).contains(y) {
            let p = choose|p: Seq<u64>| walk_between(nodes, p, k, y);
            assert(nodes.contains_key(p[0]));
        }
    }
    assert(reach(nodes, k) =~= Set::<u64>::empty());
}

/// Removing a set `d` of nodes from the map: what `c` reaches afterwards is
/// what it reached before, less `d`, when every node of `d` but `k` takes
/// what it reaches along into `d`, and `k` is older than `c`.
pub proof fn lemma_reach_after_removal(
    nodes: Map<u64, TreeNode>,
    birth: Map<u64, u64>,
    clock: u64,
    d: Set<u64>,
    k: u64,
    c: u64,
)
    requires
        ordered(nodes, birth, clock),
        birth.contains_key(k),
        nodes.contains_key(c) ==> birth[c] > birth[k],
        forall|y: u64| #[trigger] d.contains(y) && y != k ==> reach(nodes, y).subset_of(d),
    ensures
        reach(nodes.remove_keys(d), c) == reach(nodes, c).difference(d),
{
    let sub = nodes.remove_keys(d);
    assert forall|y: u64| reach(sub, c).contains(y) implies reach(nodes, c).difference(d).contains(y) by {
        let p = choose|p: Seq<u64>| walk_between(sub, p, c, y);
        assert forall|i: int| 0 <= i < p.len() implies nodes.contains_key(#[trigger] p[i]) by {
            assert(sub.contains_key(p[i]));
        }
        assert forall|i: int| 0 <= i < p.len() - 1 implies #[trigger] steps(nodes, p, i) by {
            assert(steps(sub, p, i));
            assert(sub.contains_key(p[i]));
        }
        assert(walk_between(nodes, p, c, y));
        assert(sub.contains_key(p[p.len() - 1]));
    }
    assert forall|y: u64| reach(nodes, c).difference(d).contains(y) implies reach(sub, c).contains(y) by {
        let p = choose|p: Seq<u64>| walk_between(nodes, p, c, y);
        assert forall|m: int| 0 <= m < p.len() implies !d.contains(#[trigger] p[m]) by {
            if d.contains(p[m]) {
                if p[m] == k {
                    lemma_walk_take(nodes, p, m);
                    lemma_walk_order(nodes, birth, clock, p.take(m + 1));
                    assert(nodes.contains_key(p[0]));
                } else {
                    lemma_walk_skip(nodes, p, m);
                    assert(reach(nodes, p[m]).contains(y));
                }
            }
        }
        assert forall|i: int| 0 <= i < p.len() implies sub.contains_key(#[trigger] p[i]) by {
            assert(!d.contains(p[i]));
            assert(nodes.contains_key(p[i]));
        }
        assert forall|i: int| 0 <= i < p.len() - 1 implies #[trigger] steps(sub, p, i) by {
            assert(steps(nodes, p, i));
            assert(sub.contains_key(p[i]));
            assert(!d.contains(p[i]));
        }
        assert(walk_between(sub, p, c, y));
    }
    assert(reach(sub, c) =~= reach(nodes, c).difference(d));
}

/// The ids of a union of key sets are the union of their ids.
pub proof fn lemma_ids_of_union(nodes: Map<u64, TreeNode>, a: Set<u64>, b: Set<u64>)
    ensures
        ids_of(nodes, a.union(b)) == ids_of(nodes, a).union(ids_of(nodes, b)),
        backend_ids_of(nodes, a.union(b)) == backend_ids_of(nodes, a).union(backend_ids_of(nodes, b)),
{
    assert forall|x: i64| ids_of(nodes, a.union(b)).contains(x) implies ids_of(nodes, a).union(ids_of(nodes, b)).contains(x) by {
        let y = choose|y: u64| #[trigger] a.union(b).contains(y) && nodes.contains_key(y) && nodes[y].node_id == x;
        if a.contains(y) {
            assert(ids_of(nodes, a).contains(x));
        } else {
            assert(b.contains(y));
            assert(ids_of(nodes, b).contains(x));
        }
    }
    assert forall|x: i64| ids_of(nodes, a).union(ids_of(nodes, b)).contains(x) implies ids_of(nodes, a.union(b)).contains(x) by {
        if ids_of(nodes, a).contains(x) {
            let y = choose|y: u64| #[trigger] a.contains(y) && nodes.contains_key(y) && nodes[y].node_id == x;
            assert(a.union(b).contains(y));
        } else {
            let y = choose|y: u64| #[trigger] b.contains(y) && nodes.contains_key(y) && nodes[y].node_id == x;
            assert(a.union(b).contains(y));
        }
    }
    assert(ids_of(nodes, a.union(b)) =~= ids_of(nodes, a).union(ids_of(nodes, b)));
    assert forall|x: i64| backend_ids_of(nodes, a.union(b)).contains(x) implies backend_ids_of(nodes, a).union(backend_ids_of(nodes, b)).contains(x) by {
        let y = choose|y: u64| #[trigger] a.union(b).contains(y) && nodes.contains_key(y) && nodes[y].backend_node_id == x;
        if a.contains(y) {
            assert(backend_ids_of(nodes, a).contains(x));
        } else {
            assert(b.contains(y));
            assert(backend_ids_of(nodes, b).contains(x));
        }
    }
    assert forall|x: i64| backend_ids_of(nodes, a).union(backend_ids_of(nodes, b)).contains(x) implies backend_ids_of(nodes, a.union(b)).contains(x) by {
        if backend_ids_of(nodes, a).contains(x) {
            let y = choose|y: u64| #[trigger] a.contains(y) && nodes.contains_key(y) && nodes[y].backend_node_id == x;
            assert(a.union(b).contains(y));
        } else {
            let y = choose|y: u64| #[trigger] b.contains(y) && nodes.contains_key(y) && nodes[y].backend_node_id == x;
            assert(a.union(b).contains(y));
        }
    }
    assert(backend_ids_of(nodes, a.union(b)) =~= backend_ids_of(nodes, a).union(backend_ids_of(nodes, b)));
}

/// The ids of one stored node.
pub proof fn lemma_ids_of_single(nodes: Map<u64, TreeNode>, k: u64)
    requires
        nodes.contains_key(k),
    ensures
        ids_of(nodes, set![k]) == set![nodes[k].node_id],
        backend_ids_of(nodes, set![k]) == set![nodes[k].backend_node_id],
{
    assert(set![k].contains(k));
    assert(ids_of(nodes, set![k]) =~= set![nodes[k].node_id]);
    assert(backend_ids_of(nodes, set![k]) =~= set![nodes[k].backend_node_id]);
}

/// Ids of keys on which two node maps agree are the same in both.
pub proof fn lemma_ids_of_agree(a: Map<u64, TreeNode>, b: Map<u64, TreeNode>, keys: Set<u64>)
    requires
        forall|y: u64|
            #[trigger] keys.contains(y) ==> (a.contains_key(y) <==> b.contains_key(y)) && (a.contains_key(y) ==> a[y].node_id
                == b[y].node_id && a[y].backend_node_id == b[y].backend_node_id),
    ensures
        ids_of(a, keys) == ids_of(b, keys),
        backend_ids_of(a, keys) == backend_ids_of(b, keys),
{
    assert(ids_of(a, keys) =~= ids_of(b, keys));
    assert(backend_ids_of(a, keys) =~= backend_ids_of(b, keys));
}

/// Dropping links to `x` from the node `pk` changes nothing of what `x`
/// reaches: no walk from `x` comes back to `x`.
pub proof fn lemma_reach_drop_link(
    before: Map<u64, TreeNode>,
    after: Map<u64, TreeNode>,
    birth: Map<u64, u64>,
    clock: u64,
    pk: u64,
    x: u64,
)
    requires
        ordered(before, birth, clock),
        before.contains_key(pk),
        after.dom() == before.dom(),
        forall|j: u64| #[trigger] after.contains_key(j) && j != pk ==> links(after[j]) == links(before[j]),
        forall|c: u64| #[trigger] links(after[pk]).contains(c) ==> links(before[pk]).contains(c),
        forall|c: u64| #[trigger] links(before[pk]).contains(c) && c != x ==> links(after[pk]).contains(c),
    ensures
        reach(after, x) == reach(before, x),
{
    assert forall|y: u64| reach(after, x).contains(y) implies reach(before, x).contains(y) by {
        let p = choose|p: Seq<u64>| walk_between(after, p, x, y);
        assert forall|i: int| 0 <= i < p.len() implies before.contains_key(#[trigger] p[i]) by {
            assert(after.contains_key(p[i]));
        }
        assert forall|i: int| 0 <= i < p.len() - 1 implies #[trigger] steps(before, p, i) by {
            assert(steps(after, p, i));
            assert(after.contains_key(p[i]));
        }
        assert(walk_between(before, p, x, y));
    }
    assert forall|y: u64| reach(before, x).contains(y) implies reach(after, x).contains(y) by {
        let p = choose|p: Seq<u64>| walk_between(before, p, x, y);
        assert forall|i: int| 0 <= i < p.len() implies after.contains_key(#[trigger] p[i]) by {
            assert(before.contains_key(p[i]));
        }
        assert forall|i: int| 0 <= i < p.len() - 1 implies #[trigger] steps(after, p, i) by {
            assert(steps(before, p, i));
            assert(before.contains_key(p[i]));
            if p[i] == pk {
                if p[i + 1] == x {
                    lemma_walk_take(before, p, i + 1);
                    lemma_walk_order(before, birth, clock, p.take(i + 2));
                }
                assert(links(after[pk]).contains(p[i + 1]));
            }
        }
        assert(walk_between(after, p, x, y));
    }
    assert(reach(after, x) =~= reach(before, x));
}

/// All stored nodes reachable from one of the keys `ks`.
pub open spec fn reach_all(nodes: Map<u64, TreeNode>, ks: Seq<u64>) -> Set<u64> {
    Set::new(|y: u64| exists|j: int| 0 <= j < ks.len() && #[trigger] reach(nodes, ks[j]).contains(y))
}

/// Removing a set `d` that takes along all it reaches: what `c` reaches
/// afterwards is what it reached before, less `d`.
pub proof fn lemma_reach_after_closed_removal(nodes: Map<u64, TreeNode>, d: Set<u64>, c: u64)
    requires
        forall|y: u64| #[trigger] d.contains(y) ==> reach(nodes, y).subset_of(d),
    ensures
        reach(nodes.remove_keys(d), c) == reach(nodes, c).difference(d),
{
    let sub = nodes.remove_keys(d);
    assert forall|y: u64| reach(sub, c).contains(y) implies reach(nodes, c).difference(d).contains(y) by {
        let p = choose|p: Seq<u64>| walk_between(sub, p, c, y);
        assert forall|i: int| 0 <= i < p.len() implies nodes.contains_key(#[trigger] p[i]) by {
            assert(sub.contains_key(p[i]));
        }
        assert forall|i: int| 0 <= i < p.len() - 1 implies #[trigger] steps(nodes, p, i) by {
            assert(steps(sub, p, i));
            assert(sub.contains_key(p[i]));
        }
        assert(walk_between(nodes, p, c, y));
        assert(sub.contains_key(p[p.len() - 1]));
    }
    assert forall|y: u64| reach(nodes, c).difference(d).contains(y) implies reach(sub, c).contains(y) by {
        let p = choose|p: Seq<u64>| walk_between(nodes, p, c, y);
        assert forall|m: int| 0 <= m < p.len() implies !d.contains(#[trigger] p[m]) by {
            if d.contains(p[m]) {
                lemma_walk_skip(nodes, p, m);
                assert(reach(nodes, p[m]).contains(y));
            }
        }
        assert forall|i: int| 0 <= i < p.len() implies sub.contains_key(#[trigger] p[i]) by {
            assert(!d.contains(p[i]));
            assert(nodes.contains_key(p[i]));
        }
        assert forall|i: int| 0 <= i < p.len() - 1 implies #[trigger] steps(sub, p, i) by {
            assert(steps(nodes, p, i));
            assert(sub.contains_key(p[i]));
            assert(!d.contains(p[i]));
        }
        assert(walk_between(sub, p, c, y));
    }
    assert(reach(sub, c) =~= reach(nodes, c).difference(d));
}

/// The ids of keys after removing `a` are the ids of those keys not in `a`.
pub proof fn lemma_ids_of_removed(nodes: Map<u64, TreeNode>, a: Set<u64>, b: Set<u64>)
    ensures
        ids_of(nodes.remove_keys(a), b) == ids_of(nodes, b.difference(a)),
        backend_ids_of(nodes.remove_keys(a), b) == backend_ids_of(nodes, b.difference(a)),
{
    let sub = nodes.remove_keys(a);
    assert forall|x: i64| ids_of(sub, b).contains(x) implies ids_of(nodes, b.difference(a)).contains(x) by {
        let y = choose|y: u64| #[trigger] b.contains(y) && sub.contains_key(y) && sub[y].node_id == x;
        assert(b.difference(a).contains(y));
    }
    assert forall|x: i64| ids_of(nodes, b.difference(a)).contains(x) implies ids_of(sub, b).contains(x) by {
        let y = choose|y: u64| #[trigger] b.difference(a).contains(y) && nodes.contains_key(y) && nodes[y].node_id == x;
        assert(b.contains(y) && sub.contains_key(y));
    }
    assert(ids_of(sub, b) =~= ids_of(nodes, b.difference(a)));
    assert forall|x: i64| backend_ids_of(sub, b).contains(x) implies backend_ids_of(nodes, b.difference(a)).contains(x) by {
        let y = choose|y: u64| #[trigger] b.contains(y) && sub.contains_key(y) && sub[y].backend_node_id == x;
        assert(b.difference(a).contains(y));
    }
    assert forall|x: i64| backend_ids_of(nodes, b.difference(a)).contains(x) implies backend_ids_of(sub, b).contains(x) by {
        let y = choose|y: u64| #[trigger] b.difference(a).contains(y) && nodes.contains_key(y) && nodes[y].backend_node_id == x;
        assert(b.contains(y) && sub.contains_key(y));
    }
    assert(backend_ids_of(sub, b) =~= backend_ids_of(nodes, b.difference(a)));
}

} // verus!
