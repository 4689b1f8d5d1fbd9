//! Rebuilding a DOM tree from a DOMSnapshot capture.
//!
//! A capture lists the nodes of a document as parallel arrays (parent
//! index, node type, indices into a shared string table, backend id). The
//! tree is rebuilt from them with synthetic sequential node ids (1-based).

use vstd::prelude::*;

use crate::dom_node::DomNode;

verus! {

/// The string at `idx`, or the empty string when out of range.
pub open spec fn string_at(strings: Seq<String>, idx: int) -> Seq<char> {
    if 0 <= idx < strings.len() {
        strings[idx]@
    } else {
        Seq::empty()
    }
}

/// Safe string lookup: returns an empty string for an out-of-range index.
pub fn lookup_string(strings: &[String], idx: usize) -> (r: String)
    ensures
        r@ == string_at(strings@, idx as int),
{
    if idx < strings.len() {
        strings[idx].clone()
    } else {
        String::new()
    }
}

/// A node that carries only what a snapshot gives: no children, attributes
/// or frame data.
pub open spec fn bare(n: DomNode) -> bool {
    &&& n.local_name is None
    &&& n.attributes is None
    &&& n.document_url is None
    &&& n.base_url is None
    &&& n.frame_id is None
    &&& n.content_document is None
    &&& n.shadow_roots is None
    &&& n.pseudo_type is None
    &&& n.pseudo_identifier is None
    &&& n.distributed_nodes is None
}

/// `t` is the tree rooted at `flat[index]` whose children are, in order, the
/// trees rooted at `children_map[index]`.
pub open spec fn built_from(flat: Seq<DomNode>, children_map: Seq<Vec<usize>>, index: int, t: DomNode) -> bool
    decreases t,
{
    &&& 0 <= index < flat.len()
    &&& index < children_map.len()
    &&& bare(t)
    &&& t.node_id == flat[index].node_id
    &&& t.parent_id == flat[index].parent_id
    &&& t.backend_node_id == flat[index].backend_node_id
    &&& t.node_type == flat[index].node_type
    &&& t.node_name == flat[index].node_name
    &&& t.node_value == flat[index].node_value
    &&& if children_map[index]@.len() == 0 {
        t.children is None && t.child_node_count is None
    } else {
        &&& t.children is Some
        &&& t.children->0@.len() == children_map[index]@.len()
        &&& t.child_node_count == Some(children_map[index]@.len() as i32)
        &&& forall|k: int|
            0 <= k < t.children->0@.len() ==> built_from(
                flat,
                children_map,
                children_map[index]@[k] as int,
                #[trigger] t.children->0@[k],
            )
    }
}

/// A ranking of the nodes in `s` under which every child of a node of `s`
/// is in `s` and ranks below its parent.
pub open spec fn ranked(children_map: Seq<Vec<usize>>, rank: Seq<nat>, s: Set<int>) -> bool {
    &&& rank.len() == children_map.len()
    &&& forall|i: int, k: int|
        s.contains(i) && 0 <= i < children_map.len() && 0 <= k < children_map[i]@.len() ==> {
            let c = #[trigger] children_map[i]@[k];
            &&& c < children_map.len()
            &&& s.contains(c as int)
            &&& rank[c as int] < rank[i]
        }
}

/// Recursively build a DomNode tree from flat snapshot data. The child
/// lists below `index` hold no cycle: `rank` orders them, with `s` the
/// nodes it covers.
fn build_tree_node(
    flat_nodes: &[DomNode],
    children_map: &[Vec<usize>],
    index: usize,
    Ghost(rank): Ghost<Seq<nat>>,
    Ghost(s): Ghost<Set<int>>,
) -> (t: DomNode)
    requires
        index < children_map@.len(),
        children_map@.len() <= flat_nodes@.len(),
        ranked(children_map@, rank, s),
        s.contains(index as int),
    ensures
        built_from(flat_nodes@, children_map@, index as int, t),
    decreases rank[index as int],
{
    let base = &flat_nodes[index];
    let child_indices = &children_map[index];
    let children = if child_indices.len() == 0 {
        None
    } else {
        let mut v: Vec<DomNode> = Vec::new();
        let mut k: usize = 0;
        while k < child_indices.len()
            invariant
                k <= child_indices@.len(),
                child_indices == children_map@[index as int],
                index < children_map@.len(),
                children_map@.len() <= flat_nodes@.len(),
                s.contains(index as int),
                ranked(children_map@, rank, s),
                v@.len() == k,
                forall|j: int|
                    0 <= j < k ==> built_from(
                        flat_nodes@,
                        children_map@,
                        children_map@[index as int]@[j] as int,
                        #[trigger] v@[j],
                    ),
            decreases child_indices@.len() - k,
        {
            let ci = child_indices[k];
            assert(ci == children_map@[index as int]@[k as int]);
            assert(ci < children_map@.len() && s.contains(ci as int) && rank[ci as int] < rank[index as int]);
            let child = build_tree_node(flat_nodes, children_map, ci, Ghost(rank), Ghost(s));
            v.push(child);
            k = k + 1;
        }
        Some(v)
    };
    let child_node_count = match &children {
        Some(c) => Some(c.len() as i32),
        None => None,
    };
    DomNode {
        node_id: base.node_id,
        parent_id: base.parent_id,
        backend_node_id: base.backend_node_id,
        node_type: base.node_type,
        node_name: base.node_name.clone(),
        local_name: None,
        node_value: base.node_value.clone(),
        child_node_count,
        children,
        attributes: None,
        document_url: None,
        base_url: None,
        frame_id: None,
        content_document: None,
        shadow_roots: None,
        pseudo_type: None,
        pseudo_identifier: None,
        distributed_nodes: None,
    }
}

// ── Captured snapshots ──

/// The node arrays of one captured document. `node_name` and `node_value`
/// index into the capture's string table (-1 for none).
pub struct SnapshotNodes {
    pub parent_index: Vec<i64>,
    pub node_type: Vec<i32>,
    pub node_name: Vec<i64>,
    pub node_value: Vec<i64>,
    pub backend_node_id: Vec<i64>,
}

/// A string-table index as the capture gives it; a negative one never matches.
pub open spec fn table_index(i: i64) -> int {
    if i >= 0 {
        i as usize as int
    } else {
        usize::MAX as int
    }
}

/// The position of the parent that a parent index designates among `count`
/// nodes, or -1 for none (negative or out of range).
pub open spec fn parent_slot(pi: i64, count: nat) -> int {
    if pi >= 0 && (pi as usize) < count {
        pi as usize as int
    } else {
        -1
    }
}

/// The nodes whose parent is `p`, among the first `n` of `count`, in order.
pub open spec fn children_upto(parent_index: Seq<i64>, count: nat, p: int, n: nat) -> Seq<usize>
    decreases n,
{
    if n == 0 {
        seq![]
    } else {
        let prev = children_upto(parent_index, count, p, (n - 1) as nat);
        if parent_slot(parent_index[n - 1], count) == p {
            prev.push((n - 1) as usize)
        } else {
            prev
        }
    }
}

/// A ranking of the nodes in `s`, which holds the first node, under which
/// every node whose parent is in `s` is in `s` too and ranks below its
/// parent. It exists exactly when the first node is on no parent cycle.
pub open spec fn root_ranked(parent_index: Seq<i64>, count: nat, rank: Seq<nat>, s: Set<int>) -> bool {
    &&& rank.len() == count
    &&& s.contains(0)
    &&& forall|c: int|
        0 <= c < count && #[trigger] parent_slot(parent_index[c], count) >= 0 && s.contains(
            parent_slot(parent_index[c], count),
        ) ==> s.contains(c) && rank[c] < rank[parent_slot(parent_index[c], count)]
}

/// The arrays are long enough for every node, parent indices leave room
/// for the 1-based shift, and the first node is not its own ancestor (the
/// tree is built from it by following child links).
pub open spec fn snapshot_wf(nodes: SnapshotNodes) -> bool {
    let count = nodes.node_type@.len();
    &&& count < i64::MAX
    &&& nodes.parent_index@.len() >= count
    &&& nodes.node_name@.len() >= count
    &&& nodes.node_value@.len() >= count
    &&& nodes.backend_node_id@.len() >= count
    &&& forall|i: int| 0 <= i < count ==> #[trigger] nodes.parent_index@[i] < i64::MAX
    &&& exists|rank: Seq<nat>, s: Set<int>| root_ranked(nodes.parent_index@, count, rank, s)
}

/// `n` is the bare node that the capture describes at position `i`.
pub open spec fn snapshot_node(nodes: SnapshotNodes, strings: Seq<String>, i: int, n: DomNode) -> bool {
    let pi = nodes.parent_index@[i];
    &&& bare(n)
    &&& n.node_id == i + 1
    &&& n.parent_id == if pi >= 0 {
        Some((pi + 1) as i64)
    } else {
        None
    }
    &&& n.backend_node_id == nodes.backend_node_id@[i]
    &&& n.node_type == nodes.node_type@[i]
    &&& n.node_name@ == string_at(strings, table_index(nodes.node_name@[i]))
    &&& n.node_value@ == string_at(strings, table_index(nodes.node_value@[i]))
    &&& n.child_node_count is None
    &&& n.children is None
}

/// `t` is the tree that the capture describes, rooted at its first node.
pub open spec fn snapshot_tree(nodes: SnapshotNodes, strings: Seq<String>, t: DomNode) -> bool {
    let count = nodes.node_type@.len();
    exists|flat: Seq<DomNode>, children_map: Seq<Vec<usize>>|
        {
            &&& flat.len() == count
            &&& forall|i: int| 0 <= i < count ==> snapshot_node(nodes, strings, i, #[trigger] flat[i])
            &&& children_map.len() == count
            &&& forall|p: int|
                0 <= p < count ==> (#[trigger] children_map[p])@ == children_upto(
                    nodes.parent_index@,
                    count,
                    p,
                    count,
                )
            &&& built_from(flat, children_map, 0, t)
        }
}

proof fn lemma_children_upto(parent_index: Seq<i64>, count: nat, p: int, n: nat)
    requires
        n <= parent_index.len(),
        n <= usize::MAX,
    ensures
        forall|k: int|
            0 <= k < children_upto(parent_index, count, p, n).len() ==> {
                let c = #[trigger] children_upto(parent_index, count, p, n)[k];
                c < n && parent_slot(parent_index[c as int], count) == p
            },
    decreases n,
{
    if n > 0 {
        lemma_children_upto(parent_index, count, p, (n - 1) as nat);
        let prev = children_upto(parent_index, count, p, (n - 1) as nat);
        assert forall|k: int| 0 <= k < children_upto(parent_index, count, p, n).len() implies {
            let c = #[trigger] children_upto(parent_index, count, p, n)[k];
            c < n && parent_slot(parent_index[c as int], count) == p
        } by {
            if k < prev.len() {
                assert(children_upto(parent_index, count, p, n)[k] == prev[k]);
            }
        }
    }
}

/// The child lists of a capture: for each of its `count` nodes, the nodes
/// whose parent it is, in capture order.
fn child_lists(nodes: &SnapshotNodes, count: usize) -> (children_map: Vec<Vec<usize>>)
    requires
        count == nodes.node_type@.len(),
        nodes.parent_index@.len() >= count,
    ensures
        children_map@.len() == count,
        forall|q: int|
            0 <= q < count ==> (#[trigger] children_map@[q])@ == children_upto(
                nodes.parent_index@,
                count as nat,
                q,
                count as nat,
            ),
{
    let mut children_map: Vec<Vec<usize>> = Vec::new();
    let mut p: usize = 0;
    while p < count
        invariant
            p <= count,
            children_map@.len() == p,
            forall|q: int| 0 <= q < p ==> (#[trigger] children_map@[q])@ == Seq::<usize>::empty(),
        decreases count - p,
    {
        children_map.push(Vec::new());
        p = p + 1;
    }
    let mut i: usize = 0;
    while i < count
        invariant
            count == nodes.node_type@.len(),
            nodes.parent_index@.len() >= count,
            i <= count,
            children_map@.len() == count,
            forall|q: int|
                0 <= q < count ==> (#[trigger] children_map@[q])@ == children_upto(
                    nodes.parent_index@,
                    count as nat,
                    q,
                    i as nat,
                ),
        decreases count - i,
    {
        let parent_idx = nodes.parent_index[i];
        let ghost old_cm = children_map@;
        if parent_idx >= 0 && (parent_idx as usize) < count {
            let pu = parent_idx as usize;
            children_map[pu].push(i);
            assert(children_map@ == old_cm.update(pu as int, children_map@[pu as int]));
            assert(children_map@[pu as int]@ == old_cm[pu as int]@.push(i));
        }
        proof {
            assert forall|q: int| 0 <= q < count implies (#[trigger] children_map@[q])@ == children_upto(
                nodes.parent_index@,
                count as nat,
                q,
                (i + 1) as nat,
            ) by {
                assert(old_cm[q]@ == children_upto(nodes.parent_index@, count as nat, q, i as nat));
                assert(children_upto(nodes.parent_index@, count as nat, q, (i + 1) as nat) == if parent_slot(nodes.parent_index@[i as int], count as nat) == q {
                    children_upto(nodes.parent_index@, count as nat, q, i as nat).push(i)
                } else {
                    children_upto(nodes.parent_index@, count as nat, q, i as nat)
                });
            }
        }
        i = i + 1;
    }
    children_map
}

/// Rebuild the document tree from a capture: `None` when the capture holds
/// no node; otherwise the tree rooted at the first node, with node ids
/// `1..=count` in capture order.
pub fn tree_from_snapshot(nodes: &SnapshotNodes, strings: &[String]) -> (r: Option<DomNode>)
    requires
        snapshot_wf(*nodes),
    ensures
        nodes.node_type@.len() == 0 <==> r is None,
        r matches Some(t) ==> snapshot_tree(*nodes, strings@, t),
{
    let count = nodes.node_type.len();
    if count == 0 {
        return None;
    }
    // Build the flat node list first, then assemble the tree
    let mut flat_nodes: Vec<DomNode> = Vec::new();
    let mut i: usize = 0;
    while i < count
        invariant
            count == nodes.node_type@.len(),
            snapshot_wf(*nodes),
            i <= count,
            flat_nodes@.len() == i,
            forall|j: int| 0 <= j < i ==> snapshot_node(*nodes, strings@, j, #[trigger] flat_nodes@[j]),
        decreases count - i,
    {
        let name_idx = nodes.node_name[i];
        let value_idx = nodes.node_value[i];
        let name_idx = if name_idx >= 0 {
            name_idx as usize
        } else {
            usize::MAX
        };
        let value_idx = if value_idx >= 0 {
            value_idx as usize
        } else {
            usize::MAX
        };
        let pi = nodes.parent_index[i];
        assert(pi < i64::MAX);
        let node = DomNode {
            node_id: i as i64 + 1,
            parent_id: if pi >= 0 {
                Some(pi + 1)
            } else {
                None
            },
            backend_node_id: nodes.backend_node_id[i],
            node_type: nodes.node_type[i],
            node_name: lookup_string(strings, name_idx),
            local_name: None,
            node_value: lookup_string(strings, value_idx),
            child_node_count: None,
            children: None,
            attributes: None,
            document_url: None,
            base_url: None,
            frame_id: None,
            content_document: None,
            shadow_roots: None,
            pseudo_type: None,
            pseudo_identifier: None,
            distributed_nodes: None,
        };
        flat_nodes.push(node);
        i = i + 1;
    }
    // Child lists: for each node, the nodes whose parent it is
    let children_map = child_lists(nodes, count);
    let ghost (rank, rs) = choose|rank: Seq<nat>, s: Set<int>| root_ranked(nodes.parent_index@, count as nat, rank, s);
    proof {
        assert forall|q: int, k: int|
            rs.contains(q) && 0 <= q < children_map@.len() && 0 <= k < children_map@[q]@.len() implies {
                let c = #[trigger] children_map@[q]@[k];
                &&& c < children_map@.len()
                &&& rs.contains(c as int)
                &&& rank[c as int] < rank[q]
            } by {
            lemma_children_upto(nodes.parent_index@, count as nat, q, count as nat);
            let c = children_map@[q]@[k];
            assert(parent_slot(nodes.parent_index@[c as int], count as nat) == q);
        }
        assert(ranked(children_map@, rank, rs));
    }
    // Recursively build the tree from the root (index 0)
    let root = build_tree_node(
        flat_nodes.as_slice(),
        children_map.as_slice(),
        0,
        Ghost(rank),
        Ghost(rs),
    );
    assert(snapshot_tree(*nodes, strings@, root)) by {
        assert(flat_nodes@.len() == count);
    }
    Some(root)
}

proof fn lemma_children_upto_complete(parent_index: Seq<i64>, count: nat, p: int, n: nat, c: int)
    requires
        n <= parent_index.len(),
        n <= usize::MAX,
        0 <= c < n,
        parent_slot(parent_index[c], count) == p,
    ensures
        children_upto(parent_index, count, p, n).contains(c as usize),
    decreases n,
{
    let prev = children_upto(parent_index, count, p, (n - 1) as nat);
    if c == n - 1 {
        assert(children_upto(parent_index, count, p, n) == prev.push(c as usize));
        assert(children_upto(parent_index, count, p, n)[prev.len() as int] == c as usize);
    } else {
        lemma_children_upto_complete(parent_index, count, p, (n - 1) as nat, c);
        let j = choose|j: int| 0 <= j < prev.len() && prev[j] == c as usize;
        if parent_slot(parent_index[n - 1], count) == p {
            assert(children_upto(parent_index, count, p, n)[j] == c as usize);
        }
    }
}

proof fn lemma_children_upto_sorted(parent_index: Seq<i64>, count: nat, p: int, n: nat)
    requires
        n <= parent_index.len(),
        n <= usize::MAX,
    ensures
        forall|a: int, b: int|
            0 <= a < b < children_upto(parent_index, count, p, n).len() ==> #[trigger] children_upto(
                parent_index,
                count,
                p,
                n,
            )[a] < #[trigger] children_upto(parent_index, count, p, n)[b],
    decreases n,
{
    if n > 0 {
        lemma_children_upto_sorted(parent_index, count, p, (n - 1) as nat);
        lemma_children_upto(parent_index, count, p, (n - 1) as nat);
        let prev = children_upto(parent_index, count, p, (n - 1) as nat);
        let cur = children_upto(parent_index, count, p, n);
        assert forall|a: int, b: int| 0 <= a < b < cur.len() implies #[trigger] cur[a] < #[trigger] cur[b] by {
            if b < prev.len() {
                assert(cur[a] == prev[a] && cur[b] == prev[b]);
            } else {
                assert(cur[a] == prev[a]);
                assert(prev[a] < n - 1);
            }
        }
    }
}

/// A sequence of distinct numbers below `n` has at most `n` elements.
proof fn lemma_distinct_bound(s: Seq<usize>, n: nat)
    requires
        s.no_duplicates(),
        forall|i: int| 0 <= i < s.len() ==> (#[trigger] s[i]) < n,
    ensures
        s.len() <= n,
    decreases n,
{
    if n == 0 {
        if s.len() > 0 {
            assert(s[0] < 0);
        }
    } else if exists|j: int| 0 <= j < s.len() && s[j] == n - 1 {
        let j = choose|j: int| 0 <= j < s.len() && s[j] == n - 1;
        let t = s.remove(j);
        assert forall|a: int, b: int| 0 <= a < t.len() && 0 <= b < t.len() && a != b implies t[a] != t[b] by {
            let a2 = if a < j { a } else { a + 1 };
            let b2 = if b < j { b } else { b + 1 };
            assert(t[a] == s[a2] && t[b] == s[b2]);
        }
        assert forall|i: int| 0 <= i < t.len() implies (#[trigger] t[i]) < n - 1 by {
            let i2 = if i < j { i } else { i + 1 };
            assert(t[i] == s[i2]);
            assert(s[i2] != s[j]);
        }
        lemma_distinct_bound(t, (n - 1) as nat);
    } else {
        assert forall|i: int| 0 <= i < s.len() implies (#[trigger] s[i]) < n - 1 by {
            assert(s[i] != n - 1);
        }
        lemma_distinct_bound(s, (n - 1) as nat);
    }
}

/// The parent of the node at position `m` of `order` sits at a position
/// below `upto`.
pub open spec fn parent_listed(order: Seq<usize>, pi: Seq<i64>, n: nat, m: int, upto: int) -> bool {
    exists|pj: int| 0 <= pj < upto && #[trigger] order[pj] as int == parent_slot(pi[order[m] as int], n)
}

/// Walks child links breadth-first from the first node: whether the walk
/// never comes back to it.
fn root_cycle_free(nodes: &SnapshotNodes, cm: &Vec<Vec<usize>>, count: usize) -> (r: bool)
    requires
        count == nodes.node_type@.len(),
        count > 0,
        nodes.parent_index@.len() >= count,
        cm@.len() == count,
        forall|q: int|
            0 <= q < count ==> (#[trigger] cm@[q])@ == children_upto(nodes.parent_index@, count as nat, q, count as nat),
    ensures
        r == exists|rank: Seq<nat>, s: Set<int>| root_ranked(nodes.parent_index@, count as nat, rank, s),
{
    let ghost pi = nodes.parent_index@;
    let ghost n = count as nat;
    let ghost has_w = exists|rank: Seq<nat>, s: Set<int>| root_ranked(pi, n, rank, s);
    let ghost w = choose|rank: Seq<nat>, s: Set<int>| root_ranked(pi, n, rank, s);
    let mut seen: Vec<bool> = Vec::new();
    let mut z: usize = 0;
    while z < count
        invariant
            z <= count,
            seen@.len() == z,
            forall|v: int| 0 <= v < z ==> !(#[trigger] seen@[v]),
        decreases count - z,
    {
        seen.push(false);
        z = z + 1;
    }
    seen.set(0, true);
    let mut order: Vec<usize> = Vec::new();
    order.push(0);
    let ghost mut rk: Seq<nat> = Seq::new(n, |v: int| if v == 0 { n } else { 0 });
    let mut head: usize = 0;
    proof {
        assert forall|v: int| 0 <= v < count implies (#[trigger] seen@[v] <==> order@.contains(v as usize)) by {
            if v == 0 {
                assert(order@[0] == 0);
            } else {
                if order@.contains(v as usize) {
                    let m = choose|m: int| 0 <= m < order@.len() && order@[m] == v as usize;
                    assert(m == 0);
                }
            }
        }
    }
    while head < order.len()
        invariant
            count == nodes.node_type@.len(),
            count > 0,
            n == count,
            pi == nodes.parent_index@,
            pi.len() >= count,
            cm@.len() == count,
            forall|q: int| 0 <= q < count ==> (#[trigger] cm@[q])@ == children_upto(pi, n, q, n),
            has_w == exists|rank: Seq<nat>, s: Set<int>| root_ranked(pi, n, rank, s),
            has_w ==> root_ranked(pi, n, w.0, w.1),
            1 <= order@.len() <= count,
            order@[0] == 0,
            head <= order@.len(),
            order@.no_duplicates(),
            forall|m: int| 0 <= m < order@.len() ==> (#[trigger] order@[m]) < count,
            seen@.len() == count,
            forall|v: int| 0 <= v < count ==> (#[trigger] seen@[v] <==> order@.contains(v as usize)),
            rk.len() == count,
            forall|m: int| 0 <= m < order@.len() ==> rk[#[trigger] order@[m] as int] == count - m,
            forall|j: int, k: int|
                0 <= j < head && 0 <= k < cm@[order@[j] as int]@.len() ==> {
                    let c = #[trigger] cm@[order@[j] as int]@[k];
                    seen@[c as int] && rk[c as int] < rk[order@[j] as int]
                },
            forall|m: int| 1 <= m < order@.len() ==> #[trigger] parent_listed(order@, pi, n, m, head as int),
            has_w ==> forall|m: int|
                0 <= m < order@.len() ==> w.1.contains(#[trigger] order@[m] as int) && w.0[order@[m] as int]
                    <= w.0[0],
        decreases count - head,
    {
        let x = order[head];
        let base = order.len();
        let kids = &cm[x];
        proof {
            lemma_children_upto(pi, n, x as int, n);
            lemma_children_upto_sorted(pi, n, x as int, n);
        }
        let mut k: usize = 0;
        while k < kids.len()
            invariant
                count == nodes.node_type@.len(),
                count > 0,
                n == count,
                pi == nodes.parent_index@,
                pi.len() >= count,
                cm@.len() == count,
                forall|q: int| 0 <= q < count ==> (#[trigger] cm@[q])@ == children_upto(pi, n, q, n),
                has_w == exists|rank: Seq<nat>, s: Set<int>| root_ranked(pi, n, rank, s),
                has_w ==> root_ranked(pi, n, w.0, w.1),
                x < count,
                kids == cm@[x as int],
                forall|t: int| 0 <= t < kids@.len() ==> (#[trigger] kids@[t]) < n && parent_slot(pi[kids@[t] as int], n) == x,
                forall|a: int, b: int| 0 <= a < b < kids@.len() ==> #[trigger] kids@[a] < #[trigger] kids@[b],
                head < base,
                order@[head as int] == x,
                order@.len() == base + k,
                k <= kids@.len(),
                1 <= order@.len() <= count,
                order@[0] == 0,
                order@.no_duplicates(),
                forall|m: int| 0 <= m < order@.len() ==> (#[trigger] order@[m]) < count,
                seen@.len() == count,
                forall|v: int| 0 <= v < count ==> (#[trigger] seen@[v] <==> order@.contains(v as usize)),
                rk.len() == count,
                forall|m: int| 0 <= m < order@.len() ==> rk[#[trigger] order@[m] as int] == count - m,
                forall|j: int, kk: int|
                    0 <= j < head && 0 <= kk < cm@[order@[j] as int]@.len() ==> {
                        let c = #[trigger] cm@[order@[j] as int]@[kk];
                        seen@[c as int] && rk[c as int] < rk[order@[j] as int]
                    },
                forall|t: int| 0 <= t < k ==> seen@[#[trigger] kids@[t] as int] && rk[kids@[t] as int] < rk[x as int],
                forall|m: int| 1 <= m < base ==> #[trigger] parent_listed(order@, pi, n, m, head as int),
                forall|m: int| base <= m < order@.len() ==> #[trigger] order@[m] == kids@[m - base],
                has_w ==> forall|m: int|
                    0 <= m < order@.len() ==> w.1.contains(#[trigger] order@[m] as int) && w.0[order@[m] as int]
                        <= w.0[0],
            decreases kids@.len() - k,
        {
            let c = kids[k];
            if c == 0 {
                proof {
                    if has_w {
                        assert(w.1.contains(x as int) && w.0[x as int] <= w.0[0]) by {
                            assert(order@[head as int] == x);
                        }
                        assert(parent_slot(pi[0], n) == x);
                        assert(w.0[0] < w.0[x as int]);
                    }
                }
                return false;
            }
            proof {
                if order@.contains(c) {
                    let m = choose|m: int| 0 <= m < order@.len() && order@[m] == c;
                    if m == 0 {
                    } else if m < base {
                        assert(parent_listed(order@, pi, n, m, head as int));
                        let pj = choose|pj: int| 0 <= pj < head && #[trigger] order@[pj] as int == parent_slot(pi[order@[m] as int], n);
                        assert(order@[pj] == order@[head as int]);
                    } else {
                        assert(order@[m] == kids@[m - base]);
                        assert(kids@[m - base] < kids@[k as int]);
                    }
                }
                assert(!seen@[c as int]);
                let grown = order@.push(c);
                assert forall|m: int| 0 <= m < grown.len() implies (#[trigger] grown[m]) < n by {
                    if m < order@.len() {
                        assert(grown[m] == order@[m]);
                    }
                }
                assert(grown.no_duplicates()) by {
                    assert forall|a: int, b: int| 0 <= a < grown.len() && 0 <= b < grown.len() && a != b implies grown[a] != grown[b] by {
                        if a < order@.len() && b < order@.len() {
                        } else if a < order@.len() {
                            assert(order@.contains(grown[a]));
                        } else if b < order@.len() {
                            assert(order@.contains(grown[b]));
                        }
                    }
                }
                lemma_distinct_bound(grown, n);
            }
            let ghost prev_order = order@;
            let ghost prev_seen = seen@;
            let ghost prev_rk = rk;
            seen.set(c, true);
            proof {
                rk = rk.update(c as int, (n - order@.len()) as nat);
            }
            order.push(c);
            proof {
                assert forall|v: int| 0 <= v < count implies (#[trigger] seen@[v] <==> order@.contains(v as usize)) by {
                    if v == c as int {
                        assert(order@[order@.len() - 1] == c);
                    } else {
                        if order@.contains(v as usize) {
                            let m = choose|m: int| 0 <= m < order@.len() && order@[m] == v as usize;
                            assert(m < prev_order.len());
                            assert(prev_order.contains(v as usize));
                        }
                        if prev_order.contains(v as usize) {
                            let m = choose|m: int| 0 <= m < prev_order.len() && prev_order[m] == v as usize;
                            assert(order@[m] == v as usize);
                        }
                    }
                }
                assert forall|m: int| 0 <= m < order@.len() implies rk[#[trigger] order@[m] as int] == count - m by {
                    if m < prev_order.len() {
                        assert(order@[m] == prev_order[m]);
                        assert(prev_order[m] != c) by {
                            assert(prev_order.contains(prev_order[m]));
                        }
                    }
                }
                assert forall|j: int, kk: int|
                    0 <= j < head && 0 <= kk < cm@[order@[j] as int]@.len() implies {
                        let cc = #[trigger] cm@[order@[j] as int]@[kk];
                        seen@[cc as int] && rk[cc as int] < rk[order@[j] as int]
                    } by {
                    assert(order@[j] == prev_order[j]);
                    let cc = cm@[prev_order[j] as int]@[kk];
                    lemma_children_upto(pi, n, prev_order[j] as int, n);
                    assert(cc < n);
                    assert(prev_seen[cc as int] && prev_rk[cc as int] < prev_rk[prev_order[j] as int]);
                    assert(seen@[cc as int]);
                    assert(cc != c) by {
                        assert(prev_order.contains(cc));
                    }
                    assert(order@[j] != c) by {
                        assert(prev_order.contains(prev_order[j]));
                    }
                }
                assert forall|t: int| 0 <= t < k + 1 implies seen@[#[trigger] kids@[t] as int] && rk[kids@[t] as int] < rk[x as int] by {
                    assert(x != c) by {
                        assert(prev_order.contains(prev_order[head as int]));
                    }
                    if t < k {
                        assert(kids@[t] != c) by {
                            assert(kids@[t] < kids@[k as int]);
                        }
                    }
                }
                assert forall|m: int| 1 <= m < base implies #[trigger] parent_listed(order@, pi, n, m, head as int) by {
                    assert(order@[m] == prev_order[m]);
                    assert(parent_listed(prev_order, pi, n, m, head as int));
                    let pj = choose|pj: int| 0 <= pj < head && #[trigger] prev_order[pj] as int == parent_slot(pi[prev_order[m] as int], n);
                    assert(order@[pj] == prev_order[pj]);
                }
                if has_w {
                    assert(w.1.contains(x as int) && w.0[x as int] <= w.0[0]) by {
                        assert(order@[head as int] == x);
                    }
                    assert(parent_slot(pi[c as int], n) == x);
                    assert forall|m: int| 0 <= m < order@.len() implies w.1.contains(#[trigger] order@[m] as int)
                        && w.0[order@[m] as int] <= w.0[0] by {
                        if m < prev_order.len() {
                            assert(order@[m] == prev_order[m]);
                        }
                    }
                }
            }
            k = k + 1;
        }
        proof {
            assert forall|m: int| 1 <= m < order@.len() implies #[trigger] parent_listed(order@, pi, n, m, head + 1) by {
                if m < base {
                    assert(parent_listed(order@, pi, n, m, head as int));
                    let pj = choose|pj: int| 0 <= pj < head && #[trigger] order@[pj] as int == parent_slot(pi[order@[m] as int], n);
                } else {
                    assert(order@[m] == kids@[m - base]);
                    assert(order@[head as int] as int == parent_slot(pi[order@[m] as int], n));
                }
            }
            assert forall|j: int, kk: int|
                0 <= j < head + 1 && 0 <= kk < cm@[order@[j] as int]@.len() implies {
                    let cc = #[trigger] cm@[order@[j] as int]@[kk];
                    seen@[cc as int] && rk[cc as int] < rk[order@[j] as int]
                } by {
                if j == head {
                    assert(cm@[order@[j] as int]@[kk] == kids@[kk]);
                }
            }
        }
        head = head + 1;
    }
    proof {
        let s = Set::new(|v: int| 0 <= v < count && seen@[v]);
        assert(seen@[0]) by {
            assert(order@[0] == 0);
        }
        assert forall|c: int|
            0 <= c < n && #[trigger] parent_slot(pi[c], n) >= 0 && s.contains(parent_slot(pi[c], n)) implies s.contains(c)
                && rk[c] < rk[parent_slot(pi[c], n)] by {
            let i = parent_slot(pi[c], n);
            assert(order@.contains(i as usize));
            let j = choose|j: int| 0 <= j < order@.len() && order@[j] == i as usize;
            lemma_children_upto_complete(pi, n, i, n, c);
            let kk = choose|kk: int| 0 <= kk < cm@[i]@.len() && cm@[i]@[kk] == c as usize;
            assert(cm@[order@[j] as int]@[kk] == c as usize);
        }
        assert(root_ranked(pi, n, rk, s));
    }
    true
}

/// Whether a capture satisfies `snapshot_wf`, so that it can be rebuilt:
/// its arrays are long enough, its parent indices leave room for the
/// 1-based shift, and following child links from the first node never
/// leads back to it.
pub fn snapshot_checked(nodes: &SnapshotNodes) -> (r: bool)
    ensures
        r == snapshot_wf(*nodes),
{
    let count = nodes.node_type.len();
    if count as u128 >= 0x7fff_ffff_ffff_ffff {
        return false;
    }
    if nodes.parent_index.len() < count || nodes.node_name.len() < count || nodes.node_value.len() < count
        || nodes.backend_node_id.len() < count {
        return false;
    }
    let mut i: usize = 0;
    while i < count
        invariant
            i <= count,
            count == nodes.node_type@.len(),
            nodes.parent_index@.len() >= count,
            forall|j: int| 0 <= j < i ==> #[trigger] nodes.parent_index@[j] < i64::MAX,
        decreases count - i,
    {
        if nodes.parent_index[i] == i64::MAX {
            assert(!(nodes.parent_index@[i as int] < i64::MAX));
            return false;
        }
        i = i + 1;
    }
    if count == 0 {
        proof {
            let s = Set::<int>::empty().insert(0);
            assert(root_ranked(nodes.parent_index@, 0, Seq::<nat>::empty(), s));
        }
        return true;
    }
    let cm = child_lists(nodes, count);
    root_cycle_free(nodes, &cm, count)
}

} // verus!
