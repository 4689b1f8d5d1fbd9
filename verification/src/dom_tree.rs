//! Live DOM tree backed by a slot map for stable keys.
//! Incrementally updated via CDP DOM events.
//!
//! Nodes are held in a `SlotMap`; a node refers to its parent and children
//! by the 64-bit form of their slot-map keys. A child, shadow root or pseudo
//! element is always inserted after the node that links to it, which the
//! ghost insertion order (`birth`) records: following links only ever moves
//! to younger nodes, so every walk over the tree terminates.

use vstd::prelude::*;
use vstd::hash_map::StringHashMap;
use std::collections::HashMap;
use slotmap::{DefaultKey, Key, KeyData, SlotMap};

use crate::dom_build::{
    fresh_for, extended, keeps, mirrors, is_new, id_set, backend_set, lemma_mirrors_frame, lemma_fresh_parts,
    added, preserved, preserved_but, distinct_ids, unmapped,
    lemma_fresh_after, lemma_extended_trans,
};
use crate::dom_node::{
    DomNode, preorder, preorder_list, listed, content_order, lemma_preorder_list_front, lemma_preorder_list_split,
};
use crate::text::{owned, push_text, lower_text, trim_text, push_indent, lowercase, trimmed, spaces};
use crate::dom_walk::{
    backend_ids_of, ids_of, lemma_link_younger, lemma_reach_after_removal, lemma_reach_trans,
    lemma_reach_unfold, lemma_reach_unstored, lemma_ids_of_union, lemma_ids_of_single,
    lemma_ids_of_agree, lemma_reach_drop_link, ordered, reach, reach_all, walk_between,
    lemma_walk_order, lemma_reach_after_closed_removal, lemma_ids_of_removed,
};

verus! {

broadcast use {vstd::std_specs::hash::group_hash_axioms, vstd::string::group_string_axioms};

// ── Slot map ──

/// The slot map that holds the tree's nodes, reached only through the
/// functions below.
#[verifier::external_body]
pub struct NodeSlots {
    slots: SlotMap<DefaultKey, TreeNode>,
}

/// The nodes a slot map holds, by the 64-bit form (`KeyData::as_ffi`) of
/// their keys.
pub uninterp spec fn slot_contents(m: NodeSlots) -> Map<u64, TreeNode>;

/// The empty node map.
pub open spec fn no_nodes() -> Map<u64, TreeNode> {
    Map::empty()
}

/// The 64-bit form of a key that a slot map hands out: the upper half is the
/// slot's version, which is odd while the slot is occupied.
pub open spec fn key_form(k: u64) -> bool {
    (k / 0x1_0000_0000) % 2 == 1
}

/// `SlotMap::new`: an empty slot map.
#[verifier::external_body]
fn slot_new() -> (m: NodeSlots)
    ensures
        slot_contents(m) == no_nodes(),
{
    NodeSlots { slots: SlotMap::new() }
}

/// `SlotMap::insert`: stores `v` under a key that no stored value has, and
/// returns the key's 64-bit form. The slot map panics when it has no free
/// slot and `u32::MAX - 1` values already.
#[verifier::external_body]
fn slot_insert(m: &mut NodeSlots, v: TreeNode) -> (k: u64)
    requires
        slot_contents(*old(m)).dom().finite(),
        slot_contents(*old(m)).len() + 1 < u32::MAX,
    ensures
        key_form(k),
        !slot_contents(*old(m)).contains_key(k),
        slot_contents(*final(m)) == slot_contents(*old(m)).insert(k, v),
{
    m.slots.insert(v).data().as_ffi()
}

/// `SlotMap::get` on the key whose 64-bit form is `k`.
#[verifier::external_body]
fn slot_get(m: &NodeSlots, k: u64) -> (r: Option<&TreeNode>)
    requires
        key_form(k),
    ensures
        match r {
            Some(v) => slot_contents(*m).contains_key(k) && *v == slot_contents(*m)[k],
            None => !slot_contents(*m).contains_key(k),
        },
{
    m.slots.get(DefaultKey::from(KeyData::from_ffi(k)))
}

/// `SlotMap`'s `IndexMut` on a stored key: the value, to change in place.
#[verifier::external_body]
fn slot_get_mut(m: &mut NodeSlots, k: u64) -> (r: &mut TreeNode)
    requires
        key_form(k),
        slot_contents(*old(m)).contains_key(k),
    ensures
        *r == slot_contents(*old(m))[k],
        slot_contents(*final(m)) == slot_contents(*old(m)).insert(k, *final(r)),
{
    &mut m.slots[DefaultKey::from(KeyData::from_ffi(k))]
}

/// `SlotMap::remove` on the key whose 64-bit form is `k`.
#[verifier::external_body]
fn slot_remove(m: &mut NodeSlots, k: u64) -> (r: Option<TreeNode>)
    requires
        key_form(k),
    ensures
        match r {
            Some(v) => slot_contents(*old(m)).contains_key(k) && v == slot_contents(*old(m))[k],
            None => !slot_contents(*old(m)).contains_key(k),
        },
        slot_contents(*final(m)) == slot_contents(*old(m)).remove(k),
{
    m.slots.remove(DefaultKey::from(KeyData::from_ffi(k)))
}

/// `SlotMap::len`: how many values are stored.
#[verifier::external_body]
fn slot_len(m: &NodeSlots) -> (r: usize)
    requires
        slot_contents(*m).dom().finite(),
    ensures
        r == slot_contents(*m).len(),
{
    m.slots.len()
}

/// `SlotMap::clear`: removes every value.
#[verifier::external_body]
fn slot_clear(m: &mut NodeSlots)
    ensures
        slot_contents(*final(m)) == no_nodes(),
{
    m.slots.clear()
}

// ── Tree ──

pub struct TreeNode {
    pub node_id: i64,
    pub backend_node_id: i64,
    pub node_type: i32,
    pub node_name: String,
    pub node_value: String,
    pub attributes: StringHashMap<String>,
    pub parent: Option<u64>,
    pub children: Vec<u64>,
    pub shadow_roots: Vec<u64>,
    pub pseudo_elements: Vec<u64>,
    pub frame_id: Option<String>,
    pub child_node_count: Option<i32>,
}

/// Live DOM tree that is incrementally updated via CDP events.
pub struct LiveDomTree {
    nodes: NodeSlots,
    /// node_id → key for O(1) lookup
    id_map: HashMap<i64, u64>,
    /// backend_node_id → key for cross-domain correlation
    backend_map: HashMap<i64, u64>,
    root: Option<u64>,
    /// Insertion number of each stored node
    stamps: HashMap<u64, u64>,
    /// Number of nodes inserted so far
    inserted: u64,
}

/// The keys a node links to: children, then shadow roots, then pseudo elements.
pub open spec fn links(n: TreeNode) -> Seq<u64> {
    n.children@ + n.shadow_roots@ + n.pseudo_elements@
}

/// The three lists of links a node keeps.
#[derive(Clone, Copy)]
pub enum LinkList {
    Children,
    ShadowRoots,
    PseudoElements,
}

pub open spec fn list_of(n: TreeNode, which: LinkList) -> Seq<u64> {
    match which {
        LinkList::Children => n.children@,
        LinkList::ShadowRoots => n.shadow_roots@,
        LinkList::PseudoElements => n.pseudo_elements@,
    }
}

/// `after` is `before` with at most the list `which` changed.
pub open spec fn list_replaced(before: TreeNode, after: TreeNode, which: LinkList) -> bool {
    match which {
        LinkList::Children => after == (TreeNode { children: after.children, ..before }),
        LinkList::ShadowRoots => after == (TreeNode { shadow_roots: after.shadow_roots, ..before }),
        LinkList::PseudoElements => after == (TreeNode { pseudo_elements: after.pseudo_elements, ..before }),
    }
}

/// Where a new link goes in a list.
#[derive(Clone, Copy)]
pub enum Placement {
    /// At the end.
    Back,
    /// Right after the first link to the node with this id; at the front
    /// for id 0, and at the end when the id maps to no key in the list.
    After(i64),
}

/// The index at which a new link goes.
pub open spec fn place_index(list: Seq<u64>, place: Placement, ids: Map<i64, u64>) -> int {
    match place {
        Placement::Back => list.len() as int,
        Placement::After(p) => if p == 0 {
            0
        } else if ids.contains_key(p) && list.contains(ids[p]) {
            list.index_of_first(ids[p])->0 + 1
        } else {
            list.len() as int
        },
    }
}

/// Compute `place_index`.
fn place_index_of(list: &Vec<u64>, place: &Placement, ids: &HashMap<i64, u64>) -> (r: usize)
    ensures
        r == place_index(list@, *place, ids@),
        r <= list@.len(),
{
    match place {
        Placement::Back => list.len(),
        Placement::After(p) => {
            if *p == 0 {
                0
            } else {
                match ids.get(p) {
                    Some(x) => {
                        let x = *x;
                        let mut i: usize = 0;
                        while i < list.len()
                            invariant
                                i <= list@.len(),
                                forall|j: int| 0 <= j < i ==> list@[j] != x,
                                ids@.contains_key(*p) && ids@[*p] == x,
                                *place == Placement::After(*p),
                                *p != 0,
                            decreases list@.len() - i,
                        {
                            if list[i] == x {
                                proof {
                                    assert(list@[i as int] == x);
                                    assert(list@.contains(x));
                                    list@.index_of_first_ensures(x);
                                    let f = list@.index_of_first(x)->0;
                                    if f < i {
                                        assert(list@[f] != x);
                                    }
                                    if f > i {
                                        assert(list@[i as int] != x);
                                    }
                                    assert(f == i);
                                    assert(ids@.contains_key(*p) && ids@[*p] == x);
                                }
                                return i + 1;
                            }
                            i = i + 1;
                        }
                        proof {
                            assert(!list@.contains(x));
                            assert(ids@.contains_key(*p) && ids@[*p] == x);
                        }
                        list.len()
                    },
                    None => list.len(),
                }
            }
        },
    }
}

/// Keeps the keys other than `x`.
pub open spec fn other_than(x: u64) -> spec_fn(u64) -> bool {
    |k: u64| k != x
}

/// The keys of `v` other than `x`, in order.
fn without(v: &Vec<u64>, x: u64) -> (r: Vec<u64>)
    ensures
        r@ == v@.filter(other_than(x)),
{
    let mut r: Vec<u64> = Vec::new();
    let mut i: usize = 0;
    while i < v.len()
        invariant
            i <= v@.len(),
            r@ == v@.take(i as int).filter(other_than(x)),
        decreases v@.len() - i,
    {
        proof {
            assert(v@.take(i + 1) =~= v@.take(i as int).push(v@[i as int]));
            v@.take(i as int).lemma_filter_push(v@[i as int], other_than(x));
        }
        if v[i] != x {
            r.push(v[i]);
        }
        i = i + 1;
    }
    assert(v@.take(v@.len() as int) =~= v@);
    r
}

/// The attribute map that a CDP attribute array [name, value, ...] stands
/// for, reading its first `n` complete pairs; a later pair wins.
pub open spec fn attr_pairs(s: Seq<String>, n: nat) -> Map<Seq<char>, String>
    decreases n,
{
    if n == 0 {
        Map::empty()
    } else {
        attr_pairs(s, (n - 1) as nat).insert(s[2 * (n - 1)]@, s[2 * (n - 1) + 1])
    }
}

pub open spec fn attr_map(attrs: Option<Vec<String>>) -> Map<Seq<char>, String> {
    match attrs {
        Some(v) => attr_pairs(v@, v@.len() / 2),
        None => Map::empty(),
    }
}

/// Parse a CDP attribute array [name, value, name, value, ...] into a map.
/// A trailing name without a value is skipped.
pub fn parse_attributes(attrs: &Option<Vec<String>>) -> (r: StringHashMap<String>)
    ensures
        r@ == attr_map(*attrs),
{
    let mut map: StringHashMap<String> = StringHashMap::new();
    match attrs {
        Some(v) => {
            let mut i: usize = 0;
            while i + 1 < v.len()
                invariant
                    i % 2 == 0,
                    i <= v@.len(),
                    map@ == attr_pairs(v@, (i / 2) as nat),
                decreases v@.len() - i,
            {
                map.insert(v[i].clone(), v[i + 1].clone());
                assert((i + 2) / 2 == i / 2 + 1);
                i = i + 2;
            }
            assert(i / 2 == v@.len() / 2);
        },
        None => {},
    }
    map
}

impl LiveDomTree {
    /// Stored nodes by key.
    pub closed spec fn nodes(&self) -> Map<u64, TreeNode> {
        slot_contents(self.nodes)
    }

    /// node_id → key.
    pub closed spec fn ids(&self) -> Map<i64, u64> {
        self.id_map@
    }

    /// backend_node_id → key.
    pub closed spec fn backends(&self) -> Map<i64, u64> {
        self.backend_map@
    }

    pub closed spec fn root(&self) -> Option<u64> {
        self.root
    }

    /// Insertion order of the stored nodes.
    pub closed spec fn birth(&self) -> Map<u64, u64> {
        self.stamps@
    }

    /// The insertion number the next node will get.
    pub closed spec fn clock(&self) -> u64 {
        self.inserted
    }

    /// Every stored node has a key of slot-map form and an insertion number
    /// below the clock, and links only to keys of slot-map form that, when
    /// stored, were inserted after it.
    pub open spec fn wf(&self) -> bool {
        &&& self.nodes().dom().finite()
        &&& ordered(self.nodes(), self.birth(), self.clock())
        &&& self.birth().dom() == self.nodes().dom()
        &&& forall|x: i64| #[trigger] self.ids().contains_key(x) ==> key_form(self.ids()[x])
        &&& forall|x: i64| #[trigger] self.backends().contains_key(x) ==> key_form(self.backends()[x])
        &&& match self.root() {
            Some(r) => key_form(r),
            None => true,
        }
    }

    pub fn new() -> (t: Self)
        ensures
            t.wf(),
            t.nodes() == Map::<u64, TreeNode>::empty(),
            t.ids() == Map::<i64, u64>::empty(),
            t.backends() == Map::<i64, u64>::empty(),
            t.root() is None,
    {
        LiveDomTree {
            nodes: slot_new(),
            id_map: HashMap::new(),
            backend_map: HashMap::new(),
            root: None,
            stamps: HashMap::new(),
            inserted: 0,
        }
    }

    /// Clear the entire tree (on documentUpdated).
    pub fn clear(&mut self)
        ensures
            final(self).wf(),
            final(self).nodes() == Map::<u64, TreeNode>::empty(),
            final(self).ids() == Map::<i64, u64>::empty(),
            final(self).backends() == Map::<i64, u64>::empty(),
            final(self).root() is None,
            final(self).clock() == old(self).clock(),
            final(self).birth() == Map::<u64, u64>::empty(),
    {
        slot_clear(&mut self.nodes);
        self.id_map.clear();
        self.backend_map.clear();
        self.stamps.clear();
        self.root = None;
    }

    /// Get the total node count.
    pub fn node_count(&self) -> (r: usize)
        requires
            self.wf(),
        ensures
            r == self.nodes().len(),
    {
        slot_len(&self.nodes)
    }

    /// Whether `n` more nodes fit: the slot map stays below `u32::MAX`
    /// values and the insertion counter does not overflow.
    pub fn has_room(&self, n: u64) -> (r: bool)
        requires
            self.wf(),
        ensures
            r == (self.nodes().len() + n < u32::MAX && self.clock() + n <= u64::MAX),
    {
        let c = slot_len(&self.nodes) as u64;
        c < 0xffff_ffff && n < 0xffff_ffff - c && self.inserted <= u64::MAX - n
    }

    /// The key a node id maps to, when that key's node is stored.
    pub open spec fn lookup(&self, node_id: i64) -> Option<u64> {
        if self.ids().contains_key(node_id) && self.nodes().contains_key(self.ids()[node_id]) {
            Some(self.ids()[node_id])
        } else {
            None
        }
    }

    /// The key `key` holds the node that was inserted with number `stamp`.
    pub open spec fn holds(&self, key: u64, stamp: u64) -> bool {
        self.birth().contains_key(key) && self.birth()[key] == stamp
    }

    /// Get a node by its CDP node_id.
    pub fn get_by_node_id(&self, node_id: i64) -> (r: Option<&TreeNode>)
        requires
            self.wf(),
        ensures
            match self.lookup(node_id) {
                Some(k) => r == Some(&self.nodes()[k]),
                None => r is None,
            },
    {
        match self.id_map.get(&node_id) {
            Some(k) => slot_get(&self.nodes, *k),
            None => None,
        }
    }

    /// The stored node that `node_id` maps to, by key.
    fn resolve(&self, node_id: i64) -> (r: Option<u64>)
        requires
            self.wf(),
        ensures
            r == self.lookup(node_id),
    {
        match self.id_map.get(&node_id) {
            Some(k) => {
                let k = *k;
                match slot_get(&self.nodes, k) {
                    Some(_) => Some(k),
                    None => None,
                }
            },
            None => None,
        }
    }

    /// Remove the node `key` and every node it reaches, and forget their ids.
    fn remove_subtree(&mut self, key: u64)
        requires
            old(self).wf(),
            key_form(key),
        ensures
            final(self).wf(),
            removed(*old(self), *final(self), reach(old(self).nodes(), key)),
        decreases (if old(self).nodes().contains_key(key) { old(self).clock() - old(self).birth()[key] } else { 0 }), 1int,
    {
        let ghost g = self.nodes();
        let ghost t0 = *self;
        match slot_remove(&mut self.nodes, key) {
            None => {
                proof {
                    lemma_reach_unstored(g, key);
                    assert(ids_of(g, Set::empty()) =~= Set::empty());
                    assert(backend_ids_of(g, Set::empty()) =~= Set::empty());
                    assert(self.ids().remove_keys(Set::empty()) =~= self.ids());
                    assert(self.backends().remove_keys(Set::empty()) =~= self.backends());
                    assert(self.birth().remove_keys(Set::empty()) =~= self.birth());
                    assert(g.remove_keys(Set::empty()) =~= g);
                    assert(self.nodes() =~= g);
                    assert(removed(*old(self), *self, reach(g, key)));
                    assert(self.wf());
                }
            },
            Some(node) => {
                self.id_map.remove(&node.node_id);
                self.backend_map.remove(&node.backend_node_id);
                self.stamps.remove(&key);
                let mut ks = node.children;
                let mut more = node.shadow_roots;
                ks.append(&mut more);
                let mut more = node.pseudo_elements;
                ks.append(&mut more);
                let ghost t1 = *self;
                let ghost floor = t0.birth()[key];
                proof {
                    assert(ks@ == links(g[key]));
                    lemma_ids_of_single(g, key);
                    assert(g.remove(key) =~= g.remove_keys(set![key]));
                    assert(t0.ids().remove(g[key].node_id) =~= t0.ids().remove_keys(set![g[key].node_id]));
                    assert(t0.backends().remove(g[key].backend_node_id) =~= t0.backends().remove_keys(set![g[key].backend_node_id]));
                    assert(t0.birth().remove(key) =~= t0.birth().remove_keys(set![key]));
                    assert(removed(t0, t1, set![key]));
                    assert(stored_ok(g, t0.birth(), t0.clock(), key));
                    assert forall|j: u64| #[trigger] t1.nodes().contains_key(j) implies stored_ok(t1.nodes(), t1.birth(), t1.clock(), j) by {
                        assert(stored_ok(g, t0.birth(), t0.clock(), j));
                        assert(j != key);
                    }
                    assert(t1.wf());
                    assert forall|i: int| 0 <= i < ks@.len() implies key_form(#[trigger] ks@[i]) && (t1.nodes().contains_key(ks@[i]) ==> t1.birth()[ks@[i]] > floor) by {
                        assert(links(g[key])[i] == ks@[i]);
                        if t1.nodes().contains_key(ks@[i]) {
                            assert(ks@[i] != key);
                        }
                    }
                }
                self.remove_each(&ks, Ghost(floor));
                proof {
                    let r1 = reach_all(t1.nodes(), ks@);
                    assert(t1.nodes() == g.remove_keys(set![key]));
                    assert(r1 =~= reach_all(g, ks@)) by {
                        assert forall|j: int| 0 <= j < ks@.len() implies reach(t1.nodes(), ks@[j]) == reach(g, ks@[j]) by {
                            let c = ks@[j];
                            assert(links(g[key])[j] == c);
                            if g.contains_key(c) {
                                assert(links(g[key]).contains(c));
                                lemma_link_younger(g, t0.birth(), t0.clock(), key, c);
                            }
                            lemma_reach_after_removal(g, t0.birth(), t0.clock(), set![key], key, c);
                            assert(!reach(g, c).contains(key)) by {
                                if reach(g, c).contains(key) {
                                    let p = choose|p: Seq<u64>| walk_between(g, p, c, key);
                                    lemma_walk_order(g, t0.birth(), t0.clock(), p);
                                    assert(g.contains_key(p[0]));
                                }
                            }
                            assert(reach(g, c).difference(set![key]) =~= reach(g, c));
                        }
                    }
                    lemma_removed_compose(t0, t1, *self, set![key], r1);
                    lemma_reach_unfold(g, key);
                    assert(set![key].union(r1) =~= reach(g, key));
                }
            },
        }
    }

    /// Remove, in order, each node of `ks` with everything it reaches.
    fn remove_each(&mut self, ks: &Vec<u64>, Ghost(floor): Ghost<u64>)
        requires
            old(self).wf(),
            floor < old(self).clock(),
            forall|i: int|
                0 <= i < ks@.len() ==> key_form(#[trigger] ks@[i]) && (old(self).nodes().contains_key(ks@[i])
                    ==> old(self).birth()[ks@[i]] > floor),
        ensures
            final(self).wf(),
            removed(*old(self), *final(self), reach_all(old(self).nodes(), ks@)),
        decreases old(self).clock() - floor, 0int,
    {
        let ghost t0 = *self;
        let ghost g = self.nodes();
        proof {
            assert(reach_all(g, ks@.take(0)) =~= Set::<u64>::empty());
            assert(ids_of(g, Set::empty()) =~= Set::empty());
            assert(backend_ids_of(g, Set::empty()) =~= Set::empty());
            assert(self.ids().remove_keys(Set::empty()) =~= self.ids());
            assert(self.backends().remove_keys(Set::empty()) =~= self.backends());
            assert(self.birth().remove_keys(Set::empty()) =~= self.birth());
            assert(g.remove_keys(Set::empty()) =~= g);
        }
        let mut i: usize = 0;
        while i < ks.len()
            invariant
                self.wf(),
                t0 == *old(self),
                t0.wf(),
                g == t0.nodes(),
                floor < t0.clock(),
                forall|m: int|
                    0 <= m < ks@.len() ==> key_form(#[trigger] ks@[m]) && (g.contains_key(ks@[m]) ==> t0.birth()[ks@[m]]
                        > floor),
                0 <= i <= ks@.len(),
                removed(t0, *self, reach_all(g, ks@.take(i as int))),
            decreases ks@.len() - i,
        {
            let c = ks[i];
            let ghost d = reach_all(g, ks@.take(i as int));
            let ghost cur = *self;
            proof {
                assert(key_form(ks@[i as int]));
                assert forall|y: u64| #[trigger] d.contains(y) implies reach(g, y).subset_of(d) by {
                    let j = choose|j: int| 0 <= j < i && #[trigger] reach(g, ks@.take(i as int)[j]).contains(y);
                    lemma_reach_trans(g, ks@.take(i as int)[j], y);
                    assert forall|z: u64| reach(g, y).contains(z) implies d.contains(z) by {
                        assert(reach(g, ks@.take(i as int)[j]).contains(z));
                    }
                }
                lemma_reach_after_closed_removal(g, d, c);
                if cur.nodes().contains_key(c) {
                    assert(g.contains_key(c));
                    assert(ks@[i as int] == c);
                }
            }
            self.remove_subtree(c);
            proof {
                let r = reach(g, c);
                let d2 = reach_all(g, ks@.take(i + 1));
                assert(reach(cur.nodes(), c) == r.difference(d));
                lemma_removed_compose(t0, cur, *self, d, r.difference(d));
                assert forall|y: u64| d2.contains(y) <==> d.union(r.difference(d)).contains(y) by {
                    if d2.contains(y) {
                        let j = choose|j: int| 0 <= j < i + 1 && #[trigger] reach(g, ks@.take(i + 1)[j]).contains(y);
                        if j < i {
                            assert(ks@.take(i + 1)[j] == ks@.take(i as int)[j]);
                            assert(d.contains(y));
                        }
                    }
                    if d.contains(y) {
                        let j = choose|j: int| 0 <= j < i && #[trigger] reach(g, ks@.take(i as int)[j]).contains(y);
                        assert(ks@.take(i + 1)[j] == ks@.take(i as int)[j]);
                        assert(reach(g, ks@.take(i + 1)[j]).contains(y));
                    }
                    if r.contains(y) {
                        assert(ks@.take(i + 1)[i as int] == c);
                        assert(reach(g, ks@.take(i + 1)[i as int]).contains(y));
                    }
                }
                assert(d2 =~= d.union(r.difference(d)));
            }
            i = i + 1;
        }
        proof {
            assert(ks@.take(ks@.len() as int) =~= ks@);
        }
    }

    /// Drop every link to `x` from the list `which` of the stored node `pk`.
    fn unlink(&mut self, pk: u64, which: LinkList, x: u64)
        requires
            old(self).wf(),
            old(self).nodes().contains_key(pk),
        ensures
            final(self).wf(),
            unchanged_maps(*old(self), *final(self)),
            same_except(old(self).nodes(), final(self).nodes(), pk),
            list_replaced(old(self).nodes()[pk], final(self).nodes()[pk], which),
            list_of(final(self).nodes()[pk], which) == list_of(old(self).nodes()[pk], which).filter(other_than(x)),
            reach(final(self).nodes(), x) == reach(old(self).nodes(), x),
    {
        proof {
            assert(stored_ok(self.nodes(), self.birth(), self.clock(), pk));
        }
        let node = slot_get_mut(&mut self.nodes, pk);
        match which {
            LinkList::Children => {
                node.children = without(&node.children, x);
            },
            LinkList::ShadowRoots => {
                node.shadow_roots = without(&node.shadow_roots, x);
            },
            LinkList::PseudoElements => {
                node.pseudo_elements = without(&node.pseudo_elements, x);
            },
        }
        proof {
            let before = old(self).nodes();
            let after = self.nodes();
            let ob = before[pk];
            let nb = after[pk];
            assert(after.dom() =~= before.dom());
            assert forall|c: u64| #[trigger] links(nb).contains(c) implies links(ob).contains(c) by {
                let j = choose|j: int| 0 <= j < links(nb).len() && links(nb)[j] == c;
                let l = list_of(ob, which);
                if j < nb.children@.len() {
                    assert(nb.children@.contains(c));
                    if which == LinkList::Children {
                        l.lemma_filter_contains_rev(other_than(x), c);
                    }
                    assert(ob.children@.contains(c));
                    let m = choose|m: int| 0 <= m < ob.children@.len() && ob.children@[m] == c;
                    assert(links(ob)[m] == c);
                } else if j < nb.children@.len() + nb.shadow_roots@.len() {
                    assert(nb.shadow_roots@[j - nb.children@.len()] == c);
                    assert(nb.shadow_roots@.contains(c));
                    if which == LinkList::ShadowRoots {
                        l.lemma_filter_contains_rev(other_than(x), c);
                    }
                    assert(ob.shadow_roots@.contains(c));
                    let m = choose|m: int| 0 <= m < ob.shadow_roots@.len() && ob.shadow_roots@[m] == c;
                    assert(links(ob)[ob.children@.len() + m] == c);
                } else {
                    let j2 = j - nb.children@.len() - nb.shadow_roots@.len();
                    assert(nb.pseudo_elements@[j2] == c);
                    assert(nb.pseudo_elements@.contains(c));
                    if which == LinkList::PseudoElements {
                        l.lemma_filter_contains_rev(other_than(x), c);
                    }
                    assert(ob.pseudo_elements@.contains(c));
                    let m = choose|m: int| 0 <= m < ob.pseudo_elements@.len() && ob.pseudo_elements@[m] == c;
                    assert(links(ob)[ob.children@.len() + ob.shadow_roots@.len() + m] == c);
                }
            }
            assert forall|c: u64| #[trigger] links(ob).contains(c) && c != x implies links(nb).contains(c) by {
                let j = choose|j: int| 0 <= j < links(ob).len() && links(ob)[j] == c;
                let l = list_of(ob, which);
                broadcast use vstd::seq_lib::group_filter_ensures;
                if j < ob.children@.len() {
                    assert(ob.children@[j] == c);
                    if which == LinkList::Children {
                        assert(l.filter(other_than(x)).contains(l[j]));
                    }
                    assert(nb.children@.contains(c));
                    let m = choose|m: int| 0 <= m < nb.children@.len() && nb.children@[m] == c;
                    assert(links(nb)[m] == c);
                } else if j < ob.children@.len() + ob.shadow_roots@.len() {
                    let j1 = j - ob.children@.len();
                    assert(ob.shadow_roots@[j1] == c);
                    if which == LinkList::ShadowRoots {
                        assert(l.filter(other_than(x)).contains(l[j1]));
                    }
                    assert(nb.shadow_roots@.contains(c));
                    let m = choose|m: int| 0 <= m < nb.shadow_roots@.len() && nb.shadow_roots@[m] == c;
                    assert(links(nb)[nb.children@.len() + m] == c);
                } else {
                    let j2 = j - ob.children@.len() - ob.shadow_roots@.len();
                    assert(ob.pseudo_elements@[j2] == c);
                    if which == LinkList::PseudoElements {
                        assert(l.filter(other_than(x)).contains(l[j2]));
                    }
                    assert(nb.pseudo_elements@.contains(c));
                    let m = choose|m: int| 0 <= m < nb.pseudo_elements@.len() && nb.pseudo_elements@[m] == c;
                    assert(links(nb)[nb.children@.len() + nb.shadow_roots@.len() + m] == c);
                }
            }
            assert(ordered(after, self.birth(), self.clock())) by {
                assert forall|j: u64| #[trigger] after.contains_key(j) implies stored_ok(after, self.birth(), self.clock(), j) by {
                    assert(stored_ok(before, self.birth(), self.clock(), j));
                    if j == pk {
                        assert forall|i: int| 0 <= i < links(after[j]).len() implies {
                            let c = #[trigger] links(after[j])[i];
                            key_form(c) && (after.contains_key(c) ==> self.birth().contains_key(c) && self.birth()[c] > self.birth()[j])
                        } by {
                            let c = links(nb)[i];
                            assert(links(nb).contains(c));
                            assert(links(ob).contains(c));
                            let m = choose|m: int| 0 <= m < links(ob).len() && links(ob)[m] == c;
                            assert(links(before[j])[m] == c);
                        }
                    } else {
                        assert(links(after[j]) == links(before[j]));
                    }
                }
            }
            lemma_reach_drop_link(before, after, self.birth(), self.clock(), pk, x);
            assert(self.ids() == old(self).ids());
            assert(self.backends() == old(self).backends());
        }
    }

    /// Drop the node `node_id` from the list `which` of the node
    /// `parent_node_id`, then remove it with everything it reaches.
    fn detach(&mut self, parent_node_id: i64, node_id: i64, which: LinkList)
        requires
            old(self).wf(),
        ensures
            final(self).wf(),
            detached(*old(self), *final(self), parent_node_id, node_id, which),
    {
        match self.id_map.get(&node_id) {
            Some(nk) => {
                let nk = *nk;
                let ghost before = *self;
                match self.resolve(parent_node_id) {
                    Some(pk) => {
                        self.unlink(pk, which, nk);
                        proof {
                            lemma_ids_of_agree(self.nodes(), before.nodes(), reach(before.nodes(), nk));
                        }
                    },
                    None => {},
                }
                let ghost mid = *self;
                self.remove_subtree(nk);
                proof {
                    assert(self.nodes().dom() =~= before.nodes().dom().difference(reach(before.nodes(), nk)));
                }
            },
            None => {
                proof {
                    assert(self.nodes().dom() =~= old(self).nodes().dom());
                }
            },
        }
    }

    /// The list `which` of the node `key`, when `key` still holds the node
    /// inserted with number `stamp`.
    fn current_list(&self, key: u64, stamp: u64, which: LinkList) -> (r: Option<Vec<u64>>)
        requires
            self.wf(),
        ensures
            match r {
                Some(v) => self.holds(key, stamp) && v@ == list_of(self.nodes()[key], which),
                None => !self.holds(key, stamp),
            },
    {
        match self.stamps.get(&key) {
            Some(st) => {
                if *st == stamp {
                    proof {
                        assert(self.nodes().contains_key(key));
                        assert(stored_ok(self.nodes(), self.birth(), self.clock(), key));
                    }
                    match slot_get(&self.nodes, key) {
                        Some(n) => {
                            let v = match which {
                                LinkList::Children => n.children.clone(),
                                LinkList::ShadowRoots => n.shadow_roots.clone(),
                                LinkList::PseudoElements => n.pseudo_elements.clone(),
                            };
                            proof {
                                assert(v@ =~= list_of(self.nodes()[key], which));
                            }
                            Some(v)
                        },
                        None => None,
                    }
                } else {
                    None
                }
            },
            None => None,
        }
    }

    /// Make `ks` the list `which` of the node `key`, when `key` still holds
    /// the node inserted with number `stamp`; every stored node in `ks` is
    /// younger than that node.
    fn relink_if(&mut self, key: u64, stamp: u64, which: LinkList, ks: Vec<u64>)
        requires
            old(self).wf(),
            forall|i: int| 0 <= i < ks@.len() ==> key_form(#[trigger] ks@[i]),
            forall|i: int|
                0 <= i < ks@.len() && old(self).nodes().contains_key(#[trigger] ks@[i]) ==> old(self).birth()[ks@[i]] > stamp,
        ensures
            final(self).wf(),
            unchanged_maps(*old(self), *final(self)),
            old(self).holds(key, stamp) ==> {
                &&& same_except(old(self).nodes(), final(self).nodes(), key)
                &&& list_replaced(old(self).nodes()[key], final(self).nodes()[key], which)
                &&& list_of(final(self).nodes()[key], which) == ks@
            },
            !old(self).holds(key, stamp) ==> final(self).nodes() == old(self).nodes(),
    {
        let held = match self.stamps.get(&key) {
            Some(st) => *st == stamp,
            None => false,
        };
        if held {
            proof {
                assert(stored_ok(self.nodes(), self.birth(), self.clock(), key));
            }
            let node = slot_get_mut(&mut self.nodes, key);
            match which {
                LinkList::Children => {
                    node.children = ks;
                },
                LinkList::ShadowRoots => {
                    node.shadow_roots = ks;
                },
                LinkList::PseudoElements => {
                    node.pseudo_elements = ks;
                },
            }
            proof {
                let before = old(self).nodes();
                let after = self.nodes();
                assert(after.dom() =~= before.dom());
                assert(self.ids() == old(self).ids());
                assert(self.backends() == old(self).backends());
                assert forall|j: u64| #[trigger] after.contains_key(j) implies stored_ok(after, self.birth(), self.clock(), j) by {
                    assert(stored_ok(before, self.birth(), self.clock(), j));
                    if j == key {
                        let nb = after[key];
                        let ob = before[key];
                        assert forall|i: int| 0 <= i < links(after[j]).len() implies {
                            let c = #[trigger] links(after[j])[i];
                            key_form(c) && (after.contains_key(c) ==> self.birth().contains_key(c) && self.birth()[c] > self.birth()[j])
                        } by {
                            let c = links(nb)[i];
                            let cl = nb.children@.len() as int;
                            let sl = nb.shadow_roots@.len() as int;
                            if i < cl {
                                assert(c == nb.children@[i]);
                                if which != LinkList::Children {
                                    assert(links(ob)[i] == c);
                                } else {
                                    assert(ks@[i] == c);
                                }
                            } else if i < cl + sl {
                                assert(c == nb.shadow_roots@[i - cl]);
                                if which != LinkList::ShadowRoots {
                                    if which == LinkList::Children {
                                        assert(links(ob)[ob.children@.len() + i - cl] == c);
                                    } else {
                                        assert(links(ob)[i] == c);
                                    }
                                } else {
                                    assert(ks@[i - cl] == c);
                                }
                            } else {
                                assert(c == nb.pseudo_elements@[i - cl - sl]);
                                if which != LinkList::PseudoElements {
                                    assert(links(ob)[ob.children@.len() + ob.shadow_roots@.len() + i - cl - sl] == c);
                                } else {
                                    assert(ks@[i - cl - sl] == c);
                                }
                            }
                        }
                    } else {
                        assert(links(after[j]) == links(before[j]));
                    }
                }
            }
        } else {
            proof {
                assert(!old(self).holds(key, stamp));
            }
        }
    }

    /// Store one node built from `d` under `parent`, with no links yet.
    fn insert_one(&mut self, d: &DomNode, parent: Option<u64>) -> (k: u64)
        requires
            old(self).wf(),
            old(self).nodes().len() + 1 < u32::MAX,
            old(self).clock() < u64::MAX,
            parent is Some ==> key_form(parent->0),
        ensures
            final(self).wf(),
            key_form(k),
            !old(self).nodes().contains_key(k),
            final(self).nodes() == old(self).nodes().insert(k, final(self).nodes()[k]),
            carries(final(self).nodes()[k], *d, parent),
            links(final(self).nodes()[k]).len() == 0,
            final(self).birth() == old(self).birth().insert(k, old(self).clock()),
            final(self).clock() == old(self).clock() + 1,
            final(self).ids() == old(self).ids(),
            final(self).backends() == old(self).backends(),
            final(self).root() == old(self).root(),
    {
        let attrs = parse_attributes(&d.attributes);
        let node = TreeNode {
            node_id: d.node_id,
            backend_node_id: d.backend_node_id,
            node_type: d.node_type,
            node_name: d.node_name.clone(),
            node_value: d.node_value.clone(),
            attributes: attrs,
            parent: parent,
            children: Vec::new(),
            shadow_roots: Vec::new(),
            pseudo_elements: Vec::new(),
            frame_id: copy_text(&d.frame_id),
            child_node_count: d.child_node_count,
        };
        let k = slot_insert(&mut self.nodes, node);
        self.stamps.insert(k, self.inserted);
        self.inserted = self.inserted + 1;
        proof {
            let before = old(self).nodes();
            let after = self.nodes();
            assert(links(after[k]) =~= Seq::<u64>::empty());
            assert(self.birth().dom() =~= after.dom());
            assert forall|j: u64| #[trigger] after.contains_key(j) implies stored_ok(after, self.birth(), self.clock(), j) by {
                if j != k {
                    assert(stored_ok(before, old(self).birth(), old(self).clock(), j));
                    assert forall|i: int| 0 <= i < links(after[j]).len() implies {
                        let c = #[trigger] links(after[j])[i];
                        key_form(c) && (after.contains_key(c) ==> self.birth().contains_key(c) && self.birth()[c] > self.birth()[j])
                    } by {
                        assert(links(after[j]) == links(before[j]));
                        let c = links(before[j])[i];
                        assert(key_form(c));
                    }
                } else {
                    assert(links(after[j]).len() == 0);
                }
            }
            assert(ordered(after, self.birth(), self.clock()));
            assert(self.ids() == old(self).ids());
            assert(self.backends() == old(self).backends());
            assert(after.dom().finite());
        }
        k
    }

    /// Store the node `d` under `parent`, with all it delivers, and map
    /// their ids; an earlier node with the same id is removed first.
    #[verifier::rlimit(100)]
    #[verifier::spinoff_prover]
    fn insert_node_recursive(&mut self, d: &DomNode, parent: Option<u64>) -> (k: u64)
        requires
            old(self).wf(),
            old(self).nodes().len() + preorder(*d).len() < u32::MAX,
            old(self).clock() + preorder(*d).len() <= u64::MAX,
            parent is Some ==> key_form(parent->0),
        ensures
            final(self).wf(),
            grown(*old(self), *final(self)),
            final(self).clock() == old(self).clock() + preorder(*d).len(),
            final(self).nodes().len() <= old(self).nodes().len() + preorder(*d).len(),
            key_form(k),
            !old(self).nodes().contains_key(k),
            final(self).nodes().contains_key(k) ==> final(self).birth()[k] >= old(self).clock(),
            fresh_for(*old(self), preorder(*d)) ==> {
                &&& extended(*old(self), *final(self), preorder(*d))
                &&& mirrors(final(self).nodes(), final(self).birth(), k, *d, parent, old(self).clock())
            },
            cleared(*old(self), *final(self), stale(*old(self), d.node_id)),
        decreases *d,
    {
        let ghost t0 = *self;
        let ghost s = stale(t0, d.node_id);
        let ghost chs = listed(d.children);
        let ghost shs = listed(d.shadow_roots);
        let ghost cds = content_order(*d);
        let ghost fresh = fresh_for(t0, preorder(*d));
        proof {
            assert(preorder(*d) == seq![*d] + preorder_list(chs) + preorder_list(shs) + cds);
            assert(preorder(*d) =~= seq![*d] + (preorder_list(chs) + (preorder_list(shs) + cds)));
        }
        let stamp = self.inserted;
        let key = self.insert_one(d, parent);
        let ghost t1 = *self;
        let ghost n1 = t1.nodes()[key];
        proof {
            lemma_grown_insert_one(t0, t1, key);
            if fresh {
                assert(preorder(*d)[0] == *d);
                assert(!t0.ids().contains_key(d.node_id));
            }
        }
        match self.id_map.get(&d.node_id) {
            Some(found) => {
                let found = *found;
                if found != key {
                    self.remove_subtree(found);
                    proof {
                        lemma_grown_removed(t1, *self, reach(t1.nodes(), found));
                        lemma_grown_trans(t0, t1, *self);
                        assert forall|j: u64| #[trigger] self.nodes().contains_key(j) && s.contains(j) implies self.birth()[j] >= t0.clock() by {
                            lemma_reach_insert(t0.nodes(), t1.nodes(), key, found, j);
                        }
                    }
                }
            },
            None => {},
        }
        self.id_map.insert(d.node_id, key);
        self.backend_map.insert(d.backend_node_id, key);
        let ghost t2 = *self;
        proof {
            assert(cleared(t0, t2, s));
            assert(t2.nodes().dom().subset_of(t1.nodes().dom()));
            vstd::set_lib::lemma_len_subset(t2.nodes().dom(), t1.nodes().dom());
            assert(t2.wf());
            if fresh {
                assert(t2.nodes() == t1.nodes());
                lemma_extended_one(t0, t2, *d, key);
                lemma_fresh_after(t0, t2, seq![*d], preorder_list(chs) + (preorder_list(shs) + cds));
                lemma_fresh_parts(t2, preorder_list(chs), preorder_list(shs) + cds);
                assert(t2.holds(key, stamp));
            }
        }
        match &d.children {
            Some(children) => {
                let ks = self.insert_list(children, key);
                let ghost mid = *self;
                proof {
                    lemma_grown_trans(t0, t2, mid);
                    if fresh {
                        lemma_extended_trans(t0, t2, mid, seq![*d], preorder_list(chs));
                        assert(mid.holds(key, stamp));
                    }
                }
                self.relink_if(key, stamp, LinkList::Children, ks);
                proof {
                    lemma_grown_relink(t0, mid, *self, key, stamp);
                    if fresh {
                        lemma_extended_relink(t0, mid, *self, seq![*d] + preorder_list(chs), key, stamp, LinkList::Children);
                        lemma_keeps_relink(mid, *self, key, stamp, t2.clock());
                        assert forall|i: int| 0 <= i < chs.len() implies mirrors(self.nodes(), self.birth(), self.nodes()[key].children@[i], #[trigger] chs[i], Some(key), t2.clock()) by {
                            lemma_mirrors_keep(mid, *self, ks@[i], chs[i], Some(key), t2.clock(), t2.clock());
                        }
                    }
                }
            },
            None => {
                proof {
                    if fresh {
                        assert(preorder_list(chs) =~= Seq::<DomNode>::empty());
                        assert(seq![*d] + preorder_list(chs) =~= seq![*d]);
                    }
                }
            },
        }
        let ghost t3 = *self;
        proof {
            assert(grown(t0, t3));
            assert(t3.clock() == t0.clock() + 1 + preorder_list(chs).len());
            assert(t3.nodes().len() <= t0.nodes().len() + 1 + preorder_list(chs).len());
            if fresh {
                assert(extended(t0, t3, seq![*d] + preorder_list(chs)));
                assert(t3.holds(key, stamp));
                assert(t3.nodes()[key] == (TreeNode { children: t3.nodes()[key].children, ..n1 }));
                assert(t3.nodes()[key].children@.len() == chs.len());
                assert(seq![*d] + preorder_list(chs) + (preorder_list(shs) + cds) =~= preorder(*d));
                lemma_fresh_after(t0, t3, seq![*d] + preorder_list(chs), preorder_list(shs) + cds);
                lemma_fresh_parts(t3, preorder_list(shs), cds);
            }
        }
        match &d.shadow_roots {
            Some(roots) => {
                let ks = self.insert_list(roots, key);
                let ghost mid = *self;
                proof {
                    lemma_grown_trans(t0, t3, mid);
                    if fresh {
                        lemma_extended_trans(t0, t3, mid, seq![*d] + preorder_list(chs), preorder_list(shs));
                        assert(mid.holds(key, stamp));
                        lemma_keeps_extended(t3, mid, preorder_list(shs), t2.clock());
                    }
                }
                self.relink_if(key, stamp, LinkList::ShadowRoots, ks);
                proof {
                    lemma_grown_relink(t0, mid, *self, key, stamp);
                    if fresh {
                        lemma_extended_relink(t0, mid, *self, seq![*d] + preorder_list(chs) + preorder_list(shs), key, stamp, LinkList::ShadowRoots);
                        lemma_keeps_relink(mid, *self, key, stamp, t2.clock());
                        lemma_keeps_trans(t3, mid, *self, t2.clock());
                        assert forall|i: int| 0 <= i < shs.len() implies mirrors(self.nodes(), self.birth(), self.nodes()[key].shadow_roots@[i], #[trigger] shs[i], Some(key), t2.clock()) by {
                            lemma_keeps_relink(mid, *self, key, stamp, t3.clock());
                            lemma_mirrors_keep(mid, *self, ks@[i], shs[i], Some(key), t3.clock(), t2.clock());
                        }
                    }
                }
            },
            None => {
                proof {
                    if fresh {
                        assert(preorder_list(shs) =~= Seq::<DomNode>::empty());
                        assert(seq![*d] + preorder_list(chs) + preorder_list(shs) =~= seq![*d] + preorder_list(chs));
                        lemma_keeps_refl(t3, t2.clock());
                    }
                }
            },
        }
        let ghost t4 = *self;
        proof {
            assert(grown(t0, t4));
            assert(t4.clock() == t0.clock() + 1 + preorder_list(chs).len() + preorder_list(shs).len());
            if fresh {
                assert(extended(t0, t4, seq![*d] + preorder_list(chs) + preorder_list(shs)));
                assert(t4.holds(key, stamp));
                assert(keeps(t3, t4, t2.clock()));
                assert(t4.nodes()[key] == (TreeNode { children: t3.nodes()[key].children, shadow_roots: t4.nodes()[key].shadow_roots, ..n1 }));
                assert(t4.nodes()[key].shadow_roots@.len() == shs.len());
                assert forall|i: int| 0 <= i < chs.len() implies mirrors(t4.nodes(), t4.birth(), t4.nodes()[key].children@[i], #[trigger] chs[i], Some(key), t2.clock()) by {
                    lemma_mirrors_keep(t3, t4, t3.nodes()[key].children@[i], chs[i], Some(key), t2.clock(), t2.clock());
                }
                assert(preorder(*d) =~= seq![*d] + preorder_list(chs) + preorder_list(shs) + cds);
                lemma_fresh_after(t0, t4, seq![*d] + preorder_list(chs) + preorder_list(shs), cds);
            }
        }
        match &d.content_document {
            Some(cd) => {
                let ck = self.insert_node_recursive(cd, Some(key));
                let ghost t5 = *self;
                proof {
                    lemma_grown_trans(t0, t4, t5);
                    if fresh {
                        assert(cds == preorder(**cd));
                        lemma_extended_trans(t0, t4, t5, seq![*d] + preorder_list(chs) + preorder_list(shs), cds);
                        assert(t5.holds(key, stamp));
                        lemma_keeps_extended(t4, t5, cds, t2.clock());
                    }
                }
                match self.current_list(key, stamp, LinkList::Children) {
                    Some(v) => {
                        let mut v = v;
                        proof {
                            assert(stored_ok(t5.nodes(), t5.birth(), t5.clock(), key));
                            assert forall|i: int| 0 <= i < v@.len() implies key_form(#[trigger] v@[i])
                                && (t5.nodes().contains_key(v@[i]) ==> t5.birth()[v@[i]] > stamp) by {
                                assert(links(t5.nodes()[key])[i] == v@[i]);
                            }
                        }
                        v.push(ck);
                        self.relink_if(key, stamp, LinkList::Children, v);
                        proof {
                            lemma_grown_relink(t0, t5, *self, key, stamp);
                            if fresh {
                                lemma_extended_relink(t0, t5, *self, preorder(*d), key, stamp, LinkList::Children);
                                lemma_keeps_relink(t5, *self, key, stamp, t2.clock());
                                lemma_keeps_trans(t4, t5, *self, t2.clock());
                                lemma_keeps_relink(t5, *self, key, stamp, t4.clock());
                                lemma_mirrors_keep(t5, *self, ck, **cd, Some(key), t4.clock(), t0.clock());
                                assert(self.nodes()[key].children@ == t3.nodes()[key].children@.push(ck));
                            }
                        }
                    },
                    None => {},
                }
            },
            None => {
                proof {
                    if fresh {
                        assert(cds =~= Seq::<DomNode>::empty());
                        assert(seq![*d] + preorder_list(chs) + preorder_list(shs) + cds =~= seq![*d] + preorder_list(chs) + preorder_list(shs));
                        lemma_keeps_refl(t4, t2.clock());
                    }
                }
            },
        }
        proof {
            if self.nodes().contains_key(key) {
                if self.birth()[key] < t0.clock() {
                    assert(t0.nodes().contains_key(key));
                }
            }
            if fresh {
                let t6 = *self;
                assert(extended(t0, t6, preorder(*d)));
                assert(keeps(t4, t6, t2.clock()));
                let nk = t6.nodes()[key];
                assert(carries(nk, *d, parent));
                assert forall|i: int| 0 <= i < chs.len() implies mirrors(t6.nodes(), t6.birth(), nk.children@[i], #[trigger] chs[i], Some(key), t0.clock()) by {
                    lemma_mirrors_keep(t4, t6, t4.nodes()[key].children@[i], chs[i], Some(key), t2.clock(), t0.clock());
                    assert(nk.children@[i] == t4.nodes()[key].children@[i]);
                }
                assert forall|i: int| 0 <= i < shs.len() implies mirrors(t6.nodes(), t6.birth(), nk.shadow_roots@[i], #[trigger] shs[i], Some(key), t0.clock()) by {
                    lemma_mirrors_keep(t4, t6, t4.nodes()[key].shadow_roots@[i], shs[i], Some(key), t2.clock(), t0.clock());
                }
                assert(mirrors(t6.nodes(), t6.birth(), key, *d, parent, t0.clock()));
            }
        }
        key
    }

    /// Store each node of `ds` under `parent`, in order, with all they
    /// deliver; the keys come back in the same order.
    #[verifier::rlimit(60)]
    #[verifier::spinoff_prover]
    fn insert_list(&mut self, ds: &Vec<DomNode>, parent: u64) -> (ks: Vec<u64>)
        requires
            old(self).wf(),
            key_form(parent),
            old(self).nodes().len() + preorder_list(ds@).len() < u32::MAX,
            old(self).clock() + preorder_list(ds@).len() <= u64::MAX,
        ensures
            final(self).wf(),
            grown(*old(self), *final(self)),
            final(self).clock() == old(self).clock() + preorder_list(ds@).len(),
            final(self).nodes().len() <= old(self).nodes().len() + preorder_list(ds@).len(),
            ks@.len() == ds@.len(),
            forall|i: int| 0 <= i < ks@.len() ==> key_form(#[trigger] ks@[i]),
            forall|i: int|
                0 <= i < ks@.len() && final(self).nodes().contains_key(#[trigger] ks@[i]) ==> final(self).birth()[ks@[i]]
                    >= old(self).clock(),
            fresh_for(*old(self), preorder_list(ds@)) ==> {
                &&& extended(*old(self), *final(self), preorder_list(ds@))
                &&& forall|i: int|
                    0 <= i < ds@.len() ==> mirrors(
                        final(self).nodes(),
                        final(self).birth(),
                        ks@[i],
                        #[trigger] ds@[i],
                        Some(parent),
                        old(self).clock(),
                    )
            },
        decreases ds,
    {
        let ghost t0 = *self;
        let mut ks: Vec<u64> = Vec::new();
        let mut i: usize = 0;
        proof {
            lemma_extended_refl(t0);
            assert(ds@.take(0) =~= Seq::<DomNode>::empty());
        }
        while i < ds.len()
            invariant
                0 <= i <= ds@.len(),
                self.wf(),
                t0 == *old(self),
                t0.wf(),
                key_form(parent),
                grown(t0, *self),
                t0.nodes().len() + preorder_list(ds@).len() < u32::MAX,
                t0.clock() + preorder_list(ds@).len() <= u64::MAX,
                self.clock() == t0.clock() + preorder_list(ds@.take(i as int)).len(),
                self.nodes().len() <= t0.nodes().len() + preorder_list(ds@.take(i as int)).len(),
                ks@.len() == i,
                forall|m: int| 0 <= m < ks@.len() ==> key_form(#[trigger] ks@[m]),
                forall|m: int|
                    0 <= m < ks@.len() && self.nodes().contains_key(#[trigger] ks@[m]) ==> self.birth()[ks@[m]]
                        >= t0.clock(),
                fresh_for(t0, preorder_list(ds@)) ==> {
                    &&& extended(t0, *self, preorder_list(ds@.take(i as int)))
                    &&& forall|m: int|
                        0 <= m < i ==> mirrors(self.nodes(), self.birth(), ks@[m], #[trigger] ds@[m], Some(parent), t0.clock())
                },
            decreases ds@.len() - i,
        {
            let ghost cur = *self;
            proof {
                lemma_preorder_list_split(ds@, i as int);
                lemma_preorder_list_front(ds@.skip(i as int));
                assert(ds@.skip(i as int)[0] == ds@[i as int]);
                lemma_preorder_list_split(ds@, i + 1);
                assert(ds@.take(i + 1).subrange(0, i as int) =~= ds@.take(i as int));
                assert(ds@.take(i + 1)[i as int] == ds@[i as int]);
                assert(preorder_list(ds@.take(i + 1)) == preorder_list(ds@.take(i as int)) + preorder(ds@[i as int]));
            }
            proof {
                if fresh_for(t0, preorder_list(ds@)) {
                    let a = preorder_list(ds@.take(i as int));
                    let b = preorder(ds@[i as int]);
                    let c = preorder_list(ds@.skip(i + 1));
                    assert(preorder_list(ds@) =~= a + (b + c));
                    lemma_fresh_after(t0, cur, a, b + c);
                    lemma_fresh_parts(cur, b, c);
                }
            }
            let k = self.insert_node_recursive(&ds[i], Some(parent));
            proof {
                if fresh_for(t0, preorder_list(ds@)) {
                    let a = preorder_list(ds@.take(i as int));
                    let b = preorder(ds@[i as int]);
                    lemma_extended_trans(t0, cur, *self, a, b);
                    assert(preorder_list(ds@.take(i + 1)) == a + b);
                    lemma_keeps_extended(cur, *self, b, t0.clock());
                    assert forall|m: int| 0 <= m < i implies mirrors(self.nodes(), self.birth(), ks@[m], #[trigger] ds@[m], Some(parent), t0.clock()) by {
                        lemma_mirrors_keep(cur, *self, ks@[m], ds@[m], Some(parent), t0.clock(), t0.clock());
                    }
                    lemma_keeps_refl(*self, cur.clock());
                    lemma_mirrors_keep(*self, *self, k, ds@[i as int], Some(parent), cur.clock(), t0.clock());
                }
                lemma_grown_trans(t0, cur, *self);
                assert forall|m: int| 0 <= m < ks@.len() && self.nodes().contains_key(#[trigger] ks@[m]) implies self.birth()[ks@[m]] >= t0.clock() by {
                    if self.birth()[ks@[m]] < cur.clock() {
                        assert(cur.nodes().contains_key(ks@[m]));
                    }
                }
            }
            ks.push(k);
            proof {
                assert(ks@[i as int] == k);
            }
            i = i + 1;
        }
        proof {
            assert(ds@.take(ds@.len() as int) =~= ds@);
        }
        ks
    }

    /// The insertion number of the node stored at `key`, if any.
    fn stamp_of(&self, key: u64) -> (r: Option<u64>)
        ensures
            match r {
                Some(st) => self.birth().contains_key(key) && self.birth()[key] == st,
                None => !self.birth().contains_key(key),
            },
    {
        match self.stamps.get(&key) {
            Some(st) => Some(*st),
            None => None,
        }
    }

    /// Store the node `d` under `pk`, then link it into the list `which` of
    /// `pk`, at the place `place`.
    fn attach(&mut self, pk: u64, d: &DomNode, which: LinkList, place: Placement)
        requires
            old(self).wf(),
            key_form(pk),
            old(self).nodes().len() + preorder(*d).len() < u32::MAX,
            old(self).clock() + preorder(*d).len() <= u64::MAX,
        ensures
            final(self).wf(),
            attached(*old(self), *final(self), pk, *d, which, place),
    {
        let ghost t0 = *self;
        let st = self.stamp_of(pk);
        let nk = self.insert_node_recursive(d, Some(pk));
        let ghost t1 = *self;
        match st {
            Some(stamp) => {
                proof {
                    assert(t0.nodes().contains_key(pk));
                    assert(stored_ok(t0.nodes(), t0.birth(), t0.clock(), pk));
                }
                match self.current_list(pk, stamp, which) {
                    Some(v) => {
                        let pos = place_index_of(&v, &place, &self.id_map);
                        let mut v = v;
                        proof {
                            assert(stored_ok(t1.nodes(), t1.birth(), t1.clock(), pk));
                            assert forall|i: int| 0 <= i < v@.len() implies key_form(#[trigger] v@[i])
                                && (t1.nodes().contains_key(v@[i]) ==> t1.birth()[v@[i]] > stamp) by {
                                lemma_list_in_links(t1.nodes()[pk], which, i);
                            }
                        }
                        v.insert(pos, nk);
                        proof {
                            let w = v@;
                            let u = list_of(t1.nodes()[pk], which);
                            u.insert_ensures(pos as int, nk);
                            assert forall|i: int| 0 <= i < w.len() implies key_form(#[trigger] w[i])
                                && (t1.nodes().contains_key(w[i]) ==> t1.birth()[w[i]] > stamp) by {
                                if i < pos {
                                    assert(w[i] == u[i]);
                                } else if i > pos {
                                    assert(w[i] == u[i - 1]);
                                }
                            }
                        }
                        self.relink_if(pk, stamp, which, v);
                        proof {
                            assert(t1.ids() == self.ids());
                            lemma_attach_done(t0, t1, *self, pk, *d, which, place, nk, stamp, pos as int);
                        }
                    },
                    None => {
                        proof {
                            lemma_attach_unheld(t0, t1, pk, *d, which, place);
                        }
                    },
                }
            },
            None => {
                proof {
                    lemma_attach_unheld(t0, t1, pk, *d, which, place);
                }
            },
        }
    }

    /// Set the root document node from a DOM.getDocument response: the tree
    /// is cleared and rebuilt from `node`.
    pub fn set_root(&mut self, node: DomNode)
        requires
            old(self).wf(),
            preorder(node).len() < u32::MAX,
            old(self).clock() + preorder(node).len() <= u64::MAX,
        ensures
            final(self).wf(),
            rooted(*old(self), *final(self), node),
    {
        self.clear();
        let ghost c = *self;
        proof {
            assert(c.nodes().len() == 0);
        }
        let key = self.insert_node_recursive(&node, None);
        let ghost t = *self;
        self.root = Some(key);
        proof {
            assert(self.nodes() == t.nodes() && self.ids() == t.ids() && self.backends() == t.backends());
            assert forall|j: u64| #[trigger] self.nodes().contains_key(j) implies self.birth()[j] >= old(self).clock() by {
                if self.birth()[j] < c.clock() {
                    assert(c.nodes().contains_key(j));
                }
            }
            if distinct_ids(preorder(node)) {
                assert(fresh_for(c, preorder(node)));
                assert(t.ids().dom() =~= id_set(preorder(node)));
                assert(t.backends().dom() =~= backend_set(preorder(node)));
                assert forall|x: i64| #[trigger] id_set(preorder(node)).contains(x) implies self.lookup(x) is Some
                    && self.nodes()[self.ids()[x]].node_id == x by {
                    assert(is_new(c, t, t.ids()[x]));
                }
                assert forall|b: i64| #[trigger] backend_set(preorder(node)).contains(b) implies self.nodes().contains_key(self.backends()[b])
                    && self.nodes()[self.backends()[b]].backend_node_id == b by {
                    assert(is_new(c, t, t.backends()[b]));
                }
            }
        }
    }

    /// Insert a child node (from DOM.childNodeInserted event): after the
    /// child `previous_node_id`, or first when that id is 0.
    pub fn insert_child(&mut self, parent_node_id: i64, previous_node_id: i64, node: DomNode)
        requires
            old(self).wf(),
            old(self).nodes().len() + preorder(node).len() < u32::MAX,
            old(self).clock() + preorder(node).len() <= u64::MAX,
        ensures
            final(self).wf(),
            !old(self).ids().contains_key(parent_node_id) ==> same_tree(*old(self), *final(self)),
            old(self).ids().contains_key(parent_node_id) ==> attached(
                *old(self),
                *final(self),
                old(self).ids()[parent_node_id],
                node,
                LinkList::Children,
                Placement::After(previous_node_id),
            ),
    {
        match self.id_map.get(&parent_node_id) {
            Some(pk) => {
                let pk = *pk;
                proof {
                    assert(self.ids().contains_key(parent_node_id));
                }
                self.attach(pk, &node, LinkList::Children, Placement::After(previous_node_id));
            },
            None => {},
        }
    }

    /// Add a shadow root to a host element.
    pub fn add_shadow_root(&mut self, host_id: i64, root: DomNode)
        requires
            old(self).wf(),
            old(self).nodes().len() + preorder(root).len() < u32::MAX,
            old(self).clock() + preorder(root).len() <= u64::MAX,
        ensures
            final(self).wf(),
            !old(self).ids().contains_key(host_id) ==> same_tree(*old(self), *final(self)),
            old(self).ids().contains_key(host_id) ==> attached(
                *old(self),
                *final(self),
                old(self).ids()[host_id],
                root,
                LinkList::ShadowRoots,
                Placement::Back,
            ),
    {
        match self.id_map.get(&host_id) {
            Some(hk) => {
                let hk = *hk;
                proof {
                    assert(self.ids().contains_key(host_id));
                }
                self.attach(hk, &root, LinkList::ShadowRoots, Placement::Back);
            },
            None => {},
        }
    }

    /// Add a pseudo element.
    pub fn add_pseudo_element(&mut self, parent_id: i64, pseudo: DomNode)
        requires
            old(self).wf(),
            old(self).nodes().len() + preorder(pseudo).len() < u32::MAX,
            old(self).clock() + preorder(pseudo).len() <= u64::MAX,
        ensures
            final(self).wf(),
            !old(self).ids().contains_key(parent_id) ==> same_tree(*old(self), *final(self)),
            old(self).ids().contains_key(parent_id) ==> attached(
                *old(self),
                *final(self),
                old(self).ids()[parent_id],
                pseudo,
                LinkList::PseudoElements,
                Placement::Back,
            ),
    {
        match self.id_map.get(&parent_id) {
            Some(pk) => {
                let pk = *pk;
                proof {
                    assert(self.ids().contains_key(parent_id));
                }
                self.attach(pk, &pseudo, LinkList::PseudoElements, Placement::Back);
            },
            None => {},
        }
    }

    /// Remove a child node (from DOM.childNodeRemoved event), with all it reaches.
    pub fn remove_child(&mut self, parent_node_id: i64, node_id: i64)
        requires
            old(self).wf(),
        ensures
            final(self).wf(),
            detached(*old(self), *final(self), parent_node_id, node_id, LinkList::Children),
    {
        self.detach(parent_node_id, node_id, LinkList::Children);
    }

    /// Remove a shadow root from a host element, with all it reaches.
    pub fn remove_shadow_root(&mut self, host_id: i64, root_node_id: i64)
        requires
            old(self).wf(),
        ensures
            final(self).wf(),
            detached(*old(self), *final(self), host_id, root_node_id, LinkList::ShadowRoots),
    {
        self.detach(host_id, root_node_id, LinkList::ShadowRoots);
    }

    /// Remove a pseudo element, with all it reaches.
    pub fn remove_pseudo_element(&mut self, parent_id: i64, pseudo_node_id: i64)
        requires
            old(self).wf(),
        ensures
            final(self).wf(),
            detached(*old(self), *final(self), parent_id, pseudo_node_id, LinkList::PseudoElements),
    {
        self.detach(parent_id, pseudo_node_id, LinkList::PseudoElements);
    }

    /// Set the children of a node (from the DOM.setChildNodes event): what
    /// its old children reached is removed, then the nodes of `children`
    /// are stored under it and become its children.
    pub fn set_children(&mut self, parent_id: i64, children: Vec<DomNode>)
        requires
            old(self).wf(),
            old(self).nodes().len() + preorder_list(children@).len() < u32::MAX,
            old(self).clock() + preorder_list(children@).len() <= u64::MAX,
        ensures
            final(self).wf(),
            !old(self).ids().contains_key(parent_id) ==> same_tree(*old(self), *final(self)),
            old(self).ids().contains_key(parent_id) ==> children_replaced(
                *old(self),
                *final(self),
                old(self).ids()[parent_id],
                children@,
            ),
    {
        match self.id_map.get(&parent_id) {
            Some(pk) => {
                let pk = *pk;
                let ghost t0 = *self;
                let ghost gone = if t0.nodes().contains_key(pk) {
                    reach_all(t0.nodes(), t0.nodes()[pk].children@)
                } else {
                    Set::empty()
                };
                proof {
                    assert(self.ids().contains_key(parent_id));
                }
                let st = self.stamp_of(pk);
                match st {
                    Some(stamp) => {
                        proof {
                            assert(t0.nodes().contains_key(pk));
                            assert(stored_ok(t0.nodes(), t0.birth(), t0.clock(), pk));
                        }
                        match self.current_list(pk, stamp, LinkList::Children) {
                            Some(olds) => {
                                proof {
                                    assert forall|i: int| 0 <= i < olds@.len() implies key_form(#[trigger] olds@[i])
                                        && (t0.nodes().contains_key(olds@[i]) ==> t0.birth()[olds@[i]] > stamp) by {
                                        lemma_list_in_links(t0.nodes()[pk], LinkList::Children, i);
                                        let m = choose|m: int| 0 <= m < links(t0.nodes()[pk]).len() && links(t0.nodes()[pk])[m] == olds@[i];
                                        assert(links(t0.nodes()[pk])[m] == olds@[i]);
                                    }
                                }
                                self.remove_each(&olds, Ghost(stamp));
                            },
                            None => {},
                        }
                    },
                    None => {
                        proof {
                            assert(self.nodes().remove_keys(Set::empty()) =~= self.nodes());
                            assert(ids_of(self.nodes(), Set::empty()) =~= Set::empty());
                            assert(backend_ids_of(self.nodes(), Set::empty()) =~= Set::empty());
                            assert(self.ids().remove_keys(Set::empty()) =~= self.ids());
                            assert(self.backends().remove_keys(Set::empty()) =~= self.backends());
                            assert(self.birth().remove_keys(Set::empty()) =~= self.birth());
                        }
                    },
                }
                let ghost t1 = *self;
                proof {
                    assert(removed(t0, t1, gone));
                    lemma_gone_subset(t0, pk);
                    assert(t1.nodes().dom() =~= t0.nodes().dom().difference(gone));
                    vstd::set_lib::lemma_len_subset(t1.nodes().dom(), t0.nodes().dom());
                }
                let ks = self.insert_list(&children, pk);
                let ghost t2 = *self;
                match st {
                    Some(stamp) => {
                        proof {
                            assert forall|i: int| 0 <= i < ks@.len() && t2.nodes().contains_key(#[trigger] ks@[i]) implies t2.birth()[ks@[i]] > stamp by {
                                assert(t2.birth()[ks@[i]] >= t1.clock());
                            }
                        }
                        self.relink_if(pk, stamp, LinkList::Children, ks);
                    },
                    None => {},
                }
                proof {
                    lemma_children_replaced(t0, t1, t2, *self, pk, children@, ks@, st, gone);
                }
            },
            None => {},
        }
    }

    /// Render the tree as indented text (for debugging/compatibility).
    pub fn render(&self) -> (r: String)
        requires
            self.wf(),
        ensures
            r@ == match self.root() {
                Some(k) => rendered(self.nodes(), self.birth(), self.clock(), k, 0),
                None => Seq::empty(),
            },
    {
        let mut output = String::new();
        match self.root {
            Some(root) => {
                self.render_node(root, 0, &mut output);
                proof {
                    assert(Seq::<char>::empty() + rendered(self.nodes(), self.birth(), self.clock(), root, 0)
                        =~= rendered(self.nodes(), self.birth(), self.clock(), root, 0));
                }
            },
            None => {},
        }
        output
    }

    /// Append the rendering of the node `key` and what it links to.
    fn render_node(&self, key: u64, depth: u64, output: &mut String)
        requires
            self.wf(),
            key_form(key),
            self.nodes().contains_key(key) ==> depth + (self.clock() - self.birth()[key]) <= u64::MAX,
        ensures
            final(output)@ == old(output)@ + rendered(self.nodes(), self.birth(), self.clock(), key, depth as nat),
        decreases (if self.nodes().contains_key(key) { self.clock() - self.birth()[key] } else { 0 }), 1int,
    {
        match slot_get(&self.nodes, key) {
            Some(node) => {
                let ghost start = output@;
                proof {
                    assert(stored_ok(self.nodes(), self.birth(), self.clock(), key));
                }
                if node.node_type == 1 {
                    push_indent(output, depth);
                    push_text(output, "<");
                    let lower = lower_text(node.node_name.as_str());
                    push_text(output, lower.as_str());
                    push_text(output, ">\n");
                    proof {
                        reveal_strlit("<");
                        reveal_strlit(">\n");
                    }
                } else if node.node_type == 3 {
                    let text = trim_text(node.node_value.as_str());
                    if !text.is_empty() {
                        push_indent(output, depth);
                        push_text(output, "\"");
                        push_text(output, text);
                        push_text(output, "\"\n");
                        proof {
                            reveal_strlit("\"");
                            reveal_strlit("\"\n");
                        }
                    }
                } else if node.node_type == 9 || node.node_type == 11 {
                    push_indent(output, depth);
                    push_text(output, "#document\n");
                    proof {
                        reveal_strlit("#document\n");
                    }
                }
                proof {
                    assert(output@ =~= start + render_line(*node, depth as nat));
                }
                let ghost mid = output@;
                let mut i: usize = 0;
                while i < node.children.len()
                    invariant
                        self.wf(),
                        self.nodes().contains_key(key),
                        *node == self.nodes()[key],
                        stored_ok(self.nodes(), self.birth(), self.clock(), key),
                        depth + (self.clock() - self.birth()[key]) <= u64::MAX,
                        i <= node.children@.len(),
                        output@ == mid + rendered_list(self.nodes(), self.birth(), self.clock(), node.children@.take(i as int), (depth + 1) as nat, self.birth()[key]),
                    decreases node.children@.len() - i,
                {
                    let c = node.children[i];
                    proof {
                        lemma_list_in_links(*node, LinkList::Children, i as int);
                        let m = choose|m: int| 0 <= m < links(*node).len() && links(*node)[m] == c;
                        assert(links(self.nodes()[key])[m] == c);
                        assert(node.children@.take(i + 1).drop_last() =~= node.children@.take(i as int));
                        assert(node.children@.take(i + 1).last() == c);
                    }
                    self.render_node(c, depth + 1, output);
                    i = i + 1;
                }
                proof {
                    assert(node.children@.take(node.children@.len() as int) =~= node.children@);
                }
                let ghost mid2 = output@;
                let mut i: usize = 0;
                while i < node.shadow_roots.len()
                    invariant
                        self.wf(),
                        self.nodes().contains_key(key),
                        *node == self.nodes()[key],
                        stored_ok(self.nodes(), self.birth(), self.clock(), key),
                        depth + (self.clock() - self.birth()[key]) <= u64::MAX,
                        i <= node.shadow_roots@.len(),
                        output@ == mid2 + rendered_list(self.nodes(), self.birth(), self.clock(), node.shadow_roots@.take(i as int), (depth + 1) as nat, self.birth()[key]),
                    decreases node.shadow_roots@.len() - i,
                {
                    let c = node.shadow_roots[i];
                    proof {
                        lemma_list_in_links(*node, LinkList::ShadowRoots, i as int);
                        let m = choose|m: int| 0 <= m < links(*node).len() && links(*node)[m] == c;
                        assert(links(self.nodes()[key])[m] == c);
                        assert(node.shadow_roots@.take(i + 1).drop_last() =~= node.shadow_roots@.take(i as int));
                        assert(node.shadow_roots@.take(i + 1).last() == c);
                    }
                    self.render_node(c, depth + 1, output);
                    i = i + 1;
                }
                proof {
                    assert(node.shadow_roots@.take(node.shadow_roots@.len() as int) =~= node.shadow_roots@);
                }
            },
            None => {
                proof {
                    assert(old(output)@ + Seq::<char>::empty() =~= old(output)@);
                }
            },
        }
    }

    /// Set an attribute on a node.
    pub fn set_attribute(&mut self, node_id: i64, name: &str, value: &str)
        requires
            old(self).wf(),
        ensures
            final(self).wf(),
            attribute_set(*old(self), *final(self), node_id, name@, value@),
    {
        match self.resolve(node_id) {
            Some(k) => {
                let node = slot_get_mut(&mut self.nodes, k);
                node.attributes.insert(owned(name), owned(value));
                proof {
                    lemma_replace_node(*old(self), *self, k);
                }
            },
            None => {},
        }
    }

    /// Remove an attribute from a node.
    pub fn remove_attribute(&mut self, node_id: i64, name: &str)
        requires
            old(self).wf(),
        ensures
            final(self).wf(),
            attribute_removed(*old(self), *final(self), node_id, name@),
    {
        match self.resolve(node_id) {
            Some(k) => {
                let node = slot_get_mut(&mut self.nodes, k);
                node.attributes.remove(name);
                proof {
                    lemma_replace_node(*old(self), *self, k);
                }
            },
            None => {},
        }
    }

    /// Set character data for a text node.
    pub fn set_character_data(&mut self, node_id: i64, data: &str)
        requires
            old(self).wf(),
        ensures
            final(self).wf(),
            text_set(*old(self), *final(self), node_id, data@),
    {
        match self.resolve(node_id) {
            Some(k) => {
                let node = slot_get_mut(&mut self.nodes, k);
                node.node_value = owned(data);
                proof {
                    lemma_replace_node(*old(self), *self, k);
                }
            },
            None => {},
        }
    }

    /// Update child count (from DOM.childNodeCountUpdated).
    pub fn update_child_count(&mut self, node_id: i64, count: i32)
        requires
            old(self).wf(),
        ensures
            final(self).wf(),
            count_set(*old(self), *final(self), node_id, count),
    {
        match self.resolve(node_id) {
            Some(k) => {
                let node = slot_get_mut(&mut self.nodes, k);
                node.child_node_count = Some(count);
                proof {
                    lemma_replace_node(*old(self), *self, k);
                }
            },
            None => {},
        }
    }
}

/// `after` follows `before` through insertions and removals only: every
/// stored node numbered below `before`'s clock was stored in `before`,
/// unchanged and with the same number.
pub open spec fn grown(before: LiveDomTree, after: LiveDomTree) -> bool {
    &&& before.clock() <= after.clock()
    &&& after.root() == before.root()
    &&& forall|j: u64|
        #[trigger] after.nodes().contains_key(j) && after.birth()[j] < before.clock() ==> {
            &&& before.nodes().contains_key(j)
            &&& after.nodes()[j] == before.nodes()[j]
            &&& before.birth()[j] == after.birth()[j]
        }
}

proof fn lemma_grown_trans(a: LiveDomTree, b: LiveDomTree, c: LiveDomTree)
    requires
        grown(a, b),
        grown(b, c),
        c.wf(),
    ensures
        grown(a, c),
{
    assert forall|j: u64| #[trigger] c.nodes().contains_key(j) && c.birth()[j] < a.clock() implies {
        &&& a.nodes().contains_key(j)
        &&& c.nodes()[j] == a.nodes()[j]
        &&& a.birth()[j] == c.birth()[j]
    } by {
        assert(b.nodes().contains_key(j));
    }
}

proof fn lemma_grown_removed(a: LiveDomTree, b: LiveDomTree, gone: Set<u64>)
    requires
        a.wf(),
        removed(a, b, gone),
    ensures
        grown(a, b),
{
    assert forall|j: u64| #[trigger] b.nodes().contains_key(j) && b.birth()[j] < a.clock() implies {
        &&& a.nodes().contains_key(j)
        &&& b.nodes()[j] == a.nodes()[j]
        &&& a.birth()[j] == b.birth()[j]
    } by {
        assert(!gone.contains(j));
        assert(a.nodes().contains_key(j));
    }
}

/// Changing the links of a node numbered at or after `t0`'s clock keeps
/// what `t0` had.
proof fn lemma_grown_relink(t0: LiveDomTree, a: LiveDomTree, b: LiveDomTree, key: u64, stamp: u64)
    requires
        grown(t0, a),
        a.wf(),
        stamp >= t0.clock(),
        unchanged_maps(a, b),
        a.holds(key, stamp) ==> same_except(a.nodes(), b.nodes(), key),
        !a.holds(key, stamp) ==> b.nodes() == a.nodes(),
    ensures
        grown(t0, b),
{
    assert forall|j: u64| #[trigger] b.nodes().contains_key(j) && b.birth()[j] < t0.clock() implies {
        &&& t0.nodes().contains_key(j)
        &&& b.nodes()[j] == t0.nodes()[j]
        &&& t0.birth()[j] == b.birth()[j]
    } by {
        assert(a.nodes().contains_key(j));
    }
}

proof fn lemma_grown_insert_one(a: LiveDomTree, b: LiveDomTree, k: u64)
    requires
        a.wf(),
        !a.nodes().contains_key(k),
        b.nodes() == a.nodes().insert(k, b.nodes()[k]),
        b.birth() == a.birth().insert(k, a.clock()),
        b.clock() == a.clock() + 1,
        b.root() == a.root(),
    ensures
        grown(a, b),
{
}

proof fn lemma_keeps_extended(a: LiveDomTree, b: LiveDomTree, p: Seq<DomNode>, lo: u64)
    requires
        extended(a, b, p),
        b.wf(),
    ensures
        keeps(a, b, lo),
{
    assert forall|j: u64| #[trigger] a.nodes().contains_key(j) && a.birth().contains_key(j) && a.birth()[j] >= lo implies b.nodes().contains_key(j)
        && b.nodes()[j] == a.nodes()[j] && b.birth().contains_key(j) && b.birth()[j] == a.birth()[j] by {
        assert(b.nodes().contains_key(j));
    }
}

proof fn lemma_keeps_relink(a: LiveDomTree, b: LiveDomTree, key: u64, stamp: u64, lo: u64)
    requires
        a.wf(),
        unchanged_maps(a, b),
        a.holds(key, stamp) ==> same_except(a.nodes(), b.nodes(), key),
        !a.holds(key, stamp) ==> b.nodes() == a.nodes(),
        stamp < lo,
    ensures
        keeps(a, b, lo),
{
    assert forall|j: u64| #[trigger] a.nodes().contains_key(j) && a.birth().contains_key(j) && a.birth()[j] >= lo implies b.nodes().contains_key(j)
        && b.nodes()[j] == a.nodes()[j] && b.birth().contains_key(j) && b.birth()[j] == a.birth()[j] by {
        if a.holds(key, stamp) {
            assert(j != key);
            assert(b.nodes().contains_key(j));
        }
    }
}

/// Storing one fresh node for `d` and mapping its ids adds `d`.
proof fn lemma_extended_one(t0: LiveDomTree, t2: LiveDomTree, d: DomNode, key: u64)
    requires
        t0.wf(),
        !t0.nodes().contains_key(key),
        t2.nodes() == t0.nodes().insert(key, t2.nodes()[key]),
        t2.nodes()[key].node_id == d.node_id,
        t2.nodes()[key].backend_node_id == d.backend_node_id,
        t2.birth() == t0.birth().insert(key, t0.clock()),
        t2.clock() == t0.clock() + 1,
        t2.root() == t0.root(),
        !t0.ids().contains_key(d.node_id),
        t2.ids() == t0.ids().insert(d.node_id, key),
        t2.backends() == t0.backends().insert(d.backend_node_id, key),
    ensures
        extended(t0, t2, seq![d]),
{
    let p = seq![d];
    assert(id_set(p) =~= set![d.node_id]) by {
        assert(p[0].node_id == d.node_id);
    }
    assert(backend_set(p) =~= set![d.backend_node_id]) by {
        assert(p[0].backend_node_id == d.backend_node_id);
    }
    assert(t2.ids().dom() =~= t0.ids().dom().union(id_set(p)));
    assert(t2.backends().dom() =~= t0.backends().dom().union(backend_set(p)));
    assert(t2.nodes().dom() =~= t0.nodes().dom().insert(key));
    assert forall|x: i64| #[trigger] id_set(p).contains(x) implies is_new(t0, t2, t2.ids()[x]) && t2.nodes()[t2.ids()[x]].node_id == x by {
        assert(x == d.node_id);
    }
    assert forall|bk: i64| #[trigger] backend_set(p).contains(bk) implies is_new(t0, t2, t2.backends()[bk])
        && t2.nodes()[t2.backends()[bk]].backend_node_id == bk by {
        assert(bk == d.backend_node_id);
    }
}

proof fn lemma_keeps_refl(a: LiveDomTree, lo: u64)
    ensures
        keeps(a, a, lo),
{
}

proof fn lemma_extended_refl(t: LiveDomTree)
    requires
        t.wf(),
    ensures
        extended(t, t, Seq::empty()),
{
    assert(id_set(Seq::empty()) =~= Set::<i64>::empty());
    assert(backend_set(Seq::empty()) =~= Set::<i64>::empty());
    assert(t.ids().dom().union(Set::empty()) =~= t.ids().dom());
    assert(t.backends().dom().union(Set::empty()) =~= t.backends().dom());
}

proof fn lemma_keeps_trans(a: LiveDomTree, b: LiveDomTree, c: LiveDomTree, lo: u64)
    requires
        keeps(a, b, lo),
        keeps(b, c, lo),
    ensures
        keeps(a, c, lo),
{
    assert forall|j: u64| #[trigger] a.nodes().contains_key(j) && a.birth().contains_key(j) && a.birth()[j] >= lo implies c.nodes().contains_key(j)
        && c.nodes()[j] == a.nodes()[j] && c.birth().contains_key(j) && c.birth()[j] == a.birth()[j] by {
        assert(b.nodes().contains_key(j));
    }
}

proof fn lemma_mirrors_keep(a: LiveDomTree, b: LiveDomTree, k: u64, d: DomNode, parent: Option<u64>, lo: u64, lo2: u64)
    requires
        mirrors(a.nodes(), a.birth(), k, d, parent, lo),
        keeps(a, b, lo),
        lo2 <= lo,
    ensures
        mirrors(b.nodes(), b.birth(), k, d, parent, lo2),
{
    lemma_mirrors_frame(a.nodes(), a.birth(), b.nodes(), b.birth(), k, d, parent, lo, lo2);
}

/// Changing the links of a node added since `a` keeps `a`'s extension.
proof fn lemma_extended_relink(
    a: LiveDomTree,
    b: LiveDomTree,
    c: LiveDomTree,
    p: Seq<DomNode>,
    key: u64,
    stamp: u64,
    which: LinkList,
)
    requires
        extended(a, b, p),
        !a.nodes().contains_key(key),
        b.wf(),
        unchanged_maps(b, c),
        b.holds(key, stamp) ==> same_except(b.nodes(), c.nodes(), key) && list_replaced(b.nodes()[key], c.nodes()[key], which),
        !b.holds(key, stamp) ==> c.nodes() == b.nodes(),
    ensures
        extended(a, c, p),
{
    assert(c.nodes().dom() =~= b.nodes().dom());
    assert forall|j: u64| #[trigger] a.nodes().contains_key(j) implies c.nodes().contains_key(j) && c.nodes()[j] == a.nodes()[j]
        && c.birth()[j] == a.birth()[j] by {
        assert(b.nodes().contains_key(j));
    }
    assert forall|j: u64| #[trigger] is_new(a, c, j) implies c.birth()[j] >= a.clock() by {
        assert(is_new(a, b, j));
    }
    assert forall|x: i64| #[trigger] id_set(p).contains(x) implies is_new(a, c, c.ids()[x]) && c.nodes()[c.ids()[x]].node_id == x by {
        assert(is_new(a, b, b.ids()[x]));
    }
    assert forall|bk: i64| #[trigger] backend_set(p).contains(bk) implies is_new(a, c, c.backends()[bk])
        && c.nodes()[c.backends()[bk]].backend_node_id == bk by {
        assert(is_new(a, b, b.backends()[bk]));
    }
}

/// The live node `n` carries the fields of the DOM node `d` and hangs under
/// `parent`.
pub open spec fn carries(n: TreeNode, d: DomNode, parent: Option<u64>) -> bool {
    &&& n.node_id == d.node_id
    &&& n.backend_node_id == d.backend_node_id
    &&& n.node_type == d.node_type
    &&& n.node_name == d.node_name
    &&& n.node_value == d.node_value
    &&& n.attributes@ == attr_map(d.attributes)
    &&& n.parent == parent
    &&& n.frame_id == d.frame_id
    &&& n.child_node_count == d.child_node_count
}

/// After a node is removed, its id finds nothing in the tree.
pub proof fn law_removed_id_not_found(b: LiveDomTree, a: LiveDomTree, parent_node_id: i64, node_id: i64, which: LinkList)
    requires
        b.wf(),
        b.ids().contains_key(node_id),
        detached(b, a, parent_node_id, node_id, which),
    ensures
        a.lookup(node_id) is None,
{
    let nk = b.ids()[node_id];
    let gone = reach(b.nodes(), nk);
    if b.nodes().contains_key(nk) {
        let p = seq![nk];
        assert(walk_between(b.nodes(), p, nk, nk));
        assert(gone.contains(nk));
        assert(!a.nodes().contains_key(nk));
    } else {
        lemma_reach_unstored(b.nodes(), nk);
        assert(!a.nodes().dom().contains(nk));
    }
}

/// After a subtree with fresh ids is attached, each of its ids finds the
/// node that carries it.
pub proof fn law_attached_ids_found(b: LiveDomTree, a: LiveDomTree, pk: u64, d: DomNode, which: LinkList, place: Placement, x: i64)
    requires
        attached(b, a, pk, d, which, place),
        fresh_for(b, preorder(d)),
        id_set(preorder(d)).contains(x),
    ensures
        a.lookup(x) matches Some(k) && a.nodes()[k].node_id == x,
{
    assert(is_new(b, a, a.ids()[x]));
    assert(a.ids().contains_key(x));
}

/// Reading a node back after setting one of its attributes finds the value
/// written, under the same node id; a node id that found nothing still finds
/// nothing.
pub proof fn law_attribute_read_back(b: LiveDomTree, a: LiveDomTree, node_id: i64, name: Seq<char>, value: Seq<char>)
    requires
        attribute_set(b, a, node_id, name, value),
    ensures
        a.lookup(node_id) == b.lookup(node_id),
        a.lookup(node_id) matches Some(k) ==> a.nodes()[k].attributes@.contains_key(name)
            && a.nodes()[k].attributes@[name]@ == value,
{
}

/// After an attribute is removed, the node no longer carries it.
pub proof fn law_removed_attribute_absent(b: LiveDomTree, a: LiveDomTree, node_id: i64, name: Seq<char>)
    requires
        attribute_removed(b, a, node_id, name),
    ensures
        a.lookup(node_id) == b.lookup(node_id),
        a.lookup(node_id) matches Some(k) ==> !a.nodes()[k].attributes@.contains_key(name),
{
}

/// Reading a node back after setting its text finds the text written.
pub proof fn law_text_read_back(b: LiveDomTree, a: LiveDomTree, node_id: i64, data: Seq<char>)
    requires
        text_set(b, a, node_id, data),
    ensures
        a.lookup(node_id) == b.lookup(node_id),
        a.lookup(node_id) matches Some(k) ==> a.nodes()[k].node_value@ == data,
{
}

/// A node delivered with an id that already names a stored node replaces
/// it: the earlier node and everything it reached are gone, and whatever
/// sits at their keys afterwards was inserted by the call.
pub proof fn law_reinserted_id_replaces(
    b: LiveDomTree,
    a: LiveDomTree,
    pk: u64,
    d: DomNode,
    which: LinkList,
    place: Placement,
    j: u64,
)
    requires
        attached(b, a, pk, d, which, place),
        b.lookup(d.node_id) matches Some(ok) && reach(b.nodes(), ok).contains(j),
    ensures
        a.nodes().contains_key(j) ==> a.birth()[j] >= b.clock(),
        b.lookup(d.node_id) matches Some(ok) ==> (a.nodes().contains_key(ok) ==> a.birth()[ok] >= b.clock()),
{
    let ok = b.lookup(d.node_id)->0;
    lemma_reach_unfold(b.nodes(), ok);
    assert(reach(b.nodes(), ok).contains(ok));
}

impl Default for LiveDomTree {
    fn default() -> (t: Self)
        ensures
            t.wf(),
            t.nodes() == Map::<u64, TreeNode>::empty(),
            t.ids() == Map::<i64, u64>::empty(),
            t.backends() == Map::<i64, u64>::empty(),
            t.root() is None,
    {
        Self::new()
    }
}

/// The line a node renders to at `depth`: elements as their lowercase tag,
/// texts as their trimmed content in quotes (nothing when that is empty),
/// documents and fragments as `#document`; other nodes render nothing.
pub open spec fn render_line(n: TreeNode, depth: nat) -> Seq<char> {
    let indent = spaces(2 * depth);
    if n.node_type == 1 {
        indent + seq!['<'] + lowercase(n.node_name@) + seq!['>', '\n']
    } else if n.node_type == 3 {
        let t = trimmed(n.node_value@);
        if t.len() == 0 {
            Seq::empty()
        } else {
            indent + seq!['"'] + t + seq!['"', '\n']
        }
    } else if n.node_type == 9 || n.node_type == 11 {
        indent + seq!['#', 'd', 'o', 'c', 'u', 'm', 'e', 'n', 't', '\n']
    } else {
        Seq::empty()
    }
}

/// The rendering of the node `k` at `depth`: its line, then its children and
/// then its shadow roots, one level deeper.
pub open spec fn rendered(nodes: Map<u64, TreeNode>, birth: Map<u64, u64>, clock: u64, k: u64, depth: nat) -> Seq<char>
    decreases clock - birth[k], 1int, 0int,
{
    if nodes.contains_key(k) && birth.contains_key(k) && birth[k] < clock {
        render_line(nodes[k], depth) + rendered_list(nodes, birth, clock, nodes[k].children@, depth + 1, birth[k])
            + rendered_list(nodes, birth, clock, nodes[k].shadow_roots@, depth + 1, birth[k])
    } else {
        Seq::empty()
    }
}

/// The renderings of the nodes `ks`, in order; each is younger than `top`.
pub open spec fn rendered_list(
    nodes: Map<u64, TreeNode>,
    birth: Map<u64, u64>,
    clock: u64,
    ks: Seq<u64>,
    depth: nat,
    top: u64,
) -> Seq<char>
    decreases clock - top, 0int, ks.len(),
{
    if ks.len() == 0 {
        Seq::empty()
    } else {
        let c = ks[ks.len() - 1];
        rendered_list(nodes, birth, clock, ks.subrange(0, ks.len() - 1), depth, top) + if nodes.contains_key(c)
            && birth.contains_key(c) && top < birth[c] < clock {
            rendered(nodes, birth, clock, c, depth)
        } else {
            Seq::empty()
        }
    }
}

/// The trees hold the same nodes, ids and root.
pub open spec fn same_tree(a: LiveDomTree, b: LiveDomTree) -> bool {
    &&& b.nodes() == a.nodes()
    &&& b.ids() == a.ids()
    &&& b.backends() == a.backends()
    &&& b.root() == a.root()
}

/// `after` is `before` after the children of `pk` were replaced by the
/// nodes `ds`. When `pk` is stored, everything its children reached is
/// removed first, with their ids. Nodes numbered before, other than `pk`,
/// were at most removed. When the ids `ds` deliver are distinct and not
/// mapped once the old children are gone, exactly the old children's nodes
/// were removed, the nodes of `ds` were added, and the children of `pk`
/// are the nodes mirroring `ds`, in order.
pub open spec fn children_replaced(before: LiveDomTree, after: LiveDomTree, pk: u64, ds: Seq<DomNode>) -> bool {
    let gone = if before.nodes().contains_key(pk) {
        reach_all(before.nodes(), before.nodes()[pk].children@)
    } else {
        Set::empty()
    };
    let p = preorder_list(ds);
    let ids_left = before.ids().remove_keys(ids_of(before.nodes(), gone));
    let backends_left = before.backends().remove_keys(backend_ids_of(before.nodes(), gone));
    &&& after.root() == before.root()
    &&& forall|j: u64|
        #[trigger] after.nodes().contains_key(j) && after.birth()[j] < before.clock() && j != pk ==> before.nodes().contains_key(
            j,
        ) && !gone.contains(j) && after.nodes()[j] == before.nodes()[j]
    &&& distinct_ids(p) && unmapped(ids_left, p) ==> {
        &&& after.nodes().len() == before.nodes().len() - gone.len() + p.len()
        &&& forall|j: u64|
            #[trigger] before.nodes().contains_key(j) && !gone.contains(j) && j != pk ==> after.nodes().contains_key(j)
                && after.nodes()[j] == before.nodes()[j]
        &&& after.ids().dom() == ids_left.dom().union(id_set(p))
        &&& forall|x: i64| #[trigger] ids_left.contains_key(x) ==> after.ids()[x] == ids_left[x]
        &&& forall|x: i64|
            #[trigger] id_set(p).contains(x) ==> after.nodes().contains_key(after.ids()[x]) && after.birth()[after.ids()[x]]
                >= before.clock() && after.nodes()[after.ids()[x]].node_id == x
        &&& after.backends().dom() == backends_left.dom().union(backend_set(p))
        &&& forall|b: i64|
            #[trigger] backends_left.contains_key(b) && !backend_set(p).contains(b) ==> after.backends()[b]
                == backends_left[b]
        &&& forall|b: i64|
            #[trigger] backend_set(p).contains(b) ==> after.nodes().contains_key(after.backends()[b])
                && after.birth()[after.backends()[b]] >= before.clock()
                && after.nodes()[after.backends()[b]].backend_node_id == b
        &&& before.nodes().contains_key(pk) ==> {
            &&& after.nodes().contains_key(pk)
            &&& list_replaced(before.nodes()[pk], after.nodes()[pk], LinkList::Children)
            &&& after.nodes()[pk].children@.len() == ds.len()
            &&& forall|i: int|
                0 <= i < ds.len() ==> mirrors(
                    after.nodes(),
                    after.birth(),
                    after.nodes()[pk].children@[i],
                    #[trigger] ds[i],
                    Some(pk),
                    before.clock(),
                )
        }
    }
}

/// What the children of a stored node reach are stored nodes other than it.
proof fn lemma_gone_subset(t: LiveDomTree, pk: u64)
    requires
        t.wf(),
    ensures
        t.nodes().contains_key(pk) ==> {
            let gone = reach_all(t.nodes(), t.nodes()[pk].children@);
            &&& gone.subset_of(t.nodes().dom())
            &&& !gone.contains(pk)
            &&& gone.finite()
        },
{
    if t.nodes().contains_key(pk) {
        let ks = t.nodes()[pk].children@;
        let gone = reach_all(t.nodes(), ks);
        assert forall|y: u64| gone.contains(y) implies t.nodes().contains_key(y) && y != pk by {
            let j = choose|j: int| 0 <= j < ks.len() && #[trigger] reach(t.nodes(), ks[j]).contains(y);
            let p = choose|p: Seq<u64>| walk_between(t.nodes(), p, ks[j], y);
            assert(t.nodes().contains_key(p[p.len() - 1]));
            if y == pk {
                lemma_walk_order(t.nodes(), t.birth(), t.clock(), p);
                assert(t.nodes().contains_key(p[0]));
                lemma_list_in_links(t.nodes()[pk], LinkList::Children, j);
                lemma_link_younger(t.nodes(), t.birth(), t.clock(), pk, ks[j]);
            }
        }
        vstd::set_lib::lemma_len_subset(gone, t.nodes().dom());
    }
}

/// The outcome of `set_children`.
proof fn lemma_children_replaced(
    t0: LiveDomTree,
    t1: LiveDomTree,
    t2: LiveDomTree,
    t3: LiveDomTree,
    pk: u64,
    ds: Seq<DomNode>,
    ks: Seq<u64>,
    st: Option<u64>,
    gone: Set<u64>,
)
    requires
        t0.wf(),
        t1.wf(),
        t2.wf(),
        t3.wf(),
        gone == (if t0.nodes().contains_key(pk) {
            reach_all(t0.nodes(), t0.nodes()[pk].children@)
        } else {
            Set::empty()
        }),
        match st {
            Some(stamp) => t0.birth().contains_key(pk) && t0.birth()[pk] == stamp,
            None => !t0.birth().contains_key(pk),
        },
        removed(t0, t1, gone),
        grown(t1, t2),
        t2.clock() >= t1.clock(),
        ks.len() == ds.len(),
        fresh_for(t1, preorder_list(ds)) ==> {
            &&& extended(t1, t2, preorder_list(ds))
            &&& forall|i: int| 0 <= i < ds.len() ==> mirrors(t2.nodes(), t2.birth(), ks[i], #[trigger] ds[i], Some(pk), t1.clock())
        },
        match st {
            Some(stamp) => {
                &&& unchanged_maps(t2, t3)
                &&& t2.holds(pk, stamp) ==> {
                    &&& same_except(t2.nodes(), t3.nodes(), pk)
                    &&& list_replaced(t2.nodes()[pk], t3.nodes()[pk], LinkList::Children)
                    &&& t3.nodes()[pk].children@ == ks
                }
                &&& !t2.holds(pk, stamp) ==> t3.nodes() == t2.nodes()
            },
            None => t3 == t2,
        },
    ensures
        children_replaced(t0, t3, pk, ds),
{
    lemma_gone_subset(t0, pk);
    let p = preorder_list(ds);
    assert forall|j: u64| #[trigger] t3.nodes().contains_key(j) && t3.birth()[j] < t0.clock() && j != pk implies t0.nodes().contains_key(j)
        && !gone.contains(j) && t3.nodes()[j] == t0.nodes()[j] by {
        assert(t2.nodes().contains_key(j));
        assert(t1.nodes().contains_key(j));
    }
    let ids_left = t0.ids().remove_keys(ids_of(t0.nodes(), gone));
    if distinct_ids(p) && unmapped(ids_left, p) {
        assert(fresh_for(t1, p));
        assert(t1.nodes().dom() =~= t0.nodes().dom().difference(gone));
        if t0.nodes().contains_key(pk) {
            assert(t0.nodes().dom().intersect(gone) =~= gone);
            vstd::set_lib::lemma_set_difference_len(t0.nodes().dom(), gone);
        } else {
            assert(t0.nodes().dom().difference(gone) =~= t0.nodes().dom());
        }
        match st {
            Some(stamp) => {
                assert(t1.nodes().contains_key(pk));
                assert(t2.holds(pk, stamp));
                lemma_added_relink(t1, t2, t3, p, pk, stamp, LinkList::Children);
                lemma_keeps_relink(t2, t3, pk, stamp, t1.clock());
                assert forall|i: int| 0 <= i < ds.len() implies mirrors(t3.nodes(), t3.birth(), t3.nodes()[pk].children@[i], #[trigger] ds[i], Some(pk), t0.clock()) by {
                    lemma_mirrors_keep(t2, t3, ks[i], ds[i], Some(pk), t1.clock(), t0.clock());
                }
                assert forall|j: u64| #[trigger] t0.nodes().contains_key(j) && !gone.contains(j) && j != pk implies t3.nodes().contains_key(j)
                    && t3.nodes()[j] == t0.nodes()[j] by {
                    assert(t1.nodes().contains_key(j));
                }
            },
            None => {
                assert forall|j: u64| #[trigger] t0.nodes().contains_key(j) && !gone.contains(j) && j != pk implies t3.nodes().contains_key(j)
                    && t3.nodes()[j] == t0.nodes()[j] by {
                    assert(t1.nodes().contains_key(j));
                }
            },
        }
        assert(t3.ids().dom() =~= ids_left.dom().union(id_set(p)));
        assert(t3.backends().dom() =~= t0.backends().remove_keys(backend_ids_of(t0.nodes(), gone)).dom().union(backend_set(p)));
        assert forall|x: i64| #[trigger] id_set(p).contains(x) implies t3.nodes().contains_key(t3.ids()[x]) && t3.birth()[t3.ids()[x]]
            >= t0.clock() && t3.nodes()[t3.ids()[x]].node_id == x by {
            assert(is_new(t1, t3, t3.ids()[x]));
        }
        assert forall|b: i64| #[trigger] backend_set(p).contains(b) implies t3.nodes().contains_key(t3.backends()[b])
            && t3.birth()[t3.backends()[b]] >= t0.clock() && t3.nodes()[t3.backends()[b]].backend_node_id == b by {
            assert(is_new(t1, t3, t3.backends()[b]));
        }
    }
}

/// `after` is `before` after the node `d` was stored under `pk` and linked
/// into the list `which` of `pk` at the place `place`. Nodes numbered
/// before the insertion, other than `pk`, were at most removed; the node
/// that `d`'s id mapped to, with all it reached, is gone. When the
/// ids `d` delivers are fresh, nothing was removed, the nodes of `d` were
/// added, and the node mirroring `d` sits at its place in the list.
pub open spec fn attached(
    before: LiveDomTree,
    after: LiveDomTree,
    pk: u64,
    d: DomNode,
    which: LinkList,
    place: Placement,
) -> bool {
    &&& after.root() == before.root()
    &&& forall|j: u64|
        #[trigger] after.nodes().contains_key(j) && after.birth()[j] < before.clock() && j != pk ==> before.nodes().contains_key(
            j,
        ) && after.nodes()[j] == before.nodes()[j]
    &&& cleared(before, after, stale(before, d.node_id))
    &&& fresh_for(before, preorder(d)) ==> {
        &&& added(before, after, preorder(d))
        &&& preserved_but(before, after, pk)
        &&& before.nodes().contains_key(pk) ==> {
            let old_list = list_of(before.nodes()[pk], which);
            let new_list = list_of(after.nodes()[pk], which);
            let i = place_index(old_list, place, after.ids());
            &&& after.nodes().contains_key(pk)
            &&& after.birth()[pk] == before.birth()[pk]
            &&& list_replaced(before.nodes()[pk], after.nodes()[pk], which)
            &&& new_list == old_list.insert(i, new_list[i])
            &&& mirrors(after.nodes(), after.birth(), new_list[i], d, Some(pk), before.clock())
        }
    }
}

/// A link in one of the lists of `n` is one of its links.
proof fn lemma_list_in_links(n: TreeNode, which: LinkList, i: int)
    requires
        0 <= i < list_of(n, which).len(),
    ensures
        links(n).contains(list_of(n, which)[i]),
{
    let c = list_of(n, which)[i];
    match which {
        LinkList::Children => {
            assert(links(n)[i] == c);
        },
        LinkList::ShadowRoots => {
            assert(links(n)[n.children@.len() + i] == c);
        },
        LinkList::PseudoElements => {
            assert(links(n)[n.children@.len() + n.shadow_roots@.len() + i] == c);
        },
    }
}

/// Relinking a node keeps what a state has added.
proof fn lemma_added_relink(
    a: LiveDomTree,
    b: LiveDomTree,
    c: LiveDomTree,
    p: Seq<DomNode>,
    key: u64,
    stamp: u64,
    which: LinkList,
)
    requires
        added(a, b, p),
        b.wf(),
        unchanged_maps(b, c),
        b.holds(key, stamp) ==> same_except(b.nodes(), c.nodes(), key) && list_replaced(b.nodes()[key], c.nodes()[key], which),
        !b.holds(key, stamp) ==> c.nodes() == b.nodes(),
    ensures
        added(a, c, p),
{
    assert(c.nodes().dom() =~= b.nodes().dom());
    assert forall|j: u64| #[trigger] is_new(a, c, j) implies c.birth()[j] >= a.clock() by {
        assert(is_new(a, b, j));
    }
    assert forall|x: i64| #[trigger] id_set(p).contains(x) implies is_new(a, c, c.ids()[x]) && c.nodes()[c.ids()[x]].node_id == x by {
        assert(is_new(a, b, b.ids()[x]));
    }
    assert forall|bk: i64| #[trigger] backend_set(p).contains(bk) implies is_new(a, c, c.backends()[bk])
        && c.nodes()[c.backends()[bk]].backend_node_id == bk by {
        assert(is_new(a, b, b.backends()[bk]));
    }
}

/// `attach` when the node `pk` was linked to.
proof fn lemma_attach_done(
    t0: LiveDomTree,
    t1: LiveDomTree,
    t2: LiveDomTree,
    pk: u64,
    d: DomNode,
    which: LinkList,
    place: Placement,
    nk: u64,
    stamp: u64,
    pos: int,
)
    requires
        t0.wf(),
        t1.wf(),
        t0.birth().contains_key(pk),
        t0.birth()[pk] == stamp,
        grown(t0, t1),
        cleared(t0, t1, stale(t0, d.node_id)),
        t1.holds(pk, stamp),
        0 <= pos <= list_of(t1.nodes()[pk], which).len(),
        pos == place_index(list_of(t1.nodes()[pk], which), place, t1.ids()),
        fresh_for(t0, preorder(d)) ==> {
            &&& extended(t0, t1, preorder(d))
            &&& mirrors(t1.nodes(), t1.birth(), nk, d, Some(pk), t0.clock())
        },
        unchanged_maps(t1, t2),
        same_except(t1.nodes(), t2.nodes(), pk),
        list_replaced(t1.nodes()[pk], t2.nodes()[pk], which),
        list_of(t2.nodes()[pk], which) == list_of(t1.nodes()[pk], which).insert(pos, nk),
    ensures
        attached(t0, t2, pk, d, which, place),
{
    lemma_cleared_step(t0, t1, t2, stale(t0, d.node_id));
    assert(t0.nodes().contains_key(pk));
    assert(stored_ok(t0.nodes(), t0.birth(), t0.clock(), pk));
    assert forall|j: u64| #[trigger] t2.nodes().contains_key(j) && t2.birth()[j] < t0.clock() && j != pk implies t0.nodes().contains_key(j)
        && t2.nodes()[j] == t0.nodes()[j] by {
        assert(t1.nodes().contains_key(j));
    }
    if fresh_for(t0, preorder(d)) {
        lemma_added_relink(t0, t1, t2, preorder(d), pk, stamp, which);
        assert forall|j: u64| #[trigger] t0.nodes().contains_key(j) && j != pk implies t2.nodes().contains_key(j)
            && t2.nodes()[j] == t0.nodes()[j] && t2.birth()[j] == t0.birth()[j] by {
            assert(t1.nodes().contains_key(j));
        }
        let u = list_of(t1.nodes()[pk], which);
        u.insert_ensures(pos, nk);
        assert(t1.nodes()[pk] == t0.nodes()[pk]);
        lemma_keeps_relink(t1, t2, pk, stamp, t0.clock());
        lemma_mirrors_keep(t1, t2, nk, d, Some(pk), t0.clock(), t0.clock());
    }
}

/// `attach` when the node `pk` no longer held what it held.
proof fn lemma_attach_unheld(t0: LiveDomTree, t1: LiveDomTree, pk: u64, d: DomNode, which: LinkList, place: Placement)
    requires
        t0.wf(),
        t1.wf(),
        grown(t0, t1),
        cleared(t0, t1, stale(t0, d.node_id)),
        fresh_for(t0, preorder(d)) ==> extended(t0, t1, preorder(d)),
        t0.nodes().contains_key(pk) ==> !t1.holds(pk, t0.birth()[pk]),
    ensures
        attached(t0, t1, pk, d, which, place),
{
    if fresh_for(t0, preorder(d)) && t0.nodes().contains_key(pk) {
        assert(t1.nodes().contains_key(pk));
    }
}

/// A copy of an optional text.
fn copy_text(o: &Option<String>) -> (r: Option<String>)
    ensures
        r == *o,
{
    match o {
        Some(t) => Some(t.clone()),
        None => None,
    }
}

/// `after` is `before` after the node `node_id` was dropped from the list
/// `which` of the node `parent_node_id` and removed with all it reaches.
pub open spec fn detached(before: LiveDomTree, after: LiveDomTree, parent_node_id: i64, node_id: i64, which: LinkList) -> bool {
    if !before.ids().contains_key(node_id) {
        &&& after.nodes() == before.nodes()
        &&& after.ids() == before.ids()
        &&& after.backends() == before.backends()
        &&& after.root() == before.root()
    } else {
        let nk = before.ids()[node_id];
        let gone = reach(before.nodes(), nk);
        &&& after.nodes().dom() == before.nodes().dom().difference(gone)
        &&& after.ids() == before.ids().remove_keys(ids_of(before.nodes(), gone))
        &&& after.backends() == before.backends().remove_keys(backend_ids_of(before.nodes(), gone))
        &&& after.root() == before.root()
        &&& forall|j: u64|
            #[trigger] after.nodes().contains_key(j) && before.lookup(parent_node_id) != Some(j) ==> after.nodes()[j]
                == before.nodes()[j]
        &&& forall|pk: u64|
            before.lookup(parent_node_id) == Some(pk) && #[trigger] after.nodes().contains_key(pk) ==> {
                &&& list_replaced(before.nodes()[pk], after.nodes()[pk], which)
                &&& list_of(after.nodes()[pk], which) == list_of(before.nodes()[pk], which).filter(other_than(nk))
            }
    }
}

/// `after` is `before` with the nodes at `gone` removed, and the ids and
/// backend ids of those nodes forgotten.
pub open spec fn removed(before: LiveDomTree, after: LiveDomTree, gone: Set<u64>) -> bool {
    &&& after.nodes() == before.nodes().remove_keys(gone)
    &&& after.ids() == before.ids().remove_keys(ids_of(before.nodes(), gone))
    &&& after.backends() == before.backends().remove_keys(backend_ids_of(before.nodes(), gone))
    &&& after.root() == before.root()
    &&& after.birth() == before.birth().remove_keys(gone)
    &&& after.clock() == before.clock()
}

/// What a node delivered with id `x` replaces: when `x` maps to a stored
/// node of `before`, that node and everything it reaches.
pub open spec fn stale(before: LiveDomTree, x: i64) -> Set<u64> {
    match before.lookup(x) {
        Some(ok) => reach(before.nodes(), ok),
        None => Set::empty(),
    }
}

/// None of the nodes `before` stored at `keys` is left in `after`: a node
/// stored at one of those keys afterwards was inserted after `before`.
pub open spec fn cleared(before: LiveDomTree, after: LiveDomTree, keys: Set<u64>) -> bool {
    forall|j: u64|
        #[trigger] after.nodes().contains_key(j) && keys.contains(j) ==> after.birth()[j] >= before.clock()
}

/// Every node of `after` numbered below `before`'s clock was stored in
/// `before` under the same number.
pub open spec fn aged(before: LiveDomTree, after: LiveDomTree) -> bool {
    &&& before.clock() <= after.clock()
    &&& forall|j: u64|
        #[trigger] after.nodes().contains_key(j) && after.birth()[j] < before.clock() ==> before.nodes().contains_key(j)
            && before.birth()[j] == after.birth()[j]
}

/// What was cleared stays cleared while no older node comes back.
proof fn lemma_cleared_step(t0: LiveDomTree, a: LiveDomTree, b: LiveDomTree, s: Set<u64>)
    requires
        cleared(t0, a, s),
        t0.clock() <= a.clock(),
        aged(a, b),
    ensures
        cleared(t0, b, s),
{
    assert forall|j: u64| #[trigger] b.nodes().contains_key(j) && s.contains(j) implies b.birth()[j] >= t0.clock() by {
        if b.birth()[j] < a.clock() {
            assert(a.nodes().contains_key(j));
        }
    }
}

/// Storing a new node with no links keeps every walk of the old map.
proof fn lemma_reach_insert(m0: Map<u64, TreeNode>, m1: Map<u64, TreeNode>, key: u64, k: u64, j: u64)
    requires
        !m0.contains_key(key),
        m1 == m0.insert(key, m1[key]),
        reach(m0, k).contains(j),
    ensures
        reach(m1, k).contains(j),
{
    let p = choose|p: Seq<u64>| #[trigger] walk_between(m0, p, k, j);
    assert forall|i: int| 0 <= i < p.len() implies m1.contains_key(#[trigger] p[i]) by {
        assert(m0.contains_key(p[i]));
    }
    assert forall|i: int| 0 <= i < p.len() - 1 implies #[trigger] crate::dom_walk::steps(m1, p, i) by {
        assert(crate::dom_walk::steps(m0, p, i));
        assert(m0.contains_key(p[i]));
        assert(m1[p[i]] == m0[p[i]]);
    }
    assert(walk_between(m1, p, k, j));
}

/// Two removals in a row remove the union of what each removed.
proof fn lemma_removed_compose(a: LiveDomTree, b: LiveDomTree, c: LiveDomTree, x: Set<u64>, y: Set<u64>)
    requires
        removed(a, b, x),
        removed(b, c, y),
    ensures
        removed(a, c, x.union(y)),
{
    lemma_ids_of_removed(a.nodes(), x, y);
    lemma_ids_of_union(a.nodes(), x, y.difference(x));
    assert(x.union(y) =~= x.union(y.difference(x)));
    assert(c.nodes() =~= a.nodes().remove_keys(x.union(y)));
    assert(c.ids() =~= a.ids().remove_keys(ids_of(a.nodes(), x.union(y))));
    assert(c.backends() =~= a.backends().remove_keys(backend_ids_of(a.nodes(), x.union(y))));
    assert(c.birth() =~= a.birth().remove_keys(x.union(y)));
}

/// `after` holds only the tree built from `node`, rooted at a new node.
/// When the ids `node` delivers are distinct, there is one node for each
/// delivered node, each delivered id and backend id maps to the node that
/// carries it, and the root mirrors `node`.
pub open spec fn rooted(before: LiveDomTree, after: LiveDomTree, node: DomNode) -> bool {
    &&& after.root() is Some
    &&& after.nodes().len() <= preorder(node).len()
    &&& forall|j: u64| #[trigger] after.nodes().contains_key(j) ==> after.birth()[j] >= before.clock()
    &&& distinct_ids(preorder(node)) ==> {
        &&& after.nodes().len() == preorder(node).len()
        &&& after.ids().dom() == id_set(preorder(node))
        &&& forall|x: i64|
            #[trigger] id_set(preorder(node)).contains(x) ==> after.lookup(x) is Some && after.nodes()[after.ids()[x]].node_id
                == x
        &&& after.backends().dom() == backend_set(preorder(node))
        &&& forall|b: i64|
            #[trigger] backend_set(preorder(node)).contains(b) ==> after.nodes().contains_key(after.backends()[b])
                && after.nodes()[after.backends()[b]].backend_node_id == b
        &&& mirrors(after.nodes(), after.birth(), after.root()->0, node, None, before.clock())
    }
}

/// `after` is `before` with the attribute `name` of the node `node_id` set
/// to `value`; nothing changes when `node_id` maps to no stored node.
pub open spec fn attribute_set(before: LiveDomTree, after: LiveDomTree, node_id: i64, name: Seq<char>, value: Seq<char>) -> bool {
    &&& unchanged_maps(before, after)
    &&& match before.lookup(node_id) {
        Some(k) => {
            &&& same_except(before.nodes(), after.nodes(), k)
            &&& after.nodes()[k] == (TreeNode { attributes: after.nodes()[k].attributes, ..before.nodes()[k] })
            &&& after.nodes()[k].attributes@.dom() == before.nodes()[k].attributes@.dom().insert(name)
            &&& after.nodes()[k].attributes@[name]@ == value
            &&& forall|a: Seq<char>|
                #[trigger] before.nodes()[k].attributes@.contains_key(a) && a != name ==> after.nodes()[k].attributes@[a]
                    == before.nodes()[k].attributes@[a]
        },
        None => after.nodes() == before.nodes(),
    }
}

/// `after` is `before` without the attribute `name` on the node `node_id`.
pub open spec fn attribute_removed(before: LiveDomTree, after: LiveDomTree, node_id: i64, name: Seq<char>) -> bool {
    &&& unchanged_maps(before, after)
    &&& match before.lookup(node_id) {
        Some(k) => {
            &&& same_except(before.nodes(), after.nodes(), k)
            &&& after.nodes()[k] == (TreeNode { attributes: after.nodes()[k].attributes, ..before.nodes()[k] })
            &&& after.nodes()[k].attributes@ == before.nodes()[k].attributes@.remove(name)
        },
        None => after.nodes() == before.nodes(),
    }
}

/// `after` is `before` with the value of the node `node_id` set to `data`.
pub open spec fn text_set(before: LiveDomTree, after: LiveDomTree, node_id: i64, data: Seq<char>) -> bool {
    &&& unchanged_maps(before, after)
    &&& match before.lookup(node_id) {
        Some(k) => {
            &&& same_except(before.nodes(), after.nodes(), k)
            &&& after.nodes()[k] == (TreeNode { node_value: after.nodes()[k].node_value, ..before.nodes()[k] })
            &&& after.nodes()[k].node_value@ == data
        },
        None => after.nodes() == before.nodes(),
    }
}

/// `after` is `before` with the child count of the node `node_id` set to `count`.
pub open spec fn count_set(before: LiveDomTree, after: LiveDomTree, node_id: i64, count: i32) -> bool {
    &&& unchanged_maps(before, after)
    &&& match before.lookup(node_id) {
        Some(k) => {
            &&& same_except(before.nodes(), after.nodes(), k)
            &&& after.nodes()[k] == (TreeNode { child_node_count: Some(count), ..before.nodes()[k] })
        },
        None => after.nodes() == before.nodes(),
    }
}

/// Two node maps agree everywhere but at `k`, and hold the same keys.
pub open spec fn same_except(before: Map<u64, TreeNode>, after: Map<u64, TreeNode>, k: u64) -> bool {
    &&& after.dom() == before.dom()
    &&& forall|j: u64| #[trigger] after.contains_key(j) && j != k ==> after[j] == before[j]
}

/// The id maps, the root and the ghost order are the same.
pub open spec fn unchanged_maps(before: LiveDomTree, after: LiveDomTree) -> bool {
    &&& after.ids() == before.ids()
    &&& after.backends() == before.backends()
    &&& after.root() == before.root()
    &&& after.birth() == before.birth()
    &&& after.clock() == before.clock()
}

/// The stored node `k` is well placed: key of slot-map form, an insertion
/// number below the clock, and links to younger nodes only.
pub open spec fn stored_ok(nodes: Map<u64, TreeNode>, birth: Map<u64, u64>, clock: u64, k: u64) -> bool {
    &&& key_form(k)
    &&& birth.contains_key(k)
    &&& birth[k] < clock
    &&& forall|j: int|
        0 <= j < links(nodes[k]).len() ==> {
            let c = #[trigger] links(nodes[k])[j];
            key_form(c) && (nodes.contains_key(c) ==> birth.contains_key(c) && birth[c] > birth[k])
        }
}

/// Replacing one stored node by a node with the same links keeps the tree
/// well formed.
proof fn lemma_replace_node(before: LiveDomTree, after: LiveDomTree, k: u64)
    requires
        before.wf(),
        unchanged_maps(before, after),
        before.nodes().contains_key(k),
        after.nodes() == before.nodes().insert(k, after.nodes()[k]),
        links(after.nodes()[k]) == links(before.nodes()[k]),
    ensures
        after.wf(),
        same_except(before.nodes(), after.nodes(), k),
{
    assert(after.nodes().dom() =~= before.nodes().dom());
    assert(after.ids() == before.ids());
    assert(after.backends() == before.backends());
    assert forall|j: u64| #[trigger] after.nodes().contains_key(j) implies stored_ok(
        after.nodes(),
        after.birth(),
        after.clock(),
        j,
    ) by {
        assert(stored_ok(before.nodes(), before.birth(), before.clock(), j));
        assert(links(after.nodes()[j]) == links(before.nodes()[j]));
    }
}

/// Whether `k` has slot-map key form.
pub fn key_form_of(k: u64) -> (r: bool)
    ensures
        r == key_form(k),
{
    (k / 0x1_0000_0000) % 2 == 1
}

} // verus!
