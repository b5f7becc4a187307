//! The node store: a concurrent mapping from a 64-bit node identifier to a
//! node record, keyed by the hash of the game state the node represents.
//!
//! Two call sites that reach the same game state compute the same identifier
//! and therefore share one node (transposition sharing). Every node except
//! the root records the node that first created it as its parent; a node
//! created later always points at a node created earlier, so parent chains
//! are acyclic (see [`lemma_ancestor_not_self`]).

use crate::node::{LazyMctsNode, MctsNodeData};
use std::collections::hash_map::RandomState;
use vstd::prelude::*;

verus! {

pub type NodeId = u64;

/// A value that can be addressed by a 64-bit hash of its content. Identical
/// content must hash identically, which the pairing of `hash` with
/// `hash_spec` enforces on every implementation.
pub trait Hashed {
    spec fn hash_spec(&self) -> u64;

    fn hash(&self) -> (r: u64)
        ensures
            r == self.hash_spec(),
    ;
}

impl Hashed for LazyMctsNode {
    open spec fn hash_spec(&self) -> u64 {
        self.hash
    }

    fn hash(&self) -> (r: u64) {
        self.hash
    }
}

/// One record of the store: the first creator of the node, the identifiers
/// of the children discovered so far (in insertion order), and the payload.
#[derive(Clone)]
pub struct Node {
    pub parent: Option<NodeId>,
    pub children: Vec<NodeId>,
    pub value: LazyMctsNode,
}

/// Mathematical model of a [`Node`].
pub ghost struct NodeData {
    pub parent: Option<NodeId>,
    pub children: Seq<NodeId>,
    pub value: MctsNodeData,
}

impl View for Node {
    type V = NodeData;

    open spec fn view(&self) -> NodeData {
        NodeData { parent: self.parent, children: self.children@, value: self.value@ }
    }
}

#[verifier::external_type_specification]
#[verifier::external_body]
#[verifier::reject_recursive_types(K)]
#[verifier::reject_recursive_types(V)]
#[verifier::reject_recursive_types(S)]
pub struct ExDashMap<K, V, S>(dashmap::DashMap<K, V, S>);

/// The concrete shard-per-key map that holds the nodes.
pub type NodeMap = dashmap::DashMap<NodeId, Node, RandomState>;

/// The entries that a [`NodeMap`] currently holds.
pub uninterp spec fn dash_nodes(m: NodeMap) -> Map<NodeId, NodeData>;

/// Relies on dashmap::DashMap::new: the new map is empty.
#[verifier::external_body]
fn dm_new() -> (r: NodeMap)
    ensures
        (dash_nodes(r) == Map::<NodeId, NodeData>::empty()),
{
    dashmap::DashMap::new()
}

/// Relies on dashmap::DashMap::with_capacity: the new map is empty; the
/// capacity hint only pre-sizes the shards.
#[verifier::external_body]
fn dm_with_capacity(capacity: usize) -> (r: NodeMap)
    ensures
        (dash_nodes(r) == Map::<NodeId, NodeData>::empty()),
{
    dashmap::DashMap::with_capacity(capacity)
}

/// Relies on dashmap::DashMap::clone: the clone holds the same entries as
/// the map it was cloned from.
#[verifier::external_body]
fn dm_clone(m: &NodeMap) -> (r: NodeMap)
    ensures
        dash_nodes(r) == dash_nodes(*m),
{
    m.clone()
}

/// Relies on dashmap::DashMap::insert: the value is stored under the key,
/// replacing any previous entry.
#[verifier::external_body]
fn dm_insert(m: &mut NodeMap, id: NodeId, n: Node)
    ensures
        dash_nodes(*final(m)) == dash_nodes(*old(m)).insert(id, n@),
{
    m.insert(id, n);
}

/// Relies on dashmap::DashMap::contains_key: reports whether the key has an
/// entry.
#[verifier::external_body]
fn dm_contains(m: &NodeMap, id: NodeId) -> (b: bool)
    ensures
        b == dash_nodes(*m).contains_key(id),
{
    m.contains_key(&id)
}

/// Relies on dashmap::DashMap::get: returns the entry under the key if there
/// is one; the clone carries the same content.
#[verifier::external_body]
fn dm_get(m: &NodeMap, id: NodeId) -> (r: Option<Node>)
    ensures
        match r {
            Some(n) => dash_nodes(*m).contains_key(id) && n@ == dash_nodes(*m)[id],
            None => !dash_nodes(*m).contains_key(id),
        },
{
    match m.get(&id) {
        Some(entry) => Some(entry.value().clone()),
        None => None,
    }
}

/// Relies on dashmap::DashMap::entry and Entry::or_insert: atomically
/// returns the existing entry, or stores and returns the given one. The
/// first successful insert wins; a pre-existing entry is never overwritten.
#[verifier::external_body]
fn dm_get_or_insert(m: &mut NodeMap, id: NodeId, n: Node) -> (r: Node)
    ensures
        dash_nodes(*old(m)).contains_key(id) ==> {
            &&& dash_nodes(*final(m)) == dash_nodes(*old(m))
            &&& r@ == dash_nodes(*old(m))[id]
        },
        !dash_nodes(*old(m)).contains_key(id) ==> {
            &&& dash_nodes(*final(m)) == dash_nodes(*old(m)).insert(id, n@)
            &&& r@ == n@
        },
{
    m.entry(id).or_insert(n).value().clone()
}

/// Relies on dashmap::DashMap::alter: applies the given function to the
/// entry under the key, in place and atomically, if there is one.
#[verifier::external_body]
fn dm_push_child(m: &mut NodeMap, id: NodeId, child: NodeId)
    ensures
        dash_nodes(*old(m)).contains_key(id) ==> dash_nodes(*final(m)) == dash_nodes(
            *old(m),
        ).insert(id, nd_push_child(dash_nodes(*old(m))[id], child)),
        !dash_nodes(*old(m)).contains_key(id) ==> dash_nodes(*final(m)) == dash_nodes(*old(m)),
{
    m.alter(&id, |_, n| node_push_child(n, child));
}

/// Relies on dashmap::DashMap::alter: applies the given function to the
/// entry under the key, in place and atomically, if there is one.
#[verifier::external_body]
fn dm_add_reward(m: &mut NodeMap, id: NodeId, reward: u64)
    ensures
        dash_nodes(*old(m)).contains_key(id) ==> dash_nodes(*final(m)) == dash_nodes(
            *old(m),
        ).insert(id, nd_add_reward(dash_nodes(*old(m))[id], reward)),
        !dash_nodes(*old(m)).contains_key(id) ==> dash_nodes(*final(m)) == dash_nodes(*old(m)),
{
    m.alter(&id, |_, n| node_add_reward(n, reward));
}

/// `d` with one more child identifier recorded.
pub open spec fn nd_push_child(d: NodeData, child: NodeId) -> NodeData {
    NodeData { parent: d.parent, children: d.children.push(child), value: d.value }
}

/// Saturating addition on `u64`.
pub open spec fn sat_add(a: u64, b: u64) -> u64 {
    if a + b > u64::MAX {
        u64::MAX
    } else {
        (a + b) as u64
    }
}

/// `d` with one more visit and `reward` more cumulative reward, both
/// saturating, so statistics never decrease.
pub open spec fn nd_add_reward(d: NodeData, reward: u64) -> NodeData {
    NodeData {
        parent: d.parent,
        children: d.children,
        value: MctsNodeData {
            sum_rewards: sat_add(d.value.sum_rewards, reward),
            n_visits: sat_add(d.value.n_visits, 1),
            unvisited_moves: d.value.unvisited_moves,
            hash: d.value.hash,
            state: d.value.state,
            additional_info: d.value.additional_info,
        },
    }
}

/// `d` with its last untried move removed.
pub open spec fn nd_pop_untried(d: NodeData) -> NodeData {
    NodeData {
        parent: d.parent,
        children: d.children,
        value: MctsNodeData {
            sum_rewards: d.value.sum_rewards,
            n_visits: d.value.n_visits,
            unvisited_moves: d.value.unvisited_moves.drop_last(),
            hash: d.value.hash,
            state: d.value.state,
            additional_info: d.value.additional_info,
        },
    }
}

/// `d` with its strategy-reserved information slot overwritten.
pub open spec fn nd_set_info(d: NodeData, info: u64) -> NodeData {
    NodeData {
        parent: d.parent,
        children: d.children,
        value: MctsNodeData {
            sum_rewards: d.value.sum_rewards,
            n_visits: d.value.n_visits,
            unvisited_moves: d.value.unvisited_moves,
            hash: d.value.hash,
            state: d.value.state,
            additional_info: info,
        },
    }
}

fn node_push_child(n: Node, child: NodeId) -> (r: Node)
    ensures
        r@ == nd_push_child(n@, child),
{
    let mut n = n;
    n.children.push(child);
    n
}

fn node_add_reward(n: Node, reward: u64) -> (r: Node)
    ensures
        r@ == nd_add_reward(n@, reward),
{
    let mut n = n;
    n.value.n_visits = if n.value.n_visits == u64::MAX {
        u64::MAX
    } else {
        n.value.n_visits + 1
    };
    n.value.sum_rewards = if n.value.sum_rewards > u64::MAX - reward {
        u64::MAX
    } else {
        n.value.sum_rewards + reward
    };
    n
}

fn node_pop_untried(n: &mut Node) -> (r: Option<u64>)
    ensures
        old(n)@.value.unvisited_moves.len() == 0 ==> r is None && final(n)@ == old(n)@,
        old(n)@.value.unvisited_moves.len() > 0 ==> r == Some(
            old(n)@.value.unvisited_moves.last(),
        ) && final(n)@ == nd_pop_untried(old(n)@),
{
    n.value.unvisited_moves.pop()
}


/// Whether `scores[j]` is a score that `f` can return for (a value equal in
/// content to) the payload of the `j`-th listed child.
pub open spec fn score_accounted<F: Fn(LazyMctsNode) -> u64>(
    f: F,
    nodes: Map<NodeId, NodeData>,
    cs: Seq<NodeId>,
    scores: Seq<u64>,
    j: int,
) -> bool {
    exists|nv: LazyMctsNode| #[trigger] call_ensures(f, (nv,), scores[j]) && nv@ == nodes[cs[j]].value
}

/// Whether `k` is the index of the best score: no score beats it, and every
/// earlier equal score is strictly smaller, so ties resolve to the score
/// discovered first.
pub open spec fn is_best_index(scores: Seq<u64>, k: int) -> bool {
    &&& 0 <= k < scores.len()
    &&& forall|j: int| 0 <= j < scores.len() ==> scores[j] <= scores[k]
    &&& forall|j: int| 0 <= j < k ==> scores[j] < scores[k]
}

/// The node store. All mutation goes through [`Tree::add_child`] (growth)
/// and the targeted payload updates [`Tree::add_reward`], [`Tree::pop_untried`]
/// and [`Tree::set_info`], each of which preserves well-formedness.
///
/// The underlying map mutates in place behind shared references, but the
/// verified interface drives it through `&mut self`, which Verus needs in
/// order to state how the contents change. One `Tree` value is therefore
/// driven by one caller at a time; the shard-per-key map itself tolerates
/// concurrent access, and node-level atomicity is what its trusted
/// contracts rely on.
pub struct Tree {
    map: NodeMap,
    root: NodeId,
    birth: Ghost<Map<NodeId, nat>>,
    next_birth: Ghost<nat>,
}

impl View for Tree {
    type V = Map<NodeId, NodeData>;

    closed spec fn view(&self) -> Map<NodeId, NodeData> {
        dash_nodes(self.map)
    }
}

impl Tree {
    /// The identifier of the root node.
    pub closed spec fn root_id_spec(self) -> NodeId {
        self.root
    }

    /// The position of a node in creation order. Every node's parent was
    /// created strictly earlier, which makes parent chains well-founded.
    pub closed spec fn rank(self, id: NodeId) -> nat {
        self.birth@[id]
    }

    /// Structural well-formedness: the root is present, has no parent and an
    /// empty trajectory; nodes are content-addressed by their payload hash;
    /// recorded children exist; and every other node has a parent that
    /// exists, was created earlier, and whose trajectory is one move shorter.
    pub open spec fn wf_shape(self) -> bool {
        &&& self@.contains_key(self.root_id_spec())
        &&& self@[self.root_id_spec()].parent is None
        &&& self@[self.root_id_spec()].value.state.len() == 0
        &&& self.rank(self.root_id_spec()) == 0
        &&& forall|id: NodeId| #[trigger] self@.contains_key(id) ==> self@[id].value.hash == id
        &&& forall|id: NodeId| #[trigger] self@.contains_key(id) ==> forall|i: int|
            0 <= i < self@[id].children.len() ==> self@.contains_key(#[trigger] self@[id].children[i])
        &&& forall|id: NodeId| #[trigger] self@.contains_key(id) && id != self.root_id_spec() ==> {
            &&& self@[id].parent is Some
            &&& self@.contains_key(self@[id].parent.unwrap())
            &&& self.rank(self@[id].parent.unwrap()) < self.rank(id)
            &&& self@[id].value.state.len() == self@[self@[id].parent.unwrap()].value.state.len() + 1
        }
    }

    /// Bookkeeping of creation order: every node has a birth index below the
    /// next one to be handed out.
    pub closed spec fn births_ok(self) -> bool {
        forall|id: NodeId| #[trigger] self@.contains_key(id) ==> self.birth@.contains_key(id)
            && self.birth@[id] < self.next_birth@
    }

    /// Well-formedness: established by the constructors, preserved by every
    /// mutation.
    pub open spec fn wf(self) -> bool {
        self.wf_shape() && self.births_ok()
    }

    /// Seeds the store with a single root node whose parent marker is `None`.
    pub fn new(root_value: LazyMctsNode) -> (t: Tree)
        requires
            root_value.state@.len() == 0,
        ensures
            t.wf(),
            t.root_id_spec() == root_value.hash_spec(),
            (t@ == Map::<NodeId, NodeData>::empty().insert(
                root_value.hash_spec(),
                NodeData { parent: None, children: Seq::empty(), value: root_value@ },
            )),
    {
        let map = dm_new();
        Self::seed(map, root_value)
    }

    /// Seeds the store as [`Tree::new`] does, pre-sizing it for `capacity`
    /// nodes.
    pub fn with_capacity(root_value: LazyMctsNode, capacity: usize) -> (t: Tree)
        requires
            root_value.state@.len() == 0,
        ensures
            t.wf(),
            t.root_id_spec() == root_value.hash_spec(),
            (t@ == Map::<NodeId, NodeData>::empty().insert(
                root_value.hash_spec(),
                NodeData { parent: None, children: Seq::empty(), value: root_value@ },
            )),
    {
        let map = dm_with_capacity(capacity);
        Self::seed(map, root_value)
    }

    fn seed(map: NodeMap, root_value: LazyMctsNode) -> (t: Tree)
        requires
            root_value.state@.len() == 0,
            dash_nodes(map) == Map::<NodeId, NodeData>::empty(),
        ensures
            t.wf(),
            t.root_id_spec() == root_value.hash_spec(),
            (t@ == Map::<NodeId, NodeData>::empty().insert(
                root_value.hash_spec(),
                NodeData { parent: None, children: Seq::empty(), value: root_value@ },
            )),
    {
        let mut map = map;
        let root_id = root_value.hash();
        dm_insert(&mut map, root_id, Node { parent: None, children: Vec::new(), value: root_value });
        let t = Tree {
            map,
            root: root_id,
            birth: Ghost(Map::<NodeId, nat>::empty().insert(root_id, 0nat)),
            next_birth: Ghost(1nat),
        };
        t
    }

    /// The root's identifier; the root is present for the store's entire
    /// lifetime.
    pub fn root_id(&self) -> (r: NodeId)
        ensures
            r == self.root_id_spec(),
    {
        self.root
    }

    /// A snapshot of the root node.
    pub fn root(&self) -> (n: Node)
        requires
            self.wf(),
        ensures
            n@ == self@[self.root_id_spec()],
    {
        match self.get(self.root) {
            Some(n) => n,
            None => vstd::pervasive::unreached(),
        }
    }

    /// A snapshot of the node with the given identifier, or `None` if no
    /// node with that identifier exists.
    pub fn get(&self, id: NodeId) -> (r: Option<Node>)
        ensures
            match r {
                Some(n) => self@.contains_key(id) && n@ == self@[id],
                None => !self@.contains_key(id),
            },
    {
        dm_get(&self.map, id)
    }

    /// Whether the node has any recorded children.
    pub fn has_children(&self, id: NodeId) -> (r: bool)
        requires
            self@.contains_key(id),
        ensures
            r == (self@[id].children.len() > 0),
    {
        match self.get(id) {
            Some(n) => n.children.len() > 0,
            None => vstd::pervasive::unreached(),
        }
    }

    /// The identifier of the node that first created `id`. The root has no
    /// parent, so asking for its parent is a programmer error that callers
    /// must rule out.
    pub fn parent_id(&self, id: NodeId) -> (r: NodeId)
        requires
            self.wf(),
            self@.contains_key(id),
            id != self.root_id_spec(),
        ensures
            self@[id].parent == Some(r),
    {
        match self.get(id) {
            Some(n) => match n.parent {
                Some(p) => p,
                None => vstd::pervasive::unreached(),
            },
            None => vstd::pervasive::unreached(),
        }
    }

    /// The get-or-insert primitive that grows the tree. Computes the child's
    /// identifier from `value`, records it under the parent's children, and
    /// stores a new node for it only if none exists yet: the first creator
    /// wins, and a pre-existing node keeps its payload (its trajectory may
    /// differ from the one the caller would have stored). Returns the
    /// child's identifier either way.
    pub fn add_child(&mut self, parent_id: NodeId, value: LazyMctsNode) -> (r: NodeId)
        requires
            old(self).wf(),
            old(self)@.contains_key(parent_id),
            value.state@.len() == old(self)@[parent_id].value.state.len() + 1,
        ensures
            final(self).wf(),
            r == value.hash_spec(),
            final(self)@.contains_key(r),
            final(self).root_id_spec() == old(self).root_id_spec(),
            old(self)@.contains_key(value.hash_spec()) ==> final(self)@.dom() == old(self)@.dom(),
            !old(self)@.contains_key(value.hash_spec()) ==> final(self)@.dom() == old(
                self,
            )@.dom().insert(value.hash_spec()),
            forall|i: NodeId|
                #![trigger old(self)@.contains_key(i)]
                #![trigger final(self)@.contains_key(i)]
                old(self)@.contains_key(i) ==> final(self)@.contains_key(i) && final(self).rank(i)
                    == old(self).rank(i),
            old(self)@.contains_key(value.hash_spec()) ==> (final(self)@ == old(self)@.insert(
                parent_id,
                nd_push_child(old(self)@[parent_id], value.hash_spec()),
            )),
            !old(self)@.contains_key(value.hash_spec()) ==> (final(self)@ == old(self)@.insert(
                parent_id,
                nd_push_child(old(self)@[parent_id], value.hash_spec()),
            ).insert(
                value.hash_spec(),
                NodeData { parent: Some(parent_id), children: Seq::empty(), value: value@ },
            )),
    {
        let id = value.hash();
        dm_push_child(&mut self.map, parent_id, id);
        let existed = dm_contains(&self.map, id);
        let child = Node { parent: Some(parent_id), children: Vec::new(), value };
        let _ = dm_get_or_insert(&mut self.map, id, child);
        if !existed {
            proof {
                self.birth@ = self.birth@.insert(id, self.next_birth@);
                self.next_birth@ = self.next_birth@ + 1;
            }
        }
        id
    }

    /// Adds one visit and `reward` more cumulative reward to the node, in
    /// place and atomically; both counters saturate, so they never decrease.
    pub fn add_reward(&mut self, id: NodeId, reward: u64)
        requires
            old(self).wf(),
            old(self)@.contains_key(id),
        ensures
            final(self).wf(),
            (final(self)@ == old(self)@.insert(id, nd_add_reward(old(self)@[id], reward))),
            final(self)@.dom() == old(self)@.dom(),
            final(self).root_id_spec() == old(self).root_id_spec(),
            forall|i: NodeId|
                #![trigger old(self)@.contains_key(i)]
                #![trigger final(self).rank(i)]
                old(self)@.contains_key(i) ==> final(self).rank(i) == old(self).rank(i),
    {
        dm_add_reward(&mut self.map, id, reward);
        proof {
            assert(self@.dom() =~= old(self)@.dom());
        }
    }

    /// Overwrites the node's strategy-reserved information slot.
    pub fn set_info(&mut self, id: NodeId, info: u64)
        requires
            old(self).wf(),
            old(self)@.contains_key(id),
        ensures
            final(self).wf(),
            (final(self)@ == old(self)@.insert(id, nd_set_info(old(self)@[id], info))),
            final(self)@.dom() == old(self)@.dom(),
            final(self).root_id_spec() == old(self).root_id_spec(),
            forall|i: NodeId|
                #![trigger old(self)@.contains_key(i)]
                #![trigger final(self).rank(i)]
                old(self)@.contains_key(i) ==> final(self).rank(i) == old(self).rank(i),
    {
        let mut node = match dm_get(&self.map, id) {
            Some(n) => n,
            None => vstd::pervasive::unreached(),
        };
        node.value.additional_info = info;
        dm_insert(&mut self.map, id, node);
        proof {
            assert(self@.dom() =~= old(self)@.dom());
        }
    }

    /// Removes and returns the most recently recorded untried move of the
    /// node, or `None` if its untried-move budget is empty.
    pub fn pop_untried(&mut self, id: NodeId) -> (r: Option<u64>)
        requires
            old(self).wf(),
            old(self)@.contains_key(id),
        ensures
            final(self).wf(),
            final(self)@.dom() == old(self)@.dom(),
            final(self).root_id_spec() == old(self).root_id_spec(),
            forall|i: NodeId|
                #![trigger old(self)@.contains_key(i)]
                #![trigger final(self).rank(i)]
                old(self)@.contains_key(i) ==> final(self).rank(i) == old(self).rank(i),
            old(self)@[id].value.unvisited_moves.len() == 0 ==> r is None && final(self)@ == old(
                self,
            )@,
            old(self)@[id].value.unvisited_moves.len() > 0 ==> r == Some(
                old(self)@[id].value.unvisited_moves.last(),
            ) && (final(self)@ == old(self)@.insert(id, nd_pop_untried(old(self)@[id]))),
    {
        let mut node = match dm_get(&self.map, id) {
            Some(n) => n,
            None => vstd::pervasive::unreached(),
        };
        let r = node_pop_untried(&mut node);
        match r {
            Some(m) => {
                dm_insert(&mut self.map, id, node);
                proof {
                    assert(self@.dom() =~= old(self)@.dom());
                }
                Some(m)
            },
            None => None,
        }
    }

    /// Evaluates the caller-supplied scoring function over every recorded
    /// child of the node and returns the identifier of the child with the
    /// maximum score; ties resolve to the child discovered first. Returns
    /// `None` exactly when the node has no children.
    pub fn get_best_child<F: Fn(LazyMctsNode) -> u64>(&self, id: NodeId, f: F) -> (r: Option<
        NodeId,
    >)
        requires
            self.wf(),
            self@.contains_key(id),
            forall|n: LazyMctsNode| #[trigger] call_requires(f, (n,)),
        ensures
            (r is Some) <==> self@[id].children.len() > 0,
            r matches Some(c) ==> self@[id].children.contains(c),
            r matches Some(c) ==> exists|scores: Seq<u64>, k: int|
                #![trigger is_best_index(scores, k)]
                {
                    &&& scores.len() == self@[id].children.len()
                    &&& forall|j: int| 0 <= j < scores.len() ==> #[trigger] score_accounted(
                        f,
                        self@,
                        self@[id].children,
                        scores,
                        j,
                    )
                    &&& is_best_index(scores, k)
                    &&& c == self@[id].children[k]
                },
    {
        let node = match self.get(id) {
            Some(n) => n,
            None => vstd::pervasive::unreached(),
        };
        let children = node.children;
        let ghost cs = self@[id].children;
        if children.len() == 0 {
            return None;
        }
        let first = match self.get(children[0]) {
            Some(n) => n,
            None => vstd::pervasive::unreached(),
        };
        let mut best_idx: usize = 0;
        let mut best_score: u64 = f(first.value);
        let ghost mut scores = Seq::<u64>::empty().push(best_score);
        let ghost mut witnesses = Seq::<LazyMctsNode>::empty().push(first.value);
        let mut i: usize = 1;
        while i < children.len()
            invariant
                self.wf(),
                self@.contains_key(id),
                children@ == cs,
                cs == self@[id].children,
                forall|n: LazyMctsNode| #[trigger] call_requires(f, (n,)),
                1 <= i <= cs.len(),
                scores.len() == i,
                witnesses.len() == i,
                forall|j: int| 0 <= j < i ==> (#[trigger] witnesses[j])@ == self@[cs[j]].value
                    && call_ensures(f, (witnesses[j],), scores[j]),
                0 <= best_idx < i,
                scores[best_idx as int] == best_score,
                forall|j: int| 0 <= j < i ==> scores[j] <= best_score,
                forall|j: int| 0 <= j < best_idx ==> scores[j] < best_score,
            decreases cs.len() - i,
        {
            proof {
                assert(cs[i as int] == self@[id].children[i as int]);
                assert(self@.contains_key(self@[id].children[i as int]));
            }
            let child = match self.get(children[i]) {
                Some(n) => n,
                None => vstd::pervasive::unreached(),
            };
            let score = f(child.value);
            proof {
                scores = scores.push(score);
                witnesses = witnesses.push(child.value);
            }
            if score > best_score {
                best_idx = i;
                best_score = score;
            }
            i = i + 1;
        }
        proof {
            assert forall|j: int| 0 <= j < scores.len() implies #[trigger] score_accounted(
                f,
                self@,
                self@[id].children,
                scores,
                j,
            ) by {
                assert(cs[j] == self@[id].children[j]);
                assert(call_ensures(f, (witnesses[j],), scores[j]) && witnesses[j]@ == self@[cs[j]].value);
            }
            assert(is_best_index(scores, best_idx as int));
            assert(cs.contains(cs[best_idx as int]));
            assert(scores.len() == self@[id].children.len());
            assert(cs[best_idx as int] == self@[id].children[best_idx as int]);

        }
        Some(children[best_idx])
    }
}

impl Clone for Tree {
    /// The clone holds the same nodes under the same identifiers, with the
    /// same root and the same creation order.
    fn clone(&self) -> (r: Self)
        ensures
            r@ == self@,
            r.root_id_spec() == self.root_id_spec(),
            forall|i: NodeId| #[trigger] r.rank(i) == self.rank(i),
            self.wf() ==> r.wf(),
    {
        Tree { map: dm_clone(&self.map), root: self.root, birth: self.birth, next_birth: self.next_birth }
    }
}

/// Content addressing keeps one node per state hash: two stored nodes whose
/// payloads hash alike are the same node. Together with the get-or-insert
/// contract of [`Tree::add_child`], later creations of an existing
/// identifier resolve to the stored node and never overwrite its payload.
pub proof fn lemma_content_addressed(t: Tree, a: NodeId, b: NodeId)
    requires
        t.wf(),
        t@.contains_key(a),
        t@.contains_key(b),
        t@[a].value.hash == t@[b].value.hash,
    ensures
        a == b,
{
}

/// The node `k` parent steps above `id`, where that many steps exist.
pub open spec fn ancestor(t: Tree, id: NodeId, k: nat) -> Option<NodeId>
    decreases k,
{
    if k == 0 {
        Some(id)
    } else {
        match ancestor(t, id, (k - 1) as nat) {
            Some(a) => if t@.contains_key(a) {
                t@[a].parent
            } else {
                None
            },
            None => None,
        }
    }
}

/// Every ancestor of a stored node is stored, and was created strictly
/// earlier than the node itself.
pub proof fn lemma_ancestor_rank(t: Tree, id: NodeId, k: nat)
    requires
        t.wf(),
        t@.contains_key(id),
    ensures
        ancestor(t, id, k) matches Some(a) ==> t@.contains_key(a) && (k > 0 ==> t.rank(a) < t.rank(
            id,
        )),
    decreases k,
{
    if k > 0 {
        lemma_ancestor_rank(t, id, (k - 1) as nat);
        if ancestor(t, id, k) is Some {
            let prev = ancestor(t, id, (k - 1) as nat).unwrap();
            let a = ancestor(t, id, k).unwrap();
            assert(t@[prev].parent == Some(a));
            assert(prev != t.root_id_spec());
        }
    }
}

/// Acyclicity: no node's ancestor chain contains the node itself. For any
/// positive number of parent steps that exist, the node reached differs from
/// the starting node.
pub proof fn lemma_ancestor_not_self(t: Tree, id: NodeId, k: nat)
    requires
        t.wf(),
        t@.contains_key(id),
        k >= 1,
    ensures
        ancestor(t, id, k) != Some(id),
{
    lemma_ancestor_rank(t, id, k);
}

/// One parent step from `id` continues the chain of its parent: the node
/// `k + 1` steps above `id` is the node `k` steps above `id`'s parent.
pub proof fn lemma_ancestor_step(t: Tree, id: NodeId, p: NodeId, k: nat)
    requires
        t@.contains_key(id),
        t@[id].parent == Some(p),
    ensures
        ancestor(t, id, k + 1) == ancestor(t, p, k),
    decreases k,
{
    if k == 0 {
        assert(ancestor(t, id, 0) == Some(id));
        assert(ancestor(t, p, 0) == Some(p));
        assert(ancestor(t, id, 1) == t@[id].parent);
    } else {
        lemma_ancestor_step(t, id, p, (k - 1) as nat);
        assert(ancestor(t, id, k) == ancestor(t, p, (k - 1) as nat));
        assert(ancestor(t, p, k) == match ancestor(t, p, (k - 1) as nat) {
            Some(a) => if t@.contains_key(a) {
                t@[a].parent
            } else {
                None
            },
            None => None,
        });
    }
}

/// Following parent links from any stored node terminates at the root:
/// some number of parent steps reaches it.
pub proof fn lemma_chain_reaches_root(t: Tree, id: NodeId)
    requires
        t.wf(),
        t@.contains_key(id),
    ensures
        exists|k: nat| ancestor(t, id, k) == Some(t.root_id_spec()),
    decreases t.rank(id),
{
    if id == t.root_id_spec() {
        assert(ancestor(t, id, 0) == Some(t.root_id_spec()));
    } else {
        let p = t@[id].parent.unwrap();
        assert(t@.contains_key(p) && t.rank(p) < t.rank(id));
        lemma_chain_reaches_root(t, p);
        let k = choose|k: nat| ancestor(t, p, k) == Some(t.root_id_spec());
        lemma_ancestor_step(t, id, p, k);
        assert(ancestor(t, id, k + 1) == Some(t.root_id_spec()));
    }
}

/// Whether `i` lies on the ancestor chain of `id`: some number of parent
/// steps (possibly zero) from `id` reaches `i`.
pub open spec fn on_chain(t: Tree, id: NodeId, i: NodeId) -> bool {
    exists|k: nat| ancestor(t, id, k) == Some(i)
}

/// Once a chain has reached the root, no further parent steps exist: past
/// the step that reaches the root, the chain is over.
pub proof fn lemma_ancestor_past_root(t: Tree, id: NodeId, s: nat, k: nat)
    requires
        t.wf(),
        ancestor(t, id, s) == Some(t.root_id_spec()),
        k > s,
    ensures
        ancestor(t, id, k) is None,
    decreases k,
{
    if k == s + 1 {
        assert(ancestor(t, id, k) == t@[t.root_id_spec()].parent);
    } else {
        lemma_ancestor_past_root(t, id, s, (k - 1) as nat);
    }
}

/// Ancestor chains depend only on which nodes are stored and on their
/// parent links: two stores that agree on both have the same chains.
pub proof fn lemma_ancestor_same_shape(t1: Tree, t2: Tree, id: NodeId, k: nat)
    requires
        t1@.dom() == t2@.dom(),
        forall|i: NodeId| #[trigger] t1@.contains_key(i) ==> t1@[i].parent == t2@[i].parent,
    ensures
        ancestor(t1, id, k) == ancestor(t2, id, k),
    decreases k,
{
    if k > 0 {
        lemma_ancestor_same_shape(t1, t2, id, (k - 1) as nat);
        match ancestor(t1, id, (k - 1) as nat) {
            Some(a) => {
                assert(t1@.contains_key(a) == t2@.contains_key(a));
            },
            None => {},
        }
    }
}

/// Any node whose recorded parent is the root carries a trajectory of length
/// exactly one: the single move separating it from the root.
pub proof fn lemma_root_child_trajectory(t: Tree, id: NodeId)
    requires
        t.wf(),
        t@.contains_key(id),
        t@[id].parent == Some(t.root_id_spec()),
    ensures
        t@[id].value.state.len() == 1,
{
    assert(id != t.root_id_spec());
}

} // verus!

