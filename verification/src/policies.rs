//! Baseline strategies: a greedy tree policy that expands one untried move
//! and otherwise descends to the most-visited child, a backpropagation
//! policy that walks the ancestor chain to the root, a playout policy that
//! stops immediately, and an evaluator that rewards every state with one.

use crate::node::LazyMctsNode;
use crate::tree::{ancestor, is_best_index, lemma_ancestor_past_root, nd_add_reward, on_chain, NodeData, NodeId, Tree};
use crate::tree_search::{
    replay, replay_spec, BackPropPolicy, Evaluator, GameTrait, LazyTreePolicy, Playout,
};
use vstd::prelude::*;

verus! {

/// How many selection steps a descent may take before it settles on the
/// current node; transpositions can make child links revisit earlier parts
/// of the tree, so an explicit cutoff bounds the walk.
pub const MAX_DESCENT: u64 = 64;

/// The visit counts of the listed children.
pub open spec fn visits_of(nodes: Map<NodeId, NodeData>, cs: Seq<NodeId>) -> Seq<u64> {
    cs.map(|j: int, c: NodeId| nodes[c].value.n_visits)
}

/// The child of `node_id` with the highest visit count; ties resolve to the
/// child discovered first. `None` exactly when the node has no children.
pub fn best_child_by_visits(tree: &Tree, node_id: NodeId) -> (r: Option<NodeId>)
    requires
        tree.wf(),
        tree@.contains_key(node_id),
    ensures
        (r is Some) <==> tree@[node_id].children.len() > 0,
        r matches Some(c) ==> exists|k: int|
            #![trigger tree@[node_id].children[k]]
            {
                &&& is_best_index(visits_of(tree@, tree@[node_id].children), k)
                &&& c == tree@[node_id].children[k]
            },
{
    let f = |n: LazyMctsNode| -> (s: u64)
        ensures
            s == n.n_visits,
        { n.n_visits };
    let r = tree.get_best_child(node_id, f);
    proof {
        if r is Some {
            let cs = tree@[node_id].children;
            let vs = visits_of(tree@, cs);
            let (scores, k) = choose|scores: Seq<u64>, k: int|
                #![trigger is_best_index(scores, k)]
                {
                    &&& scores.len() == tree@[node_id].children.len()
                    &&& forall|j: int| 0 <= j < scores.len() ==> #[trigger] crate::tree::score_accounted(
                        f,
                        tree@,
                        tree@[node_id].children,
                        scores,
                        j,
                    )
                    &&& is_best_index(scores, k)
                    &&& r.unwrap() == tree@[node_id].children[k]
                };
            assert forall|j: int| 0 <= j < scores.len() implies scores[j] == vs[j] by {
                assert(crate::tree::score_accounted(f, tree@, cs, scores, j));
                let nv = choose|nv: LazyMctsNode|
                    #[trigger] call_ensures(f, (nv,), scores[j]) && nv@ == tree@[cs[j]].value;
                assert(scores[j] == nv.n_visits);
            }
            assert(scores =~= vs);
            assert(is_best_index(vs, k) && r.unwrap() == tree@[node_id].children[k]);
        }
    }
    r
}

/// The move committed to under the most-visited rule: the last trajectory
/// move of the most-visited root child (ties to the child discovered
/// first). This is the decision step of [`crate::tree_search::LazyMcts::best_move`]
/// with the concrete rule pinned down. A root child with an empty
/// trajectory would be a structural invariant violation, which the
/// preconditions rule out.
pub fn best_move_by_visits(tree: &Tree) -> (m: u64)
    requires
        tree.wf(),
        tree@[tree.root_id_spec()].children.len() > 0,
        !tree@[tree.root_id_spec()].children.contains(tree.root_id_spec()),
    ensures
        exists|k: int|
            #![trigger tree@[tree.root_id_spec()].children[k]]
            {
                let cs = tree@[tree.root_id_spec()].children;
                &&& is_best_index(visits_of(tree@, cs), k)
                &&& m == tree@[cs[k]].value.state.last()
            },
{
    let root_id = tree.root_id();
    let bc = match best_child_by_visits(tree, root_id) {
        Some(c) => c,
        None => vstd::pervasive::unreached(),
    };
    proof {
        let cs = tree@[root_id].children;
        let k = choose|k: int|
            #![trigger cs[k]]
            is_best_index(visits_of(tree@, cs), k) && bc == cs[k];
        assert(tree@.contains_key(tree@[root_id].children[k]));
        assert(cs.contains(cs[k]));
        assert(bc != root_id);
    }
    let node = match tree.get(bc) {
        Some(n) => n,
        None => vstd::pervasive::unreached(),
    };
    node.value.state[node.value.state.len() - 1]
}

/// Selection by visit count with one-step expansion: starting from the
/// root, it expands one untried move as soon as it finds one, and otherwise
/// descends to the most-visited child; a node with neither untried moves
/// nor children, or a descent that exhausts its step budget, is returned as
/// it stands.
pub struct GreedyTreePolicy;

impl GreedyTreePolicy {
    /// Expands one untried move of `cur`: the child's trajectory is the
    /// parent's plus that move, its untried-move budget is the legal-move
    /// set of the state it stands for, and its statistics start at zero.
    /// Returns the child's identifier (which may name a node that another
    /// path created first) and the state replayed from its stored
    /// trajectory.
    fn expand<State: GameTrait>(tree: &mut Tree, root_state: &State, cur: NodeId, m: u64) -> (r: (
        NodeId,
        State,
    ))
        requires
            old(tree).wf(),
            old(tree)@.contains_key(cur),
        ensures
            final(tree).wf(),
            final(tree).root_id_spec() == old(tree).root_id_spec(),
            final(tree)@.contains_key(r.0),
            r.1 == replay_spec(*root_state, final(tree)@[r.0].value.state),
            final(tree)@.dom() == old(tree)@.dom() || final(tree)@.dom() == old(
                tree,
            )@.dom().insert(r.0),
            forall|i: NodeId|
                #![trigger old(tree)@.contains_key(i)]
                #![trigger final(tree)@.contains_key(i)]
                old(tree)@.contains_key(i) ==> final(tree)@.contains_key(i)
                    && final(tree)@[i].value.n_visits == old(tree)@[i].value.n_visits
                    && final(tree)@[i].value.sum_rewards == old(tree)@[i].value.sum_rewards
                    && final(tree).rank(i) == old(tree).rank(i),
    {
        let parent = match tree.get(cur) {
            Some(n) => n,
            None => vstd::pervasive::unreached(),
        };
        let mut traj: Vec<u64> = Vec::new();
        let mut i: usize = 0;
        let src = &parent.value.state;
        while i < src.len()
            invariant
                i <= src.len(),
                traj@ == src@.take(i as int),
            decreases src.len() - i,
        {
            traj.push(src[i]);
            proof {
                assert(src@.take(i + 1 as int) =~= src@.take(i as int).push(src@[i as int]));
            }
            i = i + 1;
        }
        proof {
            assert(src@.take(src@.len() as int) =~= src@);
        }
        traj.push(m);
        let child_state = replay(root_state, &traj);
        let child = LazyMctsNode {
            sum_rewards: 0,
            n_visits: 0,
            unvisited_moves: child_state.legals_moves(),
            hash: child_state.hash(),
            state: traj,
            additional_info: 0,
        };
        let cid = tree.add_child(cur, child);
        let stored = match tree.get(cid) {
            Some(n) => n,
            None => vstd::pervasive::unreached(),
        };
        let out = replay(root_state, &stored.value.state);
        (cid, out)
    }
}

impl<State: GameTrait, EV: Evaluator<State>> LazyTreePolicy<State, EV> for GreedyTreePolicy {
    fn tree_policy(tree: &mut Tree, root_state: &State, args: &EV::Args) -> (r: (NodeId, State)) {
        let mut cur = tree.root_id();
        let mut fuel: u64 = MAX_DESCENT;
        loop
            invariant
                tree.wf(),
                tree@.contains_key(cur),
                tree.root_id_spec() == old(tree).root_id_spec(),
                tree@.dom() == old(tree)@.dom(),
                forall|i: NodeId|
                    #![trigger old(tree)@.contains_key(i)]
                    #![trigger tree@.contains_key(i)]
                    old(tree)@.contains_key(i) ==> tree@.contains_key(i)
                        && tree@[i].value.n_visits == old(tree)@[i].value.n_visits
                        && tree@[i].value.sum_rewards == old(tree)@[i].value.sum_rewards
                        && tree.rank(i) == old(tree).rank(i),
            decreases fuel,
        {
            let node = match tree.get(cur) {
                Some(n) => n,
                None => vstd::pervasive::unreached(),
            };
            if node.value.unvisited_moves.len() > 0 {
                let m = match tree.pop_untried(cur) {
                    Some(m) => m,
                    None => vstd::pervasive::unreached(),
                };
                let ghost mid = *tree;
                let r = Self::expand(tree, root_state, cur, m);
                proof {
                    assert forall|i: NodeId| old(tree)@.contains_key(i) implies tree@.contains_key(
                        i,
                    ) && tree@[i].value.n_visits == old(tree)@[i].value.n_visits
                        && tree@[i].value.sum_rewards == old(tree)@[i].value.sum_rewards
                        && tree.rank(i) == old(tree).rank(i) by {
                        assert(mid@.contains_key(i));
                    }
                }
                return r;
            }
            if fuel == 0 || node.children.len() == 0 {
                let out = replay(root_state, &node.value.state);
                return (cur, out);
            }
            let next = match best_child_by_visits(tree, cur) {
                Some(c) => c,
                None => vstd::pervasive::unreached(),
            };
            proof {
                let k = choose|k: int|
                    #![trigger tree@[cur].children[k]]
                    0 <= k < tree@[cur].children.len() && next == tree@[cur].children[k];
                assert(tree@.contains_key(tree@[cur].children[k]));
            }
            cur = next;
            fuel = fuel - 1;
        }
    }

    fn best_child(tree: &Tree, turn: u64, node_id: NodeId, args: &EV::Args) -> (r: NodeId) {
        match best_child_by_visits(tree, node_id) {
            Some(c) => c,
            None => vstd::pervasive::unreached(),
        }
    }
}

/// The standard backpropagation rule: one visit and the full reward are
/// added to the chosen node and to each node on its ancestor chain, ending
/// at the root. Creation ranks strictly decrease along parent links, so the
/// walk terminates and touches each node at most once.
pub struct PlainBackProp;

impl BackPropPolicy for PlainBackProp {
    fn backprop(tree: &mut Tree, id: NodeId, reward: u64) {
        let ghost orig = *old(tree);
        let root = tree.root_id();
        tree.add_reward(id, reward);
        let mut cur = id;
        let ghost mut steps: nat = 0;
        proof {
            assert(ancestor(orig, id, 0) == Some(id));
        }
        while cur != root
            invariant
                tree.wf(),
                orig.wf(),
                orig@.contains_key(id),
                orig@.contains_key(cur),
                tree@.contains_key(id),
                tree@.contains_key(cur),
                root == orig.root_id_spec(),
                tree.root_id_spec() == root,
                tree@.dom() == orig@.dom(),
                forall|i: NodeId| orig@.contains_key(i) ==> tree.rank(i) == orig.rank(i),
                forall|i: NodeId| orig@.contains_key(i) ==> tree@[i] == orig@[i] || tree@[i]
                    == nd_add_reward(orig@[i], reward),
                tree@[id] == nd_add_reward(orig@[id], reward),
                tree@[cur] == nd_add_reward(orig@[cur], reward),
                tree.rank(cur) <= tree.rank(id),
                forall|i: NodeId| orig@.contains_key(i) && tree.rank(i) < tree.rank(cur)
                    ==> tree@[i] == orig@[i],
                ancestor(orig, id, steps) == Some(cur),
                forall|k: nat|
                    #![trigger ancestor(orig, id, k)]
                    k <= steps && ancestor(orig, id, k) is Some ==> tree@[ancestor(
                        orig,
                        id,
                        k,
                    ).unwrap()] == nd_add_reward(orig@[ancestor(orig, id, k).unwrap()], reward),
                forall|k: nat|
                    #![trigger ancestor(orig, id, k)]
                    k <= steps && ancestor(orig, id, k) is Some ==> orig.rank(
                        ancestor(orig, id, k).unwrap(),
                    ) >= orig.rank(cur),
                forall|i: NodeId|
                    #![trigger tree@[i]]
                    orig@.contains_key(i) ==> tree@[i] == orig@[i] || exists|k: nat|
                        k <= steps && ancestor(orig, id, k) == Some(i),
            decreases tree.rank(cur),
        {
            let p = tree.parent_id(cur);
            proof {
                assert(tree@[cur].parent == Some(p));
                assert(tree@[cur].parent.unwrap() == p);
                assert(tree@.contains_key(p));
                assert(tree.rank(p) < tree.rank(cur));
                assert(tree.rank(cur) <= tree.rank(id));
                assert(tree@[p] == orig@[p]);
                assert(orig@[cur].parent == Some(p));
                assert(ancestor(orig, id, steps + 1) == Some(p));
                assert forall|k: nat|
                    k <= steps && ancestor(orig, id, k) is Some implies ancestor(orig, id, k)
                    != Some(p) by {
                    assert(orig.rank(ancestor(orig, id, k).unwrap()) >= orig.rank(cur));
                }
            }
            tree.add_reward(p, reward);
            proof {
                assert(tree.rank(p) < tree.rank(id));
                steps = steps + 1;
            }
            cur = p;
        }
        proof {
            assert forall|k: nat| ancestor(orig, id, k) is Some implies tree@[ancestor(
                orig,
                id,
                k,
            ).unwrap()] == nd_add_reward(orig@[ancestor(orig, id, k).unwrap()], reward) by {
                if k > steps {
                    lemma_ancestor_past_root(orig, id, steps, k);
                }
            }
            assert forall|i: NodeId|
                orig@.contains_key(i) && !on_chain(orig, id, i) implies tree@[i] == orig@[i] by {
                if tree@[i] != orig@[i] {
                    let k = choose|k: nat| k <= steps && ancestor(orig, id, k) == Some(i);
                    assert(ancestor(orig, id, k) == Some(i));
                    assert(on_chain(orig, id, i));
                }
            }
        }
    }
}

/// A playout policy that performs no simulation: the selected state is
/// evaluated as it stands.
pub struct NoPlayout;

impl<State: GameTrait> Playout<State> for NoPlayout {
    type Args = ();

    fn playout(state: State, args: ()) -> State {
        state
    }
}

/// An evaluator that rewards every state with one, whoever is to move.
pub struct UnitEvaluator;

impl<State: GameTrait> Evaluator<State> for UnitEvaluator {
    type Args = ();

    fn evaluate_leaf(state: &State, turn: u64, args: &()) -> u64 {
        1
    }
}

} // verus!
