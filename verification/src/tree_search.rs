//! The search orchestrator: one Monte Carlo iteration per call against an
//! immutable root game state and a node store rooted at that state's hash.
//!
//! Nodes store only the move trajectory from the root; the state a node
//! stands for is reconstructed on demand by [`replay`]ing its trajectory
//! onto the root state. The four phases of an iteration are delegated to
//! injected strategies: tree policy (selection and expansion), playout
//! policy (simulation), evaluator (leaf scoring) and backpropagation policy
//! (statistics update).

use crate::node::{LazyMctsNode, MctsNodeData};
use crate::tree::{ancestor, nd_add_reward, on_chain, sat_add, NodeData, NodeId, Tree};
use core::marker::PhantomData;
use vstd::prelude::*;

verus! {

/// A game state: it can enumerate its legal moves, hash itself, report
/// whose turn it is, apply a move, and copy itself. Moves are encoded as
/// `u64` values of the game's choosing. The pairing of each method with a
/// spec function makes every implementation deterministic, so identical
/// states hash identically regardless of the path taken to reach them —
/// which is what enables transposition sharing.
pub trait GameTrait: Sized {
    spec fn legals_spec(&self) -> Seq<u64>;

    spec fn hash_spec(&self) -> u64;

    spec fn turn_spec(&self) -> u64;

    spec fn apply_spec(&self, m: u64) -> Self;

    /// The set of legal moves from this state.
    fn legals_moves(&self) -> (r: Vec<u64>)
        ensures
            r@ == self.legals_spec(),
    ;

    /// A stable hash identifying this state.
    fn hash(&self) -> (r: u64)
        ensures
            r == self.hash_spec(),
    ;

    /// Whose turn it is in this state.
    fn player_turn(&self) -> (r: u64)
        ensures
            r == self.turn_spec(),
    ;

    /// The successor state after playing `m`.
    fn apply_move(&self, m: u64) -> (r: Self)
        ensures
            r == self.apply_spec(m),
    ;

    /// An equal copy of this state.
    fn clone_state(&self) -> (r: Self)
        ensures
            r == *self,
    ;
}

/// The state reached by playing `moves` in order from `root`.
pub open spec fn replay_spec<State: GameTrait>(root: State, moves: Seq<u64>) -> State
    decreases moves.len(),
{
    if moves.len() == 0 {
        root
    } else {
        replay_spec(root, moves.drop_last()).apply_spec(moves.last())
    }
}

/// Reconstructs the state a trajectory leads to by replaying its moves onto
/// the root state.
pub fn replay<State: GameTrait>(root: &State, moves: &Vec<u64>) -> (s: State)
    ensures
        s == replay_spec(*root, moves@),
{
    let mut s = root.clone_state();
    let mut i: usize = 0;
    while i < moves.len()
        invariant
            i <= moves.len(),
            s == replay_spec(*root, moves@.take(i as int)),
        decreases moves.len() - i,
    {
        s = s.apply_move(moves[i]);
        proof {
            assert(moves@.take(i + 1 as int).drop_last() =~= moves@.take(i as int));
            assert(moves@.take(i + 1 as int).last() == moves@[i as int]);
        }
        i = i + 1;
    }
    proof {
        assert(moves@.take(moves@.len() as int) =~= moves@);
    }
    s
}

/// Scores a terminal or cutoff state from the perspective of the player to
/// move at the root, as a non-negative reward.
pub trait Evaluator<State: GameTrait> {
    type Args;

    fn evaluate_leaf(state: &State, turn: u64, args: &Self::Args) -> u64;
}

/// Advances a state to a terminal or cutoff state.
pub trait Playout<State: GameTrait> {
    type Args;

    fn playout(state: State, args: Self::Args) -> State;
}

/// Selection and expansion. `tree_policy` walks existing nodes from the
/// root and typically expands one new child; it must leave every node that
/// already existed with its statistics untouched, and must return a stored
/// node together with the state reconstructed by replaying that node's
/// stored trajectory onto the root state. `best_child` picks, among the
/// children of the given node, the one to commit to.
pub trait LazyTreePolicy<State: GameTrait, EV: Evaluator<State>> {
    fn tree_policy(tree: &mut Tree, root_state: &State, args: &EV::Args) -> (r: (NodeId, State))
        requires
            old(tree).wf(),
        ensures
            final(tree).wf(),
            final(tree).root_id_spec() == old(tree).root_id_spec(),
            final(tree)@.contains_key(r.0),
            r.1 == replay_spec(*root_state, final(tree)@[r.0].value.state),
            final(tree)@.dom() == old(tree)@.dom() || final(tree)@.dom() == old(
                tree,
            )@.dom().insert(r.0),
            forall|i: NodeId|
                #![trigger old(tree)@.contains_key(i)]
                #![trigger final(tree)@.contains_key(i)]
                old(tree)@.contains_key(i) ==> final(tree)@.contains_key(i)
                    && final(tree)@[i].value.n_visits == old(tree)@[i].value.n_visits
                    && final(tree)@[i].value.sum_rewards == old(tree)@[i].value.sum_rewards
                    && final(tree).rank(i) == old(tree).rank(i),
    ;

    fn best_child(tree: &Tree, turn: u64, node_id: NodeId, args: &EV::Args) -> (r: NodeId)
        requires
            tree.wf(),
            tree@.contains_key(node_id),
            tree@[node_id].children.len() > 0,
        ensures
            tree@[node_id].children.contains(r),
    ;
}

/// Writes one reward back into the chosen node and every node on its
/// ancestor chain up to the root: each such node gains exactly one visit
/// and `reward` more cumulative reward, every other node is untouched.
pub trait BackPropPolicy {
    fn backprop(tree: &mut Tree, id: NodeId, reward: u64)
        requires
            old(tree).wf(),
            old(tree)@.contains_key(id),
        ensures
            final(tree).wf(),
            final(tree).root_id_spec() == old(tree).root_id_spec(),
            final(tree)@.dom() == old(tree)@.dom(),
            forall|i: NodeId|
                #![trigger old(tree)@.contains_key(i)]
                #![trigger final(tree).rank(i)]
                old(tree)@.contains_key(i) ==> final(tree).rank(i) == old(tree).rank(i),
            forall|i: NodeId|
                #![trigger old(tree)@.contains_key(i)]
                #![trigger final(tree)@[i]]
                old(tree)@.contains_key(i) ==> final(tree)@[i] == old(tree)@[i] || final(tree)@[i]
                    == nd_add_reward(old(tree)@[i], reward),
            forall|k: nat|
                #![trigger ancestor(*old(tree), id, k)]
                ancestor(*old(tree), id, k) matches Some(a) ==> final(tree)@[a] == nd_add_reward(
                    old(tree)@[a],
                    reward,
                ),
            forall|i: NodeId|
                #![trigger on_chain(*old(tree), id, i)]
                old(tree)@.contains_key(i) && !on_chain(*old(tree), id, i) ==> final(tree)@[i]
                    == old(tree)@[i],
            final(tree)@[id] == nd_add_reward(old(tree)@[id], reward),
            final(tree)@[old(tree).root_id_spec()] == nd_add_reward(
                old(tree)@[old(tree).root_id_spec()],
                reward,
            ),
    ;
}

/// One full backpropagation is visible on `t` relative to the earlier node
/// map `pre`: the node `nid` is stored, and every node on its ancestor chain
/// shows the visit — a chain node that `pre` already stored gained exactly
/// one visit and `rw` more reward (both saturating), and even a chain node
/// created since shows at least the one visit.
pub open spec fn chain_credited(pre: Map<NodeId, NodeData>, t: Tree, nid: NodeId, rw: u64) -> bool {
    &&& t@.contains_key(nid)
    &&& forall|k: nat|
        #![trigger ancestor(t, nid, k)]
        ancestor(t, nid, k) is Some ==> {
            let a = ancestor(t, nid, k).unwrap();
            &&& t@[a].value.n_visits >= 1
            &&& pre.contains_key(a) ==> t@[a].value.n_visits == sat_add(pre[a].value.n_visits, 1)
                && t@[a].value.sum_rewards == sat_add(pre[a].value.sum_rewards, rw)
        }
}

/// The orchestrator. It holds the immutable root state and the node store;
/// the four strategies are injected as type parameters and carry no state.
pub struct LazyMcts<State, TP, PP, BP, EV> where
    State: GameTrait,
    TP: LazyTreePolicy<State, EV>,
    PP: Playout<State>,
    BP: BackPropPolicy,
    EV: Evaluator<State>,
 {
    root_state: State,
    tree_policy: PhantomData<TP>,
    playout_policy: PhantomData<PP>,
    backprop_policy: PhantomData<BP>,
    evaluator: PhantomData<EV>,
    tree: Tree,
}

impl<State, TP, PP, BP, EV> LazyMcts<State, TP, PP, BP, EV> where
    State: GameTrait,
    TP: LazyTreePolicy<State, EV>,
    PP: Playout<State>,
    BP: BackPropPolicy,
    EV: Evaluator<State>,
 {
    /// The node store.
    pub closed spec fn tree_spec(self) -> Tree {
        self.tree
    }

    /// The immutable root state.
    pub closed spec fn root_state_spec(self) -> State {
        self.root_state
    }

    /// The stored nodes, by identifier.
    pub open spec fn nodes(self) -> Map<NodeId, NodeData> {
        self.tree_spec()@
    }

    /// The identifier of the root node.
    pub open spec fn root_id_spec(self) -> NodeId {
        self.tree_spec().root_id_spec()
    }

    /// The store is well-formed and rooted at the root state's hash.
    pub open spec fn wf(self) -> bool {
        &&& self.tree_spec().wf()
        &&& self.tree_spec().root_id_spec() == self.root_state_spec().hash_spec()
    }

    /// Seeds the store with a single root node: zero reward, zero visits,
    /// the full set of legal moves from the root state as untried-move
    /// budget, and an empty trajectory.
    pub fn new(root_state: State) -> (r: Self)
        ensures
            r.wf(),
            r.root_state_spec() == root_state,
            (r.nodes() == Map::<NodeId, NodeData>::empty().insert(
                root_state.hash_spec(),
                NodeData {
                    parent: None,
                    children: Seq::empty(),
                    value: MctsNodeData {
                        sum_rewards: 0,
                        n_visits: 0,
                        unvisited_moves: root_state.legals_spec(),
                        hash: root_state.hash_spec(),
                        state: Seq::empty(),
                        additional_info: 0,
                    },
                },
            )),
    {
        Self::with_capacity(root_state, 0)
    }

    /// As [`LazyMcts::new`], with a capacity hint that pre-sizes the store.
    pub fn with_capacity(root_state: State, capacity: usize) -> (r: Self)
        ensures
            r.wf(),
            r.root_state_spec() == root_state,
            (r.nodes() == Map::<NodeId, NodeData>::empty().insert(
                root_state.hash_spec(),
                NodeData {
                    parent: None,
                    children: Seq::empty(),
                    value: MctsNodeData {
                        sum_rewards: 0,
                        n_visits: 0,
                        unvisited_moves: root_state.legals_spec(),
                        hash: root_state.hash_spec(),
                        state: Seq::empty(),
                        additional_info: 0,
                    },
                },
            )),
    {
        let root_node = LazyMctsNode {
            sum_rewards: 0,
            n_visits: 0,
            unvisited_moves: root_state.legals_moves(),
            hash: root_state.hash(),
            state: Vec::new(),
            additional_info: 0,
        };
        let tree = Tree::with_capacity(root_node, capacity);
        LazyMcts {
            root_state,
            tree_policy: PhantomData,
            playout_policy: PhantomData,
            backprop_policy: PhantomData,
            evaluator: PhantomData,
            tree,
        }
    }

    /// A read handle on the node store.
    pub fn tree(&self) -> (t: &Tree)
        ensures
            *t == self.tree_spec(),
    {
        &self.tree
    }

    /// Executes one iteration: selection and expansion, simulation,
    /// evaluation, backpropagation. At most one node is added; the root
    /// gains exactly one visit, every node gains at most one, one stored
    /// node's whole ancestor chain is credited with the iteration's reward,
    /// and no node loses visits or reward. Iterations are driven through
    /// `&mut self`, one caller at a time: Verus needs the exclusive
    /// reference to state how the store changes.
    pub fn execute(&mut self, evaluation_args: &EV::Args, playout_args: PP::Args)
        requires
            old(self).wf(),
        ensures
            final(self).wf(),
            final(self).root_state_spec() == old(self).root_state_spec(),
            final(self).root_id_spec() == old(self).root_id_spec(),
            forall|i: NodeId|
                #![trigger old(self).nodes().contains_key(i)]
                #![trigger final(self).nodes().contains_key(i)]
                old(self).nodes().contains_key(i) ==> final(self).nodes().contains_key(i) && final(self).nodes()[i].value.n_visits >= old(self).nodes()[i].value.n_visits && final(self).nodes()[i].value.sum_rewards >= old(self).nodes()[i].value.sum_rewards,
            forall|i: NodeId|
                #![trigger old(self).nodes().contains_key(i)]
                old(self).nodes().contains_key(i) ==> final(self).nodes()[i].value.n_visits == old(
                    self,
                ).nodes()[i].value.n_visits || final(self).nodes()[i].value.n_visits == sat_add(
                    old(self).nodes()[i].value.n_visits,
                    1,
                ),
            final(self).nodes().dom() == old(self).nodes().dom() || exists|nid: NodeId|
                #![trigger old(self).nodes().dom().insert(nid)]
                !old(self).nodes().contains_key(nid) && final(self).nodes().dom() == old(
                    self,
                ).nodes().dom().insert(nid),
            exists|nid: NodeId, rw: u64|
                #![trigger chain_credited(old(self).nodes(), final(self).tree_spec(), nid, rw)]
                chain_credited(old(self).nodes(), final(self).tree_spec(), nid, rw),
            final(self).nodes()[final(self).root_id_spec()].value.n_visits == crate::tree::sat_add(
                old(self).nodes()[old(self).root_id_spec()].value.n_visits,
                1,
            ),
    {
        let (node_id, state) = TP::tree_policy(&mut self.tree, &self.root_state, evaluation_args);
        let ghost mid = self.tree;
        let final_state = PP::playout(state, playout_args);
        let eval = EV::evaluate_leaf(&final_state, self.root_state.player_turn(), evaluation_args);
        BP::backprop(&mut self.tree, node_id, eval);
        proof {
            assert forall|i: NodeId| #[trigger] mid@.contains_key(i) implies mid@[i].parent
                == self.tree@[i].parent by {
                assert(self.tree@[i] == mid@[i] || self.tree@[i] == nd_add_reward(mid@[i], eval));
            }
            assert forall|k: nat| ancestor(self.tree, node_id, k) is Some implies {
                let a = ancestor(self.tree, node_id, k).unwrap();
                &&& self.tree@[a].value.n_visits >= 1
                &&& old(self).nodes().contains_key(a) ==> self.tree@[a].value.n_visits == sat_add(
                    old(self).nodes()[a].value.n_visits,
                    1,
                ) && self.tree@[a].value.sum_rewards == sat_add(
                    old(self).nodes()[a].value.sum_rewards,
                    eval,
                )
            } by {
                crate::tree::lemma_ancestor_same_shape(self.tree, mid, node_id, k);
                let a = ancestor(self.tree, node_id, k).unwrap();
                assert(self.tree@[a] == nd_add_reward(mid@[a], eval));
            }
            assert(chain_credited(old(self).nodes(), self.tree, node_id, eval));
            if mid@.dom() != old(self).nodes().dom() {
                assert(mid@.dom() == old(self).nodes().dom().insert(node_id));
                if old(self).nodes().contains_key(node_id) {
                    assert(old(self).nodes().dom().insert(node_id) =~= old(self).nodes().dom());
                }
            }
        }
    }

    /// An equal copy of the orchestrator: the same root state, and a store
    /// holding the same nodes.
    pub fn clone(&self) -> (r: Self)
        ensures
            r.root_state_spec() == self.root_state_spec(),
            r.nodes() == self.nodes(),
            r.root_id_spec() == self.root_id_spec(),
            self.wf() ==> r.wf(),
    {
        LazyMcts {
            root_state: self.root_state.clone_state(),
            tree_policy: PhantomData,
            playout_policy: PhantomData,
            backprop_policy: PhantomData,
            evaluator: PhantomData,
            tree: self.tree.clone(),
        }
    }

    /// Picks the root child to commit to via the tree policy's `best_child`
    /// rule and returns the last move of that child's trajectory: the one
    /// move separating it from the root. A root child with an empty
    /// trajectory would be a structural invariant violation, which the
    /// preconditions rule out.
    pub fn best_move(&self, evaluator_args: &EV::Args) -> (m: u64)
        requires
            self.wf(),
            self.nodes()[self.root_id_spec()].children.len() > 0,
            !self.nodes()[self.root_id_spec()].children.contains(self.root_id_spec()),
        ensures
            exists|c: NodeId|
                #![trigger self.nodes()[c]]
                {
                    &&& self.nodes()[self.root_id_spec()].children.contains(c)
                    &&& self.nodes().contains_key(c)
                    &&& self.nodes()[c].value.state.len() > 0
                    &&& m == self.nodes()[c].value.state.last()
                },
    {
        let turn = self.root_state.player_turn();
        let root_id = self.tree.root_id();
        let best_child = TP::best_child(&self.tree, turn, root_id, evaluator_args);
        proof {
            let j = choose|j: int|
                0 <= j < self.nodes()[root_id].children.len() && self.nodes()[root_id].children[j]
                    == best_child;
            assert(self.nodes().contains_key(self.nodes()[root_id].children[j]));
            assert(best_child != root_id);
        }
        let node = match self.tree.get(best_child) {
            Some(n) => n,
            None => vstd::pervasive::unreached(),
        };
        node.value.state[node.value.state.len() - 1]
    }
}

} // verus!
