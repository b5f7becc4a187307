use lazy_mcts::games::CountingGame;
use lazy_mcts::policies::{
    best_child_by_visits, best_move_by_visits, GreedyTreePolicy, NoPlayout, PlainBackProp,
    UnitEvaluator,
};
use lazy_mcts::tree_search::{replay, GameTrait, LazyTreePolicy};
use lazy_mcts::{LazyMcts, LazyMctsNode, Tree};

type Mcts = LazyMcts<CountingGame, GreedyTreePolicy, NoPlayout, PlainBackProp, UnitEvaluator>;

fn node_for(total: u8, trajectory: Vec<u64>) -> LazyMctsNode {
    let state = CountingGame { total };
    LazyMctsNode {
        sum_rewards: 0,
        n_visits: 0,
        unvisited_moves: state.legals_moves(),
        hash: state.hash(),
        state: trajectory,
        additional_info: 0,
    }
}

#[test]
fn root_seeding() {
    let mcts = Mcts::new(CountingGame { total: 0 });
    let root = mcts.tree().root();
    assert_eq!(root.value.n_visits, 0);
    assert_eq!(root.value.sum_rewards, 0);
    assert_eq!(root.value.unvisited_moves, vec![1, 2, 3]);
    assert_eq!(root.value.unvisited_moves.len(), 3);
    assert!(root.value.state.is_empty());
    assert!(root.parent.is_none());
    assert_eq!(mcts.tree().root_id(), 0);
}

#[test]
fn transposition_merging() {
    // Reaching total 3 via "+3" and via "+1 then +2" must resolve to the
    // same node, with shared statistics.
    let mut tree = Tree::new(node_for(0, vec![]));
    let root_id = tree.root_id();
    let via_three = tree.add_child(root_id, node_for(3, vec![3]));
    let via_one = tree.add_child(root_id, node_for(1, vec![1]));
    let via_one_two = tree.add_child(via_one, node_for(3, vec![1, 2]));
    assert_eq!(via_three, via_one_two);
    tree.add_reward(via_three, 7);
    let shared = tree.get(via_one_two).unwrap();
    assert_eq!(shared.value.n_visits, 1);
    assert_eq!(shared.value.sum_rewards, 7);
    // The stored node keeps its first creator's payload: trajectory "+3".
    assert_eq!(shared.value.state, vec![3]);
    assert_eq!(shared.parent, Some(root_id));
}

#[test]
fn repeated_insertion_never_overwrites() {
    let mut tree = Tree::new(node_for(0, vec![]));
    let root_id = tree.root_id();
    let first = tree.add_child(root_id, node_for(2, vec![2]));
    tree.add_reward(first, 5);
    let again = tree.add_child(root_id, node_for(2, vec![2]));
    assert_eq!(first, again);
    let stored = tree.get(again).unwrap();
    assert_eq!(stored.value.sum_rewards, 5);
    assert_eq!(stored.value.n_visits, 1);
    // The root now lists the shared child twice, in discovery order.
    let root = tree.root();
    assert_eq!(root.children, vec![first, first]);
}

#[test]
fn monotonic_statistics() {
    let mut tree = Tree::new(node_for(0, vec![]));
    let root_id = tree.root_id();
    let mut last_visits = 0;
    let mut last_sum = 0;
    for reward in [0, 3, 1, 10] {
        tree.add_reward(root_id, reward);
        let node = tree.get(root_id).unwrap();
        assert!(node.value.n_visits >= last_visits);
        assert!(node.value.sum_rewards >= last_sum);
        last_visits = node.value.n_visits;
        last_sum = node.value.sum_rewards;
    }
    assert_eq!(last_visits, 4);
    assert_eq!(last_sum, 14);
    // Saturation never decreases either counter.
    tree.add_reward(root_id, u64::MAX);
    tree.add_reward(root_id, u64::MAX);
    let node = tree.get(root_id).unwrap();
    assert_eq!(node.value.sum_rewards, u64::MAX);
    assert_eq!(node.value.n_visits, 6);
}

#[test]
fn execute_adds_one_root_visit_per_iteration() {
    let mut mcts = Mcts::new(CountingGame { total: 0 });
    let iterations = 10;
    for _ in 0..iterations {
        mcts.execute(&(), ());
    }
    let root = mcts.tree().root();
    assert_eq!(root.value.n_visits, iterations);
    // Each iteration descends through at most one immediate child.
    let mut child_visits = 0;
    for child in &root.children {
        child_visits += mcts.tree().get(*child).unwrap().value.n_visits;
    }
    assert!(child_visits <= iterations);
}

#[test]
fn best_move_picks_most_visited_child() {
    // Root with three children holding visit counts {5, 12, 7}: the move
    // committed to must be the one leading to the 12-visit child.
    let mut tree = Tree::new(node_for(0, vec![]));
    let root_id = tree.root_id();
    let c1 = tree.add_child(root_id, node_for(1, vec![1]));
    let c2 = tree.add_child(root_id, node_for(2, vec![2]));
    let c3 = tree.add_child(root_id, node_for(3, vec![3]));
    for _ in 0..5 {
        tree.add_reward(c1, 1);
    }
    for _ in 0..12 {
        tree.add_reward(c2, 1);
    }
    for _ in 0..7 {
        tree.add_reward(c3, 1);
    }
    let best = <GreedyTreePolicy as LazyTreePolicy<CountingGame, UnitEvaluator>>::best_child(
        &tree, 0, root_id, &(),
    );
    assert_eq!(best, c2);
    let committed = *tree.get(best).unwrap().value.state.last().unwrap();
    assert_eq!(committed, 2);
    assert_eq!(best_move_by_visits(&tree), 2);
}

#[test]
fn best_move_through_orchestrator() {
    let mut mcts = Mcts::new(CountingGame { total: 0 });
    mcts.execute(&(), ());
    // The untried-move budget is popped from the back, so the first
    // expansion tries "+3"; it is the only child, hence the best move.
    assert_eq!(mcts.best_move(&()), 3);
}

#[test]
fn tie_breaks_resolve_to_first_discovered_child() {
    let mut tree = Tree::new(node_for(0, vec![]));
    let root_id = tree.root_id();
    let c1 = tree.add_child(root_id, node_for(1, vec![1]));
    let c2 = tree.add_child(root_id, node_for(2, vec![2]));
    let c3 = tree.add_child(root_id, node_for(3, vec![3]));
    for _ in 0..5 {
        tree.add_reward(c1, 1);
    }
    for _ in 0..12 {
        tree.add_reward(c2, 1);
    }
    for _ in 0..12 {
        tree.add_reward(c3, 1);
    }
    assert_eq!(best_child_by_visits(&tree, root_id), Some(c2));
    let scored = tree.get_best_child(root_id, |n: LazyMctsNode| n.sum_rewards);
    assert_eq!(scored, Some(c2));
}

#[test]
fn absent_ids_are_reported_not_thrown() {
    let tree = Tree::new(node_for(0, vec![]));
    assert!(tree.get(999).is_none());
    assert!(tree.get(tree.root_id()).is_some());
}

#[test]
fn parent_chain_walks_to_root_without_revisits() {
    let mut tree = Tree::new(node_for(0, vec![]));
    let root_id = tree.root_id();
    let a = tree.add_child(root_id, node_for(1, vec![1]));
    let b = tree.add_child(a, node_for(2, vec![1, 1]));
    let c = tree.add_child(b, node_for(4, vec![1, 1, 2]));
    let mut seen = vec![c];
    let mut cur = c;
    while cur != root_id {
        cur = tree.parent_id(cur);
        assert!(!seen.contains(&cur));
        seen.push(cur);
    }
    assert_eq!(seen, vec![c, b, a, root_id]);
}

#[test]
fn pop_untried_takes_the_most_recent_move() {
    let mut tree = Tree::new(node_for(0, vec![]));
    let root_id = tree.root_id();
    assert_eq!(tree.pop_untried(root_id), Some(3));
    assert_eq!(tree.pop_untried(root_id), Some(2));
    assert_eq!(tree.pop_untried(root_id), Some(1));
    assert_eq!(tree.pop_untried(root_id), None);
}

#[test]
fn replay_reconstructs_states_from_trajectories() {
    let root = CountingGame { total: 0 };
    assert_eq!(replay(&root, &vec![]).total, 0);
    assert_eq!(replay(&root, &vec![1, 2]).total, 3);
    assert_eq!(replay(&root, &vec![3, 3, 3, 1]).total, 10);
    // Illegal moves leave the state unchanged.
    assert_eq!(replay(&root, &vec![4]).total, 0);
    // Terminal states have no legal moves.
    assert!(CountingGame { total: 10 }.legals_moves().is_empty());
    assert_eq!(CountingGame { total: 4 }.player_turn(), 0);
    assert_eq!(CountingGame { total: 5 }.player_turn(), 1);
}

#[test]
fn random_agent_picks_a_legal_move() {
    let mut rng = rand::thread_rng();
    let state = CountingGame { total: 0 };
    for _ in 0..50 {
        let m = lazy_mcts::agents::random_agent(&state, &mut rng);
        assert!(1 <= m && m <= 3);
    }
}

#[test]
fn expansion_records_trajectory_of_length_one_under_root() {
    let mut mcts = Mcts::new(CountingGame { total: 0 });
    mcts.execute(&(), ());
    let root = mcts.tree().root();
    assert_eq!(root.children.len(), 1);
    let child = mcts.tree().get(root.children[0]).unwrap();
    assert_eq!(child.parent, Some(mcts.tree().root_id()));
    assert_eq!(child.value.state.len(), 1);
}

#[test]
fn clones_are_independent() {
    let mut tree = Tree::new(node_for(0, vec![]));
    let root_id = tree.root_id();
    let copy = tree.clone();
    tree.add_reward(root_id, 9);
    assert_eq!(tree.get(root_id).unwrap().value.sum_rewards, 9);
    assert_eq!(copy.get(root_id).unwrap().value.sum_rewards, 0);
    assert_eq!(copy.root_id(), root_id);

    let mut mcts = Mcts::new(CountingGame { total: 0 });
    let snapshot = mcts.clone();
    mcts.execute(&(), ());
    assert_eq!(mcts.tree().root().value.n_visits, 1);
    assert_eq!(snapshot.tree().root().value.n_visits, 0);
}

#[test]
fn capacity_hint_changes_nothing_observable() {
    let sized = Tree::with_capacity(node_for(0, vec![]), 128);
    let plain = Tree::new(node_for(0, vec![]));
    assert_eq!(sized.root_id(), plain.root_id());
    assert_eq!(sized.root().value.unvisited_moves, plain.root().value.unvisited_moves);

    let mcts = Mcts::with_capacity(CountingGame { total: 0 }, 128);
    assert_eq!(mcts.tree().root().value.n_visits, 0);
    assert_eq!(mcts.tree().root().value.unvisited_moves.len(), 3);
}

#[test]
fn additional_info_slot_is_writable() {
    let mut tree = Tree::new(node_for(0, vec![]));
    let root_id = tree.root_id();
    tree.set_info(root_id, 42);
    let root = tree.root();
    assert_eq!(root.value.additional_info, 42);
    assert_eq!(root.value.n_visits, 0);
    assert_eq!(root.value.unvisited_moves, vec![1, 2, 3]);
    tree.set_info(root_id, 7);
    assert_eq!(tree.root().value.additional_info, 7);
}
