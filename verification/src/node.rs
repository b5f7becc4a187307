//! The payload stored at each search-tree node.

use vstd::prelude::*;

verus! {

/// Payload of one search node: cumulative statistics, the budget of
/// still-untried legal moves, the hash of the game state the node stands
/// for, and the move trajectory from the root (empty only for the root).
///
/// Moves are encoded by the game as `u64` values; rewards are non-negative
/// `u64` values, so statistics can only grow.
#[derive(Clone)]
pub struct LazyMctsNode {
    pub sum_rewards: u64,
    pub n_visits: u64,
    pub unvisited_moves: Vec<u64>,
    pub hash: u64,
    pub state: Vec<u64>,
    pub additional_info: u64,
}

/// Mathematical model of a [`LazyMctsNode`].
pub ghost struct MctsNodeData {
    pub sum_rewards: u64,
    pub n_visits: u64,
    pub unvisited_moves: Seq<u64>,
    pub hash: u64,
    pub state: Seq<u64>,
    pub additional_info: u64,
}

impl View for LazyMctsNode {
    type V = MctsNodeData;

    open spec fn view(&self) -> MctsNodeData {
        MctsNodeData {
            sum_rewards: self.sum_rewards,
            n_visits: self.n_visits,
            unvisited_moves: self.unvisited_moves@,
            hash: self.hash,
            state: self.state@,
            additional_info: self.additional_info,
        }
    }
}

} // verus!
