//! A lazy Monte Carlo tree search library.
//!
//! The tree store keeps one record per game state, keyed by the state's
//! 64-bit hash, so that different move sequences reaching the same state
//! share a single node (transposition sharing). Nodes hold only the move
//! trajectory from the root, never the full game state: states are
//! reconstructed on demand by replaying moves onto the immutable root state.

pub mod agents;
pub mod games;
mod node;
pub mod policies;
pub mod tree;
pub mod tree_search;

pub use node::LazyMctsNode;
pub use node::MctsNodeData;
pub use tree::{Hashed, Node, NodeId, Tree};
pub use tree_search::{GameTrait, LazyMcts};
