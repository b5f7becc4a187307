//! A tiny demonstration game: players alternately add 1, 2 or 3 to a shared
//! total starting at 0, and the player who makes the total exactly 10 wins.
//!
//! The state is the running total alone, and it hashes to itself, so
//! different move orders that reach the same total share one search node.
//! Whose turn it is is derived from the total's parity — a simplification
//! that makes the state merge-friendly.

use crate::tree_search::GameTrait;
use vstd::prelude::*;

verus! {

/// The total a player must reach exactly to win.
pub const TARGET: u8 = 10;

/// The shared running total.
#[derive(Clone, Copy, Debug, PartialEq, Eq, Structural)]
pub struct CountingGame {
    pub total: u8,
}

impl GameTrait for CountingGame {
    open spec fn legals_spec(&self) -> Seq<u64> {
        if self.total >= TARGET {
            Seq::empty()
        } else {
            seq![1u64, 2u64, 3u64]
        }
    }

    open spec fn hash_spec(&self) -> u64 {
        self.total as u64
    }

    open spec fn turn_spec(&self) -> u64 {
        (self.total % 2) as u64
    }

    open spec fn apply_spec(&self, m: u64) -> Self {
        if self.total < TARGET && 1 <= m <= 3 {
            CountingGame { total: (self.total + m) as u8 }
        } else {
            CountingGame { total: self.total }
        }
    }

    fn legals_moves(&self) -> (r: Vec<u64>) {
        let mut v: Vec<u64> = Vec::new();
        if self.total < TARGET {
            v.push(1);
            v.push(2);
            v.push(3);
        }
        proof {
            assert(v@ =~= self.legals_spec());
        }
        v
    }

    fn hash(&self) -> (r: u64) {
        self.total as u64
    }

    fn player_turn(&self) -> (r: u64) {
        (self.total % 2) as u64
    }

    fn apply_move(&self, m: u64) -> (r: Self) {
        if self.total < TARGET && 1 <= m && m <= 3 {
            CountingGame { total: self.total + (m as u8) }
        } else {
            CountingGame { total: self.total }
        }
    }

    fn clone_state(&self) -> (r: Self) {
        CountingGame { total: self.total }
    }
}

} // verus!
