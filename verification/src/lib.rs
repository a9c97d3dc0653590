//! Analysis of hypothetical chess adjudication rules.
//!
//! The library replays annotated game records and measures, for a given
//! resignation rule and draw rule, how much game time each rule would have
//! saved and how often it would have produced a wrong result.

use vstd::prelude::*;

pub mod adjudicate;
pub mod annotation;
pub mod game_data;
pub mod rules;
pub mod stats;

verus! {

/// The engine's evaluation after one ply, in centipawns (a "mate found"
/// condition is encoded as magnitude 10000, carrying the sign), and the
/// time spent on that ply in milliseconds.
#[derive(Debug, PartialEq, Eq, Structural, Clone, Copy)]
pub struct MoveData {
    pub eval: i32,
    pub time: u32,
}

/// One game record: the actual result scaled by ten (0, 5 or 10 for a
/// loss, draw or win) and one `MoveData` per ply, in move order.
#[derive(Debug)]
pub struct GameData {
    pub score10: u32,
    pub move_data: Vec<MoveData>,
}

impl GameData {
    /// The result invariant: a game's score is a loss, a draw or a win.
    pub open spec fn wf(&self) -> bool {
        self.score10 == 0 || self.score10 == 5 || self.score10 == 10
    }
}

} // verus!
