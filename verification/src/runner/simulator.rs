//! The simulator's configuration.
use vstd::prelude::*;

verus! {

/// The simulator container of one match.
pub struct Simulator {
    pub game_id: String,
}

impl Simulator {
    /// A simulator handle for the given match.
    pub fn new(game_id: String) -> (r: Simulator)
        ensures
            r == (Simulator { game_id }),
    {
        Simulator { game_id }
    }
}

} // verus!
