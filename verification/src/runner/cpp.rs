//! The C++ runner's configuration.
use vstd::prelude::*;

verus! {

/// Where a C++ submission lives and which match it belongs to.
pub struct Runner {
    pub current_dir: String,
    pub game_id: String,
    pub player_dir: String,
}

impl Runner {
    /// Bundles the match directory, the match identifier, and the player's
    /// sub-directory.
    pub fn new(current_dir: String, game_id: String, player_dir: String) -> (r: Runner)
        ensures
            r == (Runner { current_dir, game_id, player_dir }),
    {
        Runner { current_dir, game_id, player_dir }
    }
}

} // verus!
