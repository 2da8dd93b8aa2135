//! The Python runner's configuration.
use vstd::prelude::*;

verus! {

/// Where a Python submission lives and which match it belongs to.
pub struct Runner {
    pub current_dir: String,
    pub game_id: String,
    pub file_name: String,
}

impl Runner {
    /// Bundles the match directory, the match identifier, and the player's
    /// sub-directory.
    pub fn new(current_dir: String, game_id: String, file_name: String) -> (r: Runner)
        ensures
            r == (Runner { current_dir, game_id, file_name }),
    {
        Runner { current_dir, game_id, file_name }
    }
}

} // verus!
