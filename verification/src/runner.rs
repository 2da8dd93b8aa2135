//! The runner recipes: the per-language configuration the spawning code
//! needs, and the names of the player-code entry files.
//!
//! Spawning itself (container commands, pipes, process handles) happens
//! outside the library; these types carry the verified part — which file a
//! submission compiles to and under which mode a match runs.
use vstd::prelude::*;

use crate::request::Language;

pub mod cpp;
pub mod java;
pub mod py;
pub mod simulator;

verus! {

/// Whether a match is solo or versus; decides entry-file names and the mode
/// argument handed to the children.
pub enum GameType {
    NormalGame,
    PvPGame,
}

impl GameType {
    /// The stem of the player-code entry file for a language in this mode.
    pub fn file_name(&self, language: Language) -> (r: &str)
        ensures
            r@ == match self {
                GameType::PvPGame => match language {
                    Language::CPP | Language::PYTHON => "runpvp"@,
                    Language::JAVA => "RunPvp"@,
                },
                GameType::NormalGame => match language {
                    Language::CPP | Language::PYTHON => "run"@,
                    Language::JAVA => "Run"@,
                },
            },
    {
        match self {
            GameType::PvPGame => match language {
                Language::CPP | Language::PYTHON => "runpvp",
                Language::JAVA => "RunPvp",
            },
            GameType::NormalGame => match language {
                Language::CPP | Language::PYTHON => "run",
                Language::JAVA => "Run",
            },
        }
    }

    /// The mode argument the children are started with.
    pub fn to_string(&self) -> (r: String)
        ensures
            r@ == match self {
                GameType::NormalGame => "normal"@,
                GameType::PvPGame => "pvp"@,
            },
    {
        match self {
            GameType::NormalGame => "normal".to_owned(),
            GameType::PvPGame => "pvp".to_owned(),
        }
    }
}

} // verus!
