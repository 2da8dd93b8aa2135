//! Status responses: what the worker publishes about a match.
use vstd::prelude::*;

verus! {

/// The lifecycle state a status message reports.
#[derive(Clone, Copy, Debug, PartialEq, Eq, Structural)]
#[allow(non_camel_case_types)]
pub enum GameStatusEnum {
    IDLE,
    EXECUTING,
    EXECUTED,
    EXECUTE_ERROR,
}

/// One participant's outcome. The destruction percentage is carried as the
/// decimal text the simulator printed; the log is the assembled transcript.
#[derive(Debug, PartialEq, Eq)]
pub struct GameResult {
    pub destruction_percentage: Vec<u8>,
    pub coins_used: u64,
    pub has_errors: bool,
    pub log: Vec<u8>,
}

/// A status message for one match.
#[derive(Debug, PartialEq, Eq)]
pub struct GameStatus {
    pub game_id: String,
    pub game_status: GameStatusEnum,
    pub game_result: Option<GameResult>,
    pub game_result_player1: Option<GameResult>,
    pub game_result_player2: Option<GameResult>,
}

impl GameStatus {
    /// A status for a solo match: the per-player fields stay empty.
    pub fn new_normal(game_id: String, game_status: GameStatusEnum, game_result: Option<
        GameResult,
    >) -> (r: GameStatus)
        ensures
            r == (GameStatus {
                game_id,
                game_status,
                game_result,
                game_result_player1: None,
                game_result_player2: None,
            }),
    {
        GameStatus {
            game_id,
            game_status,
            game_result,
            game_result_player1: None,
            game_result_player2: None,
        }
    }

    /// A status for a versus match: the solo field stays empty.
    pub fn new_pvp(
        game_id: String,
        game_status: GameStatusEnum,
        game_result_player1: Option<GameResult>,
        game_result_player2: Option<GameResult>,
    ) -> (r: GameStatus)
        ensures
            r == (GameStatus {
                game_id,
                game_status,
                game_result: None,
                game_result_player1,
                game_result_player2,
            }),
    {
        GameStatus {
            game_id,
            game_status,
            game_result: None,
            game_result_player1,
            game_result_player2,
        }
    }
}

} // verus!
