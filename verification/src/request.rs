//! Match requests: the plain data a queue message carries once decoded.
use vstd::prelude::*;

verus! {

/// An attacking unit of the catalog sent to the children.
#[derive(Clone, Copy, Debug, PartialEq, Eq, Structural)]
pub struct Attacker {
    pub id: u32,
    pub hp: u32,
    pub range: u32,
    pub attack_power: u32,
    pub speed: u32,
    pub price: u32,
}

/// A defending unit of the catalog sent to the children.
#[derive(Clone, Copy, Debug, PartialEq, Eq, Structural)]
pub struct Defender {
    pub id: u32,
    pub hp: u32,
    pub range: u32,
    pub attack_power: u32,
    pub price: u32,
}

/// The game parameters of one match.
#[derive(Debug, PartialEq, Eq)]
pub struct GameParameters {
    pub attackers: Vec<Attacker>,
    pub defenders: Vec<Defender>,
    pub no_of_turns: u32,
    pub no_of_coins: u32,
}

/// The language a player's code is written in.
#[derive(Clone, Copy, Debug, PartialEq, Eq, Structural)]
pub enum Language {
    CPP,
    JAVA,
    PYTHON,
}

/// A player's submitted source and its language.
#[derive(Debug, PartialEq, Eq)]
pub struct PlayerCode {
    pub source_code: String,
    pub language: Language,
}

/// A solo match request: one player against the simulator, on a map.
#[derive(Debug, PartialEq, Eq)]
pub struct NormalGameRequest {
    pub game_id: String,
    pub parameters: GameParameters,
    pub player_code: PlayerCode,
    pub map: Vec<Vec<u8>>,
}

/// A versus match request: two players against each other.
#[derive(Debug, PartialEq, Eq)]
pub struct PvPGameRequest {
    pub game_id: String,
    pub parameters: GameParameters,
    pub player1: PlayerCode,
    pub player2: PlayerCode,
}

/// Either shape of request, as pulled from the queues.
#[derive(Debug, PartialEq, Eq)]
pub enum GameRequest {
    NormalGame(NormalGameRequest),
    PvPGame(PvPGameRequest),
}

impl GameRequest {
    /// The match identifier, whichever shape the request has.
    pub fn game_id(&self) -> (r: &String)
        ensures
            r@ == match self {
                GameRequest::NormalGame(req) => req.game_id@,
                GameRequest::PvPGame(req) => req.game_id@,
            },
    {
        match self {
            GameRequest::NormalGame(req) => &req.game_id,
            GameRequest::PvPGame(req) => &req.game_id,
        }
    }
}

impl From<NormalGameRequest> for GameRequest {
    fn from(request: NormalGameRequest) -> (r: GameRequest) {
        GameRequest::NormalGame(request)
    }
}

impl vstd::std_specs::convert::FromSpecImpl<NormalGameRequest> for GameRequest {
    open spec fn obeys_from_spec() -> bool {
        true
    }

    open spec fn from_spec(request: NormalGameRequest) -> GameRequest {
        GameRequest::NormalGame(request)
    }
}

impl From<PvPGameRequest> for GameRequest {
    fn from(request: PvPGameRequest) -> (r: GameRequest) {
        GameRequest::PvPGame(request)
    }
}

impl vstd::std_specs::convert::FromSpecImpl<PvPGameRequest> for GameRequest {
    open spec fn obeys_from_spec() -> bool {
        true
    }

    open spec fn from_spec(request: PvPGameRequest) -> GameRequest {
        GameRequest::PvPGame(request)
    }
}

} // verus!
