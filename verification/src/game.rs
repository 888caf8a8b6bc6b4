//! Moves, results and matches, and the rule that settles a match.

use crate::error::ContractError;
use vstd::prelude::*;

verus! {

/// What a player can throw.
#[derive(Clone, Copy, Debug, PartialEq, Eq, Structural)]
pub enum GameMove {
    Rock,
    Paper,
    Scissors,
}

/// How a match ended.
#[derive(Clone, Copy, Debug, PartialEq, Eq, Structural)]
pub enum GameResult {
    HostWins,
    OpponentWins,
    Tie,
}

/// One match between a host and an opponent.
///
/// The host commits a move when the match is started. The opponent's move
/// and the result are absent until the opponent responds, and are then set
/// together.
#[derive(Clone, Debug, PartialEq)]
pub struct Game {
    pub host: String,
    pub opponent: String,
    pub host_move: GameMove,
    pub opp_move: Option<GameMove>,
    pub result: Option<GameResult>,
}

/// A match as a mathematical value.
pub struct GameView {
    pub host: Seq<char>,
    pub opponent: Seq<char>,
    pub host_move: GameMove,
    pub opp_move: Option<GameMove>,
    pub result: Option<GameResult>,
}

impl View for Game {
    type V = GameView;

    open spec fn view(&self) -> GameView {
        GameView {
            host: self.host@,
            opponent: self.opponent@,
            host_move: self.host_move,
            opp_move: self.opp_move,
            result: self.result,
        }
    }
}

impl GameView {
    /// The opponent's move and the result are both absent or both present.
    pub open spec fn paired(self) -> bool {
        self.opp_move is Some <==> self.result is Some
    }

    /// The match awaits the opponent's move.
    pub open spec fn open(self) -> bool {
        self.opp_move is None && self.result is None
    }

    /// The match that `host` starts against `opponent` with `host_move`.
    pub open spec fn started(
        host: Seq<char>,
        opponent: Seq<char>,
        host_move: GameMove,
    ) -> GameView {
        GameView { host, opponent, host_move, opp_move: None, result: None }
    }

    /// The match once the opponent has thrown `opp_move` and `result` was
    /// recorded.
    pub open spec fn completed(self, opp_move: GameMove, result: GameResult) -> GameView {
        GameView { opp_move: Some(opp_move), result: Some(result), ..self }
    }
}

/// Whether the first move defeats the second: rock blunts scissors, scissors
/// cut paper, paper wraps rock.
pub open spec fn beats(a: GameMove, b: GameMove) -> bool {
    ||| a == GameMove::Rock && b == GameMove::Scissors
    ||| a == GameMove::Scissors && b == GameMove::Paper
    ||| a == GameMove::Paper && b == GameMove::Rock
}

/// The result of a match in which the host threw `host_move` and the
/// opponent `opp_move`.
pub open spec fn outcome(host_move: GameMove, opp_move: GameMove) -> GameResult {
    if host_move == opp_move {
        GameResult::Tie
    } else if beats(host_move, opp_move) {
        GameResult::HostWins
    } else {
        GameResult::OpponentWins
    }
}

/// Settles a pair of moves.
pub fn resolve(host_move: GameMove, opp_move: GameMove) -> (result: GameResult)
    ensures
        result == outcome(host_move, opp_move),
{
    match host_move {
        GameMove::Paper => match opp_move {
            GameMove::Paper => GameResult::Tie,
            GameMove::Rock => GameResult::HostWins,
            GameMove::Scissors => GameResult::OpponentWins,
        },
        GameMove::Rock => match opp_move {
            GameMove::Paper => GameResult::OpponentWins,
            GameMove::Rock => GameResult::Tie,
            GameMove::Scissors => GameResult::HostWins,
        },
        GameMove::Scissors => match opp_move {
            GameMove::Paper => GameResult::HostWins,
            GameMove::Rock => GameResult::OpponentWins,
            GameMove::Scissors => GameResult::Tie,
        },
    }
}

/// The result of a match whose opponent has moved. A match still awaiting
/// the opponent has none.
pub fn get_result(game: Game) -> (r: Result<GameResult, ContractError>)
    ensures
        game.opp_move is None ==> r matches Err(ContractError::UnexpectedGameResult {}),
        game.opp_move matches Some(opp_move) ==> r == Ok::<GameResult, ContractError>(
            outcome(game.host_move, opp_move),
        ),
{
    match game.opp_move {
        None => Err(ContractError::UnexpectedGameResult {}),
        Some(opp_move) => Ok(resolve(game.host_move, opp_move)),
    }
}

/// The tag under which a result is reported.
pub open spec fn result_tag(result: GameResult) -> Seq<char> {
    match result {
        GameResult::HostWins => "Host Wins"@,
        GameResult::OpponentWins => "Opponent Wins"@,
        GameResult::Tie => "Tie"@,
    }
}

impl GameResult {
    /// The tag under which the result is reported.
    pub fn tag(&self) -> (text: String)
        ensures
            text@ == result_tag(*self),
    {
        match self {
            GameResult::HostWins => "Host Wins".to_string(),
            GameResult::OpponentWins => "Opponent Wins".to_string(),
            GameResult::Tie => "Tie".to_string(),
        }
    }
}

/// The code under which a move is stored.
pub open spec fn move_code(m: GameMove) -> u8 {
    match m {
        GameMove::Rock => 0,
        GameMove::Paper => 1,
        GameMove::Scissors => 2,
    }
}

/// The move that a code stands for, if any.
pub open spec fn move_of_code(code: u8) -> Option<GameMove> {
    if code == 0 {
        Some(GameMove::Rock)
    } else if code == 1 {
        Some(GameMove::Paper)
    } else if code == 2 {
        Some(GameMove::Scissors)
    } else {
        None
    }
}

/// The code under which a result is stored.
pub open spec fn result_code(r: GameResult) -> u8 {
    match r {
        GameResult::HostWins => 0,
        GameResult::OpponentWins => 1,
        GameResult::Tie => 2,
    }
}

/// The result that a code stands for, if any.
pub open spec fn result_of_code(code: u8) -> Option<GameResult> {
    if code == 0 {
        Some(GameResult::HostWins)
    } else if code == 1 {
        Some(GameResult::OpponentWins)
    } else if code == 2 {
        Some(GameResult::Tie)
    } else {
        None
    }
}

impl GameMove {
    /// The code under which the move is stored.
    pub fn code(&self) -> (code: u8)
        ensures
            code == move_code(*self),
            move_of_code(code) == Some(*self),
    {
        match self {
            GameMove::Rock => 0,
            GameMove::Paper => 1,
            GameMove::Scissors => 2,
        }
    }

    /// The move that a code stands for, if any.
    pub fn from_code(code: u8) -> (m: Option<GameMove>)
        ensures
            m == move_of_code(code),
    {
        if code == 0 {
            Some(GameMove::Rock)
        } else if code == 1 {
            Some(GameMove::Paper)
        } else if code == 2 {
            Some(GameMove::Scissors)
        } else {
            None
        }
    }
}

impl GameResult {
    /// The code under which the result is stored.
    pub fn code(&self) -> (code: u8)
        ensures
            code == result_code(*self),
            result_of_code(code) == Some(*self),
    {
        match self {
            GameResult::HostWins => 0,
            GameResult::OpponentWins => 1,
            GameResult::Tie => 2,
        }
    }

    /// The result that a code stands for, if any.
    pub fn from_code(code: u8) -> (r: Option<GameResult>)
        ensures
            r == result_of_code(code),
    {
        if code == 0 {
            Some(GameResult::HostWins)
        } else if code == 1 {
            Some(GameResult::OpponentWins)
        } else if code == 2 {
            Some(GameResult::Tie)
        } else {
            None
        }
    }
}

} // verus!
