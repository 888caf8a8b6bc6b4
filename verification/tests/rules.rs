use rock_paper_scissors::error::ContractError;
use rock_paper_scissors::game::{get_result, resolve, Game, GameMove, GameResult};

fn game_with(host_move: GameMove, opp_move: Option<GameMove>) -> Game {
    Game {
        host: String::from("host"),
        opponent: String::from("guest"),
        host_move,
        opp_move,
        result: None,
    }
}

#[test]
fn equal_moves_tie() {
    for m in [GameMove::Rock, GameMove::Paper, GameMove::Scissors] {
        assert_eq!(resolve(m, m), GameResult::Tie);
    }
}

#[test]
fn the_nine_pairs() {
    let (rock, paper, scissors) = (GameMove::Rock, GameMove::Paper, GameMove::Scissors);
    assert_eq!(resolve(rock, rock), GameResult::Tie);
    assert_eq!(resolve(rock, paper), GameResult::OpponentWins);
    assert_eq!(resolve(rock, scissors), GameResult::HostWins);
    assert_eq!(resolve(paper, rock), GameResult::HostWins);
    assert_eq!(resolve(paper, paper), GameResult::Tie);
    assert_eq!(resolve(paper, scissors), GameResult::OpponentWins);
    assert_eq!(resolve(scissors, rock), GameResult::OpponentWins);
    assert_eq!(resolve(scissors, paper), GameResult::HostWins);
    assert_eq!(resolve(scissors, scissors), GameResult::Tie);
}

#[test]
fn exchanged_moves_exchange_the_winner() {
    let moves = [GameMove::Rock, GameMove::Paper, GameMove::Scissors];
    for a in moves {
        for b in moves {
            if a != b {
                assert_eq!(
                    resolve(a, b) == GameResult::HostWins,
                    resolve(b, a) == GameResult::OpponentWins
                );
                assert_ne!(resolve(a, b), GameResult::Tie);
            }
        }
    }
}

#[test]
fn result_of_an_answered_game() {
    let r = get_result(game_with(GameMove::Rock, Some(GameMove::Scissors)));
    assert!(matches!(r, Ok(GameResult::HostWins)));
    let r = get_result(game_with(GameMove::Rock, Some(GameMove::Paper)));
    assert!(matches!(r, Ok(GameResult::OpponentWins)));
    let r = get_result(game_with(GameMove::Scissors, Some(GameMove::Scissors)));
    assert!(matches!(r, Ok(GameResult::Tie)));
}

#[test]
fn no_result_before_the_answer() {
    let r = get_result(game_with(GameMove::Rock, None));
    assert!(matches!(r, Err(ContractError::UnexpectedGameResult {})));
}

#[test]
fn result_tags() {
    assert_eq!(GameResult::HostWins.tag(), "Host Wins");
    assert_eq!(GameResult::OpponentWins.tag(), "Opponent Wins");
    assert_eq!(GameResult::Tie.tag(), "Tie");
}

#[test]
fn move_codes_read_back() {
    assert_eq!(GameMove::Rock.code(), 0);
    assert_eq!(GameMove::Paper.code(), 1);
    assert_eq!(GameMove::Scissors.code(), 2);
    for m in [GameMove::Rock, GameMove::Paper, GameMove::Scissors] {
        assert_eq!(GameMove::from_code(m.code()), Some(m));
    }
    assert_eq!(GameMove::from_code(3), None);
    assert_eq!(GameMove::from_code(255), None);
}

#[test]
fn result_codes_read_back() {
    assert_eq!(GameResult::HostWins.code(), 0);
    assert_eq!(GameResult::OpponentWins.code(), 1);
    assert_eq!(GameResult::Tie.code(), 2);
    for r in [GameResult::HostWins, GameResult::OpponentWins, GameResult::Tie] {
        assert_eq!(GameResult::from_code(r.code()), Some(r));
    }
    assert_eq!(GameResult::from_code(3), None);
}
