use rock_paper_scissors::contract::{execute, instantiate, query};
use rock_paper_scissors::error::ContractError;
use rock_paper_scissors::game::{Game, GameMove};
use rock_paper_scissors::ledger::Ledger;
use rock_paper_scissors::msg::{
    AdminResponse, ExecuteMsg, InstantiateMsg, QueryMsg, QueryResponse,
};

fn owner_of(res: QueryResponse) -> String {
    match res {
        QueryResponse::Owner(owner) => owner,
        other => panic!("Unexpected answer: {:?}", other),
    }
}

fn admin_of(res: QueryResponse) -> AdminResponse {
    match res {
        QueryResponse::Admin(admin) => admin,
        other => panic!("Unexpected answer: {:?}", other),
    }
}

fn games_of(res: QueryResponse) -> Vec<Game> {
    match res {
        QueryResponse::Games(games) => games,
        other => panic!("Unexpected answer: {:?}", other),
    }
}

#[test]
fn contract_proper_initialization_without_admin() {
    let mut deps = Ledger::new();

    let msg = InstantiateMsg {
        admin_address: None,
    };

    let res = instantiate(&mut deps, "creator", msg).unwrap();
    assert_eq!(0, res.messages.len());

    let res = query(&deps, QueryMsg::GetOwner {}).unwrap();
    let value: String = owner_of(res);
    assert_eq!(String::from("creator"), value);

    let res = query(&deps, QueryMsg::GetAdmin {}).unwrap();
    let value: AdminResponse = admin_of(res);
    assert_eq!(None, value.admin);
}

#[test]
fn contract_proper_initialization_with_admin() {
    let mut deps = Ledger::new();

    let msg = InstantiateMsg {
        admin_address: Some("admin".to_string()),
    };

    let res = instantiate(&mut deps, "creator", msg).unwrap();
    assert_eq!(0, res.messages.len());

    let res = query(&deps, QueryMsg::GetOwner {}).unwrap();
    let value: String = owner_of(res);
    assert_eq!(String::from("creator"), value);

    let res = query(&deps, QueryMsg::GetAdmin {}).unwrap();
    let value: AdminResponse = admin_of(res);
    assert_eq!(Some("admin".to_string()), value.admin);
}

#[test]
fn test_start_game() {
    let mut deps = Ledger::new();

    let msg = InstantiateMsg {
        admin_address: None,
    };

    let res = instantiate(&mut deps, "creator", msg).unwrap();
    assert_eq!(0, res.messages.len());

    // an opponent of unusual length
    let opponent = String::from("11111111111111111111111111111111111111111111111111111111111111111111111111111111111111111111111");
    let msg = ExecuteMsg::StartGame {
        opponent,
        first_move: GameMove::Paper,
    };
    let res = execute(&mut deps, "creator", msg.clone());
    match res {
        e => println!("Error: {:?}", e),
    }

    // start game
    let opponent = String::from("someone_different");
    let msg = ExecuteMsg::StartGame {
        opponent,
        first_move: GameMove::Paper,
    };
    let _res = execute(&mut deps, "creator", msg).unwrap();
}

#[test]
fn test_query_host_games() {
    let mut deps = Ledger::new();

    let msg = InstantiateMsg {
        admin_address: None,
    };

    let res = instantiate(&mut deps, "creator", msg).unwrap();
    assert_eq!(0, res.messages.len());

    // start game - host is `creator`, opponent is `someone_different`
    let opponent = String::from("someone_different");
    let msg = ExecuteMsg::StartGame {
        opponent,
        first_move: GameMove::Paper,
    };
    let _res = execute(&mut deps, "creator", msg).unwrap();

    // start another game - host is `creator`, opponent is `someone_different2`
    let opponent = String::from("someone_different2");
    let msg = ExecuteMsg::StartGame {
        opponent,
        first_move: GameMove::Paper,
    };
    let _res = execute(&mut deps, "creator", msg).unwrap();

    // query `creator` games
    let res = query(
        &deps,
        QueryMsg::GetGameByHost {
            host: "creator".to_string(),
        },
    )
    .unwrap();
    let value: Vec<Game> = games_of(res);
    assert_eq!(
        vec![
            Game {
                host: String::from("creator"),
                opponent: String::from("someone_different"),
                host_move: GameMove::Paper,
                opp_move: None,
                result: None,
            },
            Game {
                host: String::from("creator"),
                opponent: String::from("someone_different2"),
                host_move: GameMove::Paper,
                opp_move: None,
                result: None,
            }
        ],
        value
    );
}

#[test]
fn test_query_opponent_games() {
    let mut deps = Ledger::new();

    let msg = InstantiateMsg {
        admin_address: None,
    };

    let res = instantiate(&mut deps, "creator", msg).unwrap();
    assert_eq!(0, res.messages.len());

    // start game - host is `creator`, opponent is `someone_different`
    let opponent = String::from("someone_different");
    let msg = ExecuteMsg::StartGame {
        opponent,
        first_move: GameMove::Paper,
    };
    let _res = execute(&mut deps, "creator", msg).unwrap();

    // start game2 - host is `creator2`, opponent is `someone_different`
    let opponent = String::from("someone_different");
    let msg = ExecuteMsg::StartGame {
        opponent,
        first_move: GameMove::Paper,
    };
    let _res = execute(&mut deps, "creator2", msg).unwrap();

    // start game3 - host is `creator2`, opponent is `someone_different2`
    let opponent = String::from("someone_different2");
    let msg = ExecuteMsg::StartGame {
        opponent,
        first_move: GameMove::Paper,
    };
    let _res = execute(&mut deps, "creator2", msg).unwrap();

    // query the games against `someone_different`
    let res = query(
        &deps,
        QueryMsg::GetGameByOpponent {
            opponent: "someone_different".to_string(),
        },
    )
    .unwrap();
    let value: Vec<Game> = games_of(res);
    assert_eq!(
        vec![
            Game {
                host: String::from("creator"),
                opponent: String::from("someone_different"),
                host_move: GameMove::Paper,
                opp_move: None,
                result: None,
            },
            Game {
                host: String::from("creator2"),
                opponent: String::from("someone_different"),
                host_move: GameMove::Paper,
                opp_move: None,
                result: None,
            }
        ],
        value
    );
}

#[test]
fn test_blacklisting() {
    let mut deps = Ledger::new();

    let msg = InstantiateMsg {
        admin_address: Some("creator".to_string()),
    };

    let res = instantiate(&mut deps, "creator", msg).unwrap();
    assert_eq!(0, res.messages.len());

    // blacklist an address
    let msg = ExecuteMsg::AddHook {
        addr: "elona_musk".to_string(),
    };
    let _res = execute(&mut deps, "creator", msg).unwrap();

    // match error response when starting a game, because address is blacklisted
    let msg = ExecuteMsg::StartGame {
        opponent: "someone".to_string(),
        first_move: GameMove::Paper,
    };
    let res = execute(&mut deps, "elona_musk", msg);
    match res.unwrap_err() {
        ContractError::BlacklistedAddress { addr: _ } => {}
        _ => panic!("Unexpected error"),
    }
}

#[test]
fn respond_to_someone_else_game() {
    let mut deps = Ledger::new();

    let msg = InstantiateMsg {
        admin_address: None,
    };

    let res = instantiate(&mut deps, "creator", msg).unwrap();
    assert_eq!(0, res.messages.len());

    // start game
    let opponent = String::from("someone");
    let msg = ExecuteMsg::StartGame {
        opponent,
        first_move: GameMove::Paper,
    };
    let _res = execute(&mut deps, "creator", msg).unwrap();

    // the sender is different from the opponent
    let msg = ExecuteMsg::Respond {
        host: "creator".to_string(),
        second_move: GameMove::Paper,
    };
    let res = execute(&mut deps, "someone_else", msg).unwrap_err();
    match res {
        ContractError::GameNotFound {} => {}
        e => panic!("Unexpected Error: {:?}", e),
    }
}

#[test]
fn host_wins() {
    let mut deps = Ledger::new();

    let msg = InstantiateMsg {
        admin_address: None,
    };

    let res = instantiate(&mut deps, "creator", msg).unwrap();
    assert_eq!(0, res.messages.len());

    // start game
    let opponent = String::from("someone");
    let msg = ExecuteMsg::StartGame {
        opponent,
        first_move: GameMove::Paper,
    };
    let _res = execute(&mut deps, "creator", msg).unwrap();

    // check if game exists
    let msg = QueryMsg::GetGameByHost {
        host: "creator".to_string(),
    };
    let res = query(&deps, msg).unwrap();
    let value: Vec<Game> = games_of(res);
    assert_eq!(
        vec![Game {
            host: String::from("creator"),
            opponent: String::from("someone"),
            host_move: GameMove::Paper,
            opp_move: None,
            result: None,
        }],
        value
    );

    // someone responds with rock and result should be HostWins
    let msg = ExecuteMsg::Respond {
        host: String::from("creator"),
        second_move: GameMove::Rock,
    };
    let res = execute(&mut deps, "someone", msg).unwrap();

    assert_eq!(res.attributes[1].value, String::from("Host Wins"));

    // check if game is deleted
    let msg = QueryMsg::GetGameByHost {
        host: "creator".to_string(),
    };
    let res = query(&deps, msg).unwrap();
    let value: Vec<Game> = games_of(res);
    let empty_vec: Vec<Game> = Vec::new();
    assert_eq!(empty_vec, value);
}

#[test]
fn opponent_wins() {
    let mut deps = Ledger::new();

    let msg = InstantiateMsg {
        admin_address: None,
    };

    let res = instantiate(&mut deps, "creator", msg).unwrap();
    assert_eq!(0, res.messages.len());

    // start game
    let opponent = String::from("someone");
    let msg = ExecuteMsg::StartGame {
        opponent,
        first_move: GameMove::Paper,
    };
    let _res = execute(&mut deps, "creator", msg).unwrap();

    // check if game exists
    let msg = QueryMsg::GetGameByHost {
        host: "creator".to_string(),
    };
    let res = query(&deps, msg).unwrap();
    let value: Vec<Game> = games_of(res);
    assert_eq!(
        vec![Game {
            host: String::from("creator"),
            opponent: String::from("someone"),
            host_move: GameMove::Paper,
            opp_move: None,
            result: None,
        }],
        value
    );

    // someone responds with scissors and result should be OpponentWins
    let msg = ExecuteMsg::Respond {
        host: String::from("creator"),
        second_move: GameMove::Scissors,
    };
    let res = execute(&mut deps, "someone", msg).unwrap();

    assert_eq!(res.attributes[1].value, String::from("Opponent Wins"));

    // check if game is deleted
    let msg = QueryMsg::GetGameByHost {
        host: "creator".to_string(),
    };
    let res = query(&deps, msg).unwrap();
    let value: Vec<Game> = games_of(res);
    let empty_vec: Vec<Game> = Vec::new();
    assert_eq!(empty_vec, value);
}

#[test]
fn tie() {
    let mut deps = Ledger::new();

    let msg = InstantiateMsg {
        admin_address: None,
    };

    let res = instantiate(&mut deps, "creator", msg).unwrap();
    assert_eq!(0, res.messages.len());

    // start game
    let opponent = String::from("someone");
    let msg = ExecuteMsg::StartGame {
        opponent,
        first_move: GameMove::Paper,
    };
    let _res = execute(&mut deps, "creator", msg).unwrap();

    // check if game exists
    let msg = QueryMsg::GetGameByHost {
        host: "creator".to_string(),
    };
    let res = query(&deps, msg).unwrap();
    let value: Vec<Game> = games_of(res);
    assert_eq!(
        vec![Game {
            host: String::from("creator"),
            opponent: String::from("someone"),
            host_move: GameMove::Paper,
            opp_move: None,
            result: None,
        }],
        value
    );

    // someone responds with paper and result should be Tie
    let msg = ExecuteMsg::Respond {
        host: String::from("creator"),
        second_move: GameMove::Paper,
    };
    let res = execute(&mut deps, "someone", msg).unwrap();

    assert_eq!(res.attributes[1].value, String::from("Tie"));

    // check if game is deleted
    let msg = QueryMsg::GetGameByHost {
        host: "creator".to_string(),
    };
    let res = query(&deps, msg).unwrap();
    let value: Vec<Game> = games_of(res);
    let empty_vec: Vec<Game> = Vec::new();
    assert_eq!(empty_vec, value);
}
