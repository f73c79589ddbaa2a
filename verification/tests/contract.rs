use rps_dapp::contract::execute;
use rps_dapp::contract::instantiate;
use rps_dapp::contract::query;
use rps_dapp::error::ContractError;
use rps_dapp::msg::ExecuteMsg;
use rps_dapp::msg::InstantiateMsg;
use rps_dapp::msg::QueryAnswer;
use rps_dapp::msg::QueryMsg;
use rps_dapp::state::GameMove;
use rps_dapp::state::Store;

fn setup(creator: &str) -> Store {
    let (store, _res) = instantiate(creator.to_string(), InstantiateMsg {});
    store
}

#[test]
fn proper_initialization() {
    let deps = setup("creator");

    // query owner
    let res = query(&deps, QueryMsg::GetOwner {}, true).unwrap();
    match res {
        QueryAnswer::Owner(owner) => assert_eq!("creator".to_string(), owner),
        _ => panic!("owner answer expected"),
    }
}

#[test]
fn query_games_by_host() {
    let mut deps = setup("creator");

    // execute start game w/ 1st opponent and host move
    let msg = ExecuteMsg::StartGame {
        opponent: "first_player".to_string(),
        host_move: GameMove::Rock,
    };
    let _res = execute(&mut deps, "creator".to_string(), msg, true).unwrap();

    // execute start game w/ 2nd opponent and host move
    let msg = ExecuteMsg::StartGame {
        opponent: "second_player".to_string(),
        host_move: GameMove::Paper,
    };
    let _res = execute(&mut deps, "creator".to_string(), msg, true).unwrap();

    // execute start game w/ 3rd opponent and host move
    let msg = ExecuteMsg::StartGame {
        opponent: "third_player".to_string(),
        host_move: GameMove::Scissors,
    };
    let _res = execute(&mut deps, "creator".to_string(), msg, true).unwrap();

    // query games by host address
    let res = query(
        &deps,
        QueryMsg::GetGamesByHost {
            address: "creator".to_string(),
        },
        true,
    )
    .unwrap();

    let value = match res {
        QueryAnswer::Games(list) => list,
        _ => panic!("games answer expected"),
    };

    assert_eq!(3, value.games.len());

    assert_eq!("creator".to_string(), value.games[0].host);
    assert_eq!("first_player".to_string(), value.games[0].opponent);
    assert_eq!(GameMove::Rock, value.games[0].host_move);
    assert_eq!(None, value.games[0].opp_move);
    assert_eq!(None, value.games[0].result);

    assert_eq!("creator".to_string(), value.games[1].host);
    assert_eq!("second_player".to_string(), value.games[1].opponent);
    assert_eq!(GameMove::Paper, value.games[1].host_move);
    assert_eq!(None, value.games[1].opp_move);
    assert_eq!(None, value.games[1].result);
}

#[test]
fn query_games_by_opp() {
    let mut deps = setup("creator");

    // execute start game w/ opponent and host move
    let msg = ExecuteMsg::StartGame {
        opponent: "other_player".to_string(),
        host_move: GameMove::Rock,
    };
    let _res = execute(&mut deps, "creator".to_string(), msg, true).unwrap();

    // query games by opponent address
    let res = query(
        &deps,
        QueryMsg::GetGamesByOpponent {
            opponent: "other_player".to_string(),
        },
        true,
    )
    .unwrap();

    let value = match res {
        QueryAnswer::Games(list) => list,
        _ => panic!("games answer expected"),
    };

    assert_eq!("creator".to_string(), value.games[0].host);
    assert_eq!("other_player".to_string(), value.games[0].opponent);
    assert_eq!(GameMove::Rock, value.games[0].host_move);
    assert_eq!(None, value.games[0].opp_move);
    assert_eq!(None, value.games[0].result);
}

#[test]
fn query_game_by_opp_and_host() {
    let mut deps = setup("creator");

    // execute start game w/ opponent and host move
    let msg = ExecuteMsg::StartGame {
        opponent: "other_player".to_string(),
        host_move: GameMove::Rock,
    };
    let _res = execute(&mut deps, "creator".to_string(), msg, true).unwrap();

    // query games by host and opponent addresses - fail
    let res = query(
        &deps,
        QueryMsg::GetGame {
            host: "creator".to_string(),
            opponent: "not_a_real_player".to_string(),
        },
        true,
    );

    match res {
        Err(_game_error) => {}
        _ => panic!("Must return Game not found error"),
    }

    // query games by host and opponent addresses - success
    let res = query(
        &deps,
        QueryMsg::GetGame {
            host: "creator".to_string(),
            opponent: "other_player".to_string(),
        },
        true,
    )
    .unwrap();

    let value = match res {
        QueryAnswer::Game(game) => game,
        _ => panic!("game answer expected"),
    };

    assert_eq!("creator".to_string(), value.host);
    assert_eq!("other_player".to_string(), value.opponent);
    assert_eq!(GameMove::Rock, value.host_move);
    assert_eq!(None, value.opp_move);
    assert_eq!(None, value.result);
}

#[test]
fn get_admin() {
    let deps = setup("creator_man");

    // query admin success
    let res = query(&deps, QueryMsg::GetAdmin {}, true).unwrap();
    match res {
        QueryAnswer::Admin(admin) => assert_eq!(Some("creator_man".to_string()), admin),
        _ => panic!("admin answer expected"),
    }
}

#[test]
fn update_admin() {
    let mut deps = setup("creator_man");

    // query 1st admin success
    let res = query(&deps, QueryMsg::GetAdmin {}, true).unwrap();
    match res {
        QueryAnswer::Admin(admin) => assert_eq!(Some("creator_man".to_string()), admin),
        _ => panic!("admin answer expected"),
    }

    // execute admin update
    let msg = ExecuteMsg::UpdateAdmin {
        admin: "updated_man".to_string(),
    };
    let _res = execute(&mut deps, "creator_man".to_string(), msg, true).unwrap();

    // query 2nd admin success
    let res = query(&deps, QueryMsg::GetAdmin {}, true).unwrap();
    match res {
        QueryAnswer::Admin(admin) => assert_eq!(Some("updated_man".to_string()), admin),
        _ => panic!("admin answer expected"),
    }
}

#[test]
fn host_blacklist() {
    let mut deps = setup("creator");

    // execute add to blacklist
    let msg = ExecuteMsg::AddToBlacklist {
        address: "host_black_listed".to_string(),
    };
    let _res = execute(&mut deps, "creator".to_string(), msg, true).unwrap();

    // execute start game w/ opponent and host move
    let msg = ExecuteMsg::StartGame {
        opponent: "other_player".to_string(),
        host_move: GameMove::Rock,
    };
    let res = execute(&mut deps, "host_black_listed".to_string(), msg, true);

    match res {
        Err(ContractError::HostAddressBlacklisted {}) => {}
        _ => panic!("Must return BlackListedAddress error"),
    }

    // execute remove from blacklist
    let msg = ExecuteMsg::RemoveFromBlacklist {
        address: "host_black_listed".to_string(),
    };
    let _res = execute(&mut deps, "creator".to_string(), msg, true).unwrap();

    // execute start game w/ opponent and host move
    let msg = ExecuteMsg::StartGame {
        opponent: "other_player".to_string(),
        host_move: GameMove::Rock,
    };
    let _res = execute(&mut deps, "host_black_listed".to_string(), msg, true).unwrap();

    // query games by host address
    let res = query(
        &deps,
        QueryMsg::GetGamesByHost {
            address: "host_black_listed".to_string(),
        },
        true,
    )
    .unwrap();

    let value = match res {
        QueryAnswer::Games(list) => list,
        _ => panic!("games answer expected"),
    };

    assert_eq!(1, value.games.len());

    assert_eq!("host_black_listed".to_string(), value.games[0].host);
    assert_eq!("other_player".to_string(), value.games[0].opponent);
    assert_eq!(GameMove::Rock, value.games[0].host_move);
    assert_eq!(None, value.games[0].opp_move);
    assert_eq!(None, value.games[0].result);
}

#[test]
fn full_game_tie() {
    let mut deps = setup("creator");

    // execute start game w/ 1st opponent and host move
    let msg = ExecuteMsg::StartGame {
        opponent: "first_player".to_string(),
        host_move: GameMove::Rock,
    };
    let _res = execute(&mut deps, "creator".to_string(), msg, true).unwrap();

    // execute try response from non-opponent - should end with error
    let msg = ExecuteMsg::Respond {
        host: "creator".to_string(),
        opponent: "first_player".to_string(),
        opp_move: GameMove::Rock,
    };
    let res = execute(&mut deps, "second_player".to_string(), msg, true);

    // should error
    match res {
        Err(ContractError::Unauthorized {}) => {}
        _ => panic!("Must return Unauthorized error"),
    }

    // execute try response from opponent - should be success
    let msg = ExecuteMsg::Respond {
        host: "creator".to_string(),
        opponent: "first_player".to_string(),
        opp_move: GameMove::Rock,
    };
    let res = execute(&mut deps, "first_player".to_string(), msg, true).unwrap();

    println!("{:?}", res);

    assert_eq!(res.attributes[0].key, "method");
    assert_eq!(res.attributes[0].value, "response");
    assert_eq!(res.attributes[1].key, "result");
    assert_eq!(res.attributes[1].value, "Tie");
}

#[test]
fn full_game_host_wins() {
    let mut deps = setup("creator");

    // execute start game w/ 1st opponent and host move
    let msg = ExecuteMsg::StartGame {
        opponent: "first_player".to_string(),
        host_move: GameMove::Rock,
    };
    let _res = execute(&mut deps, "creator".to_string(), msg, true).unwrap();

    // execute try response from opponent - should be success
    let msg = ExecuteMsg::Respond {
        host: "creator".to_string(),
        opponent: "first_player".to_string(),
        opp_move: GameMove::Scissors,
    };
    let res = execute(&mut deps, "first_player".to_string(), msg, true).unwrap();

    println!("{:?}", res);

    assert_eq!(res.attributes[0].key, "method");
    assert_eq!(res.attributes[0].value, "response");
    assert_eq!(res.attributes[1].key, "result");
    assert_eq!(res.attributes[1].value, "Host Won");
}

#[test]
fn full_game_opp_wins() {
    let mut deps = setup("creator");

    // execute start game w/ 1st opponent and host move
    let msg = ExecuteMsg::StartGame {
        opponent: "first_player".to_string(),
        host_move: GameMove::Rock,
    };
    let _res = execute(&mut deps, "creator".to_string(), msg, true).unwrap();

    // execute try response from opponent - should be success
    let msg = ExecuteMsg::Respond {
        host: "creator".to_string(),
        opponent: "first_player".to_string(),
        opp_move: GameMove::Paper,
    };
    let res = execute(&mut deps, "first_player".to_string(), msg, true).unwrap();

    println!("{:?}", res);

    assert_eq!(res.attributes[0].key, "method");
    assert_eq!(res.attributes[0].value, "response");
    assert_eq!(res.attributes[1].key, "result");
    assert_eq!(res.attributes[1].value, "Opponent Won");
}
