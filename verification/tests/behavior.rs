use rps_dapp::contract::decide_result;
use rps_dapp::contract::execute;
use rps_dapp::contract::instantiate;
use rps_dapp::contract::query;
use rps_dapp::error::ContractError;
use rps_dapp::msg::ExecuteMsg;
use rps_dapp::msg::InstantiateMsg;
use rps_dapp::msg::QueryAnswer;
use rps_dapp::msg::QueryMsg;
use rps_dapp::state::GameMove;
use rps_dapp::state::GameResult;
use rps_dapp::state::Store;

fn fresh(creator: &str) -> Store {
    let (store, _res) = instantiate(creator.to_string(), InstantiateMsg {});
    store
}

fn start(store: &mut Store, host: &str, opponent: &str, mv: GameMove) -> Result<(), ContractError> {
    let msg = ExecuteMsg::StartGame {
        opponent: opponent.to_string(),
        host_move: mv,
    };
    execute(store, host.to_string(), msg, true).map(|_| ())
}

#[test]
fn resolution_table() {
    assert_eq!(GameResult::Tie, decide_result(GameMove::Rock, GameMove::Rock));
    assert_eq!(GameResult::Tie, decide_result(GameMove::Paper, GameMove::Paper));
    assert_eq!(GameResult::Tie, decide_result(GameMove::Scissors, GameMove::Scissors));
    assert_eq!(GameResult::HostWins, decide_result(GameMove::Rock, GameMove::Scissors));
    assert_eq!(GameResult::HostWins, decide_result(GameMove::Paper, GameMove::Rock));
    assert_eq!(GameResult::HostWins, decide_result(GameMove::Scissors, GameMove::Paper));
    assert_eq!(GameResult::OpponentWins, decide_result(GameMove::Rock, GameMove::Paper));
    assert_eq!(GameResult::OpponentWins, decide_result(GameMove::Paper, GameMove::Scissors));
    assert_eq!(GameResult::OpponentWins, decide_result(GameMove::Scissors, GameMove::Rock));
}

#[test]
fn start_twice_fails_regardless_of_moves() {
    let mut store = fresh("creator");
    start(&mut store, "creator", "rival", GameMove::Rock).unwrap();
    let second = start(&mut store, "creator", "rival", GameMove::Paper);
    assert_eq!(Err(ContractError::OnlyOneGameAtATime {}), second);
}

#[test]
fn respond_deletes_the_session() {
    let mut store = fresh("creator");
    start(&mut store, "creator", "rival", GameMove::Rock).unwrap();

    let msg = ExecuteMsg::Respond {
        host: "creator".to_string(),
        opponent: "rival".to_string(),
        opp_move: GameMove::Paper,
    };
    execute(&mut store, "rival".to_string(), msg, true).unwrap();

    let looked_up = query(
        &store,
        QueryMsg::GetGame {
            host: "creator".to_string(),
            opponent: "rival".to_string(),
        },
        true,
    );
    assert_eq!(Err(ContractError::NoGameFound {}), looked_up.map(|_| ()));
}

#[test]
fn respond_without_session_is_no_game_found() {
    let mut store = fresh("creator");
    let msg = ExecuteMsg::Respond {
        host: "creator".to_string(),
        opponent: "rival".to_string(),
        opp_move: GameMove::Rock,
    };
    let res = execute(&mut store, "rival".to_string(), msg, true);
    assert_eq!(Err(ContractError::NoGameFound {}), res.map(|_| ()));
}

#[test]
fn unauthorized_respond_preserves_the_session() {
    let mut store = fresh("creator");
    start(&mut store, "creator", "rival", GameMove::Scissors).unwrap();

    let msg = ExecuteMsg::Respond {
        host: "creator".to_string(),
        opponent: "rival".to_string(),
        opp_move: GameMove::Rock,
    };
    let res = execute(&mut store, "intruder".to_string(), msg, true);
    assert_eq!(Err(ContractError::Unauthorized {}), res.map(|_| ()));

    let looked_up = query(
        &store,
        QueryMsg::GetGame {
            host: "creator".to_string(),
            opponent: "rival".to_string(),
        },
        true,
    )
    .unwrap();
    let game = match looked_up {
        QueryAnswer::Game(game) => game,
        _ => panic!("game answer expected"),
    };
    assert_eq!("creator".to_string(), game.host);
    assert_eq!("rival".to_string(), game.opponent);
    assert_eq!(GameMove::Scissors, game.host_move);
    assert_eq!(None, game.opp_move);
    assert_eq!(None, game.result);
}

#[test]
fn blacklisted_admin_cannot_host() {
    let mut store = fresh("boss");
    let msg = ExecuteMsg::AddToBlacklist {
        address: "boss".to_string(),
    };
    execute(&mut store, "boss".to_string(), msg, true).unwrap();

    let res = start(&mut store, "boss", "rival", GameMove::Rock);
    assert_eq!(Err(ContractError::HostAddressBlacklisted {}), res);
}

#[test]
fn blacklist_add_is_idempotent_and_remove_is_a_noop() {
    let mut store = fresh("boss");
    let add = ExecuteMsg::AddToBlacklist {
        address: "mallory".to_string(),
    };
    execute(&mut store, "boss".to_string(), add.clone(), true).unwrap();
    execute(&mut store, "boss".to_string(), add, true).unwrap();

    let remove = ExecuteMsg::RemoveFromBlacklist {
        address: "mallory".to_string(),
    };
    execute(&mut store, "boss".to_string(), remove.clone(), true).unwrap();
    // removing an absent entry is a no-op, not an error
    execute(&mut store, "boss".to_string(), remove, true).unwrap();

    // mallory may host again
    start(&mut store, "mallory", "rival", GameMove::Rock).unwrap();
}

#[test]
fn blacklist_mutation_requires_admin() {
    let mut store = fresh("boss");
    let add = ExecuteMsg::AddToBlacklist {
        address: "mallory".to_string(),
    };
    let res = execute(&mut store, "stranger".to_string(), add, true);
    assert_eq!(Err(ContractError::Unauthorized {}), res.map(|_| ()));

    let remove = ExecuteMsg::RemoveFromBlacklist {
        address: "mallory".to_string(),
    };
    let res = execute(&mut store, "stranger".to_string(), remove, true);
    assert_eq!(Err(ContractError::Unauthorized {}), res.map(|_| ()));
}

#[test]
fn update_admin_by_non_admin_leaves_admin_unchanged() {
    let mut store = fresh("boss");
    let msg = ExecuteMsg::UpdateAdmin {
        admin: "stranger".to_string(),
    };
    let res = execute(&mut store, "stranger".to_string(), msg, true);
    assert_eq!(Err(ContractError::Unauthorized {}), res.map(|_| ()));

    let admin = query(&store, QueryMsg::GetAdmin {}, true).unwrap();
    match admin {
        QueryAnswer::Admin(a) => assert_eq!(Some("boss".to_string()), a),
        _ => panic!("admin answer expected"),
    }
}

#[test]
fn former_admin_loses_authority_after_transfer() {
    let mut store = fresh("boss");
    let msg = ExecuteMsg::UpdateAdmin {
        admin: "heir".to_string(),
    };
    execute(&mut store, "boss".to_string(), msg, true).unwrap();

    let msg = ExecuteMsg::AddToBlacklist {
        address: "mallory".to_string(),
    };
    let res = execute(&mut store, "boss".to_string(), msg, true);
    assert_eq!(Err(ContractError::Unauthorized {}), res.map(|_| ()));
}

#[test]
fn invalid_opponent_is_rejected() {
    let mut store = fresh("creator");
    let msg = ExecuteMsg::StartGame {
        opponent: "UPPER CASE???".to_string(),
        host_move: GameMove::Rock,
    };
    // the runtime found the identifier ill-formed
    let res = execute(&mut store, "creator".to_string(), msg, false);
    assert_eq!(Err(ContractError::InvalidAddress {}), res.map(|_| ()));
}

#[test]
fn invalid_admin_is_rejected() {
    let mut store = fresh("boss");
    let msg = ExecuteMsg::UpdateAdmin {
        admin: "not an address".to_string(),
    };
    let res = execute(&mut store, "boss".to_string(), msg, false);
    assert_eq!(Err(ContractError::InvalidAddress {}), res.map(|_| ()));

    let admin = query(&store, QueryMsg::GetAdmin {}, true).unwrap();
    match admin {
        QueryAnswer::Admin(a) => assert_eq!(Some("boss".to_string()), a),
        _ => panic!("admin answer expected"),
    }
}

#[test]
fn start_and_respond_attributes() {
    let mut store = fresh("creator");
    let msg = ExecuteMsg::StartGame {
        opponent: "rival".to_string(),
        host_move: GameMove::Rock,
    };
    let res = execute(&mut store, "creator".to_string(), msg, true).unwrap();
    assert_eq!(1, res.attributes.len());
    assert_eq!(res.attributes[0].key, "method");
    assert_eq!(res.attributes[0].value, "start_game");
}

#[test]
fn instantiate_attributes() {
    let (_store, res) = instantiate("creator".to_string(), InstantiateMsg {});
    assert_eq!(3, res.attributes.len());
    assert_eq!(res.attributes[0].key, "method");
    assert_eq!(res.attributes[0].value, "instantiate");
    assert_eq!(res.attributes[1].key, "owner");
    assert_eq!(res.attributes[1].value, "creator");
    assert_eq!(res.attributes[2].key, "admin");
    assert_eq!(res.attributes[2].value, "creator");
}

#[test]
fn blacklist_reads_track_mutations() {
    let mut store = fresh("boss");
    assert!(!rps_dapp::contract::is_blacklisted(&store, &"mallory".to_string()));
    assert_eq!(0, rps_dapp::contract::list_blacklisted(&store).len());

    let add = ExecuteMsg::AddToBlacklist {
        address: "mallory".to_string(),
    };
    execute(&mut store, "boss".to_string(), add, true).unwrap();

    assert!(rps_dapp::contract::is_blacklisted(&store, &"mallory".to_string()));
    assert_eq!(
        vec!["mallory".to_string()],
        rps_dapp::contract::list_blacklisted(&store)
    );
}

#[test]
fn games_by_opponent_scans_all_hosts() {
    let mut store = fresh("creator");
    start(&mut store, "creator", "rival", GameMove::Rock).unwrap();
    start(&mut store, "creator", "bystander", GameMove::Paper).unwrap();
    start(&mut store, "bystander", "rival", GameMove::Scissors).unwrap();

    let res = query(
        &store,
        QueryMsg::GetGamesByOpponent {
            opponent: "rival".to_string(),
        },
        true,
    )
    .unwrap();
    let list = match res {
        QueryAnswer::Games(list) => list,
        _ => panic!("games answer expected"),
    };
    // ascending (host, opponent) key order: "bystander" before "creator"
    assert_eq!(2, list.games.len());
    assert_eq!("bystander".to_string(), list.games[0].host);
    assert_eq!("creator".to_string(), list.games[1].host);
    assert_eq!(GameMove::Scissors, list.games[0].host_move);
    assert_eq!(GameMove::Rock, list.games[1].host_move);
}

#[test]
fn listings_come_back_in_ascending_key_order() {
    let mut store = fresh("creator");
    // started against opponents whose names descend
    start(&mut store, "creator", "zeta", GameMove::Rock).unwrap();
    start(&mut store, "creator", "alpha", GameMove::Paper).unwrap();
    start(&mut store, "creator", "midge", GameMove::Scissors).unwrap();

    let res = query(
        &store,
        QueryMsg::GetGamesByHost {
            address: "creator".to_string(),
        },
        true,
    )
    .unwrap();
    let list = match res {
        QueryAnswer::Games(list) => list,
        _ => panic!("games answer expected"),
    };
    assert_eq!(3, list.games.len());
    assert_eq!("alpha".to_string(), list.games[0].opponent);
    assert_eq!("midge".to_string(), list.games[1].opponent);
    assert_eq!("zeta".to_string(), list.games[2].opponent);
    assert_eq!(GameMove::Paper, list.games[0].host_move);
    assert_eq!(GameMove::Scissors, list.games[1].host_move);
    assert_eq!(GameMove::Rock, list.games[2].host_move);
}
