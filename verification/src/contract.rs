//! The executable entry points: system creation, the five mutating
//! actions, and the read-only queries. Each is proved to follow the
//! corresponding pure transition of [`crate::model`] and to preserve the
//! store's well-formedness.
//!
//! Account-identifier validation belongs to the hosting runtime; its
//! verdict on the addresses an action carries is injected as a `bool`
//! argument, and every contract states exactly what happens under either
//! verdict.

use vstd::prelude::*;

use crate::error::ContractError;
use crate::model;
use crate::msg::attr;
use crate::msg::ExecuteMsg;
use crate::msg::GamesListResponse;
use crate::msg::InstantiateMsg;
use crate::msg::QueryAnswer;
use crate::msg::QueryMsg;
use crate::msg::Response;
use crate::state::clone_game;
use crate::state::Game;
use crate::state::GameMove;
use crate::state::GameResult;
use crate::state::State;
use crate::state::Store;

verus! {

/// Do the executable verdict `r` and the model verdict `m` agree:
/// success for success, and the very same error for failure?
pub open spec fn same_verdict<T, U>(r: Result<T, ContractError>, m: Result<
    U,
    ContractError,
>) -> bool {
    &&& r is Ok <==> m is Ok
    &&& r is Err ==> r->Err_0 == m->Err_0
}

/// The audit attributes of a successful session creation.
pub open spec fn start_response(resp: Response) -> bool {
    &&& resp.attributes@.len() == 1
    &&& resp.attributes@[0].is_pair("method"@, "start_game"@)
}

/// The audit attributes of a successful respond: the method and the
/// human-readable outcome label.
pub open spec fn respond_response(resp: Response, outcome: GameResult) -> bool {
    &&& resp.attributes@.len() == 2
    &&& resp.attributes@[0].is_pair("method"@, "response"@)
    &&& resp.attributes@[1].is_pair("result"@, model::result_label(outcome))
}

/// The audit attributes of a successful administrative action: what was
/// done, to whom, by whom.
pub open spec fn admin_action_response(
    resp: Response,
    action: Seq<char>,
    subject_key: Seq<char>,
    subject: Seq<char>,
    sender: Seq<char>,
) -> bool {
    &&& resp.attributes@.len() == 3
    &&& resp.attributes@[0].is_pair("action"@, action)
    &&& resp.attributes@[1].is_pair(subject_key, subject)
    &&& resp.attributes@[2].is_pair("sender"@, sender)
}

/// The audit attributes of system creation.
pub open spec fn instantiate_response(resp: Response, creator: Seq<char>) -> bool {
    &&& resp.attributes@.len() == 3
    &&& resp.attributes@[0].is_pair("method"@, "instantiate"@)
    &&& resp.attributes@[1].is_pair("owner"@, creator)
    &&& resp.attributes@[2].is_pair("admin"@, creator)
}

/// Computes the outcome of a finished game from the two moves.
pub fn decide_result(h: GameMove, o: GameMove) -> (r: GameResult)
    ensures
        r == model::decide(h, o),
{
    match (h, o) {
        (GameMove::Rock, GameMove::Scissors) => GameResult::HostWins,
        (GameMove::Paper, GameMove::Rock) => GameResult::HostWins,
        (GameMove::Scissors, GameMove::Paper) => GameResult::HostWins,
        (GameMove::Rock, GameMove::Rock) => GameResult::Tie,
        (GameMove::Paper, GameMove::Paper) => GameResult::Tie,
        (GameMove::Scissors, GameMove::Scissors) => GameResult::Tie,
        _ => GameResult::OpponentWins,
    }
}

/// The outcome label surfaced to the caller's transaction log.
fn result_label_string(r: GameResult) -> (s: String)
    ensures
        s@ == model::result_label(r),
{
    match r {
        GameResult::HostWins => "Host Won".to_string(),
        GameResult::OpponentWins => "Opponent Won".to_string(),
        GameResult::Tie => "Tie".to_string(),
    }
}

/// The position of account `a` in `list`, if present.
fn find_account(list: &Vec<String>, a: &String) -> (r: Option<usize>)
    ensures
        match r {
            Some(i) => i < list@.len() && list@[i as int]@ == a@,
            None => forall|j: int| 0 <= j < list@.len() ==> list@[j]@ != a@,
        },
{
    let mut i: usize = 0;
    while i < list.len()
        invariant
            i <= list@.len(),
            forall|j: int| 0 <= j < i ==> list@[j]@ != a@,
        decreases list@.len() - i,
    {
        if list[i] == *a {
            return Some(i);
        }
        i += 1;
    }
    None
}

/// Does the session's key strictly precede the key (`host`, `opponent`)?
fn key_before(g: &Game, host: &String, opponent: &String) -> (r: bool)
    ensures
        r == crate::state::key_below(g@, host@, opponent@),
{
    if crate::order::account_lt(g.host.as_str(), host.as_str()) {
        true
    } else if g.host == *host {
        crate::order::account_lt(g.opponent.as_str(), opponent.as_str())
    } else {
        false
    }
}

/// The position of the session keyed (`host`, `opponent`), if present.
fn find_game(games: &Vec<Game>, host: &String, opponent: &String) -> (r: Option<usize>)
    ensures
        match r {
            Some(i) => i < games@.len() && games@[i as int]@.host == host@ && games@[
                i as int
            ]@.opponent == opponent@,
            None => forall|j: int|
                0 <= j < games@.len() ==> !(games@[j]@.host == host@ && games@[j]@.opponent
                    == opponent@),
        },
{
    let mut i: usize = 0;
    while i < games.len()
        invariant
            i <= games@.len(),
            forall|j: int|
                0 <= j < i ==> !(games@[j]@.host == host@ && games@[j]@.opponent == opponent@),
        decreases games@.len() - i,
    {
        if games[i].host == *host && games[i].opponent == *opponent {
            return Some(i);
        }
        i += 1;
    }
    None
}

/// Is `account` currently barred from acting as a host? A pure read.
pub fn is_blacklisted(store: &Store, account: &String) -> (r: bool)
    ensures
        r == store@.is_blacklisted(account@),
{
    match find_account(&store.blacklist, account) {
        Some(i) => {
            proof {
                assert(store@.blacklist[i as int] == store.blacklist@[i as int]@);
            }
            true
        },
        None => {
            proof {
                assert forall|j: int| 0 <= j < store@.blacklist.len() implies store@.blacklist[j]
                    != account@ by {
                    assert(store@.blacklist[j] == store.blacklist@[j]@);
                }
            }
            false
        },
    }
}

/// The blacklist entries, in store order. A pure read.
pub fn list_blacklisted(store: &Store) -> (r: Vec<String>)
    ensures
        r@.map_values(|s: String| s@) == store@.blacklist,
{
    let mut out: Vec<String> = Vec::new();
    let mut i: usize = 0;
    while i < store.blacklist.len()
        invariant
            i <= store.blacklist@.len(),
            out@.len() == i,
            forall|j: int| 0 <= j < i ==> out@[j] == store.blacklist@[j],
        decreases store.blacklist@.len() - i,
    {
        out.push(store.blacklist[i].clone());
        i += 1;
    }
    proof {
        assert(out@ =~= store.blacklist@);
    }
    out
}

/// Creates the system: the creator's account becomes both owner and
/// first admin, with an empty blacklist and no session.
pub fn instantiate(creator: String, _msg: InstantiateMsg) -> (r: (Store, Response))
    ensures
        r.0@ == model::spec_instantiate(creator@),
        r.0.wf(),
        instantiate_response(r.1, creator@),
{
    let store = Store {
        state: State { owner: creator.clone() },
        admin: Some(creator.clone()),
        blacklist: Vec::new(),
        games: Vec::new(),
    };
    let response = Response {
        attributes: vec![
            attr("method", "instantiate".to_string()),
            attr("owner", creator.clone()),
            attr("admin", creator),
        ],
    };
    proof {
        assert(store@ =~= model::spec_instantiate(creator@));
    }
    (store, response)
}

/// Applies one mutating action to the store, routing it to the
/// transition it names. `addr_valid` is the runtime's validation verdict
/// on the account identifiers the action carries.
pub fn execute(store: &mut Store, caller: String, msg: ExecuteMsg, addr_valid: bool) -> (r: Result<
    Response,
    ContractError,
>)
    requires
        old(store).wf(),
    ensures
        final(store).wf(),
        (msg matches ExecuteMsg::StartGame { opponent, host_move } ==> ({
            let m = model::spec_start(old(store)@, caller@, opponent@, addr_valid, host_move);
            &&& final(store)@ == m.0
            &&& same_verdict(r, m.1)
            &&& r is Ok ==> start_response(r->Ok_0)
        })),
        (msg matches ExecuteMsg::UpdateAdmin { admin } ==> ({
            let m = model::spec_update_admin(old(store)@, caller@, admin@, addr_valid);
            &&& final(store)@ == m.0
            &&& same_verdict(r, m.1)
            &&& r is Ok ==> admin_action_response(r->Ok_0, "update_admin"@, "admin"@, admin@, caller@)
        })),
        (msg matches ExecuteMsg::AddToBlacklist { address } ==> ({
            let m = model::spec_add_to_blacklist(old(store)@, caller@, address@, addr_valid);
            &&& final(store)@ == m.0
            &&& same_verdict(r, m.1)
            &&& r is Ok ==> admin_action_response(r->Ok_0, "add_hook"@, "hook"@, address@, caller@)
        })),
        (msg matches ExecuteMsg::RemoveFromBlacklist { address } ==> ({
            let m = model::spec_remove_from_blacklist(old(store)@, caller@, address@, addr_valid);
            &&& final(store)@ == m.0
            &&& same_verdict(r, m.1)
            &&& r is Ok ==> admin_action_response(
                r->Ok_0,
                "remove_hook"@,
                "hook"@,
                address@,
                caller@,
            )
        })),
        (msg matches ExecuteMsg::Respond { host, opponent, opp_move } ==> ({
            let m = model::spec_respond(
                old(store)@,
                caller@,
                host@,
                opponent@,
                opp_move,
                addr_valid,
            );
            &&& final(store)@ == m.0
            &&& same_verdict(r, m.1)
            &&& r is Ok ==> respond_response(r->Ok_0, m.1->Ok_0)
            &&& r is Ok ==> !final(store)@.has_game(host@, opponent@)
        })),
{
    match msg {
        ExecuteMsg::StartGame { opponent, host_move } => try_start_game(
            store,
            caller,
            opponent,
            addr_valid,
            host_move,
        ),
        ExecuteMsg::UpdateAdmin { admin } => try_admin_update(store, caller, admin, addr_valid),
        ExecuteMsg::AddToBlacklist { address } => try_add_to_blacklist(
            store,
            caller,
            address,
            addr_valid,
        ),
        ExecuteMsg::RemoveFromBlacklist { address } => try_remove_from_blacklist(
            store,
            caller,
            address,
            addr_valid,
        ),
        ExecuteMsg::Respond { host, opponent, opp_move } => try_response(
            store,
            caller,
            host,
            opponent,
            opp_move,
            addr_valid,
        ),
    }
}

/// Opens a session: `caller` commits `host_move` against `opponent`.
/// Refused when the opponent identifier is ill-formed, when the caller
/// is blacklisted, or when the ordered pair already has an open session.
pub fn try_start_game(
    store: &mut Store,
    caller: String,
    opponent: String,
    opponent_valid: bool,
    host_move: GameMove,
) -> (r: Result<Response, ContractError>)
    requires
        old(store).wf(),
    ensures
        final(store).wf(),
        final(store)@ == model::spec_start(
            old(store)@,
            caller@,
            opponent@,
            opponent_valid,
            host_move,
        ).0,
        same_verdict(
            r,
            model::spec_start(old(store)@, caller@, opponent@, opponent_valid, host_move).1,
        ),
        r is Ok ==> start_response(r->Ok_0),
        r is Ok ==> final(store)@.has_game(caller@, opponent@),
{
    if !opponent_valid {
        return Err(ContractError::InvalidAddress {});
    }
    match find_account(&store.blacklist, &caller) {
        Some(i) => {
            proof {
                assert(store@.blacklist[i as int] == store.blacklist@[i as int]@);
                assert(store@.is_blacklisted(caller@));
            }
            return Err(ContractError::HostAddressBlacklisted {});
        },
        None => {
            proof {
                assert forall|j: int| 0 <= j < store@.blacklist.len() implies store@.blacklist[j]
                    != caller@ by {
                    assert(store@.blacklist[j] == store.blacklist@[j]@);
                }
                assert(!store@.is_blacklisted(caller@));
            }
        },
    }
    match find_game(&store.games, &caller, &opponent) {
        Some(i) => {
            proof {
                assert(store@.games[i as int] == store.games@[i as int]@);
                assert(store@.game_key_at(i as int, caller@, opponent@));
                assert(store@.has_game(caller@, opponent@));
            }
            Err(ContractError::OnlyOneGameAtATime {})
        },
        None => {
            proof {
                assert forall|j: int|
                    0 <= j < store@.games.len() implies !store@.game_key_at(
                    j,
                    caller@,
                    opponent@,
                ) by {
                    assert(store@.games[j] == store.games@[j]@);
                }
                assert(!store@.has_game(caller@, opponent@));
            }
            let ghost s0 = old(store)@;
            let mut idx: usize = 0;
            while idx < store.games.len() && key_before(&store.games[idx], &caller, &opponent)
                invariant
                    *store == *old(store),
                    idx <= store.games@.len(),
                    forall|j: int|
                        0 <= j < idx ==> crate::state::key_below(
                            #[trigger] store@.games[j],
                            caller@,
                            opponent@,
                        ),
                decreases store.games@.len() - idx,
            {
                proof {
                    assert(store@.games[idx as int] == store.games@[idx as int]@);
                }
                idx += 1;
            }
            proof {
                model::lemma_first_not_below_props(s0.games, caller@, opponent@);
                let f = model::first_not_below(s0.games, caller@, opponent@);
                if idx < store.games.len() {
                    assert(store@.games[idx as int] == store.games@[idx as int]@);
                }
                if (idx as int) < f {
                    assert(crate::state::key_below(s0.games[idx as int], caller@, opponent@));
                    assert(false);
                }
                if f < idx as int {
                    assert(crate::state::key_below(s0.games[f], caller@, opponent@));
                    assert(false);
                }
                assert(idx as int == f);
            }
            let game = Game {
                host: caller,
                opponent: opponent,
                host_move: host_move,
                opp_move: None,
                result: None,
            };
            store.games.insert(idx, game);
            proof {
                let g = model::open_game(caller@, opponent@, host_move);
                s0.games.insert_ensures(idx as int, g);
                old(store).games@.insert_ensures(idx as int, game);
                assert forall|j: int|
                    0 <= j < store@.games.len() implies store@.games[j] == s0.games.insert(
                    idx as int,
                    g,
                )[j] by {
                    assert(store@.games[j] == store.games@[j]@);
                    if j < idx as int {
                        assert(store.games@[j] == old(store).games@[j]);
                        assert(s0.games[j] == old(store).games@[j]@);
                    } else if j == idx as int {
                        assert(store.games@[j] == game);
                    } else {
                        assert(store.games@[j] == old(store).games@[j - 1]);
                        assert(s0.games[j - 1] == old(store).games@[j - 1]@);
                    }
                }
                assert(store@.games =~= s0.games.insert(idx as int, g));
                assert(store@ =~= model::spec_start(
                    s0,
                    caller@,
                    opponent@,
                    opponent_valid,
                    host_move,
                ).0);
                lemma_insert_keeps_wf(s0, idx as int, caller@, opponent@, host_move);
                assert(store@.game_key_at(idx as int, caller@, opponent@));
            }
            Ok(Response { attributes: vec![attr("method", "start_game".to_string())] })
        },
    }
}

/// Resolves a session: the named opponent answers the stored host move,
/// the outcome is computed, and the session is deleted in the same step.
fn try_response(
    store: &mut Store,
    caller: String,
    host: String,
    opponent: String,
    opp_move: GameMove,
    addr_valid: bool,
) -> (r: Result<Response, ContractError>)
    requires
        old(store).wf(),
    ensures
        final(store).wf(),
        final(store)@ == model::spec_respond(
            old(store)@,
            caller@,
            host@,
            opponent@,
            opp_move,
            addr_valid,
        ).0,
        same_verdict(
            r,
            model::spec_respond(old(store)@, caller@, host@, opponent@, opp_move, addr_valid).1,
        ),
        r is Ok ==> respond_response(
            r->Ok_0,
            model::spec_respond(old(store)@, caller@, host@, opponent@, opp_move, addr_valid).1->Ok_0,
        ),
        r is Ok ==> !final(store)@.has_game(host@, opponent@),
{
    if !(caller == opponent) {
        return Err(ContractError::Unauthorized {});
    }
    if !addr_valid {
        return Err(ContractError::InvalidAddress {});
    }
    match find_game(&store.games, &host, &opponent) {
        None => {
            proof {
                assert forall|j: int|
                    0 <= j < store@.games.len() implies !store@.game_key_at(j, host@, opponent@) by {
                    assert(store@.games[j] == store.games@[j]@);
                }
                assert(!store@.has_game(host@, opponent@));
            }
            Err(ContractError::NoGameFound {})
        },
        Some(i) => {
            let ghost s0 = old(store)@;
            proof {
                assert(s0.games[i as int] == store.games@[i as int]@);
                assert(s0.game_key_at(i as int, host@, opponent@));
                assert(s0.has_game(host@, opponent@));
                let k = s0.game_index(host@, opponent@);
                assert(0 <= k < s0.games.len() && s0.game_key_at(k, host@, opponent@));
                assert(k == i as int);
            }
            let host_move = store.games[i].host_move;
            let outcome = decide_result(host_move, opp_move);
            store.games.remove(i);
            proof {
                assert(store@.games =~= s0.games.remove(i as int));
                assert(store@ =~= model::spec_respond(
                    s0,
                    caller@,
                    host@,
                    opponent@,
                    opp_move,
                    addr_valid,
                ).0);
                lemma_remove_keeps_wf(s0, i as int);
                lemma_remove_unique_key(s0, i as int, host@, opponent@);
            }
            let label = result_label_string(outcome);
            Ok(
                Response {
                    attributes: vec![attr("method", "response".to_string()), attr("result", label)],
                },
            )
        },
    }
}

/// Inserting a fresh session at its key position keeps the store well
/// formed: keys stay unique and ascending, sessions stay open.
proof fn lemma_insert_keeps_wf(
    s: crate::state::StoreView,
    i: int,
    h: Seq<char>,
    o: Seq<char>,
    mv: GameMove,
)
    requires
        s.wf(),
        0 <= i <= s.games.len(),
        forall|j: int| 0 <= j < i ==> crate::state::key_below(#[trigger] s.games[j], h, o),
        i < s.games.len() ==> !crate::state::key_below(s.games[i], h, o),
        !s.has_game(h, o),
    ensures
        (crate::state::StoreView {
            games: s.games.insert(i, model::open_game(h, o, mv)),
            ..s
        }).wf(),
{
    let g = model::open_game(h, o, mv);
    let t = crate::state::StoreView { games: s.games.insert(i, g), ..s };
    s.games.insert_ensures(i, g);

    // no stored session carries the fresh key
    assert forall|j: int|
        0 <= j < s.games.len() implies !(#[trigger] s.games[j].host == h && s.games[j].opponent
        == o) by {
        if s.games[j].host == h && s.games[j].opponent == o {
            assert(s.game_key_at(j, h, o));
            assert(s.has_game(h, o));
        }
    }

    // the fresh key strictly precedes every key at or after the
    // insertion point
    if i < s.games.len() {
        if !crate::state::key_lt(g, s.games[i]) {
            crate::order::lemma_pair_lt_connected(s.games[i].host, s.games[i].opponent, h, o);
            assert(false);
        }
    }
    assert forall|j: int| i <= j < s.games.len() implies crate::state::key_lt(
        g,
        #[trigger] s.games[j],
    ) by {
        if j > i {
            assert(crate::state::key_lt(s.games[i], s.games[j]));
            crate::order::lemma_pair_lt_transitive(
                h,
                o,
                s.games[i].host,
                s.games[i].opponent,
                s.games[j].host,
                s.games[j].opponent,
            );
        }
    }

    // ascending key order, which also keeps the keys unique
    assert forall|p: int, q: int|
        0 <= p < q < t.games.len() implies crate::state::key_lt(
        #[trigger] t.games[p],
        #[trigger] t.games[q],
    ) by {
        if q < i {
            assert(t.games[p] == s.games[p]);
            assert(t.games[q] == s.games[q]);
        } else if q == i {
            assert(t.games[p] == s.games[p]);
            assert(t.games[q] == g);
        } else if p < i {
            assert(t.games[p] == s.games[p]);
            assert(t.games[q] == s.games[q - 1]);
        } else if p == i {
            assert(t.games[p] == g);
            assert(t.games[q] == s.games[q - 1]);
        } else {
            assert(t.games[p] == s.games[p - 1]);
            assert(t.games[q] == s.games[q - 1]);
        }
    }
    assert forall|p: int, q: int|
        0 <= p < q < t.games.len() implies !(#[trigger] t.games[p].host == #[trigger] t.games[q].host
        && t.games[p].opponent == t.games[q].opponent) by {
        assert(crate::state::key_lt(t.games[p], t.games[q]));
        if t.games[p].host == t.games[q].host && t.games[p].opponent == t.games[q].opponent {
            crate::order::lemma_lex_lt_irreflexive(t.games[q].host);
            crate::order::lemma_lex_lt_irreflexive(t.games[q].opponent);
        }
    }
    assert forall|p: int| 0 <= p < t.games.len() implies (#[trigger] t.games[p]).opp_move is None
        && t.games[p].result is None by {
        if p < i {
            assert(t.games[p] == s.games[p]);
        } else if p > i {
            assert(t.games[p] == s.games[p - 1]);
        }
    }
}

/// Removing one session keeps the store well formed.
proof fn lemma_remove_keeps_wf(s: crate::state::StoreView, i: int)
    requires
        s.wf(),
        0 <= i < s.games.len(),
    ensures
        (crate::state::StoreView { games: s.games.remove(i), ..s }).wf(),
{
    let t = crate::state::StoreView { games: s.games.remove(i), ..s };
    assert forall|p: int, q: int|
        0 <= p < q < t.games.len() implies !(#[trigger] t.games[p].host == #[trigger] t.games[q].host
        && t.games[p].opponent == t.games[q].opponent) by {
        let p0 = if p < i { p } else { p + 1 };
        let q0 = if q < i { q } else { q + 1 };
        assert(t.games[p] == s.games[p0]);
        assert(t.games[q] == s.games[q0]);
    }
    assert forall|p: int, q: int|
        0 <= p < q < t.games.len() implies crate::state::key_lt(
        #[trigger] t.games[p],
        #[trigger] t.games[q],
    ) by {
        let p0 = if p < i { p } else { p + 1 };
        let q0 = if q < i { q } else { q + 1 };
        assert(t.games[p] == s.games[p0]);
        assert(t.games[q] == s.games[q0]);
    }
    assert forall|p: int| 0 <= p < t.games.len() implies (#[trigger] t.games[p]).opp_move is None
        && t.games[p].result is None by {
        let p0 = if p < i { p } else { p + 1 };
        assert(t.games[p] == s.games[p0]);
    }
}

/// Under key uniqueness, removing the session at a key removes the key.
proof fn lemma_remove_unique_key(s: crate::state::StoreView, i: int, h: Seq<char>, o: Seq<char>)
    requires
        s.wf(),
        0 <= i < s.games.len(),
        s.game_key_at(i, h, o),
    ensures
        !(crate::state::StoreView { games: s.games.remove(i), ..s }).has_game(h, o),
{
    let t = crate::state::StoreView { games: s.games.remove(i), ..s };
    assert forall|j: int| 0 <= j < t.games.len() implies !t.game_key_at(j, h, o) by {
        let j0 = if j < i { j } else { j + 1 };
        assert(t.games[j] == s.games[j0]);
        assert(s.game_key_at(i, h, o));
    }
}

/// Transfers the admin role. Refused with `Unauthorized` for every
/// caller but the current admin; an absent admin authorizes nobody.
pub fn try_admin_update(store: &mut Store, caller: String, admin: String, addr_valid: bool) -> (r:
    Result<Response, ContractError>)
    requires
        old(store).wf(),
    ensures
        final(store).wf(),
        final(store)@ == model::spec_update_admin(old(store)@, caller@, admin@, addr_valid).0,
        same_verdict(r, model::spec_update_admin(old(store)@, caller@, admin@, addr_valid).1),
        r is Ok ==> admin_action_response(r->Ok_0, "update_admin"@, "admin"@, admin@, caller@),
{
    if !is_current_admin(store, &caller) {
        return Err(ContractError::Unauthorized {});
    }
    if !addr_valid {
        return Err(ContractError::InvalidAddress {});
    }
    let ghost s0 = old(store)@;
    store.admin = Some(admin.clone());
    proof {
        assert(store@ =~= model::spec_update_admin(s0, caller@, admin@, addr_valid).0);
    }
    Ok(
        Response {
            attributes: vec![
                attr("action", "update_admin".to_string()),
                attr("admin", admin),
                attr("sender", caller),
            ],
        },
    )
}

/// Is the caller the current admin?
fn is_current_admin(store: &Store, caller: &String) -> (r: bool)
    ensures
        r == store@.is_admin(caller@),
{
    match &store.admin {
        Some(a) => *a == *caller,
        None => false,
    }
}

/// Adds an account to the blacklist. Admin-only; re-adding a present
/// entry changes nothing.
pub fn try_add_to_blacklist(store: &mut Store, caller: String, address: String, addr_valid: bool) -> (r:
    Result<Response, ContractError>)
    requires
        old(store).wf(),
    ensures
        final(store).wf(),
        final(store)@ == model::spec_add_to_blacklist(old(store)@, caller@, address@, addr_valid).0,
        same_verdict(r, model::spec_add_to_blacklist(old(store)@, caller@, address@, addr_valid).1),
        r is Ok ==> admin_action_response(r->Ok_0, "add_hook"@, "hook"@, address@, caller@),
{
    if !is_current_admin(store, &caller) {
        return Err(ContractError::Unauthorized {});
    }
    if !addr_valid {
        return Err(ContractError::InvalidAddress {});
    }
    let ghost s0 = old(store)@;
    match find_account(&store.blacklist, &address) {
        None => {
            proof {
                assert forall|j: int| 0 <= j < s0.blacklist.len() implies s0.blacklist[j]
                    != address@ by {
                    assert(s0.blacklist[j] == store.blacklist@[j]@);
                }
                assert(!s0.is_blacklisted(address@));
            }
            store.blacklist.push(address.clone());
            proof {
                assert(store@.blacklist =~= s0.blacklist.push(address@));
                assert(store@ =~= model::spec_add_to_blacklist(s0, caller@, address@, addr_valid).0);
                lemma_push_fresh_no_duplicates(s0.blacklist, address@);
            }
        },
        Some(i) => {
            proof {
                assert(s0.blacklist[i as int] == store.blacklist@[i as int]@);
                assert(s0.is_blacklisted(address@));
                assert(store@ =~= model::spec_add_to_blacklist(s0, caller@, address@, addr_valid).0);
            }
        },
    }
    Ok(
        Response {
            attributes: vec![
                attr("action", "add_hook".to_string()),
                attr("hook", address),
                attr("sender", caller),
            ],
        },
    )
}

/// Appending an element not yet present keeps a sequence free of
/// duplicates.
proof fn lemma_push_fresh_no_duplicates(s: Seq<Seq<char>>, a: Seq<char>)
    requires
        s.no_duplicates(),
        !s.contains(a),
    ensures
        s.push(a).no_duplicates(),
{
    let t = s.push(a);
    assert forall|p: int, q: int| 0 <= p < t.len() && 0 <= q < t.len() && p != q implies t[p]
        != t[q] by {
        if p < s.len() && q < s.len() {
        } else if p < s.len() {
            assert(s[p] == t[p]);
        } else if q < s.len() {
            assert(s[q] == t[q]);
        }
    }
}

/// Removes an account from the blacklist. Admin-only; removing an
/// absent entry is a no-op.
pub fn try_remove_from_blacklist(
    store: &mut Store,
    caller: String,
    address: String,
    addr_valid: bool,
) -> (r: Result<Response, ContractError>)
    requires
        old(store).wf(),
    ensures
        final(store).wf(),
        final(store)@ == model::spec_remove_from_blacklist(
            old(store)@,
            caller@,
            address@,
            addr_valid,
        ).0,
        same_verdict(
            r,
            model::spec_remove_from_blacklist(old(store)@, caller@, address@, addr_valid).1,
        ),
        r is Ok ==> admin_action_response(r->Ok_0, "remove_hook"@, "hook"@, address@, caller@),
{
    if !is_current_admin(store, &caller) {
        return Err(ContractError::Unauthorized {});
    }
    if !addr_valid {
        return Err(ContractError::InvalidAddress {});
    }
    let ghost s0 = old(store)@;
    match find_account(&store.blacklist, &address) {
        Some(i) => {
            proof {
                assert(s0.blacklist[i as int] == store.blacklist@[i as int]@);
                assert(s0.is_blacklisted(address@));
                let k = s0.blacklist_index(address@);
                assert(0 <= k < s0.blacklist.len() && s0.blacklist[k] == address@);
                assert(k == i as int);
            }
            store.blacklist.remove(i);
            proof {
                assert(store@.blacklist =~= s0.blacklist.remove(i as int));
                assert(store@ =~= model::spec_remove_from_blacklist(
                    s0,
                    caller@,
                    address@,
                    addr_valid,
                ).0);
                lemma_remove_no_duplicates(s0.blacklist, i as int);
            }
        },
        None => {
            proof {
                assert forall|j: int| 0 <= j < s0.blacklist.len() implies s0.blacklist[j]
                    != address@ by {
                    assert(s0.blacklist[j] == store.blacklist@[j]@);
                }
                assert(!s0.is_blacklisted(address@));
                assert(store@ =~= model::spec_remove_from_blacklist(
                    s0,
                    caller@,
                    address@,
                    addr_valid,
                ).0);
            }
        },
    }
    Ok(
        Response {
            attributes: vec![
                attr("action", "remove_hook".to_string()),
                attr("hook", address),
                attr("sender", caller),
            ],
        },
    )
}

/// Removing an element keeps a sequence free of duplicates.
proof fn lemma_remove_no_duplicates(s: Seq<Seq<char>>, i: int)
    requires
        s.no_duplicates(),
        0 <= i < s.len(),
    ensures
        s.remove(i).no_duplicates(),
{
    let t = s.remove(i);
    assert forall|p: int, q: int| 0 <= p < t.len() && 0 <= q < t.len() && p != q implies t[p]
        != t[q] by {
        let p0 = if p < i { p } else { p + 1 };
        let q0 = if q < i { q } else { q + 1 };
        assert(t[p] == s[p0]);
        assert(t[q] == s[q0]);
    }
}

/// Answers one read-only request without touching the store.
pub fn query(store: &Store, msg: QueryMsg, addr_valid: bool) -> (r: Result<
    QueryAnswer,
    ContractError,
>)
    requires
        store.wf(),
    ensures
        (msg matches QueryMsg::GetOwner {  } ==> (r matches Ok(QueryAnswer::Owner(o)) && o@
            == store@.owner)),
        (msg matches QueryMsg::GetAdmin {  } ==> (r matches Ok(QueryAnswer::Admin(a))
            && crate::state::opt_account_view(a) == store@.admin)),
        (msg matches QueryMsg::GetGame { host, opponent } ==> ({
            let m = model::spec_query_game(store@, host@, opponent@, addr_valid);
            &&& r is Ok <==> m is Ok
            &&& r is Err ==> r->Err_0 == m->Err_0
            &&& m is Ok ==> (r matches Ok(QueryAnswer::Game(g)) && g@ == m->Ok_0)
        })),
        (msg matches QueryMsg::GetGamesByHost { address } ==> ({
            &&& !addr_valid ==> r == Err::<QueryAnswer, ContractError>(
                ContractError::InvalidAddress {},
            )
            &&& addr_valid ==> (r matches Ok(QueryAnswer::Games(l)) && l.view_games()
                == model::games_by_host(store@, address@) && crate::state::games_sorted(
                l.view_games(),
            ))
        })),
        (msg matches QueryMsg::GetGamesByOpponent { opponent } ==> ({
            &&& !addr_valid ==> r == Err::<QueryAnswer, ContractError>(
                ContractError::InvalidAddress {},
            )
            &&& addr_valid ==> (r matches Ok(QueryAnswer::Games(l)) && l.view_games()
                == model::games_by_opponent(store@, opponent@) && crate::state::games_sorted(
                l.view_games(),
            ))
        })),
{
    match msg {
        QueryMsg::GetOwner {  } => Ok(QueryAnswer::Owner(query_owner(store))),
        QueryMsg::GetAdmin {  } => Ok(QueryAnswer::Admin(query_admin(store))),
        QueryMsg::GetGame { host, opponent } => {
            match query_game(store, &host, &opponent, addr_valid) {
                Ok(g) => Ok(QueryAnswer::Game(g)),
                Err(e) => Err(e),
            }
        },
        QueryMsg::GetGamesByHost { address } => {
            if !addr_valid {
                Err(ContractError::InvalidAddress {})
            } else {
                Ok(QueryAnswer::Games(query_game_by_host(store, &address)))
            }
        },
        QueryMsg::GetGamesByOpponent { opponent } => {
            if !addr_valid {
                Err(ContractError::InvalidAddress {})
            } else {
                Ok(QueryAnswer::Games(query_game_by_opp(store, &opponent)))
            }
        },
    }
}

/// The account recorded at creation.
fn query_owner(store: &Store) -> (r: String)
    ensures
        r@ == store@.owner,
{
    store.state.owner.clone()
}

/// The current admin, absent once transferred away.
fn query_admin(store: &Store) -> (r: Option<String>)
    ensures
        crate::state::opt_account_view(r) == store@.admin,
{
    match &store.admin {
        Some(a) => Some(a.clone()),
        None => None,
    }
}

/// Exact-key session lookup.
fn query_game(store: &Store, host: &String, opponent: &String, addr_valid: bool) -> (r: Result<
    Game,
    ContractError,
>)
    requires
        store.wf(),
    ensures
        ({
            let m = model::spec_query_game(store@, host@, opponent@, addr_valid);
            &&& r is Ok <==> m is Ok
            &&& r is Err ==> r->Err_0 == m->Err_0
            &&& r is Ok ==> r->Ok_0@ == m->Ok_0
        }),
{
    if !addr_valid {
        return Err(ContractError::InvalidAddress {});
    }
    match find_game(&store.games, host, opponent) {
        None => {
            proof {
                assert forall|j: int|
                    0 <= j < store@.games.len() implies !store@.game_key_at(j, host@, opponent@) by {
                    assert(store@.games[j] == store.games@[j]@);
                }
                assert(!store@.has_game(host@, opponent@));
            }
            Err(ContractError::NoGameFound {})
        },
        Some(i) => {
            proof {
                assert(store@.games[i as int] == store.games@[i as int]@);
                assert(store@.game_key_at(i as int, host@, opponent@));
                assert(store@.has_game(host@, opponent@));
                let k = store@.game_index(host@, opponent@);
                assert(0 <= k < store@.games.len() && store@.game_key_at(k, host@, opponent@));
                assert(k == i as int);
            }
            Ok(clone_game(&store.games[i]))
        },
    }
}

/// Every session a filter keeps occurs in the sequence it was taken
/// from.
proof fn lemma_filter_membership(
    s: Seq<crate::state::GameView>,
    p: spec_fn(crate::state::GameView) -> bool,
)
    ensures
        forall|i: int| 0 <= i < s.filter(p).len() ==> s.contains(#[trigger] s.filter(p)[i]),
    decreases s.len(),
{
    broadcast use vstd::seq_lib::group_filter_ensures;

    if s.len() != 0 {
        let t = s.drop_last();
        lemma_filter_membership(t, p);
        assert(s =~= t.push(s.last()));
        t.lemma_filter_push(s.last(), p);
        assert forall|i: int| 0 <= i < s.filter(p).len() implies s.contains(
            #[trigger] s.filter(p)[i],
        ) by {
            if p(s.last()) && i == s.filter(p).len() - 1 {
                assert(s.filter(p)[i] == s.last());
                assert(s[s.len() - 1] == s.filter(p)[i]);
            } else {
                assert(s.filter(p)[i] == t.filter(p)[i]);
                let w = choose|w: int| 0 <= w < t.len() && t[w] == t.filter(p)[i];
                assert(s[w] == s.filter(p)[i]);
            }
        }
    }
}

/// Filtering sessions that are in ascending key order leaves them in
/// ascending key order.
proof fn lemma_filter_sorted(
    s: Seq<crate::state::GameView>,
    p: spec_fn(crate::state::GameView) -> bool,
)
    requires
        crate::state::games_sorted(s),
    ensures
        crate::state::games_sorted(s.filter(p)),
    decreases s.len(),
{
    broadcast use vstd::seq_lib::group_filter_ensures;

    if s.len() != 0 {
        let t = s.drop_last();
        assert forall|i: int, j: int|
            0 <= i < j < t.len() implies crate::state::key_lt(
            #[trigger] t[i],
            #[trigger] t[j],
        ) by {
            assert(t[i] == s[i]);
            assert(t[j] == s[j]);
        }
        lemma_filter_sorted(t, p);
        lemma_filter_membership(t, p);
        assert(s =~= t.push(s.last()));
        t.lemma_filter_push(s.last(), p);
        assert forall|i: int, j: int|
            0 <= i < j < s.filter(p).len() implies crate::state::key_lt(
            #[trigger] s.filter(p)[i],
            #[trigger] s.filter(p)[j],
        ) by {
            if p(s.last()) && j == s.filter(p).len() - 1 {
                assert(s.filter(p)[i] == t.filter(p)[i]);
                assert(s.filter(p)[j] == s.last());
                let w = choose|w: int| 0 <= w < t.len() && t[w] == t.filter(p)[i];
                assert(t[w] == s[w]);
                assert(crate::state::key_lt(s[w], s[s.len() - 1]));
            } else {
                assert(s.filter(p)[i] == t.filter(p)[i]);
                assert(s.filter(p)[j] == t.filter(p)[j]);
            }
        }
    }
}

/// All sessions hosted by `address`, ascending by opponent identifier
/// (the session keys share their host, so key order is opponent order).
fn query_game_by_host(store: &Store, address: &String) -> (r: GamesListResponse)
    requires
        store.wf(),
    ensures
        r.view_games() == model::games_by_host(store@, address@),
        crate::state::games_sorted(r.view_games()),
{
    proof {
        lemma_filter_sorted(store@.games, |g: crate::state::GameView| g.host == address@);
    }
    broadcast use vstd::seq_lib::group_filter_ensures;

    let mut games_found: Vec<Game> = Vec::new();
    let mut i: usize = 0;
    while i < store.games.len()
        invariant
            i <= store.games@.len(),
            games_found@.map_values(|g: Game| g@) =~= store@.games.take(i as int).filter(
                |g: crate::state::GameView| g.host == address@,
            ),
        decreases store.games@.len() - i,
    {
        if store.games[i].host == *address {
            games_found.push(clone_game(&store.games[i]));
        }
        proof {
            assert(store@.games.take(i + 1 as int) =~= store@.games.take(i as int).push(
                store@.games[i as int],
            ));
            store@.games.take(i as int).lemma_filter_push(
                store@.games[i as int],
                |g: crate::state::GameView| g.host == address@,
            );
        }
        i += 1;
    }
    proof {
        assert(store@.games.take(store.games@.len() as int) =~= store@.games);
    }
    GamesListResponse { games: games_found }
}

/// All sessions whose opponent is `opponent`, ascending by (host,
/// opponent) key: a full scan with a filter.
fn query_game_by_opp(store: &Store, opponent: &String) -> (r: GamesListResponse)
    requires
        store.wf(),
    ensures
        r.view_games() == model::games_by_opponent(store@, opponent@),
        crate::state::games_sorted(r.view_games()),
{
    proof {
        lemma_filter_sorted(store@.games, |g: crate::state::GameView| g.opponent == opponent@);
    }
    broadcast use vstd::seq_lib::group_filter_ensures;

    let mut games_found: Vec<Game> = Vec::new();
    let mut i: usize = 0;
    while i < store.games.len()
        invariant
            i <= store.games@.len(),
            games_found@.map_values(|g: Game| g@) =~= store@.games.take(i as int).filter(
                |g: crate::state::GameView| g.opponent == opponent@,
            ),
        decreases store.games@.len() - i,
    {
        if store.games[i].opponent == *opponent {
            games_found.push(clone_game(&store.games[i]));
        }
        proof {
            assert(store@.games.take(i + 1 as int) =~= store@.games.take(i as int).push(
                store@.games[i as int],
            ));
            store@.games.take(i as int).lemma_filter_push(
                store@.games[i as int],
                |g: crate::state::GameView| g.opponent == opponent@,
            );
        }
        i += 1;
    }
    proof {
        assert(store@.games.take(store.games@.len() as int) =~= store@.games);
    }
    GamesListResponse { games: games_found }
}

} // verus!
