//! The functional model: every transition of the system, written as a
//! pure function from a store value and an action to the next store
//! value and the action's result. The executable entry points in
//! [`crate::contract`] are proved to follow these functions exactly.

use vstd::prelude::*;

use crate::error::ContractError;
use crate::state::GameMove;
use crate::state::GameResult;
use crate::state::GameView;
use crate::state::StoreView;

verus! {

/// The beats-relation of rock-paper-scissors: does the host's move `h`
/// defeat the opponent's move `o`?
pub open spec fn beats(h: GameMove, o: GameMove) -> bool {
    ||| h is Rock && o is Scissors
    ||| h is Paper && o is Rock
    ||| h is Scissors && o is Paper
}

/// The resolution rule applied to the host's move `h` and the
/// opponent's move `o`: the host wins where `h` beats `o`, equal moves
/// tie, and the opponent wins otherwise.
pub open spec fn decide(h: GameMove, o: GameMove) -> GameResult {
    if beats(h, o) {
        GameResult::HostWins
    } else if h == o {
        GameResult::Tie
    } else {
        GameResult::OpponentWins
    }
}

/// The human-readable label of an outcome, surfaced in the respond
/// transition's audit attributes.
pub open spec fn result_label(r: GameResult) -> Seq<char> {
    match r {
        GameResult::HostWins => "Host Won"@,
        GameResult::OpponentWins => "Opponent Won"@,
        GameResult::Tie => "Tie"@,
    }
}

/// A fresh session: the host's move committed, the opponent's side
/// absent.
pub open spec fn open_game(host: Seq<char>, opponent: Seq<char>, host_move: GameMove) -> GameView {
    GameView { host, opponent, host_move, opp_move: None, result: None }
}

/// The position a session keyed (`h`, `o`) takes among `games`: the
/// first index whose key does not precede it. In a store kept in
/// ascending key order this is the insertion point.
pub open spec fn first_not_below(games: Seq<GameView>, h: Seq<char>, o: Seq<char>) -> int
    decreases games.len(),
{
    if games.len() == 0 {
        0
    } else if crate::state::key_below(games[0], h, o) {
        1 + first_not_below(games.skip(1), h, o)
    } else {
        0
    }
}

/// The insertion point is in range, every session before it has a key
/// below (`h`, `o`), and the session at it (if any) does not.
pub proof fn lemma_first_not_below_props(games: Seq<GameView>, h: Seq<char>, o: Seq<char>)
    ensures
        0 <= first_not_below(games, h, o) <= games.len(),
        forall|j: int|
            0 <= j < first_not_below(games, h, o) ==> crate::state::key_below(
                #[trigger] games[j],
                h,
                o,
            ),
        first_not_below(games, h, o) < games.len() ==> !crate::state::key_below(
            games[first_not_below(games, h, o)],
            h,
            o,
        ),
    decreases games.len(),
{
    if games.len() == 0 {
    } else if crate::state::key_below(games[0], h, o) {
        lemma_first_not_below_props(games.skip(1), h, o);
        assert forall|j: int|
            0 <= j < first_not_below(games, h, o) implies crate::state::key_below(
            #[trigger] games[j],
            h,
            o,
        ) by {
            if j > 0 {
                assert(games.skip(1)[j - 1] == games[j]);
            }
        }
        if first_not_below(games, h, o) < games.len() {
            assert(games.skip(1)[first_not_below(games.skip(1), h, o)] == games[first_not_below(
                games,
                h,
                o,
            )]);
        }
    } else {
    }
}

/// The store created at system bootstrap: the creator becomes owner and
/// first admin, with no blacklist entry and no session.
pub open spec fn spec_instantiate(creator: Seq<char>) -> StoreView {
    StoreView {
        owner: creator,
        admin: Some(creator),
        blacklist: Seq::empty(),
        games: Seq::empty(),
    }
}

/// Session creation. `opponent_valid` is the verdict of the host
/// environment's account-identifier validation on `opponent`. Checks in
/// order: the opponent identifier is well formed, the caller is not
/// blacklisted, and no session is already open for the ordered pair
/// (caller, opponent); then the fresh session is inserted at its key
/// position, keeping the store in ascending key order.
pub open spec fn spec_start(
    s: StoreView,
    caller: Seq<char>,
    opponent: Seq<char>,
    opponent_valid: bool,
    host_move: GameMove,
) -> (StoreView, Result<(), ContractError>) {
    if !opponent_valid {
        (s, Err(ContractError::InvalidAddress {}))
    } else if s.is_blacklisted(caller) {
        (s, Err(ContractError::HostAddressBlacklisted {}))
    } else if s.has_game(caller, opponent) {
        (s, Err(ContractError::OnlyOneGameAtATime {}))
    } else {
        (
            StoreView {
                games: s.games.insert(
                    first_not_below(s.games, caller, opponent),
                    open_game(caller, opponent, host_move),
                ),
                ..s
            },
            Ok(()),
        )
    }
}

/// Move submission and resolution in one step. Only the named opponent
/// may respond; the session must exist under the exact key (`host`,
/// `opponent`); on success the outcome is computed from the stored host
/// move and the supplied response, and the session is deleted.
pub open spec fn spec_respond(
    s: StoreView,
    caller: Seq<char>,
    host: Seq<char>,
    opponent: Seq<char>,
    opp_move: GameMove,
    addr_valid: bool,
) -> (StoreView, Result<GameResult, ContractError>) {
    if caller != opponent {
        (s, Err(ContractError::Unauthorized {}))
    } else if !addr_valid {
        (s, Err(ContractError::InvalidAddress {}))
    } else if !s.has_game(host, opponent) {
        (s, Err(ContractError::NoGameFound {}))
    } else {
        let outcome = decide(s.game_at(host, opponent).host_move, opp_move);
        (StoreView { games: s.games.remove(s.game_index(host, opponent)), ..s }, Ok(outcome))
    }
}

/// Admin transfer. Only the current admin may transfer the role; an
/// absent admin (after a transfer away) authorizes nobody.
pub open spec fn spec_update_admin(
    s: StoreView,
    caller: Seq<char>,
    new_admin: Seq<char>,
    addr_valid: bool,
) -> (StoreView, Result<(), ContractError>) {
    if !s.is_admin(caller) {
        (s, Err(ContractError::Unauthorized {}))
    } else if !addr_valid {
        (s, Err(ContractError::InvalidAddress {}))
    } else {
        (StoreView { admin: Some(new_admin), ..s }, Ok(()))
    }
}

/// Blacklist insertion, restricted to the current admin and idempotent:
/// re-adding a present entry changes nothing.
pub open spec fn spec_add_to_blacklist(
    s: StoreView,
    caller: Seq<char>,
    target: Seq<char>,
    addr_valid: bool,
) -> (StoreView, Result<(), ContractError>) {
    if !s.is_admin(caller) {
        (s, Err(ContractError::Unauthorized {}))
    } else if !addr_valid {
        (s, Err(ContractError::InvalidAddress {}))
    } else if s.is_blacklisted(target) {
        (s, Ok(()))
    } else {
        (StoreView { blacklist: s.blacklist.push(target), ..s }, Ok(()))
    }
}

/// Blacklist removal, restricted to the current admin; removing an
/// absent entry is a no-op.
pub open spec fn spec_remove_from_blacklist(
    s: StoreView,
    caller: Seq<char>,
    target: Seq<char>,
    addr_valid: bool,
) -> (StoreView, Result<(), ContractError>) {
    if !s.is_admin(caller) {
        (s, Err(ContractError::Unauthorized {}))
    } else if !addr_valid {
        (s, Err(ContractError::InvalidAddress {}))
    } else if !s.is_blacklisted(target) {
        (s, Ok(()))
    } else {
        (StoreView { blacklist: s.blacklist.remove(s.blacklist_index(target)), ..s }, Ok(()))
    }
}

/// Exact-key session lookup.
pub open spec fn spec_query_game(
    s: StoreView,
    host: Seq<char>,
    opponent: Seq<char>,
    addr_valid: bool,
) -> Result<GameView, ContractError> {
    if !addr_valid {
        Err(ContractError::InvalidAddress {})
    } else if !s.has_game(host, opponent) {
        Err(ContractError::NoGameFound {})
    } else {
        Ok(s.game_at(host, opponent))
    }
}

/// All sessions hosted by `a`; the store is kept ascending by key, so
/// these come ascending by opponent identifier.
pub open spec fn games_by_host(s: StoreView, a: Seq<char>) -> Seq<GameView> {
    s.games.filter(|g: GameView| g.host == a)
}

/// All sessions whose opponent is `a`, ascending by (host, opponent)
/// key.
pub open spec fn games_by_opponent(s: StoreView, a: Seq<char>) -> Seq<GameView> {
    s.games.filter(|g: GameView| g.opponent == a)
}

} // verus!
