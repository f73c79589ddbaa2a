//! The laws of the session manager, proved of the transition functions
//! in [`crate::model`]. Each holds for every store value and every
//! input its `requires` admits; the executable entry points follow those
//! transitions exactly, so each law carries over to them.

use vstd::prelude::*;

use crate::error::ContractError;
use crate::model::beats;
use crate::model::decide;
use crate::model::spec_add_to_blacklist;
use crate::model::spec_query_game;
use crate::model::spec_remove_from_blacklist;
use crate::model::spec_respond;
use crate::model::spec_start;
use crate::model::spec_update_admin;
use crate::state::GameMove;
use crate::state::GameResult;
use crate::state::StoreView;

verus! {

/// Law: the resolution rule is a total function on the nine move pairs
/// and partitions them into three ties (the equal pairs), three host
/// wins (exactly the pairs where the host's move beats the opponent's),
/// and three opponent wins (exactly the pairs where the opponent's move
/// beats the host's) — the full decision table is listed below.
pub proof fn lemma_resolution_partition()
    ensures
        forall|h: GameMove, o: GameMove| #[trigger] decide(h, o) is Tie <==> h == o,
        forall|h: GameMove, o: GameMove| #[trigger] decide(h, o) is HostWins <==> beats(h, o),
        forall|h: GameMove, o: GameMove| #[trigger] decide(h, o) is OpponentWins <==> beats(o, h),
        decide(GameMove::Rock, GameMove::Rock) == GameResult::Tie,
        decide(GameMove::Paper, GameMove::Paper) == GameResult::Tie,
        decide(GameMove::Scissors, GameMove::Scissors) == GameResult::Tie,
        decide(GameMove::Rock, GameMove::Scissors) == GameResult::HostWins,
        decide(GameMove::Paper, GameMove::Rock) == GameResult::HostWins,
        decide(GameMove::Scissors, GameMove::Paper) == GameResult::HostWins,
        decide(GameMove::Rock, GameMove::Paper) == GameResult::OpponentWins,
        decide(GameMove::Paper, GameMove::Scissors) == GameResult::OpponentWins,
        decide(GameMove::Scissors, GameMove::Rock) == GameResult::OpponentWins,
{
}

/// Law: a start right after a successful start for the same ordered
/// pair (host, opponent) is refused with `OnlyOneGameAtATime` and
/// changes nothing, whatever either host move. Validation is a pure
/// function of the identifier, so the opponent found valid by the first
/// call is valid for the second too.
pub proof fn lemma_start_then_start_fails(
    s: StoreView,
    caller: Seq<char>,
    opponent: Seq<char>,
    m1: GameMove,
    m2: GameMove,
)
    requires
        spec_start(s, caller, opponent, true, m1).1 is Ok,
    ensures
        spec_start(spec_start(s, caller, opponent, true, m1).0, caller, opponent, true, m2) == (
            spec_start(s, caller, opponent, true, m1).0,
            Err::<(), ContractError>(ContractError::OnlyOneGameAtATime {}),
        ),
{
    let s1 = spec_start(s, caller, opponent, true, m1).0;
    crate::model::lemma_first_not_below_props(s.games, caller, opponent);
    let f = crate::model::first_not_below(s.games, caller, opponent);
    s.games.insert_ensures(f, crate::model::open_game(caller, opponent, m1));
    assert(s1.game_key_at(f, caller, opponent));
    assert(s1.has_game(caller, opponent));
}

/// Law: a successful respond deletes the session. The key no longer
/// names a session in the resulting store, and an exact-key lookup there
/// is refused with `NoGameFound`.
pub proof fn lemma_respond_deletes(
    s: StoreView,
    caller: Seq<char>,
    host: Seq<char>,
    opponent: Seq<char>,
    opp_move: GameMove,
)
    requires
        s.wf(),
        spec_respond(s, caller, host, opponent, opp_move, true).1 is Ok,
    ensures
        !spec_respond(s, caller, host, opponent, opp_move, true).0.has_game(host, opponent),
        spec_query_game(spec_respond(s, caller, host, opponent, opp_move, true).0, host, opponent, true)
            == Err::<crate::state::GameView, ContractError>(ContractError::NoGameFound {}),
{
    let t = spec_respond(s, caller, host, opponent, opp_move, true).0;
    let i = s.game_index(host, opponent);
    assert(0 <= i < s.games.len() && s.game_key_at(i, host, opponent));
    assert forall|j: int| 0 <= j < t.games.len() implies !t.game_key_at(j, host, opponent) by {
        let j0 = if j < i { j } else { j + 1 };
        assert(t.games[j] == s.games[j0]);
    }
}

/// Law: a blacklisted caller's start is refused with
/// `HostAddressBlacklisted` and changes nothing, whoever the caller is —
/// the current admin included — for every well-formed opponent and every
/// move.
pub proof fn lemma_blacklisted_start_fails(
    s: StoreView,
    caller: Seq<char>,
    opponent: Seq<char>,
    host_move: GameMove,
)
    requires
        s.is_blacklisted(caller),
    ensures
        spec_start(s, caller, opponent, true, host_move) == (
            s,
            Err::<(), ContractError>(ContractError::HostAddressBlacklisted {}),
        ),
{
}

/// Law: an admin transfer by any caller but the current admin is
/// refused with `Unauthorized` and leaves the store — the admin slot
/// included — unchanged, whether or not the proposed admin is well
/// formed.
pub proof fn lemma_non_admin_transfer_fails(
    s: StoreView,
    caller: Seq<char>,
    new_admin: Seq<char>,
    addr_valid: bool,
)
    requires
        !s.is_admin(caller),
    ensures
        spec_update_admin(s, caller, new_admin, addr_valid) == (
            s,
            Err::<(), ContractError>(ContractError::Unauthorized {}),
        ),
{
}

/// Law: a failing action mutates nothing. Whenever a transition's
/// verdict is an error, the store it yields is exactly the store it was
/// given — the session map, the admin slot, and the blacklist included.
pub proof fn lemma_failed_action_changes_nothing(
    s: StoreView,
    caller: Seq<char>,
    a: Seq<char>,
    b: Seq<char>,
    mv: GameMove,
    v: bool,
)
    ensures
        spec_start(s, caller, a, v, mv).1 is Err ==> spec_start(s, caller, a, v, mv).0 == s,
        spec_respond(s, caller, a, b, mv, v).1 is Err ==> spec_respond(s, caller, a, b, mv, v).0
            == s,
        spec_update_admin(s, caller, a, v).1 is Err ==> spec_update_admin(s, caller, a, v).0 == s,
        spec_add_to_blacklist(s, caller, a, v).1 is Err ==> spec_add_to_blacklist(
            s,
            caller,
            a,
            v,
        ).0 == s,
        spec_remove_from_blacklist(s, caller, a, v).1 is Err ==> spec_remove_from_blacklist(
            s,
            caller,
            a,
            v,
        ).0 == s,
{
}

/// Law: a respond by any account other than the named opponent is
/// refused with `Unauthorized` and leaves the store — the session
/// included — unchanged.
pub proof fn lemma_respond_by_other_fails(
    s: StoreView,
    caller: Seq<char>,
    host: Seq<char>,
    opponent: Seq<char>,
    opp_move: GameMove,
    addr_valid: bool,
)
    requires
        caller != opponent,
    ensures
        spec_respond(s, caller, host, opponent, opp_move, addr_valid) == (
            s,
            Err::<GameResult, ContractError>(ContractError::Unauthorized {}),
        ),
{
}

} // verus!
