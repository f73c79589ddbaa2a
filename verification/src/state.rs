//! Data model: moves, outcomes, game sessions, and the store that holds
//! the owner slot, the admin slot, the blacklist, and the open sessions.
//!
//! The store is the whole persistent state of the system. A hosting
//! runtime loads it, applies one transition from [`crate::contract`],
//! and persists the result atomically.

use vstd::prelude::*;

use crate::order::pair_lt;

verus! {

/// Does the session's key strictly precede the key (`h`, `o`)?
pub open spec fn key_below(g: GameView, h: Seq<char>, o: Seq<char>) -> bool {
    pair_lt(g.host, g.opponent, h, o)
}

/// Does the first session's key strictly precede the second's?
pub open spec fn key_lt(a: GameView, b: GameView) -> bool {
    pair_lt(a.host, a.opponent, b.host, b.opponent)
}

/// Are the sessions in strictly ascending key order?
pub open spec fn games_sorted(games: Seq<GameView>) -> bool {
    forall|i: int, j: int|
        #![trigger games[i], games[j]]
        0 <= i < j < games.len() ==> key_lt(games[i], games[j])
}

/// One of the three moves a participant can play.
#[derive(Clone, Copy, Debug, PartialEq, Eq, Structural)]
pub enum GameMove {
    Rock,
    Paper,
    Scissors,
}

/// The resolved outcome of a completed session.
#[derive(Clone, Copy, Debug, PartialEq, Eq, Structural)]
pub enum GameResult {
    HostWins,
    OpponentWins,
    Tie,
}

/// One game session, keyed by the ordered pair (host, opponent).
///
/// While a session is resident in the store it is open: `opp_move` and
/// `result` are absent. Both are filled, observed, and the record
/// deleted within the single respond transition.
#[derive(Clone, Debug)]
pub struct Game {
    pub host: String,
    pub opponent: String,
    pub host_move: GameMove,
    pub opp_move: Option<GameMove>,
    pub result: Option<GameResult>,
}

/// The mathematical value of a [`Game`]: account identifiers as
/// character sequences.
#[verifier::ext_equal]
pub struct GameView {
    pub host: Seq<char>,
    pub opponent: Seq<char>,
    pub host_move: GameMove,
    pub opp_move: Option<GameMove>,
    pub result: Option<GameResult>,
}

impl View for Game {
    type V = GameView;

    open spec fn view(&self) -> GameView {
        GameView {
            host: self.host@,
            opponent: self.opponent@,
            host_move: self.host_move,
            opp_move: self.opp_move,
            result: self.result,
        }
    }
}

/// The singleton slot recorded at system creation: the original
/// deployer. Distinct from the admin, which can change hands.
#[derive(Clone, Debug)]
pub struct State {
    pub owner: String,
}

/// The whole persistent state: the owner slot, the current admin (absent
/// once transferred away), the blacklist of barred hosts, and the open
/// sessions in ascending (host, opponent) key order.
#[derive(Clone, Debug)]
pub struct Store {
    pub state: State,
    pub admin: Option<String>,
    pub blacklist: Vec<String>,
    pub games: Vec<Game>,
}

/// The mathematical value of a [`Store`].
#[verifier::ext_equal]
pub struct StoreView {
    pub owner: Seq<char>,
    pub admin: Option<Seq<char>>,
    pub blacklist: Seq<Seq<char>>,
    pub games: Seq<GameView>,
}

/// The mathematical value of an optional account identifier.
pub open spec fn opt_account_view(a: Option<String>) -> Option<Seq<char>> {
    match a {
        Some(s) => Some(s@),
        None => None,
    }
}

impl View for Store {
    type V = StoreView;

    open spec fn view(&self) -> StoreView {
        StoreView {
            owner: self.state.owner@,
            admin: opt_account_view(self.admin),
            blacklist: self.blacklist@.map_values(|a: String| a@),
            games: self.games@.map_values(|g: Game| g@),
        }
    }
}

impl StoreView {
    /// Is `a` barred from acting as a host?
    pub open spec fn is_blacklisted(self, a: Seq<char>) -> bool {
        self.blacklist.contains(a)
    }

    /// The position of `a` in the blacklist (meaningful only when
    /// `is_blacklisted(a)` holds; unique under `wf`).
    pub open spec fn blacklist_index(self, a: Seq<char>) -> int {
        choose|i: int| 0 <= i < self.blacklist.len() && self.blacklist[i] == a
    }

    /// Is `a` the current administrator?
    pub open spec fn is_admin(self, a: Seq<char>) -> bool {
        self.admin == Some(a)
    }

    /// Does the session at position `i` carry the key (`h`, `o`)?
    pub open spec fn game_key_at(self, i: int, h: Seq<char>, o: Seq<char>) -> bool {
        self.games[i].host == h && self.games[i].opponent == o
    }

    /// Is a session open under the key (`h`, `o`)?
    pub open spec fn has_game(self, h: Seq<char>, o: Seq<char>) -> bool {
        exists|i: int| 0 <= i < self.games.len() && self.game_key_at(i, h, o)
    }

    /// The position of the session keyed (`h`, `o`) (meaningful only
    /// when `has_game(h, o)` holds; unique under `wf`).
    pub open spec fn game_index(self, h: Seq<char>, o: Seq<char>) -> int {
        choose|i: int| 0 <= i < self.games.len() && self.game_key_at(i, h, o)
    }

    /// The session stored under the key (`h`, `o`).
    pub open spec fn game_at(self, h: Seq<char>, o: Seq<char>) -> GameView {
        self.games[self.game_index(h, o)]
    }

    /// Well-formedness: session keys are unique and in ascending key
    /// order, resident sessions are open, and the blacklist holds no
    /// duplicate entry.
    pub open spec fn wf(self) -> bool {
        &&& forall|i: int, j: int|
            #![trigger self.games[i], self.games[j]]
            0 <= i < j < self.games.len() ==> !(self.games[i].host == self.games[j].host
                && self.games[i].opponent == self.games[j].opponent)
        &&& games_sorted(self.games)
        &&& forall|i: int|
            0 <= i < self.games.len() ==> (#[trigger] self.games[i]).opp_move is None
                && self.games[i].result is None
        &&& self.blacklist.no_duplicates()
    }
}

impl Store {
    /// Well-formedness of the store, stated of its mathematical value.
    pub open spec fn wf(self) -> bool {
        self@.wf()
    }
}

/// A field-for-field copy of a session whose value is known.
pub fn clone_game(g: &Game) -> (r: Game)
    ensures
        r@ == g@,
{
    Game {
        host: g.host.clone(),
        opponent: g.opponent.clone(),
        host_move: g.host_move,
        opp_move: g.opp_move,
        result: g.result,
    }
}

} // verus!
