//! The message types routed in by the dispatch layer, the read-only
//! answers routed back out, and the audit attributes a successful
//! transition surfaces to the caller's transaction log.

use vstd::prelude::*;

use crate::state::Game;
use crate::state::GameMove;
use crate::state::GameView;

verus! {

/// The payload of the creation verb. It carries nothing: the creator's
/// own account becomes both owner and first admin.
#[derive(Clone, Debug)]
pub struct InstantiateMsg {}

/// One state-mutating action.
#[derive(Clone, Debug)]
pub enum ExecuteMsg {
    StartGame { opponent: String, host_move: GameMove },
    UpdateAdmin { admin: String },
    AddToBlacklist { address: String },
    RemoveFromBlacklist { address: String },
    Respond { host: String, opponent: String, opp_move: GameMove },
}

/// One read-only request.
#[derive(Clone, Debug)]
pub enum QueryMsg {
    GetGamesByOpponent { opponent: String },
    GetGamesByHost { address: String },
    GetOwner {},
    GetGame { host: String, opponent: String },
    GetAdmin {},
}

/// The sessions matching a listing request, in ascending key order.
#[derive(Clone, Debug)]
pub struct GamesListResponse {
    pub games: Vec<Game>,
}

impl GamesListResponse {
    /// The mathematical value of the listing.
    pub open spec fn view_games(self) -> Seq<GameView> {
        self.games@.map_values(|g: Game| g@)
    }
}

/// The answer to one [`QueryMsg`], mirroring its variants.
#[derive(Clone, Debug)]
pub enum QueryAnswer {
    Owner(String),
    Admin(Option<String>),
    Game(Game),
    Games(GamesListResponse),
}

/// One key-value pair of a transition's audit log.
#[derive(Clone, Debug)]
pub struct Attribute {
    pub key: String,
    pub value: String,
}

impl Attribute {
    /// Does this attribute carry exactly the key `k` and the value `v`?
    pub open spec fn is_pair(self, k: Seq<char>, v: Seq<char>) -> bool {
        self.key@ == k && self.value@ == v
    }
}

/// What a successful transition hands back: its audit attributes.
#[derive(Clone, Debug)]
pub struct Response {
    pub attributes: Vec<Attribute>,
}

/// Builds one audit attribute.
pub fn attr(key: &str, value: String) -> (r: Attribute)
    ensures
        r.is_pair(key@, value@),
{
    Attribute { key: key.to_string(), value }
}

} // verus!
