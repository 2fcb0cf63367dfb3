//! The values that requests and responses carry, as the library sees them.

use crate::game::adapter::{MovePayload, Stage};
use crate::game::search::{GameSummary, SearchOptions, SortKey, SortOrder};
use crate::game::GameType;
use crate::ids::{GameId, SessionId};
use vstd::prelude::*;

verus! {

pub struct CreateGameRequest {
    pub game_type: GameType,
}

pub struct CreateGameResponse {
    pub game_id: GameId,
}

/// A listing request as it arrives: every part is optional.
#[derive(Clone, Copy, Debug)]
pub struct ListGamesQuery {
    pub page: Option<usize>,
    pub sort_order: Option<SortOrder>,
    pub sort_key: Option<SortKey>,
    pub game_type: Option<GameType>,
    pub players: Option<usize>,
    pub stage: Option<Stage>,
}

impl ListGamesQuery {
    /// The listing options: the first page, newest changes first, unless the query says
    /// otherwise; the filters as given.
    pub fn to_options(&self) -> (r: SearchOptions)
        ensures
            r.page == (match self.page {
                Some(p) => p,
                None => 1,
            }),
            r.sort_order == (match self.sort_order {
                Some(o) => o,
                None => SortOrder::Desc,
            }),
            r.sort_key == (match self.sort_key {
                Some(k) => k,
                None => SortKey::LastUpdated,
            }),
            r.game_type == self.game_type,
            r.players == self.players,
            r.stage == self.stage,
    {
        SearchOptions {
            page: match self.page {
                Some(p) => p,
                None => 1,
            },
            sort_order: match self.sort_order {
                Some(o) => o,
                None => SortOrder::Desc,
            },
            sort_key: match self.sort_key {
                Some(k) => k,
                None => SortKey::LastUpdated,
            },
            game_type: self.game_type,
            players: self.players,
            stage: self.stage,
        }
    }
}

pub struct ListGamesResponse {
    pub game_summaries: Vec<GameSummary>,
    pub number_of_games: usize,
}

pub struct JoinGameRequest {
    pub username: String,
}

pub struct JoinGameResponse {
    pub session_id: SessionId,
}

pub struct SubmitMoveRequest {
    pub session_id: SessionId,
    pub payload: MovePayload,
}

pub struct SubmitMoveResponse {
    pub success: bool,
}

pub struct WaitForUpdateQuery {
    pub since: Option<u64>,
}

pub struct WaitForUpdateResponse {
    pub clock: u64,
}

} // verus!
