//! The capability contract that every pluggable game type meets, with the values and
//! errors that cross it.

use crate::game::snake::{Direction, Point2D};
use crate::game::GameType;
use crate::ids::GameId;
use crate::notify::{bumped, Notifier};
use vstd::prelude::*;

verus! {

/// No game admits more players than this.
pub const MAX_PLAYERS: usize = 16;

/// A game's lifecycle phase. It only moves forward: `Waiting`, then `InProgress`, then
/// `Ended`.
#[derive(Clone, Copy, PartialEq, Eq, Structural, Debug)]
pub enum Stage {
    Waiting,
    InProgress,
    Ended,
}

/// The position of a stage in the lifecycle, which is also its order when listing.
pub open spec fn stage_rank(s: Stage) -> int {
    match s {
        Stage::Waiting => 0,
        Stage::InProgress => 1,
        Stage::Ended => 2,
    }
}

impl Stage {
    pub fn rank(&self) -> (r: u8)
        ensures
            r == stage_rank(*self),
    {
        match self {
            Stage::Waiting => 0,
            Stage::InProgress => 1,
            Stage::Ended => 2,
        }
    }

    /// The name used on the wire.
    pub fn name(&self) -> (r: &'static str)
        ensures
            *self == Stage::Waiting ==> r@ == "waiting"@,
            *self == Stage::InProgress ==> r@ == "in_progress"@,
            *self == Stage::Ended ==> r@ == "ended"@,
    {
        match self {
            Stage::Waiting => "waiting",
            Stage::InProgress => "in_progress",
            Stage::Ended => "ended",
        }
    }
}

/// Why an operation is not allowed in the given stage.
pub fn format_invalid_game_stage(stage: &Stage) -> (r: &'static str)
    ensures
        *stage == Stage::Waiting ==> r@ == "game has not started yet"@,
        *stage == Stage::InProgress ==> r@ == "game is in progress"@,
        *stage == Stage::Ended ==> r@ == "game has ended"@,
{
    match stage {
        Stage::Waiting => "game has not started yet",
        Stage::InProgress => "game is in progress",
        Stage::Ended => "game has ended",
    }
}

/// A game's own refusal of a request.
#[derive(Clone, Debug)]
pub enum GameAdapterErrorType {
    /// The named player may not move now.
    InvalidPlayer(String),
    /// The move is not legal; the text says why.
    InvalidMove(String),
    /// The request does not fit the game's current stage, which is given.
    InvalidGameStage(Stage),
}

#[derive(Clone, Debug)]
pub struct GameAdapterError {
    pub game_id: GameId,
    pub error_type: GameAdapterErrorType,
}

impl GameAdapterError {
    pub fn new(game_id: GameId, error_type: GameAdapterErrorType) -> (r: GameAdapterError)
        ensures
            r.game_id == game_id,
            r.error_type == error_type,
    {
        GameAdapterError { game_id, error_type }
    }
}

/// The game-specific part of a game's state, tagged with its game type.
#[derive(Clone, Debug)]
pub enum GamePayload {
    /// Connect Four: for each column from left to right, the names of the players whose
    /// tokens fill it from the bottom up.
    Connect4 { cells: Vec<Vec<String>> },
    /// Snake: each live snake's player and cells from the head back, the fruits, and the
    /// corners of the board.
    Snake {
        players: Vec<(String, Vec<Point2D>)>,
        fruits: Vec<Point2D>,
        world_min: Point2D,
        world_max: Point2D,
    },
}

impl GamePayload {
    pub open spec fn game_type(&self) -> GameType {
        match self {
            GamePayload::Connect4 { .. } => GameType::Connect4,
            GamePayload::Snake { .. } => GameType::Snake,
        }
    }
}

/// The encoded state of a game as clients see it.
#[derive(Clone, Debug)]
pub struct GenericGameState {
    pub players: Vec<String>,
    pub can_move: Vec<String>,
    pub winners: Vec<String>,
    pub stage: Stage,
    pub payload: GamePayload,
}

/// The game-specific part of a move, as read from the request.
#[derive(Clone, Debug)]
pub enum MovePayload {
    /// Drop a token into the column with this index.
    Column(usize),
    /// Turn the snake this way.
    Direction(Direction),
    /// The request could not be read as a move; the text says why.
    Unreadable(String),
}

/// A move submitted by the player with the given name.
#[derive(Clone, Debug)]
pub struct GenericGameMove {
    pub player: String,
    pub payload: MovePayload,
}

/// Whether two texts are the same.
pub fn same_text(a: &str, b: &str) -> (r: bool)
    ensures
        r == (a@ == b@),
{
    let n = a.unicode_len();
    if n != b.unicode_len() {
        return false;
    }
    let mut i: usize = 0;
    while i < n
        invariant
            n == a@.len(),
            n == b@.len(),
            i <= n,
            forall|j: int| 0 <= j < i ==> a@[j] == b@[j],
        decreases n - i,
    {
        if a.get_char(i) != b.get_char(i) {
            return false;
        }
        i = i + 1;
    }
    assert(a@ =~= b@);
    true
}

/// A copy of a list of names.
pub fn copy_names(v: &Vec<String>) -> (r: Vec<String>)
    ensures
        r@ == v@,
{
    let mut r: Vec<String> = Vec::new();
    let mut i: usize = 0;
    while i < v.len()
        invariant
            i <= v@.len(),
            r@ == v@.subrange(0, i as int),
        decreases v@.len() - i,
    {
        r.push(v[i].clone());
        i = i + 1;
    }
    assert(r@ =~= v@);
    r
}

/// The views of a list of names.
pub open spec fn names(v: Seq<String>) -> Seq<Seq<char>> {
    v.map_values(|s: String| s@)
}

/// What the registry needs of a game type: admitting players, applying moves, and
/// reporting its stage, its state and its type. All calls are made under the game's lock.
pub trait GameAdapter: Sized {
    /// The internal consistency of the game.
    spec fn inv(&self) -> bool;

    spec fn stage(&self) -> Stage;

    /// The names of the admitted players, in order of admission.
    spec fn players(&self) -> Seq<Seq<char>>;

    /// How many players the game admits; it starts once that many have joined.
    spec fn capacity(&self) -> nat;

    spec fn game_type(&self) -> GameType;

    /// The game's change clock.
    spec fn clock(&self) -> u64;

    /// What the game type states of a move: `after` is the game once `game_move` has been
    /// applied to this one with result `r`.
    spec fn move_applied(
        &self,
        after: Self,
        game_move: GenericGameMove,
        r: Result<(), GameAdapterError>,
    ) -> bool;

    /// What the game type states of admitting `username`: `after` is this game once the
    /// player has joined.
    spec fn admitted(&self, after: Self, username: Seq<char>) -> bool;

    /// What the game type states of a game just made for `game_id`.
    spec fn initial(&self, game_id: GameId) -> bool;

    /// What the game type states of its encoded state.
    spec fn encodes(&self, state: GenericGameState) -> bool;

    /// An empty game, waiting for players.
    fn new(game_id: GameId) -> (r: Self)
        ensures
            r.inv(),
            r.stage() == Stage::Waiting,
            r.players() == Seq::<Seq<char>>::empty(),
            0 < r.capacity() <= MAX_PLAYERS,
            r.clock() == 1,
            r.initial(game_id),
    ;

    fn get_notifier(&self) -> (r: &Notifier)
        requires
            self.inv(),
        ensures
            r.clock() == self.clock(),
    ;

    /// Admits a player into a waiting game; the game starts when it is full. Every call
    /// moves the change clock.
    fn add_player(&mut self, username: String) -> (r: Result<(), GameAdapterError>)
        requires
            old(self).inv(),
            old(self).stage() == Stage::Waiting,
            !old(self).players().contains(username@),
        ensures
            final(self).inv(),
            r is Ok,
            final(self).players() == old(self).players().push(username@),
            final(self).capacity() == old(self).capacity(),
            final(self).game_type() == old(self).game_type(),
            final(self).stage() == (if final(self).players().len() >= final(self).capacity() {
                Stage::InProgress
            } else {
                Stage::Waiting
            }),
            final(self).clock() == bumped(old(self).clock()),
            old(self).admitted(*final(self), username@),
    ;

    fn has_player(&self, username: &str) -> (r: bool)
        requires
            self.inv(),
        ensures
            r == self.players().contains(username@),
    ;

    /// Applies a move. Outside `InProgress` it is refused with `InvalidGameStage` and
    /// nothing changes; the stage never moves back, and the players stay the same.
    fn play_move(&mut self, game_move: GenericGameMove) -> (r: Result<(), GameAdapterError>)
        requires
            old(self).inv(),
        ensures
            final(self).inv(),
            final(self).players() == old(self).players(),
            final(self).capacity() == old(self).capacity(),
            final(self).game_type() == old(self).game_type(),
            stage_rank(old(self).stage()) <= stage_rank(final(self).stage()),
            old(self).stage() != Stage::InProgress ==> (r matches Err(e)
                && e.error_type == GameAdapterErrorType::InvalidGameStage(old(self).stage())),
            r is Err ==> *final(self) == *old(self),
            r is Ok ==> final(self).clock() == bumped(old(self).clock()),
            old(self).move_applied(*final(self), game_move, r),
    ;

    fn get_stage(&self) -> (r: Stage)
        requires
            self.inv(),
        ensures
            r == self.stage(),
    ;

    /// The state as clients see it; its payload is tagged with the game's type.
    fn get_encoded_state(&self) -> (r: GenericGameState)
        requires
            self.inv(),
        ensures
            names(r.players@) == self.players(),
            r.stage == self.stage(),
            r.payload.game_type() == self.game_type(),
            self.encodes(r),
    ;

    fn get_type(&self) -> (r: GameType)
        ensures
            r == self.game_type(),
    ;
}

} // verus!
