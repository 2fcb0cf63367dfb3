//! The games: their types, the rules every game follows in the registry (joining, moving,
//! reporting, idle eviction), and the errors the registry reports.

pub mod adapter;
pub mod connect4;
pub mod search;
pub mod snake;

use crate::game::connect4::Connect4Adapter;
use crate::game::search::GameSummary;
use crate::game::snake::SnakeAdapter;
use crate::game::adapter::{
    names, stage_rank, GameAdapter, GameAdapterError, GenericGameMove, GenericGameState,
    MovePayload, Stage, MAX_PLAYERS,
};
use crate::ids::{GameId, SessionId};
use crate::notify::{bumped, NotifierError, Subscription};
use vstd::prelude::*;

verus! {

/// The longest username, in bytes of its UTF-8 encoding.
pub const MAX_USERNAME_LENGTH: usize = 12;

/// How long a game may sit without a join or a move before it may be evicted: five
/// minutes, in milliseconds.
pub const GAME_TTL_MILLIS: i64 = 300000;

/// Relies on `chrono::Utc::now`: the current time in milliseconds since the Unix epoch.
/// Nothing is known of the value.
#[verifier::external_body]
pub(crate) fn now_millis() -> (r: i64) {
    chrono::Utc::now().timestamp_millis()
}

/// The registered kinds of game.
#[derive(Clone, Copy, PartialEq, Eq, Structural, Debug)]
pub enum GameType {
    Connect4,
    Snake,
}

/// The order of game types when listing.
pub open spec fn game_type_rank(t: GameType) -> int {
    match t {
        GameType::Connect4 => 0,
        GameType::Snake => 1,
    }
}

impl GameType {
    pub fn rank(&self) -> (r: u8)
        ensures
            r == game_type_rank(*self),
    {
        match self {
            GameType::Connect4 => 0,
            GameType::Snake => 1,
        }
    }

    /// The name used on the wire.
    pub fn name(&self) -> (r: &'static str)
        ensures
            *self == GameType::Connect4 ==> r@ == "connect_4"@,
            *self == GameType::Snake ==> r@ == "snake"@,
    {
        match self {
            GameType::Connect4 => "connect_4",
            GameType::Snake => "snake",
        }
    }
}

#[derive(Clone, Debug)]
pub enum InvalidUsernameReason {
    AlreadyInGame(GameId),
    TooShort,
    TooLong,
}

#[derive(Clone, Debug)]
pub enum GameManagerError {
    GameNotFound(GameId),
    SessionNotFound(SessionId),
    InvalidUsername { username: String, reason: InvalidUsernameReason },
    InvalidPage,
}

/// Every failure an operation of the registry reports.
#[derive(Clone, Debug)]
pub enum GameError {
    Manager(GameManagerError),
    Adapter(GameAdapterError),
    Notification(NotifierError),
}

impl GameError {
    pub fn game_not_found(game_id: GameId) -> (r: GameError)
        ensures
            r == GameError::Manager(GameManagerError::GameNotFound(game_id)),
    {
        GameError::Manager(GameManagerError::GameNotFound(game_id))
    }

    pub fn session_not_found(session_id: SessionId) -> (r: GameError)
        ensures
            r == GameError::Manager(GameManagerError::SessionNotFound(session_id)),
    {
        GameError::Manager(GameManagerError::SessionNotFound(session_id))
    }
}

/// A player's binding to a game.
#[derive(Clone, Debug)]
pub struct Session {
    username: String,
}

impl Session {
    pub closed spec fn name(&self) -> Seq<char> {
        self.username@
    }

    pub fn new(username: String) -> (r: Session)
        ensures
            r.name() == username@,
    {
        Session { username }
    }

    pub fn username(&self) -> (r: &String)
        ensures
            r@ == self.name(),
    {
        &self.username
    }
}

/// Whether the sweep keeps a game: always when another request holds its lock, and
/// otherwise while it was last changed no more than the time to live before `now`.
pub open spec fn kept_by_sweep(held_elsewhere: bool, last_update: i64, now: i64) -> bool {
    held_elsewhere || now - last_update <= GAME_TTL_MILLIS
}

/// The sweep's decision for one game; see `kept_by_sweep`.
pub fn gc_keeps(held_elsewhere: bool, last_update: i64, now: i64) -> (r: bool)
    ensures
        r == kept_by_sweep(held_elsewhere, last_update, now),
{
    held_elsewhere || (now as i128) - (last_update as i128) <= GAME_TTL_MILLIS as i128
}

/// A game sweep never evicts a game whose lock another request holds, and evicts an
/// unlocked game exactly when it has been idle for longer than the time to live.
pub proof fn lemma_gc_safety(last_update: i64, now: i64)
    ensures
        kept_by_sweep(true, last_update, now),
        !kept_by_sweep(false, last_update, now) <==> now - last_update > GAME_TTL_MILLIS,
{
}

/// The length of a text in bytes of its UTF-8 encoding.
pub open spec fn utf8_len(s: Seq<char>) -> nat {
    vstd::utf8::encode_utf8(s).len()
}

/// A text of ASCII characters takes one byte per character in UTF-8.
pub proof fn lemma_ascii_utf8_len(s: Seq<char>)
    requires
        forall|i: int| 0 <= i < s.len() ==> (#[trigger] s[i] as u32) < 128,
    ensures
        utf8_len(s) == s.len(),
    decreases s.len(),
{
    if s.len() > 0 {
        lemma_ascii_utf8_len(s.drop_first());
    }
}

/// Why a join is refused, in the order the reasons are tested.
pub enum JoinRefusal {
    /// The game is not waiting for players.
    Stage(Stage),
    TooShort,
    TooLong,
    AlreadyInGame,
}

/// Whether a join by `username` into a game in `stage` with `players` is refused, and
/// why: joining is allowed only while waiting, with a non-empty name of at most
/// `MAX_USERNAME_LENGTH` bytes in UTF-8 that no player of the game has.
pub open spec fn join_refusal(stage: Stage, players: Seq<Seq<char>>, username: Seq<char>) -> Option<
    JoinRefusal,
> {
    if stage != Stage::Waiting {
        Some(JoinRefusal::Stage(stage))
    } else if username.len() == 0 {
        Some(JoinRefusal::TooShort)
    } else if utf8_len(username) > MAX_USERNAME_LENGTH {
        Some(JoinRefusal::TooLong)
    } else if players.contains(username) {
        Some(JoinRefusal::AlreadyInGame)
    } else {
        None
    }
}

/// The error reported for a refused join.
pub open spec fn join_error(refusal: JoinRefusal, game_id: GameId, username: String) -> GameError {
    match refusal {
        JoinRefusal::Stage(s) => GameError::Adapter(
            GameAdapterError {
                game_id,
                error_type: adapter::GameAdapterErrorType::InvalidGameStage(s),
            },
        ),
        JoinRefusal::TooShort => GameError::Manager(
            GameManagerError::InvalidUsername { username, reason: InvalidUsernameReason::TooShort },
        ),
        JoinRefusal::TooLong => GameError::Manager(
            GameManagerError::InvalidUsername { username, reason: InvalidUsernameReason::TooLong },
        ),
        JoinRefusal::AlreadyInGame => GameError::Manager(
            GameManagerError::InvalidUsername {
                username,
                reason: InvalidUsernameReason::AlreadyInGame(game_id),
            },
        ),
    }
}

/// One game of the registry: its rules engine, the sessions bound to it, and the time of
/// its last join or move (milliseconds since the Unix epoch).
pub struct Game<A> {
    adapter: A,
    sessions: Vec<(SessionId, Session)>,
    last_update: i64,
}

/// The identifier and username of each session, in order of joining.
pub open spec fn session_views(s: Seq<(SessionId, Session)>) -> Seq<(Seq<u8>, Seq<char>)> {
    s.map_values(|e: (SessionId, Session)| (e.0@, e.1.name()))
}

/// Whether a session with this identifier is bound.
pub open spec fn has_session(s: Seq<(Seq<u8>, Seq<char>)>, id: Seq<u8>) -> bool {
    exists|i: int| 0 <= i < s.len() && (#[trigger] s[i]).0 == id
}

impl<A: GameAdapter> Game<A> {
    pub closed spec fn adapter(&self) -> A {
        self.adapter
    }

    pub closed spec fn sessions(&self) -> Seq<(Seq<u8>, Seq<char>)> {
        session_views(self.sessions@)
    }

    pub closed spec fn last_update(&self) -> i64 {
        self.last_update
    }

    /// The adapter is consistent and admits at most `MAX_PLAYERS` players, and a waiting
    /// game has room for one more; there is one session per player, in the same order,
    /// each with its own identifier. `new` makes a game that has it and every method keeps
    /// it, so every game has it.
    pub open spec fn wf(&self) -> bool {
        &&& self.adapter().inv()
        &&& self.adapter().capacity() <= MAX_PLAYERS
        &&& self.adapter().players().len() <= self.adapter().capacity()
        &&& self.adapter().stage() == Stage::Waiting ==> self.adapter().players().len()
            < self.adapter().capacity()
        &&& self.sessions().len() == self.adapter().players().len()
        &&& forall|i: int|
            0 <= i < self.sessions().len() ==> (#[trigger] self.sessions()[i]).1
                == self.adapter().players()[i]
        &&& forall|i: int, j: int|
            0 <= i < j < self.sessions().len() ==> (#[trigger] self.sessions()[i]).0
                != (#[trigger] self.sessions()[j]).0
        &&& forall|i: int| 0 <= i < self.sessions().len() ==> (#[trigger] self.sessions()[i]).0.len() == 16
    }

    /// A new game of this type, with no sessions, last changed at `now`.
    pub fn new(game_id: GameId, now: i64) -> (r: Game<A>)
        ensures
            r.wf(),
            r.adapter().stage() == Stage::Waiting,
            r.adapter().players() == Seq::<Seq<char>>::empty(),
            r.sessions() == Seq::<(Seq<u8>, Seq<char>)>::empty(),
            r.last_update() == now,
            r.adapter().initial(game_id),
            r.adapter().clock() == 1,
    {
        let r = Game { adapter: A::new(game_id), sessions: Vec::new(), last_update: now };
        assert(r.sessions() =~= Seq::<(Seq<u8>, Seq<char>)>::empty());
        r
    }

    pub fn get_adapter(&self) -> (r: &A)
        ensures
            *r == self.adapter(),
    {
        &self.adapter
    }

    pub fn get_last_update(&self) -> (r: i64)
        ensures
            r == self.last_update(),
    {
        self.last_update
    }

    /// An identifier that no session of this game has: a random one, changed where it
    /// matches an existing one so that it differs from the `i`-th session in byte `i`.
    fn fresh_session_id(&self) -> (r: SessionId)
        requires
            self.wf(),
        ensures
            !has_session(self.sessions(), r@),
            r@.len() == 16,
    {
        let drawn = SessionId::new();
        let mut bytes = drawn.bytes();
        let n = self.sessions.len();
        let mut taken = false;
        let mut i: usize = 0;
        while i < n
            invariant
                self.wf(),
                n == self.sessions@.len(),
                n <= MAX_PLAYERS,
                i <= n,
                taken <==> exists|j: int| 0 <= j < i && (#[trigger] self.sessions()[j]).0 == drawn@,
            decreases n - i,
        {
            if self.sessions[i].0.same(&drawn) {
                assert(self.sessions()[i as int].0 == drawn@);
                taken = true;
            }
            i = i + 1;
        }
        if !taken {
            return drawn;
        }
        let mut k: usize = 0;
        while k < n
            invariant
                self.wf(),
                n == self.sessions@.len(),
                n <= MAX_PLAYERS,
                k <= n,
                bytes@.len() == 16,
                forall|j: int| 0 <= j < k ==> bytes@[j] != (#[trigger] self.sessions()[j]).0[j],
            decreases n - k,
        {
            let other = self.sessions[k].0.bytes();
            assert(other@ == self.sessions()[k as int].0);
            let b: u8 = if other[k] == 255 {
                0
            } else {
                other[k] + 1
            };
            bytes[k] = b;
            k = k + 1;
        }
        let r = SessionId::from_bytes(bytes);
        assert forall|j: int| 0 <= j < n implies (#[trigger] self.sessions()[j]).0 != r@ by {
            assert(r@[j] != self.sessions()[j].0[j]);
        }
        r
    }
}

/// What a join does: a refused join (see `join_refusal`) reports its error and changes
/// nothing; an accepted one admits the player into the game, binds a new session with an
/// identifier that no session of the game had, and returns that identifier.
pub open spec fn join_outcome<A: GameAdapter>(
    before: Game<A>,
    after: Game<A>,
    game_id: GameId,
    username: String,
    r: Result<SessionId, GameError>,
) -> bool {
    match join_refusal(before.adapter().stage(), before.adapter().players(), username@) {
        Some(why) => r == Err::<SessionId, GameError>(join_error(why, game_id, username))
            && after == before,
        None => {
            &&& r matches Ok(sid) && !has_session(before.sessions(), sid@) && after.sessions()
                == before.sessions().push((sid@, username@))
            &&& after.adapter().players() == before.adapter().players().push(username@)
            &&& after.adapter().stage() == if after.adapter().players().len()
                >= before.adapter().capacity() {
                Stage::InProgress
            } else {
                Stage::Waiting
            }
            &&& after.adapter().capacity() == before.adapter().capacity()
            &&& after.adapter().game_type() == before.adapter().game_type()
            &&& after.adapter().clock() == bumped(before.adapter().clock())
            &&& before.adapter().admitted(after.adapter(), username@)
        },
    }
}

/// What a move by a session does: for an unknown session, `SessionNotFound` and nothing
/// changes; otherwise the payload goes to the game as played by the session's user, and
/// the game's own refusal comes back as the error.
pub open spec fn move_outcome<A: GameAdapter>(
    before: Game<A>,
    after: Game<A>,
    session_id: SessionId,
    payload: MovePayload,
    r: Result<(), GameError>,
) -> bool {
    if !has_session(before.sessions(), session_id@) {
        r == Err::<(), GameError>(GameError::Manager(GameManagerError::SessionNotFound(session_id)))
            && after == before
    } else {
        let i = choose|i: int|
            0 <= i < before.sessions().len() && (#[trigger] before.sessions()[i]).0
                == session_id@;
        let m = GenericGameMove { player: before.session_user(i), payload };
        &&& m.player@ == before.sessions()[i].1
        &&& after.sessions() == before.sessions()
        &&& after.adapter().players() == before.adapter().players()
        &&& after.adapter().capacity() == before.adapter().capacity()
        &&& stage_rank(before.adapter().stage()) <= stage_rank(after.adapter().stage())
        &&& match r {
            Ok(done) => before.adapter().move_applied(after.adapter(), m, Ok(done)),
            Err(GameError::Adapter(e)) => before.adapter().move_applied(
                after.adapter(),
                m,
                Err(e),
            ) && after == before,
            Err(_) => false,
        }
    }
}

impl<A: GameAdapter> Game<A> {
    /// The username string of the `i`-th session.
    pub closed spec fn session_user(&self, i: int) -> String {
        self.sessions@[i].1.username
    }

    /// Admits `username` at time `now`; see `join_outcome`. An accepted join also records
    /// `now` as the time of the last change.
    pub fn join_at(&mut self, game_id: GameId, username: String, now: i64) -> (r: Result<
        SessionId,
        GameError,
    >)
        requires
            old(self).wf(),
        ensures
            final(self).wf(),
            join_outcome(*old(self), *final(self), game_id, username, r),
            r is Ok ==> final(self).last_update() == now,
    {
        let stage = self.adapter.get_stage();
        if stage != Stage::Waiting {
            return Err(
                GameError::Adapter(
                    GameAdapterError::new(
                        game_id,
                        adapter::GameAdapterErrorType::InvalidGameStage(stage),
                    ),
                ),
            );
        }
        let text = username.as_str();
        let byte_length = text.as_bytes().len();
        assert(byte_length == utf8_len(username@));
        if text.is_empty() {
            return Err(
                GameError::Manager(
                    GameManagerError::InvalidUsername {
                        username,
                        reason: InvalidUsernameReason::TooShort,
                    },
                ),
            );
        }
        if byte_length > MAX_USERNAME_LENGTH {
            return Err(
                GameError::Manager(
                    GameManagerError::InvalidUsername {
                        username,
                        reason: InvalidUsernameReason::TooLong,
                    },
                ),
            );
        }
        if self.adapter.has_player(username.as_str()) {
            return Err(
                GameError::Manager(
                    GameManagerError::InvalidUsername {
                        username,
                        reason: InvalidUsernameReason::AlreadyInGame(game_id),
                    },
                ),
            );
        }
        let session_id = self.fresh_session_id();
        let _ = self.adapter.add_player(username.clone());
        self.last_update = now;
        self.sessions.push((session_id, Session::new(username)));
        assert(self.sessions() =~= old(self).sessions().push((session_id@, username@)));
        Ok(session_id)
    }

    /// Admits `username`, recording the current time as the time of the last change; see
    /// `join_outcome`.
    pub fn receive_join(&mut self, game_id: GameId, username: String) -> (r: Result<
        SessionId,
        GameError,
    >)
        requires
            old(self).wf(),
        ensures
            final(self).wf(),
            join_outcome(*old(self), *final(self), game_id, username, r),
    {
        let now = now_millis();
        self.join_at(game_id, username, now)
    }

    /// Applies a move by the session `session_id` at time `now`; see `move_outcome`. An
    /// accepted move also records `now` as the time of the last change.
    pub fn move_at(&mut self, session_id: SessionId, payload: MovePayload, now: i64) -> (r:
        Result<(), GameError>)
        requires
            old(self).wf(),
        ensures
            final(self).wf(),
            move_outcome(*old(self), *final(self), session_id, payload, r),
            r is Ok ==> final(self).last_update() == now,
    {
        let n = self.sessions.len();
        let mut i: usize = 0;
        let mut found = false;
        while i < n && !found
            invariant
                self.wf(),
                n == self.sessions@.len(),
                i <= n,
                found ==> i < n && self.sessions()[i as int].0 == session_id@,
                !found ==> forall|j: int|
                    0 <= j < i ==> (#[trigger] self.sessions()[j]).0 != session_id@,
            decreases n - i + (if found {
                0int
            } else {
                1int
            }),
        {
            if self.sessions[i].0.same(&session_id) {
                found = true;
            } else {
                i = i + 1;
            }
        }
        if !found {
            assert(!has_session(self.sessions(), session_id@));
            return Err(GameError::session_not_found(session_id));
        }
        let ghost k = choose|k: int|
            0 <= k < self.sessions().len() && (#[trigger] self.sessions()[k]).0 == session_id@;
        assert(k == i);
        let username = self.sessions[i].1.username.clone();
        let game_move = GenericGameMove { player: username, payload };
        let ghost m = game_move;
        let outcome = self.adapter.play_move(game_move);
        match outcome {
            Ok(done) => {
                self.last_update = now;
                assert(self.sessions() == old(self).sessions());
                Ok(done)
            },
            Err(e) => {
                Err(GameError::Adapter(e))
            },
        }
    }

    /// Applies a move by the session `session_id`, recording the current time as the time
    /// of the last change; see `move_outcome`.
    pub fn receive_move(&mut self, session_id: SessionId, payload: MovePayload) -> (r: Result<
        (),
        GameError,
    >)
        requires
            old(self).wf(),
        ensures
            final(self).wf(),
            move_outcome(*old(self), *final(self), session_id, payload, r),
    {
        let now = now_millis();
        self.move_at(session_id, payload, now)
    }

    /// The game's encoded state, whose payload is tagged with the game's type.
    pub fn get_state(&self) -> (r: GenericGameState)
        requires
            self.wf(),
        ensures
            names(r.players@) == self.adapter().players(),
            r.stage == self.adapter().stage(),
            r.payload.game_type() == self.adapter().game_type(),
            self.adapter().encodes(r),
    {
        self.adapter.get_encoded_state()
    }

    /// A waiter on the game's changes, holding its current clock value.
    pub fn subscribe(&self) -> (r: Subscription)
        requires
            self.wf(),
        ensures
            r.clock() == self.adapter().clock(),
    {
        self.adapter.get_notifier().subscribe()
    }

    /// The game's summary for listing.
    pub fn summary(&self, game_id: GameId) -> (r: GameSummary)
        requires
            self.wf(),
        ensures
            r.game_id == game_id,
            r.game_type == self.adapter().game_type(),
            names(r.players@) == self.adapter().players(),
            r.stage == self.adapter().stage(),
            r.last_updated == self.last_update(),
    {
        let state = self.adapter.get_encoded_state();
        GameSummary {
            game_id,
            game_type: self.adapter.get_type(),
            players: state.players,
            stage: state.stage,
            last_updated: self.last_update,
        }
    }

    /// Whether a sweep at `now` keeps this game, given that the sweep could lock it.
    pub fn is_live(&self, now: i64) -> (r: bool)
        ensures
            r == kept_by_sweep(false, self.last_update(), now),
    {
        gc_keeps(false, self.last_update, now)
    }
}

/// A game of any registered type: the registry's dispatch over game types.
pub enum AnyGame {
    Connect4(Game<Connect4Adapter>),
    Snake(Game<SnakeAdapter>),
}

/// What a join does to a game of any type; see `join_outcome`.
pub open spec fn any_join_outcome(
    before: AnyGame,
    after: AnyGame,
    game_id: GameId,
    username: String,
    r: Result<SessionId, GameError>,
) -> bool {
    match (before, after) {
        (AnyGame::Connect4(a), AnyGame::Connect4(b)) => join_outcome(a, b, game_id, username, r),
        (AnyGame::Snake(a), AnyGame::Snake(b)) => join_outcome(a, b, game_id, username, r),
        _ => false,
    }
}

/// What a move does to a game of any type; see `move_outcome`.
pub open spec fn any_move_outcome(
    before: AnyGame,
    after: AnyGame,
    session_id: SessionId,
    payload: MovePayload,
    r: Result<(), GameError>,
) -> bool {
    match (before, after) {
        (AnyGame::Connect4(a), AnyGame::Connect4(b)) => move_outcome(a, b, session_id, payload, r),
        (AnyGame::Snake(a), AnyGame::Snake(b)) => move_outcome(a, b, session_id, payload, r),
        _ => false,
    }
}

impl AnyGame {
    pub open spec fn wf(&self) -> bool {
        match self {
            AnyGame::Connect4(g) => g.wf(),
            AnyGame::Snake(g) => g.wf(),
        }
    }

    pub open spec fn kind(&self) -> GameType {
        match self {
            AnyGame::Connect4(_) => GameType::Connect4,
            AnyGame::Snake(_) => GameType::Snake,
        }
    }

    /// The adapter of the game, whatever its type: its players and stage.
    pub open spec fn players(&self) -> Seq<Seq<char>> {
        match self {
            AnyGame::Connect4(g) => g.adapter().players(),
            AnyGame::Snake(g) => g.adapter().players(),
        }
    }

    pub open spec fn stage(&self) -> Stage {
        match self {
            AnyGame::Connect4(g) => g.adapter().stage(),
            AnyGame::Snake(g) => g.adapter().stage(),
        }
    }

    pub open spec fn last_changed(&self) -> i64 {
        match self {
            AnyGame::Connect4(g) => g.last_update(),
            AnyGame::Snake(g) => g.last_update(),
        }
    }

    /// A new game of the given type, with no players, last changed at `now`.
    pub fn new(game_type: GameType, game_id: GameId, now: i64) -> (r: AnyGame)
        ensures
            r.wf(),
            r.kind() == game_type,
            r.last_changed() == now,
            match r {
                AnyGame::Connect4(g) => g.adapter().initial(game_id) && g.sessions()
                    == Seq::<(Seq<u8>, Seq<char>)>::empty(),
                AnyGame::Snake(g) => g.adapter().initial(game_id) && g.sessions()
                    == Seq::<(Seq<u8>, Seq<char>)>::empty(),
            },
    {
        match game_type {
            GameType::Connect4 => AnyGame::Connect4(Game::new(game_id, now)),
            GameType::Snake => AnyGame::Snake(Game::new(game_id, now)),
        }
    }

    pub fn game_type(&self) -> (r: GameType)
        ensures
            r == self.kind(),
    {
        match self {
            AnyGame::Connect4(_) => GameType::Connect4,
            AnyGame::Snake(_) => GameType::Snake,
        }
    }

    /// Admits `username`; see `join_outcome`.
    pub fn receive_join(&mut self, game_id: GameId, username: String) -> (r: Result<
        SessionId,
        GameError,
    >)
        requires
            old(self).wf(),
        ensures
            final(self).wf(),
            any_join_outcome(*old(self), *final(self), game_id, username, r),
    {
        match self {
            AnyGame::Connect4(g) => g.receive_join(game_id, username),
            AnyGame::Snake(g) => g.receive_join(game_id, username),
        }
    }

    /// Applies a move by the session `session_id`; see `move_outcome`.
    pub fn receive_move(&mut self, session_id: SessionId, payload: MovePayload) -> (r: Result<
        (),
        GameError,
    >)
        requires
            old(self).wf(),
        ensures
            final(self).wf(),
            any_move_outcome(*old(self), *final(self), session_id, payload, r),
    {
        match self {
            AnyGame::Connect4(g) => g.receive_move(session_id, payload),
            AnyGame::Snake(g) => g.receive_move(session_id, payload),
        }
    }

    /// The game's encoded state, whose payload is tagged with the game's type.
    pub fn get_state(&self) -> (r: GenericGameState)
        requires
            self.wf(),
        ensures
            r.payload.game_type() == self.kind(),
            match self {
                AnyGame::Connect4(g) => g.adapter().encodes(r),
                AnyGame::Snake(g) => g.adapter().encodes(r),
            },
    {
        match self {
            AnyGame::Connect4(g) => g.get_state(),
            AnyGame::Snake(g) => g.get_state(),
        }
    }

    /// A waiter on the game's changes, holding its current clock value.
    pub fn subscribe(&self) -> (r: Subscription)
        requires
            self.wf(),
        ensures
            match self {
                AnyGame::Connect4(g) => r.clock() == g.adapter().clock(),
                AnyGame::Snake(g) => r.clock() == g.adapter().clock(),
            },
    {
        match self {
            AnyGame::Connect4(g) => g.subscribe(),
            AnyGame::Snake(g) => g.subscribe(),
        }
    }

    /// The game's summary for listing.
    pub fn summary(&self, game_id: GameId) -> (r: GameSummary)
        requires
            self.wf(),
        ensures
            r.game_id == game_id,
            r.game_type == self.kind(),
            names(r.players@) == self.players(),
            r.stage == self.stage(),
            r.last_updated == self.last_changed(),
    {
        match self {
            AnyGame::Connect4(g) => g.summary(game_id),
            AnyGame::Snake(g) => g.summary(game_id),
        }
    }

    /// Whether a sweep at `now` keeps this game, given that the sweep could lock it.
    pub fn is_live(&self, now: i64) -> (r: bool)
        ensures
            r == kept_by_sweep(false, self.last_changed(), now),
    {
        match self {
            AnyGame::Connect4(g) => g.is_live(now),
            AnyGame::Snake(g) => g.is_live(now),
        }
    }
}

/// A game's stage never moves back: a join leaves a waiting game waiting or starts it, and
/// a move keeps the stage or moves it on.
pub proof fn lemma_stage_monotone<A: GameAdapter>(
    before: Game<A>,
    joined: Game<A>,
    moved: Game<A>,
    game_id: GameId,
    username: String,
    session_id: SessionId,
    payload: MovePayload,
    r_join: Result<SessionId, GameError>,
    r_move: Result<(), GameError>,
)
    requires
        before.wf(),
        join_outcome(before, joined, game_id, username, r_join),
        move_outcome(before, moved, session_id, payload, r_move),
    ensures
        stage_rank(before.adapter().stage()) <= stage_rank(joined.adapter().stage()),
        before.adapter().stage() == Stage::InProgress ==> joined.adapter().stage()
            == Stage::InProgress,
        before.adapter().stage() == Stage::Ended ==> joined.adapter().stage() == Stage::Ended,
        stage_rank(before.adapter().stage()) <= stage_rank(moved.adapter().stage()),
{
}

/// Joining twice under one name: while the game still waits for more players after the
/// first join, the second join is refused with `AlreadyInGame` and changes nothing.
pub proof fn lemma_join_exclusivity<A: GameAdapter>(
    g0: Game<A>,
    g1: Game<A>,
    g2: Game<A>,
    game_id: GameId,
    first: String,
    second: String,
    r1: Result<SessionId, GameError>,
    r2: Result<SessionId, GameError>,
)
    requires
        g0.wf(),
        join_outcome(g0, g1, game_id, first, r1),
        join_outcome(g1, g2, game_id, second, r2),
        r1 is Ok,
        second@ == first@,
        g0.adapter().players().len() + 1 < g0.adapter().capacity(),
    ensures
        r2 == Err::<SessionId, GameError>(
            join_error(JoinRefusal::AlreadyInGame, game_id, second),
        ),
        g2 == g1,
{
    assert(g1.adapter().players().last() == first@);
    assert(g1.adapter().players().contains(first@));
}

/// Joins succeed up to the game's capacity: a waiting game admits any new name of 1 to
/// `MAX_USERNAME_LENGTH` bytes, and starts exactly when it becomes full; a full game
/// is no longer waiting and refuses every join with `InvalidGameStage`.
pub proof fn lemma_join_capacity<A: GameAdapter>(
    g0: Game<A>,
    g1: Game<A>,
    game_id: GameId,
    username: String,
    r: Result<SessionId, GameError>,
)
    requires
        g0.wf(),
        join_outcome(g0, g1, game_id, username, r),
    ensures
        g0.adapter().stage() == Stage::Waiting && 0 < username@.len() && utf8_len(username@)
            <= MAX_USERNAME_LENGTH
            && !g0.adapter().players().contains(username@) ==> r is Ok
            && g1.adapter().players().len() == g0.adapter().players().len() + 1 && (
        g1.adapter().stage() == Stage::InProgress <==> g1.adapter().players().len()
            == g1.adapter().capacity()),
        g0.adapter().players().len() == g0.adapter().capacity() ==> g0.adapter().stage()
            != Stage::Waiting && r == Err::<SessionId, GameError>(
            join_error(JoinRefusal::Stage(g0.adapter().stage()), game_id, username),
        ),
{
}

} // verus!
