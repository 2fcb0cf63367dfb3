//! Connect Four for two players: tokens drop into seven columns of six rows; four in a
//! line (vertical, horizontal or diagonal) wins, and a full board without a winner is a
//! draw.

use crate::game::adapter::{
    copy_names, names, same_text, stage_rank, GameAdapter, GameAdapterError, GameAdapterErrorType, GamePayload,
    GenericGameMove, GenericGameState, MovePayload, Stage,
};
use crate::game::GameType;
use crate::ids::GameId;
use crate::notify::Notifier;
use vstd::prelude::*;

verus! {

pub const NUM_PLAYERS: usize = 2;

pub const ROW_SIZE: usize = 6;

pub const COL_SIZE: usize = 7;

pub const CONNECT_FOUR: usize = 4;

/// Relies on `format!`: a message that names a column.
#[verifier::external_body]
fn column_message(column: usize, problem: &str) -> (r: String) {
    format!("column {} {}", column, problem)
}

/// The token of the first player (`Red`) or of the second (`Blue`).
#[derive(Clone, Copy, PartialEq, Eq, Structural, Debug)]
pub enum Token {
    Red,
    Blue,
}

/// The index of the player that a token belongs to.
pub open spec fn token_player(t: Token) -> int {
    match t {
        Token::Red => 0,
        Token::Blue => 1,
    }
}

pub open spec fn other_token(t: Token) -> Token {
    match t {
        Token::Red => Token::Blue,
        Token::Blue => Token::Red,
    }
}

/// The token at `row` (counted from the bottom) of column `col`, if there is one.
pub open spec fn cell(b: Seq<Seq<Token>>, row: int, col: int) -> Option<Token> {
    if 0 <= row < ROW_SIZE && 0 <= col < COL_SIZE && col < b.len() && row < b[col].len() {
        Some(b[col][row])
    } else {
        None
    }
}

/// How many cells in a row hold `t`, starting at (`row`, `col`) and stepping by
/// (`dr`, `dc`), looking at no more than `fuel` cells.
pub open spec fn run(
    b: Seq<Seq<Token>>,
    t: Token,
    row: int,
    col: int,
    dr: int,
    dc: int,
    fuel: nat,
) -> nat
    decreases fuel,
{
    if fuel == 0 {
        0
    } else if cell(b, row, col) == Some(t) {
        1 + run(b, t, row + dr, col + dc, dr, dc, (fuel - 1) as nat)
    } else {
        0
    }
}

/// No line on the board is longer than this many cells.
pub open spec fn reach() -> nat {
    8
}

/// Whether the top token of column `col` lies on a line of at least four tokens `t`: four
/// downwards, or more than four when the two opposite runs through it (each of which
/// counts it) are added, horizontally or along either diagonal.
pub open spec fn wins_at(b: Seq<Seq<Token>>, t: Token, col: int) -> bool {
    if 0 <= col < COL_SIZE && col < b.len() && b[col].len() > 0 {
        let row = b[col].len() - 1;
        ||| run(b, t, row, col, -1, 0, reach()) >= CONNECT_FOUR
        ||| run(b, t, row, col, 0, -1, reach()) + run(b, t, row, col, 0, 1, reach())
            > CONNECT_FOUR
        ||| run(b, t, row, col, 1, -1, reach()) + run(b, t, row, col, -1, 1, reach())
            > CONNECT_FOUR
        ||| run(b, t, row, col, -1, -1, reach()) + run(b, t, row, col, 1, 1, reach())
            > CONNECT_FOUR
    } else {
        false
    }
}

/// Whether every column is full.
pub open spec fn board_full(b: Seq<Seq<Token>>) -> bool {
    forall|c: int| 0 <= c < b.len() ==> #[trigger] b[c].len() == ROW_SIZE
}

/// The number of tokens in the first `n` columns.
pub open spec fn tokens(b: Seq<Seq<Token>>, n: int) -> nat
    decreases n,
{
    if n <= 0 {
        0
    } else {
        tokens(b, n - 1) + b[n - 1].len()
    }
}

pub open spec fn total_tokens(b: Seq<Seq<Token>>) -> nat {
    tokens(b, b.len() as int)
}

proof fn lemma_tokens_bound(b: Seq<Seq<Token>>, n: int)
    requires
        0 <= n <= b.len(),
        forall|c: int| 0 <= c < b.len() ==> #[trigger] b[c].len() <= ROW_SIZE,
    ensures
        tokens(b, n) <= ROW_SIZE * n,
    decreases n,
{
    if n > 0 {
        lemma_tokens_bound(b, n - 1);
    }
}

proof fn lemma_tokens_push(b: Seq<Seq<Token>>, col: int, t: Token, n: int)
    requires
        0 <= col < b.len(),
        0 <= n <= b.len(),
    ensures
        tokens(b.update(col, b[col].push(t)), n) == tokens(b, n) + (if col < n {
            1int
        } else {
            0int
        }),
    decreases n,
{
    if n > 0 {
        lemma_tokens_push(b, col, t, n - 1);
    }
}

proof fn lemma_tokens_empty(b: Seq<Seq<Token>>, n: int)
    requires
        0 <= n <= b.len(),
        forall|c: int| 0 <= c < b.len() ==> #[trigger] b[c].len() == 0,
    ensures
        tokens(b, n) == 0,
    decreases n,
{
    if n > 0 {
        lemma_tokens_empty(b, n - 1);
    }
}

/// The board and turn of a Connect Four game.
pub struct Connect4 {
    game_id: GameId,
    completed: bool,
    turn: Token,
    /// One vector per column, filled from the bottom.
    board: Vec<Vec<Token>>,
}

impl Connect4 {
    pub closed spec fn grid(&self) -> Seq<Seq<Token>> {
        self.board@.map_values(|c: Vec<Token>| c@)
    }

    pub closed spec fn turn(&self) -> Token {
        self.turn
    }

    pub closed spec fn completed(&self) -> bool {
        self.completed
    }

    pub closed spec fn game_id(&self) -> GameId {
        self.game_id
    }

    /// Seven columns, none holding more than six tokens.
    pub open spec fn wf(&self) -> bool {
        &&& self.grid().len() == COL_SIZE
        &&& forall|c: int| 0 <= c < COL_SIZE ==> #[trigger] self.grid()[c].len() <= ROW_SIZE
    }

    /// An empty board; `Red` moves first.
    pub fn new(game_id: GameId) -> (r: Connect4)
        ensures
            r.wf(),
            r.turn() == Token::Red,
            !r.completed(),
            r.game_id() == game_id,
            forall|c: int| 0 <= c < COL_SIZE ==> #[trigger] r.grid()[c].len() == 0,
    {
        let mut board: Vec<Vec<Token>> = Vec::new();
        let mut i: usize = 0;
        while i < COL_SIZE
            invariant
                i <= COL_SIZE,
                board@.len() == i,
                forall|c: int| 0 <= c < i ==> #[trigger] board@[c]@.len() == 0,
            decreases COL_SIZE - i,
        {
            board.push(Vec::new());
            i = i + 1;
        }
        let r = Connect4 { game_id, completed: false, turn: Token::Red, board };
        assert(r.grid().len() == COL_SIZE);
        r
    }

    pub fn current_turn(&self) -> (r: Token)
        ensures
            r == self.turn(),
    {
        self.turn
    }

    /// The token at (`row`, `col`), or `None` off the board or above a column's top.
    pub fn get_cell_at(&self, row: isize, col: isize) -> (r: Option<Token>)
        requires
            self.wf(),
        ensures
            r == cell(self.grid(), row as int, col as int),
    {
        if row < 0 || col < 0 || row >= ROW_SIZE as isize || col >= COL_SIZE as isize {
            return None;
        }
        let column = &self.board[col as usize];
        if (row as usize) < column.len() {
            Some(column[row as usize])
        } else {
            None
        }
    }

    /// Drops the current player's token into `column`, unless the column does not exist
    /// or is full; then the board is left as it was.
    pub fn insert_move_if_legal(&mut self, column: usize) -> (r: Result<(), GameAdapterError>)
        requires
            old(self).wf(),
        ensures
            final(self).wf(),
            final(self).turn() == old(self).turn(),
            final(self).completed() == old(self).completed(),
            final(self).game_id() == old(self).game_id(),
            column < COL_SIZE && old(self).grid()[column as int].len() < ROW_SIZE ==> r is Ok
                && final(self).grid() == old(self).grid().update(
                column as int,
                old(self).grid()[column as int].push(old(self).turn()),
            ),
            !(column < COL_SIZE && old(self).grid()[column as int].len() < ROW_SIZE) ==> (
            r matches Err(e) && e.error_type is InvalidMove && e.game_id == old(self).game_id())
                && *final(self) == *old(self),
    {
        if column >= COL_SIZE {
            return Err(
                GameAdapterError::new(
                    self.game_id,
                    GameAdapterErrorType::InvalidMove(column_message(column, "does not exist")),
                ),
            );
        }
        if self.board[column].len() >= ROW_SIZE {
            return Err(
                GameAdapterError::new(
                    self.game_id,
                    GameAdapterErrorType::InvalidMove(column_message(column, "is already full")),
                ),
            );
        }
        let t = self.turn;
        self.board[column].push(t);
        assert(self.grid() =~= old(self).grid().update(
            column as int,
            old(self).grid()[column as int].push(old(self).turn()),
        ));
        Ok(())
    }

    /// Passes the turn to the other player.
    pub fn switch_token(&mut self)
        ensures
            final(self).turn() == other_token(old(self).turn()),
            final(self).grid() == old(self).grid(),
            final(self).completed() == old(self).completed(),
            final(self).game_id() == old(self).game_id(),
    {
        self.turn = match self.turn {
            Token::Red => Token::Blue,
            Token::Blue => Token::Red,
        };
    }

    /// The length of the run of the current player's tokens from (`row`, `col`) in the
    /// direction (`dr`, `dc`).
    fn run_length(&self, row: isize, col: isize, dr: isize, dc: isize) -> (r: usize)
        requires
            self.wf(),
            -1 <= row <= ROW_SIZE,
            -1 <= col <= COL_SIZE,
            -1 <= dr <= 1,
            -1 <= dc <= 1,
        ensures
            r == run(self.grid(), self.turn(), row as int, col as int, dr as int, dc as int, reach()),
            r <= reach(),
    {
        let mut n: usize = 0;
        let mut r: isize = row;
        let mut c: isize = col;
        while n < 8
            invariant
                self.wf(),
                n <= 8,
                -1 <= r <= ROW_SIZE,
                -1 <= c <= COL_SIZE,
                -1 <= dr <= 1,
                -1 <= dc <= 1,
                run(self.grid(), self.turn(), row as int, col as int, dr as int, dc as int, reach())
                    == n + run(
                    self.grid(),
                    self.turn(),
                    r as int,
                    c as int,
                    dr as int,
                    dc as int,
                    (reach() - n) as nat,
                ),
            decreases 8 - n,
        {
            let here = self.get_cell_at(r, c);
            let matches_turn = match here {
                Some(t) => t == self.turn,
                None => false,
            };
            if !matches_turn {
                return n;
            }
            n = n + 1;
            r = r + dr;
            c = c + dc;
        }
        n
    }

    /// Whether the top token of `column`, taken as the current player's, completes a line
    /// of four.
    pub fn winning_move(&self, column: usize) -> (r: bool)
        requires
            self.wf(),
        ensures
            r == wins_at(self.grid(), self.turn(), column as int),
    {
        if column >= COL_SIZE {
            return false;
        }
        let height = self.board[column].len();
        assert(self.grid()[column as int] == self.board@[column as int]@);
        if height == 0 {
            return false;
        }
        let row = (height - 1) as isize;
        let col = column as isize;
        let down = self.run_length(row, col, -1, 0);
        let left = self.run_length(row, col, 0, -1);
        let right = self.run_length(row, col, 0, 1);
        let left_up = self.run_length(row, col, 1, -1);
        let right_down = self.run_length(row, col, -1, 1);
        let left_down = self.run_length(row, col, -1, -1);
        let right_up = self.run_length(row, col, 1, 1);
        down >= CONNECT_FOUR || left + right > CONNECT_FOUR || left_up + right_down
            > CONNECT_FOUR || left_down + right_up > CONNECT_FOUR
    }

    /// Whether every column is full.
    pub fn is_game_drawn(&self) -> (r: bool)
        requires
            self.wf(),
        ensures
            r == board_full(self.grid()),
    {
        let mut i: usize = 0;
        while i < COL_SIZE
            invariant
                self.wf(),
                i <= COL_SIZE,
                forall|c: int| 0 <= c < i ==> #[trigger] self.grid()[c].len() == ROW_SIZE,
            decreases COL_SIZE - i,
        {
            if self.board[i].len() != ROW_SIZE {
                assert(self.grid()[i as int] == self.board@[i as int]@);
                return false;
            }
            assert(self.grid()[i as int] == self.board@[i as int]@);
            i = i + 1;
        }
        true
    }

    /// Plays the current player's token into `column`: refused with `InvalidGameStage`
    /// once the game is over, and with `InvalidMove` for a column that does not exist or
    /// is full.
    pub fn moves(&mut self, column: usize) -> (r: Result<(), GameAdapterError>)
        requires
            old(self).wf(),
        ensures
            final(self).wf(),
            final(self).turn() == old(self).turn(),
            final(self).completed() == old(self).completed(),
            final(self).game_id() == old(self).game_id(),
            old(self).completed() ==> (r matches Err(e) && e.error_type
                == GameAdapterErrorType::InvalidGameStage(Stage::Ended)),
            !old(self).completed() && column < COL_SIZE && old(self).grid()[column as int].len()
                < ROW_SIZE ==> r is Ok && final(self).grid() == old(self).grid().update(
                column as int,
                old(self).grid()[column as int].push(old(self).turn()),
            ),
            !old(self).completed() && !(column < COL_SIZE && old(self).grid()[column as int].len()
                < ROW_SIZE) ==> (r matches Err(e) && e.error_type is InvalidMove),
            r is Err ==> *final(self) == *old(self),
            r matches Err(e) ==> e.game_id == old(self).game_id(),
    {
        if self.completed {
            return Err(
                GameAdapterError::new(
                    self.game_id,
                    GameAdapterErrorType::InvalidGameStage(Stage::Ended),
                ),
            );
        }
        self.insert_move_if_legal(column)
    }
}

proof fn lemma_tokens_zero(b: Seq<Seq<Token>>, n: int, c: int)
    requires
        0 <= c < n <= b.len(),
        tokens(b, n) == 0,
    ensures
        b[c].len() == 0,
    decreases n,
{
    if c < n - 1 {
        lemma_tokens_zero(b, n - 1, c);
    }
}

/// Whether `cells` names, for each column and each token in it, the player the token
/// belongs to.
pub open spec fn cells_name_owners(
    cells: Seq<Vec<String>>,
    b: Seq<Seq<Token>>,
    players: Seq<Seq<char>>,
) -> bool {
    &&& cells.len() == b.len()
    &&& forall|c: int|
        0 <= c < b.len() ==> #[trigger] cells[c]@.len() == b[c].len() && forall|k: int|
            0 <= k < b[c].len() ==> #[trigger] cells[c]@[k]@ == players[token_player(b[c][k])]
}

/// A Connect Four game as the registry sees it: two players, the board, the change clock
/// and the winner, once there is one.
pub struct Connect4Adapter {
    game_id: GameId,
    players: Vec<String>,
    stage: Stage,
    notifier: Notifier,
    game: Connect4,
    winner: Vec<String>,
}

impl Connect4Adapter {
    pub closed spec fn player_names(&self) -> Seq<Seq<char>> {
        names(self.players@)
    }

    pub closed spec fn current_stage(&self) -> Stage {
        self.stage
    }

    pub closed spec fn board(&self) -> Seq<Seq<Token>> {
        self.game.grid()
    }

    pub closed spec fn turn(&self) -> Token {
        self.game.turn()
    }

    pub closed spec fn winners(&self) -> Seq<Seq<char>> {
        names(self.winner@)
    }

    pub closed spec fn change_clock(&self) -> u64 {
        self.notifier.clock()
    }

    pub closed spec fn id(&self) -> GameId {
        self.game_id
    }

    /// The name of the player whose turn it is.
    pub open spec fn mover(&self) -> Seq<char> {
        self.player_names()[token_player(self.turn())]
    }

    /// At most two players, and the game waits exactly while it has fewer; no token is
    /// dropped before it starts; the board is finished exactly when the game has ended;
    /// the clock counts the joins and the tokens; at most one winner.
    pub closed spec fn well_formed(&self) -> bool {
        &&& self.game.wf()
        &&& self.game.game_id() == self.game_id
        &&& self.players@.len() <= NUM_PLAYERS
        &&& (self.stage == Stage::Waiting) == (self.players@.len() < NUM_PLAYERS)
        &&& self.stage == Stage::Waiting ==> total_tokens(self.game.grid()) == 0
        &&& self.game.completed() == (self.stage == Stage::Ended)
        &&& self.notifier.clock() == 1 + self.players@.len() + total_tokens(self.game.grid())
        &&& self.winner@.len() <= 1
        &&& self.stage != Stage::Ended ==> self.winner@.len() == 0
    }

    proof fn lemma_clock_bound(&self)
        requires
            self.well_formed(),
        ensures
            self.change_clock() <= 45,
            self.player_names().len() == self.players@.len(),
    {
        lemma_tokens_bound(self.game.grid(), COL_SIZE as int);
    }

    /// A game just made for `game_id`: no players, waiting, seven empty columns, `Red`
    /// to move, no winner, and the clock at 1.
    pub open spec fn starts_fresh(&self, game_id: GameId) -> bool {
        &&& self.id() == game_id
        &&& self.player_names() == Seq::<Seq<char>>::empty()
        &&& self.current_stage() == Stage::Waiting
        &&& self.board().len() == COL_SIZE
        &&& forall|c: int| 0 <= c < COL_SIZE ==> #[trigger] self.board()[c].len() == 0
        &&& self.turn() == Token::Red
        &&& self.winners() == Seq::<Seq<char>>::empty()
        &&& self.change_clock() == 1
    }

    /// What a move does: refused, with nothing changed, outside `InProgress` with
    /// `InvalidGameStage`; for an unreadable payload with `InvalidMove`; when it is not
    /// that player's turn with `InvalidPlayer`; for a column that does not exist or is full
    /// with `InvalidMove`. Otherwise the mover's token drops into the column; a line of
    /// four makes the mover the winner and ends the game, a full board ends it as a draw,
    /// and else the turn passes.
    pub open spec fn move_outcome(
        &self,
        after: Connect4Adapter,
        game_move: GenericGameMove,
        r: Result<(), GameAdapterError>,
    ) -> bool {
        &&& after.player_names() == self.player_names()
        &&& after.id() == self.id()
        &&& r is Err ==> after == *self
        &&& r matches Err(e) ==> e.game_id == self.id()
        &&& self.current_stage() != Stage::InProgress ==> (r matches Err(e) && e.error_type
            == GameAdapterErrorType::InvalidGameStage(self.current_stage()))
        &&& self.current_stage() == Stage::InProgress ==> match game_move.payload {
            MovePayload::Unreadable(why) => r matches Err(e) && e.error_type
                == GameAdapterErrorType::InvalidMove(why),
            MovePayload::Direction(_) => r matches Err(e) && e.error_type is InvalidMove,
            MovePayload::Column(c) => if game_move.player@ != self.mover() {
                r matches Err(e) && e.error_type == GameAdapterErrorType::InvalidPlayer(
                    game_move.player,
                )
            } else if !(c < COL_SIZE && self.board()[c as int].len() < ROW_SIZE) {
                r matches Err(e) && e.error_type is InvalidMove
            } else {
                let b = self.board().update(
                    c as int,
                    self.board()[c as int].push(self.turn()),
                );
                let won = wins_at(b, self.turn(), c as int);
                let over = won || board_full(b);
                &&& r is Ok
                &&& after.board() == b
                &&& after.winners() == if won {
                    seq![self.mover()]
                } else {
                    Seq::<Seq<char>>::empty()
                }
                &&& after.current_stage() == if over {
                    Stage::Ended
                } else {
                    Stage::InProgress
                }
                &&& after.turn() == if over {
                    self.turn()
                } else {
                    other_token(self.turn())
                }
                &&& after.change_clock() == self.change_clock() + 1
            }
        }
    }

    /// The name of the player whose turn it is.
    pub fn get_user_from_token(&self) -> (r: String)
        requires
            self.well_formed(),
            self.current_stage() != Stage::Waiting,
        ensures
            r@ == self.mover(),
    {
        let i: usize = match self.game.current_turn() {
            Token::Red => 0,
            Token::Blue => 1,
        };
        self.players[i].clone()
    }

    /// Applies a move by the player it names; see `move_outcome`.
    pub fn apply_move(&mut self, game_move: GenericGameMove) -> (r: Result<(), GameAdapterError>)
        requires
            old(self).well_formed(),
        ensures
            final(self).well_formed(),
            old(self).move_outcome(*final(self), game_move, r),
    {
        proof {
            self.lemma_clock_bound();
        }
        if self.stage == Stage::Waiting || self.stage == Stage::Ended {
            return Err(
                GameAdapterError::new(
                    self.game_id,
                    GameAdapterErrorType::InvalidGameStage(self.stage),
                ),
            );
        }
        let column = match game_move.payload {
            MovePayload::Column(c) => c,
            MovePayload::Unreadable(why) => {
                return Err(
                    GameAdapterError::new(self.game_id, GameAdapterErrorType::InvalidMove(why)),
                );
            },
            MovePayload::Direction(_) => {
                return Err(
                    GameAdapterError::new(
                        self.game_id,
                        GameAdapterErrorType::InvalidMove(String::from_str("expected a column")),
                    ),
                );
            },
        };
        assert(self.winners() =~= Seq::<Seq<char>>::empty());
        let player = self.get_user_from_token();
        let user = game_move.player;
        if !same_text(player.as_str(), user.as_str()) {
            return Err(
                GameAdapterError::new(self.game_id, GameAdapterErrorType::InvalidPlayer(user)),
            );
        }
        let ghost b0 = self.game.grid();
        let moved = self.game.moves(column);
        if moved.is_err() {
            return moved;
        }
        proof {
            lemma_tokens_push(b0, column as int, self.game.turn(), COL_SIZE as int);
        }
        let win = self.game.winning_move(column);
        let draw = self.game.is_game_drawn();
        if win {
            self.winner.push(player);
            assert(names(self.winner@) =~= seq![old(self).mover()]);
        }
        if win || draw {
            self.game.completed = true;
            self.stage = Stage::Ended;
        } else {
            self.game.switch_token();
        }
        self.notifier.send();
        Ok(())
    }
}

impl GameAdapter for Connect4Adapter {
    open spec fn inv(&self) -> bool {
        self.well_formed()
    }

    open spec fn stage(&self) -> Stage {
        self.current_stage()
    }

    open spec fn players(&self) -> Seq<Seq<char>> {
        self.player_names()
    }

    open spec fn capacity(&self) -> nat {
        NUM_PLAYERS as nat
    }

    open spec fn game_type(&self) -> GameType {
        GameType::Connect4
    }

    open spec fn clock(&self) -> u64 {
        self.change_clock()
    }

    open spec fn move_applied(
        &self,
        after: Connect4Adapter,
        game_move: GenericGameMove,
        r: Result<(), GameAdapterError>,
    ) -> bool {
        self.move_outcome(after, game_move, r)
    }

    open spec fn encodes(&self, state: GenericGameState) -> bool {
        self.state_encoding(state)
    }

    open spec fn initial(&self, game_id: GameId) -> bool {
        self.starts_fresh(game_id)
    }

    /// A join leaves the board, the turn, the winners and the identifier as they were.
    open spec fn admitted(&self, after: Connect4Adapter, username: Seq<char>) -> bool {
        &&& after.board() == self.board()
        &&& after.turn() == self.turn()
        &&& after.winners() == self.winners()
        &&& after.id() == self.id()
    }

    fn new(game_id: GameId) -> (r: Connect4Adapter) {
        let game = Connect4::new(game_id);
        proof {
            lemma_tokens_empty(game.grid(), COL_SIZE as int);
        }
        let r = Connect4Adapter {
            game_id,
            players: Vec::new(),
            stage: Stage::Waiting,
            notifier: Notifier::new(),
            game,
            winner: Vec::new(),
        };
        assert(r.player_names() =~= Seq::<Seq<char>>::empty());
        assert(r.winners() =~= Seq::<Seq<char>>::empty());
        r
    }

    fn get_notifier(&self) -> (r: &Notifier) {
        &self.notifier
    }

    fn add_player(&mut self, username: String) -> (r: Result<(), GameAdapterError>) {
        proof {
            self.lemma_clock_bound();
        }
        self.players.push(username);
        assert(names(self.players@) =~= names(old(self).players@).push(username@));
        if self.players.len() == NUM_PLAYERS {
            self.stage = Stage::InProgress;
        }
        self.notifier.send();
        Ok(())
    }

    fn has_player(&self, username: &str) -> (r: bool) {
        let mut i: usize = 0;
        while i < self.players.len()
            invariant
                i <= self.players@.len(),
                forall|j: int| 0 <= j < i ==> #[trigger] self.players@[j]@ != username@,
            decreases self.players@.len() - i,
        {
            if same_text(self.players[i].as_str(), username) {
                assert(names(self.players@)[i as int] == username@);
                return true;
            }
            i = i + 1;
        }
        assert(!names(self.players@).contains(username@)) by {
            if names(self.players@).contains(username@) {
                let k = choose|k: int| 0 <= k < names(self.players@).len() && names(self.players@)[k] == username@;
                assert(self.players@[k]@ == username@);
            }
        }
        false
    }

    fn play_move(&mut self, game_move: GenericGameMove) -> (r: Result<(), GameAdapterError>) {
        self.apply_move(game_move)
    }

    fn get_stage(&self) -> (r: Stage) {
        self.stage
    }

    fn get_encoded_state(&self) -> (r: GenericGameState) {
        let s = self.encoded_state();
        s
    }

    fn get_type(&self) -> (r: GameType) {
        GameType::Connect4
    }
}

impl Connect4Adapter {
    /// The state as clients see it: the players, who may move (the player whose turn it
    /// is, while the game is in progress), the winners, the stage, and for each column the
    /// names of the owners of its tokens from the bottom up.
    pub open spec fn state_encoding(&self, r: GenericGameState) -> bool {
        &&& names(r.players@) == self.player_names()
        &&& names(r.winners@) == self.winners()
        &&& r.stage == self.current_stage()
        &&& names(r.can_move@) == if self.current_stage() == Stage::InProgress {
            seq![self.mover()]
        } else {
            Seq::<Seq<char>>::empty()
        }
        &&& r.payload matches GamePayload::Connect4 { cells } && cells_name_owners(
            cells@,
            self.board(),
            self.player_names(),
        )
    }

    /// The state as clients see it; see `state_encoding`.
    pub fn encoded_state(&self) -> (r: GenericGameState)
        requires
            self.well_formed(),
        ensures
            self.state_encoding(r),
    {
        let mut cells: Vec<Vec<String>> = Vec::new();
        let mut c: usize = 0;
        while c < COL_SIZE
            invariant
                self.well_formed(),
                c <= COL_SIZE,
                cells@.len() == c,
                forall|i: int|
                    0 <= i < c ==> #[trigger] cells@[i]@.len() == self.board()[i].len() && forall|
                        k: int,
                    |
                        0 <= k < self.board()[i].len() ==> #[trigger] cells@[i]@[k]@
                            == self.player_names()[token_player(self.board()[i][k])],
            decreases COL_SIZE - c,
        {
            let column = &self.game.board[c];
            assert(self.board()[c as int] == column@);
            proof {
                if self.stage == Stage::Waiting && column@.len() > 0 {
                    lemma_tokens_zero(self.board(), COL_SIZE as int, c as int);
                }
            }
            let mut names_here: Vec<String> = Vec::new();
            let mut k: usize = 0;
            while k < column.len()
                invariant
                    self.well_formed(),
                    column@ == self.board()[c as int],
                    c < COL_SIZE,
                    self.stage != Stage::Waiting || column@.len() == 0,
                    k <= column@.len(),
                    names_here@.len() == k,
                    forall|j: int|
                        0 <= j < k ==> #[trigger] names_here@[j]@ == self.player_names()[token_player(
                            self.board()[c as int][j],
                        )],
                decreases column@.len() - k,
            {
                let i: usize = match column[k] {
                    Token::Red => 0,
                    Token::Blue => 1,
                };
                names_here.push(self.players[i].clone());
                k = k + 1;
            }
            cells.push(names_here);
            c = c + 1;
        }
        let can_move = if self.stage == Stage::InProgress {
            let mut v: Vec<String> = Vec::new();
            v.push(self.get_user_from_token());
            assert(names(v@) =~= seq![self.mover()]);
            v
        } else {
            let v: Vec<String> = Vec::new();
            assert(names(v@) =~= Seq::<Seq<char>>::empty());
            v
        };
        assert(self.board().len() == COL_SIZE);
        assert forall|i: int| 0 <= i < self.board().len() implies #[trigger] cells@[i]@.len()
            == self.board()[i].len() && forall|k: int|
            0 <= k < self.board()[i].len() ==> #[trigger] cells@[i]@[k]@
                == self.player_names()[token_player(self.board()[i][k])] by {}
        assert(cells_name_owners(cells@, self.board(), self.player_names()));
        GenericGameState {
            players: copy_names(&self.players),
            can_move,
            winners: copy_names(&self.winner),
            stage: self.stage,
            payload: GamePayload::Connect4 { cells },
        }
    }
}

} // verus!
