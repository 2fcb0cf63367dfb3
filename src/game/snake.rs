//! Snake for four players on an 11 by 11 board: each round every live snake picks a
//! direction; once all have, they move at once. A snake dies when its head would leave
//! the board, enter a cell that any snake covered before the round, or meet the head of
//! another snake that moved freely; a snake whose head reaches a fruit eats it and grows.
//! A fruit may then appear on a free cell. The game ends when at most one snake is left.

use crate::game::adapter::{
    copy_names, names, same_text, GameAdapter, GameAdapterError, GameAdapterErrorType,
    GamePayload, GenericGameMove, GenericGameState, MovePayload, Stage,
};
use crate::game::GameType;
use crate::ids::GameId;
use crate::notify::{bumped, Notifier};
use rand::Rng;
use std::collections::VecDeque;
use vstd::prelude::*;

verus! {

pub const NUM_PLAYERS: usize = 4;

pub const BOARD_MIN_X: i32 = -5;

pub const BOARD_MAX_X: i32 = 5;

pub const BOARD_MIN_Y: i32 = -5;

pub const BOARD_MAX_Y: i32 = 5;

/// How many random cells a new fruit is tried at before the round gives up on it.
pub const FRUIT_ATTEMPTS: usize = 10;

/// Relies on `rand::Rng::gen_range` on the thread-local generator: a value from `low` to
/// `high`, both included (it panics only on an empty range, or when the operating
/// system's random source cannot seed the generator).
#[verifier::external_body]
fn random_between(low: i32, high: i32) -> (r: i32)
    requires
        low <= high,
    ensures
        low <= r <= high,
{
    rand::thread_rng().gen_range(low..=high)
}

/// Relies on `rand::Rng::gen_ratio` on the thread-local generator: `true` with probability
/// `numerator / denominator` (it panics only when the denominator is 0 or below the
/// numerator, or when the operating system's random source cannot seed the generator).
/// Nothing is known of the outcome.
#[verifier::external_body]
fn chance(numerator: u32, denominator: u32) -> (r: bool)
    requires
        0 < denominator,
        numerator <= denominator,
{
    rand::thread_rng().gen_ratio(numerator, denominator)
}

/// The tag that a Snake move names its game type with.
#[derive(Clone, Copy, PartialEq, Eq, Structural, Debug)]
pub enum ConstSnake {
    Snake,
}

#[derive(Clone, Copy, PartialEq, Eq, Structural, Debug)]
pub enum Direction {
    Up,
    Down,
    Left,
    Right,
}

/// A cell of the board; `y` grows upwards.
#[derive(Clone, Copy, PartialEq, Eq, Structural, Debug, Hash)]
pub struct Point2D {
    pub x: i32,
    pub y: i32,
}

pub open spec fn on_board(p: Point2D) -> bool {
    BOARD_MIN_X <= p.x <= BOARD_MAX_X && BOARD_MIN_Y <= p.y <= BOARD_MAX_Y
}

/// Whether a step from `p` stays within the range of `i32`.
pub open spec fn steppable(p: Point2D) -> bool {
    i32::MIN < p.x < i32::MAX && i32::MIN < p.y < i32::MAX
}

/// The neighbour of `p` in direction `d`.
pub open spec fn step(p: Point2D, d: Direction) -> Point2D
    recommends
        steppable(p),
{
    match d {
        Direction::Up => Point2D { x: p.x, y: (p.y + 1) as i32 },
        Direction::Down => Point2D { x: p.x, y: (p.y - 1) as i32 },
        Direction::Left => Point2D { x: (p.x - 1) as i32, y: p.y },
        Direction::Right => Point2D { x: (p.x + 1) as i32, y: p.y },
    }
}

impl Point2D {
    pub fn new(x: i32, y: i32) -> (r: Point2D)
        ensures
            r == (Point2D { x, y }),
    {
        Point2D { x, y }
    }

    /// A random cell of the board.
    pub fn random() -> (r: Point2D)
        ensures
            on_board(r),
    {
        Point2D {
            x: random_between(BOARD_MIN_X, BOARD_MAX_X),
            y: random_between(BOARD_MIN_Y, BOARD_MAX_Y),
        }
    }

    /// The neighbour in direction `d`.
    pub fn add(&self, d: &Direction) -> (r: Point2D)
        requires
            steppable(*self),
        ensures
            r == step(*self, *d),
    {
        match d {
            Direction::Up => Point2D { x: self.x, y: self.y + 1 },
            Direction::Down => Point2D { x: self.x, y: self.y - 1 },
            Direction::Left => Point2D { x: self.x - 1, y: self.y },
            Direction::Right => Point2D { x: self.x + 1, y: self.y },
        }
    }

    pub fn is_on_board(&self) -> (r: bool)
        ensures
            r == on_board(*self),
    {
        BOARD_MIN_X <= self.x && self.x <= BOARD_MAX_X && BOARD_MIN_Y <= self.y && self.y
            <= BOARD_MAX_Y
    }
}

fn contains_point(v: &Vec<Point2D>, p: Point2D) -> (r: bool)
    ensures
        r == v@.contains(p),
{
    let mut i: usize = 0;
    while i < v.len()
        invariant
            i <= v@.len(),
            forall|j: int| 0 <= j < i ==> v@[j] != p,
        decreases v@.len() - i,
    {
        if v[i] == p {
            return true;
        }
        i = i + 1;
    }
    false
}

/// A snake as the rules see it: its player's name, its cells from the head back, and the
/// direction chosen for this round, if any.
pub type SnakeView = (Seq<char>, Seq<Point2D>, Option<Direction>);

/// Where the `i`-th snake's head goes this round.
pub open spec fn next_head(s: Seq<SnakeView>, i: int) -> Point2D {
    step(s[i].1[0], s[i].2->Some_0)
}

/// Whether a snake covers `p` before the round.
pub open spec fn occupied(s: Seq<SnakeView>, p: Point2D) -> bool {
    exists|i: int, k: int| 0 <= i < s.len() && 0 <= k < s[i].1.len() && s[i].1[k] == p
}

/// Whether the `i`-th snake's head goes to a free cell of the board.
pub open spec fn moves_freely(s: Seq<SnakeView>, i: int) -> bool {
    on_board(next_head(s, i)) && !occupied(s, next_head(s, i))
}

/// Whether the `i`-th snake lives through the round: it moves freely and no other snake
/// that moves freely goes to the same cell.
pub open spec fn survives(s: Seq<SnakeView>, i: int) -> bool {
    &&& moves_freely(s, i)
    &&& forall|j: int|
        0 <= j < s.len() && j != i ==> !(moves_freely(s, j) && #[trigger] next_head(s, j)
            == next_head(s, i))
}

/// Whether some snake that moves freely goes to `p`.
pub open spec fn reached(s: Seq<SnakeView>, p: Point2D) -> bool {
    exists|i: int| 0 <= i < s.len() && moves_freely(s, i) && next_head(s, i) == p
}

/// The `i`-th snake's cells after it moved: the new head, then its old cells, less the
/// last one unless it ate a fruit.
pub open spec fn moved_body(s: Seq<SnakeView>, fruits: Seq<Point2D>, i: int) -> Seq<Point2D> {
    if fruits.contains(next_head(s, i)) {
        seq![next_head(s, i)] + s[i].1
    } else {
        seq![next_head(s, i)] + s[i].1.drop_last()
    }
}

/// The first `n` snakes after the round: the survivors, moved, in the same order, with no
/// direction chosen yet.
pub open spec fn survivors(s: Seq<SnakeView>, fruits: Seq<Point2D>, n: int) -> Seq<SnakeView>
    decreases n,
{
    if n <= 0 {
        Seq::empty()
    } else if survives(s, n - 1) {
        survivors(s, fruits, n - 1).push((s[n - 1].0, moved_body(s, fruits, n - 1), None))
    } else {
        survivors(s, fruits, n - 1)
    }
}

pub open spec fn not_reached(s: Seq<SnakeView>) -> spec_fn(Point2D) -> bool {
    |p: Point2D| !reached(s, p)
}

/// The fruits that no snake reaches this round.
pub open spec fn uneaten(s: Seq<SnakeView>, fruits: Seq<Point2D>) -> Seq<Point2D> {
    fruits.filter(not_reached(s))
}

/// The fruits after the round: the uneaten ones, and perhaps one more on a cell of the
/// board that no snake covered or reached and no fruit holds.
pub open spec fn fruits_after(s: Seq<SnakeView>, fruits: Seq<Point2D>, after: Seq<Point2D>) -> bool {
    let base = uneaten(s, fruits);
    ||| after == base
    ||| exists|p: Point2D|
        #![trigger base.push(p)]
        after == base.push(p) && on_board(p) && !occupied(s, p) && !reached(s, p)
            && !base.contains(p)
}

/// Whether one of the first `h` heads that move freely is `p`.
pub open spec fn reached_among(heads: Seq<Point2D>, free: Seq<bool>, h: int, p: Point2D) -> bool {
    exists|j: int| 0 <= j < h && free[j] && heads[j] == p
}

/// The first of `candidates` that is neither in `taken` nor in `fruits`.
pub open spec fn first_free(candidates: Seq<Point2D>, taken: Seq<Point2D>, fruits: Seq<Point2D>) -> Option<
    Point2D,
>
    decreases candidates.len(),
{
    if candidates.len() == 0 {
        None
    } else if !taken.contains(candidates[0]) && !fruits.contains(candidates[0]) {
        Some(candidates[0])
    } else {
        first_free(candidates.drop_first(), taken, fruits)
    }
}

proof fn lemma_first_free(candidates: Seq<Point2D>, taken: Seq<Point2D>, fruits: Seq<Point2D>)
    ensures
        first_free(candidates, taken, fruits) matches Some(p) ==> candidates.contains(p)
            && !taken.contains(p) && !fruits.contains(p),
    decreases candidates.len(),
{
    if candidates.len() > 0 {
        lemma_first_free(candidates.drop_first(), taken, fruits);
        if let Some(p) = first_free(candidates.drop_first(), taken, fruits) {
            if first_free(candidates, taken, fruits) != Some(candidates[0]) {
                let k = choose|k: int|
                    0 <= k < candidates.drop_first().len() && candidates.drop_first()[k] == p;
                assert(candidates[k + 1] == p);
            }
        }
    }
}

/// One snake: its player's name, its cells from the head back, and the direction chosen
/// for this round.
pub struct SnakeBody {
    name: String,
    body: VecDeque<Point2D>,
    next: Option<Direction>,
}

impl SnakeBody {
    pub closed spec fn view(&self) -> SnakeView {
        (self.name@, self.body@, self.next)
    }
}

pub open spec fn snake_views(v: Seq<SnakeBody>) -> Seq<SnakeView> {
    v.map_values(|b: SnakeBody| b@)
}

/// Every snake has a cell, and all its cells are on the board.
pub open spec fn snakes_wf(s: Seq<SnakeView>) -> bool {
    forall|i: int|
        0 <= i < s.len() ==> (#[trigger] s[i]).1.len() > 0 && forall|k: int|
            0 <= k < s[i].1.len() ==> on_board(#[trigger] s[i].1[k])
}

/// Whether every snake has chosen its direction.
pub open spec fn all_chosen(s: Seq<SnakeView>) -> bool {
    forall|i: int| 0 <= i < s.len() ==> (#[trigger] s[i]).2 is Some
}

/// Whether some snake that moves freely goes to `p`, from the heads and freedoms of all.
fn reaches(heads: &Vec<Point2D>, free: &Vec<bool>, p: Point2D) -> (r: bool)
    requires
        heads@.len() == free@.len(),
    ensures
        r == exists|i: int| 0 <= i < heads@.len() && free@[i] && heads@[i] == p,
{
    let mut i: usize = 0;
    while i < heads.len()
        invariant
            heads@.len() == free@.len(),
            i <= heads@.len(),
            forall|j: int| 0 <= j < i ==> !(free@[j] && heads@[j] == p),
        decreases heads@.len() - i,
    {
        if free[i] && heads[i] == p {
            return true;
        }
        i = i + 1;
    }
    false
}

/// Whether the `i`-th snake lives through the round, from the heads and freedoms of all.
fn lives(heads: &Vec<Point2D>, free: &Vec<bool>, i: usize) -> (r: bool)
    requires
        heads@.len() == free@.len(),
        i < heads@.len(),
    ensures
        r == (free@[i as int] && forall|j: int|
            0 <= j < heads@.len() && j != i ==> !(free@[j] && heads@[j] == heads@[i as int])),
{
    if !free[i] {
        return false;
    }
    let mut j: usize = 0;
    while j < heads.len()
        invariant
            heads@.len() == free@.len(),
            i < heads@.len(),
            j <= heads@.len(),
            forall|k: int| 0 <= k < j && k != i ==> !(free@[k] && heads@[k] == heads@[i as int]),
        decreases heads@.len() - j,
    {
        if j != i && free[j] && heads[j] == heads[i] {
            return false;
        }
        j = j + 1;
    }
    true
}

/// The snakes and fruits of a Snake game.
pub struct Snake {
    snakes: Vec<SnakeBody>,
    fruits: Vec<Point2D>,
}

impl Snake {
    pub closed spec fn snakes(&self) -> Seq<SnakeView> {
        snake_views(self.snakes@)
    }

    pub closed spec fn fruits(&self) -> Seq<Point2D> {
        self.fruits@
    }

    pub open spec fn wf(&self) -> bool {
        snakes_wf(self.snakes())
    }

    /// Moves every snake at once: the survivors move (see `survivors`) and the reached
    /// fruits are eaten. Returns the cells that the snakes covered before the round or
    /// reached in it.
    pub fn advance(&mut self) -> (taken: Vec<Point2D>)
        requires
            old(self).wf(),
            all_chosen(old(self).snakes()),
        ensures
            final(self).wf(),
            final(self).snakes() == survivors(
                old(self).snakes(),
                old(self).fruits(),
                old(self).snakes().len() as int,
            ),
            final(self).fruits() == uneaten(old(self).snakes(), old(self).fruits()),
            forall|p: Point2D|
                taken@.contains(p) <==> occupied(old(self).snakes(), p) || reached(
                    old(self).snakes(),
                    p,
                ),
    {
        let ghost s = self.snakes();
        let ghost fr = self.fruits();
        let n = self.snakes.len();
        let cells = self.covered();
        let mut heads: Vec<Point2D> = Vec::new();
        let mut free: Vec<bool> = Vec::new();
        let mut i: usize = 0;
        while i < n
            invariant
                s == self.snakes(),
                n == s.len(),
                snakes_wf(s),
                all_chosen(s),
                i <= n,
                heads@.len() == i,
                free@.len() == i,
                forall|j: int|
                    0 <= j < i ==> heads@[j] == next_head(s, j) && free@[j] == moves_freely(s, j),
                forall|p: Point2D| cells@.contains(p) <==> occupied(s, p),
            decreases n - i,
        {
            let snake = &self.snakes[i];
            assert(snake@ == s[i as int]);
            let d = match snake.next {
                Some(d) => d,
                None => Direction::Up,
            };
            let head = snake.body[0];
            assert(on_board(s[i as int].1[0]));
            let nh = head.add(&d);
            let f = nh.is_on_board() && !contains_point(&cells, nh);
            heads.push(nh);
            free.push(f);
            i = i + 1;
        }
        let mut kept: Vec<Point2D> = Vec::new();
        let mut k: usize = 0;
        while k < self.fruits.len()
            invariant
                s == self.snakes(),
                fr == self.fruits(),
                n == s.len(),
                heads@.len() == n,
                free@.len() == n,
                forall|j: int|
                    0 <= j < n ==> heads@[j] == next_head(s, j) && free@[j] == moves_freely(s, j),
                k <= fr.len(),
                kept@ == fr.subrange(0, k as int).filter(not_reached(s)),
            decreases fr.len() - k,
        {
            let p = self.fruits[k];
            proof {
                reveal(Seq::filter);
                assert(fr.subrange(0, k + 1).drop_last() =~= fr.subrange(0, k as int));
            }
            let hit = reaches(&heads, &free, p);
            assert(hit == reached(s, p)) by {
                if hit {
                    let j = choose|j: int| 0 <= j < heads@.len() && free@[j] && heads@[j] == p;
                    assert(moves_freely(s, j) && next_head(s, j) == p);
                }
                if reached(s, p) {
                    let j = choose|j: int|
                        0 <= j < s.len() && moves_freely(s, j) && next_head(s, j) == p;
                    assert(free@[j] && heads@[j] == p);
                }
            }
            if !hit {
                kept.push(p);
            }
            k = k + 1;
        }
        assert(fr.subrange(0, fr.len() as int) =~= fr);
        let mut old_snakes: Vec<SnakeBody> = Vec::new();
        std::mem::swap(&mut self.snakes, &mut old_snakes);
        let mut moved: Vec<SnakeBody> = Vec::new();
        let mut i: usize = 0;
        while i < n
            invariant
                n == s.len(),
                snakes_wf(s),
                fr == self.fruits(),
                i <= n,
                heads@.len() == n,
                free@.len() == n,
                forall|j: int|
                    0 <= j < n ==> heads@[j] == next_head(s, j) && free@[j] == moves_freely(s, j),
                snake_views(old_snakes@) == s.subrange(i as int, n as int),
                snake_views(moved@) == survivors(s, fr, i as int),
                snakes_wf(snake_views(moved@)),
            decreases n - i,
        {
            let ghost rest = old_snakes@;
            assert(snake_views(rest).len() == rest.len());
            let mut b = old_snakes.remove(0);
            assert(b@ == s[i as int]) by {
                assert(snake_views(rest)[0] == s.subrange(i as int, n as int)[0]);
            }
            assert(snake_views(old_snakes@) =~= s.subrange(i + 1, n as int)) by {
                assert forall|j: int| 0 <= j < old_snakes@.len() implies snake_views(old_snakes@)[j]
                    == s.subrange(i + 1, n as int)[j] by {
                    assert(old_snakes@[j] == rest[j + 1]);
                    assert(snake_views(rest)[j + 1] == s.subrange(i as int, n as int)[j + 1]);
                }
            }
            let ghost moved_before = moved@;
            let live = lives(&heads, &free, i);
            if live {
                let nh = heads[i];
                let ate = contains_point(&self.fruits, nh);
                b.body.push_front(nh);
                if !ate {
                    let _ = b.body.pop_back();
                }
                b.next = None;
                assert(b.body@ =~= moved_body(s, fr, i as int));
                moved.push(b);
                assert(snake_views(moved@) =~= snake_views(moved_before).push(b@));
            } else {
                proof {
                    if free@[i as int] {
                        let j = choose|j: int|
                            0 <= j < heads@.len() && j != i && free@[j] && heads@[j]
                                == heads@[i as int];
                        assert(moves_freely(s, j) && next_head(s, j) == next_head(s, i as int));
                    }
                }
                assert(!survives(s, i as int));
            }
            i = i + 1;
        }
        self.snakes = moved;
        self.fruits = kept;
        let mut taken = cells;
        let mut h: usize = 0;
        while h < n
            invariant
                n == s.len(),
                heads@.len() == n,
                free@.len() == n,
                forall|j: int|
                    0 <= j < n ==> heads@[j] == next_head(s, j) && free@[j] == moves_freely(s, j),
                h <= n,
                forall|p: Point2D|
                    #[trigger] taken@.contains(p) <==> occupied(s, p) || reached_among(
                        heads@,
                        free@,
                        h as int,
                        p,
                    ),
            decreases n - h,
        {
            let ghost before = taken@;
            if free[h] {
                taken.push(heads[h]);
            }
            assert forall|p: Point2D|
                #[trigger] taken@.contains(p) <==> occupied(s, p) || reached_among(
                    heads@,
                    free@,
                    h + 1,
                    p,
                ) by {
                assert(before.contains(p) <==> occupied(s, p) || reached_among(
                    heads@,
                    free@,
                    h as int,
                    p,
                ));
                if before.contains(p) {
                    let k = choose|k: int| 0 <= k < before.len() && before[k] == p;
                    assert(taken@[k] == p);
                }
                if taken@.contains(p) && !before.contains(p) {
                    let k = choose|k: int| 0 <= k < taken@.len() && taken@[k] == p;
                    assert(k == before.len());
                    assert(free@[h as int] && heads@[h as int] == p);
                }
                if reached_among(heads@, free@, h as int, p) {
                    let j = choose|j: int| 0 <= j < h && free@[j] && heads@[j] == p;
                    assert(0 <= j < h + 1 && free@[j] && heads@[j] == p);
                }
                if reached_among(heads@, free@, h + 1, p) && !reached_among(
                    heads@,
                    free@,
                    h as int,
                    p,
                ) {
                    let j = choose|j: int| 0 <= j < h + 1 && free@[j] && heads@[j] == p;
                    if j < h {
                        assert(reached_among(heads@, free@, h as int, p));
                    }
                    assert(taken@[taken@.len() - 1] == p);
                }
            }
            h = h + 1;
        }
        assert forall|p: Point2D| taken@.contains(p) <==> occupied(s, p) || reached(s, p) by {
            if reached(s, p) {
                let j = choose|j: int|
                    0 <= j < s.len() && moves_freely(s, j) && next_head(s, j) == p;
                assert(free@[j] && heads@[j] == p);
            }
            if reached_among(heads@, free@, n as int, p) {
                let j = choose|j: int| 0 <= j < n && free@[j] && heads@[j] == p;
                assert(moves_freely(s, j) && next_head(s, j) == p);
            }
        }
        taken
    }

    /// Moves every snake at once, then perhaps adds a fruit: with even odds when no fruit
    /// is left, else with odds of 3 in 20, at the first of `FRUIT_ATTEMPTS` random cells
    /// that is free (see `place_fruit`).
    pub fn time_step(&mut self)
        requires
            old(self).wf(),
            all_chosen(old(self).snakes()),
        ensures
            final(self).wf(),
            final(self).snakes() == survivors(
                old(self).snakes(),
                old(self).fruits(),
                old(self).snakes().len() as int,
            ),
            fruits_after(old(self).snakes(), old(self).fruits(), final(self).fruits()),
    {
        let ghost s = self.snakes();
        let ghost fr = self.fruits();
        let taken = self.advance();
        let spawn = if self.fruits.len() == 0 {
            chance(1, 2)
        } else {
            chance(3, 20)
        };
        let mut candidates: Vec<Point2D> = Vec::new();
        let mut k: usize = 0;
        while k < FRUIT_ATTEMPTS
            invariant
                k <= FRUIT_ATTEMPTS,
                candidates@.len() == k,
                forall|j: int| 0 <= j < k ==> on_board(#[trigger] candidates@[j]),
            decreases FRUIT_ATTEMPTS - k,
        {
            candidates.push(Point2D::random());
            k = k + 1;
        }
        let ghost base = self.fruits();
        self.place_fruit(spawn, &candidates, &taken);
        proof {
            if let Some(p) = first_free(candidates@, taken@, base) {
                lemma_first_free(candidates@, taken@, base);
                if spawn {
                    assert(self.fruits() == base.push(p));
                }
            }
        }
    }

    /// Adds a fruit when `spawn` holds: at the first of `candidates` that is neither in
    /// `taken` nor a fruit already, if there is one.
    pub fn place_fruit(&mut self, spawn: bool, candidates: &Vec<Point2D>, taken: &Vec<Point2D>)
        ensures
            final(self).snakes() == old(self).snakes(),
            final(self).fruits() == if spawn && first_free(
                candidates@,
                taken@,
                old(self).fruits(),
            ) is Some {
                old(self).fruits().push(first_free(candidates@, taken@, old(self).fruits())->Some_0)
            } else {
                old(self).fruits()
            },
    {
        if !spawn {
            return;
        }
        let ghost c = candidates@;
        let ghost fr = self.fruits@;
        assert(c.subrange(0, c.len() as int) =~= c);
        let mut i: usize = 0;
        while i < candidates.len()
            invariant
                c == candidates@,
                fr == self.fruits@,
                fr == old(self).fruits(),
                spawn,
                self.snakes() == old(self).snakes(),
                i <= c.len(),
                first_free(c, taken@, fr) == first_free(c.subrange(i as int, c.len() as int), taken@, fr),
            decreases c.len() - i,
        {
            let p = candidates[i];
            assert(c.subrange(i as int, c.len() as int).drop_first() =~= c.subrange(i + 1, c.len() as int));
            assert(c.subrange(i as int, c.len() as int)[0] == p);
            if !contains_point(taken, p) && !contains_point(&self.fruits, p) {
                self.fruits.push(p);
                assert(first_free(c, taken@, fr) == Some(p));
                assert(self.fruits() == old(self).fruits().push(p));
                return;
            }
            i = i + 1;
        }
        assert(c.subrange(i as int, c.len() as int).len() == 0);
    }

    /// The cells that the snakes cover.
    fn covered(&self) -> (r: Vec<Point2D>)
        requires
            self.wf(),
        ensures
            forall|p: Point2D| r@.contains(p) <==> occupied(self.snakes(), p),
    {
        let ghost s = self.snakes();
        let mut r: Vec<Point2D> = Vec::new();
        let mut i: usize = 0;
        while i < self.snakes.len()
            invariant
                s == self.snakes(),
                i <= s.len(),
                forall|p: Point2D|
                    r@.contains(p) <==> exists|a: int, k: int|
                        0 <= a < i && 0 <= k < s[a].1.len() && s[a].1[k] == p,
            decreases s.len() - i,
        {
            let body = &self.snakes[i].body;
            assert(body@ == s[i as int].1);
            let mut k: usize = 0;
            while k < body.len()
                invariant
                    s == self.snakes(),
                    i < s.len(),
                    body@ == s[i as int].1,
                    k <= body@.len(),
                    forall|p: Point2D|
                        r@.contains(p) <==> (exists|a: int, k2: int|
                            0 <= a < i && 0 <= k2 < s[a].1.len() && s[a].1[k2] == p) || (exists|
                            k2: int,
                        |
                            0 <= k2 < k && body@[k2] == p),
                decreases body@.len() - k,
            {
                let ghost before = r@;
                r.push(body[k]);
                assert forall|p: Point2D|
                    r@.contains(p) <==> (exists|a: int, k2: int|
                        0 <= a < i && 0 <= k2 < s[a].1.len() && s[a].1[k2] == p) || (exists|
                        k2: int,
                    |
                        0 <= k2 < k + 1 && body@[k2] == p) by {
                    if r@.contains(p) && p != body@[k as int] {
                        let j = choose|j: int| 0 <= j < r@.len() && r@[j] == p;
                        assert(before[j] == p);
                        assert(before.contains(p));
                    }
                    if p == body@[k as int] {
                        assert(r@[r@.len() - 1] == p);
                        assert(r@.contains(p));
                        assert(0 <= k < k + 1 && body@[k as int] == p);
                    }
                    if exists|a: int, k2: int|
                        0 <= a < i && 0 <= k2 < s[a].1.len() && s[a].1[k2] == p {
                        assert(before.contains(p));
                        let j = choose|j: int| 0 <= j < before.len() && before[j] == p;
                        assert(r@[j] == p);
                        assert(r@.contains(p));
                    }
                    if exists|k2: int| 0 <= k2 < k && body@[k2] == p {
                        assert(before.contains(p));
                        let j = choose|j: int| 0 <= j < before.len() && before[j] == p;
                        assert(r@[j] == p);
                        assert(r@.contains(p));
                    }
                }
                k = k + 1;
            }
            i = i + 1;
        }
        r
    }
}

/// The cells of the `i`-th player's snake at the start, from the head back.
pub open spec fn start_cells(i: int) -> Seq<Point2D> {
    if i == 0 {
        seq![Point2D { x: -3i32, y: -3i32 }, Point2D { x: -2i32, y: -3i32 }, Point2D { x: -1i32, y: -3i32 }]
    } else if i == 1 {
        seq![Point2D { x: -3i32, y: 3i32 }, Point2D { x: -3i32, y: 2i32 }, Point2D { x: -3i32, y: 1i32 }]
    } else if i == 2 {
        seq![Point2D { x: 3i32, y: -3i32 }, Point2D { x: 3i32, y: -2i32 }, Point2D { x: 3i32, y: -1i32 }]
    } else {
        seq![Point2D { x: 3i32, y: 3i32 }, Point2D { x: 2i32, y: 3i32 }, Point2D { x: 1i32, y: 3i32 }]
    }
}

fn starts(i: usize) -> (r: VecDeque<Point2D>)
    requires
        i < NUM_PLAYERS,
    ensures
        r@ == start_cells(i as int),
{
    let (a, b, c) = if i == 0 {
        (Point2D::new(-3, -3), Point2D::new(-2, -3), Point2D::new(-1, -3))
    } else if i == 1 {
        (Point2D::new(-3, 3), Point2D::new(-3, 2), Point2D::new(-3, 1))
    } else if i == 2 {
        (Point2D::new(3, -3), Point2D::new(3, -2), Point2D::new(3, -1))
    } else {
        (Point2D::new(3, 3), Point2D::new(2, 3), Point2D::new(1, 3))
    };
    let mut r: VecDeque<Point2D> = VecDeque::new();
    r.push_back(a);
    r.push_back(b);
    r.push_back(c);
    assert(r@ =~= start_cells(i as int));
    r
}

/// The index of the first snake of the player `name` among the first `n`, or -1.
pub open spec fn first_named(s: Seq<SnakeView>, name: Seq<char>, n: int) -> int
    decreases n,
{
    if n <= 0 {
        -1
    } else if first_named(s, name, n - 1) >= 0 {
        first_named(s, name, n - 1)
    } else if s[n - 1].0 == name {
        n - 1
    } else {
        -1
    }
}

proof fn lemma_first_named(s: Seq<SnakeView>, name: Seq<char>, n: int)
    requires
        0 <= n <= s.len(),
    ensures
        -1 <= first_named(s, name, n) < n,
        first_named(s, name, n) >= 0 ==> s[first_named(s, name, n)].0 == name,
    decreases n,
{
    if n > 0 {
        lemma_first_named(s, name, n - 1);
    }
}

/// The names of the snakes that have not chosen a direction this round, in order.
pub open spec fn undecided(s: Seq<SnakeView>) -> Seq<Seq<char>>
    decreases s.len(),
{
    if s.len() == 0 {
        Seq::empty()
    } else if s.last().2 is None {
        undecided(s.drop_last()).push(s.last().0)
    } else {
        undecided(s.drop_last())
    }
}

pub open spec fn snake_names(s: Seq<SnakeView>) -> Seq<Seq<char>> {
    s.map_values(|v: SnakeView| v.0)
}

impl Snake {
    pub fn new() -> (r: Snake)
        ensures
            r.wf(),
            r.snakes() == Seq::<SnakeView>::empty(),
            r.fruits() == Seq::<Point2D>::empty(),
    {
        let r = Snake { snakes: Vec::new(), fruits: Vec::new() };
        assert(r.snakes() =~= Seq::<SnakeView>::empty());
        r
    }

    /// The cells that hold a fruit.
    pub fn fruit_cells(&self) -> (r: Vec<Point2D>)
        ensures
            r@ == self.fruits(),
    {
        let mut r: Vec<Point2D> = Vec::new();
        let mut i: usize = 0;
        while i < self.fruits.len()
            invariant
                i <= self.fruits@.len(),
                r@ =~= self.fruits@.subrange(0, i as int),
            decreases self.fruits@.len() - i,
        {
            r.push(self.fruits[i]);
            i = i + 1;
        }
        r
    }

    /// The index of the first snake of the player `name`, if any.
    fn find(&self, name: &str) -> (r: Option<usize>)
        ensures
            match r {
                Some(i) => first_named(self.snakes(), name@, self.snakes().len() as int) == i,
                None => first_named(self.snakes(), name@, self.snakes().len() as int) == -1,
            },
    {
        let ghost s = self.snakes();
        let mut found: Option<usize> = None;
        let mut i: usize = 0;
        while i < self.snakes.len()
            invariant
                s == self.snakes(),
                i <= s.len(),
                match found {
                    Some(k) => first_named(s, name@, i as int) == k,
                    None => first_named(s, name@, i as int) == -1,
                },
            decreases s.len() - i,
        {
            if found.is_none() && same_text(self.snakes[i].name.as_str(), name) {
                assert(self.snakes@[i as int]@.0 == s[i as int].0);
                found = Some(i);
            } else {
                assert(found is None ==> s[i as int].0 != name@);
            }
            i = i + 1;
        }
        found
    }
}

/// A Snake game as the registry sees it: four players, their snakes and the fruits.
pub struct SnakeAdapter {
    game_id: GameId,
    players: Vec<String>,
    stage: Stage,
    notifier: Notifier,
    game: Snake,
}

impl SnakeAdapter {
    pub closed spec fn player_names(&self) -> Seq<Seq<char>> {
        names(self.players@)
    }

    pub closed spec fn current_stage(&self) -> Stage {
        self.stage
    }

    pub closed spec fn snakes(&self) -> Seq<SnakeView> {
        self.game.snakes()
    }

    pub closed spec fn fruits(&self) -> Seq<Point2D> {
        self.game.fruits()
    }

    pub closed spec fn change_clock(&self) -> u64 {
        self.notifier.clock()
    }

    pub closed spec fn id(&self) -> GameId {
        self.game_id
    }

    /// At most four players, and the game waits exactly while it has fewer; while it
    /// waits, each player has one snake and no snake has chosen a direction.
    pub closed spec fn well_formed(&self) -> bool {
        &&& self.game.wf()
        &&& self.players@.len() <= NUM_PLAYERS
        &&& (self.stage == Stage::Waiting) == (self.players@.len() < NUM_PLAYERS)
        &&& self.stage == Stage::Waiting ==> self.game.snakes().len() == self.players@.len()
            && forall|i: int|
            0 <= i < self.game.snakes().len() ==> (#[trigger] self.game.snakes()[i]).2 is None
    }

    /// What a move does: refused, with nothing changed, outside `InProgress` with
    /// `InvalidGameStage`; for a payload that is not a direction with `InvalidMove`; for a
    /// player without a live snake, or whose snake already chose this round, with
    /// `InvalidPlayer`. Otherwise the snake takes the direction; once every snake has
    /// chosen, all move (see `Snake::time_step`); and the game ends when at most one snake
    /// is left.
    pub open spec fn move_outcome(
        &self,
        after: SnakeAdapter,
        game_move: GenericGameMove,
        r: Result<(), GameAdapterError>,
    ) -> bool {
        let s = self.snakes();
        let k = first_named(s, game_move.player@, s.len() as int);
        &&& after.player_names() == self.player_names()
        &&& after.id() == self.id()
        &&& r is Err ==> after == *self
        &&& r matches Err(e) ==> e.game_id == self.id()
        &&& self.current_stage() != Stage::InProgress ==> (r matches Err(e) && e.error_type
            == GameAdapterErrorType::InvalidGameStage(self.current_stage()))
        &&& self.current_stage() == Stage::InProgress ==> match game_move.payload {
            MovePayload::Direction(d) => if k < 0 || s[k].2 is Some {
                r matches Err(e) && e.error_type == GameAdapterErrorType::InvalidPlayer(
                    game_move.player,
                )
            } else {
                let chosen = s.update(k, (s[k].0, s[k].1, Some(d)));
                &&& r is Ok
                &&& if all_chosen(chosen) {
                    &&& after.snakes() == survivors(chosen, self.fruits(), chosen.len() as int)
                    &&& fruits_after(chosen, self.fruits(), after.fruits())
                } else {
                    after.snakes() == chosen && after.fruits() == self.fruits()
                }
                &&& after.current_stage() == if after.snakes().len() <= 1 {
                    Stage::Ended
                } else {
                    Stage::InProgress
                }
                &&& after.change_clock() == bumped(self.change_clock())
            },
            _ => r matches Err(e) && e.error_type is InvalidMove,
        }
    }

    /// Applies a move by the player it names; see `move_outcome`.
    pub fn apply_move(&mut self, game_move: GenericGameMove) -> (r: Result<(), GameAdapterError>)
        requires
            old(self).well_formed(),
        ensures
            final(self).well_formed(),
            old(self).move_outcome(*final(self), game_move, r),
    {
        if self.stage == Stage::Waiting || self.stage == Stage::Ended {
            return Err(
                GameAdapterError::new(
                    self.game_id,
                    GameAdapterErrorType::InvalidGameStage(self.stage),
                ),
            );
        }
        let direction = match game_move.payload {
            MovePayload::Direction(d) => d,
            MovePayload::Unreadable(why) => {
                return Err(
                    GameAdapterError::new(self.game_id, GameAdapterErrorType::InvalidMove(why)),
                );
            },
            MovePayload::Column(_) => {
                return Err(
                    GameAdapterError::new(
                        self.game_id,
                        GameAdapterErrorType::InvalidMove(String::from_str("expected a direction")),
                    ),
                );
            },
        };
        let user = game_move.player;
        let ghost s = self.game.snakes();
        let found = self.game.find(user.as_str());
        let k = match found {
            Some(k) => k,
            None => {
                return Err(
                    GameAdapterError::new(self.game_id, GameAdapterErrorType::InvalidPlayer(user)),
                );
            },
        };
        proof {
            lemma_first_named(s, user@, s.len() as int);
        }
        if self.game.snakes[k].next.is_some() {
            assert(self.game.snakes@[k as int]@.2 == s[k as int].2);
            return Err(
                GameAdapterError::new(self.game_id, GameAdapterErrorType::InvalidPlayer(user)),
            );
        }
        assert(self.game.snakes@[k as int]@ == s[k as int]);
        self.game.snakes[k].next = Some(direction);
        let ghost chosen = s.update(k as int, (s[k as int].0, s[k as int].1, Some(direction)));
        assert(self.game.snakes() =~= chosen);
        let mut all = true;
        let mut i: usize = 0;
        while i < self.game.snakes.len()
            invariant
                self.game.snakes() == chosen,
                i <= chosen.len(),
                all == forall|j: int| 0 <= j < i ==> (#[trigger] chosen[j]).2 is Some,
            decreases chosen.len() - i,
        {
            assert(self.game.snakes@[i as int]@ == chosen[i as int]);
            if self.game.snakes[i].next.is_none() {
                all = false;
            }
            i = i + 1;
        }
        if all {
            self.game.time_step();
        }
        if self.game.snakes.len() <= 1 {
            self.stage = Stage::Ended;
        }
        self.notifier.send();
        Ok(())
    }

    /// The state as clients see it; see `state_encoding`.
    pub open spec fn state_encoding(&self, r: GenericGameState) -> bool {
        &&& names(r.players@) == self.player_names()
        &&& r.stage == self.current_stage()
        &&& names(r.can_move@) == undecided(self.snakes())
        &&& names(r.winners@) == if self.current_stage() == Stage::Ended {
            snake_names(self.snakes())
        } else {
            Seq::<Seq<char>>::empty()
        }
        &&& r.payload matches GamePayload::Snake { players, fruits, world_min, world_max }
            && fruits@ == self.fruits() && world_min == (Point2D { x: BOARD_MIN_X, y: BOARD_MIN_Y })
            && world_max == (Point2D { x: BOARD_MAX_X, y: BOARD_MAX_Y }) && players@.len()
            == self.snakes().len() && forall|i: int|
            0 <= i < players@.len() ==> (#[trigger] players@[i]).0@ == self.snakes()[i].0
                && players@[i].1@ == self.snakes()[i].1
    }

    /// The state as clients see it: the players, the players whose snakes have not chosen
    /// a direction this round, the players whose snakes are left once the game has ended,
    /// the stage, and the snakes, fruits and board.
    pub fn encoded_state(&self) -> (r: GenericGameState)
        requires
            self.well_formed(),
        ensures
            self.state_encoding(r),
    {
        let ghost s = self.game.snakes();
        let mut can_move: Vec<String> = Vec::new();
        let mut alive: Vec<String> = Vec::new();
        let mut bodies: Vec<(String, Vec<Point2D>)> = Vec::new();
        let mut i: usize = 0;
        while i < self.game.snakes.len()
            invariant
                s == self.game.snakes(),
                i <= s.len(),
                names(can_move@) == undecided(s.subrange(0, i as int)),
                alive@.len() == i,
                forall|j: int| 0 <= j < i ==> (#[trigger] alive@[j])@ == s[j].0,
                bodies@.len() == i,
                forall|j: int|
                    0 <= j < i ==> (#[trigger] bodies@[j]).0@ == s[j].0 && bodies@[j].1@
                        == s[j].1,
            decreases s.len() - i,
        {
            let snake = &self.game.snakes[i];
            assert(snake@ == s[i as int]);
            assert(s.subrange(0, i + 1).drop_last() =~= s.subrange(0, i as int));
            let mut cells: Vec<Point2D> = Vec::new();
            let mut k: usize = 0;
            while k < snake.body.len()
                invariant
                    k <= snake.body@.len(),
                    cells@ =~= snake.body@.subrange(0, k as int),
                decreases snake.body@.len() - k,
            {
                cells.push(snake.body[k]);
                k = k + 1;
            }
            if snake.next.is_none() {
                can_move.push(snake.name.clone());
                assert(names(can_move@) =~= undecided(s.subrange(0, i + 1)));
            } else {
                assert(names(can_move@) =~= undecided(s.subrange(0, i + 1)));
            }
            alive.push(snake.name.clone());
            bodies.push((snake.name.clone(), cells));
            i = i + 1;
        }
        assert(s.subrange(0, s.len() as int) =~= s);
        assert(names(alive@) =~= snake_names(s));
        let winners = if self.stage == Stage::Ended {
            alive
        } else {
            let v: Vec<String> = Vec::new();
            assert(names(v@) =~= Seq::<Seq<char>>::empty());
            v
        };
        let fruits = self.game.fruit_cells();
        let r = GenericGameState {
            players: copy_names(&self.players),
            can_move,
            winners,
            stage: self.stage,
            payload: GamePayload::Snake {
                players: bodies,
                fruits,
                world_min: Point2D::new(BOARD_MIN_X, BOARD_MIN_Y),
                world_max: Point2D::new(BOARD_MAX_X, BOARD_MAX_Y),
            },
        };
        assert(names(r.players@) == self.player_names());
        assert(names(r.can_move@) == undecided(self.snakes()));
        assert(names(r.winners@) == if self.current_stage() == Stage::Ended {
            snake_names(self.snakes())
        } else {
            Seq::<Seq<char>>::empty()
        });
        assert(fruits@ == self.fruits());
        r
    }
}

impl GameAdapter for SnakeAdapter {
    open spec fn inv(&self) -> bool {
        self.well_formed()
    }

    open spec fn stage(&self) -> Stage {
        self.current_stage()
    }

    open spec fn players(&self) -> Seq<Seq<char>> {
        self.player_names()
    }

    open spec fn capacity(&self) -> nat {
        NUM_PLAYERS as nat
    }

    open spec fn game_type(&self) -> GameType {
        GameType::Snake
    }

    open spec fn clock(&self) -> u64 {
        self.change_clock()
    }

    open spec fn move_applied(
        &self,
        after: SnakeAdapter,
        game_move: GenericGameMove,
        r: Result<(), GameAdapterError>,
    ) -> bool {
        self.move_outcome(after, game_move, r)
    }

    open spec fn encodes(&self, state: GenericGameState) -> bool {
        self.state_encoding(state)
    }

    /// A join adds the player's snake at the next starting place, with no direction
    /// chosen, and leaves the fruits and the identifier as they were.
    open spec fn admitted(&self, after: SnakeAdapter, username: Seq<char>) -> bool {
        &&& after.snakes() == self.snakes().push(
            (username, start_cells(self.player_names().len() as int), None),
        )
        &&& after.fruits() == self.fruits()
        &&& after.id() == self.id()
    }

    open spec fn initial(&self, game_id: GameId) -> bool {
        &&& self.id() == game_id
        &&& self.player_names() == Seq::<Seq<char>>::empty()
        &&& self.current_stage() == Stage::Waiting
        &&& self.snakes() == Seq::<SnakeView>::empty()
        &&& self.fruits() == Seq::<Point2D>::empty()
        &&& self.change_clock() == 1
    }

    fn new(game_id: GameId) -> (r: SnakeAdapter) {
        let r = SnakeAdapter {
            game_id,
            players: Vec::new(),
            stage: Stage::Waiting,
            notifier: Notifier::new(),
            game: Snake::new(),
        };
        assert(r.player_names() =~= Seq::<Seq<char>>::empty());
        r
    }

    fn get_notifier(&self) -> (r: &Notifier) {
        &self.notifier
    }

    /// Admits a player, whose snake starts at the next of the four starting places.
    fn add_player(&mut self, username: String) -> (r: Result<(), GameAdapterError>) {
        let start = starts(self.players.len());
        let ghost s = self.game.snakes();
        self.game.snakes.push(SnakeBody { name: username.clone(), body: start, next: None });
        assert(self.game.snakes() =~= s.push((username@, start_cells(old(self).players@.len() as int), None)));
        self.players.push(username);
        assert(names(self.players@) =~= names(old(self).players@).push(username@));
        if self.players.len() == NUM_PLAYERS {
            self.stage = Stage::InProgress;
        }
        self.notifier.send();
        Ok(())
    }

    fn has_player(&self, username: &str) -> (r: bool) {
        let mut i: usize = 0;
        while i < self.players.len()
            invariant
                i <= self.players@.len(),
                forall|j: int| 0 <= j < i ==> #[trigger] self.players@[j]@ != username@,
            decreases self.players@.len() - i,
        {
            if same_text(self.players[i].as_str(), username) {
                assert(names(self.players@)[i as int] == username@);
                return true;
            }
            i = i + 1;
        }
        assert(!names(self.players@).contains(username@)) by {
            if names(self.players@).contains(username@) {
                let k = choose|k: int|
                    0 <= k < names(self.players@).len() && names(self.players@)[k] == username@;
                assert(self.players@[k]@ == username@);
            }
        }
        false
    }

    fn play_move(&mut self, game_move: GenericGameMove) -> (r: Result<(), GameAdapterError>) {
        self.apply_move(game_move)
    }

    fn get_stage(&self) -> (r: Stage) {
        self.stage
    }

    fn get_encoded_state(&self) -> (r: GenericGameState) {
        self.encoded_state()
    }

    fn get_type(&self) -> (r: GameType) {
        GameType::Snake
    }
}

} // verus!
