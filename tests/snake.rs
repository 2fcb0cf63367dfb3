use game_server::game::adapter::{
    GameAdapter, GameAdapterErrorType, GamePayload, GenericGameMove, MovePayload, Stage,
};
use game_server::game::snake::{Direction, Point2D, Snake, SnakeAdapter};
use game_server::game::{AnyGame, GameError, GameType};
use game_server::ids::GameId;

const NAMES: [&str; 4] = ["ann", "ben", "cat", "dan"];

fn started() -> SnakeAdapter {
    let mut a = SnakeAdapter::new(GameId::from_bytes([5, 5, 5, 5]));
    for name in NAMES {
        assert!(a.add_player(name.to_string()).is_ok());
    }
    a
}

fn turn(a: &mut SnakeAdapter, player: &str, d: Direction) -> Result<(), GameAdapterErrorType> {
    a.play_move(GenericGameMove { player: player.to_string(), payload: MovePayload::Direction(d) })
        .map_err(|e| e.error_type)
}

fn round(a: &mut SnakeAdapter, moves: &[(&str, Direction)]) {
    for (p, d) in moves {
        turn(a, p, *d).unwrap();
    }
}

fn snake_of(a: &SnakeAdapter, name: &str) -> Option<Vec<Point2D>> {
    match a.get_encoded_state().payload {
        GamePayload::Snake { players, .. } => {
            players.into_iter().find(|(n, _)| n == name).map(|(_, cells)| cells)
        }
        _ => panic!("not a snake payload"),
    }
}

#[test]
fn points_step_in_each_direction() {
    let p = Point2D::new(1, -2);
    assert_eq!(p.add(&Direction::Up), Point2D::new(1, -1));
    assert_eq!(p.add(&Direction::Down), Point2D::new(1, -3));
    assert_eq!(p.add(&Direction::Left), Point2D::new(0, -2));
    assert_eq!(p.add(&Direction::Right), Point2D::new(2, -2));
    for _ in 0..100 {
        assert!(Point2D::random().is_on_board());
    }
    assert!(!Point2D::new(6, 0).is_on_board());
}

#[test]
fn the_game_starts_with_four_players() {
    let mut a = SnakeAdapter::new(GameId::from_bytes([5, 5, 5, 5]));
    assert_eq!(a.get_type(), GameType::Snake);
    for name in &NAMES[..3] {
        let _ = a.add_player(name.to_string());
        assert_eq!(a.get_stage(), Stage::Waiting);
    }
    assert!(matches!(
        turn(&mut a, "ann", Direction::Up),
        Err(GameAdapterErrorType::InvalidGameStage(Stage::Waiting))
    ));
    let _ = a.add_player("dan".to_string());
    assert_eq!(a.get_stage(), Stage::InProgress);
    assert_eq!(
        snake_of(&a, "ann"),
        Some(vec![Point2D::new(-3, -3), Point2D::new(-2, -3), Point2D::new(-1, -3)])
    );
    assert_eq!(
        snake_of(&a, "dan"),
        Some(vec![Point2D::new(3, 3), Point2D::new(2, 3), Point2D::new(1, 3)])
    );
    let state = a.get_encoded_state();
    assert_eq!(state.can_move.len(), 4);
    assert!(state.winners.is_empty());
}

#[test]
fn snakes_move_once_all_have_chosen() {
    let mut a = started();
    turn(&mut a, "ann", Direction::Left).unwrap();
    assert!(matches!(turn(&mut a, "ann", Direction::Up), Err(GameAdapterErrorType::InvalidPlayer(p)) if p == "ann"));
    assert!(matches!(turn(&mut a, "eve", Direction::Up), Err(GameAdapterErrorType::InvalidPlayer(p)) if p == "eve"));
    let state = a.get_encoded_state();
    assert_eq!(state.can_move, vec!["ben".to_string(), "cat".to_string(), "dan".to_string()]);
    round(&mut a, &[("ben", Direction::Up), ("cat", Direction::Down), ("dan", Direction::Right)]);
    assert_eq!(
        snake_of(&a, "ann"),
        Some(vec![Point2D::new(-4, -3), Point2D::new(-3, -3), Point2D::new(-2, -3)])
    );
    assert_eq!(
        snake_of(&a, "dan"),
        Some(vec![Point2D::new(4, 3), Point2D::new(3, 3), Point2D::new(2, 3)])
    );
    assert_eq!(a.get_encoded_state().can_move.len(), 4);
}

#[test]
fn a_snake_that_turns_into_itself_dies() {
    let mut a = started();
    round(&mut a, &[("ann", Direction::Right), ("ben", Direction::Up), ("cat", Direction::Down), ("dan", Direction::Right)]);
    assert_eq!(snake_of(&a, "ann"), None);
    assert_eq!(a.get_encoded_state().can_move, vec!["ben".to_string(), "cat".to_string(), "dan".to_string()]);
    assert!(matches!(turn(&mut a, "ann", Direction::Up), Err(GameAdapterErrorType::InvalidPlayer(p)) if p == "ann"));
}

#[test]
fn heads_that_meet_both_die_and_the_last_snake_wins() {
    let mut a = started();
    round(&mut a, &[("ann", Direction::Left), ("ben", Direction::Left), ("cat", Direction::Down), ("dan", Direction::Right)]);
    round(&mut a, &[("ann", Direction::Up), ("ben", Direction::Down), ("cat", Direction::Right), ("dan", Direction::Down)]);
    round(&mut a, &[("ann", Direction::Up), ("ben", Direction::Down), ("cat", Direction::Up), ("dan", Direction::Down)]);
    round(&mut a, &[("ann", Direction::Up), ("ben", Direction::Down), ("cat", Direction::Up), ("dan", Direction::Down)]);
    assert_eq!(snake_of(&a, "ann"), None);
    assert_eq!(snake_of(&a, "ben"), None);
    assert_eq!(a.get_stage(), Stage::InProgress);
    round(&mut a, &[("cat", Direction::Right), ("dan", Direction::Up)]);
    assert_eq!(a.get_stage(), Stage::Ended);
    let state = a.get_encoded_state();
    assert_eq!(state.winners, vec!["cat".to_string()]);
    assert!(matches!(
        turn(&mut a, "cat", Direction::Up),
        Err(GameAdapterErrorType::InvalidGameStage(Stage::Ended))
    ));
}

#[test]
fn a_column_is_no_snake_move() {
    let mut a = started();
    let r = a.play_move(GenericGameMove { player: "ann".to_string(), payload: MovePayload::Column(1) });
    assert!(matches!(r, Err(e) if matches!(e.error_type, GameAdapterErrorType::InvalidMove(_))));
}

#[test]
fn any_game_dispatches_by_type() {
    let id = GameId::from_bytes([6, 6, 6, 6]);
    let mut g = AnyGame::new(GameType::Snake, id, 100);
    assert_eq!(g.game_type(), GameType::Snake);
    let ann = g.receive_join(id, "ann".to_string()).unwrap();
    for name in &NAMES[1..] {
        g.receive_join(id, name.to_string()).unwrap();
    }
    assert!(matches!(g.receive_join(id, "eve".to_string()), Err(GameError::Adapter(_))));
    assert!(g.receive_move(ann, MovePayload::Direction(Direction::Left)).is_ok());
    let s = g.summary(id);
    assert_eq!(s.game_type, GameType::Snake);
    assert_eq!(s.stage, Stage::InProgress);
    assert!(matches!(g.get_state().payload, GamePayload::Snake { .. }));
    let c = AnyGame::new(GameType::Connect4, id, 100);
    assert_eq!(c.game_type(), GameType::Connect4);
    assert!(c.is_live(100));
    assert_eq!(c.subscribe().clock_value(), 1);
}

#[test]
fn fruit_goes_to_the_first_free_candidate() {
    let mut s = Snake::new();
    let taken = vec![Point2D::new(0, 0), Point2D::new(1, 0)];
    let candidates = vec![Point2D::new(0, 0), Point2D::new(1, 0), Point2D::new(2, 2), Point2D::new(3, 3)];
    s.place_fruit(false, &candidates, &taken);
    assert!(s.fruit_cells().is_empty());
    s.place_fruit(true, &candidates, &taken);
    assert_eq!(s.fruit_cells(), vec![Point2D::new(2, 2)]);
    // a cell that already holds a fruit is skipped too
    s.place_fruit(true, &candidates, &taken);
    assert_eq!(s.fruit_cells(), vec![Point2D::new(2, 2), Point2D::new(3, 3)]);
    // no free candidate: nothing is added
    s.place_fruit(true, &candidates, &taken);
    assert_eq!(s.fruit_cells().len(), 2);
}
