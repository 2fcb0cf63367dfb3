use game_server::game::adapter::{GameAdapter, GameAdapterErrorType, MovePayload, Stage};
use game_server::game::connect4::Connect4Adapter;
use game_server::game::{
    gc_keeps, Game, GameError, GameManagerError, InvalidUsernameReason, Session, GAME_TTL_MILLIS,
};
use game_server::ids::{GameId, SessionId};

fn new_game() -> (GameId, Game<Connect4Adapter>) {
    let id = GameId::from_bytes([9, 8, 7, 6]);
    (id, Game::new(id, 1_000))
}

#[test]
fn end_to_end_two_player_scenario() {
    let (id, mut game) = new_game();
    let alice = game.receive_join(id, "alice".to_string()).unwrap();
    assert_eq!(game.get_adapter().get_stage(), Stage::Waiting);
    let bob = game.receive_join(id, "bob".to_string()).unwrap();
    assert_ne!(alice, bob);
    assert_eq!(game.get_adapter().get_stage(), Stage::InProgress);
    match game.receive_join(id, "carol".to_string()) {
        Err(GameError::Adapter(e)) => {
            assert_eq!(e.game_id, id);
            assert!(matches!(e.error_type, GameAdapterErrorType::InvalidGameStage(Stage::InProgress)));
        }
        other => panic!("unexpected {:?}", other),
    }
    assert!(game.receive_move(alice, MovePayload::Column(3)).is_ok());
    match game.receive_move(alice, MovePayload::Column(3)) {
        Err(GameError::Adapter(e)) => match e.error_type {
            GameAdapterErrorType::InvalidPlayer(name) => assert_eq!(name, "alice"),
            other => panic!("unexpected {:?}", other),
        },
        other => panic!("unexpected {:?}", other),
    }
    assert!(game.receive_move(bob, MovePayload::Column(3)).is_ok());
    let state = game.get_state();
    assert_eq!(state.players, vec!["alice".to_string(), "bob".to_string()]);
    assert_eq!(state.can_move, vec!["alice".to_string()]);
}

#[test]
fn joining_twice_under_one_name_is_refused() {
    let id = GameId::from_bytes([1, 1, 1, 1]);
    let mut game: Game<Connect4Adapter> = Game::new(id, 0);
    assert!(game.join_at(id, "alice".to_string(), 5).is_ok());
    match game.join_at(id, "alice".to_string(), 6) {
        Err(GameError::Manager(GameManagerError::InvalidUsername { username, reason })) => {
            assert_eq!(username, "alice");
            assert!(matches!(reason, InvalidUsernameReason::AlreadyInGame(g) if g == id));
        }
        other => panic!("unexpected {:?}", other),
    }
    assert_eq!(game.get_last_update(), 5);
}

#[test]
fn usernames_must_have_one_to_twelve_bytes() {
    let (id, mut game) = new_game();
    match game.receive_join(id, String::new()) {
        Err(GameError::Manager(GameManagerError::InvalidUsername { reason, .. })) => {
            assert!(matches!(reason, InvalidUsernameReason::TooShort))
        }
        other => panic!("unexpected {:?}", other),
    }
    match game.receive_join(id, "abcdefghijklm".to_string()) {
        Err(GameError::Manager(GameManagerError::InvalidUsername { username, reason })) => {
            assert_eq!(username, "abcdefghijklm");
            assert!(matches!(reason, InvalidUsernameReason::TooLong));
        }
        other => panic!("unexpected {:?}", other),
    }
    // seven characters, fourteen bytes
    match game.receive_join(id, "ééééééé".to_string()) {
        Err(GameError::Manager(GameManagerError::InvalidUsername { reason, .. })) => {
            assert!(matches!(reason, InvalidUsernameReason::TooLong))
        }
        other => panic!("unexpected {:?}", other),
    }
    // six characters, twelve bytes
    assert!(game.receive_join(id, "éééééé".to_string()).is_ok());
    assert!(game.receive_join(id, "abcdefghijkl".to_string()).is_ok());
    assert_eq!(game.get_adapter().get_stage(), Stage::InProgress);
}

#[test]
fn moves_need_a_known_session_and_a_started_game() {
    let (id, mut game) = new_game();
    let stranger = SessionId::from_bytes([3; 16]);
    match game.receive_move(stranger, MovePayload::Column(0)) {
        Err(GameError::Manager(GameManagerError::SessionNotFound(s))) => assert_eq!(s, stranger),
        other => panic!("unexpected {:?}", other),
    }
    let alice = game.join_at(id, "alice".to_string(), 10).unwrap();
    match game.move_at(alice, MovePayload::Column(0), 20) {
        Err(GameError::Adapter(e)) => {
            assert!(matches!(e.error_type, GameAdapterErrorType::InvalidGameStage(Stage::Waiting)))
        }
        other => panic!("unexpected {:?}", other),
    }
    assert_eq!(game.get_last_update(), 10);
    let _bob = game.join_at(id, "bob".to_string(), 30).unwrap();
    assert!(game.move_at(alice, MovePayload::Column(0), 40).is_ok());
    assert_eq!(game.get_last_update(), 40);
    match game.move_at(alice, MovePayload::Column(0), 50) {
        Err(GameError::Adapter(_)) => {}
        other => panic!("unexpected {:?}", other),
    }
    assert_eq!(game.get_last_update(), 40);
}

#[test]
fn subscriptions_see_joins() {
    let (id, mut game) = new_game();
    let mut sub = game.subscribe();
    assert_eq!(sub.clock_value(), 1);
    let _ = game.receive_join(id, "alice".to_string());
    assert_eq!(sub.receiver().try_recv().unwrap(), 2);
    assert_eq!(game.subscribe().clock_value(), 2);
}

#[test]
fn summary_reflects_the_game() {
    let (id, mut game) = new_game();
    let _ = game.join_at(id, "alice".to_string(), 77);
    let s = game.summary(id);
    assert_eq!(s.game_id, id);
    assert_eq!(s.players, vec!["alice".to_string()]);
    assert_eq!(s.stage, Stage::Waiting);
    assert_eq!(s.last_updated, 77);
}

#[test]
fn gc_keeps_locked_games_and_recent_ones() {
    assert!(gc_keeps(true, 0, 10 * GAME_TTL_MILLIS));
    assert!(gc_keeps(false, 1_000, 1_000 + GAME_TTL_MILLIS));
    assert!(!gc_keeps(false, 1_000, 1_001 + GAME_TTL_MILLIS));
    assert!(gc_keeps(false, i64::MAX, i64::MIN));
    assert!(!gc_keeps(false, i64::MIN, i64::MAX));
    let (_, game) = new_game();
    assert!(game.is_live(1_000 + GAME_TTL_MILLIS));
    assert!(!game.is_live(1_001 + GAME_TTL_MILLIS));
}

#[test]
fn joins_record_the_current_time() {
    let id = GameId::from_bytes([2, 2, 2, 2]);
    let mut game: Game<Connect4Adapter> = Game::new(id, 0);
    let before = chrono::Utc::now().timestamp_millis();
    game.receive_join(id, "alice".to_string()).unwrap();
    let after = chrono::Utc::now().timestamp_millis();
    assert!(before <= game.get_last_update() && game.get_last_update() <= after);
}

#[test]
fn sessions_keep_their_username() {
    let s = Session::new("dora".to_string());
    assert_eq!(s.username(), "dora");
}
