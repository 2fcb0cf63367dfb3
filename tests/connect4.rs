use game_server::game::adapter::{
    GameAdapter, GameAdapterErrorType, GamePayload, GenericGameMove, MovePayload, Stage,
};
use game_server::game::connect4::{Connect4, Connect4Adapter, Token};
use game_server::ids::GameId;

fn fresh_board() -> Connect4 {
    Connect4::new(GameId::from_bytes([0, 0, 0, 0]))
}

#[test]
#[allow(non_snake_case)]
fn test_Down() {
    let mut game = fresh_board();
    let _ = game.insert_move_if_legal(0);
    game.switch_token();
    let _ = game.insert_move_if_legal(3);
    game.switch_token();
    let _ = game.insert_move_if_legal(0);
    game.switch_token();
    let _ = game.insert_move_if_legal(2);
    game.switch_token();
    let _ = game.insert_move_if_legal(0);
    game.switch_token();
    let _ = game.insert_move_if_legal(1);
    game.switch_token();
    let _ = game.insert_move_if_legal(0);
    assert_eq!(game.winning_move(0), true);
}

#[test]
#[allow(non_snake_case)]
fn test_LandR() {
    let mut game = fresh_board();
    let _ = game.insert_move_if_legal(3);
    game.switch_token();
    let _ = game.insert_move_if_legal(3);
    game.switch_token();
    let _ = game.insert_move_if_legal(2);
    game.switch_token();
    let _ = game.insert_move_if_legal(0);
    game.switch_token();
    let _ = game.insert_move_if_legal(1);
    game.switch_token();
    let _ = game.insert_move_if_legal(1);
    game.switch_token();
    let _ = game.insert_move_if_legal(4);
    assert_eq!(game.winning_move(4), true);
}

#[test]
#[allow(non_snake_case)]
fn test_LUandRD() {
    let mut game = fresh_board();
    let _ = game.insert_move_if_legal(2);
    game.switch_token();
    let _ = game.insert_move_if_legal(3);
    game.switch_token();
    let _ = game.insert_move_if_legal(1);
    game.switch_token();
    let _ = game.insert_move_if_legal(2);
    game.switch_token();
    let _ = game.insert_move_if_legal(1);
    game.switch_token();
    let _ = game.insert_move_if_legal(1);
    game.switch_token();
    let _ = game.insert_move_if_legal(0);
    game.switch_token();
    let _ = game.insert_move_if_legal(0);
    game.switch_token();
    let _ = game.insert_move_if_legal(0);
    game.switch_token();
    let _ = game.insert_move_if_legal(0);
    assert_eq!(game.winning_move(0), true);
}

#[test]
#[allow(non_snake_case)]
fn test_LDandRU() {
    let mut game = fresh_board();
    let _ = game.insert_move_if_legal(2);
    game.switch_token();
    let _ = game.insert_move_if_legal(3);
    game.switch_token();
    let _ = game.insert_move_if_legal(3);
    game.switch_token();
    let _ = game.insert_move_if_legal(4);
    game.switch_token();
    let _ = game.insert_move_if_legal(4);
    game.switch_token();
    let _ = game.insert_move_if_legal(5);
    game.switch_token();
    let _ = game.insert_move_if_legal(4);
    game.switch_token();
    let _ = game.insert_move_if_legal(5);
    game.switch_token();
    let _ = game.insert_move_if_legal(0);
    game.switch_token();
    let _ = game.insert_move_if_legal(5);
    game.switch_token();
    let _ = game.insert_move_if_legal(5);
    assert_eq!(game.winning_move(5), true);
}

#[test]
fn three_in_a_column_is_no_win() {
    let mut game = fresh_board();
    for _ in 0..3 {
        let _ = game.insert_move_if_legal(6);
    }
    assert!(!game.winning_move(6));
    assert!(!game.winning_move(5));
    assert!(!game.winning_move(7));
}

#[test]
fn cells_outside_the_board_are_empty() {
    let mut game = fresh_board();
    let _ = game.insert_move_if_legal(0);
    assert_eq!(game.get_cell_at(0, 0), Some(Token::Red));
    assert_eq!(game.get_cell_at(1, 0), None);
    assert_eq!(game.get_cell_at(-1, 0), None);
    assert_eq!(game.get_cell_at(0, 7), None);
    assert_eq!(game.get_cell_at(6, 0), None);
}

#[test]
fn a_missing_or_full_column_is_an_invalid_move() {
    let mut game = fresh_board();
    match game.insert_move_if_legal(9) {
        Err(e) => match e.error_type {
            GameAdapterErrorType::InvalidMove(text) => assert_eq!(text, "column 9 does not exist"),
            other => panic!("unexpected {:?}", other),
        },
        Ok(()) => panic!("accepted a missing column"),
    }
    for _ in 0..6 {
        assert!(game.insert_move_if_legal(2).is_ok());
    }
    match game.insert_move_if_legal(2) {
        Err(e) => match e.error_type {
            GameAdapterErrorType::InvalidMove(text) => assert_eq!(text, "column 2 is already full"),
            other => panic!("unexpected {:?}", other),
        },
        Ok(()) => panic!("accepted a full column"),
    }
}

#[test]
fn a_full_board_is_a_draw() {
    let mut game = fresh_board();
    assert!(!game.is_game_drawn());
    for c in 0..7 {
        for _ in 0..6 {
            let _ = game.insert_move_if_legal(c);
        }
    }
    assert!(game.is_game_drawn());
}

#[test]
fn switching_alternates_the_turn() {
    let mut game = fresh_board();
    assert_eq!(game.current_turn(), Token::Red);
    game.switch_token();
    assert_eq!(game.current_turn(), Token::Blue);
    game.switch_token();
    assert_eq!(game.current_turn(), Token::Red);
}

fn column_move(player: &str, column: usize) -> GenericGameMove {
    GenericGameMove { player: player.to_string(), payload: MovePayload::Column(column) }
}

#[test]
fn adapter_plays_a_game_to_a_win() {
    let mut a = Connect4Adapter::new(GameId::from_bytes([1, 2, 3, 4]));
    assert_eq!(a.get_stage(), Stage::Waiting);
    assert!(a.add_player("alice".to_string()).is_ok());
    assert_eq!(a.get_stage(), Stage::Waiting);
    assert!(a.add_player("bob".to_string()).is_ok());
    assert_eq!(a.get_stage(), Stage::InProgress);
    assert!(a.has_player("alice"));
    assert!(!a.has_player("carol"));
    assert_eq!(a.get_notifier().current(), 3);
    for _ in 0..3 {
        assert!(a.play_move(column_move("alice", 0)).is_ok());
        assert!(a.play_move(column_move("bob", 1)).is_ok());
    }
    assert!(a.play_move(column_move("alice", 0)).is_ok());
    assert_eq!(a.get_stage(), Stage::Ended);
    assert_eq!(a.get_notifier().current(), 10);
    let state = a.get_encoded_state();
    assert_eq!(state.winners, vec!["alice".to_string()]);
    assert!(state.can_move.is_empty());
    let cells = match state.payload {
        GamePayload::Connect4 { cells } => cells,
        other => panic!("unexpected {:?}", other),
    };
    assert_eq!(cells.len(), 7);
    assert_eq!(cells[0], vec!["alice".to_string(); 4]);
    assert_eq!(cells[1], vec!["bob".to_string(); 3]);
    match a.play_move(column_move("bob", 1)) {
        Err(e) => assert!(matches!(e.error_type, GameAdapterErrorType::InvalidGameStage(Stage::Ended))),
        Ok(()) => panic!("moved after the end"),
    }
}

#[test]
fn adapter_refuses_moves_out_of_turn_and_unreadable_ones() {
    let mut a = Connect4Adapter::new(GameId::from_bytes([1, 2, 3, 4]));
    match a.play_move(column_move("alice", 0)) {
        Err(e) => assert!(matches!(e.error_type, GameAdapterErrorType::InvalidGameStage(Stage::Waiting))),
        Ok(()) => panic!("moved before the start"),
    }
    let _ = a.add_player("alice".to_string());
    let _ = a.add_player("bob".to_string());
    match a.play_move(column_move("bob", 0)) {
        Err(e) => match e.error_type {
            GameAdapterErrorType::InvalidPlayer(name) => assert_eq!(name, "bob"),
            other => panic!("unexpected {:?}", other),
        },
        Ok(()) => panic!("moved out of turn"),
    }
    let unreadable = GenericGameMove {
        player: "alice".to_string(),
        payload: MovePayload::Unreadable("missing field `column`".to_string()),
    };
    match a.play_move(unreadable) {
        Err(e) => assert!(matches!(e.error_type, GameAdapterErrorType::InvalidMove(_))),
        Ok(()) => panic!("accepted an unreadable move"),
    }
    let state = a.get_encoded_state();
    assert_eq!(state.can_move, vec!["alice".to_string()]);
    assert_eq!(state.stage, Stage::InProgress);
}
