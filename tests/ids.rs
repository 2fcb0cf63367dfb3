use game_server::ids::{GameId, SessionId};

#[test]
fn game_id_text_is_prefixed_base32() {
    let id = GameId::from_bytes([0xF8, 0x3E, 0x7F, 0x83]);
    assert_eq!(id.to_string(), "game_7A7H7AY");
}

#[test]
fn game_id_round_trips() {
    for _ in 0..50 {
        let id = GameId::new();
        let text = id.to_string();
        assert!(text.starts_with("game_"));
        assert_eq!(GameId::parse(&text).unwrap(), id);
    }
    let fixed = GameId::from_bytes([0, 1, 2, 255]);
    assert_eq!(GameId::parse(&fixed.to_string()).unwrap().bytes(), [0, 1, 2, 255]);
}

#[test]
fn session_id_round_trips() {
    for _ in 0..50 {
        let id = SessionId::new();
        let text = id.to_string();
        assert!(text.starts_with("session_"));
        assert_eq!(SessionId::parse(&text).unwrap(), id);
    }
}

#[test]
fn fresh_ids_differ() {
    assert_ne!(SessionId::new(), SessionId::new());
}

#[test]
fn parse_rejects_a_wrong_prefix() {
    let id = GameId::from_bytes([1, 2, 3, 4]);
    let text = id.to_string();
    let as_session = text.replacen("game_", "session_", 1);
    assert!(SessionId::parse(&as_session).is_err());
    assert!(GameId::parse(&text[1..]).is_err());
    let err = GameId::parse("gam_AEBAGBA").unwrap_err();
    assert_eq!(err.text, "gam_AEBAGBA");
}

#[test]
fn parse_rejects_a_wrong_width() {
    // five bytes
    assert!(GameId::parse("game_7A7H7A7H").is_err());
    // three bytes
    assert!(GameId::parse("game_AEBAG").is_err());
    assert!(GameId::parse("game_").is_err());
    let session = SessionId::from_bytes([7; 16]).to_string();
    assert!(GameId::parse(&session.replacen("session_", "game_", 1)).is_err());
}

#[test]
fn parse_rejects_text_that_is_not_base32() {
    assert!(GameId::parse("game_!!!!!!!").is_err());
    assert!(GameId::parse("game_AEBAGBé").is_err());
}

#[test]
fn same_compares_bytes() {
    let a = SessionId::from_bytes([1; 16]);
    let b = SessionId::from_bytes([1; 16]);
    let mut other = [1u8; 16];
    other[15] = 2;
    assert!(a.same(&b));
    assert!(!a.same(&SessionId::from_bytes(other)));
}
