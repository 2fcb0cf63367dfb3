use game_server::api::ListGamesQuery;
use game_server::game::adapter::{format_invalid_game_stage, Stage};
use game_server::game::search::{GameSummary, SearchEngine, SearchOptions, SortKey, SortOrder};
use game_server::game::{GameError, GameManagerError, GameType};
use game_server::ids::GameId;
use std::cmp::Ordering;

fn summary(n: u8, players: usize, stage: Stage, last_updated: i64) -> GameSummary {
    GameSummary {
        game_id: GameId::from_bytes([n, 0, 0, 0]),
        game_type: GameType::Connect4,
        players: (0..players).map(|i| format!("p{}", i)).collect(),
        stage,
        last_updated,
    }
}

fn options(page: usize, sort_order: SortOrder, sort_key: SortKey) -> SearchOptions {
    SearchOptions { page, sort_order, sort_key, game_type: None, players: None, stage: None }
}

fn ids(v: &[GameSummary]) -> Vec<u8> {
    v.iter().map(|s| s.game_id.bytes()[0]).collect()
}

#[test]
fn page_zero_is_invalid() {
    let r = SearchEngine::apply(vec![], &options(0, SortOrder::Asc, SortKey::Players));
    assert!(matches!(r, Err(GameError::Manager(GameManagerError::InvalidPage))));
}

#[test]
fn sorts_by_the_key_and_breaks_ties_around_the_ring() {
    let input = vec![
        summary(1, 2, Stage::InProgress, 50),
        summary(2, 1, Stage::Waiting, 40),
        summary(3, 2, Stage::Ended, 10),
        summary(4, 2, Stage::InProgress, 30),
    ];
    let asc = SearchEngine::apply(input.clone(), &options(1, SortOrder::Asc, SortKey::Players)).unwrap();
    assert_eq!(ids(&asc), vec![2, 4, 1, 3]);
    let desc = SearchEngine::apply(input.clone(), &options(1, SortOrder::Desc, SortKey::Players)).unwrap();
    assert_eq!(ids(&desc), vec![3, 1, 4, 2]);
    let by_time = SearchEngine::apply(input, &options(1, SortOrder::Desc, SortKey::LastUpdated)).unwrap();
    assert_eq!(ids(&by_time), vec![1, 2, 4, 3]);
}

#[test]
fn level_summaries_keep_their_order() {
    let input = vec![
        summary(1, 2, Stage::Waiting, 5),
        summary(2, 2, Stage::Waiting, 5),
        summary(3, 1, Stage::Waiting, 5),
        summary(4, 2, Stage::Waiting, 5),
    ];
    let r = SearchEngine::apply(input.clone(), &options(1, SortOrder::Desc, SortKey::Stage)).unwrap();
    assert_eq!(ids(&r), vec![1, 2, 4, 3]);
    let again = SearchEngine::apply(input, &options(1, SortOrder::Desc, SortKey::Stage)).unwrap();
    assert_eq!(ids(&again), ids(&r));
}

#[test]
fn reversing_the_order_reverses_each_comparison() {
    let a = summary(1, 1, Stage::Waiting, 9);
    let b = summary(2, 1, Stage::Ended, 3);
    for key in [SortKey::GameType, SortKey::Players, SortKey::Stage, SortKey::LastUpdated] {
        let asc = SearchEngine::compare_summaries(&a, &b, key, SortOrder::Asc);
        let desc = SearchEngine::compare_summaries(&a, &b, key, SortOrder::Desc);
        assert_eq!(desc, asc.reverse());
    }
    assert_eq!(SearchEngine::compare_summaries(&a, &b, SortKey::Players, SortOrder::Asc), Ordering::Less);
    assert_eq!(SearchEngine::compare_summaries(&a, &b, SortKey::LastUpdated, SortOrder::Asc), Ordering::Greater);
    assert_eq!(SearchEngine::compare_summaries(&a, &a, SortKey::GameType, SortOrder::Desc), Ordering::Equal);
}

#[test]
fn the_ring_of_keys() {
    assert_eq!(SearchEngine::next_sort_key(SortKey::GameType), SortKey::Players);
    assert_eq!(SearchEngine::next_sort_key(SortKey::Players), SortKey::Stage);
    assert_eq!(SearchEngine::next_sort_key(SortKey::Stage), SortKey::LastUpdated);
    assert_eq!(SearchEngine::next_sort_key(SortKey::LastUpdated), SortKey::GameType);
}

#[test]
fn pages_hold_twenty_and_skip_before_filtering() {
    let input: Vec<GameSummary> = (0..45u8)
        .map(|n| {
            let stage = if n % 2 == 0 { Stage::Waiting } else { Stage::Ended };
            summary(n, 1, stage, n as i64)
        })
        .collect();
    let first = SearchEngine::apply(input.clone(), &options(1, SortOrder::Asc, SortKey::LastUpdated)).unwrap();
    assert_eq!(ids(&first), (0..20).collect::<Vec<u8>>());
    let third = SearchEngine::apply(input.clone(), &options(3, SortOrder::Asc, SortKey::LastUpdated)).unwrap();
    assert_eq!(ids(&third), (40..45).collect::<Vec<u8>>());
    let far = SearchEngine::apply(input.clone(), &options(usize::MAX, SortOrder::Asc, SortKey::LastUpdated)).unwrap();
    assert!(far.is_empty());
    let mut waiting = options(2, SortOrder::Asc, SortKey::LastUpdated);
    waiting.stage = Some(Stage::Waiting);
    let page = SearchEngine::apply(input, &waiting).unwrap();
    // the first twenty summaries are skipped before the filter applies
    assert_eq!(ids(&page), (20..45).filter(|n| n % 2 == 0).take(20).collect::<Vec<u8>>());
}

#[test]
fn filters_on_type_players_and_stage() {
    let input = vec![
        summary(1, 1, Stage::Waiting, 1),
        summary(2, 2, Stage::InProgress, 2),
        summary(3, 2, Stage::Ended, 3),
    ];
    let mut o = options(1, SortOrder::Asc, SortKey::LastUpdated);
    o.players = Some(2);
    assert_eq!(ids(&SearchEngine::apply(input.clone(), &o).unwrap()), vec![2, 3]);
    o.stage = Some(Stage::Ended);
    assert_eq!(ids(&SearchEngine::apply(input.clone(), &o).unwrap()), vec![3]);
    o.game_type = Some(GameType::Connect4);
    assert_eq!(ids(&SearchEngine::apply(input, &o).unwrap()), vec![3]);
}

#[test]
fn query_defaults() {
    let q = ListGamesQuery { page: None, sort_order: None, sort_key: None, game_type: None, players: Some(2), stage: None };
    let o = q.to_options();
    assert_eq!(o.page, 1);
    assert_eq!(o.sort_order, SortOrder::Desc);
    assert_eq!(o.sort_key, SortKey::LastUpdated);
    assert_eq!(o.players, Some(2));
    let q2 = ListGamesQuery { page: Some(3), sort_order: Some(SortOrder::Asc), sort_key: Some(SortKey::Stage), game_type: None, players: None, stage: Some(Stage::Ended) };
    let o2 = q2.to_options();
    assert_eq!((o2.page, o2.sort_order, o2.sort_key, o2.stage), (3, SortOrder::Asc, SortKey::Stage, Some(Stage::Ended)));
}

#[test]
fn stage_texts() {
    assert_eq!(format_invalid_game_stage(&Stage::Waiting), "game has not started yet");
    assert_eq!(format_invalid_game_stage(&Stage::InProgress), "game is in progress");
    assert_eq!(format_invalid_game_stage(&Stage::Ended), "game has ended");
    assert_eq!(Stage::InProgress.name(), "in_progress");
    assert_eq!(GameType::Connect4.name(), "connect_4");
}
