use cara::game_data::{
    GameError, GameMappingError, GameTermination, RawGame, RawMove, map_game_data,
};

fn raw_game(termination: GameTermination, comments: Vec<Option<&str>>) -> RawGame {
    RawGame {
        termination,
        moves: comments
            .into_iter()
            .map(|c| RawMove { comment: c.map(|s| s.to_string()) })
            .collect(),
    }
}

fn good_game() -> RawGame {
    raw_game(
        GameTermination::DrawnGame,
        vec![Some("+0.10/10 0.100s"), Some("-0.20/10 0.200s")],
    )
}

#[test]
fn map_produces_records_in_order() {
    let games = vec![
        raw_game(GameTermination::WhiteWins, vec![Some("-1.91/13 0.031s")]),
        raw_game(GameTermination::DrawnGame, vec![Some("+0.18/15 0.45s")]),
        raw_game(GameTermination::BlackWins, vec![Some("+M17/21 0.020s")]),
    ];
    let mapped = map_game_data(&games).unwrap();
    assert_eq!(mapped.len(), 3);
    assert_eq!(mapped[0].score10, 10);
    assert_eq!(mapped[1].score10, 5);
    assert_eq!(mapped[2].score10, 0);
    assert_eq!(mapped[0].move_data[0].eval, -191);
    assert_eq!(mapped[0].move_data[0].time, 31);
    assert_eq!(mapped[1].move_data[0].eval, 18);
    assert_eq!(mapped[1].move_data[0].time, 450);
    assert_eq!(mapped[2].move_data[0].eval, 10000);
    assert_eq!(mapped[2].move_data[0].time, 20);
}

#[test]
fn map_reports_unknown_termination() {
    let games = vec![
        good_game(),
        raw_game(GameTermination::Unknown, vec![Some("+0.10/10 0.100s")]),
    ];
    let err = map_game_data(&games).unwrap_err();
    assert_eq!(
        err,
        GameMappingError { game_number: 2, error: GameError::UnknownGameTermination }
    );
}

#[test]
fn map_reports_missing_comment_with_zero_based_ply() {
    let games = vec![
        good_game(),
        raw_game(GameTermination::WhiteWins, vec![Some("+0.10/10 0.100s"), None]),
    ];
    let err = map_game_data(&games).unwrap_err();
    // A missing comment is reported with the 0-based ply index.
    assert_eq!(
        err,
        GameMappingError { game_number: 2, error: GameError::MissingComment { ply: 1 } }
    );
}

#[test]
fn map_reports_bad_comment_with_one_based_ply() {
    let games = vec![
        good_game(),
        raw_game(GameTermination::WhiteWins, vec![Some("+0.10/10 0.100s"), Some("garbage")]),
    ];
    let err = map_game_data(&games).unwrap_err();
    // An unparsable comment is reported with the 1-based ply index.
    assert_eq!(
        err,
        GameMappingError { game_number: 2, error: GameError::BadComment { ply: 2 } }
    );
}

#[test]
fn map_fails_fast_on_the_first_bad_game() {
    let games = vec![
        good_game(),
        raw_game(GameTermination::Unknown, vec![]),
        raw_game(GameTermination::WhiteWins, vec![Some("garbage")]),
    ];
    // Only the first bad game is reported; the later one is never reached.
    let err = map_game_data(&games).unwrap_err();
    assert_eq!(
        err,
        GameMappingError { game_number: 2, error: GameError::UnknownGameTermination }
    );
}

#[test]
fn map_of_empty_batch_is_empty() {
    let games: Vec<RawGame> = vec![];
    let mapped = map_game_data(&games).unwrap();
    assert_eq!(mapped.len(), 0);
}
