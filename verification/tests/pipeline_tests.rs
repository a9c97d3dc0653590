use cara::adjudicate::{adjudicate_game, GameStats, RuleType};
use cara::game_data::{map_game_data, GameTermination, RawGame, RawMove};
use cara::rules::{parse_draw_rule, parse_resign_rule};
use cara::stats::aggregate_outcomes;

fn raw_game(termination: GameTermination, comments: Vec<&str>) -> RawGame {
    RawGame {
        termination,
        moves: comments
            .into_iter()
            .map(|c| RawMove { comment: Some(c.to_string()) })
            .collect(),
    }
}

#[test]
fn mapped_batch_runs_through_adjudication_and_aggregation() {
    let games = vec![
        raw_game(
            GameTermination::DrawnGame,
            vec!["+0.10/10 0.100s", "-0.20/10 0.100s", "+0.15/10 0.100s", "-0.10/10 0.100s"],
        ),
        raw_game(
            GameTermination::WhiteWins,
            vec![
                "+0.50/10 0.100s",
                "-3.00/12 0.100s",
                "+0.50/10 0.100s",
                "-3.00/12 0.100s",
                "+0.50/10 0.100s",
                "-3.00/12 0.100s",
                "+0.50/10 0.100s",
                "-3.00/12 0.100s",
            ],
        ),
        raw_game(
            GameTermination::BlackWins,
            vec![
                "-3.00/12 0.100s",
                "+0.50/10 0.100s",
                "-3.00/12 0.100s",
                "+0.50/10 0.100s",
                "-3.00/12 0.100s",
                "+0.50/10 0.100s",
            ],
        ),
    ];

    let mapped = map_game_data(&games).unwrap();
    let resign = parse_resign_rule("250/3").unwrap();
    let draw = parse_draw_rule("none").unwrap();

    let outcomes: Vec<_> = mapped.iter().map(|g| adjudicate_game(g, &resign, &draw)).collect();

    assert_eq!(outcomes[0].rule_applied, None);
    assert_eq!(outcomes[0].adjudicated, GameStats { length: 4, time: 400, score10: 5 });

    assert_eq!(outcomes[1].rule_applied, Some(RuleType::Resign));
    assert_eq!(outcomes[1].actual, GameStats { length: 8, time: 800, score10: 10 });
    assert_eq!(outcomes[1].adjudicated, GameStats { length: 6, time: 600, score10: 10 });

    assert_eq!(outcomes[2].rule_applied, Some(RuleType::Resign));
    assert_eq!(outcomes[2].actual, GameStats { length: 6, time: 600, score10: 0 });
    assert_eq!(outcomes[2].adjudicated, GameStats { length: 5, time: 500, score10: 0 });

    let s = aggregate_outcomes(&outcomes);
    assert_eq!(s.games, 3);
    assert_eq!(s.resign_num, 2);
    assert_eq!(s.resign_num_wrong, 0);
    assert_eq!(s.resign_time_saved, 300);
    assert_eq!(s.resign_squared_error10, 0);
    assert_eq!(s.draw_num, 0);
    assert_eq!(s.actual_time, 1800);
    assert_eq!(s.adjudicated_time, 1500);
}
