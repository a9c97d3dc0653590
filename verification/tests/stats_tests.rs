use cara::{GameData, MoveData};
use cara::adjudicate::{AdjudicationOutcome, GameStats, RuleType, adjudicate_game};
use cara::rules::{parse_draw_rule, parse_resign_rule};
use cara::stats::{Summary, aggregate_outcomes, format_time};

fn outcome(
    actual: (u32, u32, u32),
    rule_applied: Option<RuleType>,
    adjudicated: (u32, u32, u32),
) -> AdjudicationOutcome {
    AdjudicationOutcome {
        actual: GameStats { length: actual.0, time: actual.1, score10: actual.2 },
        rule_applied,
        adjudicated: GameStats {
            length: adjudicated.0,
            time: adjudicated.1,
            score10: adjudicated.2,
        },
    }
}

#[test]
fn aggregate_matches_independent_recomputation() {
    let outcomes = vec![
        outcome((100, 5000, 10), Some(RuleType::Resign), (80, 4000, 10)),
        outcome((60, 3000, 5), Some(RuleType::Resign), (50, 2500, 0)),
        outcome((70, 4000, 0), Some(RuleType::Draw), (40, 2000, 5)),
        outcome((90, 6000, 5), Some(RuleType::Draw), (60, 3500, 5)),
        outcome((50, 2000, 10), None, (50, 2000, 10)),
    ];
    let s = aggregate_outcomes(&outcomes);

    // Recompute every figure independently from the outcome list.
    let mut resign_num = 0u64;
    let mut resign_num_wrong = 0u64;
    let mut resign_time_saved = 0u64;
    let mut resign_squared_error10 = 0u64;
    let mut draw_num = 0u64;
    let mut draw_num_wrong = 0u64;
    let mut draw_time_saved = 0u64;
    let mut draw_squared_error10 = 0u64;
    let mut actual_time = 0u64;
    let mut adjudicated_time = 0u64;
    for o in &outcomes {
        let correct = o.actual.score10 == o.adjudicated.score10;
        let saved = if correct { (o.actual.time - o.adjudicated.time) as u64 } else { 0 };
        let d = o.actual.score10 as i64 - o.adjudicated.score10 as i64;
        let sq = (d * d) as u64;
        match o.rule_applied {
            Some(RuleType::Resign) => {
                resign_num += 1;
                resign_num_wrong += (!correct) as u64;
                resign_time_saved += saved;
                resign_squared_error10 += sq;
            }
            Some(RuleType::Draw) => {
                draw_num += 1;
                draw_num_wrong += (!correct) as u64;
                draw_time_saved += saved;
                draw_squared_error10 += sq;
            }
            None => {}
        }
        actual_time += o.actual.time as u64;
        adjudicated_time += o.adjudicated.time as u64;
    }

    assert_eq!(
        s,
        Summary {
            games: 5,
            resign_num,
            resign_num_wrong,
            resign_time_saved,
            resign_squared_error10,
            draw_num,
            draw_num_wrong,
            draw_time_saved,
            draw_squared_error10,
            actual_time,
            adjudicated_time,
        }
    );
    assert_eq!(s.resign_num, 2);
    assert_eq!(s.resign_num_wrong, 1);
    assert_eq!(s.resign_time_saved, 1000);
    assert_eq!(s.resign_squared_error10, 25);
    assert_eq!(s.draw_num, 2);
    assert_eq!(s.draw_num_wrong, 1);
    assert_eq!(s.draw_time_saved, 2500);
    assert_eq!(s.draw_squared_error10, 25);
    assert_eq!(s.actual_time, 20000);
    assert_eq!(s.adjudicated_time, 14000);

    // The mean squared error formula divides by the total game count.
    let mse = (s.resign_squared_error10 + s.draw_squared_error10) as f64 / 100f64
        / (s.games as f64);
    assert!((mse - 0.1).abs() < 1e-12);
}

#[test]
fn disabled_rules_produce_an_empty_report() {
    let resign = parse_resign_rule("none").unwrap();
    let draw = parse_draw_rule("none").unwrap();
    let evals: [Vec<i32>; 5] = [
        vec![-300, -300, -300, -300, -300, -300],
        vec![0, 0, 0, 0, 0, 0, 0, 0],
        vec![10000, -10000, 10000, -10000],
        vec![25, -25, 25, -25, 25],
        vec![-9999, -9999, -9999],
    ];
    let scores = [10u32, 5, 0, 5, 10];
    let mut outcomes = Vec::new();
    for (score10, evals) in scores.iter().zip(evals.into_iter()) {
        let g = GameData {
            score10: *score10,
            move_data: evals.into_iter().map(|eval| MoveData { eval, time: 50 }).collect(),
        };
        let o = adjudicate_game(&g, &resign, &draw);
        // With both rules disabled every adjudicated outcome equals the
        // actual one.
        assert_eq!(o.rule_applied, None);
        assert_eq!(o.adjudicated, o.actual);
        outcomes.push(o);
    }
    let s = aggregate_outcomes(&outcomes);
    assert_eq!(s.games, 5);
    assert_eq!(s.resign_num + s.draw_num, 0);
    assert_eq!(s.resign_num_wrong + s.draw_num_wrong, 0);
    assert_eq!(s.resign_time_saved + s.draw_time_saved, 0);
    assert_eq!(s.resign_squared_error10 + s.draw_squared_error10, 0);
    assert_eq!(s.adjudicated_time, s.actual_time);
    let mse = (s.resign_squared_error10 + s.draw_squared_error10) as f64 / 100f64
        / (s.games as f64);
    assert_eq!(mse, 0.0);
}

#[test]
fn time_formatting() {
    assert_eq!(format_time(0), "0:00:00.000");
    assert_eq!(format_time(999), "0:00:00.999");
    assert_eq!(format_time(1000), "0:00:01.000");
    assert_eq!(format_time(117986), "0:01:57.986");
    assert_eq!(format_time(90476), "0:01:30.476");
    assert_eq!(format_time(3600000), "1:00:00.000");
    assert_eq!(format_time(3661001), "1:01:01.001");
    assert_eq!(format_time(4294967295), "1193:02:47.295");
}
